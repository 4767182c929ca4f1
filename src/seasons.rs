use vstd::prelude::*;
use vstd::string::StringExecFns;

use crate::text::{join, join_strings, views};

verus! {

/// A calendar date.
pub type Date = (i64, u32, u32);

/// A date as year, month and day.
pub open spec fn date_view(d: Date) -> (int, int, int) {
    (d.0 as int, d.1 as int, d.2 as int)
}

/// Whether date `a` comes before date `b`.
pub open spec fn date_before(a: (int, int, int), b: (int, int, int)) -> bool {
    a.0 < b.0 || (a.0 == b.0 && (a.1 < b.1 || (a.1 == b.1 && a.2 < b.2)))
}

/// The date on which a quarter's listing closes: the 14th of the month
/// after the quarter ends.
pub open spec fn quarter_close(year: int, quarter: int) -> (int, int, int) {
    if quarter == 4 {
        (year + 1, 1, 14)
    } else {
        (year, quarter * 3 + 1, 14)
    }
}

/// Whether a quarter's searches still run on `today`: its listing closes
/// at the start of a later day.
pub fn quarter_open(year: i64, quarter: u32, today: Date) -> (r: bool)
    requires
        1 <= quarter <= 4,
        year < i64::MAX,
    ensures
        r == date_before(date_view(today), quarter_close(year as int, quarter as int)),
{
    let (y, m, d) = if quarter == 4 {
        (year + 1, 1u32, 14u32)
    } else {
        (year, quarter * 3 + 1, 14u32)
    };
    today.0 < y || (today.0 == y && (today.1 < m || (today.1 == m && today.2 < d)))
}

/// The search that matches any of the given expressions.
pub open spec fn any_of_text(searches: Seq<Seq<char>>) -> Seq<char> {
    "("@ + join(searches, ")|("@) + ")"@
}

/// The search that matches any of the given expressions: each in
/// parentheses, joined with `|`.
pub fn any_of(searches: &Vec<String>) -> (r: String)
    ensures
        r@ == any_of_text(views(searches@)),
{
    let mut r = String::from_str("(");
    let inner = join_strings(searches, ")|(");
    r.append(inner.as_str());
    r.append(")");
    r
}

} // verus!
