use vstd::prelude::*;
use vstd::string::StringExecFns;

use crate::text::views;

verus! {

/// Whether `s` ends with `suffix`.
pub open spec fn ends_with(s: Seq<char>, suffix: Seq<char>) -> bool {
    s.len() >= suffix.len() && s.subrange(s.len() - suffix.len(), s.len() as int) == suffix
}

/// Whether a series event announces a final part: its details end with
/// `FINAL`.
pub fn is_final_event(details: &str) -> (r: bool)
    ensures
        r == ends_with(details@, "FINAL"@),
{
    let suffix = "FINAL";
    assert(suffix@ == "FINAL"@);
    let n = details.unicode_len();
    let m = suffix.unicode_len();
    if n < m {
        return false;
    }
    let mut i: usize = 0;
    while i < m
        invariant
            n == details@.len(),
            m == suffix@.len(),
            suffix@ == "FINAL"@,
            m <= n,
            i <= m,
            forall|k: int| 0 <= k < i ==> details@[n - m + k] == suffix@[k],
        decreases m - i,
    {
        if details.get_char(n - m + i) != suffix.get_char(i) {
            assert(details@.subrange(n - m, n as int)[i as int] != suffix@[i as int]);
            assert(details@.subrange(n - m, n as int) != suffix@);
            return false;
        }
        i += 1;
    }
    assert(details@.subrange(n - m, n as int) =~= suffix@);
    true
}

/// The link fragment of a part of a series.
pub fn part_fragment(titleslug: &str) -> (r: String)
    ensures
        r@ == "/c/"@ + titleslug@,
{
    let mut r = String::from_str("/c/");
    r.append(titleslug);
    r
}

/// The title of a part's feed item: marked `FINAL` when its fragment is
/// among those of the final parts.
pub fn part_title(title: &str, fragment: &String, finals: &[String]) -> (r: String)
    ensures
        r@ == if views(finals@).contains(fragment@) {
            title@ + " FINAL"@
        } else {
            title@
        },
{
    let mut r = String::from_str(title);
    let mut i: usize = 0;
    while i < finals.len()
        invariant
            i <= finals@.len(),
            r@ == title@,
            forall|k: int| 0 <= k < i ==> finals@[k]@ != fragment@,
        decreases finals@.len() - i,
    {
        if finals[i] == *fragment {
            assert(views(finals@)[i as int] == fragment@);
            r.append(" FINAL");
            return r;
        }
        i += 1;
    }
    assert(!views(finals@).contains(fragment@)) by {
        if views(finals@).contains(fragment@) {
            let k = choose|k: int| 0 <= k < views(finals@).len() && views(finals@)[k] == fragment@;
            assert(finals@[k]@ == fragment@);
        }
    }
    r
}

} // verus!
