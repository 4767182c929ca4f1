use vstd::prelude::*;

verus! {

/// Whether `s` holds `part` somewhere.
pub open spec fn holds_text(s: Seq<char>, part: Seq<char>) -> bool {
    exists|i: int| 0 <= i && i + part.len() <= s.len() && #[trigger] s.subrange(i, i + part.len()) == part
}

/// Whether a translation status post is kept in the news feed: posts about
/// `H-RPG` titles are left out.
pub fn is_kept_news(title: &str) -> (r: bool)
    ensures
        r == !holds_text(title@, "H-RPG"@),
{
    let part = "H-RPG";
    assert(part@ == "H-RPG"@);
    let n = title.unicode_len();
    let m = part.unicode_len();
    if n < m {
        return true;
    }
    let mut i: usize = 0;
    while i <= n - m
        invariant
            n == title@.len(),
            m == part@.len(),
            part@ == "H-RPG"@,
            m <= n,
            i <= n - m + 1,
            forall|k: int| 0 <= k < i ==> #[trigger] title@.subrange(k, k + m) != part@,
        decreases n - m + 1 - i,
    {
        let mut j: usize = 0;
        let mut same = true;
        while j < m
            invariant
                n == title@.len(),
                m == part@.len(),
                i + m <= n,
                j <= m,
                same == forall|q: int| 0 <= q < j ==> title@[i + q] == part@[q],
            decreases m - j,
        {
            if title.get_char(i + j) != part.get_char(j) {
                same = false;
            }
            j += 1;
        }
        if same {
            assert(title@.subrange(i as int, i + m) =~= part@);
            assert(title@.subrange(i as int, i + part@.len()) == part@);
            assert(holds_text(title@, part@));
            return false;
        }
        assert(title@.subrange(i as int, i + m) != part@) by {
            let q = choose|q: int| 0 <= q < m && title@[i + q] != part@[q];
            assert(title@.subrange(i as int, i + m)[q] != part@[q]);
        }
        i += 1;
    }
    assert forall|k: int| 0 <= k && k + m <= n implies #[trigger] title@.subrange(k, k + m) != part@ by {
        assert(k < i);
    }
    true
}

} // verus!
