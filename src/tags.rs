use vstd::prelude::*;

use crate::text::views;

verus! {

/// Codes whose tags name something worth putting in a title:
/// artist (1), copyright (3) and character (4).
pub open spec fn title_type(code: u8) -> bool {
    code == 1 || code == 3 || code == 4
}

/// A tag belongs in a title when its type is title-worthy and it is not
/// literally one of the query terms.
pub open spec fn is_relevant(tag: Seq<char>, code: u8, query: Seq<Seq<char>>) -> bool {
    title_type(code) && !query.contains(tag)
}

/// Whether `tag`, of type `tag_type`, is shown in a post's title for `query`.
pub fn tag_in_title(tag: &str, tag_type: u8, query: &[String]) -> (r: bool)
    ensures
        r == is_relevant(tag@, tag_type, views(query@)),
{
    if tag_type != 4 && tag_type != 3 && tag_type != 1 {
        return false;
    }
    let owned = tag.to_owned();
    let mut i: usize = 0;
    while i < query.len()
        invariant
            owned@ == tag@,
            i <= query@.len(),
            forall|j: int| 0 <= j < i ==> query@[j]@ != tag@,
        decreases query@.len() - i,
    {
        if query[i] == owned {
            assert(views(query@)[i as int] == tag@);
            return false;
        }
        i += 1;
    }
    proof {
        if views(query@).contains(tag@) {
            let k = choose|k: int| 0 <= k < views(query@).len() && views(query@)[k] == tag@;
            assert(query@[k]@ == tag@);
        }
    }
    true
}

/// The pieces of `s` between single spaces, as `str::split(' ')` yields
/// them: empty pieces included, one more piece than there are spaces.
pub open spec fn split_spaces(s: Seq<char>) -> Seq<Seq<char>>
    decreases s.len(),
{
    if s.len() == 0 {
        seq![Seq::<char>::empty()]
    } else {
        let init = split_spaces(s.drop_last());
        if s.last() == ' ' {
            init.push(Seq::<char>::empty())
        } else {
            init.update(init.len() - 1, init.last().push(s.last()))
        }
    }
}

/// Splits a space-delimited tag string into its tags, in order.
pub fn split_tags(s: &str) -> (r: Vec<String>)
    ensures
        views(r@) == split_spaces(s@),
{
    let n = s.unicode_len();
    let mut pieces: Vec<String> = Vec::new();
    let mut start: usize = 0;
    let mut i: usize = 0;
    assert(s@.subrange(0, 0) =~= Seq::<char>::empty());
    assert(views(pieces@) =~= Seq::<Seq<char>>::empty());
    assert(split_spaces(Seq::<char>::empty()) =~= views(pieces@).push(Seq::<char>::empty()));
    while i < n
        invariant
            n == s@.len(),
            start <= i <= n,
            split_spaces(s@.subrange(0, i as int)) == views(pieces@).push(
                s@.subrange(start as int, i as int),
            ),
        decreases n - i,
    {
        let c = s.get_char(i);
        let ghost prefix = s@.subrange(0, i + 1);
        assert(prefix.drop_last() =~= s@.subrange(0, i as int));
        assert(prefix.last() == c);
        if c == ' ' {
            let piece = s.substring_char(start, i).to_owned();
            let ghost before = pieces@;
            pieces.push(piece);
            assert(views(pieces@) =~= views(before).push(piece@));
            start = i + 1;
            assert(s@.subrange(start as int, i + 1) =~= Seq::<char>::empty());
        } else {
            assert(s@.subrange(start as int, i + 1) =~= s@.subrange(start as int, i as int).push(c));
        }
        i += 1;
    }
    assert(s@.subrange(0, n as int) =~= s@);
    let last = s.substring_char(start, n).to_owned();
    let ghost before = pieces@;
    pieces.push(last);
    assert(views(pieces@) =~= views(before).push(last@));
    pieces
}

} // verus!
