use vstd::prelude::*;
use vstd::string::StringExecFns;

use crate::hydrate::batch_query;
use crate::tags::{split_spaces, split_tags};
use crate::text::{
    decimal, decimal_string, encode_terms, encoded_terms, html_decoded, percent_encoded,
    url_encode, views,
};
use crate::title::Post;

verus! {

/// Code-point order on strings, which is the byte order of their UTF-8
/// forms: a proper prefix comes first.
pub open spec fn text_less(a: Seq<char>, b: Seq<char>) -> bool
    decreases a.len(),
{
    if a.len() == 0 {
        b.len() > 0
    } else if b.len() == 0 {
        false
    } else if a[0] < b[0] {
        true
    } else if a[0] > b[0] {
        false
    } else {
        text_less(a.drop_first(), b.drop_first())
    }
}

/// Each string comes before the next one.
pub open spec fn strictly_sorted(s: Seq<Seq<char>>) -> bool {
    forall|i: int| 0 <= i < s.len() - 1 ==> text_less(#[trigger] s[i], s[i + 1])
}

proof fn lemma_text_total(a: Seq<char>, b: Seq<char>)
    requires
        a != b,
    ensures
        text_less(a, b) || text_less(b, a),
    decreases a.len(),
{
    if a.len() > 0 && b.len() > 0 && a[0] == b[0] {
        if a.drop_first() == b.drop_first() {
            assert(a =~= seq![a[0]] + a.drop_first());
            assert(b =~= seq![b[0]] + b.drop_first());
        }
        lemma_text_total(a.drop_first(), b.drop_first());
    } else if a.len() == 0 && b.len() == 0 {
        assert(a =~= b);
    }
}

/// Whether `a` comes before `b` in code-point order.
pub fn text_before(a: &str, b: &str) -> (r: bool)
    ensures
        r == text_less(a@, b@),
{
    let na = a.unicode_len();
    let nb = b.unicode_len();
    let mut i: usize = 0;
    assert(a@.skip(0) =~= a@);
    assert(b@.skip(0) =~= b@);
    while i < na && i < nb
        invariant
            na == a@.len(),
            nb == b@.len(),
            i <= na,
            i <= nb,
            text_less(a@, b@) == text_less(a@.skip(i as int), b@.skip(i as int)),
        decreases na - i,
    {
        let ca = a.get_char(i);
        let cb = b.get_char(i);
        assert(a@.skip(i as int)[0] == ca);
        assert(b@.skip(i as int)[0] == cb);
        if ca < cb {
            return true;
        }
        if ca > cb {
            return false;
        }
        assert(a@.skip(i as int).drop_first() =~= a@.skip(i + 1));
        assert(b@.skip(i as int).drop_first() =~= b@.skip(i + 1));
        i += 1;
    }
    i == na && i < nb
}

/// The first tag, in order, that the blacklist holds.
pub open spec fn first_listed(tags: Seq<Seq<char>>, blacklist: Seq<Seq<char>>) -> Option<Seq<char>>
    decreases tags.len(),
{
    if tags.len() == 0 {
        None
    } else if blacklist.contains(tags[0]) {
        Some(tags[0])
    } else {
        first_listed(tags.drop_first(), blacklist)
    }
}

/// The blacklisted term that excludes a post, if any.
pub open spec fn post_match(post: Post, blacklist: Seq<Seq<char>>) -> Option<Seq<char>> {
    first_listed(split_spaces(post.tags@), blacklist)
}

/// Whether the list holds a string equal to `s`.
fn holds(v: &[String], s: &String) -> (r: bool)
    ensures
        r == views(v@).contains(s@),
{
    let mut i: usize = 0;
    while i < v.len()
        invariant
            i <= v@.len(),
            forall|k: int| 0 <= k < i ==> v@[k]@ != s@,
        decreases v@.len() - i,
    {
        if v[i] == *s {
            assert(views(v@)[i as int] == s@);
            return true;
        }
        i += 1;
    }
    proof {
        if views(v@).contains(s@) {
            let k = choose|k: int| 0 <= k < views(v@).len() && views(v@)[k] == s@;
            assert(v@[k]@ == s@);
        }
    }
    false
}

/// The first of a post's tags that the blacklist holds, if any.
pub fn blacklist_match(tags: &Vec<String>, blacklist: &[String]) -> (r: Option<String>)
    ensures
        match r {
            Some(m) => first_listed(views(tags@), views(blacklist@)) == Some(m@),
            None => first_listed(views(tags@), views(blacklist@)) is None,
        },
{
    let mut i: usize = 0;
    assert(views(tags@).skip(0) =~= views(tags@));
    while i < tags.len()
        invariant
            i <= tags@.len(),
            first_listed(views(tags@), views(blacklist@)) == first_listed(
                views(tags@).skip(i as int),
                views(blacklist@),
            ),
        decreases tags@.len() - i,
    {
        let ghost rest = views(tags@).skip(i as int);
        assert(rest[0] == tags@[i as int]@);
        assert(rest.drop_first() =~= views(tags@).skip(i + 1));
        if holds(blacklist, &tags[i]) {
            return Some(tags[i].clone());
        }
        i += 1;
    }
    assert(views(tags@).skip(i as int) =~= Seq::<Seq<char>>::empty());
    None
}

/// Adds a string to a sorted list without repeats, unless it is there.
fn insert_sorted(m: &mut Vec<String>, x: String)
    requires
        strictly_sorted(views(old(m)@)),
        views(old(m)@).no_duplicates(),
    ensures
        strictly_sorted(views(final(m)@)),
        views(final(m)@).no_duplicates(),
        views(final(m)@).to_set() == views(old(m)@).to_set().insert(x@),
{
    if holds(m.as_slice(), &x) {
        assert(views(m@).to_set() =~= views(m@).to_set().insert(x@));
        return;
    }
    let ghost before = views(m@);
    let mut p: usize = 0;
    while p < m.len() && text_before(m[p].as_str(), x.as_str())
        invariant
            p <= m@.len(),
            before == views(m@),
            forall|q: int| 0 <= q < p ==> text_less(before[q], x@),
        decreases m@.len() - p,
    {
        p += 1;
    }
    let ghost xv = x@;
    m.insert(p, x);
    let ghost after = views(m@);
    assert(after =~= before.insert(p as int, xv));
    proof {
        if p < before.len() {
            assert(!text_less(before[p as int], xv));
            assert(before[p as int] != xv);
            lemma_text_total(before[p as int], xv);
        }
    }
    assert forall|i: int| 0 <= i < after.len() - 1 implies text_less(
        #[trigger] after[i],
        after[i + 1],
    ) by {
        if i < p - 1 {
            assert(after[i] == before[i] && after[i + 1] == before[i + 1]);
        } else if i == p - 1 {
            assert(after[i] == before[i] && after[i + 1] == xv);
        } else if i == p {
            assert(after[i] == xv && after[i + 1] == before[i]);
        } else {
            assert(after[i] == before[i - 1] && after[i + 1] == before[i]);
        }
    }
    assert forall|i: int, j: int| 0 <= i < after.len() && 0 <= j < after.len() && i != j implies after[i]
        != after[j] by {
        if after[i] == xv {
            assert(i == p) by {
                if i < p {
                    assert(before[i] == xv);
                } else if i > p {
                    assert(before[i - 1] == xv);
                }
            }
        }
        if after[j] == xv {
            assert(j == p) by {
                if j < p {
                    assert(before[j] == xv);
                } else if j > p {
                    assert(before[j - 1] == xv);
                }
            }
        }
        if i != p && j != p {
            let bi = if i < p { i } else { i - 1 };
            let bj = if j < p { j } else { j - 1 };
            assert(after[i] == before[bi] && after[j] == before[bj]);
        }
    }
    assert forall|y: Seq<char>| after.to_set().contains(y) <==> before.to_set().insert(xv).contains(y) by {
        if after.to_set().contains(y) {
            let i = choose|i: int| 0 <= i < after.len() && after[i] == y;
            if i < p {
                assert(before[i] == y);
            } else if i > p {
                assert(before[i - 1] == y);
            }
        }
        if before.to_set().contains(y) {
            let i = choose|i: int| 0 <= i < before.len() && before[i] == y;
            if i < p {
                assert(after[i] == y);
            } else {
                assert(after[i + 1] == y);
            }
        }
        if y == xv {
            assert(after[p as int] == y);
        }
    }
    assert(after.to_set() =~= before.to_set().insert(xv));
}

/// The positions, in order, of the first `n` posts that no blacklisted
/// term excludes.
pub open spec fn kept_spec(posts: Seq<Post>, blacklist: Seq<Seq<char>>, n: nat) -> Seq<usize>
    decreases n,
{
    if n == 0 {
        Seq::empty()
    } else {
        kept_spec(posts, blacklist, (n - 1) as nat) + if post_match(posts[n - 1], blacklist) is None {
            seq![(n - 1) as usize]
        } else {
            Seq::empty()
        }
    }
}

/// The blacklisted terms that exclude some of the first `n` posts.
pub open spec fn matched_spec(posts: Seq<Post>, blacklist: Seq<Seq<char>>, n: nat) -> Set<Seq<char>> {
    Set::new(|t: Seq<char>| exists|i: int| 0 <= i < n && post_match(posts[i], blacklist) == Some(t))
}

/// The outcome of holding posts against the blacklist.
#[derive(Debug, Clone, PartialEq, Eq)]
pub struct Screened {
    /// Positions of the posts that stay, in order.
    pub kept: Vec<usize>,
    /// The terms that excluded some post, each once, in code-point order.
    pub matched: Vec<String>,
}

/// Holds posts against the blacklist: a post that carries a blacklisted
/// tag is dropped, and the first such tag is recorded.
pub fn screen_posts(posts: &Vec<Post>, blacklist: &[String]) -> (r: Screened)
    ensures
        r.kept@ == kept_spec(posts@, views(blacklist@), posts@.len()),
        views(r.matched@).to_set() == matched_spec(posts@, views(blacklist@), posts@.len()),
        views(r.matched@).no_duplicates(),
        strictly_sorted(views(r.matched@)),
{
    let ghost bl = views(blacklist@);
    let mut kept: Vec<usize> = Vec::new();
    let mut matched: Vec<String> = Vec::new();
    let mut i: usize = 0;
    assert(views(matched@).to_set() =~= matched_spec(posts@, bl, 0));
    while i < posts.len()
        invariant
            i <= posts@.len(),
            bl == views(blacklist@),
            kept@ == kept_spec(posts@, bl, i as nat),
            views(matched@).to_set() == matched_spec(posts@, bl, i as nat),
            views(matched@).no_duplicates(),
            strictly_sorted(views(matched@)),
        decreases posts@.len() - i,
    {
        let tags = split_tags(posts[i].tags.as_str());
        let found = blacklist_match(&tags, blacklist);
        let ghost m0 = views(matched@).to_set();
        match found {
            Some(t) => {
                let ghost tv = t@;
                insert_sorted(&mut matched, t);
                assert(kept_spec(posts@, bl, (i + 1) as nat) =~= kept_spec(posts@, bl, i as nat));
                assert(matched_spec(posts@, bl, (i + 1) as nat) =~= m0.insert(tv)) by {
                    assert(post_match(posts@[i as int], bl) == Some(tv));
                }
            },
            None => {
                kept.push(i);
                assert(matched_spec(posts@, bl, (i + 1) as nat) =~= m0);
            },
        }
        i += 1;
    }
    Screened { kept, matched }
}

/// The exclusion suffix of a search: `+-` and the percent-encoded term,
/// for each term in order.
pub open spec fn exclusion_text(terms: Seq<Seq<char>>) -> Seq<char>
    decreases terms.len(),
{
    if terms.len() == 0 {
        Seq::empty()
    } else {
        exclusion_text(terms.drop_last()) + seq!['+', '-'] + percent_encoded(
            vstd::utf8::encode_utf8(terms.last()),
        )
    }
}

/// The suffix that excludes the given terms from a search.
pub fn exclusion_suffix(terms: &Vec<String>) -> (r: String)
    ensures
        r@ == exclusion_text(views(terms@)),
{
    let mut r = String::new();
    let mut i: usize = 0;
    assert(views(terms@.subrange(0, 0)) =~= Seq::<Seq<char>>::empty());
    while i < terms.len()
        invariant
            i <= terms@.len(),
            r@ == exclusion_text(views(terms@.subrange(0, i as int))),
        decreases terms@.len() - i,
    {
        assert(views(terms@.subrange(0, i + 1)).drop_last() =~= views(terms@.subrange(0, i as int)));
        r.append("+-");
        let e = url_encode(terms[i].as_str());
        r.append(e.as_str());
        proof {
            reveal_strlit("+-");
            assert("+-"@ =~= seq!['+', '-']);
        }
        i += 1;
    }
    assert(terms@.subrange(0, terms@.len() as int) =~= terms@);
    r
}

/// The search URL of the post index for a query.
pub fn posts_url(query: &[String]) -> (r: String)
    ensures
        r@ == "https://gelbooru.com/index.php?page=dapi&s=post&q=index&json=1&tags="@ + encoded_terms(
            views(query@),
        ),
{
    let mut r = String::from_str("https://gelbooru.com/index.php?page=dapi&s=post&q=index&json=1&tags=");
    let q = encode_terms(query);
    r.append(q.as_str());
    r
}

/// The tag lookup URL for a batch of names.
pub fn tags_url(batch: &Vec<String>) -> (r: String)
    ensures
        r@ == "https://gelbooru.com/index.php?page=dapi&s=tag&q=index&json=1&names="@ + encoded_terms(
            views(batch@).map_values(|n: Seq<char>| html_decoded(n)),
        ),
{
    let mut r = String::from_str("https://gelbooru.com/index.php?page=dapi&s=tag&q=index&json=1&names=");
    let q = batch_query(batch);
    r.append(q.as_str());
    r
}

/// The page of a post.
pub fn post_link(id: i64) -> (r: String)
    ensures
        r@ == "https://gelbooru.com/index.php?page=post&s=view&id="@ + decimal(id as int),
{
    let mut r = String::from_str("https://gelbooru.com/index.php?page=post&s=view&id=");
    let d = decimal_string(id);
    r.append(d.as_str());
    r
}

/// The link of the feed: the search for the query, with the terms that
/// excluded posts excluded from it.
pub fn feed_link(query: &[String], matched: &Vec<String>) -> (r: String)
    ensures
        r@ == "https://gelbooru.com/index.php?page=post&s=list&tags="@ + encoded_terms(views(query@))
            + exclusion_text(views(matched@)),
{
    let mut r = String::from_str("https://gelbooru.com/index.php?page=post&s=list&tags=");
    let q = encode_terms(query);
    r.append(q.as_str());
    let s = exclusion_suffix(matched);
    r.append(s.as_str());
    r
}

} // verus!
