use vstd::prelude::*;
use vstd::string::StringExecFns;

use crate::hydrate::HydrateError;
use crate::tags::{is_relevant, tag_in_title};
use crate::text::{decimal, decimal_string, decode_entities, html_decoded, join, join_strings, views};

verus! {

/// A post of the image board, as the post search returns it.
#[derive(Debug, Clone, PartialEq, Eq)]
pub struct Post {
    pub id: i64,
    pub created_at: String,
    pub md5: String,
    pub tags: String,
}

/// The tags, in order, whose code was not found in the store.
pub open spec fn missing_spec(tags: Seq<Seq<char>>, codes: Seq<Option<u8>>) -> Seq<Seq<char>>
    decreases tags.len(),
{
    if tags.len() == 0 {
        Seq::empty()
    } else {
        missing_spec(tags.drop_last(), codes.subrange(0, tags.len() - 1)) + if codes[tags.len()
            - 1] is None {
            seq![tags.last()]
        } else {
            Seq::empty()
        }
    }
}

/// The tags, in order, for which the store held no code.
pub fn missing_tags(tags: &Vec<String>, codes: &Vec<Option<u8>>) -> (r: Vec<String>)
    requires
        codes@.len() == tags@.len(),
    ensures
        views(r@) == missing_spec(views(tags@), codes@),
{
    let mut r: Vec<String> = Vec::new();
    let mut i: usize = 0;
    assert(views(tags@.subrange(0, 0)) =~= Seq::<Seq<char>>::empty());
    while i < tags.len()
        invariant
            i <= tags@.len(),
            codes@.len() == tags@.len(),
            views(r@) == missing_spec(views(tags@.subrange(0, i as int)), codes@.subrange(0, i as int)),
        decreases tags@.len() - i,
    {
        let ghost before = views(r@);
        let ghost t = views(tags@.subrange(0, i + 1));
        assert(t.drop_last() =~= views(tags@.subrange(0, i as int)));
        assert(codes@.subrange(0, i + 1).subrange(0, i as int) =~= codes@.subrange(0, i as int));
        if codes[i].is_none() {
            r.push(tags[i].clone());
            assert(views(r@) =~= before + seq![tags@[i as int]@]);
        } else {
            assert(before + Seq::<Seq<char>>::empty() =~= before);
        }
        i += 1;
    }
    assert(tags@.subrange(0, tags@.len() as int) =~= tags@);
    assert(codes@.subrange(0, tags@.len() as int) =~= codes@);
    r
}

/// The code of each tag: the one first read from the store, or else the
/// one read once its lookup was done.
pub open spec fn merged_code(first: Option<u8>, reread: Option<u8>) -> Option<u8> {
    if first is Some {
        first
    } else {
        reread
    }
}

/// Puts together the codes of a post's tags from a first read of the
/// store and a read after the missing tags were looked up. Fails on the
/// first tag that neither read gave a code.
pub fn merge_codes(tags: &Vec<String>, first: &Vec<Option<u8>>, reread: &Vec<Option<u8>>) -> (r:
    Result<Vec<u8>, HydrateError>)
    requires
        first@.len() == tags@.len(),
        reread@.len() == tags@.len(),
    ensures
        match r {
            Ok(codes) => codes@.len() == tags@.len() && forall|i: int|
                0 <= i < tags@.len() ==> merged_code(first@[i], reread@[i]) == Some(
                    #[trigger] codes@[i],
                ),
            Err(HydrateError::UnreadableTag { name }) => exists|i: int|
                0 <= i < tags@.len() && (#[trigger] merged_code(first@[i], reread@[i])) is None
                    && name@ == tags@[i]@ && forall|j: int|
                    0 <= j < i ==> (#[trigger] merged_code(first@[j], reread@[j])) is Some,
            Err(_) => false,
        },
{
    let mut codes: Vec<u8> = Vec::new();
    let mut i: usize = 0;
    while i < tags.len()
        invariant
            i <= tags@.len(),
            first@.len() == tags@.len(),
            reread@.len() == tags@.len(),
            codes@.len() == i,
            forall|j: int|
                0 <= j < i ==> merged_code(first@[j], reread@[j]) == Some(#[trigger] codes@[j]),
        decreases tags@.len() - i,
    {
        let c = match first[i] {
            Some(c) => c,
            None => match reread[i] {
                Some(c) => c,
                None => {
                    assert forall|j: int| 0 <= j < i implies (#[trigger] merged_code(
                        first@[j],
                        reread@[j],
                    )) is Some by {
                        assert(merged_code(first@[j], reread@[j]) == Some(codes@[j]));
                    }
                    let name = tags[i].clone();
                    assert(merged_code(first@[i as int], reread@[i as int]) is None);
                    assert(name@ == tags@[i as int]@);
                    return Err(HydrateError::UnreadableTag { name });
                },
            },
        };
        codes.push(c);
        i += 1;
    }
    Ok(codes)
}

/// Whether some tag of the post is relevant.
pub open spec fn any_relevant(tags: Seq<Seq<char>>, codes: Seq<u8>, query: Seq<Seq<char>>) -> bool {
    exists|j: int| 0 <= j < tags.len() && is_relevant(tags[j], codes[j], query)
}

/// Whether `name` is the name of a relevant tag of the post.
pub open spec fn in_relevant_set(
    tags: Seq<Seq<char>>,
    codes: Seq<u8>,
    query: Seq<Seq<char>>,
    name: Seq<char>,
) -> bool {
    exists|j: int| 0 <= j < tags.len() && tags[j] == name && is_relevant(tags[j], codes[j], query)
}

/// The decoded tags that go in the title: those of the first `n` tags, in
/// their order, whose name is in the relevant set.
pub open spec fn shown_parts(
    tags: Seq<Seq<char>>,
    decoded: Seq<Seq<char>>,
    codes: Seq<u8>,
    query: Seq<Seq<char>>,
    n: nat,
) -> Seq<Seq<char>>
    decreases n,
{
    if n == 0 {
        Seq::empty()
    } else {
        shown_parts(tags, decoded, codes, query, (n - 1) as nat) + if in_relevant_set(
            tags,
            codes,
            query,
            tags[n - 1],
        ) {
            seq![decoded[n - 1]]
        } else {
            Seq::empty()
        }
    }
}

/// The title of a post: its relevant tags, decoded and in order, joined
/// with `, `, or its id when none is relevant; then ` - ` and its hash.
pub open spec fn title_text(
    id: i64,
    md5: Seq<char>,
    tags: Seq<Seq<char>>,
    decoded: Seq<Seq<char>>,
    codes: Seq<u8>,
    query: Seq<Seq<char>>,
) -> Seq<char> {
    let head = if any_relevant(tags, codes, query) {
        join(shown_parts(tags, decoded, codes, query, tags.len()), seq![',', ' '])
    } else {
        decimal(id as int)
    };
    head + seq![' ', '-', ' '] + md5
}

/// Builds a post's title from its tags, their decoded forms and their
/// type codes.
pub fn title_from_decoded(
    post: &Post,
    tags: &Vec<String>,
    decoded: &Vec<String>,
    codes: &Vec<u8>,
    query: &[String],
) -> (r: String)
    requires
        decoded@.len() == tags@.len(),
        codes@.len() == tags@.len(),
    ensures
        r@ == title_text(post.id, post.md5@, views(tags@), views(decoded@), codes@, views(query@)),
{
    let ghost tv = views(tags@);
    let ghost dv = views(decoded@);
    let ghost qv = views(query@);
    let n = tags.len();
    let mut flags: Vec<bool> = Vec::new();
    let mut any = false;
    let mut j: usize = 0;
    while j < n
        invariant
            n == tags@.len(),
            codes@.len() == n,
            tv == views(tags@),
            qv == views(query@),
            j <= n,
            flags@.len() == j,
            forall|k: int| 0 <= k < j ==> flags@[k] == is_relevant(tv[k], codes@[k], qv),
            any == exists|k: int| 0 <= k < j && is_relevant(tv[k], codes@[k], qv),
        decreases n - j,
    {
        let f = tag_in_title(tags[j].as_str(), codes[j], query);
        assert(tags@[j as int]@ == tv[j as int]);
        flags.push(f);
        let ghost was = any;
        any = any || f;
        assert(any == exists|k: int| 0 <= k < j + 1 && is_relevant(tv[k], codes@[k], qv)) by {
            if f {
                assert(is_relevant(tv[j as int], codes@[j as int], qv));
            }
            if any && !was {
                assert(f);
            }
            if exists|k: int| 0 <= k < j + 1 && is_relevant(tv[k], codes@[k], qv) {
                let k = choose|k: int| 0 <= k < j + 1 && is_relevant(tv[k], codes@[k], qv);
                if k < j {
                    assert(was);
                } else {
                    assert(f);
                }
            }
        }
        j += 1;
    }
    let mut parts: Vec<String> = Vec::new();
    let mut i: usize = 0;
    while i < n
        invariant
            n == tags@.len(),
            decoded@.len() == n,
            codes@.len() == n,
            flags@.len() == n,
            tv == views(tags@),
            dv == views(decoded@),
            qv == views(query@),
            i <= n,
            forall|k: int| 0 <= k < n ==> flags@[k] == is_relevant(tv[k], codes@[k], qv),
            views(parts@) == shown_parts(tv, dv, codes@, qv, i as nat),
        decreases n - i,
    {
        let mut shown = false;
        let mut k: usize = 0;
        while k < n
            invariant
                n == tags@.len(),
                flags@.len() == n,
                codes@.len() == n,
                tv == views(tags@),
                qv == views(query@),
                i < n,
                k <= n,
                forall|q: int| 0 <= q < n ==> flags@[q] == is_relevant(tv[q], codes@[q], qv),
                shown == exists|q: int|
                    0 <= q < k && tv[q] == tv[i as int] && is_relevant(tv[q], codes@[q], qv),
            decreases n - k,
        {
            if flags[k] && tags[k] == tags[i] {
                shown = true;
            }
            k += 1;
        }
        assert(shown == in_relevant_set(tv, codes@, qv, tv[i as int]));
        let ghost before = views(parts@);
        if shown {
            parts.push(decoded[i].clone());
            assert(views(parts@) =~= before + seq![dv[i as int]]);
        } else {
            assert(before + Seq::<Seq<char>>::empty() =~= before);
        }
        i += 1;
    }
    let mut title = if any {
        join_strings(&parts, ", ")
    } else {
        decimal_string(post.id)
    };
    title.append(" - ");
    title.append(post.md5.as_str());
    proof {
        reveal_strlit(", ");
        reveal_strlit(" - ");
        assert(", "@ =~= seq![',', ' ']);
        assert(" - "@ =~= seq![' ', '-', ' ']);
    }
    title
}

/// Builds a post's title from its tags and their type codes.
pub fn title_for_post(post: &Post, tags: &Vec<String>, codes: &Vec<u8>, query: &[String]) -> (r:
    String)
    requires
        codes@.len() == tags@.len(),
    ensures
        r@ == title_text(
            post.id,
            post.md5@,
            views(tags@),
            views(tags@).map_values(|t: Seq<char>| html_decoded(t)),
            codes@,
            views(query@),
        ),
{
    let mut decoded: Vec<String> = Vec::new();
    let mut i: usize = 0;
    while i < tags.len()
        invariant
            i <= tags@.len(),
            decoded@.len() == i,
            forall|k: int| 0 <= k < i ==> (#[trigger] decoded@[k])@ == html_decoded(tags@[k]@),
        decreases tags@.len() - i,
    {
        decoded.push(decode_entities(tags[i].as_str()));
        i += 1;
    }
    assert(views(decoded@) =~= views(tags@).map_values(|t: Seq<char>| html_decoded(t)));
    title_from_decoded(post, tags, &decoded, codes, query)
}

} // verus!
