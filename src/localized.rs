use vstd::prelude::*;

verus! {

/// A text in several languages: pairs of language code and text, the
/// codes distinct.
pub type LocalizedString = Vec<(String, String)>;

/// The views of the pairs of a localized text.
pub open spec fn pair_views(s: Seq<(String, String)>) -> Seq<(Seq<char>, Seq<char>)> {
    s.map_values(|p: (String, String)| (p.0@, p.1@))
}

/// The text of the first pair whose language is `en`.
pub open spec fn english_of(s: Seq<(Seq<char>, Seq<char>)>) -> Option<Seq<char>>
    decreases s.len(),
{
    if s.len() == 0 {
        None
    } else if s[0].0 == seq!['e', 'n'] {
        Some(s[0].1)
    } else {
        english_of(s.drop_first())
    }
}

/// The English text if there is one, else the first text, else nothing.
pub open spec fn english_or_first_spec(s: Seq<(Seq<char>, Seq<char>)>) -> Option<Seq<char>> {
    if english_of(s) is Some {
        english_of(s)
    } else if s.len() > 0 {
        Some(s[0].1)
    } else {
        None
    }
}

/// Picks the English text of a localized text, or else its first text.
pub fn english_or_first(s: &LocalizedString) -> (r: Option<String>)
    ensures
        match r {
            Some(t) => english_or_first_spec(pair_views(s@)) == Some(t@),
            None => english_or_first_spec(pair_views(s@)) is None,
        },
{
    let ghost v = pair_views(s@);
    let key = String::from_str("en");
    proof {
        reveal_strlit("en");
        assert("en"@ =~= seq!['e', 'n']);
    }
    let mut i: usize = 0;
    assert(v.skip(0) =~= v);
    while i < s.len()
        invariant
            i <= s@.len(),
            v == pair_views(s@),
            key@ == seq!['e', 'n'],
            english_of(v) == english_of(v.skip(i as int)),
        decreases s@.len() - i,
    {
        assert(v.skip(i as int)[0] == v[i as int]);
        assert(v.skip(i as int).drop_first() =~= v.skip(i + 1));
        if s[i].0 == key {
            return Some(s[i].1.clone());
        }
        i += 1;
    }
    assert(v.skip(i as int) =~= Seq::<(Seq<char>, Seq<char>)>::empty());
    if s.len() > 0 {
        Some(s[0].1.clone())
    } else {
        None
    }
}

} // verus!
