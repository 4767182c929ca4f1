use vstd::prelude::*;

use crate::text::{
    decode_entities, encode_terms, encoded_terms, html_decoded, lower_of, lowercase, views,
};

verus! {

/// Largest number of names asked for in one tag lookup.
pub const BATCH_SIZE: usize = 50;

/// One record of a tag lookup response.
#[derive(Debug, Clone, PartialEq, Eq)]
pub struct TagRecord {
    pub name: String,
    pub type_field: i64,
}

/// What reconciling one lookup response gives: the writes to make to the
/// store, in order, and the requested names that no record answered.
#[derive(Debug, Clone, PartialEq, Eq)]
pub struct Reconciled {
    pub writes: Vec<(String, u8)>,
    pub unmatched: Vec<String>,
}

/// Why resolving a post's tags failed.
#[derive(Debug, Clone, PartialEq, Eq)]
pub enum HydrateError {
    /// Requested names that the lookup response did not answer.
    Unmatched { names: Vec<String> },
    /// A record whose type does not fit a type code.
    InvalidTypeCode { name: String, code: i64 },
    /// A tag still without a type once its lookup was done.
    UnreadableTag { name: String },
}

/// The `k`-th batch of a list split into batches of `BATCH_SIZE`.
pub open spec fn batch_of<T>(s: Seq<T>, k: int) -> Seq<T> {
    let end = if 50 * k + 50 <= s.len() {
        50 * k + 50
    } else {
        s.len() as int
    };
    s.subrange(50 * k, end)
}

/// The number of batches a list of `n` names takes: `n / 50` rounded up.
pub open spec fn batch_count(n: nat) -> nat {
    (n + 49) / 50
}

/// Splits names into consecutive batches of at most `BATCH_SIZE`, so that
/// one lookup is made per batch.
pub fn tag_batches(names: &Vec<String>) -> (r: Vec<Vec<String>>)
    ensures
        r@.len() == batch_count(names@.len()),
        forall|k: int| 0 <= k < r@.len() ==> (#[trigger] r@[k])@ == batch_of(names@, k),
{
    let n = names.len();
    let mut r: Vec<Vec<String>> = Vec::new();
    let mut start: usize = 0;
    while start < n
        invariant
            n == names@.len(),
            start <= n,
            start < n ==> start == 50 * r@.len(),
            r@.len() == batch_count(start as nat),
            forall|k: int| 0 <= k < r@.len() ==> (#[trigger] r@[k])@ == batch_of(names@, k),
        decreases n - start,
    {
        let end = if n - start > BATCH_SIZE {
            start + BATCH_SIZE
        } else {
            n
        };
        let mut batch: Vec<String> = Vec::new();
        let mut j: usize = start;
        while j < end
            invariant
                start <= j <= end <= n,
                n == names@.len(),
                batch@ == names@.subrange(start as int, j as int),
            decreases end - j,
        {
            batch.push(names[j].clone());
            assert(batch@ =~= names@.subrange(start as int, j + 1));
            j += 1;
        }
        let ghost k = r@.len() as int;
        let ghost before = r@;
        assert(batch@ == batch_of(names@, k));
        r.push(batch);
        assert(forall|q: int| 0 <= q < k ==> r@[q] == before[q]);
        assert(end == n || end == 50 * (k + 1));
        assert(batch_count(end as nat) == k + 1) by {
            assert(start == 50 * k);
            assert(end as int > 50 * k);
            assert(end as int <= 50 * k + 50);
        }
        start = end;
    }
    r
}

/// The names part of a tag lookup request for a batch: each name
/// entity-decoded, then percent-encoded, joined with `+`.
pub fn batch_query(batch: &Vec<String>) -> (r: String)
    ensures
        r@ == encoded_terms(views(batch@).map_values(|n: Seq<char>| html_decoded(n))),
{
    let mut decoded: Vec<String> = Vec::new();
    let mut i: usize = 0;
    while i < batch.len()
        invariant
            i <= batch@.len(),
            decoded@.len() == i,
            forall|k: int| 0 <= k < i ==> (#[trigger] decoded@[k])@ == html_decoded(batch@[k]@),
        decreases batch@.len() - i,
    {
        let d = decode_entities(batch[i].as_str());
        decoded.push(d);
        i += 1;
    }
    assert(views(decoded@) =~= views(batch@).map_values(|n: Seq<char>| html_decoded(n)));
    encode_terms(decoded.as_slice())
}

/// A record's name, its type code and its lower-cased name.
pub type Entry = (Seq<char>, u8, Seq<char>);

/// Whether a record's type fits a type code.
pub open spec fn code_fits(t: TagRecord) -> bool {
    0 <= t.type_field <= 255
}

/// The entries for records and their lower-cased names.
pub open spec fn entries(records: Seq<TagRecord>, lowered: Seq<String>) -> Seq<Entry> {
    Seq::new(records.len(), |i: int| (records[i].name@, records[i].type_field as u8, lowered[i]@))
}

/// The entries for records, each with its name lower-cased by
/// `str::to_lowercase`.
pub open spec fn lowered_entries(records: Seq<TagRecord>) -> Seq<Entry> {
    Seq::new(
        records.len(),
        |i: int| (records[i].name@, records[i].type_field as u8, lower_of(records[i].name@)),
    )
}

/// The views of a list of writes.
pub open spec fn write_views(w: Seq<(String, u8)>) -> Seq<(Seq<char>, u8)> {
    w.map_values(|p: (String, u8)| (p.0@, p.1))
}

/// Reconciling entries in order against the names not yet answered. Each
/// record is written under its own name. If its name was not awaited but
/// its lower-cased name was, it is written under that name too and that
/// name counts as answered. Gives the writes and the names left unanswered.
pub open spec fn reconcile_spec(unmatched: Set<Seq<char>>, es: Seq<Entry>) -> (
    Seq<(Seq<char>, u8)>,
    Set<Seq<char>>,
)
    decreases es.len(),
{
    if es.len() == 0 {
        (Seq::empty(), unmatched)
    } else {
        let (name, code, lower) = es[0];
        if unmatched.contains(name) {
            let rest = reconcile_spec(unmatched.remove(name), es.drop_first());
            (seq![(name, code)] + rest.0, rest.1)
        } else if unmatched.contains(lower) {
            let rest = reconcile_spec(unmatched.remove(lower), es.drop_first());
            (seq![(name, code), (lower, code)] + rest.0, rest.1)
        } else {
            let rest = reconcile_spec(unmatched, es.drop_first());
            (seq![(name, code)] + rest.0, rest.1)
        }
    }
}

/// The position of a string equal to `s` in `v`, if any.
fn position_of(v: &Vec<String>, s: &String) -> (r: Option<usize>)
    ensures
        match r {
            Some(k) => k < v@.len() && v@[k as int]@ == s@,
            None => !views(v@).contains(s@),
        },
{
    let mut i: usize = 0;
    while i < v.len()
        invariant
            i <= v@.len(),
            forall|k: int| 0 <= k < i ==> v@[k]@ != s@,
        decreases v@.len() - i,
    {
        if v[i] == *s {
            return Some(i);
        }
        i += 1;
    }
    proof {
        if views(v@).contains(s@) {
            let k = choose|k: int| 0 <= k < views(v@).len() && views(v@)[k] == s@;
            assert(v@[k]@ == s@);
        }
    }
    None
}

/// Removing the element at `k` from a list without repeats removes it
/// from the list's set.
proof fn lemma_remove_distinct(v: Seq<Seq<char>>, k: int)
    requires
        v.no_duplicates(),
        0 <= k < v.len(),
    ensures
        v.remove(k).no_duplicates(),
        v.remove(k).to_set() == v.to_set().remove(v[k]),
{
    let w = v.remove(k);
    assert forall|x: Seq<char>| w.to_set().contains(x) <==> v.to_set().remove(v[k]).contains(x) by {
        if w.to_set().contains(x) {
            let i = choose|i: int| 0 <= i < w.len() && w[i] == x;
            if i < k {
                assert(v[i] == x);
            } else {
                assert(v[i + 1] == x);
            }
            assert(v.contains(x));
        }
        if v.to_set().remove(v[k]).contains(x) {
            let i = choose|i: int| 0 <= i < v.len() && v[i] == x;
            assert(i != k);
            if i < k {
                assert(w[i] == x);
            } else {
                assert(w[i - 1] == x);
            }
            assert(w.contains(x));
        }
    }
    assert(w.to_set() =~= v.to_set().remove(v[k]));
}

/// The names of a batch without repeats, in order of first appearance.
fn distinct_names(batch: &Vec<String>) -> (r: Vec<String>)
    ensures
        views(r@).no_duplicates(),
        views(r@).to_set() == views(batch@).to_set(),
{
    let mut r: Vec<String> = Vec::new();
    let mut i: usize = 0;
    while i < batch.len()
        invariant
            i <= batch@.len(),
            views(r@).no_duplicates(),
            views(r@).to_set() == views(batch@.subrange(0, i as int)).to_set(),
        decreases batch@.len() - i,
    {
        let ghost before = views(r@);
        let ghost seen = views(batch@.subrange(0, i as int));
        assert(views(batch@.subrange(0, i + 1)) =~= seen.push(batch@[i as int]@));
        match position_of(&r, &batch[i]) {
            None => {
                r.push(batch[i].clone());
                assert(views(r@) =~= before.push(batch@[i as int]@));
                proof {
                    before.lemma_push_to_set_commute(batch@[i as int]@);
                    seen.lemma_push_to_set_commute(batch@[i as int]@);
                }
            },
            Some(k) => {
                assert(before[k as int] == batch@[i as int]@);
                assert(before.to_set().contains(batch@[i as int]@));
                proof {
                    seen.lemma_push_to_set_commute(batch@[i as int]@);
                }
                assert(views(r@).to_set() =~= seen.push(batch@[i as int]@).to_set());
            },
        }
        i += 1;
    }
    assert(batch@.subrange(0, batch@.len() as int) =~= batch@);
    r
}

/// Removes the name equal to `s` from a list without repeats, if it is
/// there; says whether it was.
fn take_name(v: &mut Vec<String>, s: &String) -> (found: bool)
    requires
        views(old(v)@).no_duplicates(),
    ensures
        found == views(old(v)@).to_set().contains(s@),
        views(final(v)@).no_duplicates(),
        views(final(v)@).to_set() == views(old(v)@).to_set().remove(s@),
{
    match position_of(v, s) {
        Some(k) => {
            let ghost before = views(v@);
            v.remove(k);
            assert(views(v@) =~= before.remove(k as int));
            proof {
                lemma_remove_distinct(before, k as int);
                assert(before.contains(s@));
            }
            true
        },
        None => {
            assert(views(v@).to_set() =~= views(v@).to_set().remove(s@));
            false
        },
    }
}

/// Reconciles a lookup response with the batch it answers, given the
/// lower-cased name of each record.
pub fn reconcile_lowered(batch: &Vec<String>, records: &Vec<TagRecord>, lowered: &Vec<String>) -> (r:
    Result<Reconciled, HydrateError>)
    requires
        lowered@.len() == records@.len(),
    ensures
        match r {
            Ok(rec) => {
                &&& forall|i: int| 0 <= i < records@.len() ==> code_fits(#[trigger] records@[i])
                &&& write_views(rec.writes@) == reconcile_spec(
                    views(batch@).to_set(),
                    entries(records@, lowered@),
                ).0
                &&& views(rec.unmatched@).no_duplicates()
                &&& views(rec.unmatched@).to_set() == reconcile_spec(
                    views(batch@).to_set(),
                    entries(records@, lowered@),
                ).1
            },
            Err(HydrateError::InvalidTypeCode { name, code }) => exists|i: int|
                0 <= i < records@.len() && !code_fits(#[trigger] records@[i]) && (forall|j: int|
                    0 <= j < i ==> code_fits(#[trigger] records@[j])) && name@ == records@[i].name@
                    && code == records@[i].type_field,
            Err(_) => false,
        },
{
    let mut i: usize = 0;
    while i < records.len()
        invariant
            i <= records@.len(),
            forall|j: int| 0 <= j < i ==> code_fits(#[trigger] records@[j]),
        decreases records@.len() - i,
    {
        let t = records[i].type_field;
        if t < 0 || t > 255 {
            return Err(HydrateError::InvalidTypeCode { name: records[i].name.clone(), code: t });
        }
        i += 1;
    }
    let ghost es = entries(records@, lowered@);
    let ghost u0 = views(batch@).to_set();
    let mut unmatched = distinct_names(batch);
    let mut writes: Vec<(String, u8)> = Vec::new();
    let mut i: usize = 0;
    assert(es.skip(0) =~= es);
    while i < records.len()
        invariant
            i <= records@.len(),
            lowered@.len() == records@.len(),
            es == entries(records@, lowered@),
            forall|j: int| 0 <= j < records@.len() ==> code_fits(#[trigger] records@[j]),
            views(unmatched@).no_duplicates(),
            reconcile_spec(u0, es).0 == write_views(writes@) + reconcile_spec(
                views(unmatched@).to_set(),
                es.skip(i as int),
            ).0,
            reconcile_spec(u0, es).1 == reconcile_spec(
                views(unmatched@).to_set(),
                es.skip(i as int),
            ).1,
        decreases records@.len() - i,
    {
        let ghost u = views(unmatched@).to_set();
        let ghost w = write_views(writes@);
        let rec = &records[i];
        let code = rec.type_field as u8;
        assert(es.skip(i as int)[0] == es[i as int]);
        assert(es.skip(i as int).drop_first() =~= es.skip(i + 1));
        let ghost rest = es.skip(i + 1);
        if take_name(&mut unmatched, &rec.name) {
            writes.push((rec.name.clone(), code));
            assert(write_views(writes@) =~= w + seq![(rec.name@, code)]);
            assert(seq![(rec.name@, code)] + reconcile_spec(u.remove(rec.name@), rest).0 == reconcile_spec(u, es.skip(i as int)).0);
            assert(w + (seq![(rec.name@, code)] + reconcile_spec(u.remove(rec.name@), rest).0) =~= (w + seq![(rec.name@, code)]) + reconcile_spec(u.remove(rec.name@), rest).0);
        } else {
            assert(views(unmatched@).to_set() =~= u);
            writes.push((rec.name.clone(), code));
            let ghost w1 = write_views(writes@);
            assert(w1 =~= w + seq![(rec.name@, code)]);
            if take_name(&mut unmatched, &lowered[i]) {
                writes.push((lowered[i].clone(), code));
                assert(write_views(writes@) =~= w + seq![(rec.name@, code), (lowered@[i as int]@, code)]);
                assert(w + (seq![(rec.name@, code), (lowered@[i as int]@, code)] + reconcile_spec(u.remove(lowered@[i as int]@), rest).0) =~= (w + seq![(rec.name@, code), (lowered@[i as int]@, code)]) + reconcile_spec(u.remove(lowered@[i as int]@), rest).0);
            } else {
                assert(views(unmatched@).to_set() =~= u);
                assert(w + (seq![(rec.name@, code)] + reconcile_spec(u, rest).0) =~= w1 + reconcile_spec(u, rest).0);
            }
        }
        i += 1;
    }
    proof {
        assert(es.skip(records@.len() as int) =~= Seq::<Entry>::empty());
        assert(write_views(writes@) + Seq::empty() =~= write_views(writes@));
    }
    Ok(Reconciled { writes, unmatched })
}

/// Reconciles a lookup response with the batch it answers.
pub fn reconcile(batch: &Vec<String>, records: &Vec<TagRecord>) -> (r: Result<Reconciled, HydrateError>)
    ensures
        match r {
            Ok(rec) => {
                let es = lowered_entries(records@);
                &&& forall|i: int| 0 <= i < records@.len() ==> code_fits(#[trigger] records@[i])
                &&& write_views(rec.writes@) == reconcile_spec(views(batch@).to_set(), es).0
                &&& views(rec.unmatched@).no_duplicates()
                &&& views(rec.unmatched@).to_set() == reconcile_spec(views(batch@).to_set(), es).1
            },
            Err(HydrateError::InvalidTypeCode { name, code }) => exists|i: int|
                0 <= i < records@.len() && !code_fits(#[trigger] records@[i]) && (forall|j: int|
                    0 <= j < i ==> code_fits(#[trigger] records@[j])) && name@ == records@[i].name@
                    && code == records@[i].type_field,
            Err(_) => false,
        },
{
    let mut lowered: Vec<String> = Vec::new();
    let mut i: usize = 0;
    while i < records.len()
        invariant
            i <= records@.len(),
            lowered@.len() == i,
            forall|k: int| 0 <= k < i ==> (#[trigger] lowered@[k])@ == lower_of(records@[k].name@),
        decreases records@.len() - i,
    {
        lowered.push(lowercase(records[i].name.as_str()));
        i += 1;
    }
    let r = reconcile_lowered(batch, records, &lowered);
    assert(entries(records@, lowered@) =~= lowered_entries(records@));
    r
}

impl Reconciled {
    /// Fails, naming them, when some requested names went unanswered.
    pub fn check(&self) -> (r: Result<(), HydrateError>)
        ensures
            match r {
                Ok(()) => self.unmatched@.len() == 0,
                Err(HydrateError::Unmatched { names }) => self.unmatched@.len() > 0 && views(
                    names@,
                ) == views(self.unmatched@),
                Err(_) => false,
            },
    {
        if self.unmatched.len() == 0 {
            return Ok(());
        }
        let mut names: Vec<String> = Vec::new();
        let mut i: usize = 0;
        while i < self.unmatched.len()
            invariant
                i <= self.unmatched@.len(),
                views(names@) == views(self.unmatched@.subrange(0, i as int)),
            decreases self.unmatched@.len() - i,
        {
            let ghost before = names@;
            names.push(self.unmatched[i].clone());
            assert(views(names@) =~= views(before).push(self.unmatched@[i as int]@));
            assert(views(names@) =~= views(self.unmatched@.subrange(0, i + 1)));
            i += 1;
        }
        assert(self.unmatched@.subrange(0, self.unmatched@.len() as int) =~= self.unmatched@);
        Err(HydrateError::Unmatched { names })
    }
}

} // verus!
