use vstd::prelude::*;

verus! {

/// The store as a map from tag name to the stored bytes.
pub type StoreModel = Map<Seq<char>, Seq<u8>>;

/// What a stored value says: its first byte is the tag type code. An empty
/// value counts as absent, so that it is fetched again.
pub open spec fn decode_value(v: Option<Seq<u8>>) -> Option<u8> {
    match v {
        Some(b) => if b.len() > 0 {
            Some(b[0])
        } else {
            None
        },
        None => None,
    }
}

/// The value stored for a type code.
pub open spec fn encode_value(code: u8) -> Seq<u8> {
    seq![code]
}

/// A lookup in the store.
pub open spec fn model_get(m: StoreModel, name: Seq<char>) -> Option<u8> {
    decode_value(
        if m.contains_key(name) {
            Some(m[name])
        } else {
            None
        },
    )
}

/// An upsert in the store.
pub open spec fn model_put(m: StoreModel, name: Seq<char>, code: u8) -> StoreModel {
    m.insert(name, encode_value(code))
}

/// The type code held by a value read from the store, if any.
pub fn stored_code(value: &Option<Vec<u8>>) -> (r: Option<u8>)
    ensures
        r == decode_value(
            match value {
                Some(v) => Some(v@),
                None => None,
            },
        ),
{
    match value {
        Some(v) => if v.len() > 0 {
            Some(v[0])
        } else {
            None
        },
        None => None,
    }
}

/// The value to store for a type code.
pub fn encode_code(code: u8) -> (r: Vec<u8>)
    ensures
        r@ == encode_value(code),
{
    let r = vec![code];
    assert(r@ =~= seq![code]);
    r
}

/// Storing the same code twice under a name leaves that code readable
/// under it: the upsert is idempotent.
pub proof fn lemma_put_twice(m: StoreModel, name: Seq<char>, code: u8)
    ensures
        model_get(model_put(model_put(m, name, code), name, code), name) == Some(code),
        model_put(model_put(m, name, code), name, code) == model_put(m, name, code),
{
    assert(model_put(model_put(m, name, code), name, code) =~= model_put(m, name, code));
}

/// Where opening the store stands. The store is opened; if that fails it
/// is repaired once and opened again.
#[derive(Debug, Clone, Copy, PartialEq, Eq)]
pub enum OpenPhase {
    Opening,
    Repairing,
    Reopening,
    Ready,
    Failed,
}

impl OpenPhase {
    pub open spec fn terminal(self) -> bool {
        self is Ready || self is Failed
    }

    /// The phase that follows this one, given whether its operation
    /// succeeded.
    pub open spec fn next(self, ok: bool) -> OpenPhase {
        match self {
            OpenPhase::Opening => if ok {
                OpenPhase::Ready
            } else {
                OpenPhase::Repairing
            },
            OpenPhase::Repairing => if ok {
                OpenPhase::Reopening
            } else {
                OpenPhase::Failed
            },
            OpenPhase::Reopening => if ok {
                OpenPhase::Ready
            } else {
                OpenPhase::Failed
            },
            OpenPhase::Ready => OpenPhase::Ready,
            OpenPhase::Failed => OpenPhase::Failed,
        }
    }

    /// Whether nothing more is to be done.
    pub fn is_terminal(&self) -> (r: bool)
        ensures
            r == self.terminal(),
    {
        match self {
            OpenPhase::Ready | OpenPhase::Failed => true,
            _ => false,
        }
    }

    /// Whether this phase's operation is a repair (otherwise, in a
    /// phase that is not terminal, it is an open).
    pub fn is_repair(&self) -> (r: bool)
        ensures
            r == (*self is Repairing),
    {
        match self {
            OpenPhase::Repairing => true,
            _ => false,
        }
    }

    /// Moves on after the current operation reported `ok`.
    pub fn step(self, ok: bool) -> (r: OpenPhase)
        ensures
            r == self.next(ok),
    {
        match self {
            OpenPhase::Opening => if ok {
                OpenPhase::Ready
            } else {
                OpenPhase::Repairing
            },
            OpenPhase::Repairing => if ok {
                OpenPhase::Reopening
            } else {
                OpenPhase::Failed
            },
            OpenPhase::Reopening => if ok {
                OpenPhase::Ready
            } else {
                OpenPhase::Failed
            },
            OpenPhase::Ready => OpenPhase::Ready,
            OpenPhase::Failed => OpenPhase::Failed,
        }
    }
}

/// The phases passed through from `p` when the operations report
/// `outcomes` in turn, up to the first terminal phase or the end of the
/// outcomes, `p` included.
pub open spec fn open_run(p: OpenPhase, outcomes: Seq<bool>) -> Seq<OpenPhase>
    decreases outcomes.len(),
{
    if p.terminal() || outcomes.len() == 0 {
        seq![p]
    } else {
        seq![p] + open_run(p.next(outcomes[0]), outcomes.drop_first())
    }
}

/// The number of repair operations in a run.
pub open spec fn repairs(run: Seq<OpenPhase>) -> nat
    decreases run.len(),
{
    if run.len() == 0 {
        0
    } else {
        repairs(run.drop_first()) + if run[0] is Repairing {
            1nat
        } else {
            0nat
        }
    }
}

proof fn lemma_repairs_prepend(p: OpenPhase, run: Seq<OpenPhase>)
    ensures
        repairs(seq![p] + run) == repairs(run) + if p is Repairing {
            1nat
        } else {
            0nat
        },
{
    assert((seq![p] + run).drop_first() =~= run);
}

/// Opening the store, whatever each operation reports, ends within three
/// operations, ready or failed, and repairs exactly once if the first open
/// fails and never otherwise.
pub proof fn lemma_single_repair(outcomes: Seq<bool>)
    requires
        outcomes.len() >= 3,
    ensures
        open_run(OpenPhase::Opening, outcomes).last().terminal(),
        open_run(OpenPhase::Opening, outcomes).len() <= 4,
        repairs(open_run(OpenPhase::Opening, outcomes)) == if outcomes[0] {
            0nat
        } else {
            1nat
        },
{
    let o0 = outcomes;
    let o1 = o0.drop_first();
    let o2 = o1.drop_first();
    let o3 = o2.drop_first();
    let first_next = OpenPhase::Opening.next(o0[0]);
    let second_next = first_next.next(o1[0]);
    let third_next = second_next.next(o2[0]);
    let run_from_third = open_run(third_next, o3);
    assert(third_next.terminal());
    assert(run_from_third == seq![third_next]);
    lemma_repairs_prepend(third_next, Seq::empty());
    assert(seq![third_next] + Seq::<OpenPhase>::empty() =~= seq![third_next]);
    let run_from_second = open_run(second_next, o2);
    let run_from_first = open_run(first_next, o1);
    let r0 = open_run(OpenPhase::Opening, o0);
    if second_next.terminal() {
        assert(run_from_second == seq![second_next]);
        lemma_repairs_prepend(second_next, Seq::empty());
        assert(seq![second_next] + Seq::<OpenPhase>::empty() =~= seq![second_next]);
    } else {
        lemma_repairs_prepend(second_next, run_from_third);
    }
    if first_next.terminal() {
        assert(run_from_first == seq![first_next]);
        lemma_repairs_prepend(first_next, Seq::empty());
        assert(seq![first_next] + Seq::<OpenPhase>::empty() =~= seq![first_next]);
    } else {
        lemma_repairs_prepend(first_next, run_from_second);
    }
    lemma_repairs_prepend(OpenPhase::Opening, run_from_first);
}

} // verus!
