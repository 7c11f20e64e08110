use vstd::prelude::*;

use crate::assoc::{
    assoc_get, assoc_remove, assoc_set, distinct_keys, lemma_assoc_get_at,
    lemma_assoc_get_missing, lemma_assoc_remove_at, lemma_assoc_remove_missing,
    lemma_assoc_set_at, lemma_assoc_set_missing,
};
use crate::json::{Json, JsonV};

verus! {

/// One in-flight tool invocation: the generated call identifier, the
/// JSON-RPC id of the originating request, and the session its response
/// must return to.
pub struct PendingCall {
    pub call_id: String,
    pub request_id: Json,
    pub session_id: String,
}

/// The model of the table: call ids keying the originating request id
/// and the originating session.
pub open spec fn pend_view(entries: Seq<PendingCall>) -> Seq<(Seq<char>, (JsonV, Seq<char>))>
    decreases entries,
{
    if entries.len() == 0 {
        Seq::empty()
    } else {
        pend_view(entries.drop_last()).push(
            (
                entries.last().call_id@,
                (entries.last().request_id.deep_view(), entries.last().session_id@),
            ),
        )
    }
}

/// `pend_view` maps the sequence pointwise.
pub proof fn lemma_pend_view(entries: Seq<PendingCall>)
    ensures
        pend_view(entries).len() == entries.len(),
        forall|i: int|
            0 <= i < entries.len() ==> #[trigger] pend_view(entries)[i] == (
                entries[i].call_id@,
                (entries[i].request_id.deep_view(), entries[i].session_id@),
            ),
    decreases entries.len(),
{
    if entries.len() > 0 {
        lemma_pend_view(entries.drop_last());
        assert forall|i: int| 0 <= i < entries.len() implies #[trigger] pend_view(entries)[i] == (
            entries[i].call_id@,
            (entries[i].request_id.deep_view(), entries[i].session_id@),
        ) by {
            if i < entries.len() - 1 {
                assert(pend_view(entries)[i] == pend_view(entries.drop_last())[i]);
                assert(entries.drop_last()[i] == entries[i]);
            } else {
                assert(entries.last() == entries[i]);
            }
        }
    }
}

/// The process-wide pending-call table: at most one entry per call id;
/// written when a tool call is handed to the application, resolved
/// exactly once by completion, disconnect, or timeout.
pub struct PendingTable {
    entries: Vec<PendingCall>,
}

impl View for PendingTable {
    type V = Seq<(Seq<char>, (JsonV, Seq<char>))>;

    closed spec fn view(&self) -> Seq<(Seq<char>, (JsonV, Seq<char>))> {
        pend_view(self.entries@)
    }
}

impl PendingTable {
    /// No call id is recorded twice.
    pub open spec fn wf(self) -> bool {
        distinct_keys(self@)
    }

    /// An empty table.
    pub fn new() -> (t: Self)
        ensures
            t@ == Seq::<(Seq<char>, (JsonV, Seq<char>))>::empty(),
            t.wf(),
    {
        PendingTable { entries: Vec::new() }
    }

    /// How many calls are in flight.
    pub fn len(&self) -> (n: usize)
        ensures
            n == self@.len(),
    {
        proof {
            lemma_pend_view(self.entries@);
        }
        self.entries.len()
    }

    /// Index of the entry for `call_id`, if any.
    fn index_of(&self, call_id: &String) -> (r: Option<usize>)
        ensures
            match r {
                Some(i) => i < self@.len() && self@[i as int].0 == call_id@ && forall|j: int|
                    0 <= j < i ==> #[trigger] self@[j].0 != call_id@,
                None => forall|j: int|
                    0 <= j < self@.len() ==> #[trigger] self@[j].0 != call_id@,
            },
    {
        proof {
            lemma_pend_view(self.entries@);
        }
        let mut i: usize = 0;
        while i < self.entries.len()
            invariant
                i <= self.entries@.len(),
                self@.len() == self.entries@.len(),
                forall|j: int|
                    0 <= j < self.entries@.len() ==> #[trigger] self@[j] == (
                        self.entries@[j].call_id@,
                        (self.entries@[j].request_id.deep_view(), self.entries@[j].session_id@),
                    ),
                forall|j: int| 0 <= j < i ==> #[trigger] self@[j].0 != call_id@,
            decreases self.entries@.len() - i,
        {
            if self.entries[i].call_id == *call_id {
                return Some(i);
            }
            i = i + 1;
        }
        None
    }

    /// Records a fresh pending call. A call id already recorded is
    /// overwritten: its previous waiter is abandoned, exactly as a
    /// replaced map entry would be.
    pub fn insert(&mut self, call_id: String, request_id: Json, session_id: String)
        requires
            old(self).wf(),
        ensures
            final(self)@ == assoc_set(
                old(self)@,
                call_id@,
                (request_id.deep_view(), session_id@),
            ),
            final(self).wf(),
    {
        let ghost s0 = self@;
        let ghost kv = call_id@;
        let ghost dv = (request_id.deep_view(), session_id@);
        proof {
            lemma_pend_view(self.entries@);
        }
        match self.index_of(&call_id) {
            Some(i) => {
                self.entries[i] = PendingCall { call_id, request_id, session_id };
                proof {
                    lemma_pend_view(self.entries@);
                    lemma_assoc_set_at(s0, kv, dv, i as int);
                    assert(self@ =~= s0.update(i as int, (kv, dv)));
                    assert forall|a: int, b: int| 0 <= a < b < self@.len() implies (
                    #[trigger] self@[a].0) != (#[trigger] self@[b].0) by {
                        assert(s0[a].0 != s0[b].0);
                    }
                }
            },
            None => {
                self.entries.push(PendingCall { call_id, request_id, session_id });
                proof {
                    lemma_assoc_set_missing(s0, kv, dv);
                    assert(self.entries@.drop_last() =~= old(self).entries@);
                    assert(self@ =~= s0.push((kv, dv)));
                    assert forall|a: int, b: int| 0 <= a < b < self@.len() implies (
                    #[trigger] self@[a].0) != (#[trigger] self@[b].0) by {
                        if b < s0.len() {
                            assert(s0[a].0 != s0[b].0);
                        } else {
                            assert(s0[a].0 != kv);
                        }
                    }
                }
            },
        }
    }

    /// Looks the call up and removes it. `None` reports a stale call: a
    /// completion that arrived after the call was resolved, timed out,
    /// or never existed.
    pub fn resolve(&mut self, call_id: &String) -> (r: Option<PendingCall>)
        requires
            old(self).wf(),
        ensures
            final(self)@ == assoc_remove(old(self)@, call_id@),
            final(self).wf(),
            match r {
                Some(c) => c.call_id@ == call_id@ && assoc_get(old(self)@, call_id@) == Some(
                    (c.request_id.deep_view(), c.session_id@),
                ),
                None => assoc_get(old(self)@, call_id@) is None,
            },
    {
        let ghost s0 = self@;
        proof {
            lemma_pend_view(self.entries@);
        }
        match self.index_of(call_id) {
            Some(i) => {
                let c = self.entries.remove(i);
                proof {
                    lemma_pend_view(self.entries@);
                    lemma_assoc_remove_at(s0, call_id@, i as int);
                    lemma_assoc_get_at(s0, call_id@, i as int);
                    assert(self@ =~= s0.remove(i as int));
                    assert forall|a: int, b: int| 0 <= a < b < self@.len() implies (
                    #[trigger] self@[a].0) != (#[trigger] self@[b].0) by {
                        let a0: int = if a < i { a } else { a + 1 };
                        let b0: int = if b < i { b } else { b + 1 };
                        assert(self@[a] == s0[a0]);
                        assert(self@[b] == s0[b0]);
                        assert(s0[a0].0 != s0[b0].0);
                    }
                }
                Some(c)
            },
            None => {
                proof {
                    lemma_assoc_remove_missing(s0, call_id@);
                    lemma_assoc_get_missing(s0, call_id@);
                    assert(assoc_remove(s0, call_id@) =~= s0);
                }
                None
            },
        }
    }
}

/// Law: a started call resolves to exactly what was recorded for it —
/// its originating request id and its originating session — whatever
/// else the table holds.
pub proof fn law_started_call_resolves_to_its_origin(
    entries: Seq<(Seq<char>, (JsonV, Seq<char>))>,
    call_id: Seq<char>,
    request_id: JsonV,
    session_id: Seq<char>,
)
    ensures
        assoc_get(assoc_set(entries, call_id, (request_id, session_id)), call_id) == Some(
            (request_id, session_id),
        ),
{
    crate::assoc::lemma_assoc_get_set_same(entries, call_id, (request_id, session_id));
}

/// Law: starting one call leaves every other call's entry exactly as
/// it was.
pub proof fn law_started_call_disturbs_no_other(
    entries: Seq<(Seq<char>, (JsonV, Seq<char>))>,
    call_id: Seq<char>,
    request_id: JsonV,
    session_id: Seq<char>,
    other: Seq<char>,
)
    requires
        call_id != other,
    ensures
        assoc_get(assoc_set(entries, call_id, (request_id, session_id)), other) == assoc_get(
            entries,
            other,
        ),
{
    crate::assoc::lemma_assoc_get_set_other(entries, call_id, (request_id, session_id), other);
}

/// Law: resolving one call leaves every other call's entry exactly as it
/// was. Completions correlate by call id alone, so no resolution can
/// cross-wire another call's response.
pub proof fn law_resolve_other_calls_untouched(
    entries: Seq<(Seq<char>, (JsonV, Seq<char>))>,
    resolved: Seq<char>,
    other: Seq<char>,
)
    requires
        resolved != other,
    ensures
        assoc_get(assoc_remove(entries, resolved), other) == assoc_get(entries, other),
    decreases entries.len(),
{
    if entries.len() > 0 {
        if entries[0].0 == resolved {
        } else {
            law_resolve_other_calls_untouched(entries.drop_first(), resolved, other);
            if entries[0].0 == other {
            } else {
                assert((seq![entries[0]] + assoc_remove(
                    entries.drop_first(),
                    resolved,
                )).drop_first() =~= assoc_remove(entries.drop_first(), resolved));
            }
        }
    }
}

/// Law: with distinct call ids, resolving two calls commutes: any
/// permutation of concurrent resolutions leaves the same table behind.
pub proof fn law_resolution_order_irrelevant(
    entries: Seq<(Seq<char>, (JsonV, Seq<char>))>,
    a: Seq<char>,
    b: Seq<char>,
)
    requires
        a != b,
    ensures
        assoc_remove(assoc_remove(entries, a), b) =~= assoc_remove(assoc_remove(entries, b), a),
    decreases entries.len(),
{
    if entries.len() > 0 {
        let first = entries[0];
        let rest = entries.drop_first();
        law_resolution_order_irrelevant(rest, a, b);
        if first.0 == a {
            if rest.len() > 0 && rest[0].0 == b {
            } else {
                assert((seq![first] + assoc_remove(rest, b)).drop_first() =~= assoc_remove(
                    rest,
                    b,
                ));
            }
        } else if first.0 == b {
            assert((seq![first] + assoc_remove(rest, a)).drop_first() =~= assoc_remove(rest, a));
        } else {
            assert((seq![first] + assoc_remove(rest, a)).drop_first() =~= assoc_remove(rest, a));
            assert((seq![first] + assoc_remove(rest, b)).drop_first() =~= assoc_remove(rest, b));
            assert(assoc_remove(assoc_remove(entries, a), b) =~= seq![first] + assoc_remove(
                assoc_remove(rest, a),
                b,
            ));
            assert(assoc_remove(assoc_remove(entries, b), a) =~= seq![first] + assoc_remove(
                assoc_remove(rest, b),
                a,
            ));
        }
    }
}

/// Law: a resolved call is gone. With distinct call ids, a second
/// resolution of the same id finds nothing: a late completion after a
/// timeout or disconnect is a no-op, and no second reply is emitted.
pub proof fn law_resolve_at_most_once(
    entries: Seq<(Seq<char>, (JsonV, Seq<char>))>,
    resolved: Seq<char>,
)
    requires
        distinct_keys(entries),
    ensures
        assoc_get(assoc_remove(entries, resolved), resolved) is None,
    decreases entries.len(),
{
    if entries.len() > 0 {
        if entries[0].0 == resolved {
            assert forall|j: int|
                0 <= j < entries.drop_first().len() implies #[trigger] entries.drop_first()[j].0
                != resolved by {
                assert(entries.drop_first()[j] == entries[j + 1]);
            }
            lemma_assoc_get_missing(entries.drop_first(), resolved);
        } else {
            assert(distinct_keys(entries.drop_first())) by {
                assert forall|i: int, j: int|
                    0 <= i < j < entries.drop_first().len() implies (#[trigger] entries.drop_first()[i].0)
                    != (#[trigger] entries.drop_first()[j].0) by {
                    assert(entries.drop_first()[i] == entries[i + 1]);
                    assert(entries.drop_first()[j] == entries[j + 1]);
                }
            }
            law_resolve_at_most_once(entries.drop_first(), resolved);
            assert((seq![entries[0]] + assoc_remove(
                entries.drop_first(),
                resolved,
            )).drop_first() =~= assoc_remove(entries.drop_first(), resolved));
        }
    }
}

} // verus!
