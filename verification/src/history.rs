//! The event recorder's bounded history: a per-key ordered list, newest
//! first, capped at a fixed maximum length, discarding oldest entries on
//! overflow.  The external store holds one such history per key; this module
//! gives the semantics every store round-trip must preserve.

use vstd::prelude::*;

verus! {

/// The maximum number of entries a history retains.
pub const HISTORY_CAP: usize = 200;

/// What one append leaves of a history: the new entry in front, then the
/// previous entries, trimmed to the cap.
pub open spec fn spec_record(h: Seq<String>, e: String) -> Seq<String> {
    if h.len() + 1 <= HISTORY_CAP {
        seq![e] + h
    } else {
        (seq![e] + h).take(HISTORY_CAP as int)
    }
}

/// The history left by appending a sequence of events, oldest first, to an
/// empty history.
pub open spec fn spec_record_all(events: Seq<String>) -> Seq<String>
    decreases events.len(),
{
    if events.len() == 0 {
        Seq::empty()
    } else {
        spec_record(spec_record_all(events.drop_last()), events.last())
    }
}

/// A bounded per-key event history, newest entry first.
pub struct History {
    entries: Vec<String>,
}

impl History {
    pub closed spec fn spec_entries(&self) -> Seq<String> {
        self.entries@
    }

    /// The history invariant: never more than the cap.
    pub open spec fn wf(&self) -> bool {
        self.spec_entries().len() <= HISTORY_CAP
    }

    pub fn new() -> (r: Self)
        ensures
            r.wf(),
            r.spec_entries() == Seq::<String>::empty(),
    {
        Self { entries: Vec::new() }
    }

    /// Append one event: push it to the front, trim to the cap, and report
    /// the resulting count.  The newest event is always at index zero.
    pub fn record(&mut self, e: String) -> (count: usize)
        requires
            old(self).wf(),
        ensures
            final(self).wf(),
            final(self).spec_entries() == spec_record(old(self).spec_entries(), e),
            count == final(self).spec_entries().len(),
            count == if old(self).spec_entries().len() + 1 <= HISTORY_CAP {
                old(self).spec_entries().len() + 1
            } else {
                HISTORY_CAP as nat
            },
    {
        self.entries.insert(0, e);
        proof {
            assert(self.entries@ =~= seq![e] + old(self).spec_entries());
        }
        if self.entries.len() > HISTORY_CAP {
            self.entries.truncate(HISTORY_CAP);
        }
        proof {
            if old(self).spec_entries().len() + 1 <= HISTORY_CAP {
                assert(self.entries@ =~= spec_record(old(self).spec_entries(), e));
            } else {
                assert(self.entries@ =~= spec_record(old(self).spec_entries(), e));
            }
        }
        self.entries.len()
    }

    /// The companion read: the full trimmed history, newest first.
    pub fn entries(&self) -> (r: &Vec<String>)
        ensures
            r@ == self.spec_entries(),
    {
        &self.entries
    }

    pub fn len(&self) -> (r: usize)
        ensures
            r == self.spec_entries().len(),
    {
        self.entries.len()
    }
}

/// Appending `n` events to one key, in any interleaving that serializes the
/// atomic appends, leaves exactly the newest `n` events, newest first, with
/// nothing duplicated or missing, and the count is `n` capped at the
/// history's bound: the oldest events beyond the cap are the ones discarded.
pub proof fn lemma_record_sequence(events: Seq<String>)
    ensures
        spec_record_all(events).len() == if events.len() <= HISTORY_CAP {
            events.len() as int
        } else {
            HISTORY_CAP as int
        },
        forall|i: int| 0 <= i < spec_record_all(events).len()
            ==> spec_record_all(events)[i] == events[events.len() - 1 - i],
    decreases events.len(),
{
    if events.len() > 0 {
        lemma_record_sequence(events.drop_last());
        let prev = spec_record_all(events.drop_last());
        let cur = spec_record_all(events);
        assert(cur == spec_record(prev, events.last()));
        assert(forall|j: int| 0 <= j < events.len() - 1
            ==> events.drop_last()[j] == events[j]);
        assert(forall|i: int| 0 <= i < cur.len() ==> cur[i] == events[events.len() - 1 - i]) by {
            assert(forall|i: int| 0 < i < cur.len() ==> cur[i] == prev[i - 1]);
        }
    }
}

} // verus!
