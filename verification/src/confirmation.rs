//! The interactive confirmation protocol: a one-shot, time-bounded "undo"
//! button.
//!
//! A handler that has performed a mutation registers the message carrying the
//! button in the process-wide suppression set and waits for component
//! interactions on it, racing a deadline. The first press by the original
//! invoker before the deadline fires the undo exactly once; presses by anyone
//! else are acknowledged and refused; the deadline ends the wait. On every
//! termination path the suppression entry is removed. The wait itself — the
//! subscription and the timer — belongs to the surrounding process; this
//! module owns every decision the wait makes.

use vstd::prelude::*;

verus! {

/// The message ids whose follow-up interactions are owned by an in-flight
/// confirmation wait rather than the generic dispatcher.
pub struct SuppressionSet {
    pub ids: Vec<u64>,
}

impl SuppressionSet {
    /// The ids currently suppressed.
    pub open spec fn spec_contains(&self, id: u64) -> bool {
        self.ids@.contains(id)
    }

    /// No id is recorded twice, so one removal clears an id entirely.
    pub open spec fn wf(&self) -> bool {
        forall|i: int, j: int| 0 <= i < j < self.ids@.len() ==> self.ids@[i] != self.ids@[j]
    }

    /// An empty suppression set.
    pub fn new() -> (r: SuppressionSet)
        ensures
            r.wf(),
            forall|id: u64| !r.spec_contains(id),
    {
        let r = SuppressionSet { ids: Vec::new() };
        proof {
            assert forall|id: u64| !r.spec_contains(id) by {}
        }
        r
    }

    /// Membership test.
    pub fn contains(&self, id: u64) -> (r: bool)
        ensures
            r == self.spec_contains(id),
    {
        let n = self.ids.len();
        let mut k: usize = 0;
        while k < n
            invariant
                k <= n == self.ids@.len(),
                forall|m: int| 0 <= m < k ==> self.ids@[m] != id,
            decreases n - k,
        {
            if self.ids[k] == id {
                return true;
            }
            k += 1;
        }
        false
    }

    /// Records an id; every other id is unaffected.
    pub fn insert(&mut self, id: u64)
        requires
            old(self).wf(),
        ensures
            final(self).wf(),
            final(self).spec_contains(id),
            forall|o: u64| o != id ==> final(self).spec_contains(o) == old(self).spec_contains(o),
    {
        if !self.contains(id) {
            self.ids.push(id);
            proof {
                assert(self.ids@[self.ids@.len() - 1] == id);
                assert(self.spec_contains(id));
                assert forall|o: u64|
                    o != id implies self.spec_contains(o) == old(self).spec_contains(o) by {
                    if old(self).spec_contains(o) {
                        let w = choose|w: int|
                            0 <= w < old(self).ids@.len() && old(self).ids@[w] == o;
                        assert(self.ids@[w] == o);
                    }
                    if self.spec_contains(o) {
                        let w = choose|w: int| 0 <= w < self.ids@.len() && self.ids@[w] == o;
                        assert(old(self).ids@[w] == o);
                    }
                }
            }
        }
    }

    /// Removes an id; every other id is unaffected.
    pub fn remove(&mut self, id: u64)
        requires
            old(self).wf(),
        ensures
            final(self).wf(),
            !final(self).spec_contains(id),
            forall|o: u64| o != id ==> final(self).spec_contains(o) == old(self).spec_contains(o),
    {
        let n = self.ids.len();
        let mut k: usize = 0;
        while k < n
            invariant
                k <= n == self.ids@.len(),
                self.wf(),
                self == old(self),
                forall|m: int| 0 <= m < k ==> self.ids@[m] != id,
            decreases n - k,
        {
            if self.ids[k] == id {
                let ghost pre = self.ids@;
                self.ids.remove(k);
                proof {
                    assert(self.ids@ =~= pre.subrange(0, k as int) + pre.subrange(
                        k + 1,
                        pre.len() as int,
                    ));
                    assert forall|i: int, j: int|
                        0 <= i < j < self.ids@.len() implies self.ids@[i] != self.ids@[j] by {
                        let pi = if i < k as int {
                            i
                        } else {
                            i + 1
                        };
                        let pj = if j < k as int {
                            j
                        } else {
                            j + 1
                        };
                        assert(self.ids@[i] == pre[pi]);
                        assert(self.ids@[j] == pre[pj]);
                    }
                    assert forall|m: int| 0 <= m < self.ids@.len() implies self.ids@[m] != id by {
                        let pm = if m < k as int {
                            m
                        } else {
                            m + 1
                        };
                        assert(self.ids@[m] == pre[pm]);
                        if m >= k as int {
                            assert(pre[pm] != id);
                        }
                    }
                    assert forall|o: u64|
                        o != id implies self.spec_contains(o) == old(self).spec_contains(o) by {
                        if old(self).spec_contains(o) {
                            let w = choose|w: int| 0 <= w < pre.len() && pre[w] == o;
                            if w < k as int {
                                assert(self.ids@[w] == o);
                            } else {
                                assert(self.ids@[w - 1] == o);
                            }
                        }
                        if self.spec_contains(o) {
                            let w = choose|w: int| 0 <= w < self.ids@.len() && self.ids@[w] == o;
                            let pw = if w < k as int {
                                w
                            } else {
                                w + 1
                            };
                            assert(pre[pw] == o);
                        }
                    }
                }
                return ;
            }
            k += 1;
        }
    }
}

/// One in-flight confirmation wait.
#[derive(Clone, Copy, PartialEq, Eq, Structural)]
pub struct PendingConfirmation {
    /// The message carrying the button.
    pub message_id: u64,
    /// Only this user may fire the undo.
    pub invoker_id: u64,
    /// The wait self-cancels at this time.
    pub deadline: u64,
    /// The undo has already been fired; it never fires again.
    pub fired: bool,
}

/// What the wait must do with one interaction.
#[derive(Clone, Copy, PartialEq, Eq, Structural, Debug)]
pub enum ConfirmStep {
    /// Run the undo action, strip the button, confirm, and stop waiting.
    Fire,
    /// Acknowledge and tell the presser only the invoker may use the button;
    /// keep waiting.
    RejectOther,
    /// The undo already fired; nothing more may run.
    AlreadyDone,
    /// The deadline has passed; strip the button and stop waiting.
    TimedOut,
}

/// The wait's decision for an interaction by `author` at time `now`.
pub open spec fn spec_step(p: PendingConfirmation, author: u64, now: u64) -> ConfirmStep {
    if p.fired {
        ConfirmStep::AlreadyDone
    } else if now >= p.deadline {
        ConfirmStep::TimedOut
    } else if author == p.invoker_id {
        ConfirmStep::Fire
    } else {
        ConfirmStep::RejectOther
    }
}

/// The wait's state after that interaction: only a fire changes it.
pub open spec fn spec_after(p: PendingConfirmation, author: u64, now: u64) -> PendingConfirmation {
    PendingConfirmation {
        fired: p.fired || (now < p.deadline && author == p.invoker_id),
        ..p
    }
}

/// Opens a confirmation wait: registers the message in the suppression set so
/// the generic dispatcher leaves its interactions alone.
pub fn offer(
    suppression: &mut SuppressionSet,
    message_id: u64,
    invoker_id: u64,
    deadline: u64,
) -> (p: PendingConfirmation)
    requires
        old(suppression).wf(),
    ensures
        final(suppression).wf(),
        final(suppression).spec_contains(message_id),
        forall|o: u64|
            o != message_id ==> final(suppression).spec_contains(o) == old(
                suppression,
            ).spec_contains(o),
        p == (PendingConfirmation { message_id, invoker_id, deadline, fired: false }),
{
    suppression.insert(message_id);
    PendingConfirmation { message_id, invoker_id, deadline, fired: false }
}

impl PendingConfirmation {
    /// Decides one interaction and advances the wait's state.
    pub fn on_interaction(&mut self, author: u64, now: u64) -> (r: ConfirmStep)
        ensures
            r == spec_step(*old(self), author, now),
            *final(self) == spec_after(*old(self), author, now),
    {
        if self.fired {
            ConfirmStep::AlreadyDone
        } else if now >= self.deadline {
            ConfirmStep::TimedOut
        } else if author == self.invoker_id {
            self.fired = true;
            ConfirmStep::Fire
        } else {
            ConfirmStep::RejectOther
        }
    }

    /// Ends the wait on any termination path: the suppression entry goes away
    /// unconditionally.
    pub fn finish(&self, suppression: &mut SuppressionSet)
        requires
            old(suppression).wf(),
        ensures
            final(suppression).wf(),
            !final(suppression).spec_contains(self.message_id),
            forall|o: u64|
                o != self.message_id ==> final(suppression).spec_contains(o) == old(
                    suppression,
                ).spec_contains(o),
    {
        suppression.remove(self.message_id);
    }
}

/// How many of these interactions fire the undo, replayed in order.
pub open spec fn fire_count(p: PendingConfirmation, events: Seq<(u64, u64)>) -> nat
    decreases events.len(),
{
    if events.len() == 0 {
        0
    } else {
        let e = events[0];
        (if spec_step(p, e.0, e.1) is Fire {
            1nat
        } else {
            0nat
        }) + fire_count(spec_after(p, e.0, e.1), events.drop_first())
    }
}

/// An interaction from a non-invoker before the deadline is refused: it does
/// not fire the undo and leaves the wait's state — and so the suppression
/// entry — untouched.
pub proof fn lemma_non_invoker_refused(p: PendingConfirmation, author: u64, now: u64)
    requires
        author != p.invoker_id,
        !p.fired,
        now < p.deadline,
    ensures
        spec_step(p, author, now) == ConfirmStep::RejectOther,
        spec_after(p, author, now) == p,
{
}

/// The undo fires at most once, however many interaction events arrive and in
/// whatever order they are decided: a wait that has fired never fires again.
pub proof fn lemma_fire_at_most_once(p: PendingConfirmation, events: Seq<(u64, u64)>)
    ensures
        fire_count(p, events) <= if p.fired {
            0nat
        } else {
            1nat
        },
    decreases events.len(),
{
    if events.len() > 0 {
        let e = events[0];
        lemma_fire_at_most_once(spec_after(p, e.0, e.1), events.drop_first());
    }
}

/// When no interaction comes from the invoker before the deadline, the undo
/// never fires.
pub proof fn lemma_no_authorized_press_no_fire(p: PendingConfirmation, events: Seq<(u64, u64)>)
    requires
        forall|k: int|
            0 <= k < events.len() ==> (#[trigger] events[k]).0 != p.invoker_id || events[k].1
                >= p.deadline,
    ensures
        fire_count(p, events) == 0,
        spec_after_all(p, events).fired == p.fired,
    decreases events.len(),
{
    if events.len() > 0 {
        let e = events[0];
        assert(events[0] == e);
        assert forall|k: int|
            0 <= k < events.drop_first().len() implies (#[trigger] events.drop_first()[k]).0
            != p.invoker_id || events.drop_first()[k].1 >= p.deadline by {
            assert(events.drop_first()[k] == events[k + 1]);
        }
        lemma_no_authorized_press_no_fire(spec_after(p, e.0, e.1), events.drop_first());
    }
}

/// The wait's state after a whole sequence of interactions.
pub open spec fn spec_after_all(p: PendingConfirmation, events: Seq<(u64, u64)>) -> PendingConfirmation
    decreases events.len(),
{
    if events.len() == 0 {
        p
    } else {
        spec_after_all(spec_after(p, events[0].0, events[0].1), events.drop_first())
    }
}

} // verus!
