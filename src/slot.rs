//! The take-once slot that the waiting path and the interrupt handler share.
//!
//! Both paths race to act on the one child handle. Whichever reaches the slot
//! first takes the handle out and decides the outcome; the other finds the
//! slot empty and does nothing.
use vstd::prelude::*;
use crate::outcome::{exit_code, exit_code_of, WaitResult, INTERRUPT_EXIT_CODE};

verus! {

/// Where the child stands in its lifecycle, as seen through the slot.
#[derive(Clone, Copy, Debug, PartialEq, Eq, Structural)]
pub enum Phase {
    /// The child is alive and nobody has acted on it.
    Running,
    /// The waiting path saw the child exit.
    ReapedNatural,
    /// The waiting path found that the child was already reaped.
    AlreadyReaped,
    /// The waiting path's wait failed.
    WaitFailed,
    /// The interrupt handler took the child to kill it.
    KilledByInterrupt,
}

/// What reaches the slot: an interrupt, or the return of the blocking wait.
#[derive(Clone, Copy, Debug, PartialEq, Eq, Structural)]
pub enum Event {
    Interrupt,
    WaitReturned(WaitResult),
}

/// What the path that delivered an event must do next.
#[derive(Clone, Copy, Debug, PartialEq, Eq, Structural)]
pub enum Action {
    /// Kill the child, print a newline, and end the hosting process with
    /// this code.
    KillAndExit(i32),
    /// Return this code to the caller.
    Return(i32),
    /// The other path already acted: do nothing.
    Ignore,
}

/// The phase the waiting path records for a wait result.
pub open spec fn phase_after_wait(r: WaitResult) -> Phase {
    match r {
        WaitResult::Exited { .. } => Phase::ReapedNatural,
        WaitResult::NoChild => Phase::AlreadyReaped,
        WaitResult::Failed => Phase::WaitFailed,
    }
}

/// One transition: only an event that finds the child running acts on it.
pub open spec fn step(phase: Phase, event: Event) -> (Phase, Action) {
    if phase == Phase::Running {
        match event {
            Event::Interrupt => (Phase::KilledByInterrupt, Action::KillAndExit(INTERRUPT_EXIT_CODE)),
            Event::WaitReturned(r) => (phase_after_wait(r), Action::Return(exit_code_of(r))),
        }
    } else {
        (phase, Action::Ignore)
    }
}

/// Whether an action acts on the child (kills it or resolves its exit).
pub open spec fn acts_on_child(a: Action) -> bool {
    !(a is Ignore)
}

/// The phase after a sequence of events.
pub open spec fn phase_after(phase: Phase, events: Seq<Event>) -> Phase
    decreases events.len(),
{
    if events.len() == 0 {
        phase
    } else {
        phase_after(step(phase, events[0]).0, events.drop_first())
    }
}

/// The actions, one per event, that a sequence of events produces.
pub open spec fn actions_of(phase: Phase, events: Seq<Event>) -> Seq<Action>
    decreases events.len(),
{
    if events.len() == 0 {
        Seq::empty()
    } else {
        let (next, a) = step(phase, events[0]);
        seq![a] + actions_of(next, events.drop_first())
    }
}

/// Once a path has acted, the slot is settled: every later event, in any
/// number and order, is ignored and the phase never changes.
pub proof fn lemma_settled_slot_ignores(phase: Phase, events: Seq<Event>)
    requires
        phase != Phase::Running,
    ensures
        actions_of(phase, events).len() == events.len(),
        forall|i: int| 0 <= i < events.len() ==> actions_of(phase, events)[i] == Action::Ignore,
        phase_after(phase, events) == phase,
    decreases events.len(),
{
    if events.len() > 0 {
        lemma_settled_slot_ignores(phase, events.drop_first());
        let rest = actions_of(phase, events.drop_first());
        assert forall|i: int| 0 <= i < events.len() implies actions_of(phase, events)[i]
            == Action::Ignore by {
            if i > 0 {
                assert(actions_of(phase, events)[i] == rest[i - 1]);
            }
        }
    }
}

/// Race safety: whatever interleaving of interrupts and wait returns reaches
/// a slot, at most one event acts on the child. There is never both a kill
/// and a resolved exit code, nor two of either.
pub proof fn lemma_child_acted_on_at_most_once(phase: Phase, events: Seq<Event>)
    ensures
        actions_of(phase, events).len() == events.len(),
        forall|i: int, j: int|
            0 <= i < events.len() && 0 <= j < events.len() && acts_on_child(
                #[trigger] actions_of(phase, events)[i],
            ) && acts_on_child(#[trigger] actions_of(phase, events)[j]) ==> i == j,
    decreases events.len(),
{
    if events.len() > 0 {
        let (next, a) = step(phase, events[0]);
        let rest = actions_of(next, events.drop_first());
        let all = actions_of(phase, events);
        lemma_child_acted_on_at_most_once(next, events.drop_first());
        if phase == Phase::Running {
            lemma_settled_slot_ignores(next, events.drop_first());
        }
        assert forall|i: int| 0 < i < events.len() implies all[i] == rest[i - 1] by {}
        assert forall|i: int, j: int|
            0 <= i < events.len() && 0 <= j < events.len() && acts_on_child(
                #[trigger] all[i],
            ) && acts_on_child(#[trigger] all[j]) implies i == j by {
            if i > 0 {
                assert(all[i] == rest[i - 1]);
            }
            if j > 0 {
                assert(all[j] == rest[j - 1]);
            }
        }
    }
}

/// An interrupt that reaches a running child before its wait returns kills
/// it and ends the hosting process with the interrupt code; no exit code is
/// ever resolved afterwards.
pub proof fn lemma_interrupt_first_kills(events: Seq<Event>)
    requires
        events.len() > 0,
        events[0] == Event::Interrupt,
    ensures
        actions_of(Phase::Running, events)[0] == Action::KillAndExit(INTERRUPT_EXIT_CODE),
        INTERRUPT_EXIT_CODE == 69,
        forall|i: int|
            0 <= i < events.len() ==> !(#[trigger] actions_of(Phase::Running, events)[i] is Return),
        phase_after(Phase::Running, events) == Phase::KilledByInterrupt,
{
    let all = actions_of(Phase::Running, events);
    lemma_settled_slot_ignores(Phase::KilledByInterrupt, events.drop_first());
    assert forall|i: int| 0 < i < events.len() implies all[i] == actions_of(
        Phase::KilledByInterrupt,
        events.drop_first(),
    )[i - 1] by {}
}

/// A wait that returns while the child still runs resolves the code of its
/// result, and no interrupt after it kills anything: a child that exited with
/// `n` gives `n`, one that was already reaped gives 0.
pub proof fn lemma_wait_first_resolves(r: WaitResult, events: Seq<Event>)
    requires
        events.len() > 0,
        events[0] == Event::WaitReturned(r),
    ensures
        actions_of(Phase::Running, events)[0] == Action::Return(exit_code_of(r)),
        forall|n: i32| r == (WaitResult::Exited { code: Some(n) }) ==> exit_code_of(r) == n,
        r == WaitResult::NoChild ==> exit_code_of(r) == 0,
        forall|i: int|
            0 <= i < events.len() ==> !(#[trigger] actions_of(Phase::Running, events)[i] is KillAndExit),
        phase_after(Phase::Running, events) == phase_after_wait(r),
{
    let all = actions_of(Phase::Running, events);
    lemma_settled_slot_ignores(phase_after_wait(r), events.drop_first());
    assert forall|i: int| 0 < i < events.len() implies all[i] == actions_of(
        phase_after_wait(r),
        events.drop_first(),
    )[i - 1] by {}
}

/// Computes one transition of the slot.
pub fn decide(phase: Phase, event: Event) -> (r: (Phase, Action))
    ensures
        r == step(phase, event),
{
    match phase {
        Phase::Running => match event {
            Event::Interrupt => (Phase::KilledByInterrupt, Action::KillAndExit(INTERRUPT_EXIT_CODE)),
            Event::WaitReturned(r) => {
                let next = match r {
                    WaitResult::Exited { .. } => Phase::ReapedNatural,
                    WaitResult::NoChild => Phase::AlreadyReaped,
                    WaitResult::Failed => Phase::WaitFailed,
                };
                (next, Action::Return(exit_code(r)))
            },
        },
        _ => (phase, Action::Ignore),
    }
}

/// The slot itself: the child handle, present exactly while it runs.
pub struct ChildSlot<C> {
    child: Option<C>,
    phase: Phase,
}

impl<C> ChildSlot<C> {
    /// The handle while it is in the slot.
    pub closed spec fn child(&self) -> Option<C> {
        self.child
    }

    pub closed spec fn phase(&self) -> Phase {
        self.phase
    }

    /// The handle is in the slot exactly while nobody has acted on it.
    pub closed spec fn wf(&self) -> bool {
        self.child is Some <==> self.phase == Phase::Running
    }

    /// A slot holding a freshly spawned child.
    pub fn new(child: C) -> (r: Self)
        ensures
            r.wf(),
            r.phase() == Phase::Running,
            r.child() == Some(child),
    {
        ChildSlot { child: Some(child), phase: Phase::Running }
    }

    pub fn current_phase(&self) -> (r: Phase)
        ensures
            r == self.phase(),
    {
        self.phase
    }

    /// Delivers an event. Checking for the handle and taking it is one step:
    /// the handle comes out together with an acting action, and only for the
    /// first event; every later event gets `Ignore` and no handle.
    pub fn deliver(&mut self, event: Event) -> (r: (Action, Option<C>))
        requires
            old(self).wf(),
        ensures
            final(self).wf(),
            (final(self).phase(), r.0) == step(old(self).phase(), event),
            r.1 == old(self).child(),
            final(self).child() is None,
    {
        let (next, action) = decide(self.phase, event);
        let taken = self.child.take();
        self.phase = next;
        (action, taken)
    }
}

} // verus!
