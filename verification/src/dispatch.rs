//! The dispatch of work units, with cooperative cancellation.
//!
//! A run has a fixed number of work units: the profiles of a session, or the
//! candidate files of one profile. Workers ask for the next unit, do it, and
//! hand back what came of it. An interrupt is noted when a worker asks: from
//! then on no unit is handed out, while the units that are out are still
//! taken back and counted. The flag is set once and never cleared.

use crate::conversion::Outcome;
use vstd::prelude::*;

verus! {

/// Where one work unit stands.
#[derive(Clone, Copy, Debug, PartialEq, Eq, Structural)]
pub enum Slot {
    /// Not handed out yet.
    Queued,
    /// Handed out, not handed back yet.
    Running,
    /// Handed back with what came of it.
    Done(Outcome),
}

/// A run as a value.
pub struct DispatchView {
    /// Whether an interrupt was noted.
    pub cancelled: bool,
    /// How many units were handed out.
    pub started: nat,
    /// Each unit's state, by its ticket.
    pub slots: Seq<Slot>,
}

/// What can happen to a run.
pub enum Event {
    /// A worker asks for work; `interrupted` is the interrupt flag as it
    /// stands at that moment.
    Poll { interrupted: bool },
    /// A worker hands the unit `ticket` back.
    Complete { ticket: nat, outcome: Outcome },
    /// The interrupt is noted outside of any request for work.
    Interrupt,
}

impl DispatchView {
    /// Units are handed out in the order of their tickets: exactly those
    /// below `started` have left the queue.
    pub open spec fn wf(self) -> bool {
        &&& self.started <= self.slots.len()
        &&& forall|i: int|
            0 <= i < self.slots.len() ==> (i < self.started <==> #[trigger] self.slots[i]
                != Slot::Queued)
    }

    /// The run after a worker asked for work, and the ticket that it got.
    pub open spec fn poll(self, interrupted: bool) -> (DispatchView, Option<nat>) {
        let cancelled = self.cancelled || interrupted;
        if cancelled || self.started >= self.slots.len() {
            (DispatchView { cancelled, ..self }, None)
        } else {
            (
                DispatchView {
                    cancelled,
                    started: self.started + 1,
                    slots: self.slots.update(self.started as int, Slot::Running),
                },
                Some(self.started),
            )
        }
    }

    /// The run after a worker handed `ticket` back, and whether that was
    /// taken: only a unit that is out can come back.
    pub open spec fn complete(self, ticket: nat, outcome: Outcome) -> (DispatchView, bool) {
        if ticket < self.slots.len() && self.slots[ticket as int] == Slot::Running {
            (
                DispatchView { slots: self.slots.update(ticket as int, Slot::Done(outcome)), ..self },
                true,
            )
        } else {
            (self, false)
        }
    }

    /// The run after an interrupt was noted.
    pub open spec fn interrupt(self) -> DispatchView {
        DispatchView { cancelled: true, ..self }
    }

    /// The run after `event`.
    pub open spec fn step(self, event: Event) -> DispatchView {
        match event {
            Event::Poll { interrupted } => self.poll(interrupted).0,
            Event::Complete { ticket, outcome } => self.complete(ticket, outcome).0,
            Event::Interrupt => self.interrupt(),
        }
    }

    /// The run after `events`, one after the other.
    pub open spec fn after(self, events: Seq<Event>) -> DispatchView
        decreases events.len(),
    {
        if events.len() == 0 {
            self
        } else {
            self.after(events.drop_last()).step(events.last())
        }
    }

    /// Whether no unit is out.
    pub open spec fn idle(self) -> bool {
        forall|i: int| 0 <= i < self.slots.len() ==> #[trigger] self.slots[i] != Slot::Running
    }

    /// Whether the run is over: no unit is out and none will be handed out.
    pub open spec fn drained(self) -> bool {
        self.idle() && (self.cancelled || self.started == self.slots.len())
    }

    /// How many of the first `upto` units have the state `slot`.
    pub open spec fn count(self, slot: Slot, upto: int) -> nat
        decreases upto,
    {
        if upto <= 0 {
            0
        } else {
            self.count(slot, upto - 1) + if self.slots[upto - 1] == slot {
                1nat
            } else {
                0nat
            }
        }
    }
}

/// Every event leaves a run well formed.
pub proof fn lemma_step_keeps_order(run: DispatchView, event: Event)
    requires
        run.wf(),
    ensures
        run.step(event).wf(),
        run.step(event).slots.len() == run.slots.len(),
        run.cancelled ==> run.step(event).cancelled,
{
}

/// After cancellation no new unit is ever started: whatever happens next,
/// the run stays cancelled, as many units were handed out as before, and the
/// units that were queued stay queued.
pub proof fn lemma_cancelled_starts_nothing(run: DispatchView, events: Seq<Event>)
    requires
        run.wf(),
        run.cancelled,
    ensures
        run.after(events).wf(),
        run.after(events).cancelled,
        run.after(events).started == run.started,
        run.after(events).slots.len() == run.slots.len(),
        forall|i: int|
            run.started <= i < run.slots.len() ==> run.after(events).slots[i] == Slot::Queued,
    decreases events.len(),
{
    if events.len() > 0 {
        lemma_cancelled_starts_nothing(run, events.drop_last());
        lemma_step_keeps_order(run.after(events.drop_last()), events.last());
    }
}

/// A request for work that finds the interrupt flag set hands out nothing,
/// and leaves every unit as it was.
pub proof fn lemma_interrupted_poll_starts_nothing(run: DispatchView)
    requires
        run.wf(),
    ensures
        run.poll(true).1 is None,
        run.poll(true).0 == run.interrupt(),
        run.poll(true).0.slots == run.slots,
{
}

/// A unit that is out is taken back with what came of it, cancelled or not.
pub proof fn lemma_running_unit_completes(run: DispatchView, ticket: nat, outcome: Outcome)
    requires
        run.wf(),
        ticket < run.slots.len(),
        run.slots[ticket as int] == Slot::Running,
    ensures
        run.complete(ticket, outcome).1,
        run.complete(ticket, outcome).0.slots[ticket as int] == Slot::Done(outcome),
        run.complete(ticket, outcome).0.cancelled == run.cancelled,
{
}

/// Units can be handed back in either order: the run comes out the same,
/// and each of them is taken or not as it would have been alone.
pub proof fn lemma_completions_commute(
    run: DispatchView,
    first: nat,
    first_outcome: Outcome,
    second: nat,
    second_outcome: Outcome,
)
    requires
        run.wf(),
        first != second,
    ensures
        run.complete(first, first_outcome).0.complete(second, second_outcome).0 == run.complete(
            second,
            second_outcome,
        ).0.complete(first, first_outcome).0,
        run.complete(first, first_outcome).0.complete(second, second_outcome).1 == run.complete(
            second,
            second_outcome,
        ).1,
        run.complete(second, second_outcome).0.complete(first, first_outcome).1 == run.complete(
            first,
            first_outcome,
        ).1,
{
    let one = run.complete(first, first_outcome).0.complete(second, second_outcome).0;
    let other = run.complete(second, second_outcome).0.complete(first, first_outcome).0;
    assert(one.slots =~= other.slots);
}

/// What came of a unit stays on record, whatever happens next.
pub proof fn lemma_done_stays_done(run: DispatchView, ticket: nat, outcome: Outcome, events: Seq<Event>)
    requires
        run.wf(),
        ticket < run.slots.len(),
        run.slots[ticket as int] == Slot::Done(outcome),
    ensures
        run.after(events).wf(),
        run.after(events).slots.len() == run.slots.len(),
        run.after(events).slots[ticket as int] == Slot::Done(outcome),
    decreases events.len(),
{
    if events.len() > 0 {
        lemma_done_stays_done(run, ticket, outcome, events.drop_last());
        lemma_step_keeps_order(run.after(events.drop_last()), events.last());
    }
}

/// A run of work units.
pub struct Dispatch {
    cancelled: bool,
    started: usize,
    slots: Vec<Slot>,
}

impl View for Dispatch {
    type V = DispatchView;

    closed spec fn view(&self) -> DispatchView {
        DispatchView { cancelled: self.cancelled, started: self.started as nat, slots: self.slots@ }
    }
}

impl Dispatch {
    #[verifier::type_invariant]
    spec fn well_formed(&self) -> bool {
        self@.wf()
    }

    /// A run of `total` units, none of them handed out.
    pub fn new(total: usize) -> (run: Dispatch)
        ensures
            run@.wf(),
            !run@.cancelled,
            run@.started == 0,
            run@.slots == Seq::new(total as nat, |i: int| Slot::Queued),
    {
        let mut slots: Vec<Slot> = Vec::new();
        let mut i: usize = 0;
        while i < total
            invariant
                i <= total,
                slots.len() == i,
                forall|j: int| 0 <= j < i ==> slots@[j] == Slot::Queued,
            decreases total - i,
        {
            slots.push(Slot::Queued);
            i += 1;
        }
        assert(slots@ =~= Seq::new(total as nat, |i: int| Slot::Queued));
        Dispatch { cancelled: false, started: 0, slots }
    }

    /// Notes an interrupt.
    pub fn cancel(&mut self)
        ensures
            final(self)@ == old(self)@.interrupt(),
            final(self)@.wf(),
    {
        proof {
            use_type_invariant(&*self);
        }
        self.cancelled = true;
    }

    /// Whether an interrupt was noted.
    pub fn is_cancelled(&self) -> (cancelled: bool)
        ensures
            cancelled == self@.cancelled,
    {
        self.cancelled
    }

    /// How many units the run has.
    pub fn total(&self) -> (total: usize)
        ensures
            total == self@.slots.len(),
    {
        self.slots.len()
    }

    /// Asks for the next unit. `interrupted` is the interrupt flag as the
    /// caller has just read it; once it was set, no unit is handed out, now
    /// or later.
    pub fn next(&mut self, interrupted: bool) -> (ticket: Option<usize>)
        ensures
            old(self)@.wf(),
            final(self)@.wf(),
            final(self)@ == old(self)@.poll(interrupted).0,
            match ticket {
                Some(t) => old(self)@.poll(interrupted).1 == Some(t as nat),
                None => old(self)@.poll(interrupted).1 is None,
            },
            old(self)@.cancelled || interrupted ==> ticket is None,
    {
        proof {
            use_type_invariant(&*self);
        }
        if interrupted {
            self.cancelled = true;
        }
        if self.cancelled || self.started >= self.slots.len() {
            return None;
        }
        let ticket = self.started;
        let mut run = Dispatch { cancelled: false, started: 0, slots: Vec::new() };
        std::mem::swap(self, &mut run);
        let Dispatch { cancelled, started: _, mut slots } = run;
        slots.set(ticket, Slot::Running);
        *self = Dispatch { cancelled, started: ticket + 1, slots };
        Some(ticket)
    }

    /// Hands the unit `ticket` back with what came of it. Only a unit that
    /// is out is taken; the run being cancelled does not matter.
    pub fn finish(&mut self, ticket: usize, outcome: Outcome) -> (taken: bool)
        ensures
            old(self)@.wf(),
            final(self)@.wf(),
            final(self)@ == old(self)@.complete(ticket as nat, outcome).0,
            taken == old(self)@.complete(ticket as nat, outcome).1,
    {
        proof {
            use_type_invariant(&*self);
        }
        if ticket >= self.slots.len() {
            return false;
        }
        match self.slots[ticket] {
            Slot::Running => {},
            _ => {
                return false;
            },
        }
        let mut run = Dispatch { cancelled: false, started: 0, slots: Vec::new() };
        std::mem::swap(self, &mut run);
        let Dispatch { cancelled, started, mut slots } = run;
        slots.set(ticket, Slot::Done(outcome));
        *self = Dispatch { cancelled, started, slots };
        true
    }

    /// The state of the unit `ticket`, if there is such a unit.
    pub fn slot(&self, ticket: usize) -> (slot: Option<Slot>)
        ensures
            slot == if ticket < self@.slots.len() {
                Some(self@.slots[ticket as int])
            } else {
                None
            },
    {
        if ticket < self.slots.len() {
            Some(self.slots[ticket])
        } else {
            None
        }
    }

    /// How many units have the state `slot`.
    pub fn tally(&self, slot: Slot) -> (n: usize)
        ensures
            n == self@.count(slot, self@.slots.len() as int),
    {
        let mut n: usize = 0;
        let mut i: usize = 0;
        while i < self.slots.len()
            invariant
                i <= self.slots.len(),
                n <= i,
                n == self@.count(slot, i as int),
            decreases self.slots.len() - i,
        {
            if self.slots[i] == slot {
                n += 1;
            }
            i += 1;
        }
        n
    }

    /// Whether the run is over: no unit is out and none will be handed out.
    pub fn is_drained(&self) -> (over: bool)
        ensures
            over == self@.drained(),
    {
        proof {
            use_type_invariant(self);
        }
        if !self.cancelled && self.started < self.slots.len() {
            return false;
        }
        let mut i: usize = 0;
        while i < self.slots.len()
            invariant
                i <= self.slots.len(),
                self.cancelled || self.started == self.slots.len(),
                forall|j: int| 0 <= j < i ==> #[trigger] self.slots@[j] != Slot::Running,
            decreases self.slots.len() - i,
        {
            match self.slots[i] {
                Slot::Running => {
                    return false;
                },
                _ => {},
            }
            i += 1;
        }
        true
    }
}

/// How many workers a pool runs: one where the work is to be done in
/// sequence, else as many as the machine offers, and one at least.
pub fn workers(concurrent: bool, available: usize) -> (n: usize)
    ensures
        n >= 1,
        !concurrent ==> n == 1,
        concurrent && available >= 1 ==> n == available,
        concurrent && available == 0 ==> n == 1,
{
    if concurrent && available >= 1 {
        available
    } else {
        1
    }
}

} // verus!
