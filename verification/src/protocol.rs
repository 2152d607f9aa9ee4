//! The three-state lock word and the decisions a thread takes on it.
//!
//! Nothing here touches memory. An acquiring thread is a small machine: each
//! phase names the one operation it performs next, and what that operation
//! reports decides the following phase. The releasing side is a single
//! decision on the value that the decrement replaced. From both follows which
//! operations a thread makes on the word, which is what the lock's code is
//! held to.

use vstd::prelude::*;
use crate::word::Op;

verus! {

/// No owner.
pub const UNLOCKED: u32 = 0;

/// One owner, and no thread has announced that it waits.
pub const LOCKED: u32 = 1;

/// One owner, and some thread waits or has waited.
pub const CONTESTED: u32 = 2;

/// The number of waiters a release asks to wake: all of them.
pub const ALL: u32 = 0xffff_ffff;

/// The values a lock word may hold.
pub open spec fn is_word(v: u32) -> bool {
    v == UNLOCKED || v == LOCKED || v == CONTESTED
}

/// An operation on the lock word, or the request to sleep on it.
#[derive(Clone, Copy, Debug, PartialEq, Eq, Structural)]
pub enum Action {
    /// Replace `current` by `new` if the word holds `current`.
    Cas { current: u32, new: u32 },
    /// Sleep while the word holds `expected`.
    Wait { expected: u32 },
    /// Nothing is left to do.
    Rest,
}

/// What a thread learns from the operation it performed.
#[derive(Clone, Copy, Debug, PartialEq, Eq, Structural)]
pub enum Event {
    /// The exchange took place; the word held the given value before.
    Swapped(u32),
    /// The exchange did not take place; the word was seen with the given value.
    Refused(u32),
    /// The wait returned, for whatever reason.
    Woken,
}

/// Where an acquiring thread stands.
#[derive(Clone, Copy, Debug, PartialEq, Eq, Structural)]
pub enum Phase {
    /// About to try the uncontended exchange.
    Enter,
    /// About to announce itself as a waiter.
    Mark,
    /// About to sleep.
    Park,
    /// About to take the lock while keeping the word contested.
    Claim,
    /// The lock is taken.
    Held,
}

/// The phase that follows a refused exchange which saw `seen`.
pub open spec fn backoff(seen: u32) -> Phase {
    if seen == CONTESTED {
        Phase::Park
    } else {
        Phase::Mark
    }
}

/// The operation a thread in `phase` performs next.
pub open spec fn pending(phase: Phase) -> Action {
    match phase {
        Phase::Enter => Action::Cas { current: UNLOCKED, new: LOCKED },
        Phase::Mark => Action::Cas { current: LOCKED, new: CONTESTED },
        Phase::Park => Action::Wait { expected: CONTESTED },
        Phase::Claim => Action::Cas { current: UNLOCKED, new: CONTESTED },
        Phase::Held => Action::Rest,
    }
}

/// Whether `event` is a report that `action` can give: an exchange takes
/// place on the value it asked for and is refused on any other, and a wait
/// returns.
pub open spec fn answers(action: Action, event: Event) -> bool {
    match action {
        Action::Cas { current, new } => match event {
            Event::Swapped(prev) => prev == current,
            Event::Refused(seen) => seen != current,
            Event::Woken => false,
        },
        Action::Wait { expected } => event == Event::Woken,
        Action::Rest => false,
    }
}

/// The phase that follows `phase` once its operation reported `event`.
/// A report that the pending operation cannot give leaves the phase as it is.
pub open spec fn advance(phase: Phase, event: Event) -> Phase {
    match phase {
        Phase::Enter | Phase::Claim => match event {
            Event::Swapped(_) => Phase::Held,
            Event::Refused(seen) => backoff(seen),
            Event::Woken => phase,
        },
        Phase::Mark => match event {
            Event::Swapped(_) => Phase::Claim,
            Event::Refused(seen) => if seen == CONTESTED {
                Phase::Park
            } else {
                Phase::Claim
            },
            Event::Woken => phase,
        },
        Phase::Park => match event {
            Event::Woken => Phase::Claim,
            _ => phase,
        },
        Phase::Held => phase,
    }
}

/// Whether a release must wake the waiters, given the value that its
/// decrement replaced.
pub open spec fn wake_needed(prev: u32) -> bool {
    prev != LOCKED
}

/// What a compare-and-exchange of `current` may report.
pub open spec fn exchange_reports(current: u32, report: Result<u32, u32>) -> bool {
    match report {
        Ok(prev) => prev == current,
        Err(seen) => seen != current,
    }
}

/// The event that a compare-and-exchange report stands for.
pub open spec fn event_of(report: Result<u32, u32>) -> Event {
    match report {
        Ok(prev) => Event::Swapped(prev),
        Err(seen) => Event::Refused(seen),
    }
}

/// The phase that a thread which started in `start` has reached once it has
/// seen `events`, one after the other.
pub open spec fn phase_after(start: Phase, events: Seq<Event>) -> Phase
    decreases events.len(),
{
    if events.len() == 0 {
        start
    } else {
        advance(phase_after(start, events.drop_last()), events.last())
    }
}

/// Whether `events` can be what a thread that started in `start` has seen:
/// each event is a report of the operation that was pending when it came.
pub open spec fn is_run(start: Phase, events: Seq<Event>) -> bool {
    forall|i: int|
        0 <= i < events.len() ==> answers(
            pending(#[trigger] phase_after(start, events.take(i))),
            events[i],
        )
}

/// Whether `events` is the whole course of one acquisition: a run from
/// `Enter` that ends with the lock held.
pub open spec fn is_acquisition(events: Seq<Event>) -> bool {
    is_run(Phase::Enter, events) && phase_after(Phase::Enter, events) == Phase::Held
}

/// The number of waits among `events`.
pub open spec fn waits(events: Seq<Event>) -> nat
    decreases events.len(),
{
    if events.len() == 0 {
        0
    } else {
        waits(events.drop_last()) + if events.last() == Event::Woken {
            1nat
        } else {
            0nat
        }
    }
}

/// A run goes on by any report of the operation that is pending at its end.
pub proof fn lemma_run_push(start: Phase, events: Seq<Event>, event: Event)
    requires
        is_run(start, events),
        answers(pending(phase_after(start, events)), event),
    ensures
        is_run(start, events.push(event)),
        phase_after(start, events.push(event)) == advance(phase_after(start, events), event),
{
    let longer = events.push(event);
    assert(longer.drop_last() =~= events);
    assert forall|i: int| 0 <= i < longer.len() implies answers(
        pending(#[trigger] phase_after(start, longer.take(i))),
        longer[i],
    ) by {
        if i < events.len() {
            assert(longer.take(i) =~= events.take(i));
        } else {
            assert(longer.take(i) =~= events);
        }
    }
}

/// The operation on the word that `action` was, given what it reported. An
/// exchange is made as the action says; a wait is made without a timeout.
pub open spec fn op_of(action: Action, event: Event) -> Op {
    match action {
        Action::Cas { current, new } => Op::Exchange {
            current,
            new,
            report: match event {
                Event::Swapped(prev) => Ok(prev),
                Event::Refused(seen) => Err(seen),
                Event::Woken => arbitrary(),
            },
        },
        Action::Wait { expected } => Op::Wait { expected, timeout: None },
        Action::Rest => arbitrary(),
    }
}

/// The operations on the word that a thread which started in `start` has
/// made, if `events` is what they reported: one for each event, the one that
/// was pending when the event came.
pub open spec fn course(start: Phase, events: Seq<Event>) -> Seq<Op>
    decreases events.len(),
{
    if events.len() == 0 {
        Seq::empty()
    } else {
        course(start, events.drop_last()).push(
            op_of(pending(phase_after(start, events.drop_last())), events.last()),
        )
    }
}

/// The one operation of an attempt that does not wait: a weak exchange of
/// unlocked for locked.
pub open spec fn attempt_op(report: Result<u32, u32>) -> Op {
    Op::WeakExchange { current: UNLOCKED, new: LOCKED, report }
}

/// The operations that complete a release whose decrement replaced `prev`:
/// none after the uncontended value, else the store that unlocks the word
/// and then the wake of every waiter, without a timeout.
pub open spec fn settle_ops(prev: u32) -> Seq<Op> {
    if wake_needed(prev) {
        seq![Op::Store { value: UNLOCKED }, Op::Wake { count: ALL, timeout: None }]
    } else {
        Seq::empty()
    }
}

/// The operations of a release whose decrement replaced `prev`.
pub open spec fn release_ops(prev: u32) -> Seq<Op> {
    seq![Op::Decrement { prev }] + settle_ops(prev)
}

/// The course of a run goes on by the operation that was pending at its end.
pub proof fn lemma_course_push(start: Phase, events: Seq<Event>, event: Event)
    ensures
        course(start, events.push(event)) == course(start, events).push(
            op_of(pending(phase_after(start, events)), event),
        ),
{
    assert(events.push(event).drop_last() =~= events);
}

/// The phase before the event at `i` is the phase that the events before it
/// lead to.
proof fn lemma_phase_unfold(start: Phase, events: Seq<Event>, i: int)
    requires
        0 <= i < events.len(),
    ensures
        phase_after(start, events.take(i + 1)) == advance(
            phase_after(start, events.take(i)),
            events[i],
        ),
{
    assert(events.take(i + 1).drop_last() =~= events.take(i));
}

/// An acquisition takes the word once, by its last exchange, and takes it
/// from unlocked.
pub proof fn law_acquisition_takes_unlocked(events: Seq<Event>)
    requires
        is_acquisition(events),
    ensures
        events.len() > 0,
        events.last() == Event::Swapped(UNLOCKED),
{
    if events.len() > 0 {
        let i = events.len() - 1;
        assert(events.take(i) =~= events.drop_last());
        let before = phase_after(Phase::Enter, events.take(i));
        assert(answers(pending(before), events[i]));
    }
}

/// What a compare-and-exchange may report is what answers it as an event.
pub proof fn law_reports_answer(current: u32, new: u32, report: Result<u32, u32>)
    ensures
        exchange_reports(current, report) == answers(
            Action::Cas { current, new },
            event_of(report),
        ),
{
}

/// One exchange that finds the word unlocked is an acquisition.
pub proof fn law_one_exchange_acquires()
    ensures
        is_acquisition(seq![Event::Swapped(UNLOCKED)]),
{
    let events = seq![Event::Swapped(UNLOCKED)];
    assert(events =~= Seq::<Event>::empty().push(Event::Swapped(UNLOCKED)));
    assert(is_run(Phase::Enter, Seq::<Event>::empty()));
    lemma_run_push(Phase::Enter, Seq::<Event>::empty(), Event::Swapped(UNLOCKED));
}

/// The value that an acquisition leaves in the word: what its last exchange
/// stored.
pub open spec fn left_in_word(events: Seq<Event>) -> u32 {
    pending(phase_after(Phase::Enter, events.drop_last()))->new
}

/// An acquisition that needed more than its first exchange leaves the word
/// contested, since it cannot know whether other threads still wait; one that
/// needed no more leaves it locked.
pub proof fn law_slow_path_stays_contested(events: Seq<Event>)
    requires
        is_acquisition(events),
    ensures
        events.len() == 1 ==> left_in_word(events) == LOCKED,
        events.len() != 1 ==> left_in_word(events) == CONTESTED,
{
    law_acquisition_takes_unlocked(events);
    let i = events.len() - 1;
    let earlier = events.drop_last();
    assert(events.take(i) =~= earlier);
    assert(answers(pending(phase_after(Phase::Enter, events.take(i))), events[i]));
    if earlier.len() > 0 {
        let j = earlier.len() - 1;
        assert(events.take(j) =~= earlier.drop_last());
        assert(answers(pending(phase_after(Phase::Enter, events.take(j))), events[j]));
    }
}

/// The uncontended path: a run whose first exchange succeeds is over with
/// that exchange, and holds no wait.
pub proof fn law_uncontended_run(events: Seq<Event>)
    requires
        is_run(Phase::Enter, events),
        events.len() > 0,
        events[0] is Swapped,
    ensures
        events.len() == 1,
        waits(events) == 0,
        phase_after(Phase::Enter, events) == Phase::Held,
{
    assert(events.take(0) =~= Seq::<Event>::empty());
    lemma_phase_unfold(Phase::Enter, events, 0);
    if events.len() > 1 {
        assert(answers(pending(phase_after(Phase::Enter, events.take(1))), events[1]));
    }
    assert(events.take(1) =~= events);
    assert(events.drop_last() =~= Seq::<Event>::empty());
    assert(waits(events.drop_last()) == 0);
}

/// The course of a run holds one operation for each event.
pub proof fn lemma_course_len(start: Phase, events: Seq<Event>)
    ensures
        course(start, events).len() == events.len(),
    decreases events.len(),
{
    if events.len() > 0 {
        lemma_course_len(start, events.drop_last());
    }
}

/// The operation that the course holds for an event is the one that was
/// pending when the event came.
pub proof fn lemma_course_index(start: Phase, events: Seq<Event>, i: int)
    requires
        0 <= i < events.len(),
    ensures
        course(start, events).len() == events.len(),
        course(start, events)[i] == op_of(pending(phase_after(start, events.take(i))), events[i]),
    decreases events.len(),
{
    let earlier = events.drop_last();
    lemma_course_len(start, events);
    lemma_course_len(start, earlier);
    if i < earlier.len() {
        lemma_course_index(start, earlier, i);
        assert(earlier.take(i) =~= events.take(i));
    } else {
        assert(events.take(i) =~= earlier);
    }
}

/// Every wait of a run is a wait on the contested word, without a timeout,
/// and comes after an exchange that was refused because the word was
/// contested already.
pub proof fn law_waits_are_on_contested(events: Seq<Event>, i: int)
    requires
        is_run(Phase::Enter, events),
        0 <= i < events.len(),
        course(Phase::Enter, events)[i] is Wait,
    ensures
        course(Phase::Enter, events)[i] == (Op::Wait { expected: CONTESTED, timeout: None }),
        i > 0,
        course(Phase::Enter, events)[i - 1] matches Op::Exchange { report, .. } && report == Err::<
            u32,
            u32,
        >(CONTESTED),
{
    lemma_course_index(Phase::Enter, events, i);
    let here = phase_after(Phase::Enter, events.take(i));
    assert(answers(pending(here), events[i]));
    law_wait_follows_contention(events, i);
    lemma_course_index(Phase::Enter, events, i - 1);
    let before = phase_after(Phase::Enter, events.take(i - 1));
    assert(answers(pending(before), events[i - 1]));
}

/// The uncontended path enters the kernel not at all: an acquisition whose
/// first exchange succeeds is that one exchange, and the release that finds
/// the word locked is its one decrement. Neither holds a wait or a wake.
pub proof fn law_uncontended_operations(events: Seq<Event>)
    requires
        is_run(Phase::Enter, events),
        events.len() > 0,
        events[0] is Swapped,
    ensures
        course(Phase::Enter, events) == seq![
            Op::Exchange { current: UNLOCKED, new: LOCKED, report: Ok(UNLOCKED) },
        ],
        release_ops(LOCKED) == seq![Op::Decrement { prev: LOCKED }],
{
    law_uncontended_run(events);
    let none = Seq::<Event>::empty();
    assert(events.take(0) =~= none);
    assert(answers(pending(phase_after(Phase::Enter, events.take(0))), events[0]));
    assert(events =~= none.push(events[0]));
    lemma_course_push(Phase::Enter, none, events[0]);
    assert(course(Phase::Enter, none) =~= Seq::<Op>::empty());
    assert(course(Phase::Enter, events) =~= seq![
        Op::Exchange { current: UNLOCKED, new: LOCKED, report: Ok(UNLOCKED) },
    ]);
    assert(release_ops(LOCKED) =~= seq![Op::Decrement { prev: LOCKED }]);
}

/// A thread waits only after it has seen the word contested: the report
/// before each wait is a refused exchange that saw `CONTESTED`.
pub proof fn law_wait_follows_contention(events: Seq<Event>, i: int)
    requires
        is_run(Phase::Enter, events),
        0 <= i < events.len(),
        events[i] == Event::Woken,
    ensures
        i > 0,
        events[i - 1] == Event::Refused(CONTESTED),
{
    let here = phase_after(Phase::Enter, events.take(i));
    assert(answers(pending(here), events[i]));
    assert(here == Phase::Park);
    if i == 0 {
        assert(events.take(0) =~= Seq::<Event>::empty());
    } else {
        lemma_phase_unfold(Phase::Enter, events, i - 1);
        let before = phase_after(Phase::Enter, events.take(i - 1));
        assert(answers(pending(before), events[i - 1]));
    }
}

impl Phase {
    /// The operation to perform next.
    pub fn action(&self) -> (a: Action)
        ensures
            a == pending(*self),
    {
        match self {
            Phase::Enter => Action::Cas { current: UNLOCKED, new: LOCKED },
            Phase::Mark => Action::Cas { current: LOCKED, new: CONTESTED },
            Phase::Park => Action::Wait { expected: CONTESTED },
            Phase::Claim => Action::Cas { current: UNLOCKED, new: CONTESTED },
            Phase::Held => Action::Rest,
        }
    }

    /// The phase after the pending operation reported `event`.
    pub fn step(self, event: Event) -> (next: Phase)
        ensures
            next == advance(self, event),
    {
        match self {
            Phase::Enter | Phase::Claim => match event {
                Event::Swapped(_) => Phase::Held,
                Event::Refused(seen) => if seen == CONTESTED {
                    Phase::Park
                } else {
                    Phase::Mark
                },
                Event::Woken => self,
            },
            Phase::Mark => match event {
                Event::Refused(seen) => if seen == CONTESTED {
                    Phase::Park
                } else {
                    Phase::Claim
                },
                Event::Swapped(_) => Phase::Claim,
                Event::Woken => self,
            },
            Phase::Park => match event {
                Event::Woken => Phase::Claim,
                _ => self,
            },
            Phase::Held => self,
        }
    }

    /// Whether the lock is taken.
    pub fn is_held(&self) -> (b: bool)
        ensures
            b == (*self == Phase::Held),
    {
        match self {
            Phase::Held => true,
            _ => false,
        }
    }
}

/// The event that a compare-and-exchange report stands for.
pub fn observe(report: Result<u32, u32>) -> (event: Event)
    ensures
        event == event_of(report),
{
    match report {
        Ok(prev) => Event::Swapped(prev),
        Err(seen) => Event::Refused(seen),
    }
}

/// Whether the releasing thread must wake the waiters.
pub fn must_wake(prev: u32) -> (b: bool)
    ensures
        b == wake_needed(prev),
    opens_invariants none
    no_unwind
{
    prev != LOCKED
}

} // verus!
