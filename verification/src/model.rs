//! Any number of threads on one lock word, and what holds of every
//! interleaving of their operations.
//!
//! A thread here does what the lock's code does, one operation on the shared
//! word at a time: it follows the phases of `protocol` to take the word, reads
//! and adds one to a shared counter while it owns the lock, and gives the word
//! back by the decrement and, where needed, the reset and the wake. Between
//! any two operations of one thread, any other thread may run. The operations
//! take effect one at a time, in one order that all threads agree on; a wait
//! looks at the word and falls asleep in one such operation, as the kernel
//! does it.
//!
//! The model is tied to the lock's code from both sides. A thread carries
//! what its operations have reported and the operations themselves, and is
//! held to the statements that the code makes of a tap's record: an owner has
//! made the operations of an acquisition, a thread that has left those of a
//! release. And the word is held to be an atomic: each operation reports what
//! the word holds when it is made, and leaves what the next one finds. That
//! the real word behaves so is what the hardware promises of an atomic; it is
//! the one thing the model takes for granted.

use vstd::prelude::*;
use crate::protocol::{
    advance, answers, attempt_op, course, event_of, is_acquisition, is_run, is_word,
    law_one_exchange_acquires, lemma_course_push, lemma_run_push, op_of, pending, phase_after,
    release_ops, wake_needed, Action, Event, Phase, ALL, CONTESTED, LOCKED, UNLOCKED,
};
use crate::word::Op;

verus! {

/// Where a thread stands.
pub enum Pc {
    /// Outside the lock, with nothing under way.
    Idle,
    /// Taking the lock, about to perform the operation of the phase.
    Acquiring(Phase),
    /// Asleep in a wait.
    Asleep,
    /// Owner of the lock, with the counter's value if it has read it.
    Inside(Option<int>),
    /// Past the decrement of a release that must wake, before the reset.
    Leaving,
    /// Past the reset of a release, before the wake.
    Waking,
}

/// A thread: where it stands, what the operations of its latest acquisition
/// have reported, the operations on the word that it has made to take the
/// lock and to give it back, and how often it has added one to the counter.
pub struct Thread {
    pub pc: Pc,
    pub seen: Seq<Event>,
    pub took: Seq<Op>,
    pub gave: Seq<Op>,
    pub done: nat,
}

/// The lock word, the counter it protects, and the threads.
pub struct System {
    pub word: u32,
    pub counter: int,
    pub threads: Seq<Thread>,
}

/// The moves of a thread.
pub enum Move {
    /// Call `lock`.
    Begin,
    /// Call `try_lock`; the one exchange may fail for no reason.
    Try { spurious: bool },
    /// Perform the exchange of the current phase.
    Exchange,
    /// Call the wait: sleep if the word is contested, else return at once.
    Park,
    /// Return from the wait without having been woken.
    Rouse,
    /// Give up an acquisition that has run out of patience.
    GiveUp,
    /// Read the counter.
    Load,
    /// Write the value read, plus one.
    Store,
    /// Decrement the word.
    Decrement,
    /// Reset the word to unlocked.
    Reset,
    /// Wake every sleeper.
    Wake,
}

/// One move of one thread.
pub struct Step {
    pub tid: int,
    pub what: Move,
}

/// What an exchange of `current` for `new` does to a word that holds `word`:
/// the word afterwards, and the report.
pub open spec fn exchange_on(word: u32, current: u32, new: u32) -> (u32, Event) {
    if word == current {
        (new, Event::Swapped(word))
    } else {
        (word, Event::Refused(word))
    }
}

/// What a decrement leaves of `word`.
pub open spec fn decremented(word: u32) -> u32 {
    if word == 0 {
        0xffff_ffff
    } else {
        (word - 1) as u32
    }
}

/// What `op` leaves of a word that holds `word`.
pub open spec fn effect(word: u32, op: Op) -> u32 {
    match op {
        Op::Exchange { current, new, report } => if report is Ok {
            new
        } else {
            word
        },
        Op::WeakExchange { current, new, report } => if report is Ok {
            new
        } else {
            word
        },
        Op::Decrement { prev } => decremented(word),
        Op::Store { value } => value,
        Op::Wait { expected, timeout } => word,
        Op::Wake { count, timeout } => word,
    }
}

/// Whether `op` reports what a word that holds `word` makes it report: an
/// exchange takes place exactly on the value it asks for, a weak one at most
/// there, and both report the value they found, as the decrement does.
pub open spec fn truthful(word: u32, op: Op) -> bool {
    match op {
        Op::Exchange { current, new, report } => report == if word == current {
            Ok::<u32, u32>(word)
        } else {
            Err::<u32, u32>(word)
        },
        Op::WeakExchange { current, new, report } => match report {
            Ok(prev) => prev == word && word == current,
            Err(seen) => seen == word,
        },
        Op::Decrement { prev } => prev == word,
        Op::Store { value } => true,
        Op::Wait { expected, timeout } => true,
        Op::Wake { count, timeout } => true,
    }
}

/// Where a thread stands once its acquisition has reached `phase`.
pub open spec fn arrive(phase: Phase) -> Pc {
    if phase == Phase::Held {
        Pc::Inside(None)
    } else {
        Pc::Acquiring(phase)
    }
}

/// Whether a thread that stands at `pc` owns the lock.
pub open spec fn owns(pc: Pc) -> bool {
    pc is Inside || pc is Leaving
}

/// Whether a thread that stands at `pc` has a wake still to issue.
pub open spec fn will_wake(pc: Pc) -> bool {
    pc is Leaving || pc is Waking
}

/// Whether `step` can be taken in `s`.
pub open spec fn enabled(s: System, step: Step) -> bool {
    &&& 0 <= step.tid < s.threads.len()
    &&& match step.what {
        Move::Begin => s.threads[step.tid].pc is Idle,
        Move::Try { spurious } => s.threads[step.tid].pc is Idle,
        Move::Exchange => s.threads[step.tid].pc matches Pc::Acquiring(phase) && pending(phase) is Cas,
        Move::Park => s.threads[step.tid].pc matches Pc::Acquiring(phase) && pending(phase) is Wait,
        Move::Rouse => s.threads[step.tid].pc is Asleep,
        Move::GiveUp => s.threads[step.tid].pc is Acquiring,
        Move::Load => s.threads[step.tid].pc is Inside,
        Move::Store => s.threads[step.tid].pc matches Pc::Inside(Some(_)),
        Move::Decrement => s.threads[step.tid].pc is Inside,
        Move::Reset => s.threads[step.tid].pc is Leaving,
        Move::Wake => s.threads[step.tid].pc is Waking,
    }
}

/// `s` with thread `tid` moved to `pc`.
pub open spec fn moved(s: System, tid: int, pc: Pc) -> System {
    System { threads: s.threads.update(tid, Thread { pc, ..s.threads[tid] }), ..s }
}

/// The phase of a thread that stands at `pc`: a sleeper is in the phase that
/// waits.
pub open spec fn stage(pc: Pc) -> Phase {
    match pc {
        Pc::Acquiring(phase) => phase,
        Pc::Asleep => Phase::Park,
        Pc::Idle => Phase::Enter,
        _ => Phase::Held,
    }
}

/// `thread` after its pending operation has reported `event`.
pub open spec fn informed(thread: Thread, event: Event) -> Thread {
    Thread {
        pc: arrive(advance(stage(thread.pc), event)),
        seen: thread.seen.push(event),
        took: thread.took.push(op_of(pending(stage(thread.pc)), event)),
        ..thread
    }
}

/// `s` after thread `tid` has made `op` as part of a release and moved to
/// `pc`.
pub open spec fn released(s: System, tid: int, pc: Pc, op: Op) -> System {
    System {
        threads: s.threads.update(
            tid,
            Thread { pc, gave: s.threads[tid].gave.push(op), ..s.threads[tid] },
        ),
        ..s
    }
}

/// `s` after the pending operation of thread `tid` has reported `event`.
pub open spec fn told(s: System, tid: int, event: Event) -> System {
    System { threads: s.threads.update(tid, informed(s.threads[tid], event)), ..s }
}

/// The threads after thread `tid` has woken every sleeper.
pub open spec fn woken_by(threads: Seq<Thread>, tid: int) -> Seq<Thread> {
    Seq::new(
        threads.len(),
        |j: int|
            if j == tid {
                Thread {
                    pc: Pc::Idle,
                    gave: threads[j].gave.push(Op::Wake { count: ALL, timeout: None }),
                    ..threads[j]
                }
            } else if threads[j].pc is Asleep {
                informed(threads[j], Event::Woken)
            } else {
                threads[j]
            },
    )
}

/// The system after `step`.
pub open spec fn next(s: System, step: Step) -> System {
    let tid = step.tid;
    let me = s.threads[tid];
    match step.what {
        Move::Begin => System {
            threads: s.threads.update(
                tid,
                Thread {
                    pc: Pc::Acquiring(Phase::Enter),
                    seen: Seq::empty(),
                    took: Seq::empty(),
                    gave: Seq::empty(),
                    ..me
                },
            ),
            ..s
        },
        Move::Try { spurious } => if s.word == UNLOCKED && !spurious {
            System {
                word: LOCKED,
                threads: s.threads.update(
                    tid,
                    Thread {
                        pc: Pc::Inside(None),
                        seen: seq![Event::Swapped(UNLOCKED)],
                        took: seq![attempt_op(Ok(UNLOCKED))],
                        gave: Seq::empty(),
                        ..me
                    },
                ),
                ..s
            }
        } else {
            System {
                threads: s.threads.update(
                    tid,
                    Thread {
                        seen: seq![Event::Refused(s.word)],
                        took: seq![attempt_op(Err(s.word))],
                        gave: Seq::empty(),
                        ..me
                    },
                ),
                ..s
            }
        },
        Move::Exchange => match me.pc {
            Pc::Acquiring(phase) => match pending(phase) {
                Action::Cas { current, new } => {
                    let (word, event) = exchange_on(s.word, current, new);
                    System { word, ..told(s, tid, event) }
                },
                _ => s,
            },
            _ => s,
        },
        Move::Park => match me.pc {
            Pc::Acquiring(phase) => match pending(phase) {
                Action::Wait { expected } => if s.word == expected {
                    moved(s, tid, Pc::Asleep)
                } else {
                    told(s, tid, Event::Woken)
                },
                _ => s,
            },
            _ => s,
        },
        Move::Rouse => told(s, tid, Event::Woken),
        Move::GiveUp => moved(s, tid, Pc::Idle),
        Move::Load => moved(s, tid, Pc::Inside(Some(s.counter))),
        Move::Store => match me.pc {
            Pc::Inside(Some(read)) => System {
                counter: read + 1,
                threads: s.threads.update(
                    tid,
                    Thread { pc: Pc::Inside(None), done: me.done + 1, ..me },
                ),
                ..s
            },
            _ => s,
        },
        Move::Decrement => System {
            word: decremented(s.word),
            threads: s.threads.update(
                tid,
                Thread {
                    pc: if wake_needed(s.word) {
                        Pc::Leaving
                    } else {
                        Pc::Idle
                    },
                    gave: seq![Op::Decrement { prev: s.word }],
                    ..me
                },
            ),
            ..s
        },
        Move::Reset => System {
            word: UNLOCKED,
            ..released(s, tid, Pc::Waking, Op::Store { value: UNLOCKED })
        },
        Move::Wake => System { threads: woken_by(s.threads, tid), ..s },
    }
}

/// The operation on the word that `step` makes, if it makes one. A wait is
/// counted when it returns.
pub open spec fn operation(s: System, step: Step) -> Option<Op> {
    let me = s.threads[step.tid];
    match step.what {
        Move::Try { spurious } => Some(
            attempt_op(
                if s.word == UNLOCKED && !spurious {
                    Ok(UNLOCKED)
                } else {
                    Err(s.word)
                },
            ),
        ),
        Move::Exchange => Some(
            op_of(
                pending(stage(me.pc)),
                exchange_on(s.word, pending(stage(me.pc))->current, pending(stage(me.pc))->new).1,
            ),
        ),
        Move::Park => if s.word == pending(stage(me.pc))->expected {
            None
        } else {
            Some(op_of(pending(stage(me.pc)), Event::Woken))
        },
        Move::Rouse => Some(op_of(pending(stage(me.pc)), Event::Woken)),
        Move::Decrement => Some(Op::Decrement { prev: s.word }),
        Move::Reset => Some(Op::Store { value: UNLOCKED }),
        Move::Wake => Some(Op::Wake { count: ALL, timeout: None }),
        _ => None,
    }
}

/// Whether `op` is what the lock's code may do next to the word, in a thread
/// that stands as `thread` does: the one exchange of an attempt or the first
/// of an acquisition for a thread outside, the pending operation of its phase
/// for a thread that acquires, the decrement for an owner, and then the
/// store and the wake that complete a release of a contested lock.
pub open spec fn may_make(thread: Thread, op: Op) -> bool {
    match thread.pc {
        Pc::Idle => match op {
            Op::WeakExchange { current, new, report } => op == attempt_op(report),
            Op::Exchange { current, new, report } => op == op_of(
                pending(Phase::Enter),
                event_of(report),
            ),
            _ => false,
        },
        Pc::Acquiring(phase) => match op {
            Op::Exchange { current, new, report } => pending(phase) is Cas && op == op_of(
                pending(phase),
                event_of(report),
            ),
            Op::Wait { expected, timeout } => pending(phase) is Wait && op == op_of(
                pending(phase),
                Event::Woken,
            ),
            _ => false,
        },
        Pc::Asleep => op == op_of(pending(Phase::Park), Event::Woken),
        Pc::Inside(_) => op is Decrement,
        Pc::Leaving => op == Op::Store { value: UNLOCKED },
        Pc::Waking => op == (Op::Wake { count: ALL, timeout: None }),
    }
}

/// Whether thread `tid` makes `op` in `s` by the move `first`, or by `first`
/// and then `second` where `first` makes no operation on the word.
pub open spec fn makes(s: System, tid: int, first: Move, second: Move, op: Op) -> bool {
    let a = Step { tid, what: first };
    let b = Step { tid, what: second };
    &&& enabled(s, a)
    &&& operation(s, a) == Some(op) || {
        &&& operation(s, a) is None
        &&& enabled(next(s, a), b)
        &&& operation(next(s, a), b) == Some(op)
    }
}

/// The latest operation on the word that `thread` has on record.
pub open spec fn latest(thread: Thread) -> Option<Op> {
    if thread.gave.len() > 0 {
        Some(thread.gave.last())
    } else if thread.took.len() > 0 {
        Some(thread.took.last())
    } else {
        None
    }
}

/// `n` idle threads around a lock that nobody holds and a counter at zero.
pub open spec fn init(n: nat) -> System {
    System {
        word: UNLOCKED,
        counter: 0,
        threads: Seq::new(
            n,
            |i: int|
                Thread {
                    pc: Pc::Idle,
                    seen: Seq::empty(),
                    took: Seq::empty(),
                    gave: Seq::empty(),
                    done: 0,
                },
        ),
    }
}

/// The system that `steps`, taken in order, lead to from `s`.
pub open spec fn run(s: System, steps: Seq<Step>) -> System
    decreases steps.len(),
{
    if steps.len() == 0 {
        s
    } else {
        next(run(s, steps.drop_last()), steps.last())
    }
}

/// Whether each of `steps` can be taken when its turn comes.
pub open spec fn feasible(s: System, steps: Seq<Step>) -> bool
    decreases steps.len(),
{
    steps.len() == 0 || (feasible(s, steps.drop_last()) && enabled(
        run(s, steps.drop_last()),
        steps.last(),
    ))
}

/// The additions to the counter that the threads have made between them.
pub open spec fn total_done(threads: Seq<Thread>) -> nat
    decreases threads.len(),
{
    if threads.len() == 0 {
        0
    } else {
        total_done(threads.drop_last()) + threads.last().done
    }
}

/// Whether no thread owns the lock.
pub open spec fn vacant(s: System) -> bool {
    forall|i: int| 0 <= i < s.threads.len() ==> !owns(#[trigger] s.threads[i].pc)
}

/// Whether some thread sleeps.
pub open spec fn has_sleeper(s: System) -> bool {
    exists|i: int| 0 <= i < s.threads.len() && #[trigger] s.threads[i].pc is Asleep
}

/// Whether some thread has a wake still to issue.
pub open spec fn has_waker(s: System) -> bool {
    exists|i: int| 0 <= i < s.threads.len() && will_wake(#[trigger] s.threads[i].pc)
}

/// At most one thread owns the lock.
pub open spec fn exclusive(s: System) -> bool {
    forall|i: int, j: int|
        0 <= i < s.threads.len() && 0 <= j < s.threads.len() && owns(
            #[trigger] s.threads[i].pc,
        ) && owns(#[trigger] s.threads[j].pc) ==> i == j
}

/// An owner that has read the counter has read what the counter holds now.
pub open spec fn fresh_reads(s: System) -> bool {
    forall|i: int|
        0 <= i < s.threads.len() ==> (#[trigger] s.threads[i].pc matches Pc::Inside(Some(read))
            ==> read == s.counter)
}

/// Whether `thread` stands where what it has seen puts it: an acquiring
/// thread in the phase that its run has led to, a sleeper in the phase that
/// waits, and an owner past a whole acquisition.
pub open spec fn on_course(thread: Thread) -> bool {
    match thread.pc {
        Pc::Acquiring(phase) => {
            &&& is_run(Phase::Enter, thread.seen)
            &&& phase_after(Phase::Enter, thread.seen) == phase
            &&& phase != Phase::Held
            &&& thread.took == course(Phase::Enter, thread.seen)
            &&& thread.gave.len() == 0
        },
        Pc::Asleep => {
            &&& is_run(Phase::Enter, thread.seen)
            &&& phase_after(Phase::Enter, thread.seen) == Phase::Park
            &&& thread.took == course(Phase::Enter, thread.seen)
            &&& thread.gave.len() == 0
        },
        Pc::Inside(_) => has_taken(thread),
        Pc::Leaving => has_taken(thread) && thread.gave == release_ops(CONTESTED).take(1),
        Pc::Waking => has_taken(thread) && thread.gave == release_ops(CONTESTED).take(2),
        Pc::Idle => thread.gave.len() > 0 ==> has_taken(thread) && has_given(thread),
    }
}

/// Whether `thread` has taken the word as `lock` or `try_lock` promise of
/// the guard they give: what it has seen is an acquisition, and what it has
/// done to the word are the operations of that run, or the one exchange of
/// an attempt that does not wait.
pub open spec fn has_taken(thread: Thread) -> bool {
    &&& is_acquisition(thread.seen)
    &&& thread.took == course(Phase::Enter, thread.seen) || (thread.seen
        == seq![Event::Swapped(UNLOCKED)] && thread.took == seq![attempt_op(Ok(UNLOCKED))])
}

/// Whether `thread` has given the word back as the release promises: what it
/// has done to the word are the operations of a release.
pub open spec fn has_given(thread: Thread) -> bool {
    thread.gave == release_ops(LOCKED) || thread.gave == release_ops(CONTESTED)
}

/// Every thread stands where what it has seen puts it.
pub open spec fn all_on_course(s: System) -> bool {
    forall|i: int| 0 <= i < s.threads.len() ==> on_course(#[trigger] s.threads[i])
}

/// No sleeper is forgotten: while a thread sleeps, the word is contested, so
/// that the owner's release will wake, or a wake is already on its way.
pub open spec fn sleepers_covered(s: System) -> bool {
    has_sleeper(s) ==> s.word == CONTESTED || has_waker(s)
}

/// What holds of every system that the threads can bring about.
pub open spec fn inv(s: System) -> bool {
    &&& is_word(s.word)
    &&& exclusive(s)
    &&& s.word == UNLOCKED <==> vacant(s)
    &&& fresh_reads(s)
    &&& all_on_course(s)
    &&& s.counter == total_done(s.threads)
    &&& sleepers_covered(s)
}

/// Threads that agree on their additions, one by one, agree on the total.
pub proof fn lemma_total_same(a: Seq<Thread>, b: Seq<Thread>)
    requires
        a.len() == b.len(),
        forall|i: int| 0 <= i < a.len() ==> a[i].done == b[i].done,
    ensures
        total_done(a) == total_done(b),
    decreases a.len(),
{
    if a.len() > 0 {
        lemma_total_same(a.drop_last(), b.drop_last());
    }
}

/// One more addition by one thread is one more in total.
pub proof fn lemma_total_bump(a: Seq<Thread>, b: Seq<Thread>, tid: int)
    requires
        a.len() == b.len(),
        0 <= tid < a.len(),
        b[tid].done == a[tid].done + 1,
        forall|i: int| 0 <= i < a.len() && i != tid ==> a[i].done == b[i].done,
    ensures
        total_done(b) == total_done(a) + 1,
    decreases a.len(),
{
    if tid == a.len() - 1 {
        lemma_total_same(a.drop_last(), b.drop_last());
    } else {
        lemma_total_bump(a.drop_last(), b.drop_last(), tid);
    }
}

/// Threads that have each made `m` additions have made `m` times their
/// number.
pub proof fn lemma_total_uniform(threads: Seq<Thread>, m: nat)
    requires
        forall|i: int| 0 <= i < threads.len() ==> threads[i].done == m,
    ensures
        total_done(threads) == threads.len() * m,
    decreases threads.len(),
{
    if threads.len() > 0 {
        let rest = threads.drop_last();
        lemma_total_uniform(rest, m);
        assert(threads.len() * m == rest.len() * m + m) by (nonlinear_arith)
            requires
                threads.len() == rest.len() + 1,
        ;
    }
}

/// The invariant holds at the start.
pub proof fn lemma_init(n: nat)
    ensures
        inv(init(n)),
{
    let s = init(n);
    lemma_total_uniform(s.threads, 0);
    assert(s.threads.len() * 0 == 0) by (nonlinear_arith);
}

/// A step leaves the word one of its three values: the thread that
/// decrements it owns the lock, so the word is not unlocked.
proof fn lemma_step_word(s: System, step: Step)
    requires
        inv(s),
        enabled(s, step),
    ensures
        is_word(next(s, step).word),
{
    if step.what is Decrement {
        assert(owns(s.threads[step.tid].pc));
    }
}

/// A step leaves at most one owner: a thread becomes owner only by an
/// exchange that finds the word unlocked, and then there was none.
proof fn lemma_step_exclusive(s: System, step: Step)
    requires
        inv(s),
        enabled(s, step),
    ensures
        exclusive(next(s, step)),
{
    let t = next(s, step);
    let tid = step.tid;
    assert forall|i: int, j: int|
        0 <= i < t.threads.len() && 0 <= j < t.threads.len() && owns(
            #[trigger] t.threads[i].pc,
        ) && owns(#[trigger] t.threads[j].pc) implies i == j by {
        if i != tid {
            assert(owns(s.threads[i].pc));
        }
        if j != tid {
            assert(owns(s.threads[j].pc));
        }
    }
}

/// After a step, the word is unlocked exactly if no thread owns the lock.
proof fn lemma_step_vacant(s: System, step: Step)
    requires
        inv(s),
        enabled(s, step),
    ensures
        next(s, step).word == UNLOCKED <==> vacant(next(s, step)),
{
    let t = next(s, step);
    let tid = step.tid;
    if vacant(t) {
        if !vacant(s) {
            let i = choose|i: int| 0 <= i < s.threads.len() && owns(#[trigger] s.threads[i].pc);
            assert(!owns(t.threads[i].pc));
            assert(i == tid);
        } else {
            assert(!owns(t.threads[tid].pc));
        }
    } else {
        let i = choose|i: int| 0 <= i < t.threads.len() && owns(#[trigger] t.threads[i].pc);
        if i != tid {
            assert(owns(s.threads[i].pc));
        }
    }
}

/// After a step, what an owner has read is still what the counter holds:
/// only the owner writes it.
proof fn lemma_step_reads(s: System, step: Step)
    requires
        inv(s),
        enabled(s, step),
    ensures
        fresh_reads(next(s, step)),
{
    let t = next(s, step);
    let tid = step.tid;
    assert forall|i: int| 0 <= i < t.threads.len() implies (
    #[trigger] t.threads[i].pc matches Pc::Inside(Some(read)) ==> read == t.counter) by {
        if i != tid {
            assert(t.threads[i].pc is Inside ==> s.threads[i].pc == t.threads[i].pc);
            if step.what is Store && t.threads[i].pc is Inside {
                assert(owns(s.threads[i].pc) && owns(s.threads[tid].pc));
            }
        }
    }
}

/// After a step, every sleeper is still covered: whoever makes the word
/// other than contested while a thread sleeps is releasing, and will wake.
proof fn lemma_step_sleepers(s: System, step: Step)
    requires
        inv(s),
        enabled(s, step),
    ensures
        sleepers_covered(next(s, step)),
{
    let t = next(s, step);
    let tid = step.tid;
    if has_sleeper(t) && t.word != CONTESTED {
        let i = choose|i: int| 0 <= i < t.threads.len() && #[trigger] t.threads[i].pc is Asleep;
        assert(!(step.what is Wake));
        if !will_wake(t.threads[tid].pc) {
            if i != tid {
                assert(s.threads[i].pc is Asleep);
            }
            assert(has_sleeper(s));
            let j = choose|j: int| 0 <= j < s.threads.len() && will_wake(#[trigger] s.threads[j].pc);
            assert(will_wake(t.threads[j].pc));
        }
    }
}

/// A thread that is on course stays on course when its pending operation
/// reports.
proof fn lemma_told(thread: Thread, event: Event)
    requires
        is_run(Phase::Enter, thread.seen),
        phase_after(Phase::Enter, thread.seen) == stage(thread.pc),
        thread.took == course(Phase::Enter, thread.seen),
        thread.gave.len() == 0,
        answers(pending(stage(thread.pc)), event),
    ensures
        on_course(informed(thread, event)),
{
    lemma_run_push(Phase::Enter, thread.seen, event);
    lemma_course_push(Phase::Enter, thread.seen, event);
}

/// After a step, every thread stands where what it has seen puts it.
proof fn lemma_step_courses(s: System, step: Step)
    requires
        inv(s),
        enabled(s, step),
    ensures
        all_on_course(next(s, step)),
{
    let t = next(s, step);
    let tid = step.tid;
    assert forall|i: int| 0 <= i < t.threads.len() implies on_course(#[trigger] t.threads[i]) by {
        assert(on_course(s.threads[i]));
        if i == tid {
            match step.what {
                Move::Try { spurious } => {
                    law_one_exchange_acquires();
                },
                Move::Decrement => {
                    assert(owns(s.threads[tid].pc));
                    assert(release_ops(CONTESTED).take(1) =~= seq![Op::Decrement { prev: CONTESTED }]);
                    assert(release_ops(LOCKED) =~= seq![Op::Decrement { prev: LOCKED }]);
                },
                Move::Reset => {
                    assert(release_ops(CONTESTED).take(2) =~= release_ops(CONTESTED).take(1).push(
                        Op::Store { value: UNLOCKED },
                    ));
                },
                Move::Wake => {
                    assert(release_ops(CONTESTED) =~= release_ops(CONTESTED).take(2).push(
                        Op::Wake { count: ALL, timeout: None },
                    ));
                },
                Move::Exchange => {
                    let phase = s.threads[tid].pc->Acquiring_0;
                    let event = exchange_on(s.word, pending(phase)->current, pending(phase)->new).1;
                    lemma_told(s.threads[tid], event);
                },
                Move::Park => {
                    lemma_told(s.threads[tid], Event::Woken);
                },
                Move::Rouse => {
                    lemma_told(s.threads[tid], Event::Woken);
                },
                _ => {},
            }
        } else if step.what is Wake && s.threads[i].pc is Asleep {
            lemma_told(s.threads[i], Event::Woken);
        }
    }
}

/// Every step keeps the invariant.
pub proof fn lemma_step(s: System, step: Step)
    requires
        inv(s),
        enabled(s, step),
    ensures
        inv(next(s, step)),
{
    let t = next(s, step);
    let tid = step.tid;
    assert(t.threads.len() == s.threads.len());
    match step.what {
        Move::Store => {
            lemma_total_bump(s.threads, t.threads, tid);
        },
        _ => {
            lemma_total_same(s.threads, t.threads);
        },
    }
    lemma_step_word(s, step);
    lemma_step_exclusive(s, step);
    lemma_step_vacant(s, step);
    lemma_step_reads(s, step);
    lemma_step_courses(s, step);
    lemma_step_sleepers(s, step);
}

/// Steps never change the number of threads.
pub proof fn lemma_run_keeps_threads(s: System, steps: Seq<Step>)
    requires
        feasible(s, steps),
    ensures
        run(s, steps).threads.len() == s.threads.len(),
    decreases steps.len(),
{
    if steps.len() > 0 {
        lemma_run_keeps_threads(s, steps.drop_last());
    }
}

/// Whatever the threads do from the start, and in whatever order, the
/// invariant holds.
pub proof fn theorem_invariant(n: nat, steps: Seq<Step>)
    requires
        feasible(init(n), steps),
    ensures
        inv(run(init(n), steps)),
        run(init(n), steps).threads.len() == n,
    decreases steps.len(),
{
    lemma_run_keeps_threads(init(n), steps);
    if steps.len() == 0 {
        lemma_init(n);
    } else {
        theorem_invariant(n, steps.drop_last());
        lemma_step(run(init(n), steps.drop_last()), steps.last());
    }
}

/// The word never leaves its three values, whatever the threads do.
pub proof fn law_word_stays_legal(n: nat, steps: Seq<Step>)
    requires
        feasible(init(n), steps),
    ensures
        is_word(run(init(n), steps).word),
{
    theorem_invariant(n, steps);
}

/// Mutual exclusion: in every interleaving, two threads that are inside the
/// lock at the same moment are one thread.
pub proof fn law_mutual_exclusion(n: nat, steps: Seq<Step>, a: int, b: int)
    requires
        feasible(init(n), steps),
        0 <= a < n,
        0 <= b < n,
        run(init(n), steps).threads[a].pc is Inside,
        run(init(n), steps).threads[b].pc is Inside,
    ensures
        a == b,
{
    theorem_invariant(n, steps);
    let s = run(init(n), steps);
    assert(owns(s.threads[a].pc) && owns(s.threads[b].pc));
}

/// No update is lost: in every interleaving, the counter holds exactly the
/// additions that the threads have made.
pub proof fn law_no_lost_update(n: nat, steps: Seq<Step>)
    requires
        feasible(init(n), steps),
    ensures
        run(init(n), steps).counter == total_done(run(init(n), steps).threads),
{
    theorem_invariant(n, steps);
}

/// What an owner has read stays true while it owns the lock: in every
/// interleaving, the value that a thread inside the lock has read is the
/// value that the counter holds.
pub proof fn law_reads_stay_current(n: nat, steps: Seq<Step>, tid: int, read: int)
    requires
        feasible(init(n), steps),
        0 <= tid < n,
        run(init(n), steps).threads[tid].pc == Pc::Inside(Some(read)),
    ensures
        read == run(init(n), steps).counter,
{
    theorem_invariant(n, steps);
}

/// When each of `n` threads has added one `m` times under the lock, the
/// counter holds `n` times `m`, whatever the interleaving was.
pub proof fn law_counter_total(n: nat, m: nat, steps: Seq<Step>)
    requires
        feasible(init(n), steps),
        forall|i: int| 0 <= i < n ==> run(init(n), steps).threads[i].done == m,
    ensures
        run(init(n), steps).counter == n * m,
{
    theorem_invariant(n, steps);
    lemma_total_uniform(run(init(n), steps).threads, m);
}

/// The uncontended path makes no call to wait or wake: a thread that finds
/// the word unlocked, and that no other thread interferes with, is inside
/// after one exchange and idle again after one decrement, with the word
/// unlocked as before.
pub proof fn law_fast_path(s: System, tid: int)
    requires
        0 <= tid < s.threads.len(),
        s.threads[tid].pc is Idle,
        s.word == UNLOCKED,
    ensures
        ({
            let s1 = next(s, Step { tid, what: Move::Begin });
            let s2 = next(s1, Step { tid, what: Move::Exchange });
            let s3 = next(s2, Step { tid, what: Move::Decrement });
            &&& enabled(s, Step { tid, what: Move::Begin })
            &&& enabled(s1, Step { tid, what: Move::Exchange })
            &&& s2.threads[tid].pc == Pc::Inside(None)
            &&& s2.word == LOCKED
            &&& enabled(s2, Step { tid, what: Move::Decrement })
            &&& s3.threads[tid].pc == Pc::Idle
            &&& s3.word == UNLOCKED
        }),
{
}

/// `try_lock` does not block: while another thread owns the lock, the one
/// exchange fails. The thread has then made that one exchange on the word
/// and nothing else, and the word, the counter and where every thread stands
/// are as they were.
pub proof fn law_try_lock_would_block(s: System, owner: int, tid: int, spurious: bool)
    requires
        inv(s),
        0 <= owner < s.threads.len(),
        owns(s.threads[owner].pc),
        enabled(s, Step { tid, what: Move::Try { spurious } }),
    ensures
        ({
            let t = next(s, Step { tid, what: Move::Try { spurious } });
            &&& t.word == s.word
            &&& t.counter == s.counter
            &&& t.threads.len() == s.threads.len()
            &&& forall|i: int|
                0 <= i < s.threads.len() ==> (#[trigger] t.threads[i]).pc == s.threads[i].pc
            &&& t.threads[tid].took == seq![attempt_op(Err(s.word))]
            &&& t.threads[tid].gave.len() == 0
        }),
{
}

/// A release never finds the word unlocked, so its decrement does not wrap.
pub proof fn law_release_finds_owner(s: System, tid: int)
    requires
        inv(s),
        enabled(s, Step { tid, what: Move::Decrement }),
    ensures
        s.word == LOCKED || s.word == CONTESTED,
{
    assert(owns(s.threads[tid].pc));
}

/// No wake-up is missed: in every interleaving, while a thread sleeps, either
/// the word is contested, so that the owner's release will wake, or a
/// releasing thread has its wake still to issue.
pub proof fn law_sleepers_covered(n: nat, steps: Seq<Step>, sleeper: int)
    requires
        feasible(init(n), steps),
        0 <= sleeper < n,
        run(init(n), steps).threads[sleeper].pc is Asleep,
    ensures
        run(init(n), steps).word == CONTESTED || has_waker(run(init(n), steps)),
{
    theorem_invariant(n, steps);
}

/// A release of a contested lock wakes the waiters: the owner's decrement,
/// reset and wake leave the word unlocked and no thread asleep.
pub proof fn law_release_wakes(s: System, owner: int)
    requires
        0 <= owner < s.threads.len(),
        s.threads[owner].pc is Inside,
        s.word == CONTESTED,
    ensures
        ({
            let s1 = next(s, Step { tid: owner, what: Move::Decrement });
            let s2 = next(s1, Step { tid: owner, what: Move::Reset });
            let s3 = next(s2, Step { tid: owner, what: Move::Wake });
            &&& enabled(s1, Step { tid: owner, what: Move::Reset })
            &&& enabled(s2, Step { tid: owner, what: Move::Wake })
            &&& s3.word == UNLOCKED
            &&& s3.threads[owner].pc == Pc::Idle
            &&& !has_sleeper(s3)
            &&& forall|i: int|
                0 <= i < s.threads.len() && s.threads[i].pc is Asleep ==> #[trigger] s3.threads[i].pc
                    == Pc::Acquiring(Phase::Claim)
        }),
{
}

/// The threads of the model take the lock as the lock's code does: in every
/// interleaving, what an owner has seen is an acquisition and what it has
/// done to the word are the operations of that run, or the one exchange of
/// an attempt. This is what `lock` and `try_lock` promise of the guard they
/// give.
pub proof fn law_owner_has_taken(n: nat, steps: Seq<Step>, tid: int)
    requires
        feasible(init(n), steps),
        0 <= tid < n,
        run(init(n), steps).threads[tid].pc is Inside,
    ensures
        has_taken(run(init(n), steps).threads[tid]),
{
    theorem_invariant(n, steps);
    assert(on_course(run(init(n), steps).threads[tid]));
}

/// The threads of the model give the lock back as the lock's code does: in
/// every interleaving, what a thread that has left the lock has done to the
/// word since it took it are the operations of a release.
pub proof fn law_leaver_has_given(n: nat, steps: Seq<Step>, tid: int)
    requires
        feasible(init(n), steps),
        0 <= tid < n,
        run(init(n), steps).threads[tid].pc is Idle,
        run(init(n), steps).threads[tid].gave.len() > 0,
    ensures
        has_taken(run(init(n), steps).threads[tid]),
        has_given(run(init(n), steps).threads[tid]),
{
    theorem_invariant(n, steps);
    assert(on_course(run(init(n), steps).threads[tid]));
}

/// The word of the model is a word as the atomic is one: each operation sees
/// what the operation before it has left. Whatever move a thread makes, the
/// operation it makes on the word, if any, reports what the word holds, and
/// the word afterwards holds what that operation leaves.
pub proof fn law_moves_are_operations(s: System, step: Step)
    requires
        inv(s),
        enabled(s, step),
    ensures
        match operation(s, step) {
            Some(op) => truthful(s.word, op) && next(s, step).word == effect(s.word, op),
            None => next(s, step).word == s.word,
        },
{
    if step.what is Decrement {
        assert(owns(s.threads[step.tid].pc));
    }
}

/// The operation that a move makes on the word is the latest that the
/// thread has on record.
pub proof fn law_operations_are_recorded(s: System, step: Step)
    requires
        inv(s),
        enabled(s, step),
    ensures
        operation(s, step) matches Some(op) ==> latest(next(s, step).threads[step.tid]) == Some(
            op,
        ),
{
    assert(on_course(s.threads[step.tid]));
}

/// The model leaves nothing out: whatever the lock's code may do next to the
/// word in some thread, and whatever an atomic word may report to it, is a
/// move of that thread in the model, or two where the first only starts the
/// acquisition or falls asleep. So what holds of every interleaving of the
/// model holds of every interleaving of such operations on one atomic word.
pub proof fn law_every_operation_is_a_move(s: System, tid: int, op: Op)
    requires
        inv(s),
        0 <= tid < s.threads.len(),
        may_make(s.threads[tid], op),
        truthful(s.word, op),
    ensures
        exists|first: Move, second: Move| #[trigger] makes(s, tid, first, second, op),
{
    assert(on_course(s.threads[tid]));
    match s.threads[tid].pc {
        Pc::Idle => {
            match op {
                Op::WeakExchange { current, new, report } => {
                    assert(makes(s, tid, Move::Try { spurious: report is Err }, Move::Begin, op));
                },
                _ => {
                    assert(makes(s, tid, Move::Begin, Move::Exchange, op));
                },
            }
        },
        Pc::Acquiring(phase) => {
            if pending(phase) is Cas {
                assert(makes(s, tid, Move::Exchange, Move::Begin, op));
            } else {
                assert(makes(s, tid, Move::Park, Move::Rouse, op));
            }
        },
        Pc::Asleep => {
            assert(makes(s, tid, Move::Rouse, Move::Begin, op));
        },
        Pc::Inside(_) => {
            assert(makes(s, tid, Move::Decrement, Move::Begin, op));
        },
        Pc::Leaving => {
            assert(makes(s, tid, Move::Reset, Move::Begin, op));
        },
        Pc::Waking => {
            assert(makes(s, tid, Move::Wake, Move::Begin, op));
        },
    }
}

/// The lock is handed over: when the owner of a contested lock releases it
/// and a sleeper then makes its next exchange, with no other thread in
/// between, the sleeper owns the lock, and the word is contested again.
pub proof fn law_handover(s: System, owner: int, sleeper: int)
    requires
        0 <= owner < s.threads.len(),
        0 <= sleeper < s.threads.len(),
        s.threads[owner].pc is Inside,
        s.threads[sleeper].pc is Asleep,
        s.word == CONTESTED,
    ensures
        ({
            let s1 = next(s, Step { tid: owner, what: Move::Decrement });
            let s2 = next(s1, Step { tid: owner, what: Move::Reset });
            let s3 = next(s2, Step { tid: owner, what: Move::Wake });
            let s4 = next(s3, Step { tid: sleeper, what: Move::Exchange });
            &&& enabled(s3, Step { tid: sleeper, what: Move::Exchange })
            &&& s4.threads[sleeper].pc == Pc::Inside(None)
            &&& s4.threads[owner].pc == Pc::Idle
            &&& s4.word == CONTESTED
        }),
{
}

/// What an exchange reports in the model is what the exchange on the real
/// word may report.
pub proof fn law_exchange_reports(word: u32, current: u32, new: u32)
    ensures
        answers(Action::Cas { current, new }, exchange_on(word, current, new).1),
{
}

} // verus!
