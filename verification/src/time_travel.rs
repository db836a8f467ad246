//! Stepping a guest forwards and backwards. Going back means starting again
//! from a snapshot: a copy of the emulator, taken every `B_STATE_INTERVAL`
//! instructions, of which the most recent `B_STATE_LIMIT` are kept.
//!
//! The run of a guest is what its steps make of the emulator that the time
//! traveller was made for. Every snapshot is a state of the run, and so is
//! the guest itself until a step fails. A guest that has left the run is no
//! longer copied; going back puts it on the run again.

use vstd::prelude::*;
use std::collections::HashMap;
use crate::emulator::{advances, steps, Emulator};
use crate::error::RVError;
use crate::machine::EmulatorView;
use crate::semantics::FloatOp;

verus! {

broadcast use vstd::std_specs::hash::group_hash_axioms;

/// The number of instructions between two snapshots.
pub const B_STATE_INTERVAL: u64 = 10000;

/// The number of snapshots that are kept.
pub const B_STATE_LIMIT: usize = 250;

/// The state of a time traveller.
pub struct TimeTravelView {
    /// The guest as it is now.
    pub current: EmulatorView,
    /// The snapshots, each under the number of instructions that it had
    /// executed, divided by `B_STATE_INTERVAL`.
    pub history: Map<u64, EmulatorView>,
    /// The key of the oldest snapshot.
    pub smallest_b_state: u64,
    /// Whether the guest has left the run: a step has failed, or the counter
    /// of instructions has wrapped around.
    pub derailed: bool,
    /// The emulator that the run starts from.
    pub origin: EmulatorView,
}

/// Whether `state` is a state of the run from `origin`: the one after as
/// many steps as it has counted since.
pub open spec fn on_run<F: Fn(FloatOp) -> u64>(fpu: F, origin: EmulatorView, state: EmulatorView)
    -> bool {
    state.inst_counter >= origin.inst_counter && advances(
        fpu,
        origin,
        state,
        (state.inst_counter - origin.inst_counter) as nat,
    )
}

/// Whether `snapshot` may stand under `key`: it has counted `key` times
/// `B_STATE_INTERVAL` instructions, or it is the first snapshot, of the
/// emulator that the run starts from.
pub open spec fn fits_key(origin: EmulatorView, key: u64, snapshot: EmulatorView) -> bool {
    snapshot.inst_counter == key * B_STATE_INTERVAL || (key == 0 && snapshot == origin)
}

/// Whether every snapshot is the state of the run that its key tells, and
/// the guest is a state of the run unless it has left it.
pub open spec fn on_track<F: Fn(FloatOp) -> u64>(fpu: F, view: TimeTravelView) -> bool {
    &&& forall|key: u64| #[trigger]
        view.history.contains_key(key) ==> on_run(fpu, view.origin, view.history[key])
            && fits_key(view.origin, key, view.history[key])
    &&& !view.derailed ==> on_run(fpu, view.origin, view.current)
}

/// A state with the text of a fault added to its error output.
pub open spec fn reported(state: EmulatorView, fault: RVError) -> EmulatorView {
    EmulatorView { stderr: state.stderr + fault.message_spec(), ..state }
}

impl TimeTravelView {
    /// The guest and every snapshot are well formed.
    pub open spec fn well_formed(self) -> bool {
        &&& self.current.well_formed()
        &&& self.history.dom().finite()
        &&& forall|key: u64| #[trigger]
            self.history.contains_key(key) ==> self.history[key].well_formed()
    }

    /// The state after the guest as it is now has been considered for a
    /// snapshot. A snapshot is taken of a guest on the run where the number
    /// of instructions executed is a multiple of `B_STATE_INTERVAL` and its
    /// quotient is no less than the number of snapshots; where that leaves
    /// more than `B_STATE_LIMIT` snapshots, the oldest goes.
    pub open spec fn recorded(self) -> TimeTravelView {
        let key = self.current.inst_counter / B_STATE_INTERVAL;
        if !self.derailed && key >= self.history.dom().len() && self.current.inst_counter
            % B_STATE_INTERVAL == 0 {
            let added = self.history.insert(key, self.current);
            if added.dom().len() > B_STATE_LIMIT {
                TimeTravelView {
                    history: added.remove(self.smallest_b_state),
                    smallest_b_state: self.smallest_b_state.wrapping_add(1),
                    ..self
                }
            } else {
                TimeTravelView { history: added, ..self }
            }
        } else {
            self
        }
    }

    /// The state with the guest stepped to `next`. A step at the highest
    /// count of instructions takes the guest off the run.
    pub open spec fn stepped_to(self, next: EmulatorView) -> TimeTravelView {
        TimeTravelView {
            current: next,
            derailed: self.derailed || self.current.inst_counter == u64::MAX,
            ..self
        }
    }

    /// The state with the guest started again from the snapshot under `key`.
    pub open spec fn restored(self, key: u64) -> TimeTravelView {
        TimeTravelView { current: self.history[key], derailed: false, ..self }
    }
}

/// Whether one step of a guest that goes on leads from `before` to `after`,
/// the snapshot included.
pub open spec fn moves<F: Fn(FloatOp) -> u64>(
    fpu: F,
    before: TimeTravelView,
    answer: u64,
    after: TimeTravelView,
) -> bool {
    exists|next: EmulatorView|
        #[trigger] steps(fpu, before.current, answer, next) && next.exit_code is None && after
            == before.stepped_to(next).recorded()
}

/// Whether one step leads from `before` to `after` and ends the guest, or
/// finds it ended; no snapshot is taken then.
pub open spec fn exited<F: Fn(FloatOp) -> u64>(
    fpu: F,
    before: TimeTravelView,
    answer: u64,
    after: TimeTravelView,
) -> bool {
    steps(fpu, before.current, answer, after.current) && after.current.exit_code is Some && after
        == before.stepped_to(after.current)
}

/// Whether a step from `state` fails with `fault`, whatever the
/// floating-point unit returns.
pub open spec fn fails_with(state: EmulatorView, fault: RVError) -> bool {
    !state.blocked() && forall|answer: u64| #[trigger]
        state.stepped(answer) == Err::<EmulatorView, RVError>(fault)
}

/// Whether a step from `before` fails with `fault` and leaves `after`: the
/// guest is what the failed step left, with the text of the fault added to
/// its error output, and it has left the run.
pub open spec fn faulted(before: TimeTravelView, fault: RVError, after: TimeTravelView) -> bool {
    fails_with(before.current, fault) && after == (TimeTravelView {
        current: reported(before.current.fault_state(), fault),
        derailed: true,
        ..before
    })
}

/// Whether `count` steps of a guest that goes on lead from `before` to
/// `after`.
pub open spec fn forwards<F: Fn(FloatOp) -> u64>(
    fpu: F,
    before: TimeTravelView,
    after: TimeTravelView,
    count: nat,
) -> bool
    decreases count,
{
    if count == 0 {
        after == before
    } else {
        exists|middle: TimeTravelView, answer: u64|
            forwards(fpu, before, middle, (count - 1) as nat) && #[trigger] moves(
                fpu,
                middle,
                answer,
                after,
            )
    }
}

/// Whether `count` steps lead from `before` to `middle`, and one more to
/// `after` and the end of the guest.
pub open spec fn exit_path<F: Fn(FloatOp) -> u64>(
    fpu: F,
    before: TimeTravelView,
    after: TimeTravelView,
    count: nat,
    middle: TimeTravelView,
    answer: u64,
) -> bool {
    forwards(fpu, before, middle, count) && exited(fpu, middle, answer, after)
}

/// Whether `count` steps lead from `before` to `middle`, and the next fails
/// with `fault` and leaves `after`.
pub open spec fn fault_path<F: Fn(FloatOp) -> u64>(
    fpu: F,
    before: TimeTravelView,
    after: TimeTravelView,
    count: nat,
    middle: TimeTravelView,
    fault: RVError,
) -> bool {
    forwards(fpu, before, middle, count) && faulted(middle, fault, after)
}

/// Whether `count` steps lead from `before` to `after`, where the guest
/// stands in front of a system call that the emulator does not know.
pub open spec fn block_path<F: Fn(FloatOp) -> u64>(
    fpu: F,
    before: TimeTravelView,
    after: TimeTravelView,
    count: nat,
) -> bool {
    forwards(fpu, before, after, count) && after.current.blocked()
}

/// Where going forward from `before` for `limit` steps at most can end, with
/// the exit code or none as its result: at the exit of the guest; after
/// `limit` steps; after a step that failed; or in front of a system call that
/// the emulator does not know.
pub open spec fn arrives<F: Fn(FloatOp) -> u64>(
    fpu: F,
    before: TimeTravelView,
    after: TimeTravelView,
    limit: nat,
    result: Option<u64>,
) -> bool {
    match result {
        Some(code) => after.current.exit_code == Some(code) && exists|
            count: nat,
            middle: TimeTravelView,
            answer: u64,
        |
            count < limit && #[trigger] exit_path(fpu, before, after, count, middle, answer),
        None => {
            ||| forwards(fpu, before, after, limit)
            ||| exists|count: nat, middle: TimeTravelView, fault: RVError|
                count < limit && #[trigger] fault_path(fpu, before, after, count, middle, fault)
            ||| exists|count: nat| count < limit && #[trigger] block_path(fpu, before, after, count)
        },
    }
}

/// The snapshots as contracts see them.
pub open spec fn history_view(history: Map<u64, Emulator>) -> Map<u64, EmulatorView> {
    Map::new(|key: u64| history.contains_key(key), |key: u64| history[key]@)
}

/// What one step of the time traveller came to.
enum Outcome {
    Moved,
    Exited(u64),
    Faulted,
    Blocked,
}

pub struct TimeTravel<F: Fn(FloatOp) -> u64> {
    current: Emulator,
    history: HashMap<u64, Emulator>,
    smallest_b_state: u64,
    derailed: bool,
    fpu: F,
    origin: Ghost<EmulatorView>,
}

impl<F: Fn(FloatOp) -> u64> View for TimeTravel<F> {
    type V = TimeTravelView;

    closed spec fn view(&self) -> TimeTravelView {
        TimeTravelView {
            current: self.current@,
            history: history_view(self.history@),
            smallest_b_state: self.smallest_b_state,
            derailed: self.derailed,
            origin: self.origin@,
        }
    }
}

impl<F: Fn(FloatOp) -> u64> TimeTravel<F> {
    /// The floating-point unit that the guest runs with.
    pub closed spec fn unit(&self) -> F {
        self.fpu
    }

    /// The guest and every snapshot are well formed, the floating-point unit
    /// takes every request, and guest and snapshots are on track.
    pub open spec fn well_formed(&self) -> bool {
        &&& self@.well_formed()
        &&& forall|op: FloatOp| call_requires(self.unit(), (op,))
        &&& on_track(self.unit(), self@)
    }

    /// Returns a time traveller for a guest that runs with the floating-point
    /// unit `fpu`, with the guest as it is as the first snapshot and the
    /// start of the run.
    pub fn new(emulator: Emulator, fpu: F) -> (traveller: TimeTravel<F>)
        requires
            emulator.well_formed(),
            forall|op: FloatOp| call_requires(fpu, (op,)),
        ensures
            traveller.well_formed(),
            traveller.unit() == fpu,
            traveller@ == (TimeTravelView {
                current: emulator@,
                history: Map::empty().insert(0u64, emulator@),
                smallest_b_state: 0,
                derailed: false,
                origin: emulator@,
            }),
    {
        let mut history: HashMap<u64, Emulator> = HashMap::new();
        history.insert(0, emulator.clone());
        let ghost origin = emulator@;
        let traveller = TimeTravel {
            current: emulator,
            history,
            smallest_b_state: 0,
            derailed: false,
            fpu,
            origin: Ghost(origin),
        };
        assert(traveller@.history =~= Map::empty().insert(0u64, origin));
        assert(traveller@.history.dom() =~= Set::<u64>::empty().insert(0u64));
        assert(advances(fpu, origin, origin, 0));
        traveller
    }

    /// Returns the guest as it is now.
    pub fn current(&self) -> (emulator: &Emulator)
        ensures
            emulator@ == self@.current,
    {
        &self.current
    }

    /// Takes a snapshot of the guest, where one is due.
    fn record(&mut self)
        requires
            old(self).well_formed(),
        ensures
            final(self).well_formed(),
            final(self).unit() == old(self).unit(),
            final(self)@ == old(self)@.recorded(),
    {
        let counter = self.current.inst_counter();
        let i = counter / B_STATE_INTERVAL;
        let r = counter % B_STATE_INTERVAL;
        assert(self@.history.dom() =~= self.history@.dom());
        // only add if greater than current latest timestamp
        if !self.derailed && i >= self.history.len() as u64 && r == 0 {
            self.history.insert(i, self.current.clone());
            assert(self@.history =~= old(self)@.history.insert(i, old(self)@.current));
            assert(self@.history.dom() =~= self.history@.dom());
            if self.history.len() > B_STATE_LIMIT {
                let ghost added = self@.history;
                self.history.remove(&self.smallest_b_state);
                assert(self@.history =~= added.remove(old(self)@.smallest_b_state));
                self.smallest_b_state = self.smallest_b_state.wrapping_add(1);
            }
            assert(self@.history.dom() =~= self.history@.dom());
        }
    }

    /// Starts the guest again from the snapshot under `key`, where it is
    /// kept, and says whether it is.
    fn restore(&mut self, key: u64) -> (found: bool)
        requires
            old(self).well_formed(),
        ensures
            final(self).well_formed(),
            final(self).unit() == old(self).unit(),
            found == old(self)@.history.contains_key(key),
            final(self)@ == if found {
                old(self)@.restored(key)
            } else {
                old(self)@
            },
    {
        match self.history.get(&key) {
            Some(snapshot) => {
                assert(old(self)@.history.contains_key(key));
                assert(snapshot@ == old(self)@.history[key]);
                let copy = snapshot.clone();
                self.current = copy;
                self.derailed = false;
                assert(self@.history =~= old(self)@.history);
                true
            },
            None => false,
        }
    }

    /// Steps the guest once, and takes a snapshot where one is due.
    fn advance(&mut self) -> (outcome: Outcome)
        requires
            old(self).well_formed(),
        ensures
            final(self).well_formed(),
            final(self).unit() == old(self).unit(),
            match outcome {
                Outcome::Moved => exists|answer: u64| #[trigger]
                    moves(old(self).unit(), old(self)@, answer, final(self)@),
                Outcome::Exited(code) => final(self)@.current.exit_code == Some(code) && exists|
                    answer: u64,
                | #[trigger] exited(old(self).unit(), old(self)@, answer, final(self)@),
                Outcome::Faulted => exists|fault: RVError| #[trigger]
                    faulted(old(self)@, fault, final(self)@),
                Outcome::Blocked => final(self)@ == old(self)@ && old(self)@.current.blocked(),
            },
    {
        if self.current.unknown_syscall().is_some() {
            return Outcome::Blocked;
        }
        let ghost before = self@;
        let wraps = self.current.inst_counter() == u64::MAX;
        match self.current.fetch_and_execute(&self.fpu) {
            Ok(code) => {
                if wraps {
                    self.derailed = true;
                }
                let ghost next = self@.current;
                proof {
                    let answer = choose|answer: u64| #[trigger]
                        steps(self.fpu, before.current, answer, next);
                    assert(steps(self.fpu, before.current, answer, next));
                    assert(self@ == before.stepped_to(next));
                    lemma_step_stays_on_run(self.fpu, before, answer, next);
                }
                match code {
                    Some(exit_code) => {
                        proof {
                            let answer = choose|answer: u64| #[trigger]
                                steps(self.fpu, before.current, answer, next);
                            assert(exited(self.fpu, before, answer, self@));
                        }
                        Outcome::Exited(exit_code)
                    },
                    None => {
                        self.record();
                        proof {
                            let answer = choose|answer: u64| #[trigger]
                                steps(self.fpu, before.current, answer, next);
                            assert(moves(self.fpu, before, answer, self@));
                        }
                        Outcome::Moved
                    },
                }
            },
            Err(e) => {
                self.current.report(e);
                self.derailed = true;
                proof {
                    assert(fails_with(before.current, e));
                    assert(faulted(before, e, self@));
                }
                Outcome::Faulted
            },
        }
    }

    /// Steps forward until `amount` steps are done, the guest exits, a step
    /// fails, or the guest stands in front of a system call that the
    /// emulator does not know.
    fn forward(&mut self, amount: u64) -> (r: Option<u64>)
        requires
            old(self).well_formed(),
        ensures
            final(self).well_formed(),
            final(self).unit() == old(self).unit(),
            arrives(old(self).unit(), old(self)@, final(self)@, amount as nat, r),
    {
        let mut done: u64 = 0;
        while done < amount
            invariant
                done <= amount,
                self.well_formed(),
                self.unit() == old(self).unit(),
                forwards(self.unit(), old(self)@, self@, done as nat),
            decreases amount - done,
        {
            let ghost before = self@;
            match self.advance() {
                Outcome::Moved => {
                    proof {
                        assert(forwards(self.unit(), old(self)@, before, done as nat));
                        assert(forwards(self.unit(), old(self)@, self@, (done + 1) as nat));
                    }
                },
                Outcome::Exited(exit_code) => {
                    proof {
                        let answer = choose|answer: u64| #[trigger]
                            exited(self.unit(), before, answer, self@);
                        assert(exit_path(
                            self.unit(),
                            old(self)@,
                            self@,
                            done as nat,
                            before,
                            answer,
                        ));
                    }
                    return Some(exit_code);
                },
                Outcome::Faulted => {
                    proof {
                        let fault = choose|fault: RVError| #[trigger]
                            faulted(before, fault, self@);
                        assert(fault_path(
                            self.unit(),
                            old(self)@,
                            self@,
                            done as nat,
                            before,
                            fault,
                        ));
                    }
                    return None;
                },
                Outcome::Blocked => {
                    proof {
                        assert(block_path(self.unit(), old(self)@, self@, done as nat));
                    }
                    return None;
                },
            }
            done += 1;
        }
        None
    }

    /// Steps `amount` instructions forward, or back where `amount` is
    /// negative, and returns the exit code if the guest has exited on the
    /// way.
    ///
    /// Going forward ends early where the guest exits, where a step fails,
    /// and in front of a system call that the emulator does not know; the
    /// text of a fault goes to the guest's error output. Going back by more
    /// instructions than the guest has executed changes nothing. Else the
    /// guest starts again from the snapshot before the instruction that is
    /// aimed at and steps forward to it; where that snapshot is gone, the
    /// guest starts again from the oldest snapshot and stays there.
    pub fn step(&mut self, amount: i32) -> (r: Option<u64>)
        requires
            old(self).well_formed(),
        ensures
            final(self).well_formed(),
            final(self).unit() == old(self).unit(),
            amount >= 0 ==> arrives(old(self).unit(), old(self)@, final(self)@, amount as nat, r),
            amount < 0 && old(self)@.current.inst_counter + amount < 0 ==> r is None && final(self)@
                == old(self)@,
            amount < 0 && old(self)@.current.inst_counter + amount >= 0 ==> {
                let target = (old(self)@.current.inst_counter + amount) as u64;
                let key = target / B_STATE_INTERVAL;
                if old(self)@.history.contains_key(key) {
                    arrives(
                        old(self).unit(),
                        old(self)@.restored(key),
                        final(self)@,
                        (target % B_STATE_INTERVAL) as nat,
                        r,
                    )
                } else {
                    r is None && final(self)@ == if old(self)@.history.contains_key(
                        old(self)@.smallest_b_state,
                    ) {
                        old(self)@.restored(old(self)@.smallest_b_state)
                    } else {
                        old(self)@
                    }
                }
            },
    {
        if amount >= 0 {
            self.forward(amount as u64)
        } else {
            // find closest one
            let counter = self.current.inst_counter();
            let back = (-(amount as i64)) as u64;
            if back > counter {
                return None;
            }
            let new_inst_count = counter - back;
            let i = new_inst_count / B_STATE_INTERVAL;
            let r = new_inst_count % B_STATE_INTERVAL;
            if self.restore(i) {
                self.forward(r)
            } else {
                let oldest = self.smallest_b_state;
                self.restore(oldest);
                None
            }
        }
    }
}

/// A step of a guest on the run leaves it on the run, unless the counter of
/// instructions wraps around.
pub proof fn lemma_step_stays_on_run<F: Fn(FloatOp) -> u64>(
    fpu: F,
    before: TimeTravelView,
    answer: u64,
    next: EmulatorView,
)
    requires
        before.well_formed(),
        on_track(fpu, before),
        steps(fpu, before.current, answer, next),
    ensures
        on_track(fpu, before.stepped_to(next)),
        on_track(fpu, before.stepped_to(next).recorded()),
{
    let after = before.stepped_to(next);
    if !after.derailed {
        let count = (before.current.inst_counter - before.origin.inst_counter) as nat;
        if before.current.exit_code is None {
            crate::machine_facts::law_step_counts_one(before.current, answer);
            assert(advances(fpu, before.origin, before.current, count));
            assert(advances(fpu, before.origin, next, count + 1));
        }
        let key = (next.inst_counter / B_STATE_INTERVAL) as u64;
        if next.inst_counter % B_STATE_INTERVAL == 0 {
            assert(next.inst_counter == key * B_STATE_INTERVAL);
        }
    }
}

/// Going back to a state of the run and forward again without exit, fault or
/// unknown system call leads to the state of the run at the count aimed at:
/// where the run starts at count 0, a step back undoes a step forward.
pub proof fn law_step_back_returns_to_the_run<F: Fn(FloatOp) -> u64>(
    fpu: F,
    before: TimeTravelView,
    after: TimeTravelView,
    target: u64,
)
    requires
        before.well_formed(),
        on_track(fpu, before),
        on_track(fpu, after),
        before.origin.inst_counter == 0,
        before.history.contains_key((target / B_STATE_INTERVAL) as u64),
        forwards(
            fpu,
            before.restored((target / B_STATE_INTERVAL) as u64),
            after,
            (target % B_STATE_INTERVAL) as nat,
        ),
    ensures
        after.current.inst_counter == target,
        !after.derailed,
        after.origin == before.origin,
        advances(fpu, before.origin, after.current, target as nat),
{
    let key = (target / B_STATE_INTERVAL) as u64;
    let start = before.restored(key);
    assert(start.current.inst_counter == key * B_STATE_INTERVAL);
    lemma_forwards_counts(fpu, start, after, (target % B_STATE_INTERVAL) as nat);
}

/// Steps of a guest that goes on count one instruction each, and leave the
/// guest on the run while the counter does not wrap around.
pub proof fn lemma_forwards_counts<F: Fn(FloatOp) -> u64>(
    fpu: F,
    before: TimeTravelView,
    after: TimeTravelView,
    count: nat,
)
    requires
        before.current.x.len() == 32,
        before.current.inst_counter + count <= u64::MAX,
        forwards(fpu, before, after, count),
    ensures
        after.current.inst_counter == before.current.inst_counter + count,
        after.current.x.len() == 32,
        after.derailed == before.derailed,
        after.origin == before.origin,
    decreases count,
{
    if count > 0 {
        let (middle, answer) = choose|middle: TimeTravelView, answer: u64|
            forwards(fpu, before, middle, (count - 1) as nat) && #[trigger] moves(
                fpu,
                middle,
                answer,
                after,
            );
        lemma_forwards_counts(fpu, before, middle, (count - 1) as nat);
        lemma_move_counts(fpu, middle, answer, after);
    }
}

/// A step of a guest that goes on counts one instruction, and leaves the
/// guest on the run unless the counter wraps around.
pub proof fn lemma_move_counts<F: Fn(FloatOp) -> u64>(
    fpu: F,
    before: TimeTravelView,
    answer: u64,
    after: TimeTravelView,
)
    requires
        before.current.x.len() == 32,
        before.current.inst_counter < u64::MAX,
        moves(fpu, before, answer, after),
    ensures
        after.current.inst_counter == before.current.inst_counter + 1,
        after.current.x.len() == 32,
        after.derailed == before.derailed,
        after.origin == before.origin,
{
    let next = choose|next: EmulatorView|
        #[trigger] steps(fpu, before.current, answer, next) && next.exit_code is None && after
            == before.stepped_to(next).recorded();
    crate::machine_facts::lemma_step_keeps_registers(before.current, answer);
    assert(before.current.stepped(answer) == Ok::<EmulatorView, RVError>(next));
    assert(before.current.exit_code is None) by {
        if before.current.exit_code is Some {
            assert(before.current.stepped(answer) == Ok::<EmulatorView, RVError>(before.current));
        }
    }
}

/// Whether a floating-point unit returns one value for each request.
pub open spec fn single_valued<F: Fn(FloatOp) -> u64>(fpu: F) -> bool {
    forall|op: FloatOp, first: u64, second: u64|
        #[trigger] call_ensures(fpu, (op,), first) && #[trigger] call_ensures(fpu, (op,), second)
            ==> first == second
}

/// With a floating-point unit that returns one value for each request, a
/// number of steps leads from a state to one state only.
pub proof fn lemma_run_is_single<F: Fn(FloatOp) -> u64>(
    fpu: F,
    origin: EmulatorView,
    first: EmulatorView,
    second: EmulatorView,
    count: nat,
)
    requires
        single_valued(fpu),
        advances(fpu, origin, first, count),
        advances(fpu, origin, second, count),
    ensures
        first == second,
    decreases count,
{
    if count > 0 {
        let (middle, answer) = choose|middle: EmulatorView, answer: u64|
            advances(fpu, origin, middle, (count - 1) as nat) && #[trigger] steps(
                fpu,
                middle,
                answer,
                first,
            );
        let (other, reply) = choose|other: EmulatorView, reply: u64|
            advances(fpu, origin, other, (count - 1) as nat) && #[trigger] steps(
                fpu,
                other,
                reply,
                second,
            );
        lemma_run_is_single(fpu, origin, middle, other, (count - 1) as nat);
        if middle.step_request() is None {
            crate::machine_facts::lemma_step_ignores_unasked_answer(middle, answer, reply);
        }
    }
}

/// A step back undoes a step forward: where the guest has gone `count` steps
/// forward from a state of a run that starts at count 0, going back by
/// `count` leads to that state again, if the floating-point unit returns one
/// value for each request and the snapshot before that state is still kept.
pub proof fn law_step_back_undoes_step_forward<F: Fn(FloatOp) -> u64>(
    fpu: F,
    start: TimeTravelView,
    later: TimeTravelView,
    after: TimeTravelView,
    count: nat,
)
    requires
        single_valued(fpu),
        start.well_formed(),
        later.well_formed(),
        on_track(fpu, start),
        on_track(fpu, later),
        on_track(fpu, after),
        !start.derailed,
        start.origin.inst_counter == 0,
        start.current.inst_counter + count <= u64::MAX,
        forwards(fpu, start, later, count),
        later.history.contains_key((start.current.inst_counter / B_STATE_INTERVAL) as u64),
        forwards(
            fpu,
            later.restored((start.current.inst_counter / B_STATE_INTERVAL) as u64),
            after,
            (start.current.inst_counter % B_STATE_INTERVAL) as nat,
        ),
    ensures
        later.current.inst_counter == start.current.inst_counter + count,
        after.current == start.current,
{
    lemma_forwards_counts(fpu, start, later, count);
    law_step_back_returns_to_the_run(fpu, later, after, start.current.inst_counter);
    lemma_run_is_single(
        fpu,
        start.origin,
        after.current,
        start.current,
        start.current.inst_counter as nat,
    );
}

} // verus!
