//! A philosopher: one actor at the table and its life cycle.
//!
//! A philosopher thinks, asks for the stick with the smaller index, asks for
//! the other one, eats while holding both, puts both down, and starts over
//! until its rounds are done. Every transition is a call; a call out of turn is
//! refused and changes nothing.

use crate::policy::{acquisition_order, first_index, second_index};
use crate::stick::{Attempt, ProtocolViolation, Stick, StickView};
use vstd::prelude::*;

verus! {

/// The number of rounds a philosopher eats unless told otherwise.
pub const DEFAULT_ROUNDS: u32 = 3;

/// Where a philosopher is in its life cycle.
#[derive(Clone, Copy, PartialEq, Eq, Debug, Structural)]
pub enum Phase {
    /// Holding nothing, busy with itself.
    Thinking,
    /// Hungry, holding nothing, asking for its first stick.
    AcquiringFirst,
    /// Holding its first stick, asking for its second.
    AcquiringSecond,
    /// Eating, holding both sticks.
    Acting,
    /// Done eating, still holding both sticks, about to put them down.
    Releasing,
    /// All rounds eaten, holding nothing.
    Done,
}

/// What one step of a philosopher came to.
#[derive(Clone, Copy, PartialEq, Eq, Debug, Structural)]
pub enum Step {
    /// The philosopher moved on and is now in the given phase.
    Entered(Phase),
    /// The stick it asks for is in another hand: it has to wait.
    Waiting,
    /// It has eaten all its rounds and takes no more steps.
    Finished,
}

/// What a philosopher is, as a mathematical value.
pub struct PhilosoferView {
    pub name: Seq<char>,
    /// Index of the stick on its left, which is also its own seat.
    pub left: int,
    /// Index of the stick on its right.
    pub right: int,
    pub phase: Phase,
    /// Rounds eaten so far.
    pub completed: nat,
    /// Rounds to eat in all.
    pub rounds: nat,
}

/// The outcome of one step: the philosopher and its two sticks afterwards, and
/// what the step came to.
pub struct Transition {
    pub actor: PhilosoferView,
    pub first: StickView,
    pub second: StickView,
    pub result: Result<Step, ProtocolViolation>,
}

/// The outcome of an attempt at a whole round: the philosopher and its two
/// sticks afterwards, and whether the round was eaten.
pub struct Meal {
    pub actor: PhilosoferView,
    pub first: StickView,
    pub second: StickView,
    pub result: Result<bool, ProtocolViolation>,
}

impl Phase {
    /// How many steps of a round lie behind a philosopher in this phase.
    pub open spec fn ordinal(self) -> nat {
        match self {
            Phase::Thinking => 0,
            Phase::AcquiringFirst => 1,
            Phase::AcquiringSecond => 2,
            Phase::Acting => 3,
            Phase::Releasing => 4,
            Phase::Done => 0,
        }
    }
}

impl PhilosoferView {
    /// A philosopher that has just sat down.
    pub open spec fn seated(name: Seq<char>, left: int, right: int, rounds: nat) -> PhilosoferView {
        PhilosoferView {
            name,
            left,
            right,
            phase: if rounds == 0 {
                Phase::Done
            } else {
                Phase::Thinking
            },
            completed: 0,
            rounds,
        }
    }

    /// Its seat, by which the sticks know their holder.
    pub open spec fn id(self) -> int {
        self.left
    }

    /// The stick it picks up first: the one with the smaller index.
    pub open spec fn first(self) -> int {
        first_index(self.left, self.right)
    }

    /// The stick it picks up second: the one with the larger index.
    pub open spec fn second(self) -> int {
        second_index(self.left, self.right)
    }

    /// It never eats more rounds than asked, and is done exactly when it has
    /// eaten them all.
    pub open spec fn inv(self) -> bool {
        &&& self.completed <= self.rounds
        &&& (self.phase == Phase::Done <==> self.completed == self.rounds)
    }

    /// Whether it holds the stick with the given index, going by its phase.
    pub open spec fn holds(self, stick: int) -> bool {
        match self.phase {
            Phase::AcquiringSecond => stick == self.first(),
            Phase::Acting | Phase::Releasing => stick == self.left || stick == self.right,
            _ => false,
        }
    }

    /// How often it has picked up the stick with the given index.
    pub open spec fn pickups(self, stick: int) -> nat {
        if self.holds(stick) {
            self.completed + 1
        } else {
            self.completed
        }
    }

    /// The same philosopher in another phase.
    pub open spec fn in_phase(self, phase: Phase) -> PhilosoferView {
        PhilosoferView { phase, ..self }
    }

    /// The philosopher after it has put its sticks down: one more round eaten,
    /// and thinking again or done.
    pub open spec fn after_round(self) -> PhilosoferView {
        PhilosoferView {
            phase: if self.completed + 1 == self.rounds {
                Phase::Done
            } else {
                Phase::Thinking
            },
            completed: self.completed + 1,
            ..self
        }
    }

    /// The steps it still has to take until it is done. A round has five:
    /// think, take, take, eat, put down.
    pub open spec fn steps_left(self) -> nat {
        if self.phase == Phase::Done || self.completed >= self.rounds {
            0
        } else {
            ((self.rounds - self.completed) * 5 - self.phase.ordinal()) as nat
        }
    }

    /// The answer to leaving phase `from` on its own account.
    pub open spec fn pass_answer(self, from: Phase) -> Result<(), ProtocolViolation> {
        if self.phase == from {
            Ok(())
        } else {
            Err(ProtocolViolation::OutOfSequence)
        }
    }

    /// The philosopher after it was asked to go from phase `from` to `to`.
    pub open spec fn passed(self, from: Phase, to: Phase) -> PhilosoferView {
        if self.phase == from {
            self.in_phase(to)
        } else {
            self
        }
    }

    /// The answer to asking for `stick` as the one with index `wanted`, which
    /// is allowed in phase `at` only.
    pub open spec fn take_answer(self, at: Phase, wanted: int, stick: StickView) -> Result<
        Attempt,
        ProtocolViolation,
    > {
        if self.phase != at {
            Err(ProtocolViolation::OutOfSequence)
        } else if stick.id != wanted {
            Err(ProtocolViolation::WrongStick)
        } else {
            stick.answer(self.id())
        }
    }

    /// The answer to putting both sticks down.
    pub open spec fn put_down_answer(self, first: StickView, second: StickView) -> Result<
        (),
        ProtocolViolation,
    > {
        if self.phase != Phase::Releasing {
            Err(ProtocolViolation::OutOfSequence)
        } else if first.id != self.first() || second.id != self.second() {
            Err(ProtocolViolation::WrongStick)
        } else if !first.held_by(self.id()) || !second.held_by(self.id()) {
            Err(ProtocolViolation::NotHolder)
        } else {
            Ok(())
        }
    }

    /// One step of the life cycle, given the two sticks in the order in which
    /// the philosopher picks them up.
    pub open spec fn step(self, first: StickView, second: StickView) -> Transition {
        let stay = Transition { actor: self, first, second, result: Ok(Step::Waiting) };
        match self.phase {
            Phase::Thinking => Transition {
                actor: self.in_phase(Phase::AcquiringFirst),
                result: Ok(Step::Entered(Phase::AcquiringFirst)),
                ..stay
            },
            Phase::AcquiringFirst => match self.take_answer(
                Phase::AcquiringFirst,
                self.first(),
                first,
            ) {
                Ok(Attempt::Granted) => Transition {
                    actor: self.in_phase(Phase::AcquiringSecond),
                    first: first.granted(self.id()),
                    result: Ok(Step::Entered(Phase::AcquiringSecond)),
                    ..stay
                },
                Ok(Attempt::Busy) => stay,
                Err(violation) => Transition { result: Err(violation), ..stay },
            },
            Phase::AcquiringSecond => match self.take_answer(
                Phase::AcquiringSecond,
                self.second(),
                second,
            ) {
                Ok(Attempt::Granted) => Transition {
                    actor: self.in_phase(Phase::Acting),
                    second: second.granted(self.id()),
                    result: Ok(Step::Entered(Phase::Acting)),
                    ..stay
                },
                Ok(Attempt::Busy) => stay,
                Err(violation) => Transition { result: Err(violation), ..stay },
            },
            Phase::Acting => Transition {
                actor: self.in_phase(Phase::Releasing),
                result: Ok(Step::Entered(Phase::Releasing)),
                ..stay
            },
            Phase::Releasing => match self.put_down_answer(first, second) {
                Ok(()) => Transition {
                    actor: self.after_round(),
                    first: first.yielded(),
                    second: second.yielded(),
                    result: Ok(Step::Entered(self.after_round().phase)),
                },
                Err(violation) => Transition { result: Err(violation), ..stay },
            },
            Phase::Done => Transition { result: Ok(Step::Finished), ..stay },
        }
    }

    /// Step after step until the round is closed (`true`), the philosopher
    /// has to wait or is finished (`false`), or a step is refused.
    pub open spec fn try_meal(self, first: StickView, second: StickView) -> Meal
        decreases 5 - self.phase.ordinal(),
    {
        let t = self.step(first, second);
        match t.result {
            Ok(Step::Entered(_)) => if self.phase == Phase::Releasing {
                Meal { actor: t.actor, first: t.first, second: t.second, result: Ok(true) }
            } else {
                t.actor.try_meal(t.first, t.second)
            },
            Ok(_) => Meal { actor: t.actor, first: t.first, second: t.second, result: Ok(false) },
            Err(violation) => Meal {
                actor: t.actor,
                first: t.first,
                second: t.second,
                result: Err(violation),
            },
        }
    }
}

/// One philosopher at the table.
#[derive(Debug)]
pub struct Philosofer {
    name: String,
    left: usize,
    right: usize,
    phase: Phase,
    completed: u32,
    rounds: u32,
}

impl View for Philosofer {
    type V = PhilosoferView;

    closed spec fn view(&self) -> PhilosoferView {
        PhilosoferView {
            name: self.name@,
            left: self.left as int,
            right: self.right as int,
            phase: self.phase,
            completed: self.completed as nat,
            rounds: self.rounds as nat,
        }
    }
}

impl Philosofer {
    /// The round count is consistent with the phase.
    pub open spec fn wf(&self) -> bool {
        &&& self@.inv()
        &&& self@.rounds <= u32::MAX
    }

    /// A philosopher between the sticks `left` and `right` that will eat the
    /// default number of rounds.
    pub fn new(name: String, left: usize, right: usize) -> (philosofer: Philosofer)
        ensures
            philosofer@ == PhilosoferView::seated(
                name@,
                left as int,
                right as int,
                DEFAULT_ROUNDS as nat,
            ),
            philosofer.wf(),
    {
        Philosofer::with_rounds(name, left, right, DEFAULT_ROUNDS)
    }

    /// A philosopher between the sticks `left` and `right` that will eat
    /// `rounds` rounds. With no round to eat it is done from the start.
    pub fn with_rounds(name: String, left: usize, right: usize, rounds: u32) -> (philosofer:
        Philosofer)
        ensures
            philosofer@ == PhilosoferView::seated(name@, left as int, right as int, rounds as nat),
            philosofer.wf(),
    {
        let phase = if rounds == 0 {
            Phase::Done
        } else {
            Phase::Thinking
        };
        Philosofer { name, left, right, phase, completed: 0, rounds }
    }

    pub fn get_name(&self) -> (name: &String)
        ensures
            name@ == self@.name,
    {
        &self.name
    }

    /// The seat: the index by which the sticks know their holder.
    pub fn id(&self) -> (id: usize)
        ensures
            id == self@.id(),
    {
        self.left
    }

    pub fn left(&self) -> (left: usize)
        ensures
            left == self@.left,
    {
        self.left
    }

    pub fn right(&self) -> (right: usize)
        ensures
            right == self@.right,
    {
        self.right
    }

    /// Index of the stick that is picked up first.
    pub fn first(&self) -> (first: usize)
        ensures
            first == self@.first(),
    {
        acquisition_order(self.left, self.right).0
    }

    /// Index of the stick that is picked up second.
    pub fn second(&self) -> (second: usize)
        ensures
            second == self@.second(),
    {
        acquisition_order(self.left, self.right).1
    }

    pub fn phase(&self) -> (phase: Phase)
        ensures
            phase == self@.phase,
    {
        self.phase
    }

    /// Rounds eaten so far.
    pub fn completed(&self) -> (completed: u32)
        ensures
            completed == self@.completed,
    {
        self.completed
    }

    /// Rounds to eat in all.
    pub fn rounds(&self) -> (rounds: u32)
        ensures
            rounds == self@.rounds,
    {
        self.rounds
    }

    pub fn is_done(&self) -> (done: bool)
        ensures
            done == (self@.phase == Phase::Done),
    {
        self.phase == Phase::Done
    }

    /// Whether it holds the stick with the given index, going by its phase.
    pub fn holds(&self, stick: usize) -> (holds: bool)
        ensures
            holds == self@.holds(stick as int),
    {
        match self.phase {
            Phase::AcquiringSecond => stick == self.first(),
            Phase::Acting | Phase::Releasing => stick == self.left || stick == self.right,
            _ => false,
        }
    }

    /// The thinking is over: the philosopher gets hungry.
    pub fn think(&mut self) -> (result: Result<(), ProtocolViolation>)
        requires
            old(self).wf(),
        ensures
            final(self).wf(),
            result == old(self)@.pass_answer(Phase::Thinking),
            final(self)@ == old(self)@.passed(Phase::Thinking, Phase::AcquiringFirst),
    {
        if self.phase == Phase::Thinking {
            self.phase = Phase::AcquiringFirst;
            Ok(())
        } else {
            Err(ProtocolViolation::OutOfSequence)
        }
    }

    /// The meal is over: the philosopher gets ready to put its sticks down.
    pub fn eat(&mut self) -> (result: Result<(), ProtocolViolation>)
        requires
            old(self).wf(),
        ensures
            final(self).wf(),
            result == old(self)@.pass_answer(Phase::Acting),
            final(self)@ == old(self)@.passed(Phase::Acting, Phase::Releasing),
    {
        if self.phase == Phase::Acting {
            self.phase = Phase::Releasing;
            Ok(())
        } else {
            Err(ProtocolViolation::OutOfSequence)
        }
    }

    /// Asks for the first stick. Granted, the philosopher goes on to ask for
    /// the second; else nothing changes.
    pub fn take_first(&mut self, stick: &mut Stick) -> (result: Result<Attempt, ProtocolViolation>)
        requires
            old(self).wf(),
            old(stick).wf(),
            old(stick)@.acquired < u64::MAX,
        ensures
            final(self).wf(),
            final(stick).wf(),
            result == old(self)@.take_answer(
                Phase::AcquiringFirst,
                old(self)@.first(),
                old(stick)@,
            ),
            result == Ok::<Attempt, ProtocolViolation>(Attempt::Granted) ==> {
                &&& final(self)@ == old(self)@.in_phase(Phase::AcquiringSecond)
                &&& final(stick)@ == old(stick)@.granted(old(self)@.id())
            },
            result != Ok::<Attempt, ProtocolViolation>(Attempt::Granted) ==> {
                &&& final(self)@ == old(self)@
                &&& final(stick)@ == old(stick)@
            },
    {
        if self.phase != Phase::AcquiringFirst {
            return Err(ProtocolViolation::OutOfSequence);
        }
        if stick.id() != self.first() {
            return Err(ProtocolViolation::WrongStick);
        }
        let answer = stick.acquire(self.left);
        if let Ok(Attempt::Granted) = answer {
            self.phase = Phase::AcquiringSecond;
        }
        answer
    }

    /// Asks for the second stick. Granted, the philosopher holds both and
    /// eats; else nothing changes.
    pub fn take_second(&mut self, stick: &mut Stick) -> (result: Result<Attempt, ProtocolViolation>)
        requires
            old(self).wf(),
            old(stick).wf(),
            old(stick)@.acquired < u64::MAX,
        ensures
            final(self).wf(),
            final(stick).wf(),
            result == old(self)@.take_answer(
                Phase::AcquiringSecond,
                old(self)@.second(),
                old(stick)@,
            ),
            result == Ok::<Attempt, ProtocolViolation>(Attempt::Granted) ==> {
                &&& final(self)@ == old(self)@.in_phase(Phase::Acting)
                &&& final(stick)@ == old(stick)@.granted(old(self)@.id())
            },
            result != Ok::<Attempt, ProtocolViolation>(Attempt::Granted) ==> {
                &&& final(self)@ == old(self)@
                &&& final(stick)@ == old(stick)@
            },
    {
        if self.phase != Phase::AcquiringSecond {
            return Err(ProtocolViolation::OutOfSequence);
        }
        if stick.id() != self.second() {
            return Err(ProtocolViolation::WrongStick);
        }
        let answer = stick.acquire(self.left);
        if let Ok(Attempt::Granted) = answer {
            self.phase = Phase::Acting;
        }
        answer
    }

    /// Puts both sticks down and closes the round: the philosopher thinks
    /// again, or is done after its last round. Refused, nothing changes.
    pub fn put_down(&mut self, first: &mut Stick, second: &mut Stick) -> (result: Result<
        (),
        ProtocolViolation,
    >)
        requires
            old(self).wf(),
            old(first).wf(),
            old(second).wf(),
        ensures
            final(self).wf(),
            final(first).wf(),
            final(second).wf(),
            result == old(self)@.put_down_answer(old(first)@, old(second)@),
            result is Ok ==> {
                &&& final(self)@ == old(self)@.after_round()
                &&& final(first)@ == old(first)@.yielded()
                &&& final(second)@ == old(second)@.yielded()
            },
            result is Err ==> {
                &&& final(self)@ == old(self)@
                &&& final(first)@ == old(first)@
                &&& final(second)@ == old(second)@
            },
    {
        if self.phase != Phase::Releasing {
            return Err(ProtocolViolation::OutOfSequence);
        }
        if first.id() != self.first() || second.id() != self.second() {
            return Err(ProtocolViolation::WrongStick);
        }
        if !first.is_held_by(self.left) || !second.is_held_by(self.left) {
            return Err(ProtocolViolation::NotHolder);
        }
        let _ = second.release(self.left);
        let _ = first.release(self.left);
        self.completed = self.completed + 1;
        self.phase = if self.completed == self.rounds {
            Phase::Done
        } else {
            Phase::Thinking
        };
        Ok(())
    }

    /// One step of the life cycle, whatever the phase: the transition that is
    /// due is made if it can be. The sticks come in the order in which the
    /// philosopher picks them up.
    pub fn step(&mut self, first: &mut Stick, second: &mut Stick) -> (result: Result<
        Step,
        ProtocolViolation,
    >)
        requires
            old(self).wf(),
            old(first).wf(),
            old(second).wf(),
            old(self)@.phase == Phase::AcquiringFirst ==> old(first)@.acquired < u64::MAX,
            old(self)@.phase == Phase::AcquiringSecond ==> old(second)@.acquired < u64::MAX,
        ensures
            final(self).wf(),
            final(first).wf(),
            final(second).wf(),
            (Transition {
                actor: final(self)@,
                first: final(first)@,
                second: final(second)@,
                result,
            }) == old(self)@.step(old(first)@, old(second)@),
    {
        match self.phase {
            Phase::Thinking => match self.think() {
                Ok(()) => Ok(Step::Entered(Phase::AcquiringFirst)),
                Err(violation) => Err(violation),
            },
            Phase::AcquiringFirst => match self.take_first(first) {
                Ok(Attempt::Granted) => Ok(Step::Entered(Phase::AcquiringSecond)),
                Ok(Attempt::Busy) => Ok(Step::Waiting),
                Err(violation) => Err(violation),
            },
            Phase::AcquiringSecond => match self.take_second(second) {
                Ok(Attempt::Granted) => Ok(Step::Entered(Phase::Acting)),
                Ok(Attempt::Busy) => Ok(Step::Waiting),
                Err(violation) => Err(violation),
            },
            Phase::Acting => match self.eat() {
                Ok(()) => Ok(Step::Entered(Phase::Releasing)),
                Err(violation) => Err(violation),
            },
            Phase::Releasing => match self.put_down(first, second) {
                Ok(()) => Ok(Step::Entered(self.phase)),
                Err(violation) => Err(violation),
            },
            Phase::Done => Ok(Step::Finished),
        }
    }

    /// A whole round if the sticks allow it: the philosopher takes step after
    /// step until it has put its sticks down again. It stops early where it
    /// has to wait for a stick, and goes on from there when asked again. The
    /// answer is whether a round was closed. The sticks come in the order in
    /// which the philosopher picks them up.
    pub fn try_to_eat(&mut self, first: &mut Stick, second: &mut Stick) -> (result: Result<
        bool,
        ProtocolViolation,
    >)
        requires
            old(self).wf(),
            old(first).wf(),
            old(second).wf(),
            old(first)@.acquired < u64::MAX,
            old(second)@.acquired < u64::MAX,
        ensures
            final(self).wf(),
            final(first).wf(),
            final(second).wf(),
            (Meal { actor: final(self)@, first: final(first)@, second: final(second)@, result })
                == old(self)@.try_meal(old(first)@, old(second)@),
    {
        let ghost meal = self@.try_meal(first@, second@);
        loop
            invariant
                self.wf(),
                first.wf(),
                second.wf(),
                self@.phase == Phase::Thinking || self@.phase == Phase::AcquiringFirst
                    ==> first@.acquired < u64::MAX,
                self@.phase == Phase::Thinking || self@.phase == Phase::AcquiringFirst
                    || self@.phase == Phase::AcquiringSecond ==> second@.acquired < u64::MAX,
                self@.try_meal(first@, second@) == meal,
                meal == old(self)@.try_meal(old(first)@, old(second)@),
            decreases 5 - self@.phase.ordinal(),
        {
            let releasing = self.phase == Phase::Releasing;
            match self.step(first, second) {
                Ok(Step::Entered(_)) => {
                    if releasing {
                        return Ok(true);
                    }
                },
                Ok(_) => {
                    return Ok(false);
                },
                Err(violation) => {
                    return Err(violation);
                },
            }
        }
    }
}

} // verus!
