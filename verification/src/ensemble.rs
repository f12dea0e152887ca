//! The ensemble: the coordinator that lays the table, owns every philosopher
//! and every stick, and lets the philosophers take their steps.

use crate::liveness::{
    lemma_a_turn_round_the_table_moves_somebody, lemma_every_schedule_ends_alike,
    lemma_run_reaches_the_end, lemma_schedule_in_two_parts, lemma_schedule_of_one,
};
use crate::naming::{numbered_name, seat_name};
use crate::philosofer::{Phase, Philosofer, PhilosoferView, Step, DEFAULT_ROUNDS};
use crate::policy::{lemma_ring, right_index, right_of, seat_before, MIN_SEATS};
use crate::safety::{lemma_laid_table_is_in_order, lemma_step_keeps_order};
use crate::stick::{ProtocolViolation, Stick, StickView};
use crate::table::{round_robin, seats_of, Event, TableView};
use vstd::prelude::*;

verus! {

/// Why a table could not be laid.
#[derive(Clone, Copy, PartialEq, Eq, Debug, Structural)]
pub enum ConfigurationError {
    /// Fewer than two seats: a philosopher would have the same stick on both
    /// sides, or there would be nobody at all.
    TooFewSeats,
}

/// The table with its philosophers and sticks.
#[derive(Debug)]
pub struct Ensemble {
    actors: Vec<Philosofer>,
    sticks: Vec<Stick>,
}

impl View for Ensemble {
    type V = TableView;

    closed spec fn view(&self) -> TableView {
        TableView {
            actors: Seq::new(self.actors@.len(), |i: int| self.actors@[i]@),
            sticks: Seq::new(self.sticks@.len(), |j: int| self.sticks@[j]@),
        }
    }
}

impl Ensemble {
    /// The table is in order, and no philosopher has more rounds to eat than
    /// its counter can hold.
    pub open spec fn wf(&self) -> bool {
        &&& self@.inv()
        &&& forall|i: int|
            0 <= i < self@.seats() ==> (#[trigger] self@.actors[i]).rounds <= u32::MAX
    }

    /// Lays a table for `seats` philosophers who each eat the default number
    /// of rounds.
    pub fn build(seats: usize) -> (result: Result<Ensemble, ConfigurationError>)
        ensures
            seats < MIN_SEATS <==> result is Err,
            result is Err ==> result == Err::<Ensemble, ConfigurationError>(
                ConfigurationError::TooFewSeats,
            ),
            result matches Ok(ensemble) ==> ensemble.wf() && ensemble@ == TableView::laid(
                seats as nat,
                DEFAULT_ROUNDS as nat,
            ),
    {
        Ensemble::build_with_rounds(seats, DEFAULT_ROUNDS)
    }

    /// Lays a table for `seats` philosophers who each eat `rounds` rounds:
    /// philosopher `i` sits between stick `i` on its left and the next stick
    /// round the table on its right. A table needs at least two seats.
    pub fn build_with_rounds(seats: usize, rounds: u32) -> (result: Result<
        Ensemble,
        ConfigurationError,
    >)
        ensures
            seats < MIN_SEATS <==> result is Err,
            result is Err ==> result == Err::<Ensemble, ConfigurationError>(
                ConfigurationError::TooFewSeats,
            ),
            result matches Ok(ensemble) ==> ensemble.wf() && ensemble@ == TableView::laid(
                seats as nat,
                rounds as nat,
            ),
    {
        if seats < MIN_SEATS {
            return Err(ConfigurationError::TooFewSeats);
        }
        let mut actors: Vec<Philosofer> = Vec::new();
        let mut sticks: Vec<Stick> = Vec::new();
        let mut i: usize = 0;
        while i < seats
            invariant
                i <= seats,
                actors@.len() == i,
                sticks@.len() == i,
                forall|k: int|
                    0 <= k < i ==> (#[trigger] actors@[k])@ == PhilosoferView::seated(
                        numbered_name((k + 1) as nat),
                        k,
                        right_index(k, seats as int),
                        rounds as nat,
                    ),
                forall|k: int| 0 <= k < i ==> (#[trigger] sticks@[k])@ == StickView::fresh(k),
            decreases seats - i,
        {
            sticks.push(Stick::new(i));
            actors.push(Philosofer::with_rounds(seat_name(i), i, right_of(i, seats), rounds));
            i = i + 1;
        }
        let ensemble = Ensemble { actors, sticks };
        proof {
            let laid = TableView::laid(seats as nat, rounds as nat);
            assert(ensemble@.actors =~= laid.actors);
            assert(ensemble@.sticks =~= laid.sticks);
            lemma_laid_table_is_in_order(seats as nat, rounds as nat);
        }
        Ok(ensemble)
    }

    /// The number of seats, which is also the number of sticks.
    pub fn seats(&self) -> (seats: usize)
        ensures
            seats == self@.seats(),
    {
        self.actors.len()
    }

    /// The philosopher at the given seat.
    pub fn actor(&self, seat: usize) -> (actor: &Philosofer)
        requires
            seat < self@.seats(),
        ensures
            actor@ == self@.actors[seat as int],
    {
        &self.actors[seat]
    }

    /// The stick with the given index.
    pub fn stick(&self, index: usize) -> (stick: &Stick)
        requires
            index < self@.sticks.len(),
        ensures
            stick@ == self@.sticks[index as int],
    {
        &self.sticks[index]
    }

    /// The philosopher at the given seat takes one step of its life cycle, if
    /// it can. At a table in order that never breaches the protocol.
    pub fn step(&mut self, seat: usize) -> (step: Step)
        requires
            old(self).wf(),
            seat < old(self)@.seats(),
        ensures
            final(self).wf(),
            final(self)@ == old(self)@.step(seat as int),
            old(self)@.transition(seat as int).result == Ok::<Step, ProtocolViolation>(step),
            step is Entered <==> old(self)@.enabled(seat as int),
    {
        let ghost before = self@;
        let ghost n = before.seats();
        proof {
            lemma_ring(n);
            lemma_step_keeps_order(before, seat as int);
            assert(before.seat_inv(seat as int));
            assert(before.stick_inv(seat as int));
            assert(before.stick_inv(right_index(seat as int, n)));
            assert(before.seat_inv(seat_before(seat as int, n)));
            assert(before.seat_inv(right_index(seat as int, n)));
        }
        let f: usize = self.actors[seat].first();
        let s: usize = self.actors[seat].second();
        let mut first: Stick = self.sticks[f];
        let mut second: Stick = self.sticks[s];
        let result = self.actors[seat].step(&mut first, &mut second);
        self.sticks.set(f, first);
        self.sticks.set(s, second);
        proof {
            let after = before.step(seat as int);
            assert(self@.actors =~= after.actors);
            assert(self@.sticks =~= after.sticks);
        }
        match result {
            Ok(step) => step,
            Err(_) => vstd::pervasive::unreached(),
        }
    }

    /// Takes the table apart: the philosophers by seat and the sticks by
    /// index, each as it stands.
    pub fn into_parts(self) -> (parts: (Vec<Philosofer>, Vec<Stick>))
        ensures
            parts.0@.len() == self@.actors.len(),
            parts.1@.len() == self@.sticks.len(),
            forall|i: int| 0 <= i < parts.0@.len() ==> (#[trigger] parts.0@[i])@ == self@.actors[i],
            forall|j: int| 0 <= j < parts.1@.len() ==> (#[trigger] parts.1@[j])@ == self@.sticks[j],
    {
        (self.actors, self.sticks)
    }

    /// Whether every philosopher is done.
    pub fn is_complete(&self) -> (complete: bool)
        ensures
            complete == self@.complete(),
    {
        let mut i: usize = 0;
        while i < self.actors.len()
            invariant
                i <= self.actors@.len(),
                forall|k: int| 0 <= k < i ==> (#[trigger] self@.actors[k]).phase == Phase::Done,
            decreases self.actors@.len() - i,
        {
            if !self.actors[i].is_done() {
                assert(self@.actors[i as int].phase != Phase::Done);
                return false;
            }
            i = i + 1;
        }
        true
    }

    /// The seats named in `schedule` take one step each, in that order; a
    /// number that names no seat is passed over. The events of the steps that
    /// moved a philosopher on come back, in order.
    pub fn follow(&mut self, schedule: &Vec<usize>) -> (events: Vec<Event>)
        requires
            old(self).wf(),
        ensures
            final(self).wf(),
            final(self)@ == old(self)@.replay(seats_of(schedule@)),
            events@ == old(self)@.trace(seats_of(schedule@)),
    {
        let ghost start = self@;
        let ghost whole = seats_of(schedule@);
        let mut events: Vec<Event> = Vec::new();
        let mut k: usize = 0;
        proof {
            assert(whole.take(0) =~= Seq::<int>::empty());
        }
        while k < schedule.len()
            invariant
                k <= schedule@.len(),
                whole == seats_of(schedule@),
                start.inv(),
                self.wf(),
                self@ == start.replay(whole.take(k as int)),
                events@ == start.trace(whole.take(k as int)),
            decreases schedule@.len() - k,
        {
            let seat: usize = schedule[k];
            let ghost here = self@;
            let ghost head = whole.take(k as int);
            if seat < self.actors.len() {
                let step = self.step(seat);
                if let Step::Entered(phase) = step {
                    events.push(Event { actor: seat, entered: phase });
                }
            }
            proof {
                let one = seq![seat as int];
                assert(whole.take(k + 1) =~= head + one);
                lemma_schedule_in_two_parts(start, head, one);
                lemma_schedule_of_one(here, seat as int);
                lemma_step_keeps_order(here, seat as int);
            }
            k = k + 1;
        }
        proof {
            assert(whole.take(schedule@.len() as int) =~= whole);
        }
        events
    }

    /// One turn round the table: every philosopher in the order of the seats
    /// takes one step.
    pub fn sweep(&mut self) -> (events: Vec<Event>)
        requires
            old(self).wf(),
        ensures
            final(self).wf(),
            final(self)@ == old(self)@.replay(round_robin(old(self)@.seats() as nat)),
            events@ == old(self)@.trace(round_robin(old(self)@.seats() as nat)),
    {
        let seats: usize = self.actors.len();
        let mut order: Vec<usize> = Vec::new();
        let mut i: usize = 0;
        while i < seats
            invariant
                i <= seats,
                order@.len() == i,
                forall|k: int| 0 <= k < i ==> order@[k] == k,
            decreases seats - i,
        {
            order.push(i);
            i = i + 1;
        }
        proof {
            assert(seats_of(order@) =~= round_robin(seats as nat));
        }
        self.follow(&order)
    }

    /// The whole run: the philosophers take turns round the table until all
    /// are done. It always comes to an end, with every stick free again. The
    /// events of all steps that moved a philosopher on come back, in order.
    pub fn run(&mut self) -> (events: Vec<Event>)
        requires
            old(self).wf(),
        ensures
            final(self).wf(),
            final(self)@.complete(),
            final(self)@ == old(self)@.replay(old(self)@.run_schedule()),
            final(self)@ == old(self)@.cleared(),
            events@ == old(self)@.trace(old(self)@.run_schedule()),
            events@.len() == old(self)@.steps_left(),
    {
        let ghost start = self@;
        let ghost mut played: Seq<int> = Seq::empty();
        let mut events: Vec<Event> = Vec::new();
        proof {
            assert(played + start.run_schedule() =~= start.run_schedule());
        }
        while !self.is_complete()
            invariant
                start.inv(),
                self.wf(),
                self@ == start.replay(played),
                events@ == start.trace(played),
                played + self@.run_schedule() == start.run_schedule(),
            decreases self@.steps_left(),
        {
            let ghost here = self@;
            let ghost order = round_robin(here.seats() as nat);
            let mut batch = self.sweep();
            events.append(&mut batch);
            proof {
                lemma_a_turn_round_the_table_moves_somebody(here);
                lemma_schedule_in_two_parts(start, played, order);
                assert((played + order) + self@.run_schedule() =~= played + (order
                    + self@.run_schedule()));
                played = played + order;
            }
        }
        proof {
            assert(played + Seq::<int>::empty() =~= played);
            lemma_run_reaches_the_end(start);
            lemma_every_schedule_ends_alike(start, played);
        }
        events
    }
}

} // verus!
