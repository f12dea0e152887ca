//! The whole table as a mathematical value: every philosopher and every
//! stick, what it means for the table to be in order, and how it changes when
//! one philosopher takes a step.

use crate::liveness::lemma_a_turn_round_the_table_moves_somebody;
use crate::naming::numbered_name;
use crate::philosofer::{Phase, PhilosoferView, Step, Transition};
use crate::policy::{right_index, seat_before};
use crate::stick::StickView;
use vstd::prelude::*;

verus! {

/// The sum of the steps that the given philosophers still have to take.
pub open spec fn total_steps_left(actors: Seq<PhilosoferView>) -> nat
    decreases actors.len(),
{
    if actors.len() == 0 {
        0
    } else {
        total_steps_left(actors.drop_last()) + actors.last().steps_left()
    }
}

/// A philosopher moved on: the seat it sits at and the phase it is in now.
#[derive(Clone, Copy, PartialEq, Eq, Debug, Structural)]
pub struct Event {
    pub actor: usize,
    pub entered: Phase,
}

/// The table: philosopher `i` sits at seat `i`, between stick `i` on its left
/// and the next stick round the table on its right.
pub struct TableView {
    pub actors: Seq<PhilosoferView>,
    pub sticks: Seq<StickView>,
}

impl TableView {
    /// A table freshly laid for `seats` philosophers who will each eat
    /// `rounds` rounds: nobody has moved and every stick lies untouched.
    pub open spec fn laid(seats: nat, rounds: nat) -> TableView {
        TableView {
            actors: Seq::new(
                seats,
                |i: int|
                    PhilosoferView::seated(
                        numbered_name((i + 1) as nat),
                        i,
                        right_index(i, seats as int),
                        rounds,
                    ),
            ),
            sticks: Seq::new(seats, |j: int| StickView::fresh(j)),
        }
    }

    /// The number of seats, which is also the number of sticks.
    pub open spec fn seats(self) -> int {
        self.actors.len() as int
    }

    /// The philosopher to whom stick `j` is the left one.
    pub open spec fn left_user(self, j: int) -> PhilosoferView {
        self.actors[j]
    }

    /// The philosopher to whom stick `j` is the right one.
    pub open spec fn right_user(self, j: int) -> PhilosoferView {
        self.actors[seat_before(j, self.seats())]
    }

    /// Seat `i` is laid out as the ring asks and its philosopher is in order.
    pub open spec fn seat_inv(self, i: int) -> bool {
        &&& self.actors[i].left == i
        &&& self.actors[i].right == right_index(i, self.seats())
        &&& self.actors[i].inv()
    }

    /// Stick `j` is in the hand that its two neighbours' phases say, in no
    /// more than one of them, and its counters are the sums of what the two
    /// have done with it.
    pub open spec fn stick_inv(self, j: int) -> bool {
        let stick = self.sticks[j];
        let l = self.left_user(j);
        let r = self.right_user(j);
        &&& stick.id == j
        &&& !(l.holds(j) && r.holds(j))
        &&& stick.holder == if l.holds(j) {
            Some(l.id())
        } else if r.holds(j) {
            Some(r.id())
        } else {
            None
        }
        &&& stick.acquired == l.pickups(j) + r.pickups(j)
        &&& stick.released == l.completed + r.completed
    }

    /// The table is in order: at least two seats, as many sticks, and every
    /// seat and every stick in order.
    pub open spec fn inv(self) -> bool {
        &&& self.seats() >= 2
        &&& self.sticks.len() == self.seats()
        &&& forall|i: int| 0 <= i < self.seats() ==> #[trigger] self.seat_inv(i)
        &&& forall|j: int| 0 <= j < self.seats() ==> #[trigger] self.stick_inv(j)
    }

    /// What one step of the philosopher at seat `i` comes to.
    pub open spec fn transition(self, i: int) -> Transition {
        let actor = self.actors[i];
        actor.step(self.sticks[actor.first()], self.sticks[actor.second()])
    }

    /// Whether the philosopher at seat `i` can move on.
    pub open spec fn enabled(self, i: int) -> bool {
        &&& 0 <= i < self.seats()
        &&& self.transition(i).result matches Ok(Step::Entered(_))
    }

    /// The table after the philosopher at seat `i` has taken a step. A step
    /// that cannot be taken leaves the table as it is.
    pub open spec fn step(self, i: int) -> TableView {
        if 0 <= i < self.seats() {
            let actor = self.actors[i];
            let t = self.transition(i);
            TableView {
                actors: self.actors.update(i, t.actor),
                sticks: self.sticks.update(actor.first(), t.first).update(
                    actor.second(),
                    t.second,
                ),
            }
        } else {
            self
        }
    }

    /// Every philosopher is done.
    pub open spec fn complete(self) -> bool {
        forall|i: int| 0 <= i < self.seats() ==> (#[trigger] self.actors[i]).phase == Phase::Done
    }

    /// The steps that all philosophers together still have to take.
    pub open spec fn steps_left(self) -> nat {
        total_steps_left(self.actors)
    }

    /// The table after the seats named in `schedule` have each taken a step,
    /// one after the other.
    pub open spec fn replay(self, schedule: Seq<int>) -> TableView
        decreases schedule.len(),
    {
        if schedule.len() == 0 {
            self
        } else {
            self.step(schedule.first()).replay(schedule.drop_first())
        }
    }

    /// What the steps of `schedule` let be seen: one event for each step that
    /// moves a philosopher on, in the order of the steps.
    pub open spec fn trace(self, schedule: Seq<int>) -> Seq<Event>
        decreases schedule.len(),
    {
        if schedule.len() == 0 {
            Seq::empty()
        } else {
            let seat = schedule.first();
            let rest = self.step(seat).trace(schedule.drop_first());
            if self.enabled(seat) {
                seq![self.event(seat)] + rest
            } else {
                rest
            }
        }
    }

    /// What is seen when the philosopher at seat `i` moves on.
    pub open spec fn event(self, i: int) -> Event {
        Event { actor: i as usize, entered: self.transition(i).actor.phase }
    }

    /// How many steps of `schedule` move a philosopher on.
    pub open spec fn moves(self, schedule: Seq<int>) -> nat {
        self.trace(schedule).len()
    }

    /// The schedule of a whole run: the seats take turns round the table,
    /// again and again, until every philosopher is done.
    pub open spec fn run_schedule(self) -> Seq<int>
        decreases self.steps_left(),
    {
        if self.inv() && !self.complete() {
            proof {
                lemma_a_turn_round_the_table_moves_somebody(self);
            }
            round_robin(self.seats() as nat) + self.replay(
                round_robin(self.seats() as nat),
            ).run_schedule()
        } else {
            Seq::empty()
        }
    }

    /// The other table seats the same philosophers: names, sticks and rounds
    /// agree seat by seat.
    pub open spec fn same_seating(self, other: TableView) -> bool {
        &&& self.seats() == other.seats()
        &&& forall|i: int|
            0 <= i < self.seats() ==> {
                &&& (#[trigger] self.actors[i]).name == other.actors[i].name
                &&& self.actors[i].left == other.actors[i].left
                &&& self.actors[i].right == other.actors[i].right
                &&& self.actors[i].rounds == other.actors[i].rounds
            }
    }

    /// The table as it stands when all is over: every philosopher done with
    /// all its rounds, every stick free, picked up and put down once for each
    /// round of each of its two neighbours.
    pub open spec fn cleared(self) -> TableView {
        TableView {
            actors: Seq::new(
                self.actors.len(),
                |i: int|
                    PhilosoferView {
                        phase: Phase::Done,
                        completed: self.actors[i].rounds,
                        ..self.actors[i]
                    },
            ),
            sticks: Seq::new(
                self.sticks.len(),
                |j: int|
                    StickView {
                        id: j,
                        holder: None,
                        acquired: self.left_user(j).rounds + self.right_user(j).rounds,
                        released: self.left_user(j).rounds + self.right_user(j).rounds,
                    },
            ),
        }
    }
}

/// The seats in the order in which they take turns round the table.
pub open spec fn round_robin(seats: nat) -> Seq<int> {
    Seq::new(seats, |i: int| i)
}

/// A schedule given as machine numbers, as a sequence of seats.
pub open spec fn seats_of(schedule: Seq<usize>) -> Seq<int> {
    schedule.map_values(|seat: usize| seat as int)
}

} // verus!
