//! What always goes on at a table that is in order: while somebody is not
//! done somebody can move, every move brings the end one step nearer, and so
//! every schedule comes to an end with all philosophers done.

use crate::philosofer::{Phase, PhilosoferView};
use crate::policy::{lemma_ring, right_index, seat_before};
use crate::safety::{
    lemma_holder_is_a_neighbour, lemma_laid_table_is_in_order, lemma_schedule_keeps_order,
    lemma_step_keeps_order,
};
use crate::table::{round_robin, total_steps_left, Event, TableView};
use vstd::prelude::*;

verus! {

/// Replacing one philosopher changes the sum of the steps left by what that
/// philosopher's own steps changed.
pub proof fn lemma_total_after_update(actors: Seq<PhilosoferView>, i: int, actor: PhilosoferView)
    requires
        0 <= i < actors.len(),
    ensures
        total_steps_left(actors.update(i, actor)) + actors[i].steps_left() == total_steps_left(
            actors,
        ) + actor.steps_left(),
    decreases actors.len(),
{
    let updated = actors.update(i, actor);
    if i == actors.len() - 1 {
        assert(updated.drop_last() =~= actors.drop_last());
    } else {
        lemma_total_after_update(actors.drop_last(), i, actor);
        assert(updated.drop_last() =~= actors.drop_last().update(i, actor));
    }
}

/// No steps are left exactly when every philosopher has none left.
pub proof fn lemma_total_is_zero(actors: Seq<PhilosoferView>)
    ensures
        total_steps_left(actors) == 0 <==> forall|i: int|
            0 <= i < actors.len() ==> (#[trigger] actors[i]).steps_left() == 0,
    decreases actors.len(),
{
    if actors.len() > 0 {
        lemma_total_is_zero(actors.drop_last());
        if total_steps_left(actors) == 0 {
            assert forall|i: int| 0 <= i < actors.len() implies (#[trigger] actors[i]).steps_left()
                == 0 by {
                if i < actors.len() - 1 {
                    assert(actors.drop_last()[i] == actors[i]);
                }
            }
        }
        if forall|i: int| 0 <= i < actors.len() ==> (#[trigger] actors[i]).steps_left() == 0 {
            assert forall|i: int| 0 <= i < actors.drop_last().len() implies (
            #[trigger] actors.drop_last()[i]).steps_left() == 0 by {
                assert(actors.drop_last()[i] == actors[i]);
            }
            assert(actors.last() == actors[actors.len() - 1]);
        }
    }
}

/// Philosophers that all have the same number of steps left have that number
/// times their count left together.
pub proof fn lemma_total_of_equals(actors: Seq<PhilosoferView>, each: nat)
    requires
        forall|i: int| 0 <= i < actors.len() ==> (#[trigger] actors[i]).steps_left() == each,
    ensures
        total_steps_left(actors) == actors.len() * each,
    decreases actors.len(),
{
    if actors.len() > 0 {
        let front = actors.drop_last();
        assert forall|i: int| 0 <= i < front.len() implies (#[trigger] front[i]).steps_left()
            == each by {
            assert(front[i] == actors[i]);
        }
        lemma_total_of_equals(front, each);
        assert(actors.last() == actors[actors.len() - 1]);
        assert((actors.len() - 1) * each + each == actors.len() * each) by (nonlinear_arith);
    } else {
        assert(0 * each == 0) by (nonlinear_arith);
    }
}

/// A freshly laid table has five steps to take for every round of every
/// philosopher.
pub proof fn lemma_laid_table_steps(seats: nat, rounds: nat)
    requires
        2 <= seats,
    ensures
        TableView::laid(seats, rounds).steps_left() == seats * (5 * rounds),
{
    let table = TableView::laid(seats, rounds);
    lemma_laid_table_is_in_order(seats, rounds);
    assert forall|i: int| 0 <= i < table.actors.len() implies (
    #[trigger] table.actors[i]).steps_left() == 5 * rounds by {}
    lemma_total_of_equals(table.actors, 5 * rounds);
}

/// A table in order is complete exactly when no steps are left.
pub proof fn lemma_complete_iff_no_steps_left(table: TableView)
    requires
        table.inv(),
    ensures
        table.complete() <==> table.steps_left() == 0,
{
    lemma_total_is_zero(table.actors);
    if table.complete() {
        assert forall|i: int| 0 <= i < table.actors.len() implies (
        #[trigger] table.actors[i]).steps_left() == 0 by {}
    }
    if table.steps_left() == 0 {
        assert forall|i: int| 0 <= i < table.seats() implies (#[trigger] table.actors[i]).phase
            == Phase::Done by {
            assert(table.seat_inv(i));
            assert(table.actors[i].steps_left() == 0);
        }
    }
}

/// A step that moves a philosopher on leaves one step less to take; a step
/// that cannot be taken leaves the table as it was.
pub proof fn lemma_step_counts_down(table: TableView, i: int)
    requires
        table.inv(),
    ensures
        table.enabled(i) ==> table.step(i).steps_left() + 1 == table.steps_left(),
        !table.enabled(i) ==> table.step(i) == table,
{
    let n = table.seats();
    if 0 <= i < n {
        lemma_ring(n);
        lemma_step_keeps_order(table, i);
        let actor = table.actors[i];
        let t = table.transition(i);
        assert(table.seat_inv(i));
        assert(table.stick_inv(i));
        assert(table.stick_inv(right_index(i, n)));
        if table.enabled(i) {
            lemma_total_after_update(table.actors, i, t.actor);
            assert(t.actor.steps_left() + 1 == actor.steps_left());
        } else {
            assert(table.step(i).actors =~= table.actors);
            assert(table.step(i).sticks =~= table.sticks);
        }
    }
}

/// If nobody can move, no stick from index `from` upwards is in any hand: the
/// holder of the highest stick held would be waiting for a higher one.
proof fn lemma_stuck_table_holds_nothing(table: TableView, from: int)
    requires
        table.inv(),
        forall|i: int| 0 <= i < table.seats() ==> !table.enabled(i),
        0 <= from <= table.seats(),
    ensures
        forall|j: int| from <= j < table.seats() ==> (#[trigger] table.sticks[j]).holder is None,
    decreases table.seats() - from,
{
    let n = table.seats();
    if from < n {
        lemma_stuck_table_holds_nothing(table, from + 1);
        lemma_ring(n);
        lemma_holder_is_a_neighbour(table, from);
        if let Some(who) = table.sticks[from].holder {
            let actor = table.actors[who];
            assert(table.seat_inv(who));
            assert(!table.enabled(who));
            assert(table.stick_inv(who));
            assert(table.stick_inv(right_index(who, n)));
            assert(actor.phase == Phase::AcquiringSecond);
            assert(actor.first() == from);
            assert(from < actor.second() < n);
            assert(table.sticks[actor.second()].holder is None);
            assert(false);
        }
    }
}

/// Deadlock freedom: at a table in order, as long as some philosopher is not
/// done, some philosopher can move.
pub proof fn lemma_somebody_can_move(table: TableView)
    requires
        table.inv(),
        !table.complete(),
    ensures
        exists|i: int| table.enabled(i),
{
    let n = table.seats();
    if forall|i: int| 0 <= i < n ==> !table.enabled(i) {
        lemma_stuck_table_holds_nothing(table, 0);
        lemma_ring(n);
        let i = choose|i: int| 0 <= i < n && (#[trigger] table.actors[i]).phase != Phase::Done;
        let actor = table.actors[i];
        assert(table.seat_inv(i));
        assert(!table.enabled(i));
        assert(table.stick_inv(i));
        assert(table.stick_inv(right_index(i, n)));
        assert(table.sticks[actor.first()].holder is None);
        assert(table.sticks[actor.second()].holder is None);
        assert(false);
    }
}

/// Every schedule comes to an end: whatever seats take their steps in
/// whatever order, the steps that moved somebody on and the steps still left
/// add up to the steps that were left at the start. So no schedule moves the
/// philosophers more often than that, and one that has moved them that often
/// has brought every philosopher to its end.
pub proof fn lemma_every_schedule_is_bounded(table: TableView, schedule: Seq<int>)
    requires
        table.inv(),
    ensures
        table.replay(schedule).inv(),
        table.moves(schedule) + table.replay(schedule).steps_left() == table.steps_left(),
        table.moves(schedule) <= table.steps_left(),
        table.moves(schedule) == table.steps_left() <==> table.replay(schedule).complete(),
    decreases schedule.len(),
{
    lemma_schedule_keeps_order(table, schedule);
    lemma_complete_iff_no_steps_left(table.replay(schedule));
    if schedule.len() > 0 {
        let seat = schedule.first();
        lemma_step_keeps_order(table, seat);
        lemma_step_counts_down(table, seat);
        lemma_every_schedule_is_bounded(table.step(seat), schedule.drop_first());
    }
}

/// A schedule of one seat is one step of that seat.
pub proof fn lemma_schedule_of_one(table: TableView, seat: int)
    ensures
        table.replay(seq![seat]) == table.step(seat),
        table.trace(seq![seat]) == if table.enabled(seat) {
            seq![table.event(seat)]
        } else {
            Seq::<Event>::empty()
        },
{
    let one = seq![seat];
    assert(one.first() == seat);
    assert(one.drop_first() =~= Seq::<int>::empty());
    assert(table.step(seat).replay(one.drop_first()) == table.step(seat));
    assert(table.step(seat).trace(one.drop_first()) =~= Seq::<Event>::empty());
    assert(seq![table.event(seat)] + Seq::<Event>::empty() =~= seq![table.event(seat)]);
}

/// A schedule in two parts is the first part, and the second part played from
/// where the first one ends.
pub proof fn lemma_schedule_in_two_parts(table: TableView, head: Seq<int>, tail: Seq<int>)
    ensures
        table.replay(head + tail) == table.replay(head).replay(tail),
        table.trace(head + tail) == table.trace(head) + table.replay(head).trace(tail),
    decreases head.len(),
{
    if head.len() == 0 {
        assert(head + tail =~= tail);
        assert(table.trace(head) + table.replay(head).trace(tail) =~= table.trace(tail));
    } else {
        let seat = head.first();
        let next = table.step(seat);
        assert((head + tail).first() == head.first());
        assert((head + tail).drop_first() =~= head.drop_first() + tail);
        lemma_schedule_in_two_parts(next, head.drop_first(), tail);
        assert(table.trace(head + tail) =~= table.trace(head) + table.replay(head).trace(tail));
    }
}

/// A schedule that names a seat whose philosopher can move moves somebody:
/// that philosopher, or whoever got to move before its turn came.
pub proof fn lemma_schedule_with_a_free_seat_moves(table: TableView, schedule: Seq<int>, k: int)
    requires
        table.inv(),
        0 <= k < schedule.len(),
        table.enabled(schedule[k]),
    ensures
        table.moves(schedule) >= 1,
    decreases schedule.len(),
{
    let seat = schedule.first();
    if !table.enabled(seat) {
        lemma_step_counts_down(table, seat);
        assert(schedule.drop_first()[k - 1] == schedule[k]);
        lemma_schedule_with_a_free_seat_moves(table, schedule.drop_first(), k - 1);
    }
}

/// As long as somebody is not done, one turn round the table moves somebody
/// on and so leaves fewer steps to take.
pub proof fn lemma_a_turn_round_the_table_moves_somebody(table: TableView)
    requires
        table.inv(),
        !table.complete(),
    ensures
        table.replay(round_robin(table.seats() as nat)).inv(),
        table.replay(round_robin(table.seats() as nat)).steps_left() < table.steps_left(),
{
    let order = round_robin(table.seats() as nat);
    lemma_somebody_can_move(table);
    let i = choose|i: int| table.enabled(i);
    assert(order[i] == i);
    lemma_schedule_with_a_free_seat_moves(table, order, i);
    lemma_every_schedule_is_bounded(table, order);
}

/// A whole run comes to its end: after it the table is in order and every
/// philosopher is done, and it has moved the philosophers exactly as often as
/// there were steps to take.
pub proof fn lemma_run_reaches_the_end(table: TableView)
    requires
        table.inv(),
    ensures
        table.replay(table.run_schedule()).inv(),
        table.replay(table.run_schedule()).complete(),
        table.moves(table.run_schedule()) == table.steps_left(),
    decreases table.steps_left(),
{
    if table.complete() {
        lemma_complete_iff_no_steps_left(table);
    } else {
        let order = round_robin(table.seats() as nat);
        let next = table.replay(order);
        lemma_a_turn_round_the_table_moves_somebody(table);
        lemma_run_reaches_the_end(next);
        lemma_schedule_in_two_parts(table, order, next.run_schedule());
        lemma_every_schedule_is_bounded(table, order);
    }
}

/// No step changes who sits where: names, sticks and rounds stay.
pub proof fn lemma_schedule_keeps_seating(table: TableView, schedule: Seq<int>)
    requires
        table.inv(),
    ensures
        table.replay(schedule).same_seating(table),
    decreases schedule.len(),
{
    if schedule.len() > 0 {
        let seat = schedule.first();
        let next = table.step(seat);
        lemma_step_keeps_order(table, seat);
        lemma_schedule_keeps_seating(next, schedule.drop_first());
        let last = next.replay(schedule.drop_first());
        assert forall|i: int| 0 <= i < table.seats() implies {
            &&& (#[trigger] last.actors[i]).name == table.actors[i].name
            &&& last.actors[i].left == table.actors[i].left
            &&& last.actors[i].right == table.actors[i].right
            &&& last.actors[i].rounds == table.actors[i].rounds
        } by {
            assert(next.actors[i].name == table.actors[i].name);
        }
    }
}

/// Every schedule ends alike: whatever the order of the steps, once all
/// philosophers are done the table is the cleared one, with every stick free
/// and every pick-up matched by a put-down.
pub proof fn lemma_every_schedule_ends_alike(table: TableView, schedule: Seq<int>)
    requires
        table.inv(),
        table.replay(schedule).complete(),
    ensures
        table.replay(schedule) == table.cleared(),
{
    let last = table.replay(schedule);
    let n = table.seats();
    lemma_every_schedule_is_bounded(table, schedule);
    lemma_schedule_keeps_seating(table, schedule);
    lemma_ring(n);
    assert forall|i: int| 0 <= i < n implies last.actors[i] == table.cleared().actors[i] by {
        assert(last.seat_inv(i));
        assert(table.seat_inv(i));
        assert(last.actors[i].name == table.actors[i].name);
    }
    assert forall|j: int| 0 <= j < n implies last.sticks[j] == table.cleared().sticks[j] by {
        assert(last.stick_inv(j));
        assert(last.seat_inv(j));
        assert(last.seat_inv(seat_before(j, n)));
        assert(last.actors[j].rounds == table.actors[j].rounds);
        assert(last.actors[seat_before(j, n)].rounds == table.actors[seat_before(j, n)].rounds);
    }
    assert(last.actors =~= table.cleared().actors);
    assert(last.sticks =~= table.cleared().sticks);
}

} // verus!
