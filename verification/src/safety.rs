//! What never goes wrong at a table that is in order: no stick is in two
//! hands, no two neighbours eat at once, the protocol is never breached, and
//! every pick-up is matched by a put-down once all are done.

use crate::philosofer::Phase;
use crate::policy::{lemma_ring, right_index, seat_before};
use crate::table::TableView;
use vstd::prelude::*;

verus! {

/// A freshly laid table of at least two seats is in order.
pub proof fn lemma_laid_table_is_in_order(seats: nat, rounds: nat)
    requires
        2 <= seats,
    ensures
        TableView::laid(seats, rounds).inv(),
        TableView::laid(seats, rounds).seats() == seats,
{
    let table = TableView::laid(seats, rounds);
    lemma_ring(seats as int);
    assert forall|i: int| 0 <= i < table.seats() implies #[trigger] table.seat_inv(i) by {}
    assert forall|j: int| 0 <= j < table.seats() implies #[trigger] table.stick_inv(j) by {}
}

/// Ordering: at a table in order every philosopher's two sticks differ and
/// the one it picks up first has the smaller index, whichever side it lies
/// on; so a philosopher that holds one stick only holds the lower one. Only
/// the philosopher at the last seat starts with its right stick.
pub proof fn lemma_lower_stick_is_taken_first(table: TableView, i: int)
    requires
        table.inv(),
        0 <= i < table.seats(),
    ensures
        0 <= table.actors[i].first() < table.actors[i].second() < table.seats(),
        table.actors[i].first() <= table.actors[i].left,
        table.actors[i].first() <= table.actors[i].right,
        table.actors[i].first() == table.actors[i].left <==> i < table.seats() - 1,
        table.actors[i].phase == Phase::AcquiringSecond ==> table.actors[i].holds(
            table.actors[i].first(),
        ) && !table.actors[i].holds(table.actors[i].second()),
{
    lemma_ring(table.seats());
    assert(table.seat_inv(i));
}

/// Mutual exclusion: at a table in order no stick is held by two
/// philosophers, and the stick knows the one that holds it.
pub proof fn lemma_one_holder_per_stick(table: TableView, a: int, b: int, stick: int)
    requires
        table.inv(),
        0 <= a < table.seats(),
        0 <= b < table.seats(),
        table.actors[a].holds(stick),
        table.actors[b].holds(stick),
    ensures
        a == b,
        0 <= stick < table.seats(),
        table.sticks[stick].holder == Some(a),
{
    let n = table.seats();
    lemma_ring(n);
    assert(table.seat_inv(a));
    assert(table.seat_inv(b));
    assert(table.stick_inv(stick));
}

/// A stick that is held is held by a philosopher next to it who holds it
/// going by its phase; a free stick is held by none.
pub proof fn lemma_holder_is_a_neighbour(table: TableView, stick: int)
    requires
        table.inv(),
        0 <= stick < table.seats(),
    ensures
        match table.sticks[stick].holder {
            Some(who) => 0 <= who < table.seats() && table.actors[who].holds(stick) && (who
                == stick || right_index(who, table.seats()) == stick),
            None => forall|a: int|
                0 <= a < table.seats() ==> !(#[trigger] table.actors[a]).holds(stick),
        },
        table.sticks[stick].inv(),
{
    let n = table.seats();
    lemma_ring(n);
    assert(table.stick_inv(stick));
    let before = seat_before(stick, n);
    assert(table.seat_inv(stick));
    assert(table.seat_inv(before));
    if table.sticks[stick].holder is None {
        assert forall|a: int| 0 <= a < n implies !(#[trigger] table.actors[a]).holds(stick) by {
            assert(table.seat_inv(a));
        }
    }
}

/// No two philosophers that share a stick eat at the same time.
pub proof fn lemma_neighbours_never_eat_together(table: TableView, a: int, b: int)
    requires
        table.inv(),
        0 <= a < table.seats(),
        0 <= b < table.seats(),
        a != b,
        b == right_index(a, table.seats()) || a == right_index(b, table.seats()),
    ensures
        !(table.actors[a].phase == Phase::Acting && table.actors[b].phase == Phase::Acting),
{
    let n = table.seats();
    lemma_ring(n);
    assert(table.seat_inv(a));
    assert(table.seat_inv(b));
    if table.actors[a].phase == Phase::Acting && table.actors[b].phase == Phase::Acting {
        if b == right_index(a, n) {
            lemma_one_holder_per_stick(table, a, b, b);
        } else {
            lemma_one_holder_per_stick(table, a, b, a);
        }
    }
}

/// At a table in order no step breaches the protocol, and the table is in
/// order after it.
pub proof fn lemma_step_keeps_order(table: TableView, i: int)
    requires
        table.inv(),
    ensures
        table.step(i).inv(),
        table.step(i).seats() == table.seats(),
        0 <= i < table.seats() ==> table.transition(i).result is Ok,
{
    let n = table.seats();
    if 0 <= i < n {
        lemma_ring(n);
        let after = table.step(i);
        assert(table.seat_inv(i));
        assert(table.stick_inv(i));
        assert(table.stick_inv(right_index(i, n)));
        assert(table.seat_inv(seat_before(i, n)));
        assert(table.seat_inv(right_index(i, n)));
        assert(table.transition(i).result is Ok);
        assert forall|k: int| 0 <= k < after.seats() implies #[trigger] after.seat_inv(k) by {
            assert(table.seat_inv(k));
        }
        assert forall|j: int| 0 <= j < after.seats() implies #[trigger] after.stick_inv(j) by {
            assert(table.stick_inv(j));
            assert(table.seat_inv(j));
            assert(table.seat_inv(seat_before(j, n)));
        }
    }
}

/// Whatever seats take their steps in whatever order, the table stays in
/// order and keeps its seats.
pub proof fn lemma_schedule_keeps_order(table: TableView, schedule: Seq<int>)
    requires
        table.inv(),
    ensures
        table.replay(schedule).inv(),
        table.replay(schedule).seats() == table.seats(),
    decreases schedule.len(),
{
    if schedule.len() > 0 {
        lemma_step_keeps_order(table, schedule.first());
        lemma_schedule_keeps_order(table.step(schedule.first()), schedule.drop_first());
    }
}

/// At every instant of every run, from a freshly laid table on and whatever
/// the schedule, the table is in order: so no stick is ever in two hands and
/// no two neighbours ever eat at once.
pub proof fn lemma_every_instant_is_safe(seats: nat, rounds: nat, schedule: Seq<int>)
    requires
        2 <= seats,
    ensures
        TableView::laid(seats, rounds).replay(schedule).inv(),
        TableView::laid(seats, rounds).replay(schedule).seats() == seats,
{
    lemma_laid_table_is_in_order(seats, rounds);
    lemma_schedule_keeps_order(TableView::laid(seats, rounds), schedule);
}

/// Release completeness: every stick has been put down as often as it was
/// picked up, but for the one time its holder has it now; and once all
/// philosophers are done, every stick is free and was picked up and put down
/// once for each round of each of its two neighbours.
pub proof fn lemma_every_pickup_is_matched(table: TableView, stick: int)
    requires
        table.inv(),
        0 <= stick < table.seats(),
    ensures
        table.sticks[stick].inv(),
        table.complete() ==> {
            &&& table.sticks[stick].holder is None
            &&& table.sticks[stick].acquired == table.sticks[stick].released
            &&& table.sticks[stick].released == table.left_user(stick).rounds + table.right_user(
                stick,
            ).rounds
        },
{
    let n = table.seats();
    lemma_ring(n);
    assert(table.stick_inv(stick));
    assert(table.seat_inv(stick));
    assert(table.seat_inv(seat_before(stick, n)));
}

} // verus!
