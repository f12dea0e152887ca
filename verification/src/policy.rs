//! The ring of seats and sticks, and the ordering policy that decides which of
//! an actor's two sticks is picked up first.
//!
//! Stick `j` lies between seat `j` (as its left stick) and the seat before it
//! (as its right stick). Every actor picks up the stick with the smaller index
//! first, whatever side it lies on: with one order shared by all actors no
//! cycle of actors waiting for each other can form.

use vstd::prelude::*;

verus! {

/// The smallest table the protocol is defined for.
pub const MIN_SEATS: usize = 2;

/// Index of the stick to the right of seat `id` at a table of `n` seats.
pub open spec fn right_index(id: int, n: int) -> int {
    (id + 1) % n
}

/// Index of the seat whose right stick is stick `j` at a table of `n` seats.
pub open spec fn seat_before(j: int, n: int) -> int {
    (j + n - 1) % n
}

/// The index picked up first of the two: the smaller one.
pub open spec fn first_index(left: int, right: int) -> int {
    if left <= right {
        left
    } else {
        right
    }
}

/// The index picked up second of the two: the larger one.
pub open spec fn second_index(left: int, right: int) -> int {
    if left <= right {
        right
    } else {
        left
    }
}

/// The stick to the right of seat `id`: the next index round the table.
pub fn right_of(id: usize, n: usize) -> (right: usize)
    requires
        id < n,
    ensures
        right == right_index(id as int, n as int),
        right < n,
{
    (id + 1) % n
}

/// The order in which two sticks are picked up: the smaller index first, the
/// larger second. The side a stick lies on plays no part.
pub fn acquisition_order(left: usize, right: usize) -> (order: (usize, usize))
    ensures
        order.0 == first_index(left as int, right as int),
        order.1 == second_index(left as int, right as int),
{
    if left <= right {
        (left, right)
    } else {
        (right, left)
    }
}

/// The first stick is never the larger of the two, and both are among the two
/// given.
pub proof fn lemma_order_is_numeric(left: int, right: int)
    ensures
        first_index(left, right) <= second_index(left, right),
        first_index(left, right) <= left,
        first_index(left, right) <= right,
        first_index(left, right) == left && second_index(left, right) == right
            || first_index(left, right) == right && second_index(left, right) == left,
        first_index(left, right) == first_index(right, left),
        second_index(left, right) == second_index(right, left),
{
}

/// Round a table of `n` seats, the stick to the right of a seat is the next
/// one, the seat before a stick is the previous one, and the last and the
/// first close the ring.
pub proof fn lemma_ring(n: int)
    requires
        2 <= n,
    ensures
        forall|i: int|
            0 <= i < n ==> #[trigger] right_index(i, n) == if i + 1 == n {
                0
            } else {
                i + 1
            },
        forall|j: int|
            0 <= j < n ==> #[trigger] seat_before(j, n) == if j == 0 {
                n - 1
            } else {
                j - 1
            },
{
    assert forall|i: int| 0 <= i < n implies #[trigger] right_index(i, n) == if i + 1 == n {
        0
    } else {
        i + 1
    } by {
        if i + 1 == n {
            assert((i + 1) % n == 0) by (nonlinear_arith)
                requires
                    i + 1 == n,
                    n > 0,
            ;
        } else {
            assert((i + 1) % n == i + 1) by (nonlinear_arith)
                requires
                    0 <= i + 1 < n,
            ;
        }
    }
    assert forall|j: int| 0 <= j < n implies #[trigger] seat_before(j, n) == if j == 0 {
        n - 1
    } else {
        j - 1
    } by {
        if j == 0 {
            assert((j + n - 1) % n == n - 1) by (nonlinear_arith)
                requires
                    j == 0,
                    n > 0,
            ;
        } else {
            assert((j + n - 1) % n == j - 1) by (nonlinear_arith)
                requires
                    0 < j < n,
            ;
        }
    }
}

/// At a table of at least two seats the two sticks of a seat differ, the one
/// picked up first has the strictly smaller index, and only the last seat,
/// whose right stick wraps round to index 0, starts with its right stick.
pub proof fn lemma_lower_stick_first(n: int, id: int)
    requires
        2 <= n,
        0 <= id < n,
    ensures
        0 <= right_index(id, n) < n,
        right_index(id, n) != id,
        first_index(id, right_index(id, n)) < second_index(id, right_index(id, n)),
        id < n - 1 ==> first_index(id, right_index(id, n)) == id && second_index(
            id,
            right_index(id, n),
        ) == id + 1,
        id == n - 1 ==> first_index(id, right_index(id, n)) == 0 && second_index(
            id,
            right_index(id, n),
        ) == n - 1,
{
    lemma_ring(n);
}

} // verus!
