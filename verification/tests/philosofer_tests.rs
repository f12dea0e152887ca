use dining_philosophers::philosofer::{Phase, Philosofer, Step, DEFAULT_ROUNDS};
use dining_philosophers::stick::{Attempt, ProtocolViolation, Stick};

fn seated(left: usize, right: usize) -> Philosofer {
    Philosofer::new(String::from("Platon"), left, right)
}

#[test]
fn a_new_philosopher_thinks_and_has_three_rounds_to_eat() {
    let philosofer = seated(1, 2);
    assert_eq!(philosofer.get_name(), "Platon");
    assert_eq!(philosofer.id(), 1);
    assert_eq!(philosofer.left(), 1);
    assert_eq!(philosofer.right(), 2);
    assert_eq!(philosofer.phase(), Phase::Thinking);
    assert_eq!(philosofer.completed(), 0);
    assert_eq!(philosofer.rounds(), 3);
    assert_eq!(DEFAULT_ROUNDS, 3);
    assert!(!philosofer.is_done());
}

#[test]
fn a_philosopher_with_no_round_to_eat_is_done_at_once() {
    let mut philosofer = Philosofer::with_rounds(String::from("Zenon"), 0, 1, 0);
    assert_eq!(philosofer.phase(), Phase::Done);
    assert!(philosofer.is_done());
    let mut first = Stick::new(0);
    let mut second = Stick::new(1);
    assert_eq!(philosofer.step(&mut first, &mut second), Ok(Step::Finished));
    assert_eq!(philosofer.try_to_eat(&mut first, &mut second), Ok(false));
    assert_eq!(philosofer.think(), Err(ProtocolViolation::OutOfSequence));
    assert_eq!(philosofer.phase(), Phase::Done);
}

#[test]
fn with_rounds_keeps_what_it_is_given() {
    let philosofer = Philosofer::with_rounds(String::from("Tales"), 7, 8, 12);
    assert_eq!(philosofer.get_name(), "Tales");
    assert_eq!(philosofer.left(), 7);
    assert_eq!(philosofer.right(), 8);
    assert_eq!(philosofer.rounds(), 12);
    assert_eq!(philosofer.phase(), Phase::Thinking);
}

#[test]
fn the_first_stick_is_the_lower_one_on_either_side() {
    let inner = seated(2, 3);
    assert_eq!((inner.first(), inner.second()), (2, 3));
    let last = seated(4, 0);
    assert_eq!((last.first(), last.second()), (0, 4));
}

#[test]
fn a_round_goes_through_every_phase_in_order() {
    let mut philosofer = seated(4, 0);
    let mut first = Stick::new(0);
    let mut second = Stick::new(4);

    assert_eq!(philosofer.think(), Ok(()));
    assert_eq!(philosofer.phase(), Phase::AcquiringFirst);
    assert!(!philosofer.holds(0));
    assert!(!philosofer.holds(4));

    assert_eq!(philosofer.take_first(&mut first), Ok(Attempt::Granted));
    assert_eq!(philosofer.phase(), Phase::AcquiringSecond);
    assert_eq!(first.holder(), Some(4));
    assert!(philosofer.holds(0));
    assert!(!philosofer.holds(4));

    assert_eq!(philosofer.take_second(&mut second), Ok(Attempt::Granted));
    assert_eq!(philosofer.phase(), Phase::Acting);
    assert_eq!(second.holder(), Some(4));
    assert!(philosofer.holds(0));
    assert!(philosofer.holds(4));
    assert!(!philosofer.holds(1));

    assert_eq!(philosofer.eat(), Ok(()));
    assert_eq!(philosofer.phase(), Phase::Releasing);
    assert!(philosofer.holds(0));
    assert!(philosofer.holds(4));
    assert_eq!(philosofer.completed(), 0);

    assert_eq!(philosofer.put_down(&mut first, &mut second), Ok(()));
    assert_eq!(philosofer.phase(), Phase::Thinking);
    assert_eq!(philosofer.completed(), 1);
    assert!(first.is_free());
    assert!(second.is_free());
    assert_eq!(first.acquire_count(), 1);
    assert_eq!(first.release_count(), 1);
    assert_eq!(second.acquire_count(), 1);
    assert_eq!(second.release_count(), 1);
    assert!(!philosofer.holds(0));
}

#[test]
fn the_last_round_ends_in_done() {
    let mut philosofer = Philosofer::with_rounds(String::from("Hipatia"), 0, 1, 1);
    let mut first = Stick::new(0);
    let mut second = Stick::new(1);
    assert_eq!(philosofer.think(), Ok(()));
    assert_eq!(philosofer.take_first(&mut first), Ok(Attempt::Granted));
    assert_eq!(philosofer.take_second(&mut second), Ok(Attempt::Granted));
    assert_eq!(philosofer.eat(), Ok(()));
    assert_eq!(philosofer.put_down(&mut first, &mut second), Ok(()));
    assert_eq!(philosofer.phase(), Phase::Done);
    assert!(philosofer.is_done());
    assert_eq!(philosofer.completed(), 1);
}

#[test]
fn thinking_out_of_turn_is_refused() {
    let mut philosofer = seated(0, 1);
    assert_eq!(philosofer.think(), Ok(()));
    assert_eq!(philosofer.think(), Err(ProtocolViolation::OutOfSequence));
    assert_eq!(philosofer.phase(), Phase::AcquiringFirst);
}

#[test]
fn eating_without_both_sticks_is_refused() {
    let mut philosofer = seated(0, 1);
    let mut first = Stick::new(0);
    assert_eq!(philosofer.eat(), Err(ProtocolViolation::OutOfSequence));
    assert_eq!(philosofer.phase(), Phase::Thinking);
    assert_eq!(philosofer.think(), Ok(()));
    assert_eq!(philosofer.eat(), Err(ProtocolViolation::OutOfSequence));
    assert_eq!(philosofer.take_first(&mut first), Ok(Attempt::Granted));
    assert_eq!(philosofer.eat(), Err(ProtocolViolation::OutOfSequence));
    assert_eq!(philosofer.phase(), Phase::AcquiringSecond);
}

#[test]
fn taking_a_stick_out_of_turn_is_refused() {
    let mut philosofer = seated(0, 1);
    let mut first = Stick::new(0);
    let mut second = Stick::new(1);
    assert_eq!(philosofer.take_first(&mut first), Err(ProtocolViolation::OutOfSequence));
    assert_eq!(philosofer.take_second(&mut second), Err(ProtocolViolation::OutOfSequence));
    assert!(first.is_free());
    assert!(second.is_free());
    assert_eq!(philosofer.think(), Ok(()));
    assert_eq!(philosofer.take_second(&mut second), Err(ProtocolViolation::OutOfSequence));
    assert!(second.is_free());
    assert_eq!(philosofer.take_first(&mut first), Ok(Attempt::Granted));
    assert_eq!(philosofer.take_first(&mut first), Err(ProtocolViolation::OutOfSequence));
    assert_eq!(first.acquire_count(), 1);
}

#[test]
fn the_higher_stick_cannot_be_taken_first() {
    let mut philosofer = seated(4, 0);
    let mut left = Stick::new(4);
    assert_eq!(philosofer.think(), Ok(()));
    assert_eq!(philosofer.take_first(&mut left), Err(ProtocolViolation::WrongStick));
    assert!(left.is_free());
    assert_eq!(left.acquire_count(), 0);
    assert_eq!(philosofer.phase(), Phase::AcquiringFirst);
}

#[test]
fn a_strange_stick_is_refused() {
    let mut philosofer = seated(1, 2);
    let mut first = Stick::new(1);
    let mut strange = Stick::new(3);
    assert_eq!(philosofer.think(), Ok(()));
    assert_eq!(philosofer.take_first(&mut strange), Err(ProtocolViolation::WrongStick));
    assert_eq!(philosofer.take_first(&mut first), Ok(Attempt::Granted));
    assert_eq!(philosofer.take_second(&mut strange), Err(ProtocolViolation::WrongStick));
    assert_eq!(philosofer.take_second(&mut first), Err(ProtocolViolation::WrongStick));
    assert!(strange.is_free());
    assert_eq!(philosofer.phase(), Phase::AcquiringSecond);
}

#[test]
fn a_busy_stick_makes_the_philosopher_wait() {
    let mut philosofer = seated(1, 2);
    let mut first = Stick::new(1);
    let mut second = Stick::new(2);
    assert_eq!(first.acquire(0), Ok(Attempt::Granted));
    assert_eq!(philosofer.think(), Ok(()));
    assert_eq!(philosofer.take_first(&mut first), Ok(Attempt::Busy));
    assert_eq!(philosofer.phase(), Phase::AcquiringFirst);
    assert_eq!(first.holder(), Some(0));
    assert_eq!(first.release(0), Ok(()));
    assert_eq!(philosofer.take_first(&mut first), Ok(Attempt::Granted));
    assert_eq!(second.acquire(2), Ok(Attempt::Granted));
    assert_eq!(philosofer.take_second(&mut second), Ok(Attempt::Busy));
    assert_eq!(philosofer.phase(), Phase::AcquiringSecond);
    assert_eq!(second.holder(), Some(2));
    assert_eq!(first.holder(), Some(1));
}

#[test]
fn a_stick_already_in_hand_is_a_violation() {
    let mut philosofer = seated(1, 2);
    let mut first = Stick::new(1);
    assert_eq!(first.acquire(1), Ok(Attempt::Granted));
    assert_eq!(philosofer.think(), Ok(()));
    assert_eq!(philosofer.take_first(&mut first), Err(ProtocolViolation::AlreadyHolding));
    assert_eq!(philosofer.phase(), Phase::AcquiringFirst);
    assert_eq!(first.acquire_count(), 1);
}

#[test]
fn putting_down_out_of_turn_is_refused() {
    let mut philosofer = seated(0, 1);
    let mut first = Stick::new(0);
    let mut second = Stick::new(1);
    assert_eq!(philosofer.put_down(&mut first, &mut second), Err(ProtocolViolation::OutOfSequence));
    assert_eq!(philosofer.think(), Ok(()));
    assert_eq!(philosofer.take_first(&mut first), Ok(Attempt::Granted));
    assert_eq!(philosofer.take_second(&mut second), Ok(Attempt::Granted));
    assert_eq!(philosofer.put_down(&mut first, &mut second), Err(ProtocolViolation::OutOfSequence));
    assert_eq!(first.holder(), Some(0));
    assert_eq!(second.holder(), Some(0));
    assert_eq!(philosofer.phase(), Phase::Acting);
}

#[test]
fn putting_down_the_wrong_sticks_is_refused() {
    let mut philosofer = seated(0, 1);
    let mut first = Stick::new(0);
    let mut second = Stick::new(1);
    assert_eq!(philosofer.think(), Ok(()));
    assert_eq!(philosofer.take_first(&mut first), Ok(Attempt::Granted));
    assert_eq!(philosofer.take_second(&mut second), Ok(Attempt::Granted));
    assert_eq!(philosofer.eat(), Ok(()));
    assert_eq!(philosofer.put_down(&mut second, &mut first), Err(ProtocolViolation::WrongStick));
    assert_eq!(philosofer.phase(), Phase::Releasing);
    assert_eq!(first.holder(), Some(0));
    assert_eq!(second.holder(), Some(0));
    assert_eq!(philosofer.completed(), 0);
    assert_eq!(philosofer.put_down(&mut first, &mut second), Ok(()));
}

#[test]
fn putting_down_a_stick_in_another_hand_is_refused() {
    let mut philosofer = seated(0, 1);
    let mut first = Stick::new(0);
    let mut second = Stick::new(1);
    assert_eq!(philosofer.think(), Ok(()));
    assert_eq!(philosofer.take_first(&mut first), Ok(Attempt::Granted));
    assert_eq!(philosofer.take_second(&mut second), Ok(Attempt::Granted));
    assert_eq!(philosofer.eat(), Ok(()));
    let mut stolen = Stick::new(1);
    assert_eq!(stolen.acquire(1), Ok(Attempt::Granted));
    assert_eq!(philosofer.put_down(&mut first, &mut stolen), Err(ProtocolViolation::NotHolder));
    assert_eq!(first.holder(), Some(0));
    assert_eq!(first.release_count(), 0);
    assert_eq!(stolen.holder(), Some(1));
    assert_eq!(philosofer.phase(), Phase::Releasing);
    let mut free = Stick::new(1);
    assert_eq!(philosofer.put_down(&mut first, &mut free), Err(ProtocolViolation::NotHolder));
    assert_eq!(first.holder(), Some(0));
    assert_eq!(philosofer.completed(), 0);
}

#[test]
fn step_makes_the_transition_that_is_due() {
    let mut philosofer = Philosofer::with_rounds(String::from("Safo"), 2, 3, 2);
    let mut first = Stick::new(2);
    let mut second = Stick::new(3);
    let expected = [
        Step::Entered(Phase::AcquiringFirst),
        Step::Entered(Phase::AcquiringSecond),
        Step::Entered(Phase::Acting),
        Step::Entered(Phase::Releasing),
        Step::Entered(Phase::Thinking),
        Step::Entered(Phase::AcquiringFirst),
        Step::Entered(Phase::AcquiringSecond),
        Step::Entered(Phase::Acting),
        Step::Entered(Phase::Releasing),
        Step::Entered(Phase::Done),
        Step::Finished,
        Step::Finished,
    ];
    for step in expected {
        assert_eq!(philosofer.step(&mut first, &mut second), Ok(step));
    }
    assert_eq!(philosofer.completed(), 2);
    assert_eq!(first.acquire_count(), 2);
    assert_eq!(first.release_count(), 2);
    assert_eq!(second.acquire_count(), 2);
    assert_eq!(second.release_count(), 2);
}

#[test]
fn step_waits_where_a_stick_is_busy() {
    let mut philosofer = seated(2, 3);
    let mut first = Stick::new(2);
    let mut second = Stick::new(3);
    assert_eq!(first.acquire(1), Ok(Attempt::Granted));
    assert_eq!(philosofer.step(&mut first, &mut second), Ok(Step::Entered(Phase::AcquiringFirst)));
    assert_eq!(philosofer.step(&mut first, &mut second), Ok(Step::Waiting));
    assert_eq!(philosofer.step(&mut first, &mut second), Ok(Step::Waiting));
    assert_eq!(philosofer.phase(), Phase::AcquiringFirst);
    assert_eq!(first.release(1), Ok(()));
    assert_eq!(second.acquire(3), Ok(Attempt::Granted));
    assert_eq!(philosofer.step(&mut first, &mut second), Ok(Step::Entered(Phase::AcquiringSecond)));
    assert_eq!(philosofer.step(&mut first, &mut second), Ok(Step::Waiting));
    assert_eq!(philosofer.phase(), Phase::AcquiringSecond);
    assert_eq!(second.release(3), Ok(()));
    assert_eq!(philosofer.step(&mut first, &mut second), Ok(Step::Entered(Phase::Acting)));
}

#[test]
fn step_reports_a_violation_and_changes_nothing() {
    let mut philosofer = seated(2, 3);
    let mut first = Stick::new(2);
    let mut second = Stick::new(3);
    assert_eq!(philosofer.step(&mut second, &mut first), Ok(Step::Entered(Phase::AcquiringFirst)));
    assert_eq!(philosofer.step(&mut second, &mut first), Err(ProtocolViolation::WrongStick));
    assert_eq!(philosofer.phase(), Phase::AcquiringFirst);
    assert!(first.is_free());
    assert!(second.is_free());
}

#[test]
fn try_to_eat_closes_a_round_when_both_sticks_are_free() {
    let mut philosofer = seated(4, 0);
    let mut first = Stick::new(0);
    let mut second = Stick::new(4);
    assert_eq!(philosofer.try_to_eat(&mut first, &mut second), Ok(true));
    assert_eq!(philosofer.phase(), Phase::Thinking);
    assert_eq!(philosofer.completed(), 1);
    assert!(first.is_free());
    assert!(second.is_free());
    assert_eq!(first.acquire_count(), 1);
    assert_eq!(second.acquire_count(), 1);
    assert_eq!(philosofer.try_to_eat(&mut first, &mut second), Ok(true));
    assert_eq!(philosofer.try_to_eat(&mut first, &mut second), Ok(true));
    assert_eq!(philosofer.phase(), Phase::Done);
    assert_eq!(philosofer.completed(), 3);
    assert_eq!(philosofer.try_to_eat(&mut first, &mut second), Ok(false));
    assert_eq!(first.acquire_count(), 3);
    assert_eq!(first.release_count(), 3);
    assert_eq!(second.acquire_count(), 3);
    assert_eq!(second.release_count(), 3);
}

#[test]
fn try_to_eat_stops_where_it_has_to_wait_and_goes_on_later() {
    let mut philosofer = seated(1, 2);
    let mut first = Stick::new(1);
    let mut second = Stick::new(2);
    assert_eq!(second.acquire(2), Ok(Attempt::Granted));
    assert_eq!(philosofer.try_to_eat(&mut first, &mut second), Ok(false));
    assert_eq!(philosofer.phase(), Phase::AcquiringSecond);
    assert_eq!(first.holder(), Some(1));
    assert_eq!(philosofer.completed(), 0);
    assert_eq!(philosofer.try_to_eat(&mut first, &mut second), Ok(false));
    assert_eq!(second.release(2), Ok(()));
    assert_eq!(philosofer.try_to_eat(&mut first, &mut second), Ok(true));
    assert_eq!(philosofer.completed(), 1);
    assert_eq!(philosofer.phase(), Phase::Thinking);
    assert!(first.is_free());
    assert!(second.is_free());
    assert_eq!(first.acquire_count(), 1);
    assert_eq!(second.acquire_count(), 2);
}

#[test]
fn try_to_eat_waits_for_the_first_stick_holding_nothing() {
    let mut philosofer = seated(1, 2);
    let mut first = Stick::new(1);
    let mut second = Stick::new(2);
    assert_eq!(first.acquire(0), Ok(Attempt::Granted));
    assert_eq!(philosofer.try_to_eat(&mut first, &mut second), Ok(false));
    assert_eq!(philosofer.phase(), Phase::AcquiringFirst);
    assert!(second.is_free());
    assert_eq!(first.holder(), Some(0));
}

#[test]
fn try_to_eat_reports_a_violation() {
    let mut philosofer = seated(1, 2);
    let mut first = Stick::new(1);
    let mut second = Stick::new(2);
    assert_eq!(philosofer.try_to_eat(&mut second, &mut first), Err(ProtocolViolation::WrongStick));
    assert_eq!(philosofer.phase(), Phase::AcquiringFirst);
    assert!(first.is_free());
    assert!(second.is_free());
    assert_eq!(first.acquire(1), Ok(Attempt::Granted));
    assert_eq!(
        philosofer.try_to_eat(&mut first, &mut second),
        Err(ProtocolViolation::AlreadyHolding)
    );
}

#[test]
fn a_philosopher_with_the_same_stick_on_both_sides_cannot_take_it_twice() {
    let mut philosofer = seated(0, 0);
    let mut stick = Stick::new(0);
    assert_eq!(philosofer.think(), Ok(()));
    assert_eq!(philosofer.take_first(&mut stick), Ok(Attempt::Granted));
    assert_eq!(philosofer.take_second(&mut stick), Err(ProtocolViolation::AlreadyHolding));
    assert_eq!(philosofer.phase(), Phase::AcquiringSecond);
}
