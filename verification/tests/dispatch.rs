use tern::dispatch::{workers, Dispatch, Slot};
use tern::fault::FaultKind;
use tern::conversion::Outcome;

#[test]
fn new_run_has_every_unit_queued() {
    let run = Dispatch::new(3);
    assert_eq!(run.total(), 3);
    assert!(!run.is_cancelled());
    assert!(!run.is_drained());
    assert_eq!(run.tally(Slot::Queued), 3);
    assert_eq!(run.slot(0), Some(Slot::Queued));
    assert_eq!(run.slot(3), None);
}

#[test]
fn empty_run_is_drained_at_once() {
    let mut run = Dispatch::new(0);
    assert!(run.is_drained());
    assert_eq!(run.next(false), None);
}

#[test]
fn units_are_handed_out_in_order() {
    let mut run = Dispatch::new(3);
    assert_eq!(run.next(false), Some(0));
    assert_eq!(run.next(false), Some(1));
    assert_eq!(run.next(false), Some(2));
    assert_eq!(run.next(false), None);
    assert_eq!(run.tally(Slot::Running), 3);
    assert!(!run.is_drained());
}

#[test]
fn finished_units_are_counted() {
    let mut run = Dispatch::new(3);
    assert_eq!(run.next(false), Some(0));
    assert_eq!(run.next(false), Some(1));
    assert!(run.finish(1, Outcome::Declined));
    assert!(run.finish(0, Outcome::Converted));
    assert_eq!(run.next(false), Some(2));
    assert!(run.finish(2, Outcome::Faulted(FaultKind::Engine)));
    assert_eq!(run.slot(0), Some(Slot::Done(Outcome::Converted)));
    assert_eq!(run.slot(1), Some(Slot::Done(Outcome::Declined)));
    assert_eq!(run.slot(2), Some(Slot::Done(Outcome::Faulted(FaultKind::Engine))));
    assert_eq!(run.tally(Slot::Done(Outcome::Converted)), 1);
    assert_eq!(run.tally(Slot::Running), 0);
    assert!(run.is_drained());
}

#[test]
fn only_a_running_unit_can_finish() {
    let mut run = Dispatch::new(2);
    assert!(!run.finish(0, Outcome::Converted));
    assert!(!run.finish(5, Outcome::Converted));
    assert_eq!(run.next(false), Some(0));
    assert!(run.finish(0, Outcome::Converted));
    assert!(!run.finish(0, Outcome::Declined));
    assert_eq!(run.slot(0), Some(Slot::Done(Outcome::Converted)));
    assert_eq!(run.slot(1), Some(Slot::Queued));
}

#[test]
fn cancelled_run_starts_nothing_but_drains() {
    let mut run = Dispatch::new(4);
    assert_eq!(run.next(false), Some(0));
    assert_eq!(run.next(false), Some(1));
    assert_eq!(run.next(true), None);
    assert!(run.is_cancelled());
    assert_eq!(run.next(false), None);
    assert!(!run.is_drained());
    assert!(run.finish(0, Outcome::Converted));
    assert!(run.finish(1, Outcome::Converted));
    assert!(run.is_drained());
    assert_eq!(run.next(false), None);
    assert_eq!(run.tally(Slot::Done(Outcome::Converted)), 2);
    assert_eq!(run.tally(Slot::Queued), 2);
    assert_eq!(run.slot(2), Some(Slot::Queued));
    assert_eq!(run.slot(3), Some(Slot::Queued));
}

#[test]
fn cancel_is_set_once_and_stays() {
    let mut run = Dispatch::new(1);
    run.cancel();
    assert!(run.is_cancelled());
    run.cancel();
    assert!(run.is_cancelled());
    assert_eq!(run.next(false), None);
    assert!(run.is_cancelled());
    assert!(run.is_drained());
    assert_eq!(run.slot(0), Some(Slot::Queued));
}

#[test]
fn cancel_before_the_first_unit_starts_nothing() {
    let mut run = Dispatch::new(2);
    assert_eq!(run.next(true), None);
    assert_eq!(run.tally(Slot::Queued), 2);
    assert!(run.is_drained());
}

#[test]
fn one_worker_in_sequence_and_the_machines_in_parallel() {
    assert_eq!(workers(false, 8), 1);
    assert_eq!(workers(false, 0), 1);
    assert_eq!(workers(true, 8), 8);
    assert_eq!(workers(true, 1), 1);
    assert_eq!(workers(true, 0), 1);
}
