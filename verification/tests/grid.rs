use dermixen_app::grid::{arrow_step, Adjustments};

#[test]
fn an_arrow_key_moves_the_grid_by_one_ten_or_a_hundred_frames() {
    assert_eq!(arrow_step(false, false).0, 1);
    assert_eq!(arrow_step(false, true).0, 1);
    assert_eq!(arrow_step(true, false).0, 10);
    assert_eq!(arrow_step(true, true).0, 100);
}

/// A grid as the editor holds it: a tempo and the frame of beat zero.
type Grid = (f64, i64);

#[test]
fn undo_and_redo_walk_the_adjustments_back_and_forth() {
    let mut record: Adjustments<Grid> = Adjustments::new();
    assert!(!record.can_undo());
    assert!(!record.can_redo());
    let first: Grid = (128.0, 0);
    let second: Grid = (128.0, 10);
    let third: Grid = (64.0, 10);
    record.adjusted(first, true);
    record.adjusted(second, true);
    assert!(record.can_undo());
    assert_eq!(record.undo(third), Some(second));
    assert!(record.can_redo());
    assert_eq!(record.undo(second), Some(first));
    assert_eq!(record.undo(first), None);
    assert_eq!(record.redo(first), Some(second));
    assert_eq!(record.redo(second), Some(third));
    assert_eq!(record.redo(third), None);
}

#[test]
fn a_gesture_that_changes_nothing_is_no_adjustment() {
    let mut record: Adjustments<Grid> = Adjustments::new();
    record.adjusted((120.0, 5), false);
    assert!(!record.can_undo());
}

#[test]
fn an_adjustment_after_an_undo_drops_what_could_be_redone() {
    let mut record: Adjustments<Grid> = Adjustments::new();
    record.adjusted((120.0, 0), true);
    assert_eq!(record.undo((120.0, 3)), Some((120.0, 0)));
    assert!(record.can_redo());
    record.adjusted((120.0, 0), true);
    assert!(!record.can_redo());
    assert_eq!(record.redo((60.0, 0)), None);
}

#[test]
fn a_grid_replaced_from_outside_forgets_every_adjustment() {
    let mut record: Adjustments<Grid> = Adjustments::new();
    record.adjusted((120.0, 0), true);
    record.adjusted((120.0, 1), true);
    assert_eq!(record.undo((120.0, 2)), Some((120.0, 1)));
    record.forget();
    assert!(!record.can_undo());
    assert!(!record.can_redo());
}
