use lorenz::gesture::{CameraGestures, Drag, DragTracker};

type Pointer = (f32, f32);

fn ends(drag: Option<Drag<Pointer>>) -> Option<(Pointer, Pointer)> {
    drag.map(|d| (d.from, d.to))
}

#[test]
fn new_tracker_is_idle() {
    let tracker: DragTracker<Pointer> = DragTracker::new();
    assert!(!tracker.is_dragging());
}

#[test]
fn press_reports_no_movement() {
    let mut tracker: DragTracker<Pointer> = DragTracker::new();
    assert_eq!(ends(tracker.update(Some((10.0, 20.0)))), None);
    assert!(tracker.is_dragging());
}

#[test]
fn held_button_reports_movement_since_the_previous_frame() {
    let mut tracker: DragTracker<Pointer> = DragTracker::new();
    tracker.update(Some((10.0, 20.0)));
    assert_eq!(
        ends(tracker.update(Some((13.0, 18.0)))),
        Some(((10.0, 20.0), (13.0, 18.0)))
    );
    assert_eq!(
        ends(tracker.update(Some((13.0, 25.0)))),
        Some(((13.0, 18.0), (13.0, 25.0)))
    );
    assert_eq!(
        ends(tracker.update(Some((13.0, 25.0)))),
        Some(((13.0, 25.0), (13.0, 25.0)))
    );
}

#[test]
fn release_reports_nothing_and_leaves_the_tracker_idle() {
    let mut tracker: DragTracker<Pointer> = DragTracker::new();
    tracker.update(Some((1.0, 1.0)));
    tracker.update(Some((2.0, 2.0)));
    assert_eq!(ends(tracker.update(None)), None);
    assert!(!tracker.is_dragging());
    assert_eq!(ends(tracker.update(None)), None);
    assert!(!tracker.is_dragging());
}

#[test]
fn press_after_release_reports_no_movement() {
    let mut tracker: DragTracker<Pointer> = DragTracker::new();
    tracker.update(Some((100.0, 100.0)));
    tracker.update(Some((110.0, 90.0)));
    tracker.update(None);
    assert_eq!(ends(tracker.update(Some((400.0, 300.0)))), None);
    assert_eq!(
        ends(tracker.update(Some((401.0, 300.0)))),
        Some(((400.0, 300.0), (401.0, 300.0)))
    );
}

#[test]
fn new_camera_gestures_report_nothing_on_the_first_frame() {
    let mut gestures: CameraGestures<Pointer> = CameraGestures::new();
    let motion = gestures.update(Some((5.0, 5.0)), Some((5.0, 5.0)));
    assert_eq!(ends(motion.orbit), None);
    assert_eq!(ends(motion.pan), None);
}

#[test]
fn orbit_and_pan_are_tracked_independently() {
    let mut gestures: CameraGestures<Pointer> = CameraGestures::new();
    gestures.update(Some((0.0, 0.0)), None);
    let motion = gestures.update(Some((3.0, 4.0)), Some((3.0, 4.0)));
    assert_eq!(ends(motion.orbit), Some(((0.0, 0.0), (3.0, 4.0))));
    assert_eq!(ends(motion.pan), None);

    let motion = gestures.update(None, Some((6.0, 8.0)));
    assert_eq!(ends(motion.orbit), None);
    assert_eq!(ends(motion.pan), Some(((3.0, 4.0), (6.0, 8.0))));

    let motion = gestures.update(Some((9.0, 9.0)), Some((7.0, 8.0)));
    assert_eq!(ends(motion.orbit), None);
    assert_eq!(ends(motion.pan), Some(((6.0, 8.0), (7.0, 8.0))));

    let motion = gestures.update(None, None);
    assert_eq!(ends(motion.orbit), None);
    assert_eq!(ends(motion.pan), None);
}

#[test]
fn orbit_press_after_release_gives_no_jump() {
    let mut gestures: CameraGestures<Pointer> = CameraGestures::new();
    gestures.update(Some((10.0, 10.0)), None);
    gestures.update(Some((20.0, 15.0)), None);
    gestures.update(None, None);
    let motion = gestures.update(Some((500.0, 400.0)), None);
    assert_eq!(ends(motion.orbit), None);
    let motion = gestures.update(Some((505.0, 400.0)), None);
    assert_eq!(ends(motion.orbit), Some(((500.0, 400.0), (505.0, 400.0))));
}
