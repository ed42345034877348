//! Drag gestures that steer an orbit camera.
//!
//! Each frame the front end reports, for each of two buttons, where the
//! pointer is while the button is held. The trackers here decide whether
//! that frame continues a drag, and between which two pointer samples, and
//! remember the sample for the next frame. Turning a drag into a change of
//! yaw, pitch or look-at target is left to the front end.
use vstd::prelude::*;

verus! {

/// The pointer movement of one frame of a drag: from the sample of the
/// previous frame to the sample of this one.
#[derive(Debug)]
pub struct Drag<P> {
    pub from: P,
    pub to: P,
}

impl<P: Copy> Clone for Drag<P> {
    fn clone(&self) -> (copy: Self)
        ensures
            copy == *self,
    {
        *self
    }
}

impl<P: Copy> Copy for Drag<P> {

}

/// The movement that a frame reports, given the sample `last` remembered
/// from the frame before and the pointer position `held` of this frame
/// (`None` while the button is up). There is movement only where the button
/// was down in both frames.
pub open spec fn drag_between<P>(last: Option<P>, held: Option<P>) -> Option<Drag<P>> {
    match (last, held) {
        (Some(from), Some(to)) => Some(Drag { from, to }),
        _ => None,
    }
}

/// The sample that a tracker remembers after a frame: the pointer position
/// of that frame while the button is down, and nothing once it is up,
/// whatever was remembered before.
pub open spec fn remembered_after<P>(last: Option<P>, held: Option<P>) -> Option<P> {
    held
}

/// One button's gesture: idle, or dragging from a remembered sample.
pub struct DragTracker<P> {
    last: Option<P>,
}

impl<P> View for DragTracker<P> {
    type V = Option<P>;

    /// The remembered sample: `None` while idle.
    closed spec fn view(&self) -> Option<P> {
        self.last
    }
}

impl<P: Copy> DragTracker<P> {
    /// An idle tracker.
    pub fn new() -> (tracker: Self)
        ensures
            tracker@ is None,
    {
        DragTracker { last: None }
    }

    /// Whether a sample is remembered, so that the next frame with the
    /// button down reports movement.
    pub fn is_dragging(&self) -> (dragging: bool)
        ensures
            dragging == (self@ is Some),
    {
        self.last.is_some()
    }

    /// Takes one frame's reading of the button: `held` is the pointer
    /// position while the button is down and `None` while it is up. Returns
    /// the movement since the previous frame, and remembers `held` in place
    /// of the earlier sample, so that a release leaves the tracker idle.
    pub fn update(&mut self, held: Option<P>) -> (drag: Option<Drag<P>>)
        ensures
            drag == drag_between(old(self)@, held),
            final(self)@ == remembered_after(old(self)@, held),
    {
        let drag = match (self.last, held) {
            (Some(from), Some(to)) => Some(Drag { from, to }),
            _ => None,
        };
        self.last = held;
        drag
    }
}

/// What one frame asks of the camera. The orbit movement is to be applied
/// before the pan movement.
#[derive(Debug)]
pub struct CameraMotion<P> {
    /// Movement of the orbit drag, which turns the camera.
    pub orbit: Option<Drag<P>>,
    /// Movement of the pan drag, which shifts the look-at target.
    pub pan: Option<Drag<P>>,
}

impl<P: Copy> Clone for CameraMotion<P> {
    fn clone(&self) -> (copy: Self)
        ensures
            copy == *self,
    {
        *self
    }
}

impl<P: Copy> Copy for CameraMotion<P> {

}

/// The remembered samples of the two camera gestures.
pub struct CameraGesturesView<P> {
    pub orbit: Option<P>,
    pub pan: Option<P>,
}

/// The two gestures of an orbit camera, tracked independently: orbit on the
/// primary button and pan on the secondary one.
pub struct CameraGestures<P> {
    orbit: DragTracker<P>,
    pan: DragTracker<P>,
}

impl<P> View for CameraGestures<P> {
    type V = CameraGesturesView<P>;

    closed spec fn view(&self) -> CameraGesturesView<P> {
        CameraGesturesView { orbit: self.orbit@, pan: self.pan@ }
    }
}

impl<P: Copy> CameraGestures<P> {
    /// Both gestures idle.
    pub fn new() -> (gestures: Self)
        ensures
            gestures@.orbit is None,
            gestures@.pan is None,
    {
        CameraGestures { orbit: DragTracker::new(), pan: DragTracker::new() }
    }

    /// Takes one frame's reading of both buttons, each as in
    /// [`DragTracker::update`], and returns what the frame asks of the
    /// camera.
    pub fn update(&mut self, orbit_held: Option<P>, pan_held: Option<P>) -> (motion: CameraMotion<P>)
        ensures
            motion.orbit == drag_between(old(self)@.orbit, orbit_held),
            motion.pan == drag_between(old(self)@.pan, pan_held),
            final(self)@.orbit == remembered_after(old(self)@.orbit, orbit_held),
            final(self)@.pan == remembered_after(old(self)@.pan, pan_held),
    {
        let orbit = self.orbit.update(orbit_held);
        let pan = self.pan.update(pan_held);
        CameraMotion { orbit, pan }
    }
}

/// A press that follows a release reports no movement, wherever the pointer
/// was before the release and wherever it is at the press: the frame with
/// the button up reports nothing and forgets what was remembered, so the
/// frame of the press has nothing to measure from.
pub proof fn lemma_press_after_release_reports_nothing<P>(last: Option<P>, pressed_at: P)
    ensures
        drag_between(last, None) is None,
        remembered_after(last, None) is None,
        drag_between(remembered_after(last, None), Some(pressed_at)) is None,
{
}

/// While the button stays down, each frame measures from the sample of the
/// frame before: the frame after a press at `first` reports the movement
/// from `first` to where the pointer is then.
pub proof fn lemma_drag_measures_from_previous_frame<P>(last: Option<P>, first: P, second: P)
    ensures
        drag_between(remembered_after(last, Some(first)), Some(second)) == Some(
            Drag { from: first, to: second },
        ),
{
}

} // verus!
