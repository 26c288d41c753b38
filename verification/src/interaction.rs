//! From input to changes of the view: wheel zoom, drag pan, and when the
//! displayed image has to be renewed.
//!
//! The functions here decide; they do no arithmetic on positions. A pointer
//! position is a value of any copyable type `P` that the caller chooses.

use vstd::prelude::*;

verus! {

/// The vertical movement of the scroll wheel during one frame, by the sign
/// of its delta.
#[derive(Clone, Copy, Debug, PartialEq, Eq)]
pub enum Wheel {
    /// The delta is zero.
    Still,
    /// The delta is positive.
    Up,
    /// The delta is anything else.
    Down,
}

/// A change of the zoom by one step.
#[derive(Clone, Copy, Debug, PartialEq, Eq)]
pub enum Zoom {
    /// The view narrows: the zoom is divided by the zoom factor.
    In,
    /// The view widens: the zoom is multiplied by the zoom factor.
    Out,
}

/// A movement of the pointer while the button is held, which shifts the
/// centre of the view against it.
#[derive(Clone, Copy, Debug, PartialEq)]
pub struct Pan<P> {
    /// Where the pointer was at the frame before.
    pub from: P,
    /// Where the pointer is now.
    pub to: P,
}

/// What one frame reports of the pointer.
#[derive(Clone, Copy, Debug, PartialEq)]
pub struct Pointer<P> {
    /// Whether the primary button is held.
    pub down: bool,
    /// Where the pointer is, if that is known.
    pub position: Option<P>,
}

/// Whether a drag is under way, and where the pointer was last seen in it.
#[derive(Clone, Copy, Debug, PartialEq)]
pub enum Drag<P> {
    /// The button is not held.
    Idle,
    /// The button is held, and the pointer was last seen at `last`.
    Dragging { last: P },
}

/// What the program has to do in one frame, in this order: change the zoom,
/// shift the centre, and load the raster for display. After each of the
/// first two the raster is computed anew.
#[derive(Clone, Copy, Debug, PartialEq)]
pub struct Frame<P> {
    pub zoom: Option<Zoom>,
    pub pan: Option<Pan<P>>,
    pub upload: bool,
}

/// The state of the interaction between two frames.
#[derive(Clone, Copy, Debug, PartialEq)]
pub struct Viewer<P> {
    /// The drag under way, if any.
    pub drag: Drag<P>,
    /// Whether the raster as it stands has been loaded for display.
    pub shown: bool,
}

impl Wheel {
    /// The change of zoom that the wheel asks for: in for a positive delta,
    /// out for a negative one, none while the wheel is still.
    pub open spec fn zoom_of(self) -> Option<Zoom> {
        match self {
            Wheel::Still => None,
            Wheel::Up => Some(Zoom::In),
            Wheel::Down => Some(Zoom::Out),
        }
    }

    /// The change of zoom that the wheel asks for.
    pub fn zoom(self) -> (zoom: Option<Zoom>)
        ensures
            zoom == self.zoom_of(),
    {
        match self {
            Wheel::Still => None,
            Wheel::Up => Some(Zoom::In),
            Wheel::Down => Some(Zoom::Out),
        }
    }
}

impl<P: Copy> Drag<P> {
    /// The drag after a frame with the given pointer: over once the button
    /// is released, unchanged while the position is unknown, and else at the
    /// pointer's position.
    pub open spec fn after(self, pointer: Pointer<P>) -> Drag<P> {
        if !pointer.down {
            Drag::Idle
        } else {
            match pointer.position {
                None => self,
                Some(position) => Drag::Dragging { last: position },
            }
        }
    }

    /// The pan that a frame with the given pointer causes: from the last
    /// position to the new one where the button is held and both are known.
    pub open spec fn pan_of(self, pointer: Pointer<P>) -> Option<Pan<P>> {
        match (self, pointer.position) {
            (Drag::Dragging { last }, Some(position)) if pointer.down => Some(
                Pan { from: last, to: position },
            ),
            _ => None,
        }
    }

    /// Follows the pointer through one frame: the drag as it stands after
    /// the frame, and the pan that the frame causes.
    pub fn track(self, pointer: Pointer<P>) -> (next: (Drag<P>, Option<Pan<P>>))
        ensures
            next.0 == self.after(pointer),
            next.1 == self.pan_of(pointer),
    {
        if !pointer.down {
            return (Drag::Idle, None);
        }
        match pointer.position {
            None => (self, None),
            Some(position) => {
                let pan = match self {
                    Drag::Idle => None,
                    Drag::Dragging { last } => Some(Pan { from: last, to: position }),
                };
                (Drag::Dragging { last: position }, pan)
            },
        }
    }
}

impl<P: Copy> Viewer<P> {
    /// What a frame with the given input asks of the program. The raster is
    /// loaded for display where the view changes or nothing is shown yet.
    pub open spec fn frame_of(self, wheel: Wheel, pointer: Pointer<P>) -> Frame<P> {
        Frame {
            zoom: wheel.zoom_of(),
            pan: self.drag.pan_of(pointer),
            upload: !self.shown || wheel.zoom_of().is_some() || self.drag.pan_of(pointer).is_some(),
        }
    }

    /// The state after a frame with the given pointer.
    pub open spec fn after(self, pointer: Pointer<P>) -> Viewer<P> {
        Viewer { drag: self.drag.after(pointer), shown: true }
    }

    /// The state at startup: no drag, nothing shown.
    pub fn new() -> (viewer: Viewer<P>)
        ensures
            viewer == (Viewer::<P> { drag: Drag::Idle, shown: false }),
    {
        Viewer { drag: Drag::Idle, shown: false }
    }

    /// Takes the input of one frame and says what the program has to do.
    pub fn frame(&mut self, wheel: Wheel, pointer: Pointer<P>) -> (frame: Frame<P>)
        ensures
            frame == old(self).frame_of(wheel, pointer),
            *final(self) == old(self).after(pointer),
    {
        let zoom = wheel.zoom();
        let (drag, pan) = self.drag.track(pointer);
        let upload = !self.shown || zoom.is_some() || pan.is_some();
        self.drag = drag;
        self.shown = true;
        Frame { zoom, pan, upload }
    }
}

/// Two frames in a row with the button held pan from the first position to
/// the second, and only the second frame pans.
pub proof fn lemma_drag_pans_between_positions<P: Copy>(first: P, second: P)
    ensures
        ({
            let pressed = Pointer { down: true, position: Some(first) };
            let moved = Pointer { down: true, position: Some(second) };
            let idle = Drag::<P>::Idle;
            &&& idle.pan_of(pressed) == None::<Pan<P>>
            &&& idle.after(pressed).pan_of(moved) == Some(Pan { from: first, to: second })
            &&& idle.after(pressed).after(moved) == (Drag::Dragging { last: second })
        }),
{
}

/// A release ends the drag whatever came before: the press that follows
/// pans nothing.
pub proof fn lemma_release_ends_drag<P: Copy>(drag: Drag<P>, released: Pointer<P>, pressed: Pointer<P>)
    requires
        !released.down,
    ensures
        drag.after(released) == Drag::<P>::Idle,
        drag.pan_of(released) == None::<Pan<P>>,
        drag.after(released).pan_of(pressed) == None::<Pan<P>>,
{
}

/// After any frame the raster is shown, so that the next frame loads it
/// again exactly when it changes the view.
pub proof fn lemma_upload_follows_change<P: Copy>(
    viewer: Viewer<P>,
    pointer: Pointer<P>,
    wheel: Wheel,
    next: Pointer<P>,
)
    ensures
        viewer.after(pointer).shown,
        viewer.after(pointer).frame_of(wheel, next).upload <==> (wheel != Wheel::Still
            || viewer.after(pointer).frame_of(wheel, next).pan.is_some()),
        !viewer.shown ==> viewer.frame_of(wheel, next).upload,
{
}

} // verus!
