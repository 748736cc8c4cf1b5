//! The interaction state machine of the viewport.
//!
//! The controller owns the visible window onto the logical plane (the cutout)
//! and the interaction mode. Each frame it reads a summary of the input and
//! decides what happens to the cutout: a reset to the content's bounds, a zoom
//! about the hovered point, or a pan by the drag delta. The arithmetic of zoom
//! and pan lives with the host's coordinate types; the controller stores its
//! result.

use vstd::prelude::*;

verus! {

/// The interaction mode: the view is either at rest or being dragged.
#[derive(Debug, Clone, Copy, PartialEq, Eq, Structural)]
pub enum InteractionMode {
    Normal,
    Dragging,
}

/// Where the pointer is during a frame.
#[derive(Debug, Clone, Copy, PartialEq, Eq, Structural)]
pub enum Hover {
    /// The pointer is not over the widget.
    Absent,
    /// The pointer is over the widget but outside its drawing area.
    Outside,
    /// The pointer is over the drawing area.
    Inside,
}

/// What the host observed during one frame.
#[derive(Debug, Clone, Copy, PartialEq, Eq, Structural)]
pub struct FrameInput {
    pub hover: Hover,
    /// The vertical scroll delta lies outside the dead zone (its magnitude is
    /// above one unit).
    pub scroll_beyond_dead_zone: bool,
    pub drag_started: bool,
    pub drag_released: bool,
    pub reset_requested: bool,
}

/// What the host is to do to the cutout this frame, in this order.
#[derive(Debug, Clone, Copy, PartialEq, Eq, Structural)]
pub struct FramePlan {
    /// Set the cutout to the content's bounding rectangle.
    pub reset: bool,
    /// Zoom about the hovered point by the scroll delta.
    pub zoom: bool,
    /// Translate the cutout by the drag delta.
    pub pan: bool,
}

/// The next mode and the plan for a frame in mode `mode`.
///
/// At rest, a reset request resets, a scroll beyond the dead zone with the
/// pointer over the widget zooms, and a drag that starts over the drawing area
/// enters the dragging mode. While dragging, a release returns to rest and any
/// other frame pans.
pub open spec fn transition(mode: InteractionMode, input: FrameInput) -> (InteractionMode, FramePlan) {
    match mode {
        InteractionMode::Normal => {
            let next = if input.drag_started && input.hover == Hover::Inside {
                InteractionMode::Dragging
            } else {
                InteractionMode::Normal
            };
            (
                next,
                FramePlan {
                    reset: input.reset_requested,
                    zoom: input.scroll_beyond_dead_zone && input.hover != Hover::Absent,
                    pan: false,
                },
            )
        },
        InteractionMode::Dragging => {
            if input.drag_released {
                (InteractionMode::Normal, FramePlan { reset: false, zoom: false, pan: false })
            } else {
                (InteractionMode::Dragging, FramePlan { reset: false, zoom: false, pan: true })
            }
        },
    }
}

/// The viewport: the current cutout, of the host's rectangle type `C`, and the
/// interaction mode.
pub struct ViewportController<C> {
    cutout: C,
    mode: InteractionMode,
}

impl<C> ViewportController<C> {
    pub closed spec fn spec_cutout(&self) -> C {
        self.cutout
    }

    pub closed spec fn spec_mode(&self) -> InteractionMode {
        self.mode
    }

    /// The controller after a reset to `default_cutout`.
    pub closed spec fn after_reset(self, default_cutout: C) -> Self {
        ViewportController { cutout: default_cutout, mode: self.mode }
    }

    /// A controller at rest showing `cutout`.
    pub fn new(cutout: C) -> (r: Self)
        ensures
            r.spec_cutout() == cutout,
            r.spec_mode() == InteractionMode::Normal,
    {
        ViewportController { cutout, mode: InteractionMode::Normal }
    }

    pub fn cutout(&self) -> (r: &C)
        ensures
            *r == self.spec_cutout(),
    {
        &self.cutout
    }

    pub fn mode(&self) -> (r: InteractionMode)
        ensures
            r == self.spec_mode(),
    {
        self.mode
    }

    /// Sets the cutout to the content's bounding rectangle, whatever it was.
    pub fn reset(&mut self, default_cutout: C)
        ensures
            *final(self) == old(self).after_reset(default_cutout),
            final(self).spec_cutout() == default_cutout,
            final(self).spec_mode() == old(self).spec_mode(),
    {
        self.cutout = default_cutout;
    }

    /// Stores the cutout that a zoom or a pan produced.
    pub fn set_cutout(&mut self, cutout: C)
        ensures
            final(self).spec_cutout() == cutout,
            final(self).spec_mode() == old(self).spec_mode(),
    {
        self.cutout = cutout;
    }

    /// Takes the frame's input: moves to the next mode and returns what is to be
    /// done to the cutout. The cutout itself is left as it is.
    pub fn step(&mut self, input: FrameInput) -> (plan: FramePlan)
        ensures
            plan == transition(old(self).spec_mode(), input).1,
            final(self).spec_mode() == transition(old(self).spec_mode(), input).0,
            final(self).spec_cutout() == old(self).spec_cutout(),
    {
        match self.mode {
            InteractionMode::Normal => {
                if input.drag_started && input.hover == Hover::Inside {
                    self.mode = InteractionMode::Dragging;
                }
                FramePlan {
                    reset: input.reset_requested,
                    zoom: input.scroll_beyond_dead_zone && input.hover != Hover::Absent,
                    pan: false,
                }
            },
            InteractionMode::Dragging => {
                if input.drag_released {
                    self.mode = InteractionMode::Normal;
                    FramePlan { reset: false, zoom: false, pan: false }
                } else {
                    FramePlan { reset: false, zoom: false, pan: true }
                }
            },
        }
    }
}

/// Idempotent reset: resetting twice in a row leaves the controller as
/// resetting once does.
pub proof fn lemma_reset_idempotent<C>(v: ViewportController<C>, default_cutout: C)
    ensures
        v.after_reset(default_cutout).after_reset(default_cutout) == v.after_reset(default_cutout),
{
}

} // verus!
