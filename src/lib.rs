//! Verified core of a pan/zoom canvas: automatic tick intervals, axis label
//! composition, the interaction state machine of the viewport and the rule
//! that keeps a canvas-anchored axis on screen.

pub mod axis;
pub mod label;
pub mod tick;
pub mod viewport;

pub use axis::{canvas_axis_side, AxisSide};
pub use label::{
    compose_label, decimal_string, fixed_label, label_form, scientific_label, LabelForm,
    FIXED_LABEL_WIDTH,
};
pub use tick::{best_tick_from_big, min_tick_count, MIN_NUMBER_OF_TICKS};
pub use viewport::{FrameInput, FramePlan, Hover, InteractionMode, ViewportController};
