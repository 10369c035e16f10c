//! Core of an interactive 2D keyframe-curve editor.
//!
//! The library keeps a piecewise curve of keyframes sorted by strictly
//! increasing time, evaluates it with step, linear and cubic Hermite
//! interpolation, maps curve space to screen space through a pannable and
//! zoomable viewport, and runs the per-frame pointer-driven interaction
//! state machine that turns gestures into curve mutations and draw commands.
//!
//! All coordinates are fixed-point integers: one curve-space unit is
//! `SCALE` ticks, screen positions are whole pixels.

pub mod math;
pub mod curve;
pub mod sample;
pub mod viewport;
pub mod editor;
