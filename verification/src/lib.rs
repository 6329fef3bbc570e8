//! Interaction core of a freehand drawing surface.
//!
//! The crate holds the rules of the drawing tool and none of its rendering:
//! what a pointer gesture means, how a moving pointer becomes a stroke, which
//! drawable lies under the pointer, how the camera follows a drag or the
//! wheel, and when two presses count as a double click.
//!
//! All geometry is fixed point. World coordinates and lengths are counted in
//! hundredths of a world unit, window positions in whole pixels, the camera
//! scale in hundredths, wheel travel in whole notches and time in
//! milliseconds.

pub mod common;
pub mod double_click;
pub mod draw;
pub mod focus;
pub mod geometry;
pub mod input;
pub mod layer;
pub mod projection_2d_control;
pub mod selected;
mod sequences;
pub mod session;
pub mod states;
pub mod text_input;
pub mod toggle_component;
pub mod touch_cursor;
pub mod ui;
