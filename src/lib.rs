//! Drives an addressable RGB LED string or matrix: colour model, bit protocol
//! encoding, pixel geometry with orientation remapping, and the animation state
//! machines that turn a display intent into frames.
pub mod font;
pub mod matrix;
pub mod matrix_1d;
pub mod message;
pub mod orientation;
pub mod rgb;
pub mod status;
pub mod ws2812_matrix;
pub mod ws2812_rmt;
