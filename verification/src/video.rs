//! The frame and what is drawn into it.

pub mod input;
pub mod render;
pub mod screen;
pub mod view;
