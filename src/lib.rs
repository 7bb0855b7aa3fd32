//! A small retained-mode widget toolkit: a tree of drawable, hit-testable
//! widgets hosted in windows and driven by a polled event loop.
//!
//! Rendering is declarative: widgets describe a frame as a list of
//! [`draw::DrawCmd`] values that a drawing backend executes.
pub mod geometry;
pub mod style;
pub mod event;
pub mod draw;
pub mod text;
pub mod button;
pub mod circle;
pub mod list;
pub mod scrollview;
pub mod widget;
pub mod window;
pub mod polygon;
pub mod rounded_rect;
