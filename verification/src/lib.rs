//! Pelican: the model and rules of a small retained-mode UI toolkit.
//!
//! The library holds the parts of the toolkit that decide things: colors,
//! geometry, timers and the run loop's scheduling, the view hierarchy and
//! its hit testing, touch bookkeeping, gesture recognition, undo history
//! merging and the small state machines of buttons and view controllers.
//! Drawing, windows and the operating system's event source live outside.

pub mod geometry;
pub mod text;
pub mod color;
pub mod handle;
pub mod history;
pub mod time;
pub mod timer;
pub mod run_loop;
pub mod touch;
pub mod pan;
pub mod view;
pub mod application;
pub mod button;
pub mod controller;
pub mod key;
pub mod scroll;
pub mod app_main;
pub mod events;
pub mod window;
pub mod carats;
pub mod editing;
pub mod render;
