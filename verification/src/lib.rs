//! Icon-change detection engine.
//!
//! Watches application windows for changes in the appearance of their
//! taskbar icons.  The crate holds the verified core: the pixel-difference
//! scorer, the title/button word matcher, the per-target polling state
//! machine, and the registry of running monitor tasks.  Native window
//! enumeration, screen capture and outbound notification are performed by
//! the surrounding program, which feeds their results to these functions
//! as plain values.

pub mod compare;
pub mod config;
pub mod locate;
pub mod notify;
pub mod pixels;
pub mod poll;
pub mod registry;
pub mod targets;
pub mod thumbnail;
pub mod words;
