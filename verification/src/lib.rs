//! Directory entry catalog and navigation engine for an image-viewing
//! application shell.
//!
//! The library classifies files by content (magic bytes, never the file
//! extension), builds an ordered catalog of the image files in a directory,
//! navigates that catalog (next / previous, without wraparound), updates it
//! after a confirmed move-to-trash, and routes native menu identifiers to
//! semantic application events.  File-system access, the native file picker,
//! the trash facility and the window chrome are host concerns and stay
//! outside this crate; every function here is pure logic on plain values.

pub mod catalog;
pub mod classify;
pub mod gateway;
pub mod laws;
pub mod locale;
pub mod menu;
pub mod router;
pub mod order;
