//! Photo EXIF tool: the verified core.
//!
//! The library holds the logic of the photo EXIF editor: the EXIF value
//! model, the JPEG segment rewriting used when saving or stripping EXIF,
//! the JPEG health checks and repairs, the file-format check, the GPX track
//! matching and the session state (undo, reset, pending changes).
pub mod text;
pub mod model;
pub mod exif;
pub mod compare;
pub mod session;
pub mod panel;
pub mod gpx;
pub mod tools;
pub mod settings;
pub mod actions;
