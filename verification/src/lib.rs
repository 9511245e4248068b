//! Derives a visual theme for an application from the desktop's own theme
//! configuration, centred on a small GTK stylesheet interpreter: a tokenizer
//! and parser for the GTK CSS dialect, a colour-variable environment, an
//! expression evaluator, colour-space conversion and a selector-to-style
//! mapper, all driven file by file through an import-resolving loader.
use vstd::prelude::*;

pub mod ast;
pub mod color;
pub mod context;
pub mod convert;
pub mod digits;
pub mod engine;
pub mod kde;
pub mod macos;
pub mod mapper;
pub mod record;
pub mod spaces;
pub mod token;
pub mod windows;

verus! {

/// The error surface of the extraction engine: a hard failure aborts the
/// current extraction and is handed to the caller unchanged.
#[derive(Clone, Copy, Debug, PartialEq, Eq, Structural)]
pub enum ThemeError {
    /// A stylesheet or settings file was missing or unreadable.
    IoError,
    /// The stylesheet text was malformed beyond recovery.
    ParseError,
    /// The normalization pass over a parsed stylesheet failed.
    MinifyError,
    /// No usable theme name or candidate stylesheet exists.
    LookupError,
}

} // verus!
