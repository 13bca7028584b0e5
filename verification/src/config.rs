//! The resolved run configuration, as the command line hands it over.

use vstd::prelude::*;

verus! {

/// Initial logo color when none is configured (white).
pub const DEFAULT_COLOR: u8 = 15;

/// Cells moved per second when no speed is configured.
pub const DEFAULT_SPEED: u64 = 8;

/// The settings a run starts from. The surrounding binary fills this in
/// from the command line; the library only consumes it.
pub struct Config {
    /// The text of each logo; one logo per entry.
    pub text: Vec<String>,
    /// Path of a custom glyph font file; empty for the default font.
    pub font_path: String,
    /// Initial color index for every logo.
    pub color: u8,
    /// Whether a bounce re-rolls the bouncing logo's color.
    pub random: bool,
    /// Cells moved (and frames drawn) per second.
    pub speed: u64,
    /// Force single-line rendering instead of glyph blocks.
    pub plain: bool,
    /// Path of a plain-text art file shown as one extra logo; empty for none.
    pub art_path: String,
}

} // verus!
