use vstd::prelude::*;

verus! {

/// The failure conditions the library can report.
#[derive(Clone, Copy, Debug, PartialEq, Eq, Structural)]
pub enum AppError {
    /// The terminal's dimensions could not be read.
    TerminalUnavailable,
    /// The font could not render the requested text at all.
    RenderConversionFailure,
    /// A rendered logo or art block exceeds the coordinate space the
    /// simulation's integer arithmetic is proved safe for.
    LogoTooLarge,
}

} // verus!
