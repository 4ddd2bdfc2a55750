use vstd::prelude::*;

verus! {

/// The error cases of this crate: stream failures, malformed patterns,
/// engine rejections, and display widths outside the configured bounds.
#[derive(Debug)]
pub enum BingrepError {
    /// A read or seek on the underlying stream failed; the message comes
    /// from the stream implementation.
    Io(String),
    /// The pattern text is malformed (an empty or truncated hex escape).
    InvalidPattern(String),
    /// The requested display width lies outside the configured bounds.
    InvalidWidth(usize),
    /// The engine rejected the transliterated pattern.
    RegexCompilation(String),
}

} // verus!
