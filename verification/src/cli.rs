use vstd::prelude::*;

verus! {

/// The options of one invocation, as plain values. The outer binary parses
/// its command line into this and hands it to the scanning entry points.
pub struct Cli {
    /// Path of the input file; `-` stands for data read from standard input.
    pub file_path: Option<String>,
    /// Pattern text with `\xHH` escapes and optional regex operators.
    pub expression: Option<String>,
    /// Bytes displayed per line.
    pub line_width: usize,
    /// Largest number of lines to emit; 0 means unlimited.
    pub limit: usize,
    /// Byte offset at which the scan starts.
    pub position: u64,
    /// Separator placed between the hex digits of adjacent bytes.
    pub separator: String,
    /// Leave out the offset column when set.
    pub hide_offset: bool,
}

} // verus!
