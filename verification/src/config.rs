use vstd::prelude::*;

verus! {

/// Buffer sizes and display-width bounds for a scan.
#[derive(Debug, Clone)]
pub struct Config {
    /// Capacity of the main window in bytes.
    pub buffer_size: usize,
    /// Overlap rewound before each new full window, so that a pattern whose
    /// start lies in the last `buffer_padding` bytes of a window is offered
    /// again at the start of the next one.
    pub buffer_padding: usize,
    /// Largest accepted display width.
    pub max_line_width: usize,
    /// Smallest accepted display width.
    pub min_line_width: usize,
}

impl Config {
    /// A configuration the scanner can run with: the rewind padding must be
    /// smaller than the window, or a full window would make no progress.
    pub open spec fn wf(&self) -> bool {
        self.buffer_padding < self.buffer_size
    }

    /// The window capacity used for a scan at the given display width.
    pub open spec fn spec_buffer_size(&self, width: usize) -> usize {
        if width < 1024 {
            4096
        } else {
            self.buffer_size
        }
    }

    pub fn validate_width(&self, width: usize) -> (r: bool)
        ensures
            r == (self.min_line_width <= width && width <= self.max_line_width),
    {
        width >= self.min_line_width && width <= self.max_line_width
    }

    /// A smaller window is enough when the display width is small, and
    /// avoids wasted memory.
    pub fn get_buffer_size(&self, width: usize) -> (r: usize)
        ensures
            r == self.spec_buffer_size(width),
    {
        if width < 1024 {
            4096
        } else {
            self.buffer_size
        }
    }
}

impl Default for Config {
    fn default() -> (r: Self)
        ensures
            r.buffer_size == 65536,
            r.buffer_padding == 1024,
            r.max_line_width == 8192,
            r.min_line_width == 1,
            r.wf(),
    {
        Config {
            buffer_size: 65536,
            buffer_padding: 1024,
            max_line_width: 8192,
            min_line_width: 1,
        }
    }
}

} // verus!
