//! User configuration of the layout.

use vstd::prelude::*;

verus! {

/// Configuration read from the user's configuration file
#[derive(Debug)]
pub struct Config {
    pub layout: Layout,
}

impl Default for Config {
    fn default() -> (r: Self)
        ensures
            r.layout == (Layout { header_height: 1, bottom_height: 4, left_width_percent: 40 }),
    {
        Self { layout: Layout::default() }
    }
}

/// Layout sizes that the configuration sets
#[derive(Debug, Clone, Copy, PartialEq, Eq, Structural)]
pub struct Layout {
    /// Header height
    pub header_height: u16,
    /// Bottom panel height
    pub bottom_height: u16,
    /// Left panel width percentage
    pub left_width_percent: u16,
}

impl Default for Layout {
    fn default() -> (r: Self)
        ensures
            r == (Layout { header_height: 1, bottom_height: 4, left_width_percent: 40 }),
    {
        Self { header_height: 1, bottom_height: 4, left_width_percent: 40 }
    }
}

} // verus!
