//! The escape sequences for each supported colour.

use vstd::prelude::*;

verus! {

/// Defines the escape sequences required for each wanted colour.
pub struct Colours;

impl Colours {
    /// Resets the colour to the terminal's normal one.
    pub const NORMAL: &'static str = "\x1b[0m";

    pub const PINK: &'static str = "\x1b[35m";

    pub const WHITE: &'static str = "\x1b[37m";

    pub const BLUE: &'static str = "\x1b[34m";

    pub const GREEN: &'static str = "\x1b[32m";

    pub const CYAN: &'static str = "\x1b[36m";

    pub const RED: &'static str = "\x1b[31m";

    pub const BLACK: &'static str = "\x1b[30m";

    pub const YELLOW: &'static str = "\x1b[33m";
}

} // verus!
