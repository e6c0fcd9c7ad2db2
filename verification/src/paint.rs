//! Colouring of names for the terminal.

use vstd::prelude::*;

verus! {

/// The colours that the listing uses.
#[derive(Debug, Clone, Copy, PartialEq, Eq, Structural)]
pub enum Tint {
    Green,
    White,
    Blue,
    Cyan,
    Red,
}

/// `colored::Colorize::color` on `name`, then `to_string` on what it gives:
/// the name as the terminal is to show it in the colour `tint`. The crate
/// decides from the environment and from what standard output is whether it
/// wraps the name in escape sequences or hands it back bare, so nothing is
/// claimed of the result.
#[verifier::external_body]
pub(crate) fn paint(name: &str, tint: Tint) -> String {
    let color = match tint {
        Tint::Green => colored::Color::Green,
        Tint::White => colored::Color::White,
        Tint::Blue => colored::Color::Blue,
        Tint::Cyan => colored::Color::Cyan,
        Tint::Red => colored::Color::Red,
    };
    colored::Colorize::color(name, color).to_string()
}

} // verus!
