//! The terminal styling types that overlays carry to the renderer.

use vstd::prelude::*;

verus! {

/// `ratatui::style::Color`: the sixteen ANSI colours and `Reset` by name, a
/// colour by its red, green and blue bytes (`Rgb`), and one of the 256
/// palette by its index (`Indexed`).
#[verifier::external_type_specification]
pub struct ExColor(ratatui::style::Color);

/// `ratatui::style::Style`: a foreground and a background colour with
/// modifier flags such as bold. An overlay stores one and hands it back
/// unchanged.
#[verifier::external_type_specification]
#[verifier::external_body]
pub struct ExStyle(ratatui::style::Style);

} // verus!
