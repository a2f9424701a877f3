//! Text decorations for an editor buffer: overlays anchored to byte ranges,
//! a store that serves them in paint order, and the small input utilities
//! (command palette, minibuffer prompt) that sit beside it.

pub mod commands;
pub mod fuzzy;
pub mod keybindings;
pub mod overlay;
pub mod paint_order;
pub mod prompt;
pub mod style;
pub mod text;
