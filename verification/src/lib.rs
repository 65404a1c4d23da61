//! Interactive completion and status subsystem for a line-editor host:
//! a rule-based completion engine, a paginated selection menu with a
//! preview pane, and a two-sided prompt composer, together with the
//! character-counting truncation utility they share.

pub mod engine;
pub mod menu;
pub mod prompt;
pub mod text;
