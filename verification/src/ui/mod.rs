//! Presentation rules shared by the panels: colour themes, text helpers and
//! layout arithmetic.

pub mod layout;
pub mod theme;
pub mod widgets;
