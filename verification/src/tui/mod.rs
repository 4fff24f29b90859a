//! Terminal UI logic: input fields, panels and navigation, apart from drawing.

pub mod display;
pub mod footer;
pub mod input;
pub mod key;
pub mod menu;
pub mod panels;
pub mod spinner;
