//! The parts of the browser shell that decide rather than draw: memory
//! compliance and the navigation history of a tab.

pub mod browser;
pub mod memory;
