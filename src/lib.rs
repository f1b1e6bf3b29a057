//! Navigation and fuzzy-filter engine of a terminal directory browser.
pub mod matcher;
pub mod filter;
pub mod cursor;
pub mod nav;
pub mod render;
pub mod listing;
