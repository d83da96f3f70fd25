//! The site-rendering backend: render-ready per-entry views, responsive
//! image selection, page outputs and the two-phase synchronization
//! protocol (resync, then render).

pub mod backend;
pub mod common;
pub mod game;
pub mod pages;
pub mod profile;
pub mod rc;
pub mod stylesheet;
