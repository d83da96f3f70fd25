//! Catalog-site rendering core: locale identifiers, configuration merging,
//! link-rule resolution, media modelling and the per-locale cooking of
//! catalog entries into render-ready views.

pub mod backend;
pub mod config;
pub mod context;
pub mod error;
pub mod game;
pub mod i18n;
pub mod kvseq;
pub mod link;
pub mod media;
pub mod pattern;
pub mod profile;
pub mod raw;
pub mod strutil;
pub mod tengine;
pub mod uri;
pub mod www;
