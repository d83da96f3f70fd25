//! The raw, as-declared shapes of catalog content, as the bundle loader
//! hands them to the library.

use vstd::prelude::*;

verus! {

/// A raw link declaration: an explicit label (or rule reference) with a
/// URI, or a bare URI left to rule inference.
#[derive(Debug)]
pub enum RawLinkItem {
    Custom { name: String, uri: String },
    Auto(String),
}

/// One alternative source of a raw video declaration.
#[derive(Debug)]
pub struct RawVideoSourceItem {
    pub mime: String,
    pub uri: String,
}

/// A raw media declaration of a catalog entry.
#[derive(Debug)]
pub enum RawScreenshotItem {
    SimpleImage(String),
    Image { sensitive: bool, uri: String },
    Youtube { youtube: String },
    Video { sensitive: bool, video: Vec<RawVideoSourceItem> },
    HBox { sensitive: bool, hbox: Vec<String> },
}

/// Whether a raw media declaration is marked sensitive; the short forms
/// never are.
pub open spec fn spec_is_sensitive(item: RawScreenshotItem) -> bool {
    match item {
        RawScreenshotItem::SimpleImage(_) => false,
        RawScreenshotItem::Youtube { .. } => false,
        RawScreenshotItem::Image { sensitive, .. } => sensitive,
        RawScreenshotItem::Video { sensitive, .. } => sensitive,
        RawScreenshotItem::HBox { sensitive, .. } => sensitive,
    }
}

impl RawScreenshotItem {
    /// Whether this media declaration is marked sensitive.
    pub fn is_sensitive(&self) -> (r: bool)
        ensures
            r == spec_is_sensitive(*self),
    {
        match self {
            RawScreenshotItem::SimpleImage(_) => false,
            RawScreenshotItem::Youtube { .. } => false,
            RawScreenshotItem::Image { sensitive, .. } => *sensitive,
            RawScreenshotItem::Video { sensitive, .. } => *sensitive,
            RawScreenshotItem::HBox { sensitive, .. } => *sensitive,
        }
    }
}

/// A raw author credit of a catalog entry.
#[derive(Debug)]
pub struct RawAuthorItem {
    pub name: String,
    pub role: Vec<String>,
    pub standalone: bool,
}

/// The raw shape of one catalog entry, as its bundle declares it.
#[derive(Debug)]
pub struct RawGame {
    pub name: String,
    pub description: String,
    pub description_format: Option<String>,
    pub brief_description: Option<String>,
    pub thumbnail: String,
    pub authors: Vec<RawAuthorItem>,
    pub links: Vec<RawLinkItem>,
    pub screenshots: Vec<RawScreenshotItem>,
}

/// An author record.
#[derive(Debug)]
pub struct Author {
    pub name: String,
    pub aliases: Vec<String>,
}

} // verus!
