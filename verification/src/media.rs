//! Typed image, video and compound-media representation. Bundled images
//! are dimension-probed from disk through a trusted bridge; everything
//! decided from the probe's outcome is verified.

use vstd::prelude::*;

use crate::error::{Error, ErrorKind};
use crate::raw::{RawScreenshotItem, RawVideoSourceItem};
use crate::strutil::{is_remote, spec_is_remote};

verus! {

/// Where an image comes from: a file of the entry's own bundle, a remote
/// URI, or a locally shared asset.
#[derive(Debug)]
pub enum ImageSource {
    LocalShared(String),
    Bundled(String),
    Remote(String),
}

/// An image reference with its optional caption, dimensions and
/// modification time. Dimensions are only available for bundled images,
/// probed from disk at build time.
#[derive(Debug)]
pub struct Image {
    pub source: ImageSource,
    pub captain: Option<String>,
    pub size: Option<(usize, usize)>,
    pub mtime: Option<i64>,
}

/// Relies on `std::path::Path::is_file`: whether the path names an
/// existing regular file on disk. The outcome depends on the filesystem,
/// so nothing is promised of it.
#[verifier::external_body]
pub(crate) fn path_is_file(path: &str) -> bool {
    std::path::Path::new(path).is_file()
}

/// Relies on `imagesize::size`: reads the image header on disk and yields
/// the width and height, or nothing when the file cannot be read or holds
/// no recognized image data. The outcome depends on the filesystem, so
/// nothing is promised of it.
#[verifier::external_body]
fn probe_image_size(path: &str) -> Option<(usize, usize)> {
    match imagesize::size(path) {
        Ok(d) => Some((d.width, d.height)),
        Err(_) => None,
    }
}

/// The caption text of an optional caption.
pub open spec fn opt_view(o: Option<String>) -> Option<Seq<char>> {
    match o {
        Some(s) => Some(s@),
        None => None,
    }
}

/// What an image built from a source string looks like: remote sources
/// keep their URI and have no probed size; bundled sources carry the
/// bundle-relative name and a probed size.
pub open spec fn spec_image_from(src: Seq<char>, captain: Option<Seq<char>>, img: Image) -> bool {
    &&& opt_view(img.captain) == captain
    &&& img.mtime is None
    &&& if spec_is_remote(src) {
        &&& img.source matches ImageSource::Remote(s) && s@ == src
        &&& img.size is None
    } else {
        &&& img.source matches ImageSource::Bundled(s) && s@ == src
        &&& img.size is Some
    }
}

impl Image {
    /// Build a bundled image, probing its dimensions from the file on
    /// disk; an unreadable or unrecognized file is invalid data.
    pub fn new_bundled(name: String, captain: Option<String>, file_path: &str) -> (r: Result<
        Image,
        Error,
    >)
        ensures
            r matches Ok(img) ==> img.source matches ImageSource::Bundled(s) && s == name
                && img.captain == captain && img.size is Some && img.mtime is None,
            r matches Err(e) ==> e.kind == ErrorKind::InvalidFileOrData,
    {
        match probe_image_size(file_path) {
            Some(dim) => Ok(
                Image {
                    source: ImageSource::Bundled(name),
                    captain,
                    size: Some(dim),
                    mtime: None,
                },
            ),
            None => Err(
                Error::new(ErrorKind::InvalidFileOrData, "can not read image properties"),
            ),
        }
    }

    /// Build a remote image; no dimensions are available.
    pub fn new_remote(name: String, captain: Option<String>) -> (r: Image)
        ensures
            r.source matches ImageSource::Remote(s) && s == name,
            r.captain == captain,
            r.size is None,
            r.mtime is None,
    {
        Image { source: ImageSource::Remote(name), captain, size: None, mtime: None }
    }

    /// Build an image from a source string: a remote URI stands as it is;
    /// anything else names a file of the bundle, which must exist and be
    /// readable, and needs a bundle path to resolve against.
    pub fn from_str(src: &str, captain: Option<String>, bundle_path: Option<&String>) -> (r:
        Result<Image, Error>)
        ensures
            r matches Ok(img) ==> spec_image_from(src@, opt_view(captain), img),
            spec_is_remote(src@) ==> r is Ok,
            !spec_is_remote(src@) && bundle_path is None ==> (r matches Err(e) && e.kind
                == ErrorKind::InvalidArgument),
            r matches Err(e) ==> e.kind == ErrorKind::InvalidArgument || e.kind
                == ErrorKind::NotExist || e.kind == ErrorKind::InvalidFileOrData,
    {
        if is_remote(src) {
            Ok(Self::new_remote(src.to_owned(), captain))
        } else {
            match bundle_path {
                Some(bp) => {
                    let mut file_path = bp.clone();
                    file_path.append("/");
                    file_path.append(src);
                    if path_is_file(file_path.as_str()) {
                        Image::new_bundled(src.to_owned(), captain, file_path.as_str())
                    } else {
                        Err(Error::new(ErrorKind::NotExist, "image file not found"))
                    }
                },
                None => Err(
                    Error::new(
                        ErrorKind::InvalidArgument,
                        "a bundle path is required for non-remote images",
                    ),
                ),
            }
        }
    }
}

/// One alternative source of a video: its MIME type and URI.
#[derive(Debug)]
pub struct VideoSource {
    pub mime: String,
    pub uri: String,
}

impl From<RawVideoSourceItem> for VideoSource {
    /// Carry a raw video source over unchanged.
    fn from(value: RawVideoSourceItem) -> (r: Self) {
        Self { mime: value.mime, uri: value.uri }
    }
}

impl vstd::std_specs::convert::FromSpecImpl<RawVideoSourceItem> for VideoSource {
    open spec fn obeys_from_spec() -> bool {
        true
    }

    open spec fn from_spec(value: RawVideoSourceItem) -> VideoSource {
        VideoSource { mime: value.mime, uri: value.uri }
    }
}

/// A media variant of an entry: a single image, an externally hosted
/// embed, a video with ordered alternatives, or a horizontal image box.
#[derive(Debug)]
pub enum Media {
    Image(Image),
    Youtube(String),
    Video { sources: Vec<VideoSource> },
    HBox(Vec<Image>),
}

impl From<Image> for Media {
    /// A bare image is a media variant of its own.
    fn from(value: Image) -> (r: Self) {
        Self::Image(value)
    }
}

impl vstd::std_specs::convert::FromSpecImpl<Image> for Media {
    open spec fn obeys_from_spec() -> bool {
        true
    }

    open spec fn from_spec(value: Image) -> Media {
        Media::Image(value)
    }
}

/// A raw media declaration whose build cannot fail: every image it names
/// is remote, so nothing rests on the filesystem.
pub open spec fn spec_media_sure(raw: RawScreenshotItem) -> bool {
    match raw {
        RawScreenshotItem::SimpleImage(uri) => spec_is_remote(uri@),
        RawScreenshotItem::Image { uri, .. } => spec_is_remote(uri@),
        RawScreenshotItem::Youtube { .. } => true,
        RawScreenshotItem::Video { .. } => true,
        RawScreenshotItem::HBox { hbox, .. } => forall|i: int|
            0 <= i < hbox@.len() ==> spec_is_remote((#[trigger] hbox@[i])@),
    }
}

/// What a media variant built from a raw declaration looks like, when the
/// build succeeds.
pub open spec fn spec_media_from(raw: RawScreenshotItem, m: Media) -> bool {
    match raw {
        RawScreenshotItem::SimpleImage(uri) => m matches Media::Image(img) && spec_image_from(
            uri@,
            None,
            img,
        ),
        RawScreenshotItem::Image { uri, .. } => m matches Media::Image(img) && spec_image_from(
            uri@,
            None,
            img,
        ),
        RawScreenshotItem::Youtube { youtube } => m matches Media::Youtube(y) && y@ == youtube@,
        RawScreenshotItem::Video { video, .. } => m matches Media::Video { sources }
            && sources@.len() == video@.len() && forall|i: int|
            0 <= i < video@.len() ==> (#[trigger] sources@[i]).mime@ == video@[i].mime@
                && sources@[i].uri@ == video@[i].uri@,
        RawScreenshotItem::HBox { hbox, .. } => m matches Media::HBox(images) && images@.len()
            == hbox@.len() && forall|i: int|
            0 <= i < hbox@.len() ==> spec_image_from(hbox@[i]@, None, #[trigger] images@[i]),
    }
}

impl Media {
    /// Build a media variant from its raw declaration; the first failing
    /// image aborts the build.
    #[verifier::loop_isolation(false)]
    pub fn from_raw(raw: RawScreenshotItem, bundle_path: Option<&String>) -> (r: Result<
        Media,
        Error,
    >)
        ensures
            r matches Ok(m) ==> spec_media_from(raw, m),
            r matches Err(e) ==> e.kind == ErrorKind::InvalidArgument || e.kind
                == ErrorKind::NotExist || e.kind == ErrorKind::InvalidFileOrData,
            spec_media_sure(raw) ==> r is Ok,
    {
        match &raw {
            RawScreenshotItem::SimpleImage(uri) => {
                match Image::from_str(uri.as_str(), None, bundle_path) {
                    Ok(img) => Ok(Media::Image(img)),
                    Err(e) => Err(e),
                }
            },
            RawScreenshotItem::Image { uri, .. } => {
                match Image::from_str(uri.as_str(), None, bundle_path) {
                    Ok(img) => Ok(Media::Image(img)),
                    Err(e) => Err(e),
                }
            },
            RawScreenshotItem::Youtube { youtube } => Ok(Media::Youtube(youtube.clone())),
            RawScreenshotItem::Video { video, .. } => {
                let mut sources: Vec<VideoSource> = Vec::new();
                let mut i: usize = 0;
                while i < video.len()
                    invariant
                        0 <= i <= video@.len(),
                        sources@.len() == i,
                        forall|l: int| 0 <= l < i ==> (#[trigger] sources@[l]).mime@
                            == video@[l].mime@ && sources@[l].uri@ == video@[l].uri@,
                    decreases video@.len() - i,
                {
                    let mime = video[i].mime.clone();
                    let vuri = video[i].uri.clone();
                    sources.push(VideoSource { mime, uri: vuri });
                    i = i + 1;
                }
                Ok(Media::Video { sources })
            },
            RawScreenshotItem::HBox { hbox, .. } => {
                let mut result: Vec<Image> = Vec::new();
                let mut i: usize = 0;
                while i < hbox.len()
                    invariant
                        0 <= i <= hbox@.len(),
                        result@.len() == i,
                        forall|l: int| 0 <= l < i ==> spec_image_from(
                            hbox@[l]@,
                            None,
                            #[trigger] result@[l],
                        ),
                    decreases hbox@.len() - i,
                {
                    match Image::from_str(hbox[i].as_str(), None, bundle_path) {
                        Ok(img) => {
                            result.push(img);
                        },
                        Err(e) => {
                            return Err(e);
                        },
                    }
                    i = i + 1;
                }
                Ok(Media::HBox(result))
            },
        }
    }
}

} // verus!
