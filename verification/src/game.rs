//! The catalog-item aggregate: base fields, per-locale overrides, links
//! and media, and its construction from the raw bundle declaration.

use vstd::prelude::*;

use crate::context::ContextData;
use crate::error::{Error, ErrorKind};
use crate::i18n::LangId;
use crate::link::{spec_first_bad_link, spec_link_ok, spec_link_resolution, Link};
use crate::media::{spec_image_from, spec_media_from, spec_media_sure, Image, Media};
use crate::raw::{spec_is_sensitive, RawGame};

verus! {

/// What a loadable content bundle exposes: where it lives, what kind of
/// bundle it is, and its stable id.
pub trait Bundle {
    /// The bundle's directory.
    fn path(&self) -> &String;

    /// The kind of bundle.
    fn kind(&self) -> &'static str;

    /// The bundle's stable id.
    fn id(&self) -> &str;
}

/// An entry's long description, in its declared format.
#[derive(Debug)]
pub enum Description {
    Plain(String),
    Markdown(String),
}

/// One media item of an entry, with its sensitivity mark.
#[derive(Debug)]
pub struct GameMedia {
    pub sensitive: bool,
    pub media: Media,
}

/// The per-locale overrides of an entry's overridable fields.
#[derive(Debug)]
pub struct GameL10n {
    pub name: Option<String>,
    pub description: Option<Description>,
    pub brief_description: Option<String>,
}

/// One catalog entry: its stable id, base fields, resolved links and
/// media, and per-locale overrides.
#[derive(Debug)]
pub struct Game {
    pub id: String,
    pub name: String,
    pub description: Description,
    pub brief_description: Option<String>,
    pub links: Vec<Link>,
    pub medias: Vec<GameMedia>,
    pub thumbnail: Image,
    pub l10n: Vec<(LangId, GameL10n)>,
    pub bundle_path: String,
}

/// What an entry's description becomes under a format tag: no tag or
/// `plain` keeps the text plain, `markdown` marks it as markdown, and any
/// other tag is refused.
pub open spec fn spec_description_of(format: Option<String>, text: Seq<char>, d: Description) -> bool {
    match format {
        None => d matches Description::Plain(s) && s@ == text,
        Some(f) => if f@ == "plain"@ {
            d matches Description::Plain(s) && s@ == text
        } else if f@ == "markdown"@ {
            d matches Description::Markdown(s) && s@ == text
        } else {
            false
        },
    }
}

/// Whether a format tag is recognized.
pub open spec fn spec_format_known(format: Option<String>) -> bool {
    match format {
        None => true,
        Some(f) => f@ == "plain"@ || f@ == "markdown"@,
    }
}

impl Bundle for Game {
    /// The entry's bundle directory.
    fn path(&self) -> (r: &String)
        ensures
            r == self.bundle_path,
    {
        &self.bundle_path
    }

    /// The kind of bundle an entry lives in.
    fn kind(&self) -> (r: &'static str)
        ensures
            r@ == "game"@,
    {
        "game"
    }

    /// The entry's stable id.
    fn id(&self) -> (r: &str)
        ensures
            r@ == self.id@,
    {
        self.id.as_str()
    }
}

impl Game {
    /// Build an entry from its raw declaration: the description format is
    /// validated, every raw link is resolved against the rule table, and
    /// every raw media item becomes a media variant with bundled images
    /// probed from disk. The first failure aborts the whole build.
    #[verifier::loop_isolation(false)]
    pub fn build(data: &ContextData, id: String, raw_game: RawGame, bundle_path: String) -> (r:
        Result<Game, Error>)
        requires
            data.link_rules.wf(),
        ensures
            !spec_format_known(raw_game.description_format) ==> (r matches Err(e) && e.kind
                == ErrorKind::InvalidArgument),
            r matches Err(e) ==> e.kind == ErrorKind::InvalidArgument || e.kind
                == ErrorKind::NotExist || e.kind == ErrorKind::InvalidFileOrData,
            (spec_format_known(raw_game.description_format) && spec_first_bad_link(
                data.link_rules.spec_rules(),
                data.link_rules.spec_inference(),
                raw_game.links@,
            ) != -1) ==> (r matches Err(e) && spec_link_resolution(
                data.link_rules.spec_rules(),
                data.link_rules.spec_inference(),
                raw_game.links@[spec_first_bad_link(
                    data.link_rules.spec_rules(),
                    data.link_rules.spec_inference(),
                    raw_game.links@,
                )],
                Err(e),
            )),
            (spec_format_known(raw_game.description_format) && spec_first_bad_link(
                data.link_rules.spec_rules(),
                data.link_rules.spec_inference(),
                raw_game.links@,
            ) == -1 && (forall|i: int|
                0 <= i < raw_game.screenshots@.len() ==> spec_media_sure(
                    #[trigger] raw_game.screenshots@[i],
                )) && crate::strutil::spec_is_remote(raw_game.thumbnail@)) ==> r is Ok,
            r matches Ok(g) ==> {
                &&& g.id == id
                &&& g.name == raw_game.name
                &&& spec_description_of(
                    raw_game.description_format,
                    raw_game.description@,
                    g.description,
                )
                &&& g.brief_description == raw_game.brief_description
                &&& g.links@.len() == raw_game.links@.len()
                &&& forall|i: int| 0 <= i < raw_game.links@.len() ==> spec_link_resolution(
                    data.link_rules.spec_rules(),
                    data.link_rules.spec_inference(),
                    raw_game.links@[i],
                    Ok(#[trigger] g.links@[i]),
                )
                &&& g.medias@.len() == raw_game.screenshots@.len()
                &&& forall|i: int| 0 <= i < raw_game.screenshots@.len() ==> (#[trigger] g.medias@[i]).sensitive
                    == spec_is_sensitive(raw_game.screenshots@[i]) && spec_media_from(
                    raw_game.screenshots@[i],
                    g.medias@[i].media,
                )
                &&& spec_image_from(raw_game.thumbnail@, None, g.thumbnail)
                &&& g.l10n@.len() == 0
                &&& g.bundle_path == bundle_path
            },
    {
        let description_text = raw_game.description;
        let description = match &raw_game.description_format {
            Some(format) => {
                if crate::strutil::str_eq(format.as_str(), "plain") {
                    Description::Plain(description_text)
                } else if crate::strutil::str_eq(format.as_str(), "markdown") {
                    Description::Markdown(description_text)
                } else {
                    return Err(Error::new(ErrorKind::InvalidArgument, "unknown description format"));
                }
            },
            None => Description::Plain(description_text),
        };

        let mut links: Vec<Link> = Vec::new();
        let mut raw_links = raw_game.links;
        let ghost graw_links = raw_links@;
        let ghost mut consumed: int = 0;
        proof {
            assert(graw_links.skip(0) =~= graw_links);
        }
        while raw_links.len() > 0
            invariant
                0 <= consumed <= graw_links.len(),
                raw_links@ == graw_links.skip(consumed),
                links@.len() == consumed,
                forall|i: int| 0 <= i < consumed ==> spec_link_resolution(
                    data.link_rules.spec_rules(),
                    data.link_rules.spec_inference(),
                    graw_links[i],
                    Ok(#[trigger] links@[i]),
                ),
                forall|i: int| 0 <= i < consumed ==> spec_link_ok(
                    data.link_rules.spec_rules(),
                    data.link_rules.spec_inference(),
                    #[trigger] graw_links[i],
                ),
            decreases raw_links@.len(),
        {
            let raw_link = raw_links.remove(0);
            proof {
                assert(raw_link == graw_links[consumed]);
                assert(graw_links.skip(consumed).drop_first() =~= graw_links.skip(consumed + 1));
                consumed = consumed + 1;
            }
            match data.link_rules.build_link(raw_link) {
                Ok(link) => {
                    proof {
                        crate::link::lemma_resolution_ok(
                            data.link_rules.spec_rules(),
                            data.link_rules.spec_inference(),
                            graw_links[consumed - 1],
                            Ok(link),
                        );
                    }
                    links.push(link);
                },
                Err(e) => {
                    proof {
                        crate::link::lemma_resolution_ok(
                            data.link_rules.spec_rules(),
                            data.link_rules.spec_inference(),
                            graw_links[consumed - 1],
                            Err(e),
                        );
                        crate::link::lemma_first_bad_link_at(
                            data.link_rules.spec_rules(),
                            data.link_rules.spec_inference(),
                            graw_links,
                            consumed - 1,
                        );
                        crate::link::lemma_resolution_err_kind(
                            data.link_rules.spec_rules(),
                            data.link_rules.spec_inference(),
                            graw_links[consumed - 1],
                            e,
                        );
                    }
                    return Err(e);
                },
            }
        }
        proof {
            crate::link::lemma_first_bad_link_none(
                data.link_rules.spec_rules(),
                data.link_rules.spec_inference(),
                graw_links,
            );
        }

        let mut medias: Vec<GameMedia> = Vec::new();
        let mut raw_screens = raw_game.screenshots;
        let ghost graw_screens = raw_screens@;
        let ghost mut scount: int = 0;
        proof {
            assert(graw_screens.skip(0) =~= graw_screens);
        }
        while raw_screens.len() > 0
            invariant
                0 <= scount <= graw_screens.len(),
                raw_screens@ == graw_screens.skip(scount),
                medias@.len() == scount,
                forall|i: int| 0 <= i < scount ==> (#[trigger] medias@[i]).sensitive
                    == spec_is_sensitive(graw_screens[i]) && spec_media_from(
                    graw_screens[i],
                    medias@[i].media,
                ),
            decreases raw_screens@.len(),
        {
            let ss = raw_screens.remove(0);
            proof {
                assert(ss == graw_screens[scount]);
                assert(graw_screens.skip(scount).drop_first() =~= graw_screens.skip(scount + 1));
                scount = scount + 1;
            }
            let sensitive = ss.is_sensitive();
            match Media::from_raw(ss, Some(&bundle_path)) {
                Ok(media) => {
                    medias.push(GameMedia { sensitive, media });
                },
                Err(e) => {
                    proof {
                        if forall|i: int|
                            0 <= i < graw_screens.len() ==> spec_media_sure(
                                #[trigger] graw_screens[i],
                            ) {
                            assert(spec_media_sure(graw_screens[scount - 1]));
                            assert(false);
                        }
                    }
                    return Err(e);
                },
            }
        }

        let thumbnail = match Image::from_str(raw_game.thumbnail.as_str(), None, Some(&bundle_path))
        {
            Ok(img) => img,
            Err(e) => {
                proof {
                    if crate::strutil::spec_is_remote(raw_game.thumbnail@) {
                        assert(false);
                    }
                }
                return Err(e);
            },
        };

        Ok(
            Game {
                id,
                name: raw_game.name,
                description,
                brief_description: raw_game.brief_description,
                links,
                medias,
                thumbnail,
                l10n: Vec::new(),
                bundle_path,
            },
        )
    }
}

} // verus!
