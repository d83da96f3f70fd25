//! The per-locale cooked view of a catalog entry: the localization
//! cascade resolving every overridable field, in both plain and markup
//! form, plus the render-ready thumbnail.

use vstd::prelude::*;

use crate::error::{Error, ErrorKind};
use crate::game::{Description, Game, GameL10n};
use crate::i18n::LangId;
use crate::kvseq::{kv_lookup, lemma_kv_index_of_absent, lemma_kv_index_of_first};
use crate::media::{opt_view, Image, ImageSource};
use crate::www::common::{spec_html_text, spec_mime_from_src, HtmlImage, HtmlText};

verus! {

/// One locale's cooked view of an entry's overridable text fields.
#[derive(Debug)]
pub struct CookedGameL10n {
    pub name: HtmlText,
    pub description: HtmlText,
    pub brief_description: HtmlText,
}

/// The cooked data shared by every locale.
#[derive(Debug)]
pub struct CookedGameNonl10n {
    pub thumbnail: HtmlImage,
}

/// An entry as the renderer sees it: its id, one cooked view per active
/// locale, and the locale-independent cooked data.
#[derive(Debug)]
pub struct GameWWW {
    pub id: String,
    pub cooked: Vec<(LangId, CookedGameL10n)>,
    pub cooked_nonl10n: CookedGameNonl10n,
}

/// The effective name of an entry under a locale: the override when the
/// locale carries one, the base name otherwise.
pub open spec fn spec_resolved_name(game: Game, lang: LangId) -> Seq<char> {
    match kv_lookup(game.l10n@, lang) {
        Some(o) => match o.name {
            Some(n) => n@,
            None => game.name@,
        },
        None => game.name@,
    }
}

/// The plain text of a description. Markdown is not rendered yet: it
/// degrades to an explicit placeholder prefixed to the raw text.
pub open spec fn spec_desc_text(d: Description) -> Seq<char> {
    match d {
        Description::Plain(s) => s@,
        Description::Markdown(s) => "TODO: markdown is not supported now!\n\n"@ + s@,
    }
}

/// The effective description text of an entry under a locale.
pub open spec fn spec_resolved_desc(game: Game, lang: LangId) -> Seq<char> {
    match kv_lookup(game.l10n@, lang) {
        Some(o) => match o.description {
            Some(d) => spec_desc_text(d),
            None => spec_desc_text(game.description),
        },
        None => spec_desc_text(game.description),
    }
}

/// The effective brief description under a locale: the locale's own, else
/// the base one, else the resolved description — truncated to 480
/// characters with an ellipsis marker when it runs longer.
pub open spec fn spec_brief(game: Game, lang: LangId) -> Seq<char> {
    let override_brief = match kv_lookup(game.l10n@, lang) {
        Some(o) => o.brief_description,
        None => None,
    };
    match override_brief {
        Some(b) => b@,
        None => match game.brief_description {
            Some(b) => b@,
            None => {
                let t = spec_resolved_desc(game, lang);
                if t.len() > 480 {
                    t.take(480) + "..."@
                } else {
                    t
                }
            },
        },
    }
}

/// What one locale's cooked view holds: each resolved field in its plain
/// form and its markup form.
pub open spec fn spec_cooked(game: Game, lang: LangId, c: CookedGameL10n) -> bool {
    &&& c.name.plain@ == spec_resolved_name(game, lang)
    &&& c.name.html@ == spec_html_text(spec_resolved_name(game, lang))
    &&& c.description.plain@ == spec_resolved_desc(game, lang)
    &&& c.description.html@ == spec_html_text(spec_resolved_desc(game, lang))
    &&& c.brief_description.plain@ == spec_brief(game, lang)
    &&& c.brief_description.html@ == spec_html_text(spec_brief(game, lang))
}

/// The site-relative path a bundled asset is published under.
pub open spec fn spec_asset_path(kind: Seq<char>, id: Seq<char>, name: Seq<char>) -> Seq<char> {
    "assets/"@ + kind + "/"@ + id + "/"@ + name
}

/// The URI a cooked image names: the published asset path for a bundled
/// image, the URI itself for a remote one.
pub open spec fn spec_import_uri(img: Image, kind: Seq<char>, id: Seq<char>) -> Seq<char> {
    match img.source {
        ImageSource::Bundled(s) => spec_asset_path(kind, id, s@),
        ImageSource::Remote(s) => s@,
        ImageSource::LocalShared(s) => s@,
    }
}

/// When importing an image succeeds: its source must be bundled or
/// remote, and the URI's suffix must denote a MIME kind.
pub open spec fn spec_import_ok(img: Image, kind: Seq<char>, id: Seq<char>) -> bool {
    match img.source {
        ImageSource::LocalShared(_) => false,
        _ => spec_mime_from_src(spec_import_uri(img, kind, id)) is Some,
    }
}

/// What an imported image holds: one candidate naming the published URI,
/// with the MIME kind of its suffix, and the underlying image's size and
/// caption.
pub open spec fn spec_imported(img: Image, kind: Seq<char>, id: Seq<char>, hi: HtmlImage) -> bool {
    &&& hi.spec_sources().len() == 1
    &&& hi.spec_sources()[0].srcset.src@ == spec_import_uri(img, kind, id)
    &&& hi.spec_sources()[0].srcset.remote == (img.source is Remote)
    &&& hi.spec_sources()[0].mime == spec_mime_from_src(spec_import_uri(img, kind, id))->0
    &&& hi.spec_size() == img.size
    &&& hi.spec_captain() == opt_view(img.captain)
    &&& hi.spec_queries().len() == 0
}

/// Import one image of an entry's bundle: a bundled file is published
/// under the asset tree, a remote URI stands as it is; the URI's suffix
/// decides the MIME kind. Locally-shared assets are not supported here.
pub fn import_image(image: &Image, kind: &str, id: &str) -> (r: Result<HtmlImage, Error>)
    ensures
        (r is Ok) == spec_import_ok(*image, kind@, id@),
        r matches Err(e) ==> e.kind == ErrorKind::InvalidArgument || e.kind == ErrorKind::Other,
        r matches Ok(hi) ==> spec_imported(*image, kind@, id@, hi),
{
    let mut hi = HtmlImage::init_base_from_image(image);
    match &image.source {
        ImageSource::LocalShared(_) => Err(
            Error::new(ErrorKind::Other, "locally-shared assets are not supported"),
        ),
        ImageSource::Bundled(s) => {
            let mut new_path = String::from_str("assets/");
            new_path.append(kind);
            new_path.append("/");
            new_path.append(id);
            new_path.append("/");
            new_path.append(s.as_str());
            proof {
                assert(new_path@ =~= spec_asset_path(kind@, id@, s@));
            }
            let ghost gcond = crate::www::common::spec_added_condition(new_path, false, None);
            match hi.add_source_simple(new_path, false, None) {
                Ok(u) => {
                    proof {
                        let p = choose|p: int|
                            0 <= p <= 0 && hi.spec_sources() == Seq::<
                                crate::www::common::HtmlImageCondition,
                            >::empty().insert(p, gcond);
                        assert(hi.spec_sources() =~= seq![gcond]);
                    }
                    Ok(hi)
                },
                Err(e) => Err(e),
            }
        },
        ImageSource::Remote(s) => {
            let remote_uri = s.clone();
            let ghost gcond = crate::www::common::spec_added_condition(remote_uri, true, None);
            match hi.add_source_simple(remote_uri, true, None) {
                Ok(u) => {
                    proof {
                        let p = choose|p: int|
                            0 <= p <= 0 && hi.spec_sources() == Seq::<
                                crate::www::common::HtmlImageCondition,
                            >::empty().insert(p, gcond);
                        assert(hi.spec_sources() =~= seq![gcond]);
                    }
                    Ok(hi)
                },
                Err(e) => Err(e),
            }
        },
    }
}

impl GameWWW {
    /// Derive the cooked views of one entry: one per active locale via
    /// the localization cascade, plus the imported thumbnail.
    #[verifier::loop_isolation(false)]
    pub fn cook_game(game: &Game, langs: &Vec<LangId>) -> (r: Result<GameWWW, Error>)
        ensures
            (r is Ok) == spec_import_ok(game.thumbnail, "game"@, game.id@),
            r matches Err(e) ==> e.kind == ErrorKind::InvalidArgument || e.kind == ErrorKind::Other,
            r matches Ok(gw) ==> {
                &&& gw.id == game.id
                &&& gw.cooked@.len() == langs@.len()
                &&& forall|i: int| 0 <= i < langs@.len() ==> (#[trigger] gw.cooked@[i]).0
                    == langs@[i] && spec_cooked(*game, langs@[i], gw.cooked@[i].1)
                &&& spec_imported(game.thumbnail, "game"@, game.id@, gw.cooked_nonl10n.thumbnail)
            },
    {
        let mut cooked: Vec<(LangId, CookedGameL10n)> = Vec::new();
        let mut i: usize = 0;
        while i < langs.len()
            invariant
                0 <= i <= langs@.len(),
                cooked@.len() == i,
                forall|j: int| 0 <= j < i ==> (#[trigger] cooked@[j]).0 == langs@[j] && spec_cooked(
                    *game,
                    langs@[j],
                    cooked@[j].1,
                ),
            decreases langs@.len() - i,
        {
            let lang = langs[i];
            let entry = find_l10n(&game.l10n, lang);
            // name
            let name_s: String = match entry {
                Some(o) => match &o.name {
                    Some(n) => n.clone(),
                    None => game.name.clone(),
                },
                None => game.name.clone(),
            };
            // description
            let desc_ref: &Description = match entry {
                Some(o) => match &o.description {
                    Some(d) => d,
                    None => &game.description,
                },
                None => &game.description,
            };
            let desc_s: String = match desc_ref {
                Description::Plain(s) => s.clone(),
                Description::Markdown(s) => {
                    let mut t = String::from_str("TODO: markdown is not supported now!\n\n");
                    t.append(s.as_str());
                    t
                },
            };
            proof {
                assert(desc_s@ == spec_resolved_desc(*game, lang));
            }
            // brief description
            let override_brief: Option<&String> = match entry {
                Some(o) => match &o.brief_description {
                    Some(b) => Some(b),
                    None => None,
                },
                None => None,
            };
            let brief_s: String = match override_brief {
                Some(b) => b.clone(),
                None => match &game.brief_description {
                    Some(b) => b.clone(),
                    None => {
                        let dlen = desc_s.as_str().unicode_len();
                        if dlen > 480 {
                            let mut t = desc_s.as_str().substring_char(0, 480).to_owned();
                            t.append("...");
                            proof {
                                assert(desc_s@.subrange(0, 480) =~= desc_s@.take(480));
                            }
                            t
                        } else {
                            desc_s.clone()
                        }
                    },
                },
            };
            cooked.push(
                (
                    lang,
                    CookedGameL10n {
                        name: HtmlText::from_plain(name_s),
                        description: HtmlText::from_plain(desc_s),
                        brief_description: HtmlText::from_plain(brief_s),
                    },
                ),
            );
            i = i + 1;
        }
        let thumbnail = match import_image(&game.thumbnail, "game", game.id.as_str()) {
            Ok(hi) => hi,
            Err(e) => {
                return Err(e);
            },
        };
        Ok(
            GameWWW {
                id: game.id.clone(),
                cooked,
                cooked_nonl10n: CookedGameNonl10n { thumbnail },
            },
        )
    }
}

/// The locale's override block, if the entry carries one.
#[verifier::loop_isolation(false)]
fn find_l10n<'a>(l10n: &'a Vec<(LangId, GameL10n)>, lang: LangId) -> (r: Option<&'a GameL10n>)
    ensures
        (r is None) == (kv_lookup(l10n@, lang) is None),
        r matches Some(o) ==> kv_lookup(l10n@, lang) == Some(*o),
{
    let mut i: usize = 0;
    while i < l10n.len()
        invariant
            0 <= i <= l10n@.len(),
            forall|j: int| 0 <= j < i ==> (#[trigger] l10n@[j]).0 != lang,
        decreases l10n@.len() - i,
    {
        if l10n[i].0 == lang {
            proof {
                lemma_kv_index_of_first(l10n@, lang, i as int);
            }
            return Some(&l10n[i].1);
        }
        i = i + 1;
    }
    proof {
        lemma_kv_index_of_absent(l10n@, lang);
    }
    None
}

} // verus!
