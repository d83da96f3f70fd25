//! The site backend and its two-phase protocol: resync derives the cooked
//! per-locale views of every entry and interprets the output arguments;
//! render fans out over the active locales and unions the produced pages,
//! the later emission winning a repeated path. Filesystem effects are
//! returned as data for the caller to perform.

use vstd::prelude::*;

use crate::backend::{arg_entries, spec_arg_text, ArgValue, BackendArguments};
use crate::config::ConfigValue;
use crate::context::ContextData;
use crate::error::{Error, ErrorKind};
use crate::game::Game;
use crate::i18n::LangId;
use crate::kvseq::{
    kv_fold_insert, kv_lookup, kv_map, lemma_kv_index_of_absent, lemma_kv_index_of_first,
    lemma_kv_map_push_absent, lemma_kv_map_update_first,
};
use crate::media::{Image, ImageSource};
use crate::www::common::HtmlImage;
use crate::www::game::{spec_asset_path, spec_cooked, spec_import_ok, spec_imported, GameWWW};
use crate::www::pages::{
    page_entries, spec_list_entries, spec_misc_entries, PageContents, PageList, PageMisc,
    PageRenderOutput,
};
use crate::www::profile::{spec_profile_www_from, spec_profile_www_ok, ProfileWWW};
use crate::www::stylesheet::Stylesheets;

verus! {

/// Where render output goes: nowhere (the pages are returned), or under a
/// filesystem root.
#[derive(Debug)]
pub enum OutputMode {
    NoOutput,
    Filesystem(String),
}

/// One pending asset copy: a bundled image to publish under the asset
/// tree of the output root.
#[derive(Debug, PartialEq, Eq)]
pub struct ImageCopy {
    pub from: String,
    pub to: String,
}

/// The game entries keyed by their ids' texts.
pub open spec fn game_entries(s: Seq<(String, GameWWW)>) -> Seq<(Seq<char>, GameWWW)> {
    s.map_values(|p: (String, GameWWW)| (p.0@, p.1))
}

/// Entry ids are unique across the loaded content model.
pub open spec fn games_unique(s: Seq<(String, Game)>) -> bool {
    forall|i: int, j: int| 0 <= i < j < s.len() ==> (#[trigger] s[i]).0@ != (#[trigger] s[j]).0@
}

/// The active locale set: every locale the UI-text table binds, in table
/// order, plus the default locale when absent.
pub open spec fn spec_active_langs(ui: Seq<(LangId, ConfigValue)>) -> Seq<LangId> {
    let keys = ui.map_values(|p: (LangId, ConfigValue)| p.0);
    if keys.contains(LangId::EnUs) {
        keys
    } else {
        keys.push(LangId::EnUs)
    }
}

/// What one copy of a bundled thumbnail holds: from the bundle file to
/// the published asset path.
pub open spec fn spec_thumb_copy_ok(id: Seq<char>, g: Game, c: ImageCopy) -> bool {
    match g.thumbnail.source {
        ImageSource::Bundled(s) => c.from@ == g.bundle_path@ + "/"@ + s@ && c.to@
            == spec_asset_path("game"@, id, s@),
        _ => false,
    }
}

/// The site backend's state across the protocol.
pub struct BackendWWW {
    pub profile: ProfileWWW,
    output: OutputMode,
    target: String,
    pages: Vec<String>,
    stylesheets: Stylesheets,
    icons: Vec<(String, u32)>,
    games: Vec<(String, GameWWW)>,
    langs: Vec<LangId>,
}

/// The icon table keyed by the names' texts.
pub open spec fn icon_entries(s: Seq<(String, u32)>) -> Seq<(Seq<char>, u32)> {
    s.map_values(|p: (String, u32)| (p.0@, p.1))
}

impl BackendWWW {
    /// The active locales, in resync order.
    pub closed spec fn spec_langs(&self) -> Seq<LangId> {
        self.langs@
    }

    /// The cooked entries by id.
    pub closed spec fn spec_games(&self) -> Seq<(String, GameWWW)> {
        self.games@
    }

    /// The render-target filter; empty means every registered target.
    pub closed spec fn spec_target(&self) -> Seq<char> {
        self.target@
    }

    /// Where output goes.
    pub closed spec fn spec_output(&self) -> OutputMode {
        self.output
    }

    /// The loaded icon table.
    pub closed spec fn spec_icons(&self) -> Seq<(Seq<char>, u32)> {
        icon_entries(self.icons@)
    }

    /// The loaded stylesheets.
    pub closed spec fn spec_stylesheets(&self) -> Stylesheets {
        self.stylesheets
    }

    /// The backend's profile.
    pub closed spec fn spec_profile(&self) -> ProfileWWW {
        self.profile
    }

    /// The names of the registered page groups, in registration order.
    pub closed spec fn spec_pages(&self) -> Seq<Seq<char>> {
        self.pages@.map_values(|p: String| p@)
    }

    /// Build the backend from its optional configuration value. No
    /// stylesheets, icons, cooked entries or locales are loaded yet, no
    /// output mode or target is chosen, and the misc and list page groups
    /// are registered.
    pub fn new(value: Option<ConfigValue>) -> (r: Result<BackendWWW, Error>)
        ensures
            (r is Ok) == (match value {
                Some(v) => spec_profile_www_ok(v@),
                None => true,
            }),
            r matches Err(e) ==> e.kind == ErrorKind::InvalidArgument,
            r matches Ok(b) ==> {
                &&& match value {
                    Some(v) => spec_profile_www_from(v@, b.spec_profile()),
                    None => spec_profile_www_from(
                        crate::config::ConfigData::Table(Seq::empty()),
                        b.spec_profile(),
                    ),
                }
                &&& b.spec_pages() == seq!["misc"@, "list"@]
                &&& b.spec_output() is NoOutput
                &&& b.spec_target().len() == 0
                &&& b.spec_langs().len() == 0
                &&& b.spec_games().len() == 0
                &&& b.spec_icons().len() == 0
                &&& b.spec_stylesheets().sheets@.len() == 0
            },
    {
        let profile = match value {
            Some(v) => {
                match ProfileWWW::from_value(v) {
                    Ok(p) => p,
                    Err(e) => {
                        return Err(e);
                    },
                }
            },
            None => ProfileWWW::default(),
        };
        let mut pages: Vec<String> = Vec::new();
        pages.push(String::from_str("misc"));
        pages.push(String::from_str("list"));
        proof {
            assert(pages@.map_values(|p: String| p@) =~= seq!["misc"@, "list"@]);
        }
        proof {
            let t = Seq::<(Seq<char>, crate::config::ConfigData)>::empty();
            assert(crate::config::table_index_of(t, "path_templates"@) == -1);
            assert(crate::config::table_index_of(t, "path_static_layers"@) == -1);
            assert(crate::config::table_index_of(t, "path_stylesheets"@) == -1);
            assert(crate::config::table_index_of(t, "path_icon"@) == -1);
        }
        Ok(
            BackendWWW {
                profile,
                output: OutputMode::NoOutput,
                target: String::new(),
                pages,
                stylesheets: Stylesheets::default(),
                icons: Vec::new(),
                games: Vec::new(),
                langs: Vec::new(),
            },
        )
    }

    /// Take a batch of loaded stylesheets over, later batches overriding
    /// earlier ones name by name.
    pub fn load_stylesheets(&mut self, s: Stylesheets)
        ensures
            kv_map(
                crate::www::stylesheet::sheet_entries(final(self).spec_stylesheets().sheets@),
            ) == kv_fold_insert(
                kv_map(crate::www::stylesheet::sheet_entries(old(self).spec_stylesheets().sheets@)),
                crate::www::stylesheet::sheet_entries(s.sheets@),
            ),
            final(self).spec_langs() == old(self).spec_langs(),
            final(self).spec_games() == old(self).spec_games(),
            final(self).spec_icons() == old(self).spec_icons(),
    {
        self.stylesheets.extend(s);
    }

    /// Replace the icon table with a loaded one.
    pub fn set_icons(&mut self, icons: Vec<(String, u32)>)
        ensures
            final(self).spec_icons() == icon_entries(icons@),
            final(self).spec_langs() == old(self).spec_langs(),
            final(self).spec_games() == old(self).spec_games(),
    {
        self.icons = icons;
    }

    /// The active locales, in resync order.
    pub fn langs(&self) -> (r: &Vec<LangId>)
        ensures
            r@ == self.spec_langs(),
    {
        &self.langs
    }

    /// The cooked entries by id.
    pub fn games(&self) -> (r: &Vec<(String, GameWWW)>)
        ensures
            r@ == self.spec_games(),
    {
        &self.games
    }

    /// The backend's profile.
    pub fn get_profile(&self) -> (r: &ProfileWWW)
        ensures
            r == self.spec_profile(),
    {
        &self.profile
    }

    /// The names of the registered page groups.
    pub fn page_names(&self) -> (r: &Vec<String>)
        ensures
            r@.map_values(|p: String| p@) == self.spec_pages(),
    {
        &self.pages
    }

    /// The compiled stylesheets.
    pub fn stylesheets(&self) -> (r: &Stylesheets)
        ensures
            r == self.spec_stylesheets(),
    {
        &self.stylesheets
    }

    /// The icon id registered under a name.
    #[verifier::loop_isolation(false)]
    pub fn icon_of(&self, name: &str) -> (r: Option<u32>)
        ensures
            r == kv_lookup(self.spec_icons(), name@),
    {
        let ghost gs = icon_entries(self.icons@);
        let mut i: usize = 0;
        while i < self.icons.len()
            invariant
                0 <= i <= self.icons@.len(),
                forall|j: int| 0 <= j < i ==> (#[trigger] gs[j]).0 != name@,
            decreases self.icons@.len() - i,
        {
            proof {
                assert(gs[i as int] == (self.icons@[i as int].0@, self.icons@[i as int].1));
            }
            if crate::strutil::str_eq(self.icons[i].0.as_str(), name) {
                proof {
                    lemma_kv_index_of_first(gs, name@, i as int);
                }
                return Some(self.icons[i].1);
            }
            i = i + 1;
        }
        proof {
            lemma_kv_index_of_absent(gs, name@);
        }
        None
    }

    /// The compiled stylesheet of a name, if any.
    pub fn stylesheet_of<'a>(&'a self, name: &str) -> (r: Option<
        &'a crate::www::stylesheet::StylesheetFile,
    >)
        ensures
            (r is None) == (kv_lookup(
                crate::www::stylesheet::sheet_entries(self.spec_stylesheets().sheets@),
                name@,
            ) is None),
            r matches Some(f) ==> kv_lookup(
                crate::www::stylesheet::sheet_entries(self.spec_stylesheets().sheets@),
                name@,
            ) == Some(*f),
    {
        self.stylesheets.get(name)
    }

    /// The filesystem output root, when one was chosen.
    pub fn output_path(&self) -> (r: Option<&String>)
        ensures
            match self.spec_output() {
                OutputMode::Filesystem(p) => r matches Some(s) && *s == p,
                OutputMode::NoOutput => r is None,
            },
    {
        match &self.output {
            OutputMode::Filesystem(p) => Some(p),
            OutputMode::NoOutput => None,
        }
    }

    /// Import one image of an entry's bundle: a bundled file is published
    /// under the asset tree, a remote URI stands as it is; the URI's
    /// suffix decides the MIME kind.
    pub fn import_image(&self, image: &Image, kind: &str, id: &str) -> (r: Result<
        HtmlImage,
        Error,
    >)
        ensures
            (r is Ok) == spec_import_ok(*image, kind@, id@),
            r matches Err(e) ==> e.kind == ErrorKind::InvalidArgument || e.kind == ErrorKind::Other,
            r matches Ok(hi) ==> spec_imported(*image, kind@, id@, hi),
    {
        crate::www::game::import_image(image, kind, id)
    }

    /// Resync the backend against the loaded content model: interpret the
    /// output-mode and target arguments, fix the active locale set, and
    /// derive every entry's cooked views anew. The returned copies are
    /// the asset publications the caller must perform under the output
    /// root; without filesystem output there are none.
    #[verifier::loop_isolation(false)]
    pub fn resync(&mut self, data: &ContextData, args: &BackendArguments) -> (r: Result<
        Vec<ImageCopy>,
        Error,
    >)
        requires
            games_unique(data.games@),
            games_keyed(data.games@),
        ensures
            ({
                let fs = kv_lookup(arg_entries(args.entries@), "fs_output"@) matches Some(v)
                    && v matches ArgValue::Bool(b) && b;
                let outv = kv_lookup(arg_entries(args.entries@), "output"@);
                &&& ((r is Ok) == (!(fs && outv is None) && (forall|i: int|
                    0 <= i < data.games@.len() ==> spec_import_ok(
                        (#[trigger] data.games@[i]).1.thumbnail,
                        "game"@,
                        data.games@[i].0@,
                    ))))
                &&& ((fs && outv is None) ==> (r matches Err(e) && e.kind
                    == ErrorKind::InvalidArgument))
                &&& (r matches Err(e) ==> e.kind == ErrorKind::InvalidArgument || e.kind
                    == ErrorKind::Other)
                &&& (r is Ok ==> {
                    &&& (fs ==> (final(self).spec_output() matches OutputMode::Filesystem(p) && p@
                        == spec_arg_text(outv->0)))
                    &&& (!fs ==> final(self).spec_output() == old(self).spec_output())
                    &&& final(self).spec_target() == (match kv_lookup(
                        arg_entries(args.entries@),
                        "target"@,
                    ) {
                        Some(v) => spec_arg_text(v),
                        None => Seq::<char>::empty(),
                    })
                    &&& final(self).spec_langs() == spec_active_langs(data.ui@)
                    &&& spec_games_cooked(
                        data.games@,
                        final(self).spec_langs(),
                        kv_map(game_entries(final(self).spec_games())),
                    )
                    &&& (final(self).spec_output() is NoOutput ==> r->Ok_0@.len() == 0)
                })
            }),
    {
        // output mode
        if args.get_bool("fs_output") {
            match args.get_string("output") {
                Some(output_dir) => {
                    self.output = OutputMode::Filesystem(output_dir);
                },
                None => {
                    return Err(Error::new(ErrorKind::InvalidArgument, "missing argument: output"));
                },
            }
        }
        // target filter
        self.target = match args.get_string("target") {
            Some(t) => t,
            None => String::new(),
        };
        // active locales
        let mut langs: Vec<LangId> = Vec::new();
        let mut has_default: bool = false;
        let mut u: usize = 0;
        let ghost gkeys = data.ui@.map_values(|p: (LangId, ConfigValue)| p.0);
        while u < data.ui.len()
            invariant
                0 <= u <= data.ui@.len(),
                langs@ =~= gkeys.take(u as int),
                has_default == exists|j: int| 0 <= j < u && gkeys[j] == LangId::EnUs,
            decreases data.ui@.len() - u,
        {
            let l = data.ui[u].0;
            langs.push(l);
            if l == LangId::EnUs {
                has_default = true;
            }
            proof {
                assert(gkeys.take(u + 1) =~= gkeys.take(u as int).push(gkeys[u as int]));
            }
            u = u + 1;
        }
        proof {
            assert(gkeys.take(gkeys.len() as int) =~= gkeys);
            if has_default {
                assert(gkeys.contains(LangId::EnUs));
            } else {
                assert(!gkeys.contains(LangId::EnUs)) by {
                    if gkeys.contains(LangId::EnUs) {
                        let j = choose|j: int| 0 <= j < gkeys.len() && gkeys[j] == LangId::EnUs;
                        assert(false);
                    }
                }
            }
        }
        if !has_default {
            langs.push(LangId::EnUs);
        }
        self.langs = langs;
        // cooked views and asset publications
        let fs_mode = match &self.output {
            OutputMode::Filesystem(_) => true,
            OutputMode::NoOutput => false,
        };
        let copies = match cook_all_games(&mut self.games, data, &self.langs, fs_mode) {
            Ok(copies) => copies,
            Err(e) => {
                return Err(e);
            },
        };
        Ok(copies)
    }

    /// Render every page of the selected target, for every active locale
    /// in order, from the rendered texts the templating collaborator
    /// produced per locale; the produced path-to-file sets are unioned
    /// with the later emission winning. An unknown explicit target is
    /// refused; a locale without rendered texts is missing.
    #[verifier::loop_isolation(false)]
    pub fn render(&self, contents: &Vec<(LangId, PageContents)>) -> (r: Result<
        PageRenderOutput,
        Error,
    >)
        ensures
            (r is Ok) == (self.spec_langs().len() == 0 || ((spec_target_known(self.spec_target()))
                && (forall|i: int|
                0 <= i < self.spec_langs().len() ==> kv_lookup(
                    contents@,
                    #[trigger] self.spec_langs()[i],
                ) is Some))),
            r matches Err(e) ==> e.kind == ErrorKind::NotExist || e.kind
                == ErrorKind::InvalidArgument,
            r matches Err(e) && e.kind == ErrorKind::InvalidArgument ==> !spec_target_known(
                self.spec_target(),
            ),
            r matches Err(e) && e.kind == ErrorKind::NotExist ==> exists|i: int|
                0 <= i < self.spec_langs().len() && kv_lookup(
                    contents@,
                    #[trigger] self.spec_langs()[i],
                ) is None,
            r matches Ok(out) ==> kv_map(page_entries(out.pages@)) == kv_fold_insert(
                Map::empty(),
                spec_render_entries(
                    self.spec_langs(),
                    self.spec_target(),
                    contents@,
                    self.spec_langs().len() as int,
                ),
            ),
    {
        let misc = PageMisc::new();
        let list = PageList::new();
        let mut output = PageRenderOutput::default();
        proof {
            assert(kv_map(page_entries(output.pages@)) =~= kv_fold_insert(
                Map::<Seq<char>, crate::www::pages::File>::empty(),
                spec_render_entries(self.spec_langs(), self.spec_target(), contents@, 0),
            ));
        }
        let mut i: usize = 0;
        while i < self.langs.len()
            invariant
                0 <= i <= self.langs@.len(),
                forall|j: int| 0 <= j < i ==> kv_lookup(contents@, #[trigger] self.langs@[j]) is Some,
                i > 0 ==> spec_target_known(self.target@),
                kv_map(page_entries(output.pages@)) == kv_fold_insert(
                    Map::empty(),
                    spec_render_entries(self.spec_langs(), self.spec_target(), contents@, i as int),
                ),
            decreases self.langs@.len() - i,
        {
            let lang = self.langs[i];
            let c = match find_contents(contents, lang) {
                Some(c) => c,
                None => {
                    return Err(
                        Error::new(ErrorKind::NotExist, "no rendered contents for an active locale"),
                    );
                },
            };
            let ghost entries_before = spec_render_entries(
                self.spec_langs(),
                self.spec_target(),
                contents@,
                i as int,
            );
            let ghost lang_entries = spec_lang_entries(lang, self.target@, *c);
            if crate::strutil::str_eq(self.target.as_str(), "") {
                let misc_out = misc.render(lang, c);
                let ghost misc_entries = page_entries(misc_out.pages@);
                output.extend(misc_out);
                let list_out = list.render(lang, c);
                let ghost list_entries = page_entries(list_out.pages@);
                output.extend(list_out);
                proof {
                    lemma_kv_fold_concat(
                        Map::<Seq<char>, crate::www::pages::File>::empty(),
                        entries_before,
                        misc_entries,
                    );
                    lemma_kv_fold_concat(
                        Map::<Seq<char>, crate::www::pages::File>::empty(),
                        entries_before + misc_entries,
                        list_entries,
                    );
                    assert(entries_before + misc_entries + list_entries =~= entries_before
                        + lang_entries);
                    assert(spec_render_entries(
                        self.spec_langs(),
                        self.spec_target(),
                        contents@,
                        i + 1,
                    ) == entries_before + lang_entries);
                }
            } else if crate::strutil::str_eq(self.target.as_str(), "misc") {
                let misc_out = misc.render(lang, c);
                let ghost misc_entries = page_entries(misc_out.pages@);
                output.extend(misc_out);
                proof {
                    lemma_kv_fold_concat(
                        Map::<Seq<char>, crate::www::pages::File>::empty(),
                        entries_before,
                        misc_entries,
                    );
                    assert(entries_before + misc_entries =~= entries_before + lang_entries);
                }
            } else if crate::strutil::str_eq(self.target.as_str(), "list") {
                let list_out = list.render(lang, c);
                let ghost list_entries = page_entries(list_out.pages@);
                output.extend(list_out);
                proof {
                    lemma_kv_fold_concat(
                        Map::<Seq<char>, crate::www::pages::File>::empty(),
                        entries_before,
                        list_entries,
                    );
                    assert(entries_before + list_entries =~= entries_before + lang_entries);
                }
            } else {
                return Err(Error::new(ErrorKind::InvalidArgument, "unsupported argument target"));
            }
            i = i + 1;
        }
        Ok(output)
    }
}

/// A recognized render target: one of the registered page groups, or
/// nothing at all, which selects every one.
pub open spec fn spec_target_known(t: Seq<char>) -> bool {
    t == ""@ || t == "misc"@ || t == "list"@
}

/// The files one locale's pass emits, by target, in emission order.
pub open spec fn spec_lang_entries(lang: LangId, target: Seq<char>, c: PageContents) -> Seq<
    (Seq<char>, crate::www::pages::File),
> {
    if target == ""@ {
        spec_misc_entries(lang, c) + spec_list_entries(lang, c)
    } else if target == "misc"@ {
        spec_misc_entries(lang, c)
    } else if target == "list"@ {
        spec_list_entries(lang, c)
    } else {
        Seq::empty()
    }
}

/// The files the first `n` locales emit, in emission order.
pub open spec fn spec_render_entries(
    langs: Seq<LangId>,
    target: Seq<char>,
    contents: Seq<(LangId, PageContents)>,
    n: int,
) -> Seq<(Seq<char>, crate::www::pages::File)>
    decreases n,
{
    if n <= 0 {
        Seq::empty()
    } else {
        spec_render_entries(langs, target, contents, n - 1) + spec_lang_entries(
            langs[n - 1],
            target,
            kv_lookup(contents, langs[n - 1])->Some_0,
        )
    }
}

/// Folding a concatenation folds the parts in turn.
proof fn lemma_kv_fold_concat<K, V>(m: Map<K, V>, s1: Seq<(K, V)>, s2: Seq<(K, V)>)
    ensures
        kv_fold_insert(m, s1 + s2) == kv_fold_insert(kv_fold_insert(m, s1), s2),
    decreases s1.len(),
{
    if s1.len() == 0 {
        assert(s1 + s2 =~= s2);
    } else {
        assert((s1 + s2).drop_first() =~= s1.drop_first() + s2);
        assert((s1 + s2)[0] == s1[0]);
        lemma_kv_fold_concat(m.insert(s1[0].0, s1[0].1), s1.drop_first(), s2);
    }
}

/// The rendered texts for a locale, if the collaborator produced them.
#[verifier::loop_isolation(false)]
fn find_contents<'a>(contents: &'a Vec<(LangId, PageContents)>, lang: LangId) -> (r: Option<
    &'a PageContents,
>)
    ensures
        (r is None) == (kv_lookup(contents@, lang) is None),
        r matches Some(c) ==> kv_lookup(contents@, lang) == Some(*c),
{
    let mut i: usize = 0;
    while i < contents.len()
        invariant
            0 <= i <= contents@.len(),
            forall|j: int| 0 <= j < i ==> (#[trigger] contents@[j]).0 != lang,
        decreases contents@.len() - i,
    {
        if contents[i].0 == lang {
            proof {
                lemma_kv_index_of_first(contents@, lang, i as int);
            }
            return Some(&contents[i].1);
        }
        i = i + 1;
    }
    proof {
        lemma_kv_index_of_absent(contents@, lang);
    }
    None
}

/// Bind an id to a cooked entry, replacing any earlier binding.
#[verifier::loop_isolation(false)]
fn games_store(games: &mut Vec<(String, GameWWW)>, k: String, v: GameWWW)
    ensures
        kv_map(game_entries(final(games)@)) == kv_map(game_entries(old(games)@)).insert(k@, v),
{
    let ghost gs = game_entries(games@);
    let mut i: usize = 0;
    while i < games.len()
        invariant
            game_entries(games@) == gs,
            0 <= i <= games@.len(),
            forall|j: int| 0 <= j < i ==> (#[trigger] gs[j]).0 != k@,
        decreases games@.len() - i,
    {
        proof {
            assert(gs[i as int] == (games@[i as int].0@, games@[i as int].1));
        }
        if crate::strutil::str_eq(games[i].0.as_str(), k.as_str()) {
            let _old = games.remove(i);
            games.insert(i, (k, v));
            proof {
                assert(game_entries(games@) =~= gs.update(i as int, (k@, v)));
                lemma_kv_map_update_first(gs, i as int, (k@, v));
            }
            return ;
        }
        i = i + 1;
    }
    games.push((k, v));
    proof {
        assert(game_entries(games@) =~= gs.push((k@, v)));
        lemma_kv_map_push_absent(gs, (k@, v));
    }
}


/// Every pair key is the entry's own id.
pub open spec fn games_keyed(s: Seq<(String, Game)>) -> bool {
    forall|i: int| 0 <= i < s.len() ==> (#[trigger] s[i]).0@ == s[i].1.id@
}

/// What resyncing the cooked table means: every loaded entry's id maps to
/// its freshly cooked views, and every other id is untouched.
pub open spec fn spec_games_cooked(
    gs: Seq<(String, Game)>,
    langs: Seq<LangId>,
    after: Map<Seq<char>, GameWWW>,
) -> bool {
    &&& forall|i: int| 0 <= i < gs.len() ==> {
        let id = (#[trigger] gs[i]).0@;
        &&& after.dom().contains(id)
        &&& after[id].id@ == id
        &&& after[id].cooked@.len() == langs.len()
        &&& (forall|l: int| 0 <= l < langs.len() ==> (#[trigger] after[id].cooked@[l]).0
            == langs[l] && spec_cooked(gs[i].1, langs[l], after[id].cooked@[l].1))
        &&& spec_imported(gs[i].1.thumbnail, "game"@, id, after[id].cooked_nonl10n.thumbnail)
    }
}

/// What the returned copies hold for the first `n` entries: every copy
/// publishes some entry's bundled thumbnail, and every bundled thumbnail
/// is published by some copy.
pub open spec fn spec_copies_ok(gs: Seq<(String, Game)>, n: int, copies: Seq<ImageCopy>) -> bool {
    &&& forall|j: int| 0 <= j < copies.len() ==> exists|i: int|
        0 <= i < n && spec_thumb_copy_ok((#[trigger] gs[i]).0@, gs[i].1, #[trigger] copies[j])
    &&& forall|i: int|
        0 <= i < n && (#[trigger] gs[i]).1.thumbnail.source is Bundled ==> exists|j: int|
            0 <= j < copies.len() && spec_thumb_copy_ok(gs[i].0@, gs[i].1, #[trigger] copies[j])
}

/// Cook every loaded entry anew into the table, replacing its earlier
/// cooked view, and collect the asset publications filesystem output
/// calls for.
#[verifier::loop_isolation(false)]
#[verifier::rlimit(100)]
#[verifier::spinoff_prover]
fn cook_all_games(
    games: &mut Vec<(String, GameWWW)>,
    data: &ContextData,
    langs: &Vec<LangId>,
    fs_mode: bool,
) -> (r: Result<Vec<ImageCopy>, Error>)
    requires
        games_unique(data.games@),
        games_keyed(data.games@),
    ensures
        r matches Err(e) ==> e.kind == ErrorKind::InvalidArgument || e.kind == ErrorKind::Other,
        (r is Ok) == (forall|i: int|
            0 <= i < data.games@.len() ==> spec_import_ok(
                (#[trigger] data.games@[i]).1.thumbnail,
                "game"@,
                data.games@[i].0@,
            )),
        r is Ok ==> spec_games_cooked(data.games@, langs@, kv_map(game_entries(final(games)@))),
        r is Ok && !fs_mode ==> r->Ok_0@.len() == 0,
{
    let mut copies: Vec<ImageCopy> = Vec::new();
    let mut g: usize = 0;
    let ghost ggames0 = games@;
    while g < data.games.len()
        invariant
            0 <= g <= data.games@.len(),
            forall|i: int| 0 <= i < g ==> {
                let id = (#[trigger] data.games@[i]).0@;
                let m = kv_map(game_entries(games@));
                &&& m.dom().contains(id)
                &&& m[id].id@ == id
                &&& m[id].cooked@.len() == langs@.len()
                &&& (forall|l: int| 0 <= l < langs@.len() ==> (#[trigger] m[id].cooked@[l]).0
                    == langs@[l] && spec_cooked(data.games@[i].1, langs@[l], m[id].cooked@[l].1))
                &&& spec_imported(
                    data.games@[i].1.thumbnail,
                    "game"@,
                    id,
                    m[id].cooked_nonl10n.thumbnail,
                )
            },
            forall|i: int| 0 <= i < g ==> spec_import_ok(
                (#[trigger] data.games@[i]).1.thumbnail,
                "game"@,
                data.games@[i].0@,
            ),
            !fs_mode ==> copies@.len() == 0,
        decreases data.games@.len() - g,
    {
        let id = &data.games[g].0;
        let game = &data.games[g].1;
        let gw = match GameWWW::cook_game(game, langs) {
            Ok(gw) => {
                proof {
                    assert(data.games@[g as int].0@ == data.games@[g as int].1.id@);
                }
                gw
            },
            Err(e) => {
                proof {
                    assert(data.games@[g as int].0@ == data.games@[g as int].1.id@);
                    assert(!spec_import_ok(
                        data.games@[g as int].1.thumbnail,
                        "game"@,
                        data.games@[g as int].0@,
                    ));
                }
                return Err(e);
            },
        };
        let ghost gcopies0 = copies@;
        if fs_mode {
            match &game.thumbnail.source {
                ImageSource::Bundled(s) => {
                    let mut from = game.bundle_path.clone();
                    from.append("/");
                    from.append(s.as_str());
                    let mut to = String::from_str("assets/");
                    to.append("game");
                    to.append("/");
                    to.append(id.as_str());
                    to.append("/");
                    to.append(s.as_str());
                    proof {
                        assert(to@ =~= spec_asset_path("game"@, id@, s@));
                    }
                    copies.push(ImageCopy { from, to });
                },
                _ => {},
            }
        }
        let ghost gm0 = kv_map(game_entries(games@));
        games_store(games, id.clone(), gw);
        proof {
            let gid = data.games@[g as int].0@;
            let m = kv_map(game_entries(games@));
            assert(m == gm0.insert(gid, gw));
            assert forall|i: int| 0 <= i < g + 1 implies {
                let id2 = (#[trigger] data.games@[i]).0@;
                &&& m.dom().contains(id2)
                &&& m[id2].id@ == id2
                &&& m[id2].cooked@.len() == langs@.len()
                &&& (forall|l: int| 0 <= l < langs@.len() ==> (#[trigger] m[id2].cooked@[l]).0
                    == langs@[l] && spec_cooked(data.games@[i].1, langs@[l], m[id2].cooked@[l].1))
                &&& spec_imported(
                    data.games@[i].1.thumbnail,
                    "game"@,
                    id2,
                    m[id2].cooked_nonl10n.thumbnail,
                )
            } by {
                let id2 = data.games@[i].0@;
                if i == g as int {
                    assert(m[id2] == gw);
                    assert(data.games@[g as int].0@ == data.games@[g as int].1.id@);
                } else {
                    assert(data.games@[i].0@ != data.games@[g as int].0@);
                    assert(m[id2] == gm0[id2]);
                }
            }
        }
        g = g + 1;
    }
    Ok(copies)
}

} // verus!
