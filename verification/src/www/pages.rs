//! Page outputs: the path-to-file sets pages produce, their last-writer-
//! wins union, and the page groups (misc pages and the entry list). The
//! markup itself comes from the external templating collaborator; what a
//! page does with rendered text is verified.

use vstd::prelude::*;

use crate::error::{Error, ErrorKind};
use crate::i18n::{spec_as_str, LangId};
use crate::kvseq::{kv_fold_insert, kv_map, lemma_kv_map_push_absent, lemma_kv_map_update_first};

verus! {

/// A produced file: regular contents, or a symbolic link to a path.
#[derive(Debug, PartialEq, Eq)]
pub enum File {
    Regular(String),
    Symlink(String),
}

/// The files a render pass produced, by output path.
#[derive(Debug)]
pub struct PageRenderOutput {
    pub pages: Vec<(String, File)>,
}

/// The bindings of a render output, keyed by the paths' texts.
pub open spec fn page_entries(s: Seq<(String, File)>) -> Seq<(Seq<char>, File)> {
    s.map_values(|p: (String, File)| (p.0@, p.1))
}

impl Default for PageRenderOutput {
    /// No files.
    fn default() -> (r: Self)
        ensures
            r.pages@.len() == 0,
    {
        PageRenderOutput { pages: Vec::new() }
    }
}

impl PageRenderOutput {
    /// One regular file.
    pub fn single_page(path: String, content: String) -> (r: Self)
        ensures
            r.pages@.len() == 1,
            r.pages@[0].0 == path,
            r.pages@[0].1 == File::Regular(content),
    {
        let mut pages: Vec<(String, File)> = Vec::new();
        pages.push((path, File::Regular(content)));
        PageRenderOutput { pages }
    }

    /// Take every file of `b` over; a repeated path is overwritten by the
    /// later emission.
    #[verifier::loop_isolation(false)]
    pub fn extend(&mut self, b: PageRenderOutput)
        ensures
            kv_map(page_entries(final(self).pages@)) == kv_fold_insert(
                kv_map(page_entries(old(self).pages@)),
                page_entries(b.pages@),
            ),
    {
        let mut rest = b.pages;
        let ghost gb = page_entries(rest@);
        let ghost mut c: int = 0;
        proof {
            assert(gb.skip(0) =~= gb);
        }
        while rest.len() > 0
            invariant
                0 <= c <= gb.len(),
                page_entries(rest@) =~= gb.skip(c),
                kv_fold_insert(kv_map(page_entries(old(self).pages@)), gb) == kv_fold_insert(
                    kv_map(page_entries(self.pages@)),
                    gb.skip(c),
                ),
            decreases rest@.len(),
        {
            let (k, v) = rest.remove(0);
            proof {
                assert(page_entries(rest@) =~= gb.skip(c).drop_first());
                assert(gb.skip(c).drop_first() =~= gb.skip(c + 1));
                assert(gb.skip(c)[0] == (k@, v));
                c = c + 1;
            }
            self.store(k, v);
        }
        proof {
            assert(gb.skip(gb.len() as int) =~= Seq::<(Seq<char>, File)>::empty());
        }
    }

    /// Bind a path to a file, replacing any earlier binding.
    #[verifier::loop_isolation(false)]
    fn store(&mut self, k: String, v: File)
        ensures
            kv_map(page_entries(final(self).pages@)) == kv_map(
                page_entries(old(self).pages@),
            ).insert(k@, v),
    {
        let ghost gs = page_entries(self.pages@);
        let mut i: usize = 0;
        while i < self.pages.len()
            invariant
                page_entries(self.pages@) == gs,
                0 <= i <= self.pages@.len(),
                forall|j: int| 0 <= j < i ==> (#[trigger] gs[j]).0 != k@,
            decreases self.pages@.len() - i,
        {
            proof {
                assert(gs[i as int] == (self.pages@[i as int].0@, self.pages@[i as int].1));
            }
            if crate::strutil::str_eq(self.pages[i].0.as_str(), k.as_str()) {
                let _old = self.pages.remove(i);
                self.pages.insert(i, (k, v));
                proof {
                    assert(page_entries(self.pages@) =~= gs.update(i as int, (k@, v)));
                    lemma_kv_map_update_first(gs, i as int, (k@, v));
                }
                return ;
            }
            i = i + 1;
        }
        self.pages.push((k, v));
        proof {
            assert(page_entries(self.pages@) =~= gs.push((k@, v)));
            lemma_kv_map_push_absent(gs, (k@, v));
        }
    }
}

/// The metadata block a page can carry.
#[derive(Debug)]
pub struct CVMeta {
    pub title: String,
    pub keywords: String,
    pub description: String,
    pub image: String,
}

impl Default for CVMeta {
    /// Empty metadata.
    fn default() -> (r: Self)
        ensures
            r.title@.len() == 0,
            r.keywords@.len() == 0,
            r.description@.len() == 0,
            r.image@.len() == 0,
    {
        CVMeta {
            title: String::new(),
            keywords: String::new(),
            description: String::new(),
            image: String::new(),
        }
    }
}

/// The variables every page template receives.
#[derive(Debug)]
pub struct TemplateCommonVariables {
    pub meta: Option<CVMeta>,
    pub noindex: bool,
    pub extra_styles: Option<String>,
}

impl Default for TemplateCommonVariables {
    /// No metadata, indexable, no extra styles.
    fn default() -> (r: Self)
        ensures
            r.meta is None,
            !r.noindex,
            r.extra_styles is None,
    {
        TemplateCommonVariables { meta: None, noindex: false, extra_styles: None }
    }
}

/// The rendered texts the external templating collaborator produced for
/// one locale, one per page template.
#[derive(Debug)]
pub struct PageContents {
    pub index_html: String,
    pub languages_html: String,
    pub notfound_html: String,
    pub list_html: String,
}

/// The output path of a localized page: the locale's tag followed by the
/// page's path.
pub open spec fn spec_lang_path(lang: LangId, tail: Seq<char>) -> Seq<char> {
    spec_as_str(lang) + tail
}

/// The files the misc page group emits for a locale: the localized index
/// always, the language list and the not-found page only under the
/// default locale.
pub open spec fn spec_misc_entries(lang: LangId, c: PageContents) -> Seq<(Seq<char>, File)> {
    if lang == LangId::EnUs {
        seq![
            (spec_lang_path(lang, "/index.html"@), File::Regular(c.index_html)),
            ("languages.html"@, File::Regular(c.languages_html)),
            ("404.html"@, File::Regular(c.notfound_html)),
        ]
    } else {
        seq![(spec_lang_path(lang, "/index.html"@), File::Regular(c.index_html))]
    }
}

/// The files the list page group emits for a locale.
pub open spec fn spec_list_entries(lang: LangId, c: PageContents) -> Seq<(Seq<char>, File)> {
    seq![(spec_lang_path(lang, "/list.html"@), File::Regular(c.list_html))]
}

/// The misc page group: the index, the language list and the not-found
/// page.
#[derive(Debug)]
pub struct PageMisc {}

impl PageMisc {
    /// The misc page group.
    pub fn new() -> (r: Self) {
        Self {  }
    }

    /// Place one rendered page: under its locale's directory when it is
    /// localized, at its bare path — and only for the default locale —
    /// when it is not.
    pub fn render_page(lang: LangId, rendered: String, output_fn: &str, i18n_support: bool) -> (r:
        PageRenderOutput)
        ensures
            i18n_support ==> r.pages@.len() == 1 && r.pages@[0].0@ == spec_lang_path(
                lang,
                output_fn@,
            ) && r.pages@[0].1 == File::Regular(rendered),
            !i18n_support && lang == LangId::EnUs ==> r.pages@.len() == 1 && r.pages@[0].0@
                == output_fn@ && r.pages@[0].1 == File::Regular(rendered),
            !i18n_support && lang != LangId::EnUs ==> r.pages@.len() == 0,
    {
        if !i18n_support && !(lang == LangId::EnUs) {
            return PageRenderOutput::default();
        }
        if i18n_support {
            let mut path = lang.as_str();
            path.append(output_fn);
            PageRenderOutput::single_page(path, rendered)
        } else {
            PageRenderOutput::single_page(output_fn.to_owned(), rendered)
        }
    }

    /// Emit the group's pages for one locale from their rendered texts.
    pub fn render(&self, lang: LangId, contents: &PageContents) -> (r: PageRenderOutput)
        ensures
            page_entries(r.pages@) == spec_misc_entries(lang, *contents),
    {
        let mut ret = PageRenderOutput::default();
        let index = Self::render_page(lang, contents.index_html.clone(), "/index.html", true);
        let mut index_pages = index.pages;
        ret.pages.append(&mut index_pages);
        let languages = Self::render_page(
            lang,
            contents.languages_html.clone(),
            "languages.html",
            false,
        );
        let mut languages_pages = languages.pages;
        ret.pages.append(&mut languages_pages);
        let notfound = Self::render_page(lang, contents.notfound_html.clone(), "404.html", false);
        let mut notfound_pages = notfound.pages;
        ret.pages.append(&mut notfound_pages);
        proof {
            assert(page_entries(ret.pages@) =~= spec_misc_entries(lang, *contents));
        }
        ret
    }
}

/// The entry-list page group.
#[derive(Debug)]
pub struct PageList {}

impl PageList {
    /// The entry-list page group.
    pub fn new() -> (r: Self) {
        Self {  }
    }

    /// Emit the list page for one locale from its rendered text.
    pub fn render(&self, lang: LangId, contents: &PageContents) -> (r: PageRenderOutput)
        ensures
            page_entries(r.pages@) == spec_list_entries(lang, *contents),
    {
        let mut path = lang.as_str();
        path.append("/list.html");
        let r = PageRenderOutput::single_page(path, contents.list_html.clone());
        proof {
            assert(page_entries(r.pages@) =~= spec_list_entries(lang, *contents));
        }
        r
    }
}

/// The site index page group.
#[derive(Debug)]
pub struct PageIndex {}

impl PageIndex {
    /// The site index page group.
    pub fn new() -> (r: Self) {
        Self {  }
    }
}

} // verus!
