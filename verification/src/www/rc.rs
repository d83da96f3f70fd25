//! The per-page render context: icon markup lookup with its fallback
//! chain, and cache-busting resource URLs for static files and compiled
//! stylesheets. Only the probe of the filesystem is trusted; every
//! decision on its outcome is verified.

use vstd::prelude::*;

use crate::context::ContextData;
use crate::error::{Error, ErrorKind};
use crate::i18n::LangId;
use crate::kvseq::{kv_lookup, lemma_kv_index_of_absent, lemma_kv_index_of_first};
use crate::strutil::{spec_nat_to_string, u64_to_string};
use crate::www::backend::BackendWWW;

verus! {

/// Relies on `std::path::Path::metadata` and `SystemTime::duration_since`:
/// the file's modification time in seconds since the epoch, or nothing
/// when the file cannot be read. The outcome depends on the filesystem,
/// so nothing is promised of it.
#[verifier::external_body]
fn file_mtime(path: &str) -> Option<u64> {
    let md = std::path::Path::new(path).metadata().ok()?;
    let t = md.modified().ok()?;
    let d = t.duration_since(std::time::UNIX_EPOCH).ok()?;
    Some(d.as_secs())
}

/// The icon markup for an id: a span carrying the icon font codepoint.
pub open spec fn spec_icon_markup(id: u32) -> Seq<char> {
    "<span class=\"icon\" data-icon=\"&#"@ + spec_nat_to_string(id as nat)
        + ";\" aria-hidden=\"true\"></span>"@
}

/// The icon an (scope, name) pair resolves to: the exact name, else the
/// scope's fallback, else the global fallback.
pub open spec fn spec_icon_id(
    icons: Seq<(Seq<char>, u32)>,
    scope: Seq<char>,
    name: Seq<char>,
) -> Option<u32> {
    match kv_lookup(icons, scope + "-"@ + name) {
        Some(id) => Some(id),
        None => match kv_lookup(icons, scope + "-fallback"@) {
            Some(id) => Some(id),
            None => kv_lookup(icons, "misc-fallback"@),
        },
    }
}

/// A cache-busting resource URL: the file under the relative root and
/// prefix, marked with its modification time.
pub open spec fn spec_res_url(
    rr: Seq<char>,
    prefix: Seq<char>,
    file: Seq<char>,
    mtime: u64,
) -> Seq<char> {
    rr + "/"@ + prefix + file + "?hc=uquery&t="@ + spec_nat_to_string(mtime as nat)
}

/// The state one page render runs against: the backend, the content
/// model, and the locale being rendered.
pub struct RenderContext<'a> {
    pub backend: &'a BackendWWW,
    pub data: &'a ContextData,
    pub lang: LangId,
}

impl RenderContext<'_> {
    /// The icon markup for a scope and name, falling back to the scope's
    /// own and then the global fallback icon; with no fallback at all the
    /// icon does not exist.
    pub fn icon(&self, scope: &str, name: &str) -> (r: Result<String, Error>)
        ensures
            (r is Ok) == (spec_icon_id(self.backend.spec_icons(), scope@, name@) is Some),
            r matches Ok(s) ==> s@ == spec_icon_markup(
                spec_icon_id(self.backend.spec_icons(), scope@, name@)->0,
            ),
            r matches Err(e) ==> e.kind == ErrorKind::NotExist,
    {
        let mut exact = scope.to_owned();
        exact.append("-");
        exact.append(name);
        let id: u32 = match self.backend.icon_of(exact.as_str()) {
            Some(id) => id,
            None => {
                let mut fallback = scope.to_owned();
                fallback.append("-fallback");
                match self.backend.icon_of(fallback.as_str()) {
                    Some(id) => id,
                    None => {
                        match self.backend.icon_of("misc-fallback") {
                            Some(id) => id,
                            None => {
                                return Err(
                                    Error::new(
                                        ErrorKind::NotExist,
                                        "no global fallback, check the icon set",
                                    ),
                                );
                            },
                        }
                    },
                }
            },
        };
        let mut out = String::from_str("<span class=\"icon\" data-icon=\"&#");
        let digits = u64_to_string(id as u64);
        out.append(digits.as_str());
        out.append(";\" aria-hidden=\"true\"></span>");
        proof {
            assert(out@ =~= spec_icon_markup(spec_icon_id(
                self.backend.spec_icons(),
                scope@,
                name@,
            )->0));
        }
        Ok(out)
    }

    /// A cache-busting URL for a file of one of the layered directories:
    /// the last layer holding the file wins, and its modification time
    /// marks the URL. A file no layer holds does not exist.
    #[verifier::loop_isolation(false)]
    pub fn find_local_file(dirs: &Vec<String>, rr: &str, file: &str, output_prefix: &str) -> (r:
        Result<String, Error>)
        ensures
            r matches Ok(s) ==> exists|m: u64| s@ == spec_res_url(rr@, output_prefix@, file@, m),
            r matches Err(e) ==> e.kind == ErrorKind::NotExist || e.kind == ErrorKind::Other,
    {
        let mut i: usize = dirs.len();
        while i > 0
            invariant
                0 <= i <= dirs@.len(),
            decreases i,
        {
            i = i - 1;
            let mut p = dirs[i].clone();
            p.append("/");
            p.append(file);
            if crate::media::path_is_file(p.as_str()) {
                let mtime = match file_mtime(p.as_str()) {
                    Some(m) => m,
                    None => {
                        return Err(
                            Error::new(ErrorKind::Other, "can not read the file's metadata"),
                        );
                    },
                };
                let mut url = rr.to_owned();
                url.append("/");
                url.append(output_prefix);
                url.append(file);
                url.append("?hc=uquery&t=");
                let digits = u64_to_string(mtime);
                url.append(digits.as_str());
                proof {
                    assert(url@ =~= spec_res_url(rr@, output_prefix@, file@, mtime));
                }
                return Ok(url);
            }
        }
        Err(Error::new(ErrorKind::NotExist, "no layer holds the requested file"))
    }

    /// A cache-busting URL for a resource: static-layer files under the
    /// bare root, icon files under their prefix, and compiled stylesheets
    /// by name; any other scope is refused.
    pub fn res(&self, rr: &str, scope: &str, file: &str) -> (r: Result<String, Error>)
        ensures
            (scope@ == "styles"@) ==> {
                match kv_lookup(
                    crate::www::stylesheet::sheet_entries(
                        self.backend.spec_stylesheets().sheets@,
                    ),
                    file@,
                ) {
                    Some(ss) => r matches Ok(s) && s@ == rr@ + "/"@ + file@ + "?hc=uquery&t="@
                        + spec_nat_to_string(ss.mtime as nat),
                    None => r matches Err(e) && e.kind == ErrorKind::NotExist,
                }
            },
            (scope@ == ""@ || scope@ == "root"@ || scope@ == "icons"@) ==> {
                &&& (r matches Ok(s) ==> exists|m: u64, prefix: Seq<char>| s@ == spec_res_url(
                    rr@,
                    prefix,
                    file@,
                    m,
                ))
                &&& (r matches Err(e) ==> e.kind == ErrorKind::NotExist || e.kind
                    == ErrorKind::Other)
            },
            !(scope@ == ""@ || scope@ == "root"@ || scope@ == "icons"@ || scope@ == "styles"@)
                ==> (r matches Err(e) && e.kind == ErrorKind::InvalidArgument),
    {
        proof {
            reveal_strlit("");
            reveal_strlit("root");
            reveal_strlit("icons");
            reveal_strlit("styles");
            assert(""@.len() == 0);
            assert("root"@.len() == 4);
            assert("icons"@.len() == 5);
            assert("styles"@.len() == 6);
        }
        if crate::strutil::str_eq(scope, "") || crate::strutil::str_eq(scope, "root") {
            Self::find_local_file(&self.backend.get_profile().path_static_layers, rr, file, "")
        } else if crate::strutil::str_eq(scope, "icons") {
            Self::find_local_file(&self.backend.get_profile().path_icon, rr, file, "icons/")
        } else if crate::strutil::str_eq(scope, "styles") {
            match self.backend.stylesheet_of(file) {
                Some(ss) => {
                    let mut url = rr.to_owned();
                    url.append("/");
                    url.append(file);
                    url.append("?hc=uquery&t=");
                    let digits = u64_to_string(ss.mtime);
                    url.append(digits.as_str());
                    proof {
                        assert(url@ =~= rr@ + "/"@ + file@ + "?hc=uquery&t="@ + spec_nat_to_string(
                            ss.mtime as nat,
                        ));
                    }
                    Ok(url)
                },
                None => Err(
                    Error::new(ErrorKind::NotExist, "no stylesheet of that name was compiled"),
                ),
            }
        } else {
            Err(Error::new(ErrorKind::InvalidArgument, "not a valid scope for a resource"))
        }
    }
}

} // verus!
