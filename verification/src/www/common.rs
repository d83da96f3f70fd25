//! Render-ready text and the responsive image model: escaped text pairs,
//! image MIME kinds with their priorities, and the `<picture>` markup
//! with candidates walked in descending priority and the lowest-priority
//! candidate as the fallback.

use vstd::prelude::*;

use crate::error::{Error, ErrorKind};
use crate::strutil::{push_char, spec_escape, spec_nat_to_string, u64_to_string};
use crate::uri::{encode_rfc3986, spec_encode_rfc3986};

verus! {

/// What a newline becomes in markup text; every other character stands
/// for itself.
pub open spec fn spec_br_char(c: char) -> Seq<char> {
    if c == '\n' {
        "<br />"@
    } else {
        seq![c]
    }
}

/// The text with literal newlines turned into line breaks.
pub open spec fn spec_br(s: Seq<char>) -> Seq<char>
    decreases s.len(),
{
    if s.len() == 0 {
        Seq::empty()
    } else {
        spec_br_char(s[0]) + spec_br(s.skip(1))
    }
}

/// The markup form of a plain text: escaped, with newlines as breaks.
pub open spec fn spec_html_text(s: Seq<char>) -> Seq<char> {
    spec_br(spec_escape(s))
}

fn replace_newlines(s: &str) -> (r: String)
    ensures
        r@ == spec_br(s@),
{
    let len = s.unicode_len();
    let mut out = String::new();
    let mut i: usize = 0;
    proof {
        assert(s@.skip(0) =~= s@);
    }
    while i < len
        invariant
            0 <= i <= len,
            len == s@.len(),
            spec_br(s@) == out@ + spec_br(s@.skip(i as int)),
        decreases len - i,
    {
        let c = s.get_char(i);
        let ghost prev = out@;
        proof {
            assert(s@.skip(i as int).len() > 0);
            assert(s@.skip(i as int)[0] == s@[i as int]);
            assert(s@.skip(i as int).skip(1) =~= s@.skip(i + 1));
        }
        if c == '\n' {
            out.append("<br />");
        } else {
            push_char(&mut out, c);
            proof {
                assert(out@ =~= prev + seq![c]);
            }
        }
        proof {
            assert(out@ + spec_br(s@.skip(i + 1)) =~= prev + (spec_br_char(s@[i as int]) + spec_br(
                s@.skip(i + 1),
            )));
        }
        i = i + 1;
    }
    proof {
        assert(s@.skip(len as int) =~= Seq::<char>::empty());
        assert(out@ + spec_br(Seq::<char>::empty()) =~= out@);
    }
    out
}

/// A resolved text in its two parallel forms: markup-escaped with line
/// breaks, and plain.
#[derive(Debug)]
pub struct HtmlText {
    pub html: String,
    pub plain: String,
}

impl HtmlText {
    /// Both forms of a plain text.
    pub fn from_plain(s: String) -> (r: HtmlText)
        ensures
            r.plain == s,
            r.html@ == spec_html_text(s@),
    {
        let escaped = crate::strutil::escape_str(s.as_str());
        let html = replace_newlines(escaped.as_str());
        HtmlText { html, plain: s }
    }
}

impl From<String> for HtmlText {
    /// Both forms of a plain text; `from_plain` carries the contract.
    fn from(s: String) -> (r: Self) {
        HtmlText::from_plain(s)
    }
}

impl vstd::std_specs::convert::FromSpecImpl<String> for HtmlText {
    open spec fn obeys_from_spec() -> bool {
        false
    }

    open spec fn from_spec(s: String) -> HtmlText {
        HtmlText { html: s, plain: s }
    }
}

/// A supported image MIME kind.
#[derive(Debug, PartialEq, Eq, Structural, Clone, Copy)]
pub enum HtmlImageMIME {
    ImageJpeg,
    ImagePng,
    ImageGif,
    ImageWebp,
    ImageApng,
    ImageAvif,
}

/// The MIME kind a file suffix denotes, if any.
pub open spec fn spec_mime_from_suffix(s: Seq<char>) -> Option<HtmlImageMIME> {
    if s == "jpg"@ || s == "jpeg"@ || s == "jfif"@ || s == "pjpeg"@ || s == "pjp"@ {
        Some(HtmlImageMIME::ImageJpeg)
    } else if s == "png"@ {
        Some(HtmlImageMIME::ImagePng)
    } else if s == "gif"@ {
        Some(HtmlImageMIME::ImageGif)
    } else if s == "webp"@ {
        Some(HtmlImageMIME::ImageWebp)
    } else if s == "apng"@ {
        Some(HtmlImageMIME::ImageApng)
    } else if s == "avif"@ {
        Some(HtmlImageMIME::ImageAvif)
    } else {
        None
    }
}

/// The position of the last `.` in a source name, or -1.
pub open spec fn spec_last_dot(s: Seq<char>) -> int
    decreases s.len(),
{
    if s.len() == 0 {
        -1
    } else if s.last() == '.' {
        s.len() - 1
    } else {
        spec_last_dot(s.drop_last())
    }
}

/// The MIME kind a source name's suffix denotes: whatever follows the
/// last `.`, or nothing without one.
pub open spec fn spec_mime_from_src(s: Seq<char>) -> Option<HtmlImageMIME> {
    if spec_last_dot(s) == -1 {
        None
    } else {
        spec_mime_from_suffix(s.subrange(spec_last_dot(s) + 1, s.len() as int))
    }
}

/// The MIME string of a kind.
pub open spec fn spec_mime_str(m: HtmlImageMIME) -> Seq<char> {
    match m {
        HtmlImageMIME::ImageJpeg => "image/jpeg"@,
        HtmlImageMIME::ImagePng => "image/png"@,
        HtmlImageMIME::ImageGif => "image/gif"@,
        HtmlImageMIME::ImageWebp => "image/webp"@,
        HtmlImageMIME::ImageApng => "image/apng"@,
        HtmlImageMIME::ImageAvif => "image/avif"@,
    }
}

/// The selection priority of a kind: modern formats over the classic
/// ones over animation fallbacks.
pub open spec fn spec_priority(m: HtmlImageMIME) -> u16 {
    match m {
        HtmlImageMIME::ImageJpeg => 20,
        HtmlImageMIME::ImagePng => 20,
        HtmlImageMIME::ImageGif => 10,
        HtmlImageMIME::ImageWebp => 30,
        HtmlImageMIME::ImageApng => 40,
        HtmlImageMIME::ImageAvif => 40,
    }
}

impl HtmlImageMIME {
    /// The MIME kind a file suffix denotes, if any.
    pub fn from_suffix(suffix: &str) -> (r: Option<Self>)
        ensures
            r == spec_mime_from_suffix(suffix@),
    {
        if crate::strutil::str_eq(suffix, "jpg") || crate::strutil::str_eq(suffix, "jpeg")
            || crate::strutil::str_eq(suffix, "jfif") || crate::strutil::str_eq(suffix, "pjpeg")
            || crate::strutil::str_eq(suffix, "pjp") {
            Some(Self::ImageJpeg)
        } else if crate::strutil::str_eq(suffix, "png") {
            Some(Self::ImagePng)
        } else if crate::strutil::str_eq(suffix, "gif") {
            Some(Self::ImageGif)
        } else if crate::strutil::str_eq(suffix, "webp") {
            Some(Self::ImageWebp)
        } else if crate::strutil::str_eq(suffix, "apng") {
            Some(Self::ImageApng)
        } else if crate::strutil::str_eq(suffix, "avif") {
            Some(Self::ImageAvif)
        } else {
            None
        }
    }

    /// The MIME kind of a source name, from the suffix after its last `.`.
    #[verifier::loop_isolation(false)]
    pub fn from_src(src: &str) -> (r: Option<Self>)
        ensures
            r == spec_mime_from_src(src@),
    {
        let len = src.unicode_len();
        let mut j: usize = len;
        proof {
            assert(src@.take(len as int) =~= src@);
        }
        while j > 0
            invariant
                0 <= j <= len,
                len == src@.len(),
                spec_last_dot(src@) == spec_last_dot(src@.take(j as int)),
            decreases j,
        {
            proof {
                assert(src@.take(j as int).last() == src@[j - 1]);
                assert(src@.take(j as int).drop_last() =~= src@.take(j - 1));
            }
            if src.get_char(j - 1) == '.' {
                proof {
                    assert(spec_last_dot(src@) == j - 1);
                }
                let suffix = src.substring_char(j, len);
                proof {
                    assert(src@.subrange(j as int, len as int) == src@.subrange(
                        spec_last_dot(src@) + 1,
                        src@.len() as int,
                    ));
                }
                return Self::from_suffix(suffix);
            }
            j = j - 1;
        }
        proof {
            assert(src@.take(0) =~= Seq::<char>::empty());
        }
        None
    }

    /// The MIME string of this kind.
    pub fn as_str(&self) -> (r: &'static str)
        ensures
            r@ == spec_mime_str(*self),
    {
        match self {
            HtmlImageMIME::ImageJpeg => "image/jpeg",
            HtmlImageMIME::ImagePng => "image/png",
            HtmlImageMIME::ImageGif => "image/gif",
            HtmlImageMIME::ImageWebp => "image/webp",
            HtmlImageMIME::ImageApng => "image/apng",
            HtmlImageMIME::ImageAvif => "image/avif",
        }
    }

    /// This kind's selection priority.
    pub fn priority(&self) -> (r: u16)
        ensures
            r == spec_priority(*self),
    {
        match self {
            HtmlImageMIME::ImageJpeg => 20,
            HtmlImageMIME::ImagePng => 20,
            HtmlImageMIME::ImageGif => 10,
            HtmlImageMIME::ImageWebp => 30,
            HtmlImageMIME::ImageApng => 40,
            HtmlImageMIME::ImageAvif => 40,
        }
    }
}

/// One image source: its URI and whether it is remote.
#[derive(Debug)]
pub struct HtmlImageSrc {
    pub remote: bool,
    pub src: String,
}

/// The URI a source resolves to against a relative root: a remote source
/// stands as it is, a local one goes under the root.
pub open spec fn spec_src_str(s: HtmlImageSrc, rr: Seq<char>) -> Seq<char> {
    if s.remote {
        s.src@
    } else {
        rr + "/"@ + s.src@
    }
}

impl HtmlImageSrc {
    /// Resolve this source against a relative root.
    pub fn to_str(&self, rr: &str) -> (r: String)
        ensures
            r@ == spec_src_str(*self, rr@),
    {
        if self.remote {
            self.src.clone()
        } else {
            let mut out = rr.to_owned();
            out.append("/");
            out.append(self.src.as_str());
            out
        }
    }
}

/// One candidate of a responsive image: a source and its MIME kind.
#[derive(Debug)]
pub struct HtmlImageCondition {
    pub srcset: HtmlImageSrc,
    pub mime: HtmlImageMIME,
}

/// The candidate one source declaration adds: its MIME kind is the
/// explicit override, or the one its suffix denotes.
pub open spec fn spec_added_condition(
    uri: String,
    remote: bool,
    mime: Option<HtmlImageMIME>,
) -> HtmlImageCondition {
    HtmlImageCondition {
        srcset: HtmlImageSrc { remote, src: uri },
        mime: (if mime is Some {
            mime->0
        } else {
            spec_mime_from_src(uri@)->0
        }),
    }
}

/// Candidates ordered by non-increasing priority.
pub open spec fn spec_sorted_desc(s: Seq<HtmlImageCondition>) -> bool {
    forall|i: int, j: int|
        0 <= i < j < s.len() ==> spec_priority((#[trigger] s[i]).mime) >= spec_priority(
            (#[trigger] s[j]).mime,
        )
}

/// A responsive image: its candidates in descending priority, and the
/// data the markup carries.
#[derive(Debug)]
pub struct HtmlImage {
    sources: Vec<HtmlImageCondition>,
    size: Option<(usize, usize)>,
    captain: Option<String>,
    extra_queries: Vec<(String, String)>,
}

impl HtmlImage {
    /// The candidates, in the order the markup walks them.
    pub closed spec fn spec_sources(&self) -> Seq<HtmlImageCondition> {
        self.sources@
    }

    /// The dimensions the markup declares.
    pub closed spec fn spec_size(&self) -> Option<(usize, usize)> {
        self.size
    }

    /// The caption used as the fallback alternative text.
    pub closed spec fn spec_captain(&self) -> Option<Seq<char>> {
        crate::media::opt_view(self.captain)
    }

    /// The extra query parameters appended to every source URI.
    pub closed spec fn spec_queries(&self) -> Seq<(Seq<char>, Seq<char>)> {
        self.extra_queries@.map_values(|p: (String, String)| (p.0@, p.1@))
    }

    /// An image with no candidates yet, carrying the size and caption of
    /// the underlying image.
    pub fn init_base_from_image(image: &crate::media::Image) -> (r: Self)
        ensures
            r.spec_sources().len() == 0,
            r.spec_size() == image.size,
            r.spec_captain() == crate::media::opt_view(image.captain),
            r.spec_queries().len() == 0,
    {
        let captain = match &image.captain {
            Some(c) => Some(c.clone()),
            None => None,
        };
        HtmlImage { sources: Vec::new(), size: image.size, captain, extra_queries: Vec::new() }
    }

    /// Add one candidate. Its MIME kind is taken from the explicit
    /// override or inferred from the URI's suffix; a URI with no known
    /// suffix and no override is refused. The candidate takes its place
    /// in the descending priority order, after any candidates of equal
    /// priority.
    #[verifier::loop_isolation(false)]
    pub fn add_source_simple(&mut self, uri: String, remote: bool, mime: Option<HtmlImageMIME>) -> (r:
        Result<(), Error>)
        requires
            spec_sorted_desc(old(self).spec_sources()),
        ensures
            spec_sorted_desc(final(self).spec_sources()),
            final(self).spec_size() == old(self).spec_size(),
            final(self).spec_captain() == old(self).spec_captain(),
            final(self).spec_queries() == old(self).spec_queries(),
            (r is Ok) == (mime is Some || spec_mime_from_src(uri@) is Some),
            r matches Err(e) ==> e.kind == ErrorKind::InvalidArgument && final(self).spec_sources()
                == old(self).spec_sources(),
            r is Ok ==> exists|p: int|
                0 <= p <= old(self).spec_sources().len() && final(self).spec_sources() == #[trigger] old(
                    self,
                ).spec_sources().insert(p, spec_added_condition(uri, remote, mime)),
    {
        let m = match mime {
            Some(m) => m,
            None => {
                match HtmlImageMIME::from_src(uri.as_str()) {
                    Some(m) => m,
                    None => {
                        return Err(
                            Error::new(
                                ErrorKind::InvalidArgument,
                                "can not determine the MIME kind of the image source",
                            ),
                        );
                    },
                }
            },
        };
        let cond = HtmlImageCondition { srcset: HtmlImageSrc { remote, src: uri }, mime: m };
        let prio = cond.mime.priority();
        let ghost gs = self.sources@;
        let mut p: usize = 0;
        while p < self.sources.len() && self.sources[p].mime.priority() >= prio
            invariant
                self.sources@ == gs,
                0 <= p <= gs.len(),
                forall|l: int| 0 <= l < p ==> spec_priority((#[trigger] gs[l]).mime) >= prio as u16,
            decreases gs.len() - p,
        {
            p = p + 1;
        }
        proof {
            if (p as int) < gs.len() {
                assert(spec_priority(gs[p as int].mime) < prio as u16);
            }
        }
        self.sources.insert(p, cond);
        proof {
            let ns = self.sources@;
            assert(ns == gs.insert(p as int, cond));
            assert forall|i: int, j: int| 0 <= i < j < ns.len() implies spec_priority(
                (#[trigger] ns[i]).mime,
            ) >= spec_priority((#[trigger] ns[j]).mime) by {
                if i < p as int && j == p as int {
                    assert(ns[i] == gs[i]);
                } else if i == p as int && j > p as int {
                    assert(ns[j] == gs[j - 1]);
                    assert(spec_priority(gs[p as int].mime) < prio);
                    assert(spec_priority(gs[j - 1].mime) <= spec_priority(gs[p as int].mime));
                } else if i < p as int && j > p as int {
                    assert(ns[i] == gs[i]);
                    assert(ns[j] == gs[j - 1]);
                } else if i > p as int && j > p as int {
                    assert(ns[i] == gs[i - 1]);
                    assert(ns[j] == gs[j - 1]);
                } else {
                    assert(ns[i] == gs[i]);
                    assert(ns[j] == gs[j]);
                }
            }
        }
        Ok(())
    }

    /// The node attributes of the fallback `<img>`: its classes, declared
    /// dimensions and alternative text.
    pub open spec fn spec_node_attrs(
        classes: Seq<char>,
        size: Option<(usize, usize)>,
        alt: Option<Seq<char>>,
    ) -> Seq<char> {
        "class=\""@ + spec_escape(classes) + "\" "@ + (match size {
            Some(d) => "width=\""@ + spec_nat_to_string(d.0 as nat) + "\" height=\""@
                + spec_nat_to_string(d.1 as nat) + "\" "@,
            None => Seq::empty(),
        }) + (match alt {
            Some(a) => "alt=\""@ + spec_escape(a) + "\" "@,
            None => Seq::empty(),
        })
    }

    /// The query string carrying the extra parameters, each form-encoded.
    pub open spec fn spec_query_string(q: Seq<(Seq<char>, Seq<char>)>, n: int) -> Seq<char>
        decreases n,
    {
        if n <= 0 {
            Seq::empty()
        } else {
            Self::spec_query_string(q, n - 1) + seq![if n == 1 {
                '?'
            } else {
                '&'
            }] + spec_encode_rfc3986(q[n - 1].0) + seq!['='] + spec_encode_rfc3986(q[n - 1].1)
        }
    }

    /// One `<source>` alternative.
    pub open spec fn spec_source_tag(
        cond: HtmlImageCondition,
        rr: Seq<char>,
        query: Seq<char>,
    ) -> Seq<char> {
        "<source srcset=\""@ + spec_src_str(cond.srcset, rr) + query + "\" type=\""@
            + spec_mime_str(cond.mime) + "\">"@
    }

    /// The first `n` alternatives, in candidate order.
    pub open spec fn spec_sources_html(
        sources: Seq<HtmlImageCondition>,
        rr: Seq<char>,
        query: Seq<char>,
        n: int,
    ) -> Seq<char>
        decreases n,
    {
        if n <= 0 {
            Seq::empty()
        } else {
            Self::spec_sources_html(sources, rr, query, n - 1) + Self::spec_source_tag(
                sources[n - 1],
                rr,
                query,
            )
        }
    }

    /// The whole `<picture>` markup: one alternative per candidate in
    /// descending priority, then the fallback `<img>` naming the last —
    /// lowest-priority — candidate.
    pub open spec fn spec_picture_html(
        sources: Seq<HtmlImageCondition>,
        rr: Seq<char>,
        node: Seq<char>,
        query: Seq<char>,
    ) -> Seq<char> {
        "<picture>"@ + Self::spec_sources_html(sources, rr, query, sources.len() as int)
            + "<img "@ + node + "src=\""@ + spec_src_str(sources.last().srcset, rr) + query
            + "\" loading=\"lazy\"></picture>"@
    }

    /// Render the `<picture>` markup against a relative root, node
    /// classes and an optional explicit alternative text (the caption
    /// stands in when there is none). An image without candidates is
    /// refused.
    #[verifier::loop_isolation(false)]
    #[verifier::rlimit(100)]
    #[verifier::spinoff_prover]
    pub fn html(&self, rr: &str, node_classes: &str, alt: Option<&str>) -> (r: Result<
        String,
        Error,
    >)
        requires
            spec_sorted_desc(self.spec_sources()),
        ensures
            (r is Ok) == (self.spec_sources().len() > 0),
            r matches Err(e) ==> e.kind == ErrorKind::InvalidArgument,
            r matches Ok(s) ==> s@ == Self::spec_picture_html(
                self.spec_sources(),
                rr@,
                Self::spec_node_attrs(
                    node_classes@,
                    self.spec_size(),
                    (match alt {
                        Some(a) => Some(a@),
                        None => self.spec_captain(),
                    }),
                ),
                Self::spec_query_string(self.spec_queries(), self.spec_queries().len() as int),
            ),
    {
        if self.sources.len() == 0 {
            return Err(
                Error::new(ErrorKind::InvalidArgument, "there is no candidate for the image"),
            );
        }
        let ghost galt: Option<Seq<char>> = match alt {
            Some(a) => Some(a@),
            None => self.spec_captain(),
        };
        // the fallback <img> node's attributes
        let mut node = String::from_str("class=\"");
        let escaped_classes = crate::strutil::escape_str(node_classes);
        node.append(escaped_classes.as_str());
        node.append("\" ");
        match self.size {
            Some(d) => {
                node.append("width=\"");
                let ws = u64_to_string(d.0 as u64);
                node.append(ws.as_str());
                node.append("\" height=\"");
                let hs = u64_to_string(d.1 as u64);
                node.append(hs.as_str());
                node.append("\" ");
            },
            None => {},
        }
        let alt_text: Option<&str> = match alt {
            Some(a) => Some(a),
            None => match &self.captain {
                Some(c) => Some(c.as_str()),
                None => None,
            },
        };
        match alt_text {
            Some(a) => {
                node.append("alt=\"");
                let escaped_alt = crate::strutil::escape_str(a);
                node.append(escaped_alt.as_str());
                node.append("\" ");
            },
            None => {},
        }
        proof {
            assert(node@ =~= Self::spec_node_attrs(node_classes@, self.spec_size(), galt));
        }
        // the shared query string
        let mut query_str = String::new();
        let mut q: usize = 0;
        while q < self.extra_queries.len()
            invariant
                0 <= q <= self.extra_queries@.len(),
                query_str@ == Self::spec_query_string(self.spec_queries(), q as int),
            decreases self.extra_queries@.len() - q,
        {
            let ghost prev = query_str@;
            if q == 0 {
                push_char(&mut query_str, '?');
            } else {
                push_char(&mut query_str, '&');
            }
            let ek = encode_rfc3986(self.extra_queries[q].0.as_str());
            query_str.append(ek.as_str());
            push_char(&mut query_str, '=');
            let ev = encode_rfc3986(self.extra_queries[q].1.as_str());
            query_str.append(ev.as_str());
            proof {
                assert(self.spec_queries()[q as int] == (
                    self.extra_queries@[q as int].0@,
                    self.extra_queries@[q as int].1@,
                ));
                assert(query_str@ =~= prev + seq![if q == 0 {
                    '?'
                } else {
                    '&'
                }] + spec_encode_rfc3986(self.spec_queries()[q as int].0) + seq!['=']
                    + spec_encode_rfc3986(self.spec_queries()[q as int].1));
            }
            q = q + 1;
        }
        // the alternatives, in descending priority
        let mut result = String::from_str("<picture>");
        let mut i: usize = 0;
        while i < self.sources.len()
            invariant
                0 <= i <= self.sources@.len(),
                query_str@ == Self::spec_query_string(
                    self.spec_queries(),
                    self.spec_queries().len() as int,
                ),
                result@ == "<picture>"@ + Self::spec_sources_html(
                    self.spec_sources(),
                    rr@,
                    query_str@,
                    i as int,
                ),
            decreases self.sources@.len() - i,
        {
            let ghost prev = result@;
            result.append("<source srcset=\"");
            let src = self.sources[i].srcset.to_str(rr);
            result.append(src.as_str());
            result.append(query_str.as_str());
            result.append("\" type=\"");
            result.append(self.sources[i].mime.as_str());
            result.append("\">");
            proof {
                assert(result@ =~= prev + Self::spec_source_tag(
                    self.spec_sources()[i as int],
                    rr@,
                    query_str@,
                ));
            }
            i = i + 1;
        }
        // the fallback <img> names the lowest-priority candidate
        let fb = &self.sources[self.sources.len() - 1];
        let ghost pre_img = result@;
        result.append("<img ");
        result.append(node.as_str());
        result.append("src=\"");
        let fb_src = fb.srcset.to_str(rr);
        result.append(fb_src.as_str());
        result.append(query_str.as_str());
        result.append("\" loading=\"lazy\"></picture>");
        proof {
            assert(self.spec_sources().last() == self.spec_sources()[self.spec_sources().len()
                - 1]);
            assert(result@ =~= Self::spec_picture_html(
                self.spec_sources(),
                rr@,
                Self::spec_node_attrs(node_classes@, self.spec_size(), galt),
                query_str@,
            ));
        }
        Ok(result)
    }
}

/// A rendered media block.
#[derive(Debug)]
pub struct HtmlMedia {
    pub html: String,
}

} // verus!
