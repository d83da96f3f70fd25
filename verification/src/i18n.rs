//! Canonical locale identifiers and their string encodings.

use vstd::prelude::*;

verus! {

/// A recognized locale. Free-form tags that match none of the known
/// locales fall back to the default locale, which is `EnUs`.
#[derive(Eq, PartialEq, Structural, Clone, Copy, Hash, Debug)]
pub enum LangId {
    EnUs,
    ZhCn,
    ZhTw,
    JaJp,
}

impl Default for LangId {
    /// The fixed default locale.
    fn default() -> (r: Self)
        ensures
            r == LangId::EnUs,
    {
        LangId::EnUs
    }
}

/// The locale that a free-form tag denotes; anything unrecognized is the
/// default locale.
pub open spec fn spec_lang_of_tag(s: Seq<char>) -> LangId {
    if s == "zh-cn"@ || s == "zh"@ {
        LangId::ZhCn
    } else if s == "zh-tw"@ {
        LangId::ZhTw
    } else if s == "ja-jp"@ || s == "ja"@ {
        LangId::JaJp
    } else {
        LangId::EnUs
    }
}

impl From<&str> for LangId {
    /// Parse a free-form tag; unrecognized tags give the default locale.
    fn from(s: &str) -> (r: Self) {
        if crate::strutil::str_eq(s, "zh-cn") || crate::strutil::str_eq(s, "zh") {
            LangId::ZhCn
        } else if crate::strutil::str_eq(s, "zh-tw") {
            LangId::ZhTw
        } else if crate::strutil::str_eq(s, "ja-jp") || crate::strutil::str_eq(s, "ja") {
            LangId::JaJp
        } else {
            LangId::EnUs
        }
    }
}

impl vstd::std_specs::convert::FromSpecImpl<&str> for LangId {
    open spec fn obeys_from_spec() -> bool {
        true
    }

    open spec fn from_spec(s: &str) -> LangId {
        spec_lang_of_tag(s@)
    }
}

/// The language part, region part, and whether the region is the
/// language's default region.
pub open spec fn spec_tag(l: LangId) -> (Seq<char>, Seq<char>, bool) {
    match l {
        LangId::EnUs => ("en"@, "us"@, true),
        LangId::ZhCn => ("zh"@, "cn"@, false),
        LangId::ZhTw => ("zh"@, "tw"@, false),
        LangId::JaJp => ("ja"@, "jp"@, true),
    }
}

/// The underscore/platform form, e.g. `en_US`.
pub open spec fn spec_as_unix(l: LangId) -> Seq<char> {
    match l {
        LangId::EnUs => "en_US"@,
        LangId::ZhCn => "zh_CN"@,
        LangId::ZhTw => "zh_TW"@,
        LangId::JaJp => "ja_JP"@,
    }
}

/// The hyphenated form with an upper-case region, e.g. `en-US`.
pub open spec fn spec_as_bcp47(l: LangId) -> Seq<char> {
    match l {
        LangId::EnUs => "en-US"@,
        LangId::ZhCn => "zh-CN"@,
        LangId::ZhTw => "zh-TW"@,
        LangId::JaJp => "ja-JP"@,
    }
}

/// The hyphenated form, region-stripped when the region is the default one.
pub open spec fn spec_as_bcp47_short(l: LangId) -> Seq<char> {
    match l {
        LangId::EnUs => "en"@,
        LangId::ZhCn => "zh-CN"@,
        LangId::ZhTw => "zh-TW"@,
        LangId::JaJp => "ja"@,
    }
}

/// The canonical lower-case tag, region-stripped when the region is the
/// default one.
pub open spec fn spec_as_str(l: LangId) -> Seq<char> {
    match l {
        LangId::EnUs => "en"@,
        LangId::ZhCn => "zh-cn"@,
        LangId::ZhTw => "zh-tw"@,
        LangId::JaJp => "ja"@,
    }
}

impl LangId {
    /// Language part, region part, and default-region flag.
    pub fn tag(&self) -> (r: (&'static str, &'static str, bool))
        ensures
            (r.0@, r.1@, r.2) == spec_tag(*self),
    {
        match self {
            LangId::EnUs => ("en", "us", true),
            LangId::ZhCn => ("zh", "cn", false),
            LangId::ZhTw => ("zh", "tw", false),
            LangId::JaJp => ("ja", "jp", true),
        }
    }

    /// The underscore/platform form, e.g. `en_US`.
    pub fn as_unix(&self) -> (r: String)
        ensures
            r@ == spec_as_unix(*self),
    {
        match self {
            LangId::EnUs => String::from_str("en_US"),
            LangId::ZhCn => String::from_str("zh_CN"),
            LangId::ZhTw => String::from_str("zh_TW"),
            LangId::JaJp => String::from_str("ja_JP"),
        }
    }

    /// The hyphenated form with an upper-case region, e.g. `en-US`.
    pub fn as_bcp47(&self) -> (r: String)
        ensures
            r@ == spec_as_bcp47(*self),
    {
        match self {
            LangId::EnUs => String::from_str("en-US"),
            LangId::ZhCn => String::from_str("zh-CN"),
            LangId::ZhTw => String::from_str("zh-TW"),
            LangId::JaJp => String::from_str("ja-JP"),
        }
    }

    /// The hyphenated form, region-stripped for a default region.
    pub fn as_bcp47_short(&self) -> (r: String)
        ensures
            r@ == spec_as_bcp47_short(*self),
    {
        match self {
            LangId::EnUs => String::from_str("en"),
            LangId::ZhCn => String::from_str("zh-CN"),
            LangId::ZhTw => String::from_str("zh-TW"),
            LangId::JaJp => String::from_str("ja"),
        }
    }

    /// The canonical lower-case tag, region-stripped for a default region.
    pub fn as_str(&self) -> (r: String)
        ensures
            r@ == spec_as_str(*self),
    {
        match self {
            LangId::EnUs => String::from_str("en"),
            LangId::ZhCn => String::from_str("zh-cn"),
            LangId::ZhTw => String::from_str("zh-tw"),
            LangId::JaJp => String::from_str("ja"),
        }
    }

    /// The language part alone.
    pub fn as_str_noregion(&self) -> (r: &'static str)
        ensures
            r@ == spec_tag(*self).0,
    {
        self.tag().0
    }
}

} // verus!
