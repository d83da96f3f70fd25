//! The run profile: where configuration, content bundles and authors are
//! found, plus per-backend configuration tables.

use vstd::prelude::*;

use crate::config::{
    all_scalars, cv_model, cv_model_table, decode_string, decode_string_list, scalar_texts,
    spec_merge, table_contains, table_get, table_lookup, ConfigData, ConfigValue,
};
use crate::error::{Error, ErrorKind};

verus! {

/// The run profile.
#[derive(Debug)]
pub struct Profile {
    pub authority_prefix: String,
    pub ui_config: Vec<String>,
    pub stock_config: Vec<String>,
    pub path_games: Vec<String>,
    pub path_authors: Vec<String>,
    pub backends: Vec<(String, ConfigValue)>,
}

/// The texts of a list of strings.
pub open spec fn strs_view(v: Seq<String>) -> Seq<Seq<char>> {
    v.map_values(|s: String| s@)
}

impl Default for Profile {
    /// The stock profile: one UI and one stock configuration file, and
    /// the conventional bundle directories.
    fn default() -> (r: Self)
        ensures
            r.authority_prefix@ == ""@,
            strs_view(r.ui_config@) == seq!["ui.toml"@],
            strs_view(r.stock_config@) == seq!["stock.toml"@],
            strs_view(r.path_games@) == seq!["games"@],
            strs_view(r.path_authors@) == seq!["authors"@],
            r.backends@.len() == 0,
    {
        let mut ui_config: Vec<String> = Vec::new();
        ui_config.push(String::from_str("ui.toml"));
        let mut stock_config: Vec<String> = Vec::new();
        stock_config.push(String::from_str("stock.toml"));
        let mut path_games: Vec<String> = Vec::new();
        path_games.push(String::from_str("games"));
        let mut path_authors: Vec<String> = Vec::new();
        path_authors.push(String::from_str("authors"));
        let authority_prefix = String::new();
        proof {
            reveal_strlit("");
            assert(authority_prefix@ =~= ""@);
            assert(strs_view(ui_config@) =~= seq!["ui.toml"@]);
            assert(strs_view(stock_config@) =~= seq!["stock.toml"@]);
            assert(strs_view(path_games@) =~= seq!["games"@]);
            assert(strs_view(path_authors@) =~= seq!["authors"@]);
        }
        Profile {
            authority_prefix,
            ui_config,
            stock_config,
            path_games,
            path_authors,
            backends: Vec::new(),
        }
    }
}

/// The composition of configuration documents: each merged onto the ones
/// before it, starting from an empty mapping.
pub open spec fn spec_merged_configs(cs: Seq<ConfigValue>) -> ConfigData
    decreases cs.len(),
{
    if cs.len() == 0 {
        ConfigData::Table(Seq::empty())
    } else {
        spec_merge(spec_merged_configs(cs.drop_last()), cv_model(cs.last()))
    }
}

/// How one field of the profile reads off the composed configuration: a
/// missing key keeps the given default.
pub open spec fn spec_string_field(
    t: Seq<(Seq<char>, ConfigData)>,
    key: Seq<char>,
    dflt: Seq<char>,
    val: Seq<char>,
) -> bool {
    match table_lookup(t, key) {
        None => val == dflt,
        Some(d) => d matches ConfigData::Scalar(s) && val == s,
    }
}

/// How a string-list field reads off the composed configuration.
pub open spec fn spec_list_field(
    t: Seq<(Seq<char>, ConfigData)>,
    key: Seq<char>,
    dflt: Seq<Seq<char>>,
    val: Seq<Seq<char>>,
) -> bool {
    match table_lookup(t, key) {
        None => val == dflt,
        Some(d) => d matches ConfigData::List(l) && all_scalars(l) && val == scalar_texts(l),
    }
}

/// Whether the composed configuration has a well-typed profile shape.
pub open spec fn spec_profile_ok(d: ConfigData) -> bool {
    &&& d is Table
    &&& ({
        let t = d->Table_0;
        &&& (table_lookup(t, "authority_prefix"@) matches Some(v) ==> v is Scalar)
        &&& (table_lookup(t, "ui_config"@) matches Some(v) ==> v matches ConfigData::List(l)
            && all_scalars(l))
        &&& (table_lookup(t, "stock_config"@) matches Some(v) ==> v matches ConfigData::List(l)
            && all_scalars(l))
        &&& (table_lookup(t, "path_games"@) matches Some(v) ==> v matches ConfigData::List(l)
            && all_scalars(l))
        &&& (table_lookup(t, "path_authors"@) matches Some(v) ==> v matches ConfigData::List(l)
            && all_scalars(l))
        &&& (table_lookup(t, "backends"@) matches Some(v) ==> v is Table)
    })
}

/// How a profile reads off the composed configuration.
pub open spec fn spec_profile_from(d: ConfigData, p: Profile) -> bool {
    let t = d->Table_0;
    &&& spec_string_field(t, "authority_prefix"@, ""@, p.authority_prefix@)
    &&& spec_list_field(t, "ui_config"@, seq!["ui.toml"@], strs_view(p.ui_config@))
    &&& spec_list_field(t, "stock_config"@, seq!["stock.toml"@], strs_view(p.stock_config@))
    &&& spec_list_field(t, "path_games"@, seq!["games"@], strs_view(p.path_games@))
    &&& spec_list_field(t, "path_authors"@, seq!["authors"@], strs_view(p.path_authors@))
    &&& match table_lookup(t, "backends"@) {
        None => p.backends@.len() == 0,
        Some(v) => v matches ConfigData::Table(bt) && cv_model_table(p.backends@) == bt,
    }
}

impl Profile {
    /// Compose the given configuration documents, later ones overriding
    /// earlier ones, and read the profile off the result; any ill-typed
    /// field refuses the whole profile.
    #[verifier::loop_isolation(false)]
    pub fn from_configs(configs: Vec<ConfigValue>) -> (r: Result<Profile, Error>)
        ensures
            (r is Ok) == spec_profile_ok(spec_merged_configs(configs@)),
            r matches Ok(p) ==> spec_profile_from(spec_merged_configs(configs@), p),
            r matches Err(e) ==> e.kind == ErrorKind::InvalidArgument,
    {
        let mut data = ConfigValue::Table(Vec::new());
        proof {
            assert(cv_model_table(Seq::<(String, ConfigValue)>::empty()) =~= Seq::<
                (Seq<char>, ConfigData),
            >::empty());
        }
        let mut rest = configs;
        let ghost gconfigs = rest@;
        let ghost mut c: int = 0;
        proof {
            assert(gconfigs.skip(0) =~= gconfigs);
            assert(gconfigs.take(0) =~= Seq::<ConfigValue>::empty());
        }
        while rest.len() > 0
            invariant
                0 <= c <= gconfigs.len(),
                rest@ == gconfigs.skip(c),
                data@ == spec_merged_configs(gconfigs.take(c)),
            decreases rest@.len(),
        {
            let cfg = rest.remove(0);
            proof {
                assert(cfg == gconfigs[c]);
                assert(gconfigs.skip(c).drop_first() =~= gconfigs.skip(c + 1));
                assert(gconfigs.take(c + 1).drop_last() =~= gconfigs.take(c));
                assert(gconfigs.take(c + 1).last() == gconfigs[c]);
                c = c + 1;
            }
            crate::config::merge(&mut data, cfg);
        }
        proof {
            assert(gconfigs.take(gconfigs.len() as int) =~= gconfigs);
        }
        Self::from_value(data)
    }

    /// Read the profile off one composed configuration value.
    pub fn from_value(data: ConfigValue) -> (r: Result<Profile, Error>)
        ensures
            (r is Ok) == spec_profile_ok(data@),
            r matches Ok(p) ==> spec_profile_from(data@, p),
            r matches Err(e) ==> e.kind == ErrorKind::InvalidArgument,
    {
        let mut p = Profile::default();
        match &data {
            ConfigValue::Table(t) => {
                match table_get(t, "authority_prefix") {
                    Some(v) => {
                        match decode_string(v) {
                            Ok(s) => {
                                p.authority_prefix = s;
                            },
                            Err(e) => {
                                return Err(e);
                            },
                        }
                    },
                    None => {},
                }
                match table_get(t, "ui_config") {
                    Some(v) => {
                        match decode_string_list(v) {
                            Ok(items) => {
                                proof {
                                    lemma_texts(v@, items@);
                                }
                                p.ui_config = items;
                            },
                            Err(e) => {
                                return Err(e);
                            },
                        }
                    },
                    None => {},
                }
                match table_get(t, "stock_config") {
                    Some(v) => {
                        match decode_string_list(v) {
                            Ok(items) => {
                                proof {
                                    lemma_texts(v@, items@);
                                }
                                p.stock_config = items;
                            },
                            Err(e) => {
                                return Err(e);
                            },
                        }
                    },
                    None => {},
                }
                match table_get(t, "path_games") {
                    Some(v) => {
                        match decode_string_list(v) {
                            Ok(items) => {
                                proof {
                                    lemma_texts(v@, items@);
                                }
                                p.path_games = items;
                            },
                            Err(e) => {
                                return Err(e);
                            },
                        }
                    },
                    None => {},
                }
                match table_get(t, "path_authors") {
                    Some(v) => {
                        match decode_string_list(v) {
                            Ok(items) => {
                                proof {
                                    lemma_texts(v@, items@);
                                }
                                p.path_authors = items;
                            },
                            Err(e) => {
                                return Err(e);
                            },
                        }
                    },
                    None => {},
                }
                match table_get(t, "backends") {
                    Some(v) => {
                        match v {
                            ConfigValue::Table(bt) => {
                                p.backends = deep_clone_table(bt);
                            },
                            other => {
                                return Err(
                                    Error::new(
                                        ErrorKind::InvalidArgument,
                                        "expected a table of backends",
                                    ),
                                );
                            },
                        }
                    },
                    None => {},
                }
                Ok(p)
            },
            other => Err(Error::new(ErrorKind::InvalidArgument, "expected a configuration table")),
        }
    }
}

/// A string list's texts are the scalar texts of the list it decoded.
proof fn lemma_texts(d: ConfigData, items: Seq<String>)
    requires
        d is List,
        items.len() == d->List_0.len(),
        forall|i: int| 0 <= i < items.len() ==> (#[trigger] items[i])@ == d->List_0[i]->Scalar_0,
    ensures
        strs_view(items) == scalar_texts(d->List_0),
{
    assert(strs_view(items) =~= scalar_texts(d->List_0));
}

/// An exact copy of a configuration table.
fn deep_clone_table(t: &Vec<(String, ConfigValue)>) -> (r: Vec<(String, ConfigValue)>)
    ensures
        cv_model_table(r@) == cv_model_table(t@),
{
    let mut out: Vec<(String, ConfigValue)> = Vec::new();
    let mut i: usize = 0;
    while i < t.len()
        invariant
            0 <= i <= t@.len(),
            out@.len() == i,
            forall|j: int| 0 <= j < i ==> (#[trigger] out@[j]).0@ == t@[j].0@ && cv_model(out@[j].1)
                == cv_model(t@[j].1),
        decreases t@.len() - i,
    {
        let k = t[i].0.clone();
        let v = t[i].1.deep_clone();
        out.push((k, v));
        i = i + 1;
    }
    proof {
        crate::config::lemma_cv_model_table_elts(out@);
        crate::config::lemma_cv_model_table_elts(t@);
        assert(cv_model_table(out@) =~= cv_model_table(t@));
    }
    out
}

} // verus!
