//! The site backend's own profile: where templates, static layers,
//! stylesheets and icon sets are found.

use vstd::prelude::*;

use crate::config::{
    all_scalars, decode_string_list, scalar_texts, table_get, table_lookup, ConfigData,
    ConfigValue,
};
use crate::error::{Error, ErrorKind};
use crate::profile::{spec_list_field, strs_view};

verus! {

/// The site backend's profile.
#[derive(Debug)]
pub struct ProfileWWW {
    pub path_templates: Vec<String>,
    pub path_static_layers: Vec<String>,
    pub path_stylesheets: Vec<String>,
    pub path_icon: Vec<String>,
}

impl Default for ProfileWWW {
    /// The conventional site layout.
    fn default() -> (r: Self)
        ensures
            strs_view(r.path_templates@) == seq!["www/templates/**/*"@],
            strs_view(r.path_static_layers@) == seq!["www/root"@],
            strs_view(r.path_stylesheets@) == seq!["www/styles"@],
            strs_view(r.path_icon@) == seq!["www/icons/build"@],
    {
        let mut path_templates: Vec<String> = Vec::new();
        path_templates.push(String::from_str("www/templates/**/*"));
        let mut path_static_layers: Vec<String> = Vec::new();
        path_static_layers.push(String::from_str("www/root"));
        let mut path_stylesheets: Vec<String> = Vec::new();
        path_stylesheets.push(String::from_str("www/styles"));
        let mut path_icon: Vec<String> = Vec::new();
        path_icon.push(String::from_str("www/icons/build"));
        proof {
            assert(strs_view(path_templates@) =~= seq!["www/templates/**/*"@]);
            assert(strs_view(path_static_layers@) =~= seq!["www/root"@]);
            assert(strs_view(path_stylesheets@) =~= seq!["www/styles"@]);
            assert(strs_view(path_icon@) =~= seq!["www/icons/build"@]);
        }
        ProfileWWW { path_templates, path_static_layers, path_stylesheets, path_icon }
    }
}

/// Whether a configuration value has a well-typed site-profile shape.
pub open spec fn spec_profile_www_ok(d: ConfigData) -> bool {
    &&& d is Table
    &&& ({
        let t = d->Table_0;
        &&& (table_lookup(t, "path_templates"@) matches Some(v) ==> v matches ConfigData::List(l)
            && all_scalars(l))
        &&& (table_lookup(t, "path_static_layers"@) matches Some(v) ==> v matches
            ConfigData::List(l) && all_scalars(l))
        &&& (table_lookup(t, "path_stylesheets"@) matches Some(v) ==> v matches ConfigData::List(l)
            && all_scalars(l))
        &&& (table_lookup(t, "path_icon"@) matches Some(v) ==> v matches ConfigData::List(l)
            && all_scalars(l))
    })
}

/// How a site profile reads off a configuration value.
pub open spec fn spec_profile_www_from(d: ConfigData, p: ProfileWWW) -> bool {
    let t = d->Table_0;
    &&& spec_list_field(t, "path_templates"@, seq!["www/templates/**/*"@], strs_view(p.path_templates@))
    &&& spec_list_field(t, "path_static_layers"@, seq!["www/root"@], strs_view(p.path_static_layers@))
    &&& spec_list_field(t, "path_stylesheets"@, seq!["www/styles"@], strs_view(p.path_stylesheets@))
    &&& spec_list_field(t, "path_icon"@, seq!["www/icons/build"@], strs_view(p.path_icon@))
}

impl ProfileWWW {
    /// Read the site profile off a configuration value; any ill-typed
    /// field refuses the whole profile.
    pub fn from_value(value: ConfigValue) -> (r: Result<ProfileWWW, Error>)
        ensures
            (r is Ok) == spec_profile_www_ok(value@),
            r matches Ok(p) ==> spec_profile_www_from(value@, p),
            r matches Err(e) ==> e.kind == ErrorKind::InvalidArgument,
    {
        let mut p = ProfileWWW::default();
        match &value {
            ConfigValue::Table(t) => {
                match table_get(t, "path_templates") {
                    Some(v) => {
                        match decode_string_list(v) {
                            Ok(items) => {
                                proof {
                                    lemma_www_texts(v@, items@);
                                }
                                p.path_templates = items;
                            },
                            Err(e) => {
                                return Err(e);
                            },
                        }
                    },
                    None => {},
                }
                match table_get(t, "path_static_layers") {
                    Some(v) => {
                        match decode_string_list(v) {
                            Ok(items) => {
                                proof {
                                    lemma_www_texts(v@, items@);
                                }
                                p.path_static_layers = items;
                            },
                            Err(e) => {
                                return Err(e);
                            },
                        }
                    },
                    None => {},
                }
                match table_get(t, "path_stylesheets") {
                    Some(v) => {
                        match decode_string_list(v) {
                            Ok(items) => {
                                proof {
                                    lemma_www_texts(v@, items@);
                                }
                                p.path_stylesheets = items;
                            },
                            Err(e) => {
                                return Err(e);
                            },
                        }
                    },
                    None => {},
                }
                match table_get(t, "path_icon") {
                    Some(v) => {
                        match decode_string_list(v) {
                            Ok(items) => {
                                proof {
                                    lemma_www_texts(v@, items@);
                                }
                                p.path_icon = items;
                            },
                            Err(e) => {
                                return Err(e);
                            },
                        }
                    },
                    None => {},
                }
                Ok(p)
            },
            other => Err(Error::new(ErrorKind::InvalidArgument, "expected a configuration table")),
        }
    }
}

proof fn lemma_www_texts(d: ConfigData, items: Seq<String>)
    requires
        d is List,
        items.len() == d->List_0.len(),
        forall|i: int| 0 <= i < items.len() ==> (#[trigger] items[i])@ == d->List_0[i]->Scalar_0,
    ensures
        strs_view(items) == scalar_texts(d->List_0),
{
    assert(strs_view(items) =~= scalar_texts(d->List_0));
}

} // verus!
