//! The argument bag handed between the driver and a backend: string and
//! boolean arguments by name, read back as the type the caller asks for.

use vstd::prelude::*;

use crate::kvseq::{
    kv_lookup, kv_map, lemma_kv_index_of_absent, lemma_kv_index_of_first, lemma_kv_map_push_absent,
    lemma_kv_map_update_first,
};
use crate::strutil::{i64_to_string, spec_i64_to_string, str_eq};

verus! {

/// What a rendered text component exposes to a backend-neutral page:
/// its markup text and its raw text.
pub trait Text {
    /// The markup form.
    fn text(&self) -> String;

    /// The raw form, owned.
    fn raw_text(&self) -> String;

    /// The raw form, borrowed.
    fn raw_text_ref(&self) -> &str;
}

/// One argument's value.
#[derive(Debug)]
pub enum ArgValue {
    Bool(bool),
    Int(i64),
    Str(String),
}

/// The text an argument value reads back as: a string as it is, a
/// boolean as `true` or `false`, a number in decimal.
pub open spec fn spec_arg_text(v: ArgValue) -> Seq<char> {
    match v {
        ArgValue::Bool(b) => if b {
            "true"@
        } else {
            "false"@
        },
        ArgValue::Int(n) => spec_i64_to_string(n as int),
        ArgValue::Str(t) => t@,
    }
}

/// Named arguments for a backend invocation.
#[derive(Debug)]
pub struct BackendArguments {
    pub entries: Vec<(String, ArgValue)>,
}

/// The bindings of an argument bag, keyed by the argument names' texts.
pub open spec fn arg_entries(s: Seq<(String, ArgValue)>) -> Seq<(Seq<char>, ArgValue)> {
    s.map_values(|p: (String, ArgValue)| (p.0@, p.1))
}

impl Default for BackendArguments {
    /// An empty argument bag.
    fn default() -> (r: Self)
        ensures
            r.entries@.len() == 0,
    {
        BackendArguments { entries: Vec::new() }
    }
}

impl BackendArguments {
    /// Bind a name to a string, replacing any earlier binding.
    pub fn set_string(&mut self, k: String, v: String)
        ensures
            kv_map(arg_entries(final(self).entries@)) == kv_map(
                arg_entries(old(self).entries@),
            ).insert(k@, ArgValue::Str(v)),
    {
        self.set(k, ArgValue::Str(v));
    }

    /// Bind a name to a boolean, replacing any earlier binding.
    pub fn set_bool(&mut self, k: String, v: bool)
        ensures
            kv_map(arg_entries(final(self).entries@)) == kv_map(
                arg_entries(old(self).entries@),
            ).insert(k@, ArgValue::Bool(v)),
    {
        self.set(k, ArgValue::Bool(v));
    }

    /// Bind a name to a value, replacing any earlier binding.
    #[verifier::loop_isolation(false)]
    fn set(&mut self, k: String, v: ArgValue)
        ensures
            kv_map(arg_entries(final(self).entries@)) == kv_map(
                arg_entries(old(self).entries@),
            ).insert(k@, v),
    {
        let ghost gs = arg_entries(self.entries@);
        let mut i: usize = 0;
        while i < self.entries.len()
            invariant
                arg_entries(self.entries@) == gs,
                0 <= i <= self.entries@.len(),
                forall|j: int| 0 <= j < i ==> (#[trigger] gs[j]).0 != k@,
            decreases self.entries@.len() - i,
        {
            if str_eq(self.entries[i].0.as_str(), k.as_str()) {
                proof {
                    assert(gs[i as int] == (self.entries@[i as int].0@, self.entries@[i as int].1));
                }
                let _old = self.entries.remove(i);
                self.entries.insert(i, (k, v));
                proof {
                    assert(arg_entries(self.entries@) =~= gs.update(i as int, (k@, v)));
                    lemma_kv_map_update_first(gs, i as int, (k@, v));
                }
                return ;
            }
            proof {
                assert(gs[i as int] == (self.entries@[i as int].0@, self.entries@[i as int].1));
            }
            i = i + 1;
        }
        self.entries.push((k, v));
        proof {
            assert(arg_entries(self.entries@) =~= gs.push((k@, v)));
            lemma_kv_map_push_absent(gs, (k@, v));
        }
    }

    /// The first binding of a name, if any.
    #[verifier::loop_isolation(false)]
    fn get<'a>(&'a self, k: &str) -> (r: Option<&'a ArgValue>)
        ensures
            (r is None) == (kv_lookup(arg_entries(self.entries@), k@) is None),
            r matches Some(v) ==> kv_lookup(arg_entries(self.entries@), k@) == Some(*v),
    {
        let ghost gs = arg_entries(self.entries@);
        let mut i: usize = 0;
        while i < self.entries.len()
            invariant
                0 <= i <= self.entries@.len(),
                forall|j: int| 0 <= j < i ==> (#[trigger] gs[j]).0 != k@,
            decreases self.entries@.len() - i,
        {
            proof {
                assert(gs[i as int] == (self.entries@[i as int].0@, self.entries@[i as int].1));
            }
            if str_eq(self.entries[i].0.as_str(), k) {
                proof {
                    lemma_kv_index_of_first(gs, k@, i as int);
                }
                return Some(&self.entries[i].1);
            }
            i = i + 1;
        }
        proof {
            lemma_kv_index_of_absent(gs, k@);
        }
        None
    }

    /// The string form of an argument: a string as it is, a boolean as
    /// `true` or `false`, a number in decimal; absent names give nothing.
    pub fn get_string(&self, k: &str) -> (r: Option<String>)
        ensures
            match kv_lookup(arg_entries(self.entries@), k@) {
                None => r is None,
                Some(v) => match v {
                    ArgValue::Bool(b) => r matches Some(s) && s@ == (if b {
                        "true"@
                    } else {
                        "false"@
                    }),
                    ArgValue::Int(n) => r matches Some(s) && s@ == spec_i64_to_string(n as int),
                    ArgValue::Str(t) => r matches Some(s) && s == t,
                },
            },
    {
        match self.get(k) {
            None => None,
            Some(v) => match v {
                ArgValue::Bool(b) => {
                    if *b {
                        Some(String::from_str("true"))
                    } else {
                        Some(String::from_str("false"))
                    }
                },
                ArgValue::Int(n) => Some(i64_to_string(*n)),
                ArgValue::Str(t) => Some(t.clone()),
            },
        }
    }

    /// The boolean form of an argument: true exactly for a binding to the
    /// boolean true; anything else, or an absent name, is false.
    pub fn get_bool(&self, k: &str) -> (r: bool)
        ensures
            r == (kv_lookup(arg_entries(self.entries@), k@) matches Some(v) && v matches
                ArgValue::Bool(b) && b),
    {
        match self.get(k) {
            Some(v) => match v {
                ArgValue::Bool(b) => *b,
                _ => false,
            },
            None => false,
        }
    }
}

} // verus!
