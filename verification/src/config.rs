//! Semi-structured configuration trees and their right-biased recursive
//! merge, used by the UI-text cascade and by multi-file configuration
//! composition.

use vstd::prelude::*;

use crate::error::{Error, ErrorKind};

verus! {

/// A configuration value: a scalar, an ordered sequence, or an ordered
/// mapping from string keys to values.
#[derive(Debug, PartialEq, Eq)]
pub enum ConfigValue {
    Scalar(String),
    List(Vec<ConfigValue>),
    Table(Vec<(String, ConfigValue)>),
}

/// The mathematical shape of a configuration value.
pub enum ConfigData {
    Scalar(Seq<char>),
    List(Seq<ConfigData>),
    Table(Seq<(Seq<char>, ConfigData)>),
}

/// The model of an executable configuration value.
pub open spec fn cv_model(v: ConfigValue) -> ConfigData
    decreases v,
{
    match v {
        ConfigValue::Scalar(s) => ConfigData::Scalar(s@),
        ConfigValue::List(l) => ConfigData::List(cv_model_list(l@)),
        ConfigValue::Table(t) => ConfigData::Table(cv_model_table(t@)),
    }
}

/// The models of a sequence of values.
pub open spec fn cv_model_list(l: Seq<ConfigValue>) -> Seq<ConfigData>
    decreases l,
{
    if l.len() == 0 {
        Seq::empty()
    } else {
        seq![cv_model(l[0])] + cv_model_list(l.drop_first())
    }
}

/// The models of a table's entries.
pub open spec fn cv_model_table(t: Seq<(String, ConfigValue)>) -> Seq<(Seq<char>, ConfigData)>
    decreases t,
{
    if t.len() == 0 {
        Seq::empty()
    } else {
        seq![(t[0].0@, cv_model(t[0].1))] + cv_model_table(t.drop_first())
    }
}

impl View for ConfigValue {
    type V = ConfigData;

    open spec fn view(&self) -> ConfigData {
        cv_model(*self)
    }
}

/// The model of a list of values, element by element.
pub proof fn lemma_cv_model_list_elts(l: Seq<ConfigValue>)
    ensures
        cv_model_list(l).len() == l.len(),
        forall|i: int| 0 <= i < l.len() ==> cv_model_list(l)[i] == cv_model(l[i]),
    decreases l.len(),
{
    if l.len() > 0 {
        lemma_cv_model_list_elts(l.drop_first());
        assert forall|i: int| 0 <= i < l.len() implies cv_model_list(l)[i] == cv_model(l[i]) by {
            if i > 0 {
                assert(cv_model_list(l)[i] == cv_model_list(l.drop_first())[i - 1]);
                assert(l.drop_first()[i - 1] == l[i]);
            }
        }
    }
}

/// The model of a table, entry by entry.
pub proof fn lemma_cv_model_table_elts(t: Seq<(String, ConfigValue)>)
    ensures
        cv_model_table(t).len() == t.len(),
        forall|i: int| 0 <= i < t.len() ==> cv_model_table(t)[i] == (t[i].0@, cv_model(t[i].1)),
    decreases t.len(),
{
    if t.len() > 0 {
        lemma_cv_model_table_elts(t.drop_first());
        assert forall|i: int| 0 <= i < t.len() implies cv_model_table(t)[i] == (
            t[i].0@,
            cv_model(t[i].1),
        ) by {
            if i > 0 {
                assert(cv_model_table(t)[i] == cv_model_table(t.drop_first())[i - 1]);
                assert(t.drop_first()[i - 1] == t[i]);
            }
        }
    }
}

/// The first index at which a table binds the key, or -1 when it does not.
pub open spec fn table_index_of(t: Seq<(Seq<char>, ConfigData)>, k: Seq<char>) -> int
    decreases t.len(),
{
    if t.len() == 0 {
        -1
    } else if t[0].0 == k {
        0
    } else {
        let r = table_index_of(t.drop_first(), k);
        if r == -1 {
            -1
        } else {
            r + 1
        }
    }
}

/// Whether a table binds the key.
pub open spec fn table_contains(t: Seq<(Seq<char>, ConfigData)>, k: Seq<char>) -> bool {
    table_index_of(t, k) >= 0
}

/// The value the table binds the key to, going by the first binding.
pub open spec fn table_lookup(t: Seq<(Seq<char>, ConfigData)>, k: Seq<char>) -> Option<
    ConfigData,
> {
    if table_contains(t, k) {
        Some(t[table_index_of(t, k)].1)
    } else {
        None
    }
}

/// The set of keys a table binds.
pub open spec fn table_keys(t: Seq<(Seq<char>, ConfigData)>) -> Set<Seq<char>> {
    Set::new(|k: Seq<char>| table_contains(t, k))
}

/// No key is bound twice.
pub open spec fn table_unique(t: Seq<(Seq<char>, ConfigData)>) -> bool {
    forall|i: int, j: int| 0 <= i < j < t.len() ==> t[i].0 != t[j].0
}

/// How one override entry lands in a base table: an existing binding for
/// the key is replaced in place by `v`; a new key is appended.
pub open spec fn table_store(
    t: Seq<(Seq<char>, ConfigData)>,
    k: Seq<char>,
    v: ConfigData,
) -> Seq<(Seq<char>, ConfigData)> {
    if table_contains(t, k) {
        t.update(table_index_of(t, k), (k, v))
    } else {
        t.push((k, v))
    }
}

/// Right-biased recursive merge: two mappings merge key-wise, any other
/// pairing is wholly replaced by `b`.
pub open spec fn spec_merge(a: ConfigData, b: ConfigData) -> ConfigData
    decreases b,
{
    match b {
        ConfigData::Table(tb) => match a {
            ConfigData::Table(ta) => ConfigData::Table(spec_merge_tables(ta, tb)),
            _ => b,
        },
        _ => b,
    }
}

/// Fold `b`'s entries into `a` from front to back; an entry whose key `a`
/// already binds merges recursively into `a`'s value at its place, a new
/// key is appended in `b`'s order.
pub open spec fn spec_merge_tables(
    ta: Seq<(Seq<char>, ConfigData)>,
    tb: Seq<(Seq<char>, ConfigData)>,
) -> Seq<(Seq<char>, ConfigData)>
    decreases tb,
{
    if tb.len() == 0 {
        ta
    } else {
        let k = tb[0].0;
        let v = tb[0].1;
        let ta2 = if table_contains(ta, k) {
            table_store(ta, k, spec_merge(ta[table_index_of(ta, k)].1, v))
        } else {
            table_store(ta, k, v)
        };
        spec_merge_tables(ta2, tb.drop_first())
    }
}

impl ConfigValue {
    /// An exact copy of this value.
    pub fn deep_clone(&self) -> (r: ConfigValue)
        ensures
            r@ == self@,
        decreases self,
    {
        match self {
            ConfigValue::Scalar(s) => ConfigValue::Scalar(s.clone()),
            ConfigValue::List(l) => {
                let mut out: Vec<ConfigValue> = Vec::new();
                let mut i: usize = 0;
                while i < l.len()
                    invariant
                        0 <= i <= l@.len(),
                        out@.len() == i,
                        *self == ConfigValue::List(*l),
                        forall|j: int| 0 <= j < i ==> cv_model(#[trigger] out@[j]) == cv_model(
                            l@[j],
                        ),
                    decreases l@.len() - i,
                {
                    proof {
                        assert(decreases_to!(*self => self->List_0));
                        assert(self->List_0 == *l);
                        assert(decreases_to!(*l => l@));
                        assert(decreases_to!(l@ => l@[i as int]));
                    }
                    let c = l[i].deep_clone();
                    out.push(c);
                    i = i + 1;
                }
                proof {
                    lemma_cv_model_list_elts(out@);
                    lemma_cv_model_list_elts(l@);
                    assert(cv_model_list(out@) =~= cv_model_list(l@));
                }
                ConfigValue::List(out)
            },
            ConfigValue::Table(t) => {
                let mut out: Vec<(String, ConfigValue)> = Vec::new();
                let mut i: usize = 0;
                while i < t.len()
                    invariant
                        0 <= i <= t@.len(),
                        out@.len() == i,
                        *self == ConfigValue::Table(*t),
                        forall|j: int| 0 <= j < i ==> (#[trigger] out@[j]).0@ == t@[j].0@
                            && cv_model(out@[j].1) == cv_model(t@[j].1),
                    decreases t@.len() - i,
                {
                    proof {
                        assert(decreases_to!(*self => self->Table_0));
                        assert(self->Table_0 == *t);
                        assert(decreases_to!(*t => t@));
                        assert(decreases_to!(t@ => t@[i as int]));
                        assert(decreases_to!(t@[i as int] => t@[i as int].1));
                    }
                    let k = t[i].0.clone();
                    let v = t[i].1.deep_clone();
                    out.push((k, v));
                    i = i + 1;
                }
                proof {
                    lemma_cv_model_table_elts(out@);
                    lemma_cv_model_table_elts(t@);
                    assert(cv_model_table(out@) =~= cv_model_table(t@));
                }
                ConfigValue::Table(out)
            },
        }
    }
}

/// Merge `b` into `a`: for two mappings, matching keys merge recursively,
/// new keys from `b` are appended, untouched keys of `a` stay; for any
/// other pairing `b` replaces `a` wholly.
pub fn merge(a: &mut ConfigValue, b: ConfigValue)
    ensures
        final(a)@ == spec_merge(old(a)@, b@),
{
    let mut tmp = ConfigValue::Scalar(String::new());
    core::mem::swap(a, &mut tmp);
    let merged = merge_owned(tmp, b);
    *a = merged;
}

#[verifier::loop_isolation(false)]
fn merge_owned(a: ConfigValue, b: ConfigValue) -> (r: ConfigValue)
    ensures
        r@ == spec_merge(a@, b@),
    decreases b,
{
    let ghost ga = a@;
    let ghost gb = b@;
    let ghost gbv = b;
    match (a, b) {
        (ConfigValue::Table(ta), ConfigValue::Table(tb)) => {
            let ghost gtbv = tb;
            let ghost gtb0 = tb@;
            let mut result: Vec<(String, ConfigValue)> = ta;
            let mut rest: Vec<(String, ConfigValue)> = tb;
            let ghost mut consumed: int = 0;
            proof {
                assert(gtb0.skip(0) =~= gtb0);
            }
            while rest.len() > 0
                invariant
                    spec_merge_tables(cv_model_table(result@), cv_model_table(rest@))
                        == spec_merge_tables(ga->Table_0, gb->Table_0),
                    ga is Table,
                    gb is Table,
                    gbv == ConfigValue::Table(gtbv),
                    gtbv@ == gtb0,
                    0 <= consumed <= gtb0.len(),
                    rest@ == gtb0.skip(consumed),
                decreases rest@.len(),
            {
                let ghost grest = rest@;
                let ghost gresult = cv_model_table(result@);
                proof {
                    lemma_cv_model_table_elts(grest);
                    lemma_cv_model_table_elts(result@);
                }
                let (k, v) = rest.remove(0);
                proof {
                    assert(grest.remove(0) =~= grest.drop_first());
                    assert(gtb0.skip(consumed + 1) =~= rest@);
                    assert(v == gtb0[consumed].1);
                    consumed = consumed + 1;
                    assert(cv_model_table(grest).drop_first() =~= cv_model_table(rest@));
                    assert(cv_model_table(grest)[0] == (k@, cv_model(v)));
                }
                // look for the key in the accumulated table
                let mut j: usize = 0;
                let mut found: bool = false;
                while j < result.len() && !found
                    invariant
                        0 <= j <= result@.len(),
                        found ==> j < result@.len() && result@[j as int].0@ == k@,
                        forall|l: int| 0 <= l < j ==> result@[l].0@ != k@,
                        cv_model_table(result@) == gresult,
                    decreases result@.len() - j, (if found {
                        0int
                    } else {
                        1int
                    }),
                {
                    if crate::strutil::str_eq(result[j].0.as_str(), k.as_str()) {
                        found = true;
                    } else {
                        j = j + 1;
                    }
                }
                if found {
                    proof {
                        assert(gresult[j as int].0 == result@[j as int].0@);
                        assert forall|l: int| 0 <= l < j implies gresult[l].0 != k@ by {
                            assert(gresult[l].0 == result@[l].0@);
                        }
                        lemma_table_index_of_first(gresult, k@, j as int);
                    }
                    let (k2, av) = result.remove(j);
                    proof {
                        assert(decreases_to!(gbv => gbv->Table_0));
                        assert(gbv->Table_0 == gtbv);
                        assert(decreases_to!(gtbv => gtbv@));
                        assert(decreases_to!(gtbv@ => gtbv@[consumed - 1]));
                        assert(decreases_to!(gtbv@[consumed - 1] => gtbv@[consumed - 1].1));
                        assert(gtbv@[consumed - 1].1 == v);
                        assert(decreases_to!(gbv => v));
                    }
                    let merged = merge_owned(av, v);
                    result.insert(j, (k2, merged));
                    proof {
                        lemma_cv_model_table_elts(result@);
                        assert(cv_model_table(result@) =~= table_store(
                            gresult,
                            k@,
                            spec_merge(gresult[j as int].1, cv_model(v)),
                        ));
                    }
                } else {
                    proof {
                        assert forall|l: int| 0 <= l < gresult.len() implies gresult[l].0
                            != k@ by {
                            assert(gresult[l].0 == result@[l].0@);
                        }
                        lemma_table_index_of_absent(gresult, k@);
                    }
                    result.push((k, v));
                    proof {
                        lemma_cv_model_table_elts(result@);
                        assert(cv_model_table(result@) =~= table_store(
                            gresult,
                            grest[0].0@,
                            cv_model(grest[0].1),
                        ));
                    }
                }
            }
            proof {
                assert(cv_model_table(rest@) =~= Seq::<(Seq<char>, ConfigData)>::empty());
            }
            ConfigValue::Table(result)
        },
        (_, b2) => b2,
    }
}

/// Where a key sits in a table: either it is absent from every entry, or
/// the index is the first entry bearing it.
pub proof fn lemma_index_of_props(t: Seq<(Seq<char>, ConfigData)>, k: Seq<char>)
    ensures
        table_index_of(t, k) == -1 ==> forall|l: int| 0 <= l < t.len() ==> t[l].0 != k,
        table_index_of(t, k) != -1 ==> 0 <= table_index_of(t, k) < t.len() && t[table_index_of(
            t,
            k,
        )].0 == k && forall|l: int| 0 <= l < table_index_of(t, k) ==> t[l].0 != k,
    decreases t.len(),
{
    if t.len() > 0 && t[0].0 != k {
        lemma_index_of_props(t.drop_first(), k);
        let r = table_index_of(t.drop_first(), k);
        if r == -1 {
            assert forall|l: int| 0 <= l < t.len() implies t[l].0 != k by {
                if l > 0 {
                    assert(t.drop_first()[l - 1] == t[l]);
                }
            }
        } else {
            assert(t.drop_first()[r] == t[r + 1]);
            assert forall|l: int| 0 <= l < r + 1 implies t[l].0 != k by {
                if l > 0 {
                    assert(t.drop_first()[l - 1] == t[l]);
                }
            }
        }
    }
}

/// Two tables with the same keys in the same places index every key alike.
proof fn lemma_index_of_same_keys(
    t1: Seq<(Seq<char>, ConfigData)>,
    t2: Seq<(Seq<char>, ConfigData)>,
    k: Seq<char>,
)
    requires
        t1.len() == t2.len(),
        forall|i: int| 0 <= i < t1.len() ==> t1[i].0 == t2[i].0,
    ensures
        table_index_of(t1, k) == table_index_of(t2, k),
    decreases t1.len(),
{
    if t1.len() > 0 {
        assert forall|i: int| 0 <= i < t1.drop_first().len() implies t1.drop_first()[i].0
            == t2.drop_first()[i].0 by {
            assert(t1.drop_first()[i] == t1[i + 1]);
            assert(t2.drop_first()[i] == t2[i + 1]);
        }
        lemma_index_of_same_keys(t1.drop_first(), t2.drop_first(), k);
    }
}

/// Appending an entry leaves every present key where it was and puts a
/// fresh key at the end.
proof fn lemma_index_of_push(
    t: Seq<(Seq<char>, ConfigData)>,
    e: (Seq<char>, ConfigData),
    k: Seq<char>,
)
    ensures
        table_index_of(t.push(e), k) == (if table_contains(t, k) {
            table_index_of(t, k)
        } else if e.0 == k {
            t.len() as int
        } else {
            -1
        }),
    decreases t.len(),
{
    if t.len() == 0 {
        assert(t.push(e)[0] == e);
        assert(t.push(e).drop_first() =~= Seq::<(Seq<char>, ConfigData)>::empty());
        assert(table_index_of(Seq::<(Seq<char>, ConfigData)>::empty(), k) == -1);
        if e.0 == k {
            assert(table_index_of(t.push(e), k) == 0);
        } else {
            assert(table_index_of(t.push(e), k) == -1);
        }
    } else {
        lemma_index_of_push(t.drop_first(), e, k);
        assert(t.push(e).drop_first() =~= t.drop_first().push(e));
        assert(t.push(e)[0] == t[0]);
        if t[0].0 == k {
            assert(table_index_of(t.push(e), k) == 0);
            assert(table_index_of(t, k) == 0);
        } else {
            let r = table_index_of(t.drop_first().push(e), k);
            assert(table_index_of(t.push(e), k) == (if r == -1 { -1int } else { r + 1 }));
            let r0 = table_index_of(t.drop_first(), k);
            assert(table_index_of(t, k) == (if r0 == -1 { -1int } else { r0 + 1 }));
        }
    }
}

/// What storing one entry does to a key-unique table: the stored key maps
/// to the stored value, every other key is untouched, the key set grows by
/// the stored key, and uniqueness is kept.
pub proof fn lemma_store_props(t: Seq<(Seq<char>, ConfigData)>, k: Seq<char>, v: ConfigData)
    requires
        table_unique(t),
    ensures
        table_unique(table_store(t, k, v)),
        table_lookup(table_store(t, k, v), k) == Some(v),
        forall|k2: Seq<char>|
            k2 != k ==> table_lookup(table_store(t, k, v), k2) == table_lookup(t, k2),
        forall|k2: Seq<char>| #[trigger]
            table_contains(table_store(t, k, v), k2) <==> (table_contains(t, k2) || k2 == k),
{
    lemma_index_of_props(t, k);
    let s = table_store(t, k, v);
    if table_contains(t, k) {
        let idx = table_index_of(t, k);
        assert forall|k2: Seq<char>| true implies #[trigger] table_index_of(s, k2)
            == table_index_of(t, k2) by {
            lemma_index_of_same_keys(t, s, k2);
        }
        assert(table_lookup(s, k) == Some(v));
        assert forall|k2: Seq<char>| k2 != k implies table_lookup(s, k2) == table_lookup(
            t,
            k2,
        ) by {
            lemma_index_of_props(t, k2);
            if table_contains(t, k2) {
                assert(table_index_of(t, k2) != idx);
                assert(s[table_index_of(t, k2)] == t[table_index_of(t, k2)]);
            }
        }
    } else {
        assert forall|k2: Seq<char>| true implies #[trigger] table_index_of(s, k2) == (
        if table_contains(t, k2) {
            table_index_of(t, k2)
        } else if k2 == k {
            t.len() as int
        } else {
            -1
        }) by {
            lemma_index_of_push(t, (k, v), k2);
        }
        assert(s[t.len() as int] == (k, v));
        assert forall|k2: Seq<char>| k2 != k implies table_lookup(s, k2) == table_lookup(
            t,
            k2,
        ) by {
            lemma_index_of_props(t, k2);
            if table_contains(t, k2) {
                assert(s[table_index_of(t, k2)] == t[table_index_of(t, k2)]);
            }
        }
        assert forall|i: int, j: int| 0 <= i < j < s.len() implies s[i].0 != s[j].0 by {
            if j == t.len() as int {
                lemma_index_of_props(t, k);
                assert(s[i] == t[i]);
            }
        }
    }
}

/// Dropping the head entry leaves lookups of other keys alone.
proof fn lemma_lookup_drop_head(t: Seq<(Seq<char>, ConfigData)>, k: Seq<char>)
    requires
        t.len() > 0,
        t[0].0 != k,
    ensures
        table_contains(t, k) == table_contains(t.drop_first(), k),
        table_lookup(t, k) == table_lookup(t.drop_first(), k),
{
    let r = table_index_of(t.drop_first(), k);
    if r != -1 {
        lemma_index_of_props(t.drop_first(), k);
        assert(t[r + 1] == t.drop_first()[r]);
    }
}

/// Law of the right-biased merge of two key-unique mappings: the merged
/// mapping binds exactly the union of the two key sets and is key-unique;
/// a key only in `tb` gets `tb`'s value; a key only in `ta` keeps `ta`'s
/// value; a key in both gets the recursive merge of the two values, which
/// by definition is `tb`'s value exactly whenever the two are not both
/// mappings.
/// Law of the right-biased merge on whole trees: two mappings merge
/// key-wise as `lemma_merge_tables_law` states, and any other pairing —
/// a sequence against a sequence included — is `b` wholly.
pub proof fn lemma_merge_law(a: ConfigData, b: ConfigData)
    ensures
        !(a is Table && b is Table) ==> spec_merge(a, b) == b,
        (a is Table && b is Table) ==> spec_merge(a, b) == ConfigData::Table(
            spec_merge_tables(a->Table_0, b->Table_0),
        ),
{
}

pub proof fn lemma_merge_tables_law(
    ta: Seq<(Seq<char>, ConfigData)>,
    tb: Seq<(Seq<char>, ConfigData)>,
)
    requires
        table_unique(ta),
        table_unique(tb),
    ensures
        table_unique(spec_merge_tables(ta, tb)),
        table_keys(spec_merge_tables(ta, tb)) == table_keys(ta).union(table_keys(tb)),
        forall|k: Seq<char>|
            table_contains(tb, k) && !table_contains(ta, k) ==> table_lookup(
                spec_merge_tables(ta, tb),
                k,
            ) == table_lookup(tb, k),
        forall|k: Seq<char>|
            table_contains(ta, k) && !table_contains(tb, k) ==> table_lookup(
                spec_merge_tables(ta, tb),
                k,
            ) == table_lookup(ta, k),
        forall|k: Seq<char>|
            table_contains(ta, k) && table_contains(tb, k) ==> table_lookup(
                spec_merge_tables(ta, tb),
                k,
            ) == Some(
                spec_merge(table_lookup(ta, k)->Some_0, table_lookup(tb, k)->Some_0),
            ),
    decreases tb.len(),
{
    let m = spec_merge_tables(ta, tb);
    if tb.len() == 0 {
        assert(table_keys(m) =~= table_keys(ta).union(table_keys(tb)));
    } else {
        let k0 = tb[0].0;
        let v0 = tb[0].1;
        let tbr = tb.drop_first();
        lemma_index_of_props(ta, k0);
        let x = if table_contains(ta, k0) {
            spec_merge(ta[table_index_of(ta, k0)].1, v0)
        } else {
            v0
        };
        let ta2 = table_store(ta, k0, x);
        lemma_store_props(ta, k0, x);
        assert forall|i: int, j: int| 0 <= i < j < tbr.len() implies tbr[i].0 != tbr[j].0 by {
            assert(tbr[i] == tb[i + 1]);
            assert(tbr[j] == tb[j + 1]);
        }
        lemma_merge_tables_law(ta2, tbr);
        assert(m == spec_merge_tables(ta2, tbr));
        // the head key of tb is absent from the rest of tb
        assert forall|l: int| 0 <= l < tbr.len() implies tbr[l].0 != k0 by {
            assert(tbr[l] == tb[l + 1]);
        }
        lemma_table_index_of_absent(tbr, k0);
        // lookups in tb beyond the head agree with lookups in tb itself
        assert forall|k: Seq<char>| k != k0 implies table_contains(tb, k) == table_contains(
            tbr,
            k,
        ) && table_lookup(tb, k) == table_lookup(tbr, k) by {
            lemma_lookup_drop_head(tb, k);
        }
        assert(table_lookup(tb, k0) == Some(v0));
        // the head key's final binding
        if table_contains(ta, k0) {
            assert(table_lookup(m, k0) == table_lookup(ta2, k0));
            assert(table_lookup(ta2, k0) == Some(x));
            assert(table_lookup(ta, k0)->Some_0 == ta[table_index_of(ta, k0)].1);
        } else {
            assert(table_lookup(m, k0) == table_lookup(ta2, k0));
            assert(table_lookup(ta2, k0) == Some(v0));
        }
        // key sets
        assert(table_keys(m) =~= table_keys(ta).union(table_keys(tb))) by {
            assert forall|k: Seq<char>| #[trigger] table_contains(ta2, k) || table_contains(
                tbr,
                k,
            ) implies table_contains(ta, k) || table_contains(tb, k) by {
                if k != k0 && table_contains(tbr, k) {
                    lemma_lookup_drop_head(tb, k);
                }
            }
            assert forall|k: Seq<char>| table_contains(ta, k) || table_contains(
                tb,
                k,
            ) implies #[trigger] table_contains(ta2, k) || table_contains(tbr, k) by {
                if k != k0 && table_contains(tb, k) {
                    lemma_lookup_drop_head(tb, k);
                }
            }
            assert forall|k: Seq<char>| #[trigger] table_contains(m, k) == (table_contains(ta2, k)
                || table_contains(tbr, k)) by {
                assert(table_keys(spec_merge_tables(ta2, tbr)) == table_keys(ta2).union(
                    table_keys(tbr),
                ));
                assert(table_keys(m).contains(k) == table_keys(ta2).union(table_keys(tbr)).contains(
                    k,
                ));
            }
        }
        // per-key lookups
        assert forall|k: Seq<char>|
            table_contains(tb, k) && !table_contains(ta, k) implies table_lookup(m, k)
            == table_lookup(tb, k) by {
            if k == k0 {
            } else {
                lemma_lookup_drop_head(tb, k);
            }
        }
        assert forall|k: Seq<char>|
            table_contains(ta, k) && !table_contains(tb, k) implies table_lookup(m, k)
            == table_lookup(ta, k) by {
            lemma_lookup_drop_head(tb, k);
        }
        assert forall|k: Seq<char>|
            table_contains(ta, k) && table_contains(tb, k) implies table_lookup(m, k) == Some(
            spec_merge(table_lookup(ta, k)->Some_0, table_lookup(tb, k)->Some_0),
        ) by {
            if k == k0 {
            } else {
                lemma_lookup_drop_head(tb, k);
            }
        }
    }
}

pub proof fn lemma_table_index_of_first(t: Seq<(Seq<char>, ConfigData)>, k: Seq<char>, j: int)
    requires
        0 <= j < t.len(),
        t[j].0 == k,
        forall|l: int| 0 <= l < j ==> t[l].0 != k,
    ensures
        table_index_of(t, k) == j,
    decreases j,
{
    if j == 0 {
    } else {
        lemma_table_index_of_first(t.drop_first(), k, j - 1);
    }
}

pub proof fn lemma_table_index_of_absent(t: Seq<(Seq<char>, ConfigData)>, k: Seq<char>)
    requires
        forall|l: int| 0 <= l < t.len() ==> t[l].0 != k,
    ensures
        table_index_of(t, k) == -1,
    decreases t.len(),
{
    if t.len() > 0 {
        lemma_table_index_of_absent(t.drop_first(), k);
    }
}


/// Whether every element of a list is a scalar.
pub open spec fn all_scalars(l: Seq<ConfigData>) -> bool {
    forall|i: int| 0 <= i < l.len() ==> (#[trigger] l[i]) is Scalar
}

/// The scalar texts of a list.
pub open spec fn scalar_texts(l: Seq<ConfigData>) -> Seq<Seq<char>> {
    l.map_values(|d: ConfigData| d->Scalar_0)
}

/// The first entry of a table bound to a key.
#[verifier::loop_isolation(false)]
pub fn table_get<'a>(t: &'a Vec<(String, ConfigValue)>, key: &str) -> (r: Option<
    &'a ConfigValue,
>)
    ensures
        (r is None) == !table_contains(cv_model_table(t@), key@),
        r matches Some(v) ==> table_lookup(cv_model_table(t@), key@) == Some(cv_model(*v)),
{
    proof {
        lemma_cv_model_table_elts(t@);
    }
    let mut i: usize = 0;
    while i < t.len()
        invariant
            0 <= i <= t@.len(),
            forall|j: int| 0 <= j < i ==> t@[j].0@ != key@,
        decreases t@.len() - i,
    {
        if crate::strutil::str_eq(t[i].0.as_str(), key) {
            proof {
                assert forall|j: int| 0 <= j < i implies cv_model_table(t@)[j].0 != key@ by {
                    assert(cv_model_table(t@)[j] == (t@[j].0@, cv_model(t@[j].1)));
                }
                lemma_table_index_of_first(cv_model_table(t@), key@, i as int);
            }
            return Some(&t[i].1);
        }
        i = i + 1;
    }
    proof {
        assert forall|j: int| 0 <= j < t@.len() implies cv_model_table(t@)[j].0 != key@ by {
            assert(cv_model_table(t@)[j] == (t@[j].0@, cv_model(t@[j].1)));
        }
        lemma_table_index_of_absent(cv_model_table(t@), key@);
    }
    None
}

/// Read a scalar value's text.
pub fn decode_string(v: &ConfigValue) -> (r: Result<String, Error>)
    ensures
        (r is Ok) == (v@ is Scalar),
        r matches Ok(s) ==> v@ matches ConfigData::Scalar(t) && s@ == t,
        r matches Err(e) ==> e.kind == ErrorKind::InvalidArgument,
{
    match v {
        ConfigValue::Scalar(s) => Ok(s.clone()),
        _ => Err(Error::new(ErrorKind::InvalidArgument, "expected a string value")),
    }
}

/// Read a list of scalars as their texts.
#[verifier::loop_isolation(false)]
pub fn decode_string_list(v: &ConfigValue) -> (r: Result<Vec<String>, Error>)
    ensures
        (r is Ok) == (v@ matches ConfigData::List(l) && all_scalars(l)),
        r matches Ok(items) ==> v@ matches ConfigData::List(l) && items@.len() == l.len()
            && forall|i: int| 0 <= i < l.len() ==> (#[trigger] items@[i])@ == l[i]->Scalar_0,
        r matches Err(e) ==> e.kind == ErrorKind::InvalidArgument,
{
    match v {
        ConfigValue::List(elems) => {
            proof {
                lemma_cv_model_list_elts(elems@);
            }
            let mut items: Vec<String> = Vec::new();
            let mut i: usize = 0;
            while i < elems.len()
                invariant
                    0 <= i <= elems@.len(),
                    items@.len() == i,
                    forall|j: int| 0 <= j < i ==> (#[trigger] cv_model_list(elems@)[j]) is Scalar,
                    forall|j: int| 0 <= j < i ==> (#[trigger] items@[j])@ == cv_model_list(
                        elems@,
                    )[j]->Scalar_0,
                decreases elems@.len() - i,
            {
                match &elems[i] {
                    ConfigValue::Scalar(s) => {
                        proof {
                            assert(cv_model_list(elems@)[i as int] == cv_model(elems@[i as int]));
                            assert(cv_model(elems@[i as int]) == ConfigData::Scalar(s@));
                        }
                        items.push(s.clone());
                    },
                    other => {
                        proof {
                            assert(cv_model_list(elems@)[i as int] == cv_model(elems@[i as int]));
                            assert(!(cv_model_list(elems@)[i as int] is Scalar));
                        }
                        return Err(
                            Error::new(ErrorKind::InvalidArgument, "expected a list of strings"),
                        );
                    },
                }
                i = i + 1;
            }
            Ok(items)
        },
        other => Err(Error::new(ErrorKind::InvalidArgument, "expected a list of strings")),
    }
}

} // verus!
