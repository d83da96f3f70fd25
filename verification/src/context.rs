//! The loaded content model: authors, entries, the link rule table, and
//! the layered UI-text tables with their per-locale cascade.

use vstd::prelude::*;

use crate::config::{
    cv_model, cv_model_table, lemma_cv_model_table_elts, lemma_table_index_of_absent, merge,
    spec_merge, table_contains, table_index_of, ConfigData, ConfigValue,
};
use crate::error::{Error, ErrorKind};
use crate::game::Game;
use crate::i18n::{spec_lang_of_tag, LangId};
use crate::link::LinkRuleManager;
use crate::raw::Author;

verus! {

/// The first position binding a locale in a UI-text table, or -1.
pub open spec fn lang_index_of(u: Seq<(LangId, ConfigValue)>, l: LangId) -> int
    decreases u.len(),
{
    if u.len() == 0 {
        -1
    } else if u[0].0 == l {
        0
    } else {
        let r = lang_index_of(u.drop_first(), l);
        if r == -1 {
            -1
        } else {
            r + 1
        }
    }
}

/// Whether a UI-text table binds a locale.
pub open spec fn lang_contains(u: Seq<(LangId, ConfigValue)>, l: LangId) -> bool {
    lang_index_of(u, l) >= 0
}

/// The text table a locale is bound to, going by the first binding.
pub open spec fn ui_lookup(u: Seq<(LangId, ConfigValue)>, l: LangId) -> Option<ConfigData> {
    if lang_contains(u, l) {
        Some(cv_model(u[lang_index_of(u, l)].1))
    } else {
        None
    }
}

/// No locale is bound twice.
pub open spec fn lang_unique(u: Seq<(LangId, ConfigValue)>) -> bool {
    forall|i: int, j: int| 0 <= i < j < u.len() ==> u[i].0 != u[j].0
}

/// The per-locale text tables a UI-text table denotes; the first binding
/// of a locale wins.
pub open spec fn ui_map(u: Seq<(LangId, ConfigValue)>) -> Map<LangId, ConfigData>
    decreases u.len(),
{
    if u.len() == 0 {
        Map::empty()
    } else {
        ui_map(u.drop_first()).insert(u[0].0, cv_model(u[0].1))
    }
}

proof fn lemma_lang_index_of_props(u: Seq<(LangId, ConfigValue)>, l: LangId)
    ensures
        lang_index_of(u, l) == -1 ==> forall|i: int| 0 <= i < u.len() ==> u[i].0 != l,
        lang_index_of(u, l) != -1 ==> 0 <= lang_index_of(u, l) < u.len() && u[lang_index_of(
            u,
            l,
        )].0 == l && forall|i: int| 0 <= i < lang_index_of(u, l) ==> u[i].0 != l,
    decreases u.len(),
{
    if u.len() > 0 && u[0].0 != l {
        lemma_lang_index_of_props(u.drop_first(), l);
        let r = lang_index_of(u.drop_first(), l);
        assert forall|i: int| 1 <= i < u.len() implies u.drop_first()[i - 1] == u[i] by {}
        if r != -1 {
            assert(u.drop_first()[r] == u[r + 1]);
        }
    }
}

proof fn lemma_lang_index_of_first(u: Seq<(LangId, ConfigValue)>, l: LangId, j: int)
    requires
        0 <= j < u.len(),
        u[j].0 == l,
        forall|i: int| 0 <= i < j ==> u[i].0 != l,
    ensures
        lang_index_of(u, l) == j,
    decreases j,
{
    if j > 0 {
        lemma_lang_index_of_first(u.drop_first(), l, j - 1);
    }
}

proof fn lemma_lang_index_of_absent(u: Seq<(LangId, ConfigValue)>, l: LangId)
    requires
        forall|i: int| 0 <= i < u.len() ==> u[i].0 != l,
    ensures
        lang_index_of(u, l) == -1,
    decreases u.len(),
{
    if u.len() > 0 {
        lemma_lang_index_of_absent(u.drop_first(), l);
    }
}

proof fn lemma_ui_map_push_absent(u: Seq<(LangId, ConfigValue)>, p: (LangId, ConfigValue))
    requires
        forall|i: int| 0 <= i < u.len() ==> u[i].0 != p.0,
    ensures
        ui_map(u.push(p)) == ui_map(u).insert(p.0, cv_model(p.1)),
    decreases u.len(),
{
    if u.len() == 0 {
        assert(u.push(p)[0] == p);
        assert(u.push(p).drop_first() =~= Seq::<(LangId, ConfigValue)>::empty());
        assert(ui_map(Seq::<(LangId, ConfigValue)>::empty()) =~= Map::<LangId, ConfigData>::empty());
        assert(ui_map(u.push(p)) =~= ui_map(u).insert(p.0, cv_model(p.1)));
    } else {
        lemma_ui_map_push_absent(u.drop_first(), p);
        assert(u.push(p).drop_first() =~= u.drop_first().push(p));
        assert(u.push(p)[0] == u[0]);
        assert(ui_map(u.push(p)) == ui_map(u.drop_first().push(p)).insert(u[0].0, cv_model(u[0].1)));
        assert(ui_map(u).insert(p.0, cv_model(p.1)) =~= ui_map(u.drop_first()).insert(
            p.0,
            cv_model(p.1),
        ).insert(u[0].0, cv_model(u[0].1))) by {
            assert(u[0].0 != p.0);
        }
    }
}

proof fn lemma_ui_map_update_first(u: Seq<(LangId, ConfigValue)>, idx: int, p: (LangId, ConfigValue))
    requires
        0 <= idx < u.len(),
        u[idx].0 == p.0,
        forall|i: int| 0 <= i < idx ==> u[i].0 != p.0,
    ensures
        ui_map(u.update(idx, p)) == ui_map(u).insert(p.0, cv_model(p.1)),
    decreases idx,
{
    let v = u.update(idx, p);
    if idx == 0 {
        assert(v.drop_first() =~= u.drop_first());
        assert(v[0] == p);
        assert(ui_map(v) == ui_map(u.drop_first()).insert(p.0, cv_model(p.1)));
        assert(ui_map(u).insert(p.0, cv_model(p.1)) =~= ui_map(u.drop_first()).insert(
            p.0,
            cv_model(p.1),
        ));
    } else {
        assert(u.drop_first()[idx - 1] == u[idx]);
        assert forall|i: int| 0 <= i < idx - 1 implies u.drop_first()[i].0 != p.0 by {
            assert(u.drop_first()[i] == u[i + 1]);
        }
        lemma_ui_map_update_first(u.drop_first(), idx - 1, p);
        assert(v.drop_first() =~= u.drop_first().update(idx - 1, p));
        assert(v[0] == u[0]);
        assert(ui_map(v) == ui_map(u.drop_first()).insert(p.0, cv_model(p.1)).insert(
            u[0].0,
            cv_model(u[0].1),
        ));
        assert(ui_map(u).insert(p.0, cv_model(p.1)) =~= ui_map(u.drop_first()).insert(
            p.0,
            cv_model(p.1),
        ).insert(u[0].0, cv_model(u[0].1))) by {
            assert(u[0].0 != p.0);
        }
    }
}

proof fn lemma_ui_map_remove_first(u: Seq<(LangId, ConfigValue)>, idx: int)
    requires
        lang_unique(u),
        0 <= idx < u.len(),
        forall|i: int| 0 <= i < idx ==> u[i].0 != u[idx].0,
    ensures
        ui_map(u.remove(idx)) == ui_map(u).remove(u[idx].0),
    decreases idx,
{
    let v = u.remove(idx);
    if idx == 0 {
        assert(v =~= u.drop_first());
        assert forall|l: LangId| true implies #[trigger] ui_map(u).remove(u[0].0).dom().contains(l)
            == ui_map(v).dom().contains(l) && (ui_map(v).dom().contains(l) ==> ui_map(u).remove(
            u[0].0,
        )[l] == ui_map(v)[l]) by {
            lemma_ui_map_no_binding(u.drop_first(), u[0].0);
        }
        assert(ui_map(v) =~= ui_map(u).remove(u[0].0));
    } else {
        assert forall|i: int, j: int| 0 <= i < j < u.drop_first().len() implies u.drop_first()[i].0
            != u.drop_first()[j].0 by {
            assert(u.drop_first()[i] == u[i + 1]);
            assert(u.drop_first()[j] == u[j + 1]);
        }
        assert(u.drop_first()[idx - 1] == u[idx]);
        assert forall|i: int| 0 <= i < idx - 1 implies (#[trigger] u.drop_first()[i]).0
            != u.drop_first()[idx - 1].0 by {
            assert(u.drop_first()[i] == u[i + 1]);
        }
        lemma_ui_map_remove_first(u.drop_first(), idx - 1);
        assert(v.drop_first() =~= u.drop_first().remove(idx - 1));
        assert(v[0] == u[0]);
        assert(ui_map(v) == ui_map(u.drop_first()).remove(u[idx].0).insert(u[0].0, cv_model(u[0].1)));
        assert(ui_map(u).remove(u[idx].0) =~= ui_map(u.drop_first()).remove(u[idx].0).insert(
            u[0].0,
            cv_model(u[0].1),
        )) by {
            assert(u[0].0 != u[idx].0);
        }
    }
}

// A locale no entry binds is not in the table's map.
proof fn lemma_ui_map_no_binding(u: Seq<(LangId, ConfigValue)>, l: LangId)
    requires
        forall|i: int| 0 <= i < u.len() ==> u[i].0 != l,
    ensures
        !ui_map(u).dom().contains(l),
    decreases u.len(),
{
    if u.len() > 0 {
        lemma_ui_map_no_binding(u.drop_first(), l);
    }
}

/// Replace the first binding of a locale, or append one.
#[verifier::loop_isolation(false)]
fn ui_store(u: &mut Vec<(LangId, ConfigValue)>, l: LangId, v: ConfigValue)
    ensures
        ui_map(final(u)@) == ui_map(old(u)@).insert(l, cv_model(v)),
        lang_unique(old(u)@) ==> lang_unique(final(u)@),
        lang_contains(final(u)@, l),
        forall|l2: LangId| l2 != l ==> lang_contains(final(u)@, l2) == lang_contains(old(u)@, l2),
{
    let ghost gu = u@;
    let mut i: usize = 0;
    while i < u.len()
        invariant
            u@ == gu,
            0 <= i <= gu.len(),
            forall|j: int| 0 <= j < i ==> gu[j].0 != l,
        decreases gu.len() - i,
    {
        if u[i].0 == l {
            let ghost gidx = i as int;
            let (l0, _old) = u.remove(i);
            u.insert(i, (l, v));
            proof {
                assert(u@ =~= gu.update(gidx, (l, v)));
                lemma_ui_map_update_first(gu, gidx, (l, v));
                lemma_lang_index_of_first(u@, l, gidx);
                assert forall|l2: LangId| l2 != l implies lang_contains(u@, l2) == lang_contains(
                    gu,
                    l2,
                ) by {
                    lemma_lang_same_keys(gu, u@, l2);
                }
                if lang_unique(gu) {
                    assert forall|a: int, b: int| 0 <= a < b < u@.len() implies u@[a].0
                        != u@[b].0 by {
                        assert(gu[a].0 == u@[a].0 || a == gidx);
                        assert(gu[b].0 == u@[b].0 || b == gidx);
                    }
                }
            }
            return ;
        }
        i = i + 1;
    }
    proof {
        lemma_ui_map_push_absent(gu, (l, v));
        lemma_lang_index_of_first(gu.push((l, v)), l, gu.len() as int);
        assert forall|l2: LangId| l2 != l implies lang_contains(gu.push((l, v)), l2)
            == lang_contains(gu, l2) by {
            lemma_lang_push_other(gu, (l, v), l2);
        }
    }
    u.push((l, v));
}

proof fn lemma_lang_same_keys(
    u1: Seq<(LangId, ConfigValue)>,
    u2: Seq<(LangId, ConfigValue)>,
    l: LangId,
)
    requires
        u1.len() == u2.len(),
        forall|i: int| 0 <= i < u1.len() ==> u1[i].0 == u2[i].0,
    ensures
        lang_index_of(u1, l) == lang_index_of(u2, l),
    decreases u1.len(),
{
    if u1.len() > 0 {
        assert forall|i: int| 0 <= i < u1.len() - 1 implies u1.drop_first()[i].0
            == u2.drop_first()[i].0 by {
            assert(u1.drop_first()[i] == u1[i + 1]);
            assert(u2.drop_first()[i] == u2[i + 1]);
        }
        lemma_lang_same_keys(u1.drop_first(), u2.drop_first(), l);
    }
}

proof fn lemma_lang_push_other(
    u: Seq<(LangId, ConfigValue)>,
    p: (LangId, ConfigValue),
    l: LangId,
)
    requires
        l != p.0,
    ensures
        lang_index_of(u.push(p), l) == lang_index_of(u, l),
    decreases u.len(),
{
    if u.len() == 0 {
        assert(u.push(p)[0] == p);
        assert(u.push(p).drop_first() =~= Seq::<(LangId, ConfigValue)>::empty());
        assert(lang_index_of(Seq::<(LangId, ConfigValue)>::empty(), l) == -1);
    } else {
        lemma_lang_push_other(u.drop_first(), p, l);
        assert(u.push(p).drop_first() =~= u.drop_first().push(p));
        assert(u.push(p)[0] == u[0]);
    }
}

/// The loaded content model: authors, entries, the link rule table, and
/// the per-locale UI-text tables.
pub struct ContextData {
    pub authors: Vec<(String, Author)>,
    pub games: Vec<(String, Game)>,
    pub link_rules: LinkRuleManager,
    pub ui: Vec<(LangId, ConfigValue)>,
}

impl Default for ContextData {
    /// An empty content model.
    fn default() -> (r: Self)
        ensures
            r.link_rules.wf(),
            r.authors@.len() == 0,
            r.games@.len() == 0,
            r.link_rules.spec_rules().len() == 0,
            r.link_rules.spec_inference().len() == 0,
            r.ui@.len() == 0,
    {
        ContextData {
            authors: Vec::new(),
            games: Vec::new(),
            link_rules: LinkRuleManager::default(),
            ui: Vec::new(),
        }
    }
}

/// The per-locale overlays applied in order: each top-level key of the
/// default layer's table, read as a locale tag, gets the default layer
/// overlaid with its value.
pub open spec fn spec_apply_overlays(
    base: Map<LangId, ConfigData>,
    low: ConfigData,
    entries: Seq<(Seq<char>, ConfigData)>,
    n: int,
) -> Map<LangId, ConfigData>
    decreases n,
{
    if n <= 0 {
        base
    } else {
        spec_apply_overlays(base, low, entries, n - 1).insert(
            spec_lang_of_tag(entries[n - 1].0),
            spec_merge(low, entries[n - 1].1),
        )
    }
}

/// The UI-text tables after the cascade: every overlay applied onto a
/// copy of the default layer, and the default layer itself under the
/// default locale unless an overlay took that place.
pub open spec fn spec_post_ui(
    base: Map<LangId, ConfigData>,
    low: ConfigData,
    entries: Seq<(Seq<char>, ConfigData)>,
) -> Map<LangId, ConfigData> {
    let m = spec_apply_overlays(base, low, entries, entries.len() as int);
    if m.dom().contains(LangId::EnUs) {
        m
    } else {
        m.insert(LangId::EnUs, low)
    }
}

impl ContextData {
    /// Overlay one parsed UI configuration document onto the default
    /// layer, which starts as an empty mapping.
    pub fn load_ui_value(&mut self, value: ConfigValue)
        ensures
            ui_map(final(self).ui@) == ui_map(old(self).ui@).insert(
                LangId::EnUs,
                spec_merge(
                    match ui_lookup(old(self).ui@, LangId::EnUs) {
                        Some(d) => d,
                        None => ConfigData::Table(Seq::empty()),
                    },
                    value@,
                ),
            ),
            lang_unique(old(self).ui@) ==> lang_unique(final(self).ui@),
            lang_contains(final(self).ui@, LangId::EnUs),
            final(self).games == old(self).games,
            final(self).link_rules == old(self).link_rules,
    {
        let ghost gu = self.ui@;
        let mut i: usize = 0;
        let mut found: bool = false;
        while i < self.ui.len() && !found
            invariant
                self.ui@ == gu,
                0 <= i <= gu.len(),
                found ==> i < gu.len() && gu[i as int].0 == LangId::EnUs,
                forall|j: int| 0 <= j < i ==> gu[j].0 != LangId::EnUs,
            decreases gu.len() - i, (if found {
                0int
            } else {
                1int
            }),
        {
            if self.ui[i].0 == LangId::EnUs {
                found = true;
            } else {
                i = i + 1;
            }
        }
        if found {
            proof {
                lemma_lang_index_of_first(gu, LangId::EnUs, i as int);
            }
            let (l0, mut cur) = self.ui.remove(i);
            merge(&mut cur, value);
            self.ui.insert(i, (LangId::EnUs, cur));
            proof {
                assert(self.ui@ =~= gu.update(i as int, (LangId::EnUs, cur)));
                lemma_ui_map_update_first(gu, i as int, (LangId::EnUs, cur));
                lemma_lang_index_of_first(self.ui@, LangId::EnUs, i as int);
                if lang_unique(gu) {
                    assert forall|a: int, b: int| 0 <= a < b < self.ui@.len() implies self.ui@[a].0
                        != self.ui@[b].0 by {
                        assert(gu[a].0 == self.ui@[a].0 || a == i as int);
                        assert(gu[b].0 == self.ui@[b].0 || b == i as int);
                    }
                }
            }
        } else {
            proof {
                lemma_lang_index_of_absent(gu, LangId::EnUs);
            }
            let mut cur = ConfigValue::Table(Vec::new());
            proof {
                assert(cv_model_table(Seq::<(String, ConfigValue)>::empty()) =~= Seq::<
                    (Seq<char>, ConfigData),
                >::empty());
            }
            merge(&mut cur, value);
            proof {
                lemma_ui_map_push_absent(gu, (LangId::EnUs, cur));
                lemma_lang_index_of_first(gu.push((LangId::EnUs, cur)), LangId::EnUs, gu.len() as int);
            }
            self.ui.push((LangId::EnUs, cur));
        }
    }

    /// Fan the default layer out per locale: the reserved `_` key of the
    /// default layer's table holds the base strings, and every sibling
    /// top-level key is a per-locale overlay merged onto a copy of them.
    /// The default layer itself keeps the base strings unless an overlay
    /// claimed the default locale.
    #[verifier::loop_isolation(false)]
    pub fn post_load_ui(&mut self) -> (r: Result<(), Error>)
        requires
            lang_unique(old(self).ui@),
            lang_contains(old(self).ui@, LangId::EnUs),
        ensures
            final(self).games == old(self).games,
            final(self).link_rules == old(self).link_rules,
            ({
                let dv = ui_lookup(old(self).ui@, LangId::EnUs)->Some_0;
                &&& (r is Ok) == (dv is Table && table_contains(dv->Table_0, "_"@))
                &&& (r matches Err(e) ==> e.kind == ErrorKind::InvalidArgument && ui_map(
                    final(self).ui@,
                ) == ui_map(old(self).ui@).remove(LangId::EnUs))
                &&& (r is Ok ==> {
                    let t = dv->Table_0;
                    let widx = table_index_of(t, "_"@);
                    let low = t[widx].1;
                    ui_map(final(self).ui@) == spec_post_ui(
                        ui_map(old(self).ui@).remove(LangId::EnUs),
                        low,
                        t.remove(widx),
                    )
                })
            }),
    {
        let ghost gu = self.ui@;
        let ghost dv = ui_lookup(gu, LangId::EnUs)->Some_0;
        // take the default layer out
        let mut i: usize = 0;
        let mut ifound: bool = false;
        proof {
            lemma_lang_index_of_props(gu, LangId::EnUs);
        }
        while i < self.ui.len() && !ifound
            invariant
                self.ui@ == gu,
                0 <= i <= gu.len(),
                ifound ==> i < gu.len() && gu[i as int].0 == LangId::EnUs,
                forall|j: int| 0 <= j < i ==> gu[j].0 != LangId::EnUs,
            decreases gu.len() - i, (if ifound {
                0int
            } else {
                1int
            }),
        {
            if self.ui[i].0 == LangId::EnUs {
                ifound = true;
            } else {
                i = i + 1;
            }
        }
        proof {
            if !ifound {
                assert(gu[lang_index_of(gu, LangId::EnUs)].0 == LangId::EnUs);
                assert(false);
            }
            lemma_lang_index_of_first(gu, LangId::EnUs, i as int);
        }
        let (_l0, orig_ui) = self.ui.remove(i);
        proof {
            lemma_ui_map_remove_first(gu, i as int);
            assert(cv_model(orig_ui) == dv);
            assert forall|a: int, b: int| 0 <= a < b < self.ui@.len() implies self.ui@[a].0
                != self.ui@[b].0 by {
                let u2 = self.ui@;
                assert(u2[a] == if a < i as int {
                    gu[a]
                } else {
                    gu[a + 1]
                });
                assert(u2[b] == if b < i as int {
                    gu[b]
                } else {
                    gu[b + 1]
                });
            }
        }
        let ghost base = ui_map(self.ui@);
        match orig_ui {
            ConfigValue::Table(mut table) => {
                let ghost gtable = table@;
                proof {
                    lemma_cv_model_table_elts(gtable);
                }
                // find the reserved default layer key
                let mut w: usize = 0;
                let mut wfound: bool = false;
                while w < table.len() && !wfound
                    invariant
                        table@ == gtable,
                        0 <= w <= gtable.len(),
                        wfound ==> w < gtable.len() && gtable[w as int].0@ == "_"@,
                        forall|j: int| 0 <= j < w ==> gtable[j].0@ != "_"@,
                    decreases gtable.len() - w, (if wfound {
                        0int
                    } else {
                        1int
                    }),
                {
                    if crate::strutil::str_eq(table[w].0.as_str(), "_") {
                        wfound = true;
                    } else {
                        w = w + 1;
                    }
                }
                if !wfound {
                    proof {
                        lemma_table_index_of_absent(cv_model_table(gtable), "_"@);
                    }
                    return Err(
                        Error::new(
                            ErrorKind::InvalidArgument,
                            "the reserved default entry was not found in the ui config",
                        ),
                    );
                }
                proof {
                    crate::config::lemma_table_index_of_first(
                        cv_model_table(gtable),
                        "_"@,
                        w as int,
                    );
                }
                let (_wkey, low_ui) = table.remove(w);
                let ghost low = cv_model(low_ui);
                let ghost gentries = cv_model_table(table@);
                proof {
                    lemma_cv_model_table_elts(table@);
                    assert(gentries =~= cv_model_table(gtable).remove(w as int));
                }
                // apply each overlay in order
                let ghost mut c: int = 0;
                let ghost goverlays = table@;
                proof {
                    assert(goverlays.skip(0) =~= goverlays);
                }
                while table.len() > 0
                    invariant
                        0 <= c <= goverlays.len(),
                        table@ == goverlays.skip(c),
                        cv_model(low_ui) == low,
                        gentries == cv_model_table(goverlays),
                        ui_map(self.ui@) == spec_apply_overlays(base, low, gentries, c),
                        lang_unique(self.ui@) || !lang_unique(gu),
                        self.games == old(self).games,
                        self.authors == old(self).authors,
                        self.link_rules == old(self).link_rules,
                    decreases table@.len(),
                {
                    let ghost gprev = self.ui@;
                    let (lang_key, value) = table.remove(0);
                    proof {
                        assert((lang_key, value) == goverlays[c]);
                        assert(goverlays.skip(c).drop_first() =~= goverlays.skip(c + 1));
                        lemma_cv_model_table_elts(goverlays);
                        assert(gentries[c] == (lang_key@, cv_model(value)));
                    }
                    let lang: LangId = LangId::from(lang_key.as_str());
                    let mut merged = low_ui.deep_clone();
                    merge(&mut merged, value);
                    ui_store(&mut self.ui, lang, merged);
                    proof {
                        c = c + 1;
                    }
                }
                // keep the base strings under the default locale unless an
                // overlay claimed it
                let mut has_default: bool = false;
                let mut d: usize = 0;
                let ghost gafter = self.ui@;
                while d < self.ui.len() && !has_default
                    invariant
                        self.ui@ == gafter,
                        0 <= d <= gafter.len(),
                        has_default ==> d < gafter.len() && gafter[d as int].0 == LangId::EnUs,
                        forall|j: int| 0 <= j < d ==> gafter[j].0 != LangId::EnUs,
                    decreases gafter.len() - d, (if has_default {
                        0int
                    } else {
                        1int
                    }),
                {
                    if self.ui[d].0 == LangId::EnUs {
                        has_default = true;
                    } else {
                        d = d + 1;
                    }
                }
                if !has_default {
                    proof {
                        lemma_ui_map_no_binding(gafter, LangId::EnUs);
                        lemma_ui_map_push_absent(gafter, (LangId::EnUs, low_ui));
                    }
                    self.ui.push((LangId::EnUs, low_ui));
                } else {
                    proof {
                        lemma_lang_index_of_first(gafter, LangId::EnUs, d as int);
                        lemma_ui_map_contains(gafter, d as int);
                    }
                }
                Ok(())
            },
            other => {
                proof {
                    assert(!(dv is Table));
                }
                Err(Error::new(ErrorKind::InvalidArgument, "invalid ui config format"))
            },
        }
    }
}

// A bound locale is in the table's map.
proof fn lemma_ui_map_contains(u: Seq<(LangId, ConfigValue)>, idx: int)
    requires
        0 <= idx < u.len(),
    ensures
        ui_map(u).dom().contains(u[idx].0),
    decreases idx,
{
    if idx > 0 {
        assert(u.drop_first()[idx - 1] == u[idx]);
        lemma_ui_map_contains(u.drop_first(), idx - 1);
        assert(ui_map(u) == ui_map(u.drop_first()).insert(u[0].0, cv_model(u[0].1)));
    }
}

} // verus!
