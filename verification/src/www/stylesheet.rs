//! Compiled stylesheets, keyed by their output name. Reading and macro
//! substitution happen outside the library; the table itself and its
//! composition are verified.

use vstd::prelude::*;

use crate::kvseq::{
    kv_fold_insert, kv_lookup, kv_map, lemma_kv_index_of_absent, lemma_kv_index_of_first,
    lemma_kv_map_push_absent, lemma_kv_map_update_first,
};

verus! {

/// One compiled stylesheet: its contents and the newest modification time
/// among its inputs.
#[derive(Debug, Clone)]
pub struct StylesheetFile {
    pub contents: String,
    pub mtime: u64,
}

/// The compiled stylesheets by output name.
#[derive(Debug)]
pub struct Stylesheets {
    pub sheets: Vec<(String, StylesheetFile)>,
}

/// The bindings of a stylesheet table, keyed by the names' texts.
pub open spec fn sheet_entries(s: Seq<(String, StylesheetFile)>) -> Seq<
    (Seq<char>, StylesheetFile),
> {
    s.map_values(|p: (String, StylesheetFile)| (p.0@, p.1))
}

impl Default for Stylesheets {
    /// An empty stylesheet table.
    fn default() -> (r: Self)
        ensures
            r.sheets@.len() == 0,
    {
        Stylesheets { sheets: Vec::new() }
    }
}

impl Stylesheets {
    /// Take every sheet of `b` over, each replacing a sheet of the same
    /// name.
    #[verifier::loop_isolation(false)]
    pub fn extend(&mut self, b: Stylesheets)
        ensures
            kv_map(sheet_entries(final(self).sheets@)) == kv_fold_insert(
                kv_map(sheet_entries(old(self).sheets@)),
                sheet_entries(b.sheets@),
            ),
    {
        let mut rest = b.sheets;
        let ghost gb = sheet_entries(rest@);
        let ghost mut c: int = 0;
        proof {
            assert(gb.skip(0) =~= gb);
        }
        while rest.len() > 0
            invariant
                0 <= c <= gb.len(),
                sheet_entries(rest@) =~= gb.skip(c),
                kv_fold_insert(kv_map(sheet_entries(old(self).sheets@)), gb) == kv_fold_insert(
                    kv_map(sheet_entries(self.sheets@)),
                    gb.skip(c),
                ),
            decreases rest@.len(),
        {
            let (k, v) = rest.remove(0);
            proof {
                assert(sheet_entries(rest@) =~= gb.skip(c).drop_first());
                assert(gb.skip(c).drop_first() =~= gb.skip(c + 1));
                assert(gb.skip(c)[0] == (k@, v));
                c = c + 1;
            }
            self.store(k, v);
        }
        proof {
            assert(gb.skip(gb.len() as int) =~= Seq::<(Seq<char>, StylesheetFile)>::empty());
        }
    }

    /// Bind an output name to a sheet, replacing any earlier binding.
    #[verifier::loop_isolation(false)]
    fn store(&mut self, k: String, v: StylesheetFile)
        ensures
            kv_map(sheet_entries(final(self).sheets@)) == kv_map(
                sheet_entries(old(self).sheets@),
            ).insert(k@, v),
    {
        let ghost gs = sheet_entries(self.sheets@);
        let mut i: usize = 0;
        while i < self.sheets.len()
            invariant
                sheet_entries(self.sheets@) == gs,
                0 <= i <= self.sheets@.len(),
                forall|j: int| 0 <= j < i ==> (#[trigger] gs[j]).0 != k@,
            decreases self.sheets@.len() - i,
        {
            proof {
                assert(gs[i as int] == (self.sheets@[i as int].0@, self.sheets@[i as int].1));
            }
            if crate::strutil::str_eq(self.sheets[i].0.as_str(), k.as_str()) {
                let _old = self.sheets.remove(i);
                self.sheets.insert(i, (k, v));
                proof {
                    assert(sheet_entries(self.sheets@) =~= gs.update(i as int, (k@, v)));
                    lemma_kv_map_update_first(gs, i as int, (k@, v));
                }
                return ;
            }
            i = i + 1;
        }
        self.sheets.push((k, v));
        proof {
            assert(sheet_entries(self.sheets@) =~= gs.push((k@, v)));
            lemma_kv_map_push_absent(gs, (k@, v));
        }
    }

    /// The sheet of an output name, if any.
    #[verifier::loop_isolation(false)]
    pub fn get<'a>(&'a self, name: &str) -> (r: Option<&'a StylesheetFile>)
        ensures
            (r is None) == (kv_lookup(sheet_entries(self.sheets@), name@) is None),
            r matches Some(f) ==> kv_lookup(sheet_entries(self.sheets@), name@) == Some(*f),
    {
        let ghost gs = sheet_entries(self.sheets@);
        let mut i: usize = 0;
        while i < self.sheets.len()
            invariant
                0 <= i <= self.sheets@.len(),
                forall|j: int| 0 <= j < i ==> (#[trigger] gs[j]).0 != name@,
            decreases self.sheets@.len() - i,
        {
            proof {
                assert(gs[i as int] == (self.sheets@[i as int].0@, self.sheets@[i as int].1));
            }
            if crate::strutil::str_eq(self.sheets[i].0.as_str(), name) {
                proof {
                    lemma_kv_index_of_first(gs, name@, i as int);
                }
                return Some(&self.sheets[i].1);
            }
            i = i + 1;
        }
        proof {
            lemma_kv_index_of_absent(gs, name@);
        }
        None
    }
}

} // verus!
