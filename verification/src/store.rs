//! The value store: an order-independent mapping from field name to dynamic
//! value, the atomic unit of persisted data for one record instance.

use vstd::prelude::*;
use crate::value::{Datum, DatumModel, StoreModel, rec_models, rec_wf, rec_keys_distinct,
    fold_pairs, datum_clone, lemma_rec_models_len, lemma_rec_models_index, lemma_rec_wf_index,
    lemma_rec_wf_build, lemma_rec_models_remove, lemma_rec_distinct_viewed,
    lemma_fold_pairs_not_in, lemma_fold_pairs_get, lemma_fold_pairs_push, lemma_fold_pairs_remove,
    lemma_rec_models_agree};
use crate::text::str_eq;

verus! {

/// A generic mapping from field name to dynamic value. Keys are unique;
/// insertion order is irrelevant: the store's meaning is its map model.
#[derive(Debug, PartialEq)]
pub struct PersistData {
    pub values: Vec<(String, Datum)>,
}

impl View for PersistData {
    type V = StoreModel;

    open spec fn view(&self) -> StoreModel {
        fold_pairs(rec_models(self.values@))
    }
}

impl PersistData {
    /// Well-formedness: field names are unique, and every held value is
    /// itself well-formed.
    pub open spec fn wf(self) -> bool {
        rec_keys_distinct(self.values@) && rec_wf(self.values@)
    }

    /// Creates a new, empty store.
    pub fn new() -> (r: Self)
        ensures
            r@ == StoreModel::empty(),
            r.wf(),
    {
        PersistData { values: Vec::new() }
    }

    /// The index of the entry that carries a field name, if any.
    fn find_entry(&self, key: &str) -> (r: Option<usize>)
        ensures
            r matches Some(i) ==> i < self.values@.len() && self.values@[i as int].0@ == key@,
            r is None ==> forall|t: int| 0 <= t < self.values@.len() ==> self.values@[t].0@ != key@,
    {
        let n = self.values.len();
        let mut i: usize = 0;
        while i < n
            invariant
                i <= n,
                n == self.values@.len(),
                forall|t: int| 0 <= t < i ==> self.values@[t].0@ != key@,
            decreases n - i,
        {
            if str_eq(self.values[i].0.as_str(), key) {
                return Some(i);
            }
            i = i + 1;
        }
        None
    }

    /// Stores a value under a field name, replacing any prior value held
    /// under that name.
    pub fn insert(&mut self, key: &str, value: Datum)
        requires
            old(self).wf(),
            value.wf(),
        ensures
            final(self)@ == old(self)@.insert(key@, value@),
            final(self).wf(),
    {
        let ghost before = self.values@;
        proof {
            lemma_rec_models_len(before);
            lemma_rec_distinct_viewed(before);
        }
        match self.find_entry(key) {
            Some(i) => {
                self.values.remove(i);
                proof {
                    lemma_rec_models_remove(before, i as int);
                    lemma_rec_models_index(before, i as int);
                    lemma_fold_pairs_remove(rec_models(before), i as int);
                    assert(rec_models(before)[i as int].0 == key@);
                    assert forall|t: int| 0 <= t < self.values@.len() implies self.values@[t] == (
                        if t < i {
                            before[t]
                        } else {
                            before[t + 1]
                        }) by {
                        assert(self.values@ == before.remove(i as int));
                    }
                    assert forall|t: int| 0 <= t < self.values@.len() implies self.values@[t].1.wf()
                        && self.values@[t].0@ != key@ by {
                        if t < i {
                            lemma_rec_wf_index(before, t);
                        } else {
                            lemma_rec_wf_index(before, t + 1);
                        }
                    }
                }
            },
            None => {
                proof {
                    assert forall|t: int| 0 <= t < rec_models(before).len() implies rec_models(
                        before,
                    )[t].0 != key@ by {
                        lemma_rec_models_index(before, t);
                    }
                    lemma_fold_pairs_not_in(rec_models(before), key@);
                    assert(fold_pairs(rec_models(before)).remove(key@) =~= fold_pairs(
                        rec_models(before),
                    ));
                    assert forall|t: int| 0 <= t < before.len() implies before[t].1.wf() by {
                        lemma_rec_wf_index(before, t);
                    }
                }
            },
        }
        let ghost mid = self.values@;
        self.values.push((key.to_owned(), value));
        proof {
            // after the push, the viewed pairs are the shortened sequence's
            // viewed pairs with the new pair at the end
            assert(self.values@.drop_last() =~= mid);
            assert(rec_models(self.values@) == rec_models(mid).push((key@, value@)));
            lemma_fold_pairs_push(rec_models(mid), key@, value@);
            assert(fold_pairs(rec_models(mid)) == fold_pairs(rec_models(before)).remove(key@));
            assert(old(self)@.remove(key@).insert(key@, value@) =~= old(self)@.insert(
                key@,
                value@,
            ));
            lemma_wf_after_insert(mid, self.values@, key@);
        }
    }

    /// Looks a field name up; absent names give nothing.
    pub fn get(&self, key: &str) -> (r: Option<&Datum>)
        requires
            self.wf(),
        ensures
            r matches Some(v) ==> self@.dom().contains(key@) && v@ == self@[key@],
            r is None ==> !self@.dom().contains(key@),
    {
        proof {
            lemma_rec_models_len(self.values@);
            lemma_rec_distinct_viewed(self.values@);
        }
        match self.find_entry(key) {
            Some(i) => {
                proof {
                    lemma_rec_models_index(self.values@, i as int);
                    lemma_fold_pairs_get(rec_models(self.values@), i as int);
                }
                Some(&self.values[i].1)
            },
            None => {
                proof {
                    assert forall|t: int| 0 <= t < rec_models(self.values@).len() implies
                        rec_models(self.values@)[t].0 != key@ by {
                        lemma_rec_models_index(self.values@, t);
                    }
                    lemma_fold_pairs_not_in(rec_models(self.values@), key@);
                }
                None
            },
        }
    }
}

/// What looking a name up as a signed integer yields: the value under the
/// name when it is an integer in the 64-bit signed range, nothing otherwise.
pub open spec fn store_int(m: StoreModel, k: Seq<char>) -> Option<i64> {
    if m.dom().contains(k) {
        match m[k] {
            DatumModel::Int(n) => if i64::MIN <= n <= i64::MAX {
                Some(n as i64)
            } else {
                None
            },
            _ => None,
        }
    } else {
        None
    }
}

/// What looking a name up as an unsigned integer yields.
pub open spec fn store_uint(m: StoreModel, k: Seq<char>) -> Option<u64> {
    if m.dom().contains(k) {
        match m[k] {
            DatumModel::Int(n) => if 0 <= n <= u64::MAX {
                Some(n as u64)
            } else {
                None
            },
            _ => None,
        }
    } else {
        None
    }
}

/// What looking a name up as a boolean yields.
pub open spec fn store_bool(m: StoreModel, k: Seq<char>) -> Option<bool> {
    if m.dom().contains(k) {
        match m[k] {
            DatumModel::Bool(b) => Some(b),
            _ => None,
        }
    } else {
        None
    }
}

/// What looking a name up as text yields.
pub open spec fn store_text(m: StoreModel, k: Seq<char>) -> Option<Seq<char>> {
    if m.dom().contains(k) {
        match m[k] {
            DatumModel::Text(s) => Some(s),
            _ => None,
        }
    } else {
        None
    }
}

impl PersistData {
    /// Reads a field as a signed integer; a missing field, or one holding
    /// another shape, reads as absent.
    pub fn get_i64(&self, key: &str) -> (r: Option<i64>)
        requires
            self.wf(),
        ensures
            r == store_int(self@, key@),
    {
        match self.get(key) {
            Some(Datum::Int(i)) => Some(*i),
            Some(Datum::UInt(u)) => if *u <= i64::MAX as u64 {
                Some(*u as i64)
            } else {
                None
            },
            _ => None,
        }
    }

    /// Reads a field as an unsigned integer; a missing field, or one holding
    /// another shape, reads as absent.
    pub fn get_u64(&self, key: &str) -> (r: Option<u64>)
        requires
            self.wf(),
        ensures
            r == store_uint(self@, key@),
    {
        match self.get(key) {
            Some(Datum::UInt(u)) => Some(*u),
            Some(Datum::Int(i)) => if *i >= 0 {
                Some(*i as u64)
            } else {
                None
            },
            _ => None,
        }
    }

    /// Reads a field as a boolean; a missing field, or one holding another
    /// shape, reads as absent.
    pub fn get_bool(&self, key: &str) -> (r: Option<bool>)
        requires
            self.wf(),
        ensures
            r == store_bool(self@, key@),
    {
        match self.get(key) {
            Some(Datum::Bool(b)) => Some(*b),
            _ => None,
        }
    }

    /// Reads a field as text; a missing field, or one holding another shape,
    /// reads as absent.
    pub fn get_string(&self, key: &str) -> (r: Option<String>)
        requires
            self.wf(),
        ensures
            r matches Some(s) ==> store_text(self@, key@) == Some(s@),
            r is None <==> store_text(self@, key@) is None,
    {
        match self.get(key) {
            Some(Datum::Text(s)) => Some(s.clone()),
            _ => None,
        }
    }
}

/// A deep copy of a store, with the same model.
pub fn store_clone(d: &PersistData) -> (r: PersistData)
    ensures
        r@ == d@,
        d.wf() ==> r.wf(),
{
    let n = d.values.len();
    let mut out: Vec<(String, Datum)> = Vec::new();
    let mut idx: usize = 0;
    while idx < n
        invariant
            idx <= n,
            n == d.values@.len(),
            out@.len() == idx,
            forall|t: int| 0 <= t < idx ==> out@[t].0@ == d.values@[t].0@,
            forall|t: int| 0 <= t < idx ==> out@[t].1@ == d.values@[t].1@,
            forall|t: int| 0 <= t < idx ==> (d.values@[t].1.wf() ==> out@[t].1.wf()),
        decreases n - idx,
    {
        let entry = &d.values[idx];
        let child = datum_clone(&entry.1);
        out.push((entry.0.clone(), child));
        idx = idx + 1;
    }
    proof {
        lemma_rec_models_agree(d.values@, out@);
        if d.wf() {
            assert forall|t: int| 0 <= t < out@.len() implies out@[t].1.wf() by {
                lemma_rec_wf_index(d.values@, t);
            }
            lemma_rec_wf_build(out@);
        }
    }
    PersistData { values: out }
}

impl Clone for PersistData {
    /// A deep copy with the same model.
    fn clone(&self) -> (r: Self)
        ensures
            r@ == self@,
            self.wf() ==> r.wf(),
    {
        store_clone(self)
    }
}

impl Default for PersistData {
    /// An empty store.
    fn default() -> (r: Self)
        ensures
            r@ == StoreModel::empty(),
            r.wf(),
    {
        PersistData::new()
    }
}

/// Merges a loaded store over a record's defaults: every field the loaded
/// store carries wins; every other field keeps its default.
#[verifier::loop_isolation(false)]
pub fn merge_over(defaults: &PersistData, loaded: PersistData) -> (r: PersistData)
    requires
        defaults.wf(),
        loaded.wf(),
    ensures
        r@ == defaults@.union_prefer_right(loaded@),
        r.wf(),
{
    let mut r = store_clone(defaults);
    let mut rest = loaded.values;
    let ghost orig = rest@;
    proof {
        assert(orig.subrange(0, 0) =~= Seq::<(String, Datum)>::empty());
        assert(defaults@.union_prefer_right(fold_pairs(rec_models(orig.subrange(0, 0))))
            =~= defaults@);
    }
    while rest.len() > 0
        invariant
            r.wf(),
            rest@.len() <= orig.len(),
            rest@ == orig.subrange(orig.len() - rest@.len(), orig.len() as int),
            r@ == defaults@.union_prefer_right(
                fold_pairs(rec_models(orig.subrange(0, orig.len() - rest@.len()))),
            ),
        decreases rest@.len(),
    {
        let ghost k = orig.len() - rest@.len();
        let entry = rest.remove(0);
        proof {
            assert(entry == orig[k]);
            assert(rest@ =~= orig.subrange(k + 1, orig.len() as int));
            lemma_rec_wf_index(orig, k);
        }
        let ghost before_insert = r@;
        r.insert(entry.0.as_str(), entry.1);
        proof {
            assert(orig.subrange(0, k + 1).drop_last() =~= orig.subrange(0, k));
            assert(orig.subrange(0, k + 1).last() == orig[k]);
            assert(rec_models(orig.subrange(0, k + 1)) == rec_models(orig.subrange(0, k)).push(
                (orig[k].0@, orig[k].1.model()),
            ));
            lemma_fold_pairs_push(rec_models(orig.subrange(0, k)), orig[k].0@, orig[k].1.model());
            assert(defaults@.union_prefer_right(
                fold_pairs(rec_models(orig.subrange(0, k))).insert(orig[k].0@, orig[k].1.model()),
            ) =~= before_insert.insert(orig[k].0@, orig[k].1.model()));
        }
    }
    proof {
        assert(orig.subrange(0, orig.len() as int) =~= orig);
    }
    r
}

/// Merging over defaults keeps the default of every field the loaded store
/// does not carry, and takes the loaded value of every field it does.
pub proof fn lemma_merge_preserves_defaults(dm: StoreModel, lm: StoreModel, k: Seq<char>)
    ensures
        !lm.dom().contains(k) && dm.dom().contains(k) ==> dm.union_prefer_right(lm).dom().contains(
            k,
        ) && dm.union_prefer_right(lm)[k] == dm[k],
        lm.dom().contains(k) ==> dm.union_prefer_right(lm).dom().contains(k)
            && dm.union_prefer_right(lm)[k] == lm[k],
{
}

/// Appending a well-formed value under a name no other entry carries keeps
/// an entry sequence well-formed.
proof fn lemma_wf_after_insert(mid: Seq<(String, Datum)>, after: Seq<(String, Datum)>, key: Seq<char>)
    requires
        rec_keys_distinct(mid),
        forall|t: int| 0 <= t < mid.len() ==> mid[t].1.wf(),
        forall|t: int| 0 <= t < mid.len() ==> mid[t].0@ != key,
        after.len() == mid.len() + 1,
        after.drop_last() == mid,
        after.last().0@ == key,
        after.last().1.wf(),
    ensures
        rec_keys_distinct(after),
        rec_wf(after),
{
    assert forall|t: int| 0 <= t < after.len() implies after[t].1.wf() by {
        if t < mid.len() {
            assert(after[t] == mid[t]);
        }
    }
    lemma_rec_wf_build(after);
    assert forall|i: int, j: int| 0 <= i < j < after.len() implies after[i].0@ != after[j].0@ by {
        assert(after[i] == mid[i]);
        if j < mid.len() {
            assert(after[j] == mid[j]);
        }
    }
}

} // verus!
