//! Verified conversion between the engine's own value tree and the
//! `serde_json` tree that the text codecs operate on.

use vstd::prelude::*;
use crate::value::{Datum, DatumModel, list_models, rec_models, list_wf, rec_wf, rec_keys_distinct,
    lemma_list_models_index, lemma_rec_models_index, lemma_list_models_len, lemma_rec_models_len,
    lemma_list_wf_build, lemma_rec_wf_build, fold_pairs, distinct_keys};
use crate::jsonval::{JParts, j_build, j_parts, jmodel, jheight, jlist_models, jrec_models};

verus! {

/// Builds the `serde_json` tree that stands for a value; the tree's model is
/// the value's model.
#[verifier::loop_isolation(false)]
pub fn datum_to_json(v: &Datum) -> (r: serde_json::Value)
    ensures
        jmodel(r) == v@,
    decreases v,
{
    match v {
        Datum::Null => j_build(JParts::Null),
        Datum::Bool(b) => j_build(JParts::Bool(*b)),
        Datum::Int(i) => j_build(JParts::Int(*i)),
        Datum::UInt(u) => j_build(JParts::UInt(*u)),
        Datum::Text(s) => j_build(JParts::Text(s.clone())),
        Datum::List(items) => {
            let n = items.len();
            let mut out: Vec<serde_json::Value> = Vec::new();
            let mut idx: usize = 0;
            while idx < n
                invariant
                    idx <= n,
                    out@.len() == idx,
                    forall|t: int| 0 <= t < idx ==> jmodel(out@[t]) == items@[t]@,
                decreases n - idx,
            {
                proof {
                    assert(decreases_to!(*v => *items));
                    assert(decreases_to!(*items => items@));
                    assert(decreases_to!(items@ => items@[idx as int]));
                }
                let child = datum_to_json(&items[idx]);
                out.push(child);
                idx = idx + 1;
            }
            proof {
                lemma_list_models_len(items@);
                assert forall|t: int| 0 <= t < n implies jlist_models(out@)[t] == list_models(
                    items@,
                )[t] by {
                    lemma_list_models_index(items@, t);
                }
                assert(jlist_models(out@) =~= list_models(items@));
            }
            j_build(JParts::List(out))
        },
        Datum::Rec(pairs) => {
            let n = pairs.len();
            let mut out: Vec<(String, serde_json::Value)> = Vec::new();
            let mut idx: usize = 0;
            while idx < n
                invariant
                    idx <= n,
                    out@.len() == idx,
                    forall|t: int| 0 <= t < idx ==> out@[t].0@ == pairs@[t].0@,
                    forall|t: int| 0 <= t < idx ==> jmodel(out@[t].1) == pairs@[t].1@,
                decreases n - idx,
            {
                proof {
                    assert(decreases_to!(*v => *pairs));
                    assert(decreases_to!(*pairs => pairs@));
                    assert(decreases_to!(pairs@ => pairs@[idx as int]));
                    assert(decreases_to!(pairs@[idx as int] => pairs@[idx as int].1));
                }
                let entry = &pairs[idx];
                let child = datum_to_json(&entry.1);
                out.push((entry.0.clone(), child));
                idx = idx + 1;
            }
            proof {
                lemma_rec_models_len(pairs@);
                assert forall|t: int| 0 <= t < n implies jrec_models(out@)[t] == rec_models(
                    pairs@,
                )[t] by {
                    lemma_rec_models_index(pairs@, t);
                }
                assert(jrec_models(out@) =~= rec_models(pairs@));
            }
            j_build(JParts::Rec(out))
        },
    }
}

/// Reads a `serde_json` tree back into an owned value with the same model;
/// the result is well-formed.
#[verifier::loop_isolation(false)]
pub fn json_to_datum(v: serde_json::Value) -> (r: Datum)
    ensures
        r@ == jmodel(v),
        r.wf(),
    decreases jheight(v),
{
    let ghost m = jmodel(v);
    let ghost h = jheight(v);
    match j_parts(v) {
        JParts::Null => Datum::Null,
        JParts::Bool(b) => Datum::Bool(b),
        JParts::Int(i) => Datum::Int(i),
        JParts::UInt(u) => Datum::UInt(u),
        JParts::Text(s) => Datum::Text(s),
        JParts::List(items) => {
            let ghost orig = items@;
            let mut items = items;
            let mut out: Vec<Datum> = Vec::new();
            while items.len() > 0
                invariant
                    out@.len() + items@.len() == orig.len(),
                    items@ == orig.subrange(out@.len() as int, orig.len() as int),
                    forall|t: int| 0 <= t < out@.len() ==> out@[t]@ == jmodel(orig[t]),
                    forall|t: int| 0 <= t < out@.len() ==> out@[t].wf(),
                decreases items@.len(),
            {
                let ghost k = out@.len() as int;
                let child_json = items.remove(0);
                proof {
                    assert(child_json == orig[k]);
                    assert(items@ =~= orig.subrange(k + 1, orig.len() as int));
                }
                let child = json_to_datum(child_json);
                out.push(child);
            }
            proof {
                lemma_list_models_len(out@);
                assert forall|t: int| 0 <= t < out@.len() implies list_models(out@)[t]
                    == jlist_models(orig)[t] by {
                    lemma_list_models_index(out@, t);
                }
                assert(list_models(out@) =~= jlist_models(orig));
                lemma_list_wf_build(out@);
            }
            Datum::List(out)
        },
        JParts::Rec(pairs) => {
            let ghost orig = pairs@;
            let mut pairs = pairs;
            let mut out: Vec<(String, Datum)> = Vec::new();
            while pairs.len() > 0
                invariant
                    out@.len() + pairs@.len() == orig.len(),
                    pairs@ == orig.subrange(out@.len() as int, orig.len() as int),
                    forall|t: int| 0 <= t < out@.len() ==> out@[t].0@ == orig[t].0@,
                    forall|t: int| 0 <= t < out@.len() ==> out@[t].1@ == jmodel(orig[t].1),
                    forall|t: int| 0 <= t < out@.len() ==> out@[t].1.wf(),
                decreases pairs@.len(),
            {
                let ghost k = out@.len() as int;
                let entry = pairs.remove(0);
                proof {
                    assert(entry == orig[k]);
                    assert(pairs@ =~= orig.subrange(k + 1, orig.len() as int));
                }
                let child = json_to_datum(entry.1);
                out.push((entry.0, child));
            }
            proof {
                lemma_rec_models_len(out@);
                assert forall|t: int| 0 <= t < out@.len() implies rec_models(out@)[t]
                    == jrec_models(orig)[t] by {
                    lemma_rec_models_index(out@, t);
                }
                assert(rec_models(out@) =~= jrec_models(orig));
                lemma_rec_wf_build(out@);
                assert forall|i: int, j: int| 0 <= i < j < out@.len() implies out@[i].0@
                    != out@[j].0@ by {
                    assert(jrec_models(orig)[i].0 == orig[i].0@);
                    assert(jrec_models(orig)[j].0 == orig[j].0@);
                }
            }
            Datum::Rec(out)
        },
    }
}

} // verus!
