//! The dynamic value representation: a self-describing tagged union for
//! scalars, sequences and nested mappings, together with its mathematical
//! model and the association-list reasoning the rest of the engine builds on.

use vstd::prelude::*;

verus! {

/// The mathematical shape of a dynamic value. Numbers cover the signed and
/// unsigned 64-bit range as one mathematical integer; a nested mapping is a
/// mathematical map, so field order never matters in a model.
#[verifier::ext_equal]
pub enum DatumModel {
    Null,
    Bool(bool),
    Int(int),
    Text(Seq<char>),
    List(Seq<DatumModel>),
    Rec(Map<Seq<char>, DatumModel>),
}

/// The model of one value store: field name to value model.
pub type StoreModel = Map<Seq<char>, DatumModel>;

/// Folds name/value pairs into a map; a later pair overrides an earlier one
/// with the same name.
pub open spec fn fold_pairs<T>(s: Seq<(Seq<char>, T)>) -> Map<Seq<char>, T>
    decreases s.len(),
{
    if s.len() == 0 {
        Map::empty()
    } else {
        fold_pairs(s.drop_last()).insert(s.last().0, s.last().1)
    }
}

/// No two pairs share a name.
pub open spec fn distinct_keys<T>(s: Seq<(Seq<char>, T)>) -> bool {
    forall|i: int, j: int| 0 <= i < j < s.len() ==> s[i].0 != s[j].0
}

/// A dynamic value: null, boolean, integer, text, sequence, or nested
/// mapping. This is the unit a value store holds for one field.
#[derive(Debug, PartialEq)]
pub enum Datum {
    Null,
    Bool(bool),
    Int(i64),
    UInt(u64),
    Text(String),
    List(Vec<Datum>),
    Rec(Vec<(String, Datum)>),
}

/// The models of a sequence of values, element by element.
pub open spec fn list_models(s: Seq<Datum>) -> Seq<DatumModel>
    decreases s,
{
    if s.len() == 0 {
        Seq::empty()
    } else {
        list_models(s.drop_last()).push(s.last().model())
    }
}

/// The viewed name/model pairs of a sequence of record entries.
pub open spec fn rec_models(s: Seq<(String, Datum)>) -> Seq<(Seq<char>, DatumModel)>
    decreases s,
{
    if s.len() == 0 {
        Seq::empty()
    } else {
        rec_models(s.drop_last()).push((s.last().0@, s.last().1.model()))
    }
}

/// Every value of a sequence is well-formed.
pub open spec fn list_wf(s: Seq<Datum>) -> bool
    decreases s,
{
    if s.len() == 0 {
        true
    } else {
        list_wf(s.drop_last()) && s.last().wf()
    }
}

/// Every value of a record entry sequence is well-formed.
pub open spec fn rec_wf(s: Seq<(String, Datum)>) -> bool
    decreases s,
{
    if s.len() == 0 {
        true
    } else {
        rec_wf(s.drop_last()) && s.last().1.wf()
    }
}

/// No two entries of a record share a field name.
pub open spec fn rec_keys_distinct(s: Seq<(String, Datum)>) -> bool {
    forall|i: int, j: int| 0 <= i < j < s.len() ==> s[i].0@ != s[j].0@
}

impl Datum {
    /// The mathematical model of this value.
    pub open spec fn model(self) -> DatumModel
        decreases self,
    {
        match self {
            Datum::Null => DatumModel::Null,
            Datum::Bool(b) => DatumModel::Bool(b),
            Datum::Int(i) => DatumModel::Int(i as int),
            Datum::UInt(u) => DatumModel::Int(u as int),
            Datum::Text(s) => DatumModel::Text(s@),
            Datum::List(items) => DatumModel::List(list_models(items@)),
            Datum::Rec(pairs) => DatumModel::Rec(fold_pairs(rec_models(pairs@))),
        }
    }

    /// Well-formedness: within every nested mapping, field names are unique.
    pub open spec fn wf(self) -> bool
        decreases self,
    {
        match self {
            Datum::Null => true,
            Datum::Bool(_) => true,
            Datum::Int(_) => true,
            Datum::UInt(_) => true,
            Datum::Text(_) => true,
            Datum::List(items) => list_wf(items@),
            Datum::Rec(pairs) => rec_keys_distinct(pairs@) && rec_wf(pairs@),
        }
    }
}

impl View for Datum {
    type V = DatumModel;

    open spec fn view(&self) -> DatumModel {
        self.model()
    }
}

/// A deep copy of a value, with the same model.
#[verifier::loop_isolation(false)]
pub fn datum_clone(v: &Datum) -> (r: Datum)
    ensures
        r@ == v@,
        v.wf() ==> r.wf(),
    decreases v,
{
    match v {
        Datum::Null => Datum::Null,
        Datum::Bool(b) => Datum::Bool(*b),
        Datum::Int(i) => Datum::Int(*i),
        Datum::UInt(u) => Datum::UInt(*u),
        Datum::Text(s) => Datum::Text(s.clone()),
        Datum::List(items) => {
            let n = items.len();
            let mut out: Vec<Datum> = Vec::new();
            let mut idx: usize = 0;
            while idx < n
                invariant
                    idx <= n,
                    n == items@.len(),
                    out@.len() == idx,
                    forall|t: int| 0 <= t < idx ==> out@[t]@ == items@[t]@,
                    forall|t: int| 0 <= t < idx ==> (items@[t].wf() ==> out@[t].wf()),
                decreases n - idx,
            {
                proof {
                    assert(decreases_to!(*v => *items));
                    assert(decreases_to!(*items => items@));
                    assert(decreases_to!(items@ => items@[idx as int]));
                }
                let child = datum_clone(&items[idx]);
                out.push(child);
                idx = idx + 1;
            }
            proof {
                lemma_models_agree(items@, out@);
                if v.wf() {
                    assert forall|t: int| 0 <= t < out@.len() implies out@[t].wf() by {
                        lemma_list_wf_index(items@, t);
                    }
                    lemma_list_wf_build(out@);
                }
            }
            Datum::List(out)
        },
        Datum::Rec(pairs) => {
            let n = pairs.len();
            let mut out: Vec<(String, Datum)> = Vec::new();
            let mut idx: usize = 0;
            while idx < n
                invariant
                    idx <= n,
                    n == pairs@.len(),
                    out@.len() == idx,
                    forall|t: int| 0 <= t < idx ==> out@[t].0@ == pairs@[t].0@,
                    forall|t: int| 0 <= t < idx ==> out@[t].1@ == pairs@[t].1@,
                    forall|t: int| 0 <= t < idx ==> (pairs@[t].1.wf() ==> out@[t].1.wf()),
                decreases n - idx,
            {
                proof {
                    assert(decreases_to!(*v => *pairs));
                    assert(decreases_to!(*pairs => pairs@));
                    assert(decreases_to!(pairs@ => pairs@[idx as int]));
                    assert(decreases_to!(pairs@[idx as int] => pairs@[idx as int].1));
                }
                let entry = &pairs[idx];
                let child = datum_clone(&entry.1);
                out.push((entry.0.clone(), child));
                idx = idx + 1;
            }
            proof {
                lemma_rec_models_agree(pairs@, out@);
                if v.wf() {
                    assert forall|t: int| 0 <= t < out@.len() implies out@[t].1.wf() by {
                        lemma_rec_wf_index(pairs@, t);
                    }
                    lemma_rec_wf_build(out@);
                }
            }
            Datum::Rec(out)
        },
    }
}

impl Clone for Datum {
    /// A deep copy with the same model.
    fn clone(&self) -> (r: Self)
        ensures
            r@ == self@,
            self.wf() ==> r.wf(),
    {
        datum_clone(self)
    }
}

/// Two value sequences whose elements share models have the same model list.
pub proof fn lemma_models_agree(a: Seq<Datum>, b: Seq<Datum>)
    requires
        a.len() == b.len(),
        forall|t: int| 0 <= t < a.len() ==> a[t]@ == b[t]@,
    ensures
        list_models(a) == list_models(b),
{
    lemma_list_models_len(a);
    lemma_list_models_len(b);
    assert forall|t: int| 0 <= t < a.len() implies list_models(a)[t] == list_models(b)[t] by {
        lemma_list_models_index(a, t);
        lemma_list_models_index(b, t);
    }
    assert(list_models(a) =~= list_models(b));
}

/// Two entry sequences whose names and values share models fold alike.
pub proof fn lemma_rec_models_agree(a: Seq<(String, Datum)>, b: Seq<(String, Datum)>)
    requires
        a.len() == b.len(),
        forall|t: int| 0 <= t < a.len() ==> a[t].0@ == b[t].0@,
        forall|t: int| 0 <= t < a.len() ==> a[t].1@ == b[t].1@,
    ensures
        rec_models(a) == rec_models(b),
{
    lemma_rec_models_len(a);
    lemma_rec_models_len(b);
    assert forall|t: int| 0 <= t < a.len() implies rec_models(a)[t] == rec_models(b)[t] by {
        lemma_rec_models_index(a, t);
        lemma_rec_models_index(b, t);
    }
    assert(rec_models(a) =~= rec_models(b));
}

/// A sequence of well-formed values is well-formed as a list.
pub proof fn lemma_list_wf_build(s: Seq<Datum>)
    requires
        forall|i: int| 0 <= i < s.len() ==> s[i].wf(),
    ensures
        list_wf(s),
    decreases s.len(),
{
    if s.len() > 0 {
        lemma_list_wf_build(s.drop_last());
    }
}

/// A sequence of entries with well-formed values is well-formed as a record.
pub proof fn lemma_rec_wf_build(s: Seq<(String, Datum)>)
    requires
        forall|i: int| 0 <= i < s.len() ==> s[i].1.wf(),
    ensures
        rec_wf(s),
    decreases s.len(),
{
    if s.len() > 0 {
        lemma_rec_wf_build(s.drop_last());
    }
}

pub proof fn lemma_list_models_len(s: Seq<Datum>)
    ensures
        list_models(s).len() == s.len(),
    decreases s.len(),
{
    if s.len() > 0 {
        lemma_list_models_len(s.drop_last());
    }
}

pub proof fn lemma_list_models_index(s: Seq<Datum>, i: int)
    requires
        0 <= i < s.len(),
    ensures
        list_models(s).len() == s.len(),
        list_models(s)[i] == s[i].model(),
    decreases s.len(),
{
    lemma_list_models_len(s);
    if i < s.len() - 1 {
        lemma_list_models_index(s.drop_last(), i);
    }
}

pub proof fn lemma_rec_models_len(s: Seq<(String, Datum)>)
    ensures
        rec_models(s).len() == s.len(),
    decreases s.len(),
{
    if s.len() > 0 {
        lemma_rec_models_len(s.drop_last());
    }
}

pub proof fn lemma_rec_models_index(s: Seq<(String, Datum)>, i: int)
    requires
        0 <= i < s.len(),
    ensures
        rec_models(s).len() == s.len(),
        rec_models(s)[i] == (s[i].0@, s[i].1.model()),
    decreases s.len(),
{
    lemma_rec_models_len(s);
    if i < s.len() - 1 {
        lemma_rec_models_index(s.drop_last(), i);
    }
}

pub proof fn lemma_list_wf_index(s: Seq<Datum>, i: int)
    requires
        list_wf(s),
        0 <= i < s.len(),
    ensures
        s[i].wf(),
    decreases s.len(),
{
    if i < s.len() - 1 {
        lemma_list_wf_index(s.drop_last(), i);
    }
}

pub proof fn lemma_rec_wf_index(s: Seq<(String, Datum)>, i: int)
    requires
        rec_wf(s),
        0 <= i < s.len(),
    ensures
        s[i].1.wf(),
    decreases s.len(),
{
    if i < s.len() - 1 {
        lemma_rec_wf_index(s.drop_last(), i);
    }
}

/// Removing an entry removes its viewed pair, position by position.
pub proof fn lemma_rec_models_remove(s: Seq<(String, Datum)>, i: int)
    requires
        0 <= i < s.len(),
    ensures
        rec_models(s.remove(i)) == rec_models(s).remove(i),
    decreases s.len(),
{
    lemma_rec_models_len(s);
    if i == s.len() - 1 {
        assert(s.remove(i) =~= s.drop_last());
        assert(rec_models(s).remove(i) =~= rec_models(s.drop_last()));
    } else {
        let t = s.drop_last();
        lemma_rec_models_len(t);
        lemma_rec_models_remove(t, i);
        assert(s.remove(i).drop_last() =~= t.remove(i));
        assert(s.remove(i).last() == s.last());
        assert(s.remove(i).len() > 0);
        assert(rec_models(s.remove(i)) == rec_models(t.remove(i)).push(
            (s.last().0@, s.last().1.model()),
        ));
        assert(rec_models(s).remove(i) =~= rec_models(t).remove(i).push(
            (s.last().0@, s.last().1.model()),
        ));
    }
}

/// Field names are distinct in an entry sequence exactly when they are
/// distinct in its viewed pairs.
pub proof fn lemma_rec_distinct_viewed(s: Seq<(String, Datum)>)
    ensures
        rec_keys_distinct(s) <==> distinct_keys(rec_models(s)),
{
    lemma_rec_models_len(s);
    if rec_keys_distinct(s) {
        assert forall|i: int, j: int| 0 <= i < j < rec_models(s).len() implies rec_models(s)[i].0
            != rec_models(s)[j].0 by {
            lemma_rec_models_index(s, i);
            lemma_rec_models_index(s, j);
        }
    }
    if distinct_keys(rec_models(s)) {
        assert forall|i: int, j: int| 0 <= i < j < s.len() implies s[i].0@ != s[j].0@ by {
            lemma_rec_models_index(s, i);
            lemma_rec_models_index(s, j);
        }
    }
}

/// With distinct field names, the folded map of an entry sequence holds each
/// entry's value under its name.
pub proof fn lemma_rec_fold_get(s: Seq<(String, Datum)>, i: int)
    requires
        rec_keys_distinct(s),
        0 <= i < s.len(),
    ensures
        fold_pairs(rec_models(s)).dom().contains(s[i].0@),
        fold_pairs(rec_models(s))[s[i].0@] == s[i].1@,
{
    lemma_rec_models_len(s);
    lemma_rec_models_index(s, i);
    assert forall|j: int| i < j < rec_models(s).len() implies rec_models(s)[j].0 != rec_models(
        s,
    )[i].0 by {
        lemma_rec_models_index(s, j);
    }
    lemma_fold_pairs_get(rec_models(s), i);
}

/// The folded map of an entry sequence has exactly the entry names as its
/// domain.
pub proof fn lemma_rec_fold_dom(s: Seq<(String, Datum)>)
    ensures
        forall|kk: Seq<char>|
            fold_pairs(rec_models(s)).dom().contains(kk) <==> (exists|i: int|
                0 <= i < s.len() && s[i].0@ == kk),
{
    lemma_fold_pairs_dom(rec_models(s));
    lemma_rec_models_len(s);
    assert forall|kk: Seq<char>| fold_pairs(rec_models(s)).dom().contains(kk) implies (exists|
        i: int,
    |
        0 <= i < s.len() && s[i].0@ == kk) by {
        let i = choose|i: int| 0 <= i < rec_models(s).len() && rec_models(s)[i].0 == kk;
        lemma_rec_models_index(s, i);
        assert(s[i].0@ == kk);
    }
    assert forall|kk: Seq<char>| (exists|i: int| 0 <= i < s.len() && s[i].0@ == kk)
        implies fold_pairs(rec_models(s)).dom().contains(kk) by {
        let i = choose|i: int| 0 <= i < s.len() && s[i].0@ == kk;
        lemma_rec_models_index(s, i);
        assert(rec_models(s)[i].0 == kk);
    }
}

/// A name that occurs in no pair is not in the folded map's domain.
pub proof fn lemma_fold_pairs_not_in<T>(s: Seq<(Seq<char>, T)>, k: Seq<char>)
    requires
        forall|i: int| 0 <= i < s.len() ==> s[i].0 != k,
    ensures
        !fold_pairs(s).dom().contains(k),
    decreases s.len(),
{
    if s.len() > 0 {
        lemma_fold_pairs_not_in(s.drop_last(), k);
    }
}

/// The folded map holds, under each name, the value of the last pair that
/// carries that name.
pub proof fn lemma_fold_pairs_get<T>(s: Seq<(Seq<char>, T)>, i: int)
    requires
        0 <= i < s.len(),
        forall|j: int| i < j < s.len() ==> s[j].0 != s[i].0,
    ensures
        fold_pairs(s).dom().contains(s[i].0),
        fold_pairs(s)[s[i].0] == s[i].1,
    decreases s.len(),
{
    if i < s.len() - 1 {
        lemma_fold_pairs_get(s.drop_last(), i);
    }
}

/// The folded map's domain is exactly the set of names that occur.
pub proof fn lemma_fold_pairs_dom<T>(s: Seq<(Seq<char>, T)>)
    ensures
        forall|k: Seq<char>|
            fold_pairs(s).dom().contains(k) <==> (exists|i: int|
                0 <= i < s.len() && s[i].0 == k),
    decreases s.len(),
{
    if s.len() > 0 {
        let t = s.drop_last();
        lemma_fold_pairs_dom(t);
        assert forall|k: Seq<char>| fold_pairs(s).dom().contains(k) implies (exists|i: int|
            0 <= i < s.len() && s[i].0 == k) by {
            if k == s.last().0 {
                assert(s[s.len() - 1].0 == k);
            } else {
                assert(fold_pairs(t).dom().contains(k));
                let i = choose|i: int| 0 <= i < t.len() && t[i].0 == k;
                assert(s[i].0 == k);
            }
        }
        assert forall|k: Seq<char>| (exists|i: int| 0 <= i < s.len() && s[i].0 == k)
            implies fold_pairs(s).dom().contains(k) by {
            let i = choose|i: int| 0 <= i < s.len() && s[i].0 == k;
            assert(fold_pairs(s) == fold_pairs(t).insert(s.last().0, s.last().1));
            if i < s.len() - 1 {
                assert(0 <= i < t.len() && t[i].0 == k);
                assert(fold_pairs(t).dom().contains(k));
            } else {
                assert(k == s.last().0);
            }
        }
    }
}

/// Appending one pair folds to one insertion.
pub proof fn lemma_fold_pairs_push<T>(s: Seq<(Seq<char>, T)>, k: Seq<char>, v: T)
    ensures
        fold_pairs(s.push((k, v))) == fold_pairs(s).insert(k, v),
{
    assert(s.push((k, v)).drop_last() =~= s);
    assert(s.push((k, v)).last() == (k, v));
}

/// Removing the pair that carries a unique name removes that name from the
/// folded map.
pub proof fn lemma_fold_pairs_remove<T>(s: Seq<(Seq<char>, T)>, i: int)
    requires
        0 <= i < s.len(),
        distinct_keys(s),
    ensures
        fold_pairs(s.remove(i)) == fold_pairs(s).remove(s[i].0),
    decreases s.len(),
{
    if i == s.len() - 1 {
        assert(s.remove(i) =~= s.drop_last());
        assert(forall|j: int| 0 <= j < s.drop_last().len() ==> s.drop_last()[j].0 != s[i].0);
        lemma_fold_pairs_not_in(s.drop_last(), s[i].0);
        assert(fold_pairs(s.drop_last()) =~= fold_pairs(s.drop_last()).insert(
            s.last().0,
            s.last().1,
        ).remove(s[i].0));
    } else {
        let t = s.drop_last();
        assert(distinct_keys(t));
        lemma_fold_pairs_remove(t, i);
        assert(s.remove(i).drop_last() =~= t.remove(i));
        assert(s.remove(i).last() == s.last());
        assert(s.remove(i).len() == s.len() - 1 > 0);
        // folding the shortened sequence is folding the shortened front, then
        // inserting the unchanged last pair
        assert(fold_pairs(s.remove(i)) == fold_pairs(t.remove(i)).insert(s.last().0, s.last().1));
        assert(s[i].0 != s.last().0);
        assert(fold_pairs(t).remove(s[i].0).insert(s.last().0, s.last().1) =~= fold_pairs(t).insert(
            s.last().0,
            s.last().1,
        ).remove(s[i].0));
    }
}

} // verus!
