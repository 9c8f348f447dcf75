//! The container file: the on-disk envelope mapping each type name to its
//! value store, beside a save timestamp and the engine version, encoded
//! through one of the two text codecs.

use vstd::prelude::*;
use crate::value::{Datum, DatumModel, StoreModel, fold_pairs, rec_models,
    lemma_fold_pairs_not_in, lemma_fold_pairs_get, lemma_fold_pairs_push,
    lemma_fold_pairs_remove, lemma_rec_models_len, lemma_rec_models_index,
    lemma_rec_wf_index, lemma_rec_fold_get, lemma_rec_fold_dom};
use crate::store::PersistData;
use crate::jsonval::{JParts, j_build, jmodel, jrec_models};
use crate::tree::datum_to_json;
use crate::codec::{path_codec, codec_of_path, parsed_by, dump_tree, ron_text_ok};
use crate::errors::{PersistError, PersistResult};
use crate::text::str_eq;

verus! {

/// The version written into freshly created container files.
pub const ENGINE_VERSION: &'static str = "0.1.0";

/// The name under which the save timestamp is stored.
pub const LAST_SAVED_FIELD: &'static str = "last_saved";

/// The name under which the writing engine's version is stored.
pub const VERSION_FIELD: &'static str = "version";

/// Relies on `chrono::Utc::now` and `to_rfc3339`: the current moment as an
/// ISO-8601 text. The result depends on the clock, so only what holds of
/// every outcome is stated: the text is never empty.
#[verifier::external_body]
pub fn now_rfc3339() -> (r: String)
    ensures
        r@.len() > 0,
{
    chrono::Utc::now().to_rfc3339()
}

/// The mathematical content of a container file.
#[verifier::ext_equal]
pub struct FileModel {
    /// Type name to store model; absence of a name means no persisted data.
    pub data: Map<Seq<char>, StoreModel>,
    /// The save timestamp, as text.
    pub last_saved: Seq<char>,
    /// The writing engine's version, as text.
    pub version: Seq<char>,
}

/// The nested mapping a value holds, where it holds one.
pub open spec fn as_rec(m: DatumModel) -> Map<Seq<char>, DatumModel> {
    match m {
        DatumModel::Rec(t) => t,
        _ => Map::empty(),
    }
}

/// The text a value holds, where it holds text.
pub open spec fn as_text(m: DatumModel) -> Seq<char> {
    match m {
        DatumModel::Text(s) => s,
        _ => Seq::empty(),
    }
}

/// Each store of a map, wrapped as a nested-mapping value.
pub open spec fn wrap_stores(m: Map<Seq<char>, StoreModel>) -> Map<Seq<char>, DatumModel> {
    Map::new(|k: Seq<char>| m.dom().contains(k), |k: Seq<char>| DatumModel::Rec(m[k]))
}

/// The value tree that stands for a container file: its stores flattened
/// beside the timestamp and version fields.
pub open spec fn file_repr(fm: FileModel) -> DatumModel {
    DatumModel::Rec(
        wrap_stores(fm.data).insert(LAST_SAVED_FIELD@, DatumModel::Text(fm.last_saved)).insert(
            VERSION_FIELD@,
            DatumModel::Text(fm.version),
        ),
    )
}

/// Whether a top-level mapping has the shape of a container file: timestamp
/// and version present as text, and every other entry a nested mapping.
pub open spec fn file_shape_ok(top: Map<Seq<char>, DatumModel>) -> bool {
    &&& top.dom().contains(LAST_SAVED_FIELD@) && top[LAST_SAVED_FIELD@] is Text
    &&& top.dom().contains(VERSION_FIELD@) && top[VERSION_FIELD@] is Text
    &&& forall|k: Seq<char>|
        #[trigger] top.dom().contains(k) && k != LAST_SAVED_FIELD@ && k != VERSION_FIELD@
            ==> top[k] is Rec
}

/// The stores a well-shaped top-level mapping carries.
pub open spec fn data_of(top: Map<Seq<char>, DatumModel>) -> Map<Seq<char>, StoreModel> {
    Map::new(
        |k: Seq<char>|
            top.dom().contains(k) && k != LAST_SAVED_FIELD@ && k != VERSION_FIELD@
                && top[k] is Rec,
        |k: Seq<char>| as_rec(top[k]),
    )
}

/// What a decoded value means as a container file: its content where the
/// value has a container file's shape, nothing otherwise.
pub open spec fn file_interp(m: DatumModel) -> Option<FileModel> {
    match m {
        DatumModel::Rec(top) => if file_shape_ok(top) {
            Some(
                FileModel {
                    data: data_of(top),
                    last_saved: as_text(top[LAST_SAVED_FIELD@]),
                    version: as_text(top[VERSION_FIELD@]),
                },
            )
        } else {
            None
        },
        _ => None,
    }
}

/// The two reserved field names differ.
pub proof fn lemma_meta_fields_differ()
    ensures
        LAST_SAVED_FIELD@ != VERSION_FIELD@,
{
    reveal_strlit("last_saved");
    reveal_strlit("version");
    assert(LAST_SAVED_FIELD@.len() != VERSION_FIELD@.len());
}

/// Reading the value tree written for a container file gives the container
/// file back, as long as no store is named like a reserved field.
pub proof fn lemma_file_round_trip(fm: FileModel)
    requires
        !fm.data.dom().contains(LAST_SAVED_FIELD@),
        !fm.data.dom().contains(VERSION_FIELD@),
    ensures
        file_interp(file_repr(fm)) == Some(fm),
{
    lemma_meta_fields_differ();
    let top = wrap_stores(fm.data).insert(LAST_SAVED_FIELD@, DatumModel::Text(fm.last_saved))
        .insert(VERSION_FIELD@, DatumModel::Text(fm.version));
    assert(top[LAST_SAVED_FIELD@] == DatumModel::Text(fm.last_saved));
    assert(file_shape_ok(top));
    assert(data_of(top) =~= fm.data);
    assert(file_interp(file_repr(fm)).unwrap() =~= fm);
}


/// A saved text that a codec's parser accepts reads back as an equivalent
/// container file: the same type names with the same field values, and the
/// timestamp and version the writer put beside them. This holds under
/// either codec, as long as no store is named like a reserved field.
pub proof fn lemma_save_load_round_trip(c: crate::codec::Codec, fm: FileModel, text: Seq<char>)
    requires
        !fm.data.dom().contains(LAST_SAVED_FIELD@),
        !fm.data.dom().contains(VERSION_FIELD@),
        parsed_by(c, text) == Some(file_repr(fm)),
    ensures
        parsed_by(c, text) matches Some(pm) && file_interp(pm) == Some(fm),
{
    lemma_file_round_trip(fm);
}

/// The viewed name/model pairs of a sequence of container file entries.
pub open spec fn entry_models(s: Seq<(String, PersistData)>) -> Seq<(Seq<char>, StoreModel)> {
    Seq::new(s.len(), |i: int| (s[i].0@, s[i].1@))
}

/// The complete contents of one persistence file: every persisted store,
/// the save timestamp, and the version of the engine that wrote it.
#[derive(Debug)]
pub struct PersistFile {
    pub type_data: Vec<(String, PersistData)>,
    pub last_saved: String,
    pub version: String,
}

impl View for PersistFile {
    type V = FileModel;

    open spec fn view(&self) -> FileModel {
        FileModel {
            data: fold_pairs(entry_models(self.type_data@)),
            last_saved: self.last_saved@,
            version: self.version@,
        }
    }
}

impl PersistFile {
    /// Well-formedness: type names are unique and every store is well-formed.
    pub open spec fn wf(self) -> bool {
        &&& forall|i: int, j: int|
            0 <= i < j < self.type_data@.len() ==> self.type_data@[i].0@ != self.type_data@[j].0@
        &&& forall|i: int| 0 <= i < self.type_data@.len() ==> self.type_data@[i].1.wf()
    }

    /// Creates an empty container file stamped with the present moment and
    /// the engine's version.
    pub fn new() -> (r: Self)
        ensures
            r@.data == Map::<Seq<char>, StoreModel>::empty(),
            r@.last_saved.len() > 0,
            r@.version == ENGINE_VERSION@,
            r.wf(),
    {
        let r = PersistFile {
            type_data: Vec::new(),
            last_saved: now_rfc3339(),
            version: ENGINE_VERSION.to_owned(),
        };
        proof {
            assert(entry_models(r.type_data@) =~= Seq::<(Seq<char>, StoreModel)>::empty());
        }
        r
    }

    /// The index of the entry for a type name, if any.
    fn find_entry(&self, name: &str) -> (r: Option<usize>)
        ensures
            r matches Some(i) ==> i < self.type_data@.len() && self.type_data@[i as int].0@
                == name@,
            r is None ==> forall|t: int|
                0 <= t < self.type_data@.len() ==> self.type_data@[t].0@ != name@,
    {
        let n = self.type_data.len();
        let mut i: usize = 0;
        while i < n
            invariant
                i <= n,
                n == self.type_data@.len(),
                forall|t: int| 0 <= t < i ==> self.type_data@[t].0@ != name@,
            decreases n - i,
        {
            if str_eq(self.type_data[i].0.as_str(), name) {
                return Some(i);
            }
            i = i + 1;
        }
        None
    }

    /// The persisted store for a type, if the file carries one.
    pub fn get_type_data(&self, name: &str) -> (r: Option<&PersistData>)
        requires
            self.wf(),
        ensures
            r matches Some(d) ==> self@.data.dom().contains(name@) && d@ == self@.data[name@] && d.wf(),
            r is None ==> !self@.data.dom().contains(name@),
    {
        match self.find_entry(name) {
            Some(i) => {
                proof {
                    lemma_fold_pairs_get(entry_models(self.type_data@), i as int);
                }
                Some(&self.type_data[i].1)
            },
            None => {
                proof {
                    lemma_fold_pairs_not_in(entry_models(self.type_data@), name@);
                }
                None
            },
        }
    }

    /// Replaces the persisted store for a type, entirely.
    pub fn set_type_data(&mut self, name: String, data: PersistData)
        requires
            old(self).wf(),
            data.wf(),
        ensures
            final(self)@.data == old(self)@.data.insert(name@, data@),
            final(self)@.last_saved == old(self)@.last_saved,
            final(self)@.version == old(self)@.version,
            final(self).wf(),
    {
        let ghost before = self.type_data@;
        match self.find_entry(name.as_str()) {
            Some(i) => {
                self.type_data.remove(i);
                proof {
                    assert(entry_models(self.type_data@) =~= entry_models(before).remove(i as int));
                    lemma_fold_pairs_remove(entry_models(before), i as int);
                    assert forall|t: int| 0 <= t < self.type_data@.len() implies self.type_data@[t]
                        == (if t < i {
                        before[t]
                    } else {
                        before[t + 1]
                    }) by {
                        assert(self.type_data@ == before.remove(i as int));
                    }
                }
            },
            None => {
                proof {
                    lemma_fold_pairs_not_in(entry_models(before), name@);
                    assert(fold_pairs(entry_models(before)).remove(name@) =~= fold_pairs(
                        entry_models(before),
                    ));
                }
            },
        }
        let ghost mid = self.type_data@;
        self.type_data.push((name, data));
        proof {
            assert(entry_models(self.type_data@) =~= entry_models(mid).push(
                (self.type_data@.last().0@, data@),
            ));
            lemma_fold_pairs_push(entry_models(mid), self.type_data@.last().0@, data@);
            assert(old(self)@.data.remove(self.type_data@.last().0@).insert(
                self.type_data@.last().0@,
                data@,
            ) =~= old(self)@.data.insert(self.type_data@.last().0@, data@));
        }
    }

    /// Extracts the persisted store for a type, consuming the file.
    pub fn take_type_data(self, name: &str) -> (r: Option<PersistData>)
        requires
            self.wf(),
        ensures
            r matches Some(d) ==> self@.data.dom().contains(name@) && d@ == self@.data[name@] && d.wf(),
            r is None ==> !self@.data.dom().contains(name@),
    {
        let mut me = self;
        match me.find_entry(name) {
            Some(i) => {
                proof {
                    lemma_fold_pairs_get(entry_models(me.type_data@), i as int);
                }
                let entry = me.type_data.remove(i);
                Some(entry.1)
            },
            None => {
                proof {
                    lemma_fold_pairs_not_in(entry_models(me.type_data@), name@);
                }
                None
            },
        }
    }
}


/// Whether a name is one of the two reserved fields.
pub open spec fn is_meta(k: Seq<char>) -> bool {
    k == LAST_SAVED_FIELD@ || k == VERSION_FIELD@
}

/// Whether one decoded entry fits a container file: a reserved field holds
/// text, any other entry holds a nested mapping.
pub open spec fn entry_shape_ok(e: (String, Datum)) -> bool {
    if is_meta(e.0@) {
        e.1@ is Text
    } else {
        e.1@ is Rec
    }
}

/// The store entries among a decoded entry sequence, in order.
pub open spec fn nonmeta_models(s: Seq<(String, Datum)>) -> Seq<(Seq<char>, StoreModel)>
    decreases s.len(),
{
    if s.len() == 0 {
        Seq::empty()
    } else if is_meta(s.last().0@) {
        nonmeta_models(s.drop_last())
    } else {
        nonmeta_models(s.drop_last()).push((s.last().0@, as_rec(s.last().1.model())))
    }
}

/// Folding the store entries of a decoded sequence gives exactly the stores
/// its folded mapping carries.
proof fn lemma_fold_nonmeta(s: Seq<(String, Datum)>)
    requires
        forall|i: int| 0 <= i < s.len() ==> #[trigger] entry_shape_ok(s[i]),
    ensures
        fold_pairs(nonmeta_models(s)) == data_of(fold_pairs(rec_models(s))),
    decreases s.len(),
{
    if s.len() == 0 {
        assert(fold_pairs(nonmeta_models(s)) =~= data_of(fold_pairs(rec_models(s))));
    } else {
        let t = s.drop_last();
        assert forall|i: int| 0 <= i < t.len() implies #[trigger] entry_shape_ok(t[i]) by {
            assert(t[i] == s[i]);
        }
        lemma_fold_nonmeta(t);
        let k = s.last().0@;
        let vm = s.last().1.model();
        assert(entry_shape_ok(s[s.len() - 1]));
        lemma_fold_pairs_push(nonmeta_models(t), k, as_rec(vm));
        lemma_fold_pairs_push(rec_models(t), k, vm);
        if is_meta(k) {
            assert(data_of(fold_pairs(rec_models(t)).insert(k, vm)) =~= data_of(
                fold_pairs(rec_models(t)),
            ));
        } else {
            assert(vm is Rec);
            assert(data_of(fold_pairs(rec_models(t)).insert(k, vm)) =~= data_of(
                fold_pairs(rec_models(t)),
            ).insert(k, as_rec(vm)));
        }
    }
}

/// Builds the tree for one store: its fields as a nested mapping.
#[verifier::loop_isolation(false)]
pub fn store_to_json(d: &PersistData) -> (r: serde_json::Value)
    ensures
        jmodel(r) == DatumModel::Rec(d@),
{
    let n = d.values.len();
    let mut out: Vec<(String, serde_json::Value)> = Vec::new();
    let mut idx: usize = 0;
    while idx < n
        invariant
            idx <= n,
            out@.len() == idx,
            forall|t: int| 0 <= t < idx ==> out@[t].0@ == d.values@[t].0@,
            forall|t: int| 0 <= t < idx ==> jmodel(out@[t].1) == d.values@[t].1@,
        decreases n - idx,
    {
        let entry = &d.values[idx];
        let child = datum_to_json(&entry.1);
        out.push((entry.0.clone(), child));
        idx = idx + 1;
    }
    proof {
        lemma_rec_models_len(d.values@);
        assert forall|t: int| 0 <= t < n implies jrec_models(out@)[t] == rec_models(
            d.values@,
        )[t] by {
            lemma_rec_models_index(d.values@, t);
        }
        assert(jrec_models(out@) =~= rec_models(d.values@));
    }
    j_build(JParts::Rec(out))
}

/// Store entries wrapped as nested-mapping values.
spec fn wrap_seq(s: Seq<(Seq<char>, StoreModel)>) -> Seq<(Seq<char>, DatumModel)> {
    Seq::new(s.len(), |i: int| (s[i].0, DatumModel::Rec(s[i].1)))
}

/// Folding wrapped store entries equals wrapping the folded stores.
proof fn lemma_fold_wrap(s: Seq<(Seq<char>, StoreModel)>)
    ensures
        fold_pairs(wrap_seq(s)) == wrap_stores(fold_pairs(s)),
    decreases s.len(),
{
    if s.len() == 0 {
        assert(fold_pairs(wrap_seq(s)) =~= wrap_stores(fold_pairs(s)));
    } else {
        let t = s.drop_last();
        lemma_fold_wrap(t);
        assert(wrap_seq(s).drop_last() =~= wrap_seq(t));
        assert(wrap_seq(s).last() == (s.last().0, DatumModel::Rec(s.last().1)));
        assert(wrap_seq(s).len() > 0);
        assert(fold_pairs(wrap_seq(s)) == fold_pairs(wrap_seq(t)).insert(
            s.last().0,
            DatumModel::Rec(s.last().1),
        ));
        assert(wrap_stores(fold_pairs(t)).insert(s.last().0, DatumModel::Rec(s.last().1))
            =~= wrap_stores(fold_pairs(t).insert(s.last().0, s.last().1)));
    }
}

/// Builds the tree that a container file is written as.
#[verifier::loop_isolation(false)]
pub fn file_to_json(f: &PersistFile) -> (r: serde_json::Value)
    ensures
        jmodel(r) == file_repr(f@),
{
    let n = f.type_data.len();
    let mut out: Vec<(String, serde_json::Value)> = Vec::new();
    let mut idx: usize = 0;
    while idx < n
        invariant
            idx <= n,
            out@.len() == idx,
            forall|t: int| 0 <= t < idx ==> out@[t].0@ == f.type_data@[t].0@,
            forall|t: int| 0 <= t < idx ==> jmodel(out@[t].1) == DatumModel::Rec(
                f.type_data@[t].1@,
            ),
        decreases n - idx,
    {
        let entry = &f.type_data[idx];
        let child = store_to_json(&entry.1);
        out.push((entry.0.clone(), child));
        idx = idx + 1;
    }
    let ghost stores = out@;
    proof {
        assert forall|t: int| 0 <= t < n implies jrec_models(stores)[t] == wrap_seq(
            entry_models(f.type_data@),
        )[t] by {}
        assert(jrec_models(stores) =~= wrap_seq(entry_models(f.type_data@)));
        lemma_fold_wrap(entry_models(f.type_data@));
    }
    out.push((LAST_SAVED_FIELD.to_owned(), j_build(JParts::Text(f.last_saved.clone()))));
    let ghost with_ls = out@;
    out.push((VERSION_FIELD.to_owned(), j_build(JParts::Text(f.version.clone()))));
    proof {
        assert(jrec_models(with_ls) =~= jrec_models(stores).push(
            (LAST_SAVED_FIELD@, DatumModel::Text(f.last_saved@)),
        ));
        assert(jrec_models(out@) =~= jrec_models(with_ls).push(
            (VERSION_FIELD@, DatumModel::Text(f.version@)),
        ));
        lemma_fold_pairs_push(jrec_models(stores), LAST_SAVED_FIELD@, DatumModel::Text(
            f.last_saved@,
        ));
        lemma_fold_pairs_push(jrec_models(with_ls), VERSION_FIELD@, DatumModel::Text(f.version@));
    }
    j_build(JParts::Rec(out))
}

/// Reads a decoded value as a container file. A value of any other shape is
/// a serialization error.
#[verifier::loop_isolation(false)]
pub fn datum_to_file(d: Datum) -> (r: PersistResult<PersistFile>)
    requires
        d.wf(),
    ensures
        r matches Ok(f) ==> file_interp(d@) == Some(f@) && f.wf(),
        r is Err ==> file_interp(d@) is None,
        r matches Err(e) ==> e is SerializationError,
{
    let mut pairs = match d {
        Datum::Rec(pairs) => pairs,
        _ => {
            return Err(
                PersistError::SerializationError("a container file must be a mapping".to_owned()),
            );
        },
    };
    let ghost orig = pairs@;
    let ghost top = fold_pairs(rec_models(orig));
    let mut out: Vec<(String, PersistData)> = Vec::new();
    let mut ls: Option<String> = None;
    let mut ver: Option<String> = None;
    let ghost mut k: int = 0;
    proof {
        lemma_meta_fields_differ();
        assert(orig.subrange(0, 0) =~= Seq::<(String, Datum)>::empty());
    }
    while pairs.len() > 0
        invariant
            0 <= k <= orig.len(),
            pairs@ == orig.subrange(k, orig.len() as int),
            forall|t: int| 0 <= t < k ==> #[trigger] entry_shape_ok(orig[t]),
            ls matches Some(s) ==> exists|t: int|
                0 <= t < k && orig[t].0@ == LAST_SAVED_FIELD@ && orig[t].1@ == DatumModel::Text(
                    s@,
                ),
            ls is None ==> forall|t: int| 0 <= t < k ==> orig[t].0@ != LAST_SAVED_FIELD@,
            ver matches Some(s) ==> exists|t: int|
                0 <= t < k && orig[t].0@ == VERSION_FIELD@ && orig[t].1@ == DatumModel::Text(s@),
            ver is None ==> forall|t: int| 0 <= t < k ==> orig[t].0@ != VERSION_FIELD@,
            entry_models(out@) == nonmeta_models(orig.subrange(0, k)),
            forall|a: int| 0 <= a < out@.len() ==> out@[a].1.wf(),
            forall|a: int, b: int| 0 <= a < b < out@.len() ==> out@[a].0@ != out@[b].0@,
            forall|a: int| 0 <= a < out@.len() ==> exists|i: int|
                0 <= i < k && #[trigger] out@[a].0@ == #[trigger] orig[i].0@,
        decreases pairs@.len(),
    {
        let entry = pairs.remove(0);
        proof {
            assert(entry == orig[k]);
            assert(pairs@ =~= orig.subrange(k + 1, orig.len() as int));
            lemma_rec_wf_index(orig, k);
            assert(orig.subrange(0, k + 1).drop_last() =~= orig.subrange(0, k));
            assert(orig.subrange(0, k + 1).last() == orig[k]);
        }
        let (nm, val) = entry;
        if str_eq(nm.as_str(), LAST_SAVED_FIELD) {
            match val {
                Datum::Text(s) => {
                    ls = Some(s);
                },
                _ => {
                    proof {
                        lemma_rec_fold_get(orig, k);
                        assert(!(top[LAST_SAVED_FIELD@] is Text));
                        assert(!file_shape_ok(top));
                    }
                    return Err(
                        PersistError::SerializationError(
                            "the timestamp field is not text".to_owned(),
                        ),
                    );
                },
            }
        } else if str_eq(nm.as_str(), VERSION_FIELD) {
            match val {
                Datum::Text(s) => {
                    ver = Some(s);
                },
                _ => {
                    proof {
                        lemma_rec_fold_get(orig, k);
                        assert(!(top[VERSION_FIELD@] is Text));
                        assert(!file_shape_ok(top));
                    }
                    return Err(
                        PersistError::SerializationError(
                            "the version field is not text".to_owned(),
                        ),
                    );
                },
            }
        } else {
            match val {
                Datum::Rec(entries) => {
                    let ghost out_before = out@;
                    out.push((nm, PersistData { values: entries }));
                    proof {
                        assert(entry_models(out@) =~= entry_models(out_before).push(
                            (orig[k].0@, as_rec(orig[k].1@)),
                        ));
                    }
                },
                _ => {
                    proof {
                        lemma_rec_fold_get(orig, k);
                        assert(top.dom().contains(nm@));
                        assert(!(top[nm@] is Rec));
                        assert(!file_shape_ok(top));
                    }
                    return Err(
                        PersistError::SerializationError(
                            "a type entry is not a mapping".to_owned(),
                        ),
                    );
                },
            }
        }
        proof {
            k = k + 1;
        }
    }
    proof {
        assert(k == orig.len());
        assert(orig.subrange(0, k) =~= orig);
    }
    let ls_s = match ls {
        Some(s) => s,
        None => {
            proof {
                assert(!top.dom().contains(LAST_SAVED_FIELD@)) by {
                    lemma_rec_fold_dom(orig);
                }
                assert(!file_shape_ok(top));
            }
            return Err(
                PersistError::SerializationError("the timestamp field is missing".to_owned()),
            );
        },
    };
    let ver_s = match ver {
        Some(s) => s,
        None => {
            proof {
                assert(!top.dom().contains(VERSION_FIELD@)) by {
                    lemma_rec_fold_dom(orig);
                }
                assert(!file_shape_ok(top));
            }
            return Err(
                PersistError::SerializationError("the version field is missing".to_owned()),
            );
        },
    };
    let f = PersistFile { type_data: out, last_saved: ls_s, version: ver_s };
    proof {
        let t_ls = choose|t: int|
            0 <= t < orig.len() && orig[t].0@ == LAST_SAVED_FIELD@ && orig[t].1@
                == DatumModel::Text(ls_s@);
        lemma_rec_fold_get(orig, t_ls);
        let t_ver = choose|t: int|
            0 <= t < orig.len() && orig[t].0@ == VERSION_FIELD@ && orig[t].1@ == DatumModel::Text(
                ver_s@,
            );
        lemma_rec_fold_get(orig, t_ver);
        assert forall|kk: Seq<char>|
            #[trigger] top.dom().contains(kk) && kk != LAST_SAVED_FIELD@ && kk != VERSION_FIELD@
                implies top[kk] is Rec by {
            lemma_rec_fold_dom(orig);
            let i = choose|i: int| 0 <= i < orig.len() && orig[i].0@ == kk;
            lemma_rec_fold_get(orig, i);
            assert(entry_shape_ok(orig[i]));
        }
        assert(file_shape_ok(top));
        lemma_fold_nonmeta(orig);
        assert(f@.data == data_of(top));
        assert(file_interp(d@).unwrap() =~= f@);
    }
    Ok(f)
}

impl PersistFile {
    /// Refreshes the timestamp and encodes the whole file as text, under the
    /// codec the path's extension selects. Reading the text back under that
    /// codec gives this file's content, whenever the parser accepts the
    /// text. Writing the text to the path is the caller's step.
    pub fn save_to_file(&mut self, path: &str) -> (r: PersistResult<String>)
        requires
            old(self).wf(),
        ensures
            final(self)@.data == old(self)@.data,
            final(self)@.version == old(self)@.version,
            final(self).wf(),
            final(self)@.last_saved.len() > 0,
            codec_of_path(path@) == crate::codec::Codec::Json ==> r is Ok,
            codec_of_path(path@) == crate::codec::Codec::Ron ==> (r is Ok <==> ron_text_ok(
                file_repr(final(self)@),
            )),
            r matches Ok(content) ==> (parsed_by(codec_of_path(path@), content@) matches Some(pm)
                ==> pm == file_repr(final(self)@)),
            r matches Err(e) ==> e is SerializationError,
    {
        self.last_saved = now_rfc3339();
        let tree = file_to_json(self);
        let c = path_codec(path);
        match dump_tree(c, &tree) {
            Ok(content) => Ok(content),
            Err(e) => Err(PersistError::SerializationError(e)),
        }
    }

    /// Decodes a container file from a file's text, under the codec the
    /// path's extension selects. An absent file is no error: it reads as a
    /// fresh, empty container file. Reading the path's text is the caller's
    /// step; `content` is that text, or nothing where the file is absent.
    pub fn load_from_file(path: &str, content: Option<&str>) -> (r: PersistResult<PersistFile>)
        ensures
            content is None ==> (r matches Ok(f) && f@.data == Map::<Seq<char>, StoreModel>::empty()
                && f@.version == ENGINE_VERSION@ && f.wf()),
            content matches Some(s) ==> match parsed_by(codec_of_path(path@), s@) {
                Option::Some(pm) => match file_interp(pm) {
                    Option::Some(fm) => (r matches Ok(f) && f@ == fm && f.wf()),
                    Option::None => (r matches Err(e) && e is SerializationError),
                },
                Option::None => (r matches Err(e) && e is SerializationError),
            },
    {
        match content {
            None => Ok(PersistFile::new()),
            Some(s) => {
                let c = path_codec(path);
                match crate::codec::decode_datum(c, s) {
                    Ok(d) => datum_to_file(d),
                    Err(e) => Err(PersistError::SerializationError(e)),
                }
            },
        }
    }
}

} // verus!
