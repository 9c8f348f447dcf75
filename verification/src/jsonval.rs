//! The trusted boundary to `serde_json`'s dynamic value tree. The engine
//! builds and inspects `serde_json::Value` only through the two functions
//! here; everything else about the tree is verified library code.

use vstd::prelude::*;
use crate::value::{DatumModel, fold_pairs, distinct_keys};

verus! {

/// Declares `serde_json::Value` so the engine's signatures can carry it;
/// the value stays opaque, and everything known of one comes from the two
/// functions below.
#[verifier::external_type_specification]
#[verifier::external_body]
pub struct ExJsonValue(serde_json::Value);

/// What a `serde_json::Value` holds, as a model. A number is modelled by its
/// mathematical value; a value outside the engine's subset (a float) is
/// modelled as `Null`.
pub uninterp spec fn jmodel(v: serde_json::Value) -> DatumModel;

/// A measure of a `serde_json::Value`'s nesting depth: every child of an
/// array or object stands strictly below its parent.
pub uninterp spec fn jheight(v: serde_json::Value) -> nat;

/// One layer of a `serde_json::Value`, with children still in their
/// original representation.
pub enum JParts {
    Null,
    Bool(bool),
    Int(i64),
    UInt(u64),
    Text(String),
    List(Vec<serde_json::Value>),
    Rec(Vec<(String, serde_json::Value)>),
}

/// The models of a sequence of `serde_json` children.
pub open spec fn jlist_models(s: Seq<serde_json::Value>) -> Seq<DatumModel> {
    Seq::new(s.len(), |i: int| jmodel(s[i]))
}

/// The viewed name/model pairs of a sequence of `serde_json` object entries.
pub open spec fn jrec_models(s: Seq<(String, serde_json::Value)>) -> Seq<(Seq<char>, DatumModel)> {
    Seq::new(s.len(), |i: int| (s[i].0@, jmodel(s[i].1)))
}

/// The model a layer stands for.
pub open spec fn parts_model(p: JParts) -> DatumModel {
    match p {
        JParts::Null => DatumModel::Null,
        JParts::Bool(b) => DatumModel::Bool(b),
        JParts::Int(i) => DatumModel::Int(i as int),
        JParts::UInt(u) => DatumModel::Int(u as int),
        JParts::Text(s) => DatumModel::Text(s@),
        JParts::List(items) => DatumModel::List(jlist_models(items@)),
        JParts::Rec(pairs) => DatumModel::Rec(fold_pairs(jrec_models(pairs@))),
    }
}

/// Relies on `serde_json::Value`'s constructors and on collecting entries
/// into `serde_json::Map`, where a later entry overrides an earlier one with
/// the same key.
#[verifier::external_body]
pub fn j_build(p: JParts) -> (r: serde_json::Value)
    ensures
        jmodel(r) == parts_model(p),
{
    match p {
        JParts::Null => serde_json::Value::Null,
        JParts::Bool(b) => serde_json::Value::Bool(b),
        JParts::Int(i) => serde_json::Value::Number(serde_json::Number::from(i)),
        JParts::UInt(u) => serde_json::Value::Number(serde_json::Number::from(u)),
        JParts::Text(s) => serde_json::Value::String(s),
        JParts::List(items) => serde_json::Value::Array(items),
        JParts::Rec(pairs) => serde_json::Value::Object(pairs.into_iter().collect()),
    }
}

/// Relies on matching `serde_json::Value`'s variants, on
/// `serde_json::Number::as_u64` / `as_i64`, and on `serde_json::Map`
/// iteration, which yields each key once. A number outside the 64-bit
/// integer range surfaces as `Null`.
#[verifier::external_body]
pub fn j_parts(v: serde_json::Value) -> (p: JParts)
    ensures
        parts_model(p) == jmodel(v),
        p matches JParts::List(items) ==> forall|i: int|
            0 <= i < items@.len() ==> jheight(items@[i]) < jheight(v),
        p matches JParts::Rec(pairs) ==> (forall|i: int|
            0 <= i < pairs@.len() ==> jheight(pairs@[i].1) < jheight(v))
            && distinct_keys(jrec_models(pairs@)),
{
    match v {
        serde_json::Value::Null => JParts::Null,
        serde_json::Value::Bool(b) => JParts::Bool(b),
        serde_json::Value::Number(n) => match (n.as_u64(), n.as_i64()) {
            (Some(u), _) => JParts::UInt(u),
            (_, Some(i)) => JParts::Int(i),
            _ => JParts::Null,
        },
        serde_json::Value::String(s) => JParts::Text(s),
        serde_json::Value::Array(items) => JParts::List(items),
        serde_json::Value::Object(m) => JParts::Rec(m.into_iter().collect()),
    }
}

} // verus!
