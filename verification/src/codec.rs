//! The two interchangeable text codecs. A file name ending in the RON
//! extension selects the RON codec; anything else selects JSON. The text
//! encoders and parsers are outside calls; what they return is named here,
//! and the engine's own layers are proved against those names.

use vstd::prelude::*;
use crate::value::{Datum, DatumModel};
use crate::jsonval::jmodel;
use crate::tree::{datum_to_json, json_to_datum};
use crate::text::str_eq;
use vstd::string::StrSliceExecFns;

verus! {

/// One of the two text codecs.
#[derive(Debug, Clone, Copy, PartialEq, Eq, Structural)]
pub enum Codec {
    Json,
    Ron,
}

/// Whether a path selects the RON codec: it ends in `.ron`.
pub open spec fn is_ron_path(p: Seq<char>) -> bool {
    p.len() >= 4 && p.subrange(p.len() - 4, p.len() as int) == ".ron"@
}

/// The codec a path selects.
pub open spec fn codec_of_path(p: Seq<char>) -> Codec {
    if is_ron_path(p) {
        Codec::Ron
    } else {
        Codec::Json
    }
}

/// Resolves the codec for a path by its extension.
pub fn path_codec(p: &str) -> (c: Codec)
    ensures
        c == codec_of_path(p@),
{
    let n = p.unicode_len();
    if n >= 4 {
        let suffix = p.substring_char(n - 4, n);
        if str_eq(suffix, ".ron") {
            Codec::Ron
        } else {
            Codec::Json
        }
    } else {
        Codec::Json
    }
}

/// What `serde_json::from_str::<serde_json::Value>` makes of a text: the
/// model of the parsed tree, or nothing where parsing fails.
pub uninterp spec fn json_parsed(s: Seq<char>) -> Option<DatumModel>;

/// What `ron::from_str::<serde_json::Value>` makes of a text.
pub uninterp spec fn ron_parsed(s: Seq<char>) -> Option<DatumModel>;

/// Whether `ron::ser::to_string_pretty` accepts a tree with this model: it
/// refuses nothing but nesting beyond its depth limit, and model-equal
/// trees nest alike, so acceptance is a function of the model alone.
pub uninterp spec fn ron_text_ok(m: DatumModel) -> bool;

/// What a text means under a codec.
pub open spec fn parsed_by(c: Codec, s: Seq<char>) -> Option<DatumModel> {
    match c {
        Codec::Json => json_parsed(s),
        Codec::Ron => ron_parsed(s),
    }
}

/// Relies on `serde_json::to_string_pretty`: the pretty JSON text of a tree,
/// which `serde_json::from_str` reads back to the same tree whenever it
/// accepts the text at all. Writing a tree as JSON text cannot fail: the
/// writer is a byte buffer and every tree value serializes.
#[verifier::external_body]
fn json_dump(v: &serde_json::Value) -> (r: Result<String, String>)
    ensures
        r is Ok,
        r matches Ok(s) ==> (json_parsed(s@) matches Some(pm) ==> pm == jmodel(*v)),
{
    serde_json::to_string_pretty(v).map_err(|e| e.to_string())
}

/// Relies on `serde_json::from_str::<serde_json::Value>`, whose outcome on a
/// given text `json_parsed` names.
#[verifier::external_body]
fn json_load(s: &str) -> (r: Result<serde_json::Value, String>)
    ensures
        r matches Ok(v) ==> json_parsed(s@) == Some(jmodel(v)),
        r matches Err(_) ==> json_parsed(s@) is None,
{
    serde_json::from_str(s).map_err(|e| e.to_string())
}

/// Relies on `ron::ser::to_string_pretty` with the default pretty
/// configuration: the RON text of a tree, which `ron::from_str` reads back
/// to a tree with the same model whenever it accepts the text at all. The
/// writer fails only on nesting past its depth limit, which `ron_text_ok`
/// names.
#[verifier::external_body]
fn ron_dump(v: &serde_json::Value) -> (r: Result<String, String>)
    ensures
        r is Ok <==> ron_text_ok(jmodel(*v)),
        r matches Ok(s) ==> (ron_parsed(s@) matches Some(pm) ==> pm == jmodel(*v)),
{
    ron::ser::to_string_pretty(v, ron::ser::PrettyConfig::default()).map_err(|e| e.to_string())
}

/// Relies on `ron::from_str::<serde_json::Value>`, whose outcome on a given
/// text `ron_parsed` names.
#[verifier::external_body]
fn ron_load(s: &str) -> (r: Result<serde_json::Value, String>)
    ensures
        r matches Ok(v) ==> ron_parsed(s@) == Some(jmodel(v)),
        r matches Err(_) ==> ron_parsed(s@) is None,
{
    ron::from_str(s).map_err(|e| e.to_string())
}

/// Encodes a value as text under a codec. On success, re-reading the text
/// under the same codec gives back a value with the same model, whenever
/// the parser accepts the text.
pub fn encode_datum(c: Codec, v: &Datum) -> (r: Result<String, String>)
    ensures
        c == Codec::Json ==> r is Ok,
        c == Codec::Ron ==> (r is Ok <==> ron_text_ok(v@)),
        r matches Ok(s) ==> (parsed_by(c, s@) matches Some(pm) ==> pm == v@),
{
    let tree = datum_to_json(v);
    dump_tree(c, &tree)
}

/// Encodes a tree as text under a codec. On success, re-reading the text
/// under the same codec gives back a tree with the same model, whenever the
/// parser accepts the text.
pub fn dump_tree(c: Codec, v: &serde_json::Value) -> (r: Result<String, String>)
    ensures
        c == Codec::Json ==> r is Ok,
        c == Codec::Ron ==> (r is Ok <==> ron_text_ok(jmodel(*v))),
        r matches Ok(s) ==> (parsed_by(c, s@) matches Some(pm) ==> pm == jmodel(*v)),
{
    match c {
        Codec::Json => json_dump(v),
        Codec::Ron => ron_dump(v),
    }
}

/// Decodes a text under a codec. Success and the result's model are exactly
/// what the codec's parser makes of the text.
pub fn decode_datum(c: Codec, s: &str) -> (r: Result<Datum, String>)
    ensures
        r matches Ok(v) ==> parsed_by(c, s@) == Some(v@) && v.wf(),
        r matches Err(_) ==> parsed_by(c, s@) is None,
{
    let tree = match c {
        Codec::Json => json_load(s),
        Codec::Ron => ron_load(s),
    };
    match tree {
        Ok(t) => Ok(json_to_datum(t)),
        Err(e) => Err(e),
    }
}

} // verus!
