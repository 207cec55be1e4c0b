//! Reading one string out of a JSON document.

use vstd::prelude::*;

verus! {

/// What `serde_json` finds in the document `doc` at the JSON Pointer
/// `pointer`: `None` when `doc` is not a JSON document, `Some(None)` when the
/// pointer addresses no string, `Some(Some(t))` when it addresses the string `t`.
pub uninterp spec fn json_text_at(doc: Seq<u8>, pointer: Seq<char>) -> Option<Option<Seq<char>>>;

pub open spec fn lookup_view(r: Option<Option<String>>) -> Option<Option<Seq<char>>> {
    match r {
        None => None,
        Some(None) => Some(None),
        Some(Some(s)) => Some(Some(s@)),
    }
}

/// Relies on `serde_json::from_slice::<Value>` to parse the document and on
/// `Value::pointer` to look up the addressed value; the result depends on the
/// bytes and the pointer alone.
#[verifier::external_body]
pub(crate) fn lookup_text(doc: &[u8], pointer: &str) -> (r: Option<Option<String>>)
    ensures
        lookup_view(r) == json_text_at(doc@, pointer@),
{
    match serde_json::from_slice::<serde_json::Value>(doc) {
        Ok(v) => match v.pointer(pointer) {
            Some(serde_json::Value::String(s)) => Some(Some(s.clone())),
            _ => Some(None),
        },
        Err(_) => None,
    }
}

} // verus!
