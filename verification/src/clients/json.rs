//! Reading string members out of JSON text, by `serde_json`.
use vstd::prelude::*;

verus! {

#[verifier::external_type_specification]
#[verifier::external_body]
pub struct ExValue(serde_json::Value);

/// `serde_json::from_str::<Value>` accepts the text.
pub uninterp spec fn json_parses(text: Seq<char>) -> bool;

/// `Value::get(key)` finds a member `key` in the value the text parses to.
pub uninterp spec fn json_has_member(text: Seq<char>, key: Seq<char>) -> bool;

/// `Value::as_str` of the member `key` of the value the text parses to: its
/// text when it is a JSON string, else none.
pub uninterp spec fn json_member_str(text: Seq<char>, key: Seq<char>) -> Option<Seq<char>>;

/// The message of the error that `serde_json::from_str::<Value>` gives for
/// the text, written with `to_string()` (the error's `Display`: what went
/// wrong, and at which line and column).
pub uninterp spec fn json_error_text(text: Seq<char>) -> Seq<char>;

/// The `Debug` form of the `serde_json::Value` that the text parses to.
pub uninterp spec fn json_debug_text(text: Seq<char>) -> Seq<char>;

/// A parsed JSON document with the text it was parsed from. Only
/// `parse_json` builds one, so the two always agree.
pub struct JsonDocument {
    source: String,
    value: serde_json::Value,
}

impl JsonDocument {
    pub closed spec fn spec_source(&self) -> Seq<char> {
        self.source@
    }
}

/// A member of a parsed JSON document, with the document's text and the
/// member's key. Only `json_member` builds one.
pub struct JsonMember {
    source: String,
    key: String,
    value: serde_json::Value,
}

impl JsonMember {
    pub closed spec fn spec_source(&self) -> Seq<char> {
        self.source@
    }

    pub closed spec fn spec_key(&self) -> Seq<char> {
        self.key@
    }
}

/// Parses JSON text with `serde_json::from_str::<serde_json::Value>`. States
/// when it succeeds (a name for the crate's grammar), that the document
/// remembers its text, and that the error message is the crate's error
/// written with `to_string()` (named by `json_error_text`).
#[verifier::external_body]
pub(crate) fn parse_json(text: &str) -> (r: Result<JsonDocument, String>)
    ensures
        r is Ok <==> json_parses(text@),
        r matches Ok(d) ==> d.spec_source() == text@,
        r matches Err(e) ==> e@ == json_error_text(text@),
{
    match serde_json::from_str::<serde_json::Value>(text) {
        Ok(value) => Ok(JsonDocument { source: text.to_string(), value }),
        Err(e) => Err(e.to_string()),
    }
}

/// The member `key` of the document: `serde_json::Value::get(key)`, whose
/// success is named by `json_has_member`.
#[verifier::external_body]
pub(crate) fn json_member(doc: &JsonDocument, key: &str) -> (r: Option<JsonMember>)
    ensures
        r is Some <==> json_has_member(doc.spec_source(), key@),
        r matches Some(m) ==> m.spec_source() == doc.spec_source() && m.spec_key() == key@,
{
    doc.value.get(key).map(
        |v| JsonMember { source: doc.source.clone(), key: key.to_string(), value: v.clone() },
    )
}

/// The member's text when it is a JSON string: `serde_json::Value::as_str`,
/// whose result is named by `json_member_str`.
#[verifier::external_body]
pub(crate) fn json_member_as_str(m: &JsonMember) -> (r: Option<String>)
    ensures
        match r {
            Some(s) => json_member_str(m.spec_source(), m.spec_key()) == Some(s@),
            None => json_member_str(m.spec_source(), m.spec_key()) is None,
        },
{
    m.value.as_str().map(|s| s.to_string())
}

/// The document written with `{:?}`, the `Debug` form of
/// `serde_json::Value`, named by `json_debug_text` over the document's text.
#[verifier::external_body]
pub(crate) fn json_debug(doc: &JsonDocument) -> (r: String)
    ensures
        r@ == json_debug_text(doc.spec_source()),
{
    format!("{:?}", doc.value)
}

} // verus!
