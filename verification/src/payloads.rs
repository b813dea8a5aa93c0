//! Structs and Traits for dealing with body payloads

use vstd::prelude::*;

use crate::nodes::{JsonNode, JsonV};
#[allow(unused_imports)]
use vstd::string::StrSliceExecFns;

verus! {

broadcast use vstd::group_vstd_default;

#[verifier::external_type_specification]
#[verifier::external_body]
pub struct ExValue(serde_json::Value);

/// The tree a JSON value holds, as a ghost mirror.
pub uninterp spec fn value_rep(v: serde_json::Value) -> JsonV;

/// The compact JSON text of a tree.
pub uninterp spec fn json_text(v: JsonV) -> Seq<char>;

/// Relies on serde_json::Value construction: builds the value holding
/// exactly this tree.
#[verifier::external_body]
fn to_json_value(n: &JsonNode) -> (v: serde_json::Value)
    ensures
        value_rep(v) == n.deep_view(),
{
    match n {
        JsonNode::Null => serde_json::Value::Null,
        JsonNode::Bool(b) => serde_json::Value::Bool(*b),
        JsonNode::UInt(u) => serde_json::Value::from(*u),
        JsonNode::Int(i) => serde_json::Value::from(*i),
        JsonNode::Num(x) => serde_json::Value::Number(x.clone()),
        JsonNode::Str(s) => serde_json::Value::String(s.clone()),
        JsonNode::Arr(a) => serde_json::Value::Array(a.iter().map(to_json_value).collect()),
        JsonNode::Obj(o) => serde_json::Value::Object(
            o.iter().map(|(k, v)| (k.clone(), to_json_value(v))).collect(),
        ),
    }
}

/// Relies on serde_json::Value::to_string: the compact JSON text of
/// the value, a function of the held tree alone.
#[verifier::external_body]
fn json_value_text(v: &serde_json::Value) -> (r: String)
    ensures
        r@ == json_text(value_rep(*v)),
{
    v.to_string()
}

/// Ghost mirror of a [`Payload`].
pub enum PayloadV {
    /// Text taken verbatim, never reinterpreted.
    Text(Seq<char>),
    /// An absent or null payload.
    Empty,
    /// A payload captured as a structured tree.
    Structured(JsonV),
}

/// The string form of a payload: verbatim text, the empty string, or
/// the compact JSON text of the captured tree.
pub open spec fn payload_text(p: PayloadV) -> Seq<char> {
    match p {
        PayloadV::Text(s) => s,
        PayloadV::Empty => Seq::empty(),
        PayloadV::Structured(j) => json_text(j),
    }
}

/// Payload stored as a String value
#[derive(Debug, Clone)]
pub struct StringPayload(pub String);

/// Empty Payload
#[derive(Debug, Clone)]
pub struct EmptyPayload;

/// Payload stored as a structured document tree. Note that this does
/// not mean a JSON payload (that would be depending on the content
/// type), but that the source of the payload is stored structurally.
#[derive(Debug, Clone)]
pub struct JsonPayload(pub JsonNode);

/// Body payload: one of the three shapes a request body can arrive in.
#[derive(Debug, Clone)]
pub enum Payload {
    /// A raw string payload
    String(StringPayload),
    /// An absent or null payload
    Empty(EmptyPayload),
    /// A structured payload
    Json(JsonPayload),
}

impl DeepView for Payload {
    type V = PayloadV;

    open spec fn deep_view(&self) -> PayloadV {
        match self {
            Payload::String(p) => PayloadV::Text(p.0@),
            Payload::Empty(_) => PayloadV::Empty,
            Payload::Json(p) => PayloadV::Structured(p.0.deep_view()),
        }
    }
}

impl StringPayload {
    /// Returns the payload as a String.
    pub fn as_string(&self) -> (r: String)
        ensures
            r@ == self.0@,
    {
        self.0.clone()
    }

    /// Returns the raw bytes of the payload.
    pub fn as_bytes(&self) -> (r: Vec<u8>)
        ensures
            r@ == vstd::utf8::encode_utf8(self.0@),
    {
        self.0.as_str().as_bytes_vec()
    }
}

impl EmptyPayload {
    /// Returns the payload as a String.
    pub fn as_string(&self) -> (r: String)
        ensures
            r@ == Seq::<char>::empty(),
    {
        String::new()
    }

    /// Returns the raw bytes of the payload.
    pub fn as_bytes(&self) -> (r: Vec<u8>)
        ensures
            r@ == vstd::utf8::encode_utf8(Seq::<char>::empty()),
    {
        let r: Vec<u8> = Vec::new();
        proof {
            assert(r@ =~= vstd::utf8::encode_utf8(Seq::<char>::empty()));
        }
        r
    }
}

impl JsonPayload {
    /// Returns the payload as a String: the compact JSON text of the
    /// captured tree.
    pub fn as_string(&self) -> (r: String)
        ensures
            r@ == json_text(self.0.deep_view()),
    {
        let v = to_json_value(&self.0);
        json_value_text(&v)
    }

    /// Returns the raw bytes of the payload.
    pub fn as_bytes(&self) -> (r: Vec<u8>)
        ensures
            r@ == vstd::utf8::encode_utf8(json_text(self.0.deep_view())),
    {
        let s = self.as_string();
        s.as_str().as_bytes_vec()
    }

    /// Returns the captured tree.
    pub fn as_json(&self) -> (r: JsonNode)
        ensures
            r.deep_view() == self.0.deep_view(),
    {
        self.0.clone()
    }
}

impl Payload {
    /// Returns the payload as a String.
    pub fn as_string(&self) -> (r: String)
        ensures
            r@ == payload_text(self.deep_view()),
    {
        match self {
            Payload::String(p) => p.as_string(),
            Payload::Empty(p) => p.as_string(),
            Payload::Json(p) => p.as_string(),
        }
    }

    /// Returns the raw bytes of the payload: the UTF-8 encoding of its
    /// string form.
    pub fn as_bytes(&self) -> (r: Vec<u8>)
        ensures
            r@ == vstd::utf8::encode_utf8(payload_text(self.deep_view())),
    {
        match self {
            Payload::String(p) => p.as_bytes(),
            Payload::Empty(p) => p.as_bytes(),
            Payload::Json(p) => p.as_bytes(),
        }
    }

    /// Returns the payload as a structured tree if it was captured as
    /// one, otherwise returns None.
    pub fn as_json(&self) -> (r: Option<JsonNode>)
        ensures
            match r {
                Some(j) => self.deep_view() matches PayloadV::Structured(jv) && j.deep_view()
                    == jv,
                None => !(self.deep_view() is Structured),
            },
    {
        match self {
            Payload::Json(p) => Some(p.as_json()),
            _ => None,
        }
    }
}

} // verus!
