//! Functions for loading the typed model from a parsed JSON-shaped
//! document tree. Each loader is proved against a specification
//! function that states exactly which value or which error comes back
//! for every input tree.

use vstd::prelude::*;

use crate::either::Either;
use crate::errors::{ErrV, LoadError};
use crate::extensions::{
    json_extract_extensions, json_to_any, spec_json_extract_extensions, spec_json_to_any, AnyV,
    AnyValue,
};
use crate::kv::{kv_get, kv_lookup, kv_upsert, kv_upsert_exec};
use crate::nodes::{
    json_type_name, lemma_json_entries_dv, lemma_json_items_dv, spec_json_type_name, JsonNode,
    JsonV,
};
use crate::numbers::{
    num_double_from_i64, num_double_from_u64, num_double_of_i64, num_double_of_u64, num_text,
    num_to_string, num_trunc, number_to_i64_lossy,
};
use crate::text::{
    bool_text, bool_to_string, dec_digits, dec_digits_signed, i64_to_dec_string,
    u64_to_dec_string,
};
use crate::kv::{kv_has, lemma_kv_get_has};
use crate::payloads::{EmptyPayload, JsonPayload, Payload, PayloadV, StringPayload};
use crate::v1_0::{
    ArazzoDescription, ArazzoDescriptionV, Components, ComponentsV, Criterion,
    CriterionExpressionType, CriterionExpressionTypeV, CriterionV, FailureObject, FailureObjectV,
    Info, InfoV, ParameterObject, ParameterObjectV, PayloadReplacement, PayloadReplacementV,
    RequestBody, RequestBodyV, ReusableObject, ReusableObjectV, SourceDescription,
    SourceDescriptionV, Step, StepV, SuccessObject, SuccessObjectV, Workflow, WorkflowV,
};
#[allow(unused_imports)]
use vstd::string::StrSliceExecFns;

verus! {

broadcast use vstd::group_vstd_default;

/// The entries of a JSON object tree, as the loader receives them.
pub type JsonObject = Vec<(String, JsonNode)>;

/// Ghost mirror of a [`JsonObject`].
pub type JsonObjectV = Seq<(Seq<char>, JsonV)>;

/// The string a scalar node converts to when looked up as a string:
/// booleans and numbers render to their usual text, strings pass
/// through, and anything else has none.
pub open spec fn spec_stringish(v: JsonV) -> Option<Seq<char>> {
    match v {
        JsonV::Bool(b) => Some(bool_text(b)),
        JsonV::UInt(u) => Some(dec_digits(u as nat)),
        JsonV::Int(i) => Some(dec_digits_signed(i as int)),
        JsonV::Num(x) => Some(num_text(x)),
        JsonV::Str(s) => Some(s),
        _ => None,
    }
}

/// What [`json_object_lookup_string`] returns.
pub open spec fn spec_lookup_string(m: JsonObjectV, k: Seq<char>) -> Option<Seq<char>> {
    match kv_get(m, k) {
        None => None,
        Some(v) => spec_stringish(v),
    }
}

/// Looks up a value with the given key in a JSON Object. If the value is easily
/// convertable to a String (is a Number or Boolean), its text will be used.
pub fn json_object_lookup_string(map: &JsonObject, key: &str) -> (r: Option<String>)
    ensures
        match r {
            Some(s) => spec_lookup_string(map.deep_view(), key@) == Some(s@),
            None => spec_lookup_string(map.deep_view(), key@) is None,
        },
{
    match kv_lookup(map, key) {
        None => None,
        Some(v) => match v {
            JsonNode::Bool(b) => Some(bool_to_string(*b)),
            JsonNode::UInt(u) => Some(u64_to_dec_string(*u)),
            JsonNode::Int(i) => Some(i64_to_dec_string(*i)),
            JsonNode::Num(x) => Some(num_to_string(x)),
            JsonNode::Str(s) => Some(s.clone()),
            _ => None,
        },
    }
}

/// What [`json_object_lookup_number`] returns: integers widen to the
/// equivalent double-valued number, other numbers pass through.
pub open spec fn spec_lookup_number(m: JsonObjectV, k: Seq<char>) -> Option<
    serde_json::Number,
> {
    match kv_get(m, k) {
        Some(JsonV::UInt(u)) => num_double_of_u64(u),
        Some(JsonV::Int(i)) => num_double_of_i64(i),
        Some(JsonV::Num(x)) => Some(x),
        _ => None,
    }
}

/// Looks up a numeric value with the given key in an Object. If the value is an
/// integer it will be converted to a double.
pub fn json_object_lookup_number(map: &JsonObject, key: &str) -> (r: Option<serde_json::Number>)
    ensures
        r == spec_lookup_number(map.deep_view(), key@),
{
    match kv_lookup(map, key) {
        Some(v) => match v {
            JsonNode::UInt(u) => num_double_from_u64(*u),
            JsonNode::Int(i) => num_double_from_i64(*i),
            JsonNode::Num(x) => Some(x.clone()),
            _ => None,
        },
        None => None,
    }
}

/// What [`json_object_lookup_integer`] returns: an unsigned value is
/// reinterpreted in 64 signed bits, a float truncates.
pub open spec fn spec_lookup_integer(m: JsonObjectV, k: Seq<char>) -> Option<i64> {
    match kv_get(m, k) {
        Some(JsonV::UInt(u)) => Some(u as i64),
        Some(JsonV::Int(i)) => Some(i),
        Some(JsonV::Num(x)) => num_trunc(x),
        _ => None,
    }
}

/// Looks up an integer value with the given key in an Object. If the value is a
/// float it will be converted to an integer.
pub fn json_object_lookup_integer(map: &JsonObject, key: &str) -> (r: Option<i64>)
    ensures
        r == spec_lookup_integer(map.deep_view(), key@),
{
    match kv_lookup(map, key) {
        Some(v) => match v {
            JsonNode::UInt(u) => Some(#[verifier::truncate] (*u as i64)),
            JsonNode::Int(i) => Some(*i),
            JsonNode::Num(x) => number_to_i64_lossy(x),
            _ => None,
        },
        None => None,
    }
}

/// What [`json_object_require_string`] returns: the string under the
/// key, or exactly which rule rejected it. The key being absent gives
/// `MissingRequiredField`; a value of any other kind gives `WrongType`.
pub open spec fn spec_require_string(m: JsonObjectV, k: Seq<char>, section: Seq<char>) -> Result<
    Seq<char>,
    ErrV,
> {
    match kv_get(m, k) {
        None => Err(ErrV::MissingRequiredField(k, section)),
        Some(JsonV::Str(s)) => Ok(s),
        Some(v) => Err(ErrV::WrongType(k, "String"@, spec_json_type_name(v))),
    }
}

/// Looks up a required String value with the given key in a JSON Object,
/// citing the given fixed-fields section on failure. If the key does not
/// exist, or the resulting value is not a String, an Error is returned.
pub fn json_object_require_string(map: &JsonObject, key: &str, section: &str) -> (r: Result<
    String,
    LoadError,
>)
    ensures
        match r {
            Ok(s) => spec_require_string(map.deep_view(), key@, section@) == Ok::<
                Seq<char>,
                ErrV,
            >(s@),
            Err(e) => spec_require_string(map.deep_view(), key@, section@) == Err::<
                Seq<char>,
                ErrV,
            >(e.deep_view()),
        },
{
    match kv_lookup(map, key) {
        None => Err(
            LoadError::MissingRequiredField(key.to_owned(), section.to_owned()),
        ),
        Some(v) => match v {
            JsonNode::Str(s) => Ok(s.clone()),
            _ => Err(
                LoadError::WrongType(key.to_owned(), "String".to_owned(), json_type_name(v)),
            ),
        },
    }
}

/// The stringish elements of the first `n` array entries, in order;
/// other elements are ignored.
pub open spec fn spec_stringish_list(items: Seq<JsonV>, n: int) -> Seq<Seq<char>>
    decreases n,
{
    if n <= 0 || n > items.len() {
        Seq::empty()
    } else {
        let prev = spec_stringish_list(items, n - 1);
        match spec_stringish(items[n - 1]) {
            Some(s) => prev.push(s),
            None => prev,
        }
    }
}

/// What [`json_object_lookup_string_list`] returns.
pub open spec fn spec_lookup_string_list(m: JsonObjectV, k: Seq<char>) -> Option<Seq<Seq<char>>> {
    match kv_get(m, k) {
        Some(JsonV::Arr(items)) => Some(spec_stringish_list(items, items.len() as int)),
        _ => None,
    }
}

/// Looks up an Array of String values with the given key in a JSON Object.
/// If a value is easily convertable to a String (is a Number or Boolean),
/// its text will be used. All other values are ignored.
pub fn json_object_lookup_string_list(map: &JsonObject, key: &str) -> (r: Option<Vec<String>>)
    ensures
        match r {
            Some(list) => spec_lookup_string_list(map.deep_view(), key@) == Some(
                list.deep_view(),
            ),
            None => spec_lookup_string_list(map.deep_view(), key@) is None,
        },
{
    match kv_lookup(map, key) {
        Some(v) => match v {
            JsonNode::Arr(items) => {
                let ghost iv = v.deep_view()->Arr_0;
                proof {
                    lemma_json_items_dv(items@, items@.len() as int);
                }
                let mut out: Vec<String> = Vec::new();
                let mut i: usize = 0;
                proof {
                    assert(out.deep_view() =~= Seq::<Seq<char>>::empty());
                }
                while i < items.len()
                    invariant
                        i <= items.len(),
                        iv.len() == items@.len(),
                        forall|k: int| 0 <= k < items@.len() ==> iv[k] == items@[k].deep_view(),
                        out.deep_view() == spec_stringish_list(iv, i as int),
                    decreases items.len() - i,
                {
                    let ghost pre = out;
                    let picked: Option<String> = match &items[i] {
                        JsonNode::Bool(b) => Some(bool_to_string(*b)),
                        JsonNode::UInt(u) => Some(u64_to_dec_string(*u)),
                        JsonNode::Int(x) => Some(i64_to_dec_string(*x)),
                        JsonNode::Num(x) => Some(num_to_string(x)),
                        JsonNode::Str(s) => Some(s.clone()),
                        _ => None,
                    };
                    match picked {
                        Some(s) => {
                            out.push(s);
                            proof {
                                crate::kv::lemma_deep_view_push(pre, out, s);
                            }
                        },
                        None => {},
                    }
                    i = i + 1;
                }
                Some(out)
            },
            _ => None,
        },
        None => None,
    }
}

/// The outputs mapping drawn from the first `n` object entries: only
/// string-valued entries are kept, a repeated key keeps the later
/// value, and keys end up sorted.
pub open spec fn spec_outputs_entries(entries: JsonObjectV, n: int) -> Seq<
    (Seq<char>, Seq<char>),
>
    decreases n,
{
    if n <= 0 || n > entries.len() {
        Seq::empty()
    } else {
        let prev = spec_outputs_entries(entries, n - 1);
        match entries[n - 1].1 {
            JsonV::Str(s) => kv_upsert(prev, (entries[n - 1].0, s)),
            _ => prev,
        }
    }
}

/// What [`json_load_outputs`] returns: entries of the object under
/// `outputs` whose values are strings; anything else gives the empty
/// mapping.
pub open spec fn spec_load_outputs(m: JsonObjectV) -> Seq<(Seq<char>, Seq<char>)> {
    match kv_get(m, "outputs"@) {
        Some(JsonV::Obj(entries)) => spec_outputs_entries(entries, entries.len() as int),
        _ => Seq::empty(),
    }
}

/// Loads an outputs mapping: string-valued entries of the `outputs`
/// object; non-string values are silently dropped.
pub fn json_load_outputs(map: &JsonObject) -> (r: Vec<(String, String)>)
    ensures
        r.deep_view() == spec_load_outputs(map.deep_view()),
{
    let mut out: Vec<(String, String)> = Vec::new();
    proof {
        assert(out.deep_view() =~= Seq::<(Seq<char>, Seq<char>)>::empty());
    }
    match kv_lookup(map, "outputs") {
        Some(v) => match v {
            JsonNode::Obj(entries) => {
                let ghost ev = v.deep_view()->Obj_0;
                proof {
                    lemma_json_entries_dv(entries@, entries@.len() as int);
                }
                let mut i: usize = 0;
                while i < entries.len()
                    invariant
                        i <= entries.len(),
                        ev.len() == entries@.len(),
                        forall|k: int|
                            0 <= k < entries@.len() ==> ev[k] == (
                                entries@[k].0@,
                                entries@[k].1.deep_view(),
                            ),
                        out.deep_view() == spec_outputs_entries(ev, i as int),
                    decreases entries.len() - i,
                {
                    match &entries[i].1 {
                        JsonNode::Str(s) => {
                            let key = entries[i].0.clone();
                            let val = s.clone();
                            kv_upsert_exec(&mut out, key, val);
                        },
                        _ => {},
                    }
                    i = i + 1;
                }
                out
            },
            _ => out,
        },
        None => out,
    }
}

/// Whether the string begins with the expression sigil `$`.
pub open spec fn has_sigil(s: Seq<char>) -> bool {
    s.len() >= 1 && s[0] == '$'
}

/// What [`json_load_any_or_expression`] returns. A string beginning
/// with the sigil `$` is the expression branch, verbatim; any other
/// string is a literal string value; every non-string node is the
/// literal branch, converted recursively. An absent value is rejected.
pub open spec fn spec_any_or_expression(m: JsonObjectV, k: Seq<char>) -> Result<
    Either<AnyV, Seq<char>>,
    ErrV,
> {
    match kv_get(m, k) {
        None => Err(ErrV::MissingRequiredField(k, "4.6.6.1"@)),
        Some(JsonV::Str(s)) => if has_sigil(s) {
            Ok(Either::Second(s))
        } else {
            Ok(Either::First(AnyV::String(s)))
        },
        Some(v) => Ok(Either::First(spec_json_to_any(v))),
    }
}

/// Loads a two-shape field: literal data or a runtime-expression
/// string, told apart by the leading `$` sigil on string values.
pub fn json_load_any_or_expression(map: &JsonObject, key: &str) -> (r: Result<
    Either<AnyValue, String>,
    LoadError,
>)
    ensures
        match r {
            Ok(v) => spec_any_or_expression(map.deep_view(), key@) == Ok::<
                Either<AnyV, Seq<char>>,
                ErrV,
            >(v.deep_view()),
            Err(e) => spec_any_or_expression(map.deep_view(), key@) == Err::<
                Either<AnyV, Seq<char>>,
                ErrV,
            >(e.deep_view()),
        },
{
    match kv_lookup(map, key) {
        None => Err(
            LoadError::MissingRequiredField(key.to_owned(), "4.6.6.1".to_owned()),
        ),
        Some(v) => match v {
            JsonNode::Str(s) => {
                if s.as_str().unicode_len() >= 1 && s.as_str().get_char(0) == '$' {
                    Ok(Either::Second(s.clone()))
                } else {
                    Ok(Either::First(AnyValue::String(s.clone())))
                }
            },
            _ => Ok(Either::First(json_to_any(v))),
        },
    }
}

/// Converts the first `n` array elements with `f`, keeping the
/// converted values in order: an element `f` maps to `None` is
/// silently left out, and the first rejection decides the whole list.
pub open spec fn load_items<T>(
    items: Seq<JsonV>,
    n: int,
    f: spec_fn(JsonV) -> Result<Option<T>, ErrV>,
) -> Result<Seq<T>, ErrV>
    decreases n,
{
    if n <= 0 || n > items.len() {
        Ok(Seq::empty())
    } else {
        match load_items(items, n - 1, f) {
            Err(e) => Err(e),
            Ok(s) => match f(items[n - 1]) {
                Err(e) => Err(e),
                Ok(Some(t)) => Ok(s.push(t)),
                Ok(None) => Ok(s),
            },
        }
    }
}

/// A rejection among the first `k` elements decides the whole list.
pub proof fn lemma_load_items_err_persists<T>(
    items: Seq<JsonV>,
    k: int,
    n: int,
    f: spec_fn(JsonV) -> Result<Option<T>, ErrV>,
)
    requires
        0 <= k <= n <= items.len(),
        load_items(items, k, f) is Err,
    ensures
        load_items(items, n, f) == load_items(items, k, f),
    decreases n - k,
{
    if n > k {
        lemma_load_items_err_persists(items, k, n - 1, f);
    }
}

/// Converts the first `n` object entries with `f`, merging the
/// results by key: a repeated key keeps the later value and keys end
/// up sorted; the first rejection decides the whole mapping.
pub open spec fn load_kv_items<T>(
    entries: JsonObjectV,
    n: int,
    f: spec_fn(JsonV) -> Result<T, ErrV>,
) -> Result<Seq<(Seq<char>, T)>, ErrV>
    decreases n,
{
    if n <= 0 || n > entries.len() {
        Ok(Seq::empty())
    } else {
        match load_kv_items(entries, n - 1, f) {
            Err(e) => Err(e),
            Ok(m) => match f(entries[n - 1].1) {
                Err(e) => Err(e),
                Ok(t) => Ok(kv_upsert(m, (entries[n - 1].0, t))),
            },
        }
    }
}

/// A rejection among the first `k` entries decides the whole mapping.
pub proof fn lemma_load_kv_items_err_persists<T>(
    entries: JsonObjectV,
    k: int,
    n: int,
    f: spec_fn(JsonV) -> Result<T, ErrV>,
)
    requires
        0 <= k <= n <= entries.len(),
        load_kv_items(entries, k, f) is Err,
    ensures
        load_kv_items(entries, n, f) == load_kv_items(entries, k, f),
    decreases n - k,
{
    if n > k {
        lemma_load_kv_items_err_persists(entries, k, n - 1, f);
    }
}

/// What loading a Reusable Object returns: the `reference` string is
/// required; `value` is optional.
pub open spec fn spec_load_reusable(v: JsonV) -> Result<ReusableObjectV, ErrV> {
    match v {
        JsonV::Obj(m) => match spec_require_string(m, "reference"@, "4.6.10.1"@) {
            Err(e) => Err(e),
            Ok(reference) => Ok(
                ReusableObjectV { reference, value: spec_lookup_string(m, "value"@) },
            ),
        },
        _ => Err(ErrV::WrongType("reusableObject"@, "Object"@, spec_json_type_name(v))),
    }
}

impl ReusableObject {
    /// Loads a Reusable Object from a JSON-shaped node.
    pub fn try_from_json(n: &JsonNode) -> (r: Result<ReusableObject, LoadError>)
        ensures
            match r {
                Ok(v) => spec_load_reusable(n.deep_view()) == Ok::<ReusableObjectV, ErrV>(
                    v.deep_view(),
                ),
                Err(e) => spec_load_reusable(n.deep_view()) == Err::<ReusableObjectV, ErrV>(
                    e.deep_view(),
                ),
            },
    {
        match n {
            JsonNode::Obj(m) => {
                proof {
                    crate::nodes::lemma_json_obj_dv(*m);
                }
                match json_object_require_string(m, "reference", "4.6.10.1") {
                    Err(e) => Err(e),
                    Ok(reference) => Ok(
                        ReusableObject { reference, value: json_object_lookup_string(m, "value") },
                    ),
                }
            },
            _ => Err(
                LoadError::WrongType(
                    "reusableObject".to_owned(),
                    "Object".to_owned(),
                    json_type_name(n),
                ),
            ),
        }
    }
}

/// What loading a Parameter Object returns: `name` is required, `in`
/// is optional, and `value` is a required two-shape field.
pub open spec fn spec_load_parameter(v: JsonV) -> Result<ParameterObjectV, ErrV> {
    match v {
        JsonV::Obj(m) => match spec_require_string(m, "name"@, "4.6.6.1"@) {
            Err(e) => Err(e),
            Ok(name) => match spec_any_or_expression(m, "value"@) {
                Err(e) => Err(e),
                Ok(value) => Ok(
                    ParameterObjectV {
                        name,
                        in_: spec_lookup_string(m, "in"@),
                        value,
                        extensions: spec_json_extract_extensions(m, m.len() as int),
                    },
                ),
            },
        },
        _ => Err(ErrV::WrongType("parameter"@, "Object"@, spec_json_type_name(v))),
    }
}

impl ParameterObject {
    /// Loads a Parameter Object from a JSON-shaped node.
    pub fn try_from_json(n: &JsonNode) -> (r: Result<ParameterObject, LoadError>)
        ensures
            match r {
                Ok(v) => spec_load_parameter(n.deep_view()) == Ok::<ParameterObjectV, ErrV>(
                    v.deep_view(),
                ),
                Err(e) => spec_load_parameter(n.deep_view()) == Err::<ParameterObjectV, ErrV>(
                    e.deep_view(),
                ),
            },
    {
        match n {
            JsonNode::Obj(m) => {
                proof {
                    crate::nodes::lemma_json_obj_dv(*m);
                }
                match json_object_require_string(m, "name", "4.6.6.1") {
                    Err(e) => Err(e),
                    Ok(name) => match json_load_any_or_expression(m, "value") {
                        Err(e) => Err(e),
                        Ok(value) => Ok(
                            ParameterObject {
                                name,
                                in_: json_object_lookup_string(m, "in"),
                                value,
                                extensions: json_extract_extensions(m),
                            },
                        ),
                    },
                }
            },
            _ => Err(
                LoadError::WrongType(
                    "parameter".to_owned(),
                    "Object".to_owned(),
                    json_type_name(n),
                ),
            ),
        }
    }
}

/// What loading a Criterion Expression Type Object returns: `type`
/// and `version` are both required.
pub open spec fn spec_load_cet(v: JsonV) -> Result<CriterionExpressionTypeV, ErrV> {
    match v {
        JsonV::Obj(m) => match spec_require_string(m, "type"@, "4.6.12.1"@) {
            Err(e) => Err(e),
            Ok(type_) => match spec_require_string(m, "version"@, "4.6.12.1"@) {
                Err(e) => Err(e),
                Ok(version) => Ok(
                    CriterionExpressionTypeV {
                        type_,
                        version,
                        extensions: spec_json_extract_extensions(m, m.len() as int),
                    },
                ),
            },
        },
        _ => Err(
            ErrV::WrongType("criterionExpressionType"@, "Object"@, spec_json_type_name(v)),
        ),
    }
}

impl CriterionExpressionType {
    /// Loads a Criterion Expression Type Object from a JSON-shaped node.
    pub fn try_from_json(n: &JsonNode) -> (r: Result<CriterionExpressionType, LoadError>)
        ensures
            match r {
                Ok(v) => spec_load_cet(n.deep_view()) == Ok::<CriterionExpressionTypeV, ErrV>(
                    v.deep_view(),
                ),
                Err(e) => spec_load_cet(n.deep_view()) == Err::<CriterionExpressionTypeV, ErrV>(
                    e.deep_view(),
                ),
            },
    {
        match n {
            JsonNode::Obj(m) => {
                proof {
                    crate::nodes::lemma_json_obj_dv(*m);
                }
                match json_object_require_string(m, "type", "4.6.12.1") {
                    Err(e) => Err(e),
                    Ok(type_) => match json_object_require_string(m, "version", "4.6.12.1") {
                        Err(e) => Err(e),
                        Ok(version) => Ok(
                            CriterionExpressionType {
                                type_,
                                version,
                                extensions: json_extract_extensions(m),
                            },
                        ),
                    },
                }
            },
            _ => Err(
                LoadError::WrongType(
                    "criterionExpressionType".to_owned(),
                    "Object".to_owned(),
                    json_type_name(n),
                ),
            ),
        }
    }
}

/// What loading the `type` field of a Criterion returns: absent gives
/// none, a string names the type directly, and any other node loads
/// as a full Criterion Expression Type record.
pub open spec fn spec_load_criterion_type(m: JsonObjectV) -> Result<
    Option<Either<Seq<char>, CriterionExpressionTypeV>>,
    ErrV,
> {
    match kv_get(m, "type"@) {
        None => Ok(None),
        Some(JsonV::Str(s)) => Ok(Some(Either::First(s))),
        Some(v) => match spec_load_cet(v) {
            Err(e) => Err(e),
            Ok(cet) => Ok(Some(Either::Second(cet))),
        },
    }
}

/// Loads the `type` field of a Criterion: a short name string or a
/// full Criterion Expression Type record.
pub fn json_load_criterion_expression_type(map: &JsonObject) -> (r: Result<
    Option<Either<String, CriterionExpressionType>>,
    LoadError,
>)
    ensures
        match r {
            Ok(v) => spec_load_criterion_type(map.deep_view()) == Ok::<
                Option<Either<Seq<char>, CriterionExpressionTypeV>>,
                ErrV,
            >(v.deep_view()),
            Err(e) => spec_load_criterion_type(map.deep_view()) == Err::<
                Option<Either<Seq<char>, CriterionExpressionTypeV>>,
                ErrV,
            >(e.deep_view()),
        },
{
    match kv_lookup(map, "type") {
        None => Ok(None),
        Some(v) => match v {
            JsonNode::Str(s) => Ok(Some(Either::First(s.clone()))),
            _ => match CriterionExpressionType::try_from_json(v) {
                Err(e) => Err(e),
                Ok(cet) => Ok(Some(Either::Second(cet))),
            },
        },
    }
}

/// What loading a Criterion Object returns: `condition` is required;
/// `context` and `type` are optional.
pub open spec fn spec_load_criterion(v: JsonV) -> Result<CriterionV, ErrV> {
    match v {
        JsonV::Obj(m) => match spec_require_string(m, "condition"@, "4.6.11.1"@) {
            Err(e) => Err(e),
            Ok(condition) => match spec_load_criterion_type(m) {
                Err(e) => Err(e),
                Ok(type_) => Ok(
                    CriterionV {
                        context: spec_lookup_string(m, "context"@),
                        condition,
                        type_,
                        extensions: spec_json_extract_extensions(m, m.len() as int),
                    },
                ),
            },
        },
        _ => Err(ErrV::WrongType("criterion"@, "Object"@, spec_json_type_name(v))),
    }
}

impl Criterion {
    /// Loads a Criterion Object from a JSON-shaped node.
    pub fn try_from_json(n: &JsonNode) -> (r: Result<Criterion, LoadError>)
        ensures
            match r {
                Ok(v) => spec_load_criterion(n.deep_view()) == Ok::<CriterionV, ErrV>(
                    v.deep_view(),
                ),
                Err(e) => spec_load_criterion(n.deep_view()) == Err::<CriterionV, ErrV>(
                    e.deep_view(),
                ),
            },
    {
        match n {
            JsonNode::Obj(m) => {
                proof {
                    crate::nodes::lemma_json_obj_dv(*m);
                }
                match json_object_require_string(m, "condition", "4.6.11.1") {
                    Err(e) => Err(e),
                    Ok(condition) => match json_load_criterion_expression_type(m) {
                        Err(e) => Err(e),
                        Ok(type_) => Ok(
                            Criterion {
                                context: json_object_lookup_string(m, "context"),
                                condition,
                                type_,
                                extensions: json_extract_extensions(m),
                            },
                        ),
                    },
                }
            },
            _ => Err(
                LoadError::WrongType(
                    "criterion".to_owned(),
                    "Object".to_owned(),
                    json_type_name(n),
                ),
            ),
        }
    }
}

/// The per-element conversion of a criteria list.
pub open spec fn criterion_item(v: JsonV) -> Result<Option<CriterionV>, ErrV> {
    match spec_load_criterion(v) {
        Ok(c) => Ok(Some(c)),
        Err(e) => Err(e),
    }
}

/// What loading a criteria list returns: each element of the array
/// under the key loads as a Criterion; an absent key or a non-array
/// value gives the empty list.
pub open spec fn spec_load_criteria(m: JsonObjectV, k: Seq<char>) -> Result<Seq<CriterionV>, ErrV> {
    match kv_get(m, k) {
        Some(JsonV::Arr(items)) => load_items(
            items,
            items.len() as int,
            |v: JsonV| criterion_item(v),
        ),
        _ => Ok(Seq::empty()),
    }
}

/// Loads the criteria list under the given key.
pub fn json_load_criteria(map: &JsonObject, key: &str) -> (r: Result<Vec<Criterion>, LoadError>)
    ensures
        match r {
            Ok(v) => spec_load_criteria(map.deep_view(), key@) == Ok::<Seq<CriterionV>, ErrV>(
                v.deep_view(),
            ),
            Err(e) => spec_load_criteria(map.deep_view(), key@) == Err::<Seq<CriterionV>, ErrV>(
                e.deep_view(),
            ),
        },
{
    let ghost f = |v: JsonV| criterion_item(v);
    let mut out: Vec<Criterion> = Vec::new();
    proof {
        assert(out.deep_view() =~= Seq::<CriterionV>::empty());
    }
    match kv_lookup(map, key) {
        Some(arr_node) => match arr_node {
            JsonNode::Arr(items) => {
                let ghost iv = arr_node.deep_view()->Arr_0;
                proof {
                    lemma_json_items_dv(items@, items@.len() as int);
                }
                let mut i: usize = 0;
                while i < items.len()
                    invariant
                        i <= items.len(),
                        iv.len() == items@.len(),
                        forall|k: int| 0 <= k < items@.len() ==> iv[k] == items@[k].deep_view(),
                        load_items(iv, i as int, f) == Ok::<Seq<CriterionV>, ErrV>(
                            out.deep_view(),
                        ),
                    decreases items.len() - i,
                {
                    let ghost pre = out;
                    match Criterion::try_from_json(&items[i]) {
                        Ok(c) => {
                            out.push(c);
                            proof {
                                crate::kv::lemma_deep_view_push(pre, out, c);
                            }
                        },
                        Err(e) => {
                            proof {
                                lemma_load_items_err_persists(iv, i + 1, iv.len() as int, f);
                            }
                            return Err(e);
                        },
                    }
                    i = i + 1;
                }
                Ok(out)
            },
            _ => Ok(out),
        },
        None => Ok(out),
    }
}

/// What loading a Success Action Object returns: `name` and `type`
/// are required; the rest is optional.
pub open spec fn spec_load_success(v: JsonV) -> Result<SuccessObjectV, ErrV> {
    match v {
        JsonV::Obj(m) => match spec_require_string(m, "name"@, "4.6.7.1"@) {
            Err(e) => Err(e),
            Ok(name) => match spec_require_string(m, "type"@, "4.6.7.1"@) {
                Err(e) => Err(e),
                Ok(type_) => match spec_load_criteria(m, "criteria"@) {
                    Err(e) => Err(e),
                    Ok(criteria) => Ok(
                        SuccessObjectV {
                            name,
                            type_,
                            workflow_id: spec_lookup_string(m, "workflowId"@),
                            step_id: spec_lookup_string(m, "stepId"@),
                            criteria,
                            extensions: spec_json_extract_extensions(m, m.len() as int),
                        },
                    ),
                },
            },
        },
        _ => Err(ErrV::WrongType("successAction"@, "Object"@, spec_json_type_name(v))),
    }
}

impl SuccessObject {
    /// Loads a Success Action Object from a JSON-shaped node.
    pub fn try_from_json(n: &JsonNode) -> (r: Result<SuccessObject, LoadError>)
        ensures
            match r {
                Ok(v) => spec_load_success(n.deep_view()) == Ok::<SuccessObjectV, ErrV>(
                    v.deep_view(),
                ),
                Err(e) => spec_load_success(n.deep_view()) == Err::<SuccessObjectV, ErrV>(
                    e.deep_view(),
                ),
            },
    {
        match n {
            JsonNode::Obj(m) => {
                proof {
                    crate::nodes::lemma_json_obj_dv(*m);
                }
                match json_object_require_string(m, "name", "4.6.7.1") {
                    Err(e) => Err(e),
                    Ok(name) => match json_object_require_string(m, "type", "4.6.7.1") {
                        Err(e) => Err(e),
                        Ok(type_) => match json_load_criteria(m, "criteria") {
                            Err(e) => Err(e),
                            Ok(criteria) => Ok(
                                SuccessObject {
                                    name,
                                    type_,
                                    workflow_id: json_object_lookup_string(m, "workflowId"),
                                    step_id: json_object_lookup_string(m, "stepId"),
                                    criteria,
                                    extensions: json_extract_extensions(m),
                                },
                            ),
                        },
                    },
                }
            },
            _ => Err(
                LoadError::WrongType(
                    "successAction".to_owned(),
                    "Object".to_owned(),
                    json_type_name(n),
                ),
            ),
        }
    }
}

/// What loading a Failure Action Object returns: `name` and `type`
/// are required; retry fields and the rest are optional.
pub open spec fn spec_load_failure(v: JsonV) -> Result<FailureObjectV, ErrV> {
    match v {
        JsonV::Obj(m) => match spec_require_string(m, "name"@, "4.6.8.1"@) {
            Err(e) => Err(e),
            Ok(name) => match spec_require_string(m, "type"@, "4.6.8.1"@) {
                Err(e) => Err(e),
                Ok(type_) => match spec_load_criteria(m, "criteria"@) {
                    Err(e) => Err(e),
                    Ok(criteria) => Ok(
                        FailureObjectV {
                            name,
                            type_,
                            workflow_id: spec_lookup_string(m, "workflowId"@),
                            step_id: spec_lookup_string(m, "stepId"@),
                            retry_after: spec_lookup_number(m, "retryAfter"@),
                            retry_limit: spec_lookup_integer(m, "retryLimit"@),
                            criteria,
                            extensions: spec_json_extract_extensions(m, m.len() as int),
                        },
                    ),
                },
            },
        },
        _ => Err(ErrV::WrongType("failureAction"@, "Object"@, spec_json_type_name(v))),
    }
}

impl FailureObject {
    /// Loads a Failure Action Object from a JSON-shaped node.
    pub fn try_from_json(n: &JsonNode) -> (r: Result<FailureObject, LoadError>)
        ensures
            match r {
                Ok(v) => spec_load_failure(n.deep_view()) == Ok::<FailureObjectV, ErrV>(
                    v.deep_view(),
                ),
                Err(e) => spec_load_failure(n.deep_view()) == Err::<FailureObjectV, ErrV>(
                    e.deep_view(),
                ),
            },
    {
        match n {
            JsonNode::Obj(m) => {
                proof {
                    crate::nodes::lemma_json_obj_dv(*m);
                }
                match json_object_require_string(m, "name", "4.6.8.1") {
                    Err(e) => Err(e),
                    Ok(name) => match json_object_require_string(m, "type", "4.6.8.1") {
                        Err(e) => Err(e),
                        Ok(type_) => match json_load_criteria(m, "criteria") {
                            Err(e) => Err(e),
                            Ok(criteria) => Ok(
                                FailureObject {
                                    name,
                                    type_,
                                    workflow_id: json_object_lookup_string(m, "workflowId"),
                                    step_id: json_object_lookup_string(m, "stepId"),
                                    retry_after: json_object_lookup_number(m, "retryAfter"),
                                    retry_limit: json_object_lookup_integer(m, "retryLimit"),
                                    criteria,
                                    extensions: json_extract_extensions(m),
                                },
                            ),
                        },
                    },
                }
            },
            _ => Err(
                LoadError::WrongType(
                    "failureAction".to_owned(),
                    "Object".to_owned(),
                    json_type_name(n),
                ),
            ),
        }
    }
}

/// The per-element conversion of a parameters list: an entry carrying
/// a literal `reference` key loads as a Reusable Object, any other
/// object loads as a Parameter Object, and a non-object entry is
/// silently left out.
pub open spec fn parameter_item(v: JsonV) -> Result<
    Option<Either<ParameterObjectV, ReusableObjectV>>,
    ErrV,
> {
    match v {
        JsonV::Obj(m) => if kv_has(m, "reference"@) {
            match spec_load_reusable(v) {
                Err(e) => Err(e),
                Ok(ro) => Ok(Some(Either::Second(ro))),
            }
        } else {
            match spec_load_parameter(v) {
                Err(e) => Err(e),
                Ok(p) => Ok(Some(Either::First(p))),
            }
        },
        _ => Ok(None),
    }
}

/// The per-element conversion of a success-actions list, with the same
/// reference discrimination and the same silent skip of non-objects.
pub open spec fn success_item(v: JsonV) -> Result<
    Option<Either<SuccessObjectV, ReusableObjectV>>,
    ErrV,
> {
    match v {
        JsonV::Obj(m) => if kv_has(m, "reference"@) {
            match spec_load_reusable(v) {
                Err(e) => Err(e),
                Ok(ro) => Ok(Some(Either::Second(ro))),
            }
        } else {
            match spec_load_success(v) {
                Err(e) => Err(e),
                Ok(p) => Ok(Some(Either::First(p))),
            }
        },
        _ => Ok(None),
    }
}

/// The per-element conversion of a failure-actions list, with the same
/// reference discrimination and the same silent skip of non-objects.
pub open spec fn failure_item(v: JsonV) -> Result<
    Option<Either<FailureObjectV, ReusableObjectV>>,
    ErrV,
> {
    match v {
        JsonV::Obj(m) => if kv_has(m, "reference"@) {
            match spec_load_reusable(v) {
                Err(e) => Err(e),
                Ok(ro) => Ok(Some(Either::Second(ro))),
            }
        } else {
            match spec_load_failure(v) {
                Err(e) => Err(e),
                Ok(p) => Ok(Some(Either::First(p))),
            }
        },
        _ => Ok(None),
    }
}

/// What loading a parameters list returns: the array under the key,
/// elementwise; an absent key or a non-array value gives the empty
/// list.
pub open spec fn spec_load_parameters(m: JsonObjectV, k: Seq<char>) -> Result<
    Seq<Either<ParameterObjectV, ReusableObjectV>>,
    ErrV,
> {
    match kv_get(m, k) {
        Some(JsonV::Arr(items)) => load_items(
            items,
            items.len() as int,
            |v: JsonV| parameter_item(v),
        ),
        _ => Ok(Seq::empty()),
    }
}

/// What loading a success-actions list returns.
pub open spec fn spec_load_success_actions(m: JsonObjectV, k: Seq<char>) -> Result<
    Seq<Either<SuccessObjectV, ReusableObjectV>>,
    ErrV,
> {
    match kv_get(m, k) {
        Some(JsonV::Arr(items)) => load_items(
            items,
            items.len() as int,
            |v: JsonV| success_item(v),
        ),
        _ => Ok(Seq::empty()),
    }
}

/// What loading a failure-actions list returns.
pub open spec fn spec_load_failure_actions(m: JsonObjectV, k: Seq<char>) -> Result<
    Seq<Either<FailureObjectV, ReusableObjectV>>,
    ErrV,
> {
    match kv_get(m, k) {
        Some(JsonV::Arr(items)) => load_items(
            items,
            items.len() as int,
            |v: JsonV| failure_item(v),
        ),
        _ => Ok(Seq::empty()),
    }
}

/// Loads a parameters list: each object entry is discriminated by the
/// presence of a literal `reference` key, and a non-object entry is
/// silently omitted.
pub fn json_load_parameters(map: &JsonObject, key: &str) -> (r: Result<
    Vec<Either<ParameterObject, ReusableObject>>,
    LoadError,
>)
    ensures
        match r {
            Ok(v) => spec_load_parameters(map.deep_view(), key@) == Ok::<
                Seq<Either<ParameterObjectV, ReusableObjectV>>,
                ErrV,
            >(v.deep_view()),
            Err(e) => spec_load_parameters(map.deep_view(), key@) == Err::<
                Seq<Either<ParameterObjectV, ReusableObjectV>>,
                ErrV,
            >(e.deep_view()),
        },
{
    let ghost f = |v: JsonV| parameter_item(v);
    let mut out: Vec<Either<ParameterObject, ReusableObject>> = Vec::new();
    proof {
        assert(out.deep_view() =~= Seq::<Either<ParameterObjectV, ReusableObjectV>>::empty());
    }
    match kv_lookup(map, key) {
        Some(arr_node) => match arr_node {
            JsonNode::Arr(items) => {
                let ghost iv = arr_node.deep_view()->Arr_0;
                proof {
                    lemma_json_items_dv(items@, items@.len() as int);
                }
                let mut i: usize = 0;
                while i < items.len()
                    invariant
                        i <= items.len(),
                        iv.len() == items@.len(),
                        forall|k: int| 0 <= k < items@.len() ==> iv[k] == items@[k].deep_view(),
                        load_items(iv, i as int, f) == Ok::<
                            Seq<Either<ParameterObjectV, ReusableObjectV>>,
                            ErrV,
                        >(out.deep_view()),
                    decreases items.len() - i,
                {
                    let ghost pre = out;
                    match &items[i] {
                        JsonNode::Obj(em) => {
                            proof {
                                crate::nodes::lemma_json_obj_dv(*em);
                                lemma_kv_get_has(em.deep_view(), "reference"@);
                            }
                            let has_ref = kv_lookup(em, "reference").is_some();
                            let loaded: Result<
                                Either<ParameterObject, ReusableObject>,
                                LoadError,
                            > = if has_ref {
                                match ReusableObject::try_from_json(&items[i]) {
                                    Ok(ro) => Ok(Either::Second(ro)),
                                    Err(e) => Err(e),
                                }
                            } else {
                                match ParameterObject::try_from_json(&items[i]) {
                                    Ok(p) => Ok(Either::First(p)),
                                    Err(e) => Err(e),
                                }
                            };
                            match loaded {
                                Ok(item) => {
                                    out.push(item);
                                    proof {
                                        crate::kv::lemma_deep_view_push(pre, out, item);
                                    }
                                },
                                Err(e) => {
                                    proof {
                                        lemma_load_items_err_persists(
                                            iv,
                                            i + 1,
                                            iv.len() as int,
                                            f,
                                        );
                                    }
                                    return Err(e);
                                },
                            }
                        },
                        _ => {},
                    }
                    i = i + 1;
                }
                Ok(out)
            },
            _ => Ok(out),
        },
        None => Ok(out),
    }
}

/// Loads a success-actions list, with the same discrimination rules.
pub fn json_load_success_actions(map: &JsonObject, key: &str) -> (r: Result<
    Vec<Either<SuccessObject, ReusableObject>>,
    LoadError,
>)
    ensures
        match r {
            Ok(v) => spec_load_success_actions(map.deep_view(), key@) == Ok::<
                Seq<Either<SuccessObjectV, ReusableObjectV>>,
                ErrV,
            >(v.deep_view()),
            Err(e) => spec_load_success_actions(map.deep_view(), key@) == Err::<
                Seq<Either<SuccessObjectV, ReusableObjectV>>,
                ErrV,
            >(e.deep_view()),
        },
{
    let ghost f = |v: JsonV| success_item(v);
    let mut out: Vec<Either<SuccessObject, ReusableObject>> = Vec::new();
    proof {
        assert(out.deep_view() =~= Seq::<Either<SuccessObjectV, ReusableObjectV>>::empty());
    }
    match kv_lookup(map, key) {
        Some(arr_node) => match arr_node {
            JsonNode::Arr(items) => {
                let ghost iv = arr_node.deep_view()->Arr_0;
                proof {
                    lemma_json_items_dv(items@, items@.len() as int);
                }
                let mut i: usize = 0;
                while i < items.len()
                    invariant
                        i <= items.len(),
                        iv.len() == items@.len(),
                        forall|k: int| 0 <= k < items@.len() ==> iv[k] == items@[k].deep_view(),
                        load_items(iv, i as int, f) == Ok::<
                            Seq<Either<SuccessObjectV, ReusableObjectV>>,
                            ErrV,
                        >(out.deep_view()),
                    decreases items.len() - i,
                {
                    let ghost pre = out;
                    match &items[i] {
                        JsonNode::Obj(em) => {
                            proof {
                                crate::nodes::lemma_json_obj_dv(*em);
                                lemma_kv_get_has(em.deep_view(), "reference"@);
                            }
                            let has_ref = kv_lookup(em, "reference").is_some();
                            let loaded: Result<
                                Either<SuccessObject, ReusableObject>,
                                LoadError,
                            > = if has_ref {
                                match ReusableObject::try_from_json(&items[i]) {
                                    Ok(ro) => Ok(Either::Second(ro)),
                                    Err(e) => Err(e),
                                }
                            } else {
                                match SuccessObject::try_from_json(&items[i]) {
                                    Ok(p) => Ok(Either::First(p)),
                                    Err(e) => Err(e),
                                }
                            };
                            match loaded {
                                Ok(item) => {
                                    out.push(item);
                                    proof {
                                        crate::kv::lemma_deep_view_push(pre, out, item);
                                    }
                                },
                                Err(e) => {
                                    proof {
                                        lemma_load_items_err_persists(
                                            iv,
                                            i + 1,
                                            iv.len() as int,
                                            f,
                                        );
                                    }
                                    return Err(e);
                                },
                            }
                        },
                        _ => {},
                    }
                    i = i + 1;
                }
                Ok(out)
            },
            _ => Ok(out),
        },
        None => Ok(out),
    }
}

/// Loads a failure-actions list, with the same discrimination rules.
pub fn json_load_failure_actions(map: &JsonObject, key: &str) -> (r: Result<
    Vec<Either<FailureObject, ReusableObject>>,
    LoadError,
>)
    ensures
        match r {
            Ok(v) => spec_load_failure_actions(map.deep_view(), key@) == Ok::<
                Seq<Either<FailureObjectV, ReusableObjectV>>,
                ErrV,
            >(v.deep_view()),
            Err(e) => spec_load_failure_actions(map.deep_view(), key@) == Err::<
                Seq<Either<FailureObjectV, ReusableObjectV>>,
                ErrV,
            >(e.deep_view()),
        },
{
    let ghost f = |v: JsonV| failure_item(v);
    let mut out: Vec<Either<FailureObject, ReusableObject>> = Vec::new();
    proof {
        assert(out.deep_view() =~= Seq::<Either<FailureObjectV, ReusableObjectV>>::empty());
    }
    match kv_lookup(map, key) {
        Some(arr_node) => match arr_node {
            JsonNode::Arr(items) => {
                let ghost iv = arr_node.deep_view()->Arr_0;
                proof {
                    lemma_json_items_dv(items@, items@.len() as int);
                }
                let mut i: usize = 0;
                while i < items.len()
                    invariant
                        i <= items.len(),
                        iv.len() == items@.len(),
                        forall|k: int| 0 <= k < items@.len() ==> iv[k] == items@[k].deep_view(),
                        load_items(iv, i as int, f) == Ok::<
                            Seq<Either<FailureObjectV, ReusableObjectV>>,
                            ErrV,
                        >(out.deep_view()),
                    decreases items.len() - i,
                {
                    let ghost pre = out;
                    match &items[i] {
                        JsonNode::Obj(em) => {
                            proof {
                                crate::nodes::lemma_json_obj_dv(*em);
                                lemma_kv_get_has(em.deep_view(), "reference"@);
                            }
                            let has_ref = kv_lookup(em, "reference").is_some();
                            let loaded: Result<
                                Either<FailureObject, ReusableObject>,
                                LoadError,
                            > = if has_ref {
                                match ReusableObject::try_from_json(&items[i]) {
                                    Ok(ro) => Ok(Either::Second(ro)),
                                    Err(e) => Err(e),
                                }
                            } else {
                                match FailureObject::try_from_json(&items[i]) {
                                    Ok(p) => Ok(Either::First(p)),
                                    Err(e) => Err(e),
                                }
                            };
                            match loaded {
                                Ok(item) => {
                                    out.push(item);
                                    proof {
                                        crate::kv::lemma_deep_view_push(pre, out, item);
                                    }
                                },
                                Err(e) => {
                                    proof {
                                        lemma_load_items_err_persists(
                                            iv,
                                            i + 1,
                                            iv.len() as int,
                                            f,
                                        );
                                    }
                                    return Err(e);
                                },
                            }
                        },
                        _ => {},
                    }
                    i = i + 1;
                }
                Ok(out)
            },
            _ => Ok(out),
        },
        None => Ok(out),
    }
}


/// What loading the optional `payload` field returns: absent stays
/// absent, null is the empty payload, a string is kept verbatim, and
/// any other node is captured structurally. This cannot fail.
pub open spec fn spec_load_payload(m: JsonObjectV) -> Option<PayloadV> {
    match kv_get(m, "payload"@) {
        None => None,
        Some(JsonV::Null) => Some(PayloadV::Empty),
        Some(JsonV::Str(s)) => Some(PayloadV::Text(s)),
        Some(v) => Some(PayloadV::Structured(v)),
    }
}

/// Loads the optional request-body payload.
pub fn json_load_payload(map: &JsonObject) -> (r: Option<Payload>)
    ensures
        match r {
            Some(p) => spec_load_payload(map.deep_view()) == Some(p.deep_view()),
            None => spec_load_payload(map.deep_view()) is None,
        },
{
    match kv_lookup(map, "payload") {
        None => None,
        Some(v) => match v {
            JsonNode::Null => Some(Payload::Empty(EmptyPayload)),
            JsonNode::Str(s) => Some(Payload::String(StringPayload(s.clone()))),
            _ => Some(Payload::Json(JsonPayload(v.clone()))),
        },
    }
}

/// What loading a Payload Replacement Object returns: `target` and the
/// two-shape `value` are required.
pub open spec fn spec_load_replacement(v: JsonV) -> Result<PayloadReplacementV, ErrV> {
    match v {
        JsonV::Obj(m) => match spec_require_string(m, "target"@, "4.6.14.1"@) {
            Err(e) => Err(e),
            Ok(target) => match spec_any_or_expression(m, "value"@) {
                Err(e) => Err(e),
                Ok(value) => Ok(
                    PayloadReplacementV {
                        target,
                        value,
                        extensions: spec_json_extract_extensions(m, m.len() as int),
                    },
                ),
            },
        },
        _ => Err(ErrV::WrongType("payloadReplacement"@, "Object"@, spec_json_type_name(v))),
    }
}

impl PayloadReplacement {
    /// Loads a Payload Replacement Object from a JSON-shaped node.
    pub fn try_from_json(n: &JsonNode) -> (r: Result<PayloadReplacement, LoadError>)
        ensures
            match r {
                Ok(v) => spec_load_replacement(n.deep_view()) == Ok::<PayloadReplacementV, ErrV>(
                    v.deep_view(),
                ),
                Err(e) => spec_load_replacement(n.deep_view()) == Err::<PayloadReplacementV, ErrV>(
                    e.deep_view(),
                ),
            },
    {
        match n {
            JsonNode::Obj(m) => {
                proof {
                    crate::nodes::lemma_json_obj_dv(*m);
                }
                match json_object_require_string(m, "target", "4.6.14.1") {
                    Err(e) => Err(e),
                    Ok(target) => match json_load_any_or_expression(m, "value") {
                        Err(e) => Err(e),
                        Ok(value) => Ok(
                            PayloadReplacement {
                                target,
                                value,
                                extensions: json_extract_extensions(m),
                            },
                        ),
                    },
                }
            },
            _ => Err(
                LoadError::WrongType(
                    "payloadReplacement".to_owned(),
                    "Object".to_owned(),
                    json_type_name(n),
                ),
            ),
        }
    }
}

/// The per-element conversion of a replacements list: every element
/// must load as a Payload Replacement.
pub open spec fn replacement_item(v: JsonV) -> Result<Option<PayloadReplacementV>, ErrV> {
    match spec_load_replacement(v) {
        Ok(p) => Ok(Some(p)),
        Err(e) => Err(e),
    }
}

/// What loading a replacements list returns: the array under
/// `replacements`, elementwise; an absent key or a non-array value
/// gives the empty list.
pub open spec fn spec_load_replacements(m: JsonObjectV) -> Result<Seq<PayloadReplacementV>, ErrV> {
    match kv_get(m, "replacements"@) {
        Some(JsonV::Arr(items)) => load_items(
            items,
            items.len() as int,
            |v: JsonV| replacement_item(v),
        ),
        _ => Ok(Seq::empty()),
    }
}

/// Loads the replacements list of a request body.
pub fn json_load_replacements(map: &JsonObject) -> (r: Result<Vec<PayloadReplacement>, LoadError>)
    ensures
        match r {
            Ok(v) => spec_load_replacements(map.deep_view()) == Ok::<
                Seq<PayloadReplacementV>,
                ErrV,
            >(v.deep_view()),
            Err(e) => spec_load_replacements(map.deep_view()) == Err::<
                Seq<PayloadReplacementV>,
                ErrV,
            >(e.deep_view()),
        },
{
    let ghost f = |v: JsonV| replacement_item(v);
    let mut out: Vec<PayloadReplacement> = Vec::new();
    proof {
        assert(out.deep_view() =~= Seq::<PayloadReplacementV>::empty());
    }
    match kv_lookup(map, "replacements") {
        Some(arr_node) => match arr_node {
            JsonNode::Arr(items) => {
                let ghost iv = arr_node.deep_view()->Arr_0;
                proof {
                    lemma_json_items_dv(items@, items@.len() as int);
                }
                let mut i: usize = 0;
                while i < items.len()
                    invariant
                        i <= items.len(),
                        iv.len() == items@.len(),
                        forall|k: int| 0 <= k < items@.len() ==> iv[k] == items@[k].deep_view(),
                        load_items(iv, i as int, f) == Ok::<Seq<PayloadReplacementV>, ErrV>(
                            out.deep_view(),
                        ),
                    decreases items.len() - i,
                {
                    let ghost pre = out;
                    match PayloadReplacement::try_from_json(&items[i]) {
                        Ok(p) => {
                            out.push(p);
                            proof {
                                crate::kv::lemma_deep_view_push(pre, out, p);
                            }
                        },
                        Err(e) => {
                            proof {
                                lemma_load_items_err_persists(iv, i + 1, iv.len() as int, f);
                            }
                            return Err(e);
                        },
                    }
                    i = i + 1;
                }
                Ok(out)
            },
            _ => Ok(out),
        },
        None => Ok(out),
    }
}

/// What loading a Request Body Object returns: everything is optional;
/// only a bad replacements list can reject it.
pub open spec fn spec_load_request_body(v: JsonV) -> Result<RequestBodyV, ErrV> {
    match v {
        JsonV::Obj(m) => match spec_load_replacements(m) {
            Err(e) => Err(e),
            Ok(replacements) => Ok(
                RequestBodyV {
                    content_type: spec_lookup_string(m, "contentType"@),
                    payload: spec_load_payload(m),
                    replacements,
                    extensions: spec_json_extract_extensions(m, m.len() as int),
                },
            ),
        },
        _ => Err(ErrV::WrongType("requestBody"@, "Object"@, spec_json_type_name(v))),
    }
}

impl RequestBody {
    /// Loads a Request Body Object from a JSON-shaped node.
    pub fn try_from_json(n: &JsonNode) -> (r: Result<RequestBody, LoadError>)
        ensures
            match r {
                Ok(v) => spec_load_request_body(n.deep_view()) == Ok::<RequestBodyV, ErrV>(
                    v.deep_view(),
                ),
                Err(e) => spec_load_request_body(n.deep_view()) == Err::<RequestBodyV, ErrV>(
                    e.deep_view(),
                ),
            },
    {
        match n {
            JsonNode::Obj(m) => {
                proof {
                    crate::nodes::lemma_json_obj_dv(*m);
                }
                match json_load_replacements(m) {
                    Err(e) => Err(e),
                    Ok(replacements) => Ok(
                        RequestBody {
                            content_type: json_object_lookup_string(m, "contentType"),
                            payload: json_load_payload(m),
                            replacements,
                            extensions: json_extract_extensions(m),
                        },
                    ),
                }
            },
            _ => Err(
                LoadError::WrongType(
                    "requestBody".to_owned(),
                    "Object".to_owned(),
                    json_type_name(n),
                ),
            ),
        }
    }
}

/// What loading a Step Object returns: `stepId` is required, and any
/// of the nested lists or the request body can reject it, in the
/// order the fields are read.
pub open spec fn spec_load_step(v: JsonV) -> Result<StepV, ErrV> {
    match v {
        JsonV::Obj(m) => match spec_require_string(m, "stepId"@, "4.6.5.1"@) {
            Err(e) => Err(e),
            Ok(step_id) => match spec_load_parameters(m, "parameters"@) {
                Err(e) => Err(e),
                Ok(parameters) => match (match kv_get(m, "requestBody"@) {
                    None => Ok(None),
                    Some(rb) => match spec_load_request_body(rb) {
                        Err(e) => Err(e),
                        Ok(b) => Ok(Some(b)),
                    },
                }) {
                    Err(e) => Err(e),
                    Ok(request_body) => match spec_load_success_actions(m, "onSuccess"@) {
                        Err(e) => Err(e),
                        Ok(on_success) => match spec_load_criteria(m, "successCriteria"@) {
                            Err(e) => Err(e),
                            Ok(success_criteria) => match spec_load_failure_actions(
                                m,
                                "onFailure"@,
                            ) {
                                Err(e) => Err(e),
                                Ok(on_failure) => Ok(
                                    StepV {
                                        step_id,
                                        operation_id: spec_lookup_string(m, "operationId"@),
                                        operation_path: spec_lookup_string(m, "operationPath"@),
                                        workflow_id: spec_lookup_string(m, "workflowId"@),
                                        description: spec_lookup_string(m, "description"@),
                                        parameters,
                                        request_body,
                                        success_criteria,
                                        on_success,
                                        on_failure,
                                        outputs: spec_load_outputs(m),
                                        extensions: spec_json_extract_extensions(
                                            m,
                                            m.len() as int,
                                        ),
                                    },
                                ),
                            },
                        },
                    },
                },
            },
        },
        _ => Err(ErrV::WrongType("step"@, "Object"@, spec_json_type_name(v))),
    }
}

impl Step {
    /// Loads a Step Object from a JSON-shaped node.
    pub fn try_from_json(n: &JsonNode) -> (r: Result<Step, LoadError>)
        ensures
            match r {
                Ok(v) => spec_load_step(n.deep_view()) == Ok::<StepV, ErrV>(v.deep_view()),
                Err(e) => spec_load_step(n.deep_view()) == Err::<StepV, ErrV>(e.deep_view()),
            },
    {
        match n {
            JsonNode::Obj(m) => {
                proof {
                    crate::nodes::lemma_json_obj_dv(*m);
                }
                match json_object_require_string(m, "stepId", "4.6.5.1") {
                    Err(e) => Err(e),
                    Ok(step_id) => match json_load_parameters(m, "parameters") {
                        Err(e) => Err(e),
                        Ok(parameters) => {
                            let request_body: Option<RequestBody> = match kv_lookup(
                                m,
                                "requestBody",
                            ) {
                                None => None,
                                Some(rb) => match RequestBody::try_from_json(rb) {
                                    Err(e) => {
                                        return Err(e);
                                    },
                                    Ok(b) => Some(b),
                                },
                            };
                            match json_load_success_actions(m, "onSuccess") {
                                Err(e) => Err(e),
                                Ok(on_success) => match json_load_criteria(m, "successCriteria") {
                                    Err(e) => Err(e),
                                    Ok(success_criteria) => match json_load_failure_actions(
                                        m,
                                        "onFailure",
                                    ) {
                                        Err(e) => Err(e),
                                        Ok(on_failure) => Ok(
                                            Step {
                                                step_id,
                                                operation_id: json_object_lookup_string(
                                                    m,
                                                    "operationId",
                                                ),
                                                operation_path: json_object_lookup_string(
                                                    m,
                                                    "operationPath",
                                                ),
                                                workflow_id: json_object_lookup_string(
                                                    m,
                                                    "workflowId",
                                                ),
                                                description: json_object_lookup_string(
                                                    m,
                                                    "description",
                                                ),
                                                parameters,
                                                request_body,
                                                success_criteria,
                                                on_success,
                                                on_failure,
                                                outputs: json_load_outputs(m),
                                                extensions: json_extract_extensions(m),
                                            },
                                        ),
                                    },
                                },
                            }
                        },
                    },
                }
            },
            _ => Err(
                LoadError::WrongType("step".to_owned(), "Object".to_owned(), json_type_name(n)),
            ),
        }
    }
}

/// The per-element conversion of a steps list: every element must
/// load as a Step.
pub open spec fn step_item(v: JsonV) -> Result<Option<StepV>, ErrV> {
    match spec_load_step(v) {
        Ok(st) => Ok(Some(st)),
        Err(e) => Err(e),
    }
}

/// What loading the steps list returns: the list is required and must
/// have at least one entry.
pub open spec fn spec_load_steps(m: JsonObjectV) -> Result<Seq<StepV>, ErrV> {
    match kv_get(m, "steps"@) {
        None => Err(ErrV::EmptyRequiredList("steps"@, "4.6.4.1"@)),
        Some(JsonV::Arr(items)) => if items.len() == 0 {
            Err(ErrV::EmptyRequiredList("steps"@, "4.6.4.1"@))
        } else {
            load_items(items, items.len() as int, |v: JsonV| step_item(v))
        },
        Some(v) => Err(ErrV::WrongType("steps"@, "Array"@, spec_json_type_name(v))),
    }
}

/// Loads the required non-empty steps list of a workflow.
pub fn json_load_steps(map: &JsonObject) -> (r: Result<Vec<Step>, LoadError>)
    ensures
        match r {
            Ok(v) => spec_load_steps(map.deep_view()) == Ok::<Seq<StepV>, ErrV>(v.deep_view()),
            Err(e) => spec_load_steps(map.deep_view()) == Err::<Seq<StepV>, ErrV>(e.deep_view()),
        },
{
    let ghost f = |v: JsonV| step_item(v);
    match kv_lookup(map, "steps") {
        None => Err(
            LoadError::EmptyRequiredList("steps".to_owned(), "4.6.4.1".to_owned()),
        ),
        Some(arr_node) => match arr_node {
            JsonNode::Arr(items) => {
                if items.len() == 0 {
                    return Err(
                        LoadError::EmptyRequiredList("steps".to_owned(), "4.6.4.1".to_owned()),
                    );
                }
                let ghost iv = arr_node.deep_view()->Arr_0;
                proof {
                    lemma_json_items_dv(items@, items@.len() as int);
                }
                let mut out: Vec<Step> = Vec::new();
                proof {
                    assert(out.deep_view() =~= Seq::<StepV>::empty());
                }
                let mut i: usize = 0;
                while i < items.len()
                    invariant
                        i <= items.len(),
                        iv.len() == items@.len(),
                        iv.len() > 0,
                        forall|k: int| 0 <= k < items@.len() ==> iv[k] == items@[k].deep_view(),
                        load_items(iv, i as int, f) == Ok::<Seq<StepV>, ErrV>(out.deep_view()),
                    decreases items.len() - i,
                {
                    let ghost pre = out;
                    match Step::try_from_json(&items[i]) {
                        Ok(st) => {
                            out.push(st);
                            proof {
                                crate::kv::lemma_deep_view_push(pre, out, st);
                            }
                        },
                        Err(e) => {
                            proof {
                                lemma_load_items_err_persists(iv, i + 1, iv.len() as int, f);
                            }
                            return Err(e);
                        },
                    }
                    i = i + 1;
                }
                Ok(out)
            },
            _ => Err(
                LoadError::WrongType(
                    "steps".to_owned(),
                    "Array".to_owned(),
                    json_type_name(arr_node),
                ),
            ),
        },
    }
}

/// What loading a Workflow Object returns: `workflowId` is required,
/// the steps list is required and non-empty, and the nested lists can
/// reject it, in the order the fields are read.
pub open spec fn spec_load_workflow(v: JsonV) -> Result<WorkflowV, ErrV> {
    match v {
        JsonV::Obj(m) => match spec_require_string(m, "workflowId"@, "4.6.4.1"@) {
            Err(e) => Err(e),
            Ok(workflow_id) => match spec_load_steps(m) {
                Err(e) => Err(e),
                Ok(steps) => match spec_load_success_actions(m, "successActions"@) {
                    Err(e) => Err(e),
                    Ok(success_actions) => match spec_load_failure_actions(m, "failureActions"@) {
                        Err(e) => Err(e),
                        Ok(failure_actions) => match spec_load_parameters(m, "parameters"@) {
                            Err(e) => Err(e),
                            Ok(parameters) => Ok(
                                WorkflowV {
                                    workflow_id,
                                    summary: spec_lookup_string(m, "summary"@),
                                    description: spec_lookup_string(m, "description"@),
                                    inputs: match kv_get(m, "inputs"@) {
                                        Some(inp) => inp,
                                        None => JsonV::Null,
                                    },
                                    depends_on: match spec_lookup_string_list(m, "dependsOn"@) {
                                        Some(list) => list,
                                        None => Seq::empty(),
                                    },
                                    steps,
                                    success_actions,
                                    failure_actions,
                                    outputs: spec_load_outputs(m),
                                    parameters,
                                    extensions: spec_json_extract_extensions(m, m.len() as int),
                                },
                            ),
                        },
                    },
                },
            },
        },
        _ => Err(ErrV::WrongType("workflow"@, "Object"@, spec_json_type_name(v))),
    }
}

impl Workflow {
    /// Loads a Workflow Object from a JSON-shaped node.
    pub fn try_from_json(n: &JsonNode) -> (r: Result<Workflow, LoadError>)
        ensures
            match r {
                Ok(v) => spec_load_workflow(n.deep_view()) == Ok::<WorkflowV, ErrV>(v.deep_view()),
                Err(e) => spec_load_workflow(n.deep_view()) == Err::<WorkflowV, ErrV>(
                    e.deep_view(),
                ),
            },
    {
        match n {
            JsonNode::Obj(m) => {
                proof {
                    crate::nodes::lemma_json_obj_dv(*m);
                }
                match json_object_require_string(m, "workflowId", "4.6.4.1") {
                    Err(e) => Err(e),
                    Ok(workflow_id) => match json_load_steps(m) {
                        Err(e) => Err(e),
                        Ok(steps) => match json_load_success_actions(m, "successActions") {
                            Err(e) => Err(e),
                            Ok(success_actions) => match json_load_failure_actions(
                                m,
                                "failureActions",
                            ) {
                                Err(e) => Err(e),
                                Ok(failure_actions) => match json_load_parameters(
                                    m,
                                    "parameters",
                                ) {
                                    Err(e) => Err(e),
                                    Ok(parameters) => Ok(
                                        Workflow {
                                            workflow_id,
                                            summary: json_object_lookup_string(m, "summary"),
                                            description: json_object_lookup_string(
                                                m,
                                                "description",
                                            ),
                                            inputs: match kv_lookup(m, "inputs") {
                                                Some(inp) => inp.clone(),
                                                None => JsonNode::Null,
                                            },
                                            depends_on: match json_object_lookup_string_list(
                                                m,
                                                "dependsOn",
                                            ) {
                                                Some(list) => list,
                                                None => {
                                                    let v: Vec<String> = Vec::new();
                                                    proof {
                                                        assert(v.deep_view() =~= Seq::<
                                                            Seq<char>,
                                                        >::empty());
                                                    }
                                                    v
                                                },
                                            },
                                            steps,
                                            success_actions,
                                            failure_actions,
                                            outputs: json_load_outputs(m),
                                            parameters,
                                            extensions: json_extract_extensions(m),
                                        },
                                    ),
                                },
                            },
                        },
                    },
                }
            },
            _ => Err(
                LoadError::WrongType(
                    "workflow".to_owned(),
                    "Object".to_owned(),
                    json_type_name(n),
                ),
            ),
        }
    }
}

/// What loading a Source Description Object returns: `name` and `url`
/// are both required.
pub open spec fn spec_load_source_description(v: JsonV) -> Result<SourceDescriptionV, ErrV> {
    match v {
        JsonV::Obj(m) => match spec_require_string(m, "name"@, "4.6.3.1"@) {
            Err(e) => Err(e),
            Ok(name) => match spec_require_string(m, "url"@, "4.6.3.1"@) {
                Err(e) => Err(e),
                Ok(url) => Ok(
                    SourceDescriptionV {
                        name,
                        url,
                        type_: spec_lookup_string(m, "type"@),
                        extensions: spec_json_extract_extensions(m, m.len() as int),
                    },
                ),
            },
        },
        _ => Err(ErrV::WrongType("sourceDescription"@, "Object"@, spec_json_type_name(v))),
    }
}

impl SourceDescription {
    /// Loads a Source Description Object from a JSON-shaped node.
    pub fn try_from_json(n: &JsonNode) -> (r: Result<SourceDescription, LoadError>)
        ensures
            match r {
                Ok(v) => spec_load_source_description(n.deep_view()) == Ok::<
                    SourceDescriptionV,
                    ErrV,
                >(v.deep_view()),
                Err(e) => spec_load_source_description(n.deep_view()) == Err::<
                    SourceDescriptionV,
                    ErrV,
                >(e.deep_view()),
            },
    {
        match n {
            JsonNode::Obj(m) => {
                proof {
                    crate::nodes::lemma_json_obj_dv(*m);
                }
                match json_object_require_string(m, "name", "4.6.3.1") {
                    Err(e) => Err(e),
                    Ok(name) => match json_object_require_string(m, "url", "4.6.3.1") {
                        Err(e) => Err(e),
                        Ok(url) => Ok(
                            SourceDescription {
                                name,
                                url,
                                type_: json_object_lookup_string(m, "type"),
                                extensions: json_extract_extensions(m),
                            },
                        ),
                    },
                }
            },
            _ => Err(
                LoadError::WrongType(
                    "sourceDescription".to_owned(),
                    "Object".to_owned(),
                    json_type_name(n),
                ),
            ),
        }
    }
}

/// The per-element conversion of the source-descriptions list.
pub open spec fn source_description_item(v: JsonV) -> Result<Option<SourceDescriptionV>, ErrV> {
    match spec_load_source_description(v) {
        Ok(sd) => Ok(Some(sd)),
        Err(e) => Err(e),
    }
}

/// What loading the source-descriptions list returns: the list is
/// required and must have at least one entry.
pub open spec fn spec_load_source_descriptions(m: JsonObjectV) -> Result<
    Seq<SourceDescriptionV>,
    ErrV,
> {
    match kv_get(m, "sourceDescriptions"@) {
        None => Err(ErrV::EmptyRequiredList("sourceDescriptions"@, "4.6.1.1"@)),
        Some(JsonV::Arr(items)) => if items.len() == 0 {
            Err(ErrV::EmptyRequiredList("sourceDescriptions"@, "4.6.1.1"@))
        } else {
            load_items(items, items.len() as int, |v: JsonV| source_description_item(v))
        },
        Some(v) => Err(
            ErrV::WrongType("sourceDescriptions"@, "Array"@, spec_json_type_name(v)),
        ),
    }
}

/// Loads the required non-empty source-descriptions list.
pub fn json_load_source_descriptions(map: &JsonObject) -> (r: Result<
    Vec<SourceDescription>,
    LoadError,
>)
    ensures
        match r {
            Ok(v) => spec_load_source_descriptions(map.deep_view()) == Ok::<
                Seq<SourceDescriptionV>,
                ErrV,
            >(v.deep_view()),
            Err(e) => spec_load_source_descriptions(map.deep_view()) == Err::<
                Seq<SourceDescriptionV>,
                ErrV,
            >(e.deep_view()),
        },
{
    let ghost f = |v: JsonV| source_description_item(v);
    match kv_lookup(map, "sourceDescriptions") {
        None => Err(
            LoadError::EmptyRequiredList("sourceDescriptions".to_owned(), "4.6.1.1".to_owned()),
        ),
        Some(arr_node) => match arr_node {
            JsonNode::Arr(items) => {
                if items.len() == 0 {
                    return Err(
                        LoadError::EmptyRequiredList(
                            "sourceDescriptions".to_owned(),
                            "4.6.1.1".to_owned(),
                        ),
                    );
                }
                let ghost iv = arr_node.deep_view()->Arr_0;
                proof {
                    lemma_json_items_dv(items@, items@.len() as int);
                }
                let mut out: Vec<SourceDescription> = Vec::new();
                proof {
                    assert(out.deep_view() =~= Seq::<SourceDescriptionV>::empty());
                }
                let mut i: usize = 0;
                while i < items.len()
                    invariant
                        i <= items.len(),
                        iv.len() == items@.len(),
                        iv.len() > 0,
                        forall|k: int| 0 <= k < items@.len() ==> iv[k] == items@[k].deep_view(),
                        load_items(iv, i as int, f) == Ok::<Seq<SourceDescriptionV>, ErrV>(
                            out.deep_view(),
                        ),
                    decreases items.len() - i,
                {
                    let ghost pre = out;
                    match SourceDescription::try_from_json(&items[i]) {
                        Ok(sd) => {
                            out.push(sd);
                            proof {
                                crate::kv::lemma_deep_view_push(pre, out, sd);
                            }
                        },
                        Err(e) => {
                            proof {
                                lemma_load_items_err_persists(iv, i + 1, iv.len() as int, f);
                            }
                            return Err(e);
                        },
                    }
                    i = i + 1;
                }
                Ok(out)
            },
            _ => Err(
                LoadError::WrongType(
                    "sourceDescriptions".to_owned(),
                    "Array".to_owned(),
                    json_type_name(arr_node),
                ),
            ),
        },
    }
}

/// The per-element conversion of the workflows list.
pub open spec fn workflow_item(v: JsonV) -> Result<Option<WorkflowV>, ErrV> {
    match spec_load_workflow(v) {
        Ok(w) => Ok(Some(w)),
        Err(e) => Err(e),
    }
}

/// What loading the workflows list returns: the list is required and
/// must have at least one entry.
pub open spec fn spec_load_workflows(m: JsonObjectV) -> Result<Seq<WorkflowV>, ErrV> {
    match kv_get(m, "workflows"@) {
        None => Err(ErrV::EmptyRequiredList("workflows"@, "4.6.1.1"@)),
        Some(JsonV::Arr(items)) => if items.len() == 0 {
            Err(ErrV::EmptyRequiredList("workflows"@, "4.6.1.1"@))
        } else {
            load_items(items, items.len() as int, |v: JsonV| workflow_item(v))
        },
        Some(v) => Err(ErrV::WrongType("workflows"@, "Array"@, spec_json_type_name(v))),
    }
}

/// Loads the required non-empty workflows list.
pub fn json_load_workflows(map: &JsonObject) -> (r: Result<Vec<Workflow>, LoadError>)
    ensures
        match r {
            Ok(v) => spec_load_workflows(map.deep_view()) == Ok::<Seq<WorkflowV>, ErrV>(
                v.deep_view(),
            ),
            Err(e) => spec_load_workflows(map.deep_view()) == Err::<Seq<WorkflowV>, ErrV>(
                e.deep_view(),
            ),
        },
{
    let ghost f = |v: JsonV| workflow_item(v);
    match kv_lookup(map, "workflows") {
        None => Err(
            LoadError::EmptyRequiredList("workflows".to_owned(), "4.6.1.1".to_owned()),
        ),
        Some(arr_node) => match arr_node {
            JsonNode::Arr(items) => {
                if items.len() == 0 {
                    return Err(
                        LoadError::EmptyRequiredList("workflows".to_owned(), "4.6.1.1".to_owned()),
                    );
                }
                let ghost iv = arr_node.deep_view()->Arr_0;
                proof {
                    lemma_json_items_dv(items@, items@.len() as int);
                }
                let mut out: Vec<Workflow> = Vec::new();
                proof {
                    assert(out.deep_view() =~= Seq::<WorkflowV>::empty());
                }
                let mut i: usize = 0;
                while i < items.len()
                    invariant
                        i <= items.len(),
                        iv.len() == items@.len(),
                        iv.len() > 0,
                        forall|k: int| 0 <= k < items@.len() ==> iv[k] == items@[k].deep_view(),
                        load_items(iv, i as int, f) == Ok::<Seq<WorkflowV>, ErrV>(
                            out.deep_view(),
                        ),
                    decreases items.len() - i,
                {
                    let ghost pre = out;
                    match Workflow::try_from_json(&items[i]) {
                        Ok(w) => {
                            out.push(w);
                            proof {
                                crate::kv::lemma_deep_view_push(pre, out, w);
                            }
                        },
                        Err(e) => {
                            proof {
                                lemma_load_items_err_persists(iv, i + 1, iv.len() as int, f);
                            }
                            return Err(e);
                        },
                    }
                    i = i + 1;
                }
                Ok(out)
            },
            _ => Err(
                LoadError::WrongType(
                    "workflows".to_owned(),
                    "Array".to_owned(),
                    json_type_name(arr_node),
                ),
            ),
        },
    }
}

/// The reusable-inputs mapping of a components object: every entry of
/// the object under `inputs`, kept as trees, merged by key.
pub open spec fn spec_components_inputs(entries: JsonObjectV, n: int) -> Seq<(Seq<char>, JsonV)>
    decreases n,
{
    if n <= 0 || n > entries.len() {
        Seq::empty()
    } else {
        kv_upsert(spec_components_inputs(entries, n - 1), entries[n - 1])
    }
}

/// What loading a Components Object returns. A non-object node gives
/// the empty components element; a bad nested entry rejects it.
pub open spec fn spec_load_components(v: JsonV) -> Result<ComponentsV, ErrV> {
    match v {
        JsonV::Obj(m) => {
            let inputs = match kv_get(m, "inputs"@) {
                Some(JsonV::Obj(entries)) => spec_components_inputs(entries, entries.len() as int),
                _ => Seq::empty(),
            };
            match (match kv_get(m, "parameters"@) {
                Some(JsonV::Obj(entries)) => load_kv_items(
                    entries,
                    entries.len() as int,
                    |v: JsonV| spec_load_parameter(v),
                ),
                _ => Ok(Seq::empty()),
            }) {
                Err(e) => Err(e),
                Ok(parameters) => match (match kv_get(m, "successActions"@) {
                    Some(JsonV::Obj(entries)) => load_kv_items(
                        entries,
                        entries.len() as int,
                        |v: JsonV| spec_load_success(v),
                    ),
                    _ => Ok(Seq::empty()),
                }) {
                    Err(e) => Err(e),
                    Ok(success_actions) => match (match kv_get(m, "failureActions"@) {
                        Some(JsonV::Obj(entries)) => load_kv_items(
                            entries,
                            entries.len() as int,
                            |v: JsonV| spec_load_failure(v),
                        ),
                        _ => Ok(Seq::empty()),
                    }) {
                        Err(e) => Err(e),
                        Ok(failure_actions) => Ok(
                            ComponentsV {
                                inputs,
                                parameters,
                                success_actions,
                                failure_actions,
                                extensions: spec_json_extract_extensions(m, m.len() as int),
                            },
                        ),
                    },
                },
            }
        },
        _ => Ok(
            ComponentsV {
                inputs: Seq::empty(),
                parameters: Seq::empty(),
                success_actions: Seq::empty(),
                failure_actions: Seq::empty(),
                extensions: Seq::empty(),
            },
        ),
    }
}

impl Components {
    /// Loads a Components Object from a JSON-shaped node; a non-object
    /// node gives the empty components element.
    pub fn try_from_json(n: &JsonNode) -> (r: Result<Components, LoadError>)
        ensures
            match r {
                Ok(v) => spec_load_components(n.deep_view()) == Ok::<ComponentsV, ErrV>(
                    v.deep_view(),
                ),
                Err(e) => spec_load_components(n.deep_view()) == Err::<ComponentsV, ErrV>(
                    e.deep_view(),
                ),
            },
    {
        match n {
            JsonNode::Obj(m) => {
                proof {
                    crate::nodes::lemma_json_obj_dv(*m);
                }
                let mut inputs: Vec<(String, JsonNode)> = Vec::new();
                proof {
                    assert(inputs.deep_view() =~= Seq::<(Seq<char>, JsonV)>::empty());
                }
                match kv_lookup(m, "inputs") {
                    Some(obj_node) => match obj_node {
                        JsonNode::Obj(entries) => {
                            let ghost ev = obj_node.deep_view()->Obj_0;
                            proof {
                                lemma_json_entries_dv(entries@, entries@.len() as int);
                            }
                            let mut i: usize = 0;
                            while i < entries.len()
                                invariant
                                    i <= entries.len(),
                                    ev.len() == entries@.len(),
                                    forall|k: int|
                                        0 <= k < entries@.len() ==> ev[k] == (
                                            entries@[k].0@,
                                            entries@[k].1.deep_view(),
                                        ),
                                    inputs.deep_view() == spec_components_inputs(ev, i as int),
                                decreases entries.len() - i,
                            {
                                let key = entries[i].0.clone();
                                let val = entries[i].1.clone();
                                kv_upsert_exec(&mut inputs, key, val);
                                i = i + 1;
                            }
                        },
                        _ => {},
                    },
                    None => {},
                }
                let parameters = match components_parameter_map(m) {
                    Err(e) => {
                        return Err(e);
                    },
                    Ok(p) => p,
                };
                let success_actions = match components_success_map(m) {
                    Err(e) => {
                        return Err(e);
                    },
                    Ok(p) => p,
                };
                let failure_actions = match components_failure_map(m) {
                    Err(e) => {
                        return Err(e);
                    },
                    Ok(p) => p,
                };
                Ok(
                    Components {
                        inputs,
                        parameters,
                        success_actions,
                        failure_actions,
                        extensions: json_extract_extensions(m),
                    },
                )
            },
            _ => Ok(Components::default()),
        }
    }
}

/// Loads the reusable-parameters mapping of a components object.
fn components_parameter_map(m: &JsonObject) -> (r: Result<
    Vec<(String, ParameterObject)>,
    LoadError,
>)
    ensures
        match r {
            Ok(v) => (match kv_get(m.deep_view(), "parameters"@) {
                Some(JsonV::Obj(entries)) => load_kv_items(
                    entries,
                    entries.len() as int,
                    |x: JsonV| spec_load_parameter(x),
                ),
                _ => Ok(Seq::empty()),
            }) == Ok::<Seq<(Seq<char>, ParameterObjectV)>, ErrV>(v.deep_view()),
            Err(e) => (match kv_get(m.deep_view(), "parameters"@) {
                Some(JsonV::Obj(entries)) => load_kv_items(
                    entries,
                    entries.len() as int,
                    |x: JsonV| spec_load_parameter(x),
                ),
                _ => Ok(Seq::empty()),
            }) == Err::<Seq<(Seq<char>, ParameterObjectV)>, ErrV>(e.deep_view()),
        },
{
    let ghost f = |x: JsonV| spec_load_parameter(x);
    let mut out: Vec<(String, ParameterObject)> = Vec::new();
    proof {
        assert(out.deep_view() =~= Seq::<(Seq<char>, ParameterObjectV)>::empty());
    }
    match kv_lookup(m, "parameters") {
        Some(obj_node) => match obj_node {
            JsonNode::Obj(entries) => {
                let ghost ev = obj_node.deep_view()->Obj_0;
                proof {
                    lemma_json_entries_dv(entries@, entries@.len() as int);
                }
                let mut i: usize = 0;
                while i < entries.len()
                    invariant
                        i <= entries.len(),
                        ev.len() == entries@.len(),
                        forall|k: int|
                            0 <= k < entries@.len() ==> ev[k] == (
                                entries@[k].0@,
                                entries@[k].1.deep_view(),
                            ),
                        load_kv_items(ev, i as int, f) == Ok::<
                            Seq<(Seq<char>, ParameterObjectV)>,
                            ErrV,
                        >(out.deep_view()),
                    decreases entries.len() - i,
                {
                    let key = entries[i].0.clone();
                    match ParameterObject::try_from_json(&entries[i].1) {
                        Ok(p) => {
                            kv_upsert_exec(&mut out, key, p);
                        },
                        Err(e) => {
                            proof {
                                lemma_load_kv_items_err_persists(ev, i + 1, ev.len() as int, f);
                            }
                            return Err(e);
                        },
                    }
                    i = i + 1;
                }
                Ok(out)
            },
            _ => Ok(out),
        },
        None => Ok(out),
    }
}

/// Loads the reusable-success-actions mapping of a components object.
fn components_success_map(m: &JsonObject) -> (r: Result<Vec<(String, SuccessObject)>, LoadError>)
    ensures
        match r {
            Ok(v) => (match kv_get(m.deep_view(), "successActions"@) {
                Some(JsonV::Obj(entries)) => load_kv_items(
                    entries,
                    entries.len() as int,
                    |x: JsonV| spec_load_success(x),
                ),
                _ => Ok(Seq::empty()),
            }) == Ok::<Seq<(Seq<char>, SuccessObjectV)>, ErrV>(v.deep_view()),
            Err(e) => (match kv_get(m.deep_view(), "successActions"@) {
                Some(JsonV::Obj(entries)) => load_kv_items(
                    entries,
                    entries.len() as int,
                    |x: JsonV| spec_load_success(x),
                ),
                _ => Ok(Seq::empty()),
            }) == Err::<Seq<(Seq<char>, SuccessObjectV)>, ErrV>(e.deep_view()),
        },
{
    let ghost f = |x: JsonV| spec_load_success(x);
    let mut out: Vec<(String, SuccessObject)> = Vec::new();
    proof {
        assert(out.deep_view() =~= Seq::<(Seq<char>, SuccessObjectV)>::empty());
    }
    match kv_lookup(m, "successActions") {
        Some(obj_node) => match obj_node {
            JsonNode::Obj(entries) => {
                let ghost ev = obj_node.deep_view()->Obj_0;
                proof {
                    lemma_json_entries_dv(entries@, entries@.len() as int);
                }
                let mut i: usize = 0;
                while i < entries.len()
                    invariant
                        i <= entries.len(),
                        ev.len() == entries@.len(),
                        forall|k: int|
                            0 <= k < entries@.len() ==> ev[k] == (
                                entries@[k].0@,
                                entries@[k].1.deep_view(),
                            ),
                        load_kv_items(ev, i as int, f) == Ok::<
                            Seq<(Seq<char>, SuccessObjectV)>,
                            ErrV,
                        >(out.deep_view()),
                    decreases entries.len() - i,
                {
                    let key = entries[i].0.clone();
                    match SuccessObject::try_from_json(&entries[i].1) {
                        Ok(p) => {
                            kv_upsert_exec(&mut out, key, p);
                        },
                        Err(e) => {
                            proof {
                                lemma_load_kv_items_err_persists(ev, i + 1, ev.len() as int, f);
                            }
                            return Err(e);
                        },
                    }
                    i = i + 1;
                }
                Ok(out)
            },
            _ => Ok(out),
        },
        None => Ok(out),
    }
}

/// Loads the reusable-failure-actions mapping of a components object.
fn components_failure_map(m: &JsonObject) -> (r: Result<Vec<(String, FailureObject)>, LoadError>)
    ensures
        match r {
            Ok(v) => (match kv_get(m.deep_view(), "failureActions"@) {
                Some(JsonV::Obj(entries)) => load_kv_items(
                    entries,
                    entries.len() as int,
                    |x: JsonV| spec_load_failure(x),
                ),
                _ => Ok(Seq::empty()),
            }) == Ok::<Seq<(Seq<char>, FailureObjectV)>, ErrV>(v.deep_view()),
            Err(e) => (match kv_get(m.deep_view(), "failureActions"@) {
                Some(JsonV::Obj(entries)) => load_kv_items(
                    entries,
                    entries.len() as int,
                    |x: JsonV| spec_load_failure(x),
                ),
                _ => Ok(Seq::empty()),
            }) == Err::<Seq<(Seq<char>, FailureObjectV)>, ErrV>(e.deep_view()),
        },
{
    let ghost f = |x: JsonV| spec_load_failure(x);
    let mut out: Vec<(String, FailureObject)> = Vec::new();
    proof {
        assert(out.deep_view() =~= Seq::<(Seq<char>, FailureObjectV)>::empty());
    }
    match kv_lookup(m, "failureActions") {
        Some(obj_node) => match obj_node {
            JsonNode::Obj(entries) => {
                let ghost ev = obj_node.deep_view()->Obj_0;
                proof {
                    lemma_json_entries_dv(entries@, entries@.len() as int);
                }
                let mut i: usize = 0;
                while i < entries.len()
                    invariant
                        i <= entries.len(),
                        ev.len() == entries@.len(),
                        forall|k: int|
                            0 <= k < entries@.len() ==> ev[k] == (
                                entries@[k].0@,
                                entries@[k].1.deep_view(),
                            ),
                        load_kv_items(ev, i as int, f) == Ok::<
                            Seq<(Seq<char>, FailureObjectV)>,
                            ErrV,
                        >(out.deep_view()),
                    decreases entries.len() - i,
                {
                    let key = entries[i].0.clone();
                    match FailureObject::try_from_json(&entries[i].1) {
                        Ok(p) => {
                            kv_upsert_exec(&mut out, key, p);
                        },
                        Err(e) => {
                            proof {
                                lemma_load_kv_items_err_persists(ev, i + 1, ev.len() as int, f);
                            }
                            return Err(e);
                        },
                    }
                    i = i + 1;
                }
                Ok(out)
            },
            _ => Ok(out),
        },
        None => Ok(out),
    }
}

/// What loading an Info Object returns: `title` and `version` are
/// both required.
pub open spec fn spec_load_info(v: JsonV) -> Result<InfoV, ErrV> {
    match v {
        JsonV::Obj(m) => match spec_require_string(m, "title"@, "4.6.2.1"@) {
            Err(e) => Err(e),
            Ok(title) => match spec_require_string(m, "version"@, "4.6.2.1"@) {
                Err(e) => Err(e),
                Ok(version) => Ok(
                    InfoV {
                        title,
                        summary: spec_lookup_string(m, "summary"@),
                        description: spec_lookup_string(m, "description"@),
                        version,
                        extensions: spec_json_extract_extensions(m, m.len() as int),
                    },
                ),
            },
        },
        _ => Err(ErrV::WrongType("info"@, "Object"@, spec_json_type_name(v))),
    }
}

impl Info {
    /// Loads an Info Object from a JSON-shaped node.
    pub fn try_from_json(n: &JsonNode) -> (r: Result<Info, LoadError>)
        ensures
            match r {
                Ok(v) => spec_load_info(n.deep_view()) == Ok::<InfoV, ErrV>(v.deep_view()),
                Err(e) => spec_load_info(n.deep_view()) == Err::<InfoV, ErrV>(e.deep_view()),
            },
    {
        match n {
            JsonNode::Obj(m) => {
                proof {
                    crate::nodes::lemma_json_obj_dv(*m);
                }
                match json_object_require_string(m, "title", "4.6.2.1") {
                    Err(e) => Err(e),
                    Ok(title) => match json_object_require_string(m, "version", "4.6.2.1") {
                        Err(e) => Err(e),
                        Ok(version) => Ok(
                            Info {
                                title,
                                summary: json_object_lookup_string(m, "summary"),
                                description: json_object_lookup_string(m, "description"),
                                version,
                                extensions: json_extract_extensions(m),
                            },
                        ),
                    },
                }
            },
            _ => Err(
                LoadError::WrongType("info".to_owned(), "Object".to_owned(), json_type_name(n)),
            ),
        }
    }
}

/// What loading the root description document returns: the version
/// string, the info object, and the two required non-empty lists, in
/// the order the fields are read. A missing components element gives
/// the empty one.
pub open spec fn spec_load_description(v: JsonV) -> Result<ArazzoDescriptionV, ErrV> {
    match v {
        JsonV::Obj(m) => match spec_require_string(m, "arazzo"@, "4.6.1.1"@) {
            Err(e) => Err(e),
            Ok(arazzo) => match (match kv_get(m, "info"@) {
                None => Err(ErrV::MissingRequiredField("info"@, "4.6.1.1"@)),
                Some(iv) => spec_load_info(iv),
            }) {
                Err(e) => Err(e),
                Ok(info) => match spec_load_source_descriptions(m) {
                    Err(e) => Err(e),
                    Ok(source_descriptions) => match spec_load_workflows(m) {
                        Err(e) => Err(e),
                        Ok(workflows) => match (match kv_get(m, "components"@) {
                            None => Ok(
                                ComponentsV {
                                    inputs: Seq::empty(),
                                    parameters: Seq::empty(),
                                    success_actions: Seq::empty(),
                                    failure_actions: Seq::empty(),
                                    extensions: Seq::empty(),
                                },
                            ),
                            Some(cv) => spec_load_components(cv),
                        }) {
                            Err(e) => Err(e),
                            Ok(components) => Ok(
                                ArazzoDescriptionV {
                                    arazzo,
                                    info,
                                    source_descriptions,
                                    workflows,
                                    components,
                                    extensions: spec_json_extract_extensions(m, m.len() as int),
                                },
                            ),
                        },
                    },
                },
            },
        },
        _ => Err(ErrV::WrongType("arazzoDescription"@, "Object"@, spec_json_type_name(v))),
    }
}

impl ArazzoDescription {
    /// Loads a whole description document from a JSON-shaped tree.
    pub fn try_from_json(n: &JsonNode) -> (r: Result<ArazzoDescription, LoadError>)
        ensures
            match r {
                Ok(v) => spec_load_description(n.deep_view()) == Ok::<ArazzoDescriptionV, ErrV>(
                    v.deep_view(),
                ),
                Err(e) => spec_load_description(n.deep_view()) == Err::<ArazzoDescriptionV, ErrV>(
                    e.deep_view(),
                ),
            },
    {
        match n {
            JsonNode::Obj(m) => {
                proof {
                    crate::nodes::lemma_json_obj_dv(*m);
                }
                match json_object_require_string(m, "arazzo", "4.6.1.1") {
                    Err(e) => Err(e),
                    Ok(arazzo) => {
                        let info = match kv_lookup(m, "info") {
                            None => {
                                return Err(
                                    LoadError::MissingRequiredField(
                                        "info".to_owned(),
                                        "4.6.1.1".to_owned(),
                                    ),
                                );
                            },
                            Some(iv) => match Info::try_from_json(iv) {
                                Err(e) => {
                                    return Err(e);
                                },
                                Ok(info) => info,
                            },
                        };
                        match json_load_source_descriptions(m) {
                            Err(e) => Err(e),
                            Ok(source_descriptions) => match json_load_workflows(m) {
                                Err(e) => Err(e),
                                Ok(workflows) => {
                                    let components = match kv_lookup(m, "components") {
                                        None => Components::default(),
                                        Some(cv) => match Components::try_from_json(cv) {
                                            Err(e) => {
                                                return Err(e);
                                            },
                                            Ok(c) => c,
                                        },
                                    };
                                    Ok(
                                        ArazzoDescription {
                                            arazzo,
                                            info,
                                            source_descriptions,
                                            workflows,
                                            components,
                                            extensions: json_extract_extensions(m),
                                        },
                                    )
                                },
                            },
                        }
                    },
                }
            },
            _ => Err(
                LoadError::WrongType(
                    "arazzoDescription".to_owned(),
                    "Object".to_owned(),
                    json_type_name(n),
                ),
            ),
        }
    }
}

} // verus!
