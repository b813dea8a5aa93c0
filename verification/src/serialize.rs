//! The canonical serializer: projects the typed model back into a
//! generic ordered document tree. Fields are emitted in a fixed
//! order, absent optional fields and empty lists or mappings are
//! omitted, and extension entries come last, re-prefixed with `x-`
//! and sorted by name.

use vstd::prelude::*;

use crate::either::Either;
use crate::extensions::{lemma_any_entries_dv, lemma_any_items_dv, AnyV, AnyValue};
use crate::kv::{kv_sort, kv_sort_exec, lemma_deep_view_push};
use crate::nodes::{JsonNode, JsonV};
use crate::payloads::{Payload, PayloadV};
use crate::v1_0::{
    ArazzoDescription, ArazzoDescriptionV, Components, ComponentsV, Criterion,
    CriterionExpressionType, CriterionExpressionTypeV, CriterionV, FailureObject, FailureObjectV,
    Info, InfoV, ParameterObject, ParameterObjectV, PayloadReplacement, PayloadReplacementV,
    RequestBody, RequestBodyV, ReusableObject, ReusableObjectV, SourceDescription,
    SourceDescriptionV, Step, StepV, SuccessObject, SuccessObjectV, Workflow, WorkflowV,
};
#[allow(unused_imports)]
use vstd::string::{StrSliceExecFns, StringExecFns};

verus! {

broadcast use vstd::group_vstd_default;

/// A required field holding a string.
pub open spec fn fld_str(name: Seq<char>, s: Seq<char>) -> Seq<(Seq<char>, JsonV)> {
    seq![(name, JsonV::Str(s))]
}

/// An optional string field, omitted when absent.
pub open spec fn fld_opt_str(name: Seq<char>, o: Option<Seq<char>>) -> Seq<(Seq<char>, JsonV)> {
    match o {
        None => Seq::empty(),
        Some(s) => seq![(name, JsonV::Str(s))],
    }
}

/// A required field holding an arbitrary node.
pub open spec fn fld_node(name: Seq<char>, v: JsonV) -> Seq<(Seq<char>, JsonV)> {
    seq![(name, v)]
}

/// A list field, omitted when the list is empty.
pub open spec fn fld_list(name: Seq<char>, items: Seq<JsonV>) -> Seq<(Seq<char>, JsonV)> {
    if items.len() == 0 {
        Seq::empty()
    } else {
        seq![(name, JsonV::Arr(items))]
    }
}

/// A mapping field, omitted when the mapping is empty.
pub open spec fn fld_obj(name: Seq<char>, entries: Seq<(Seq<char>, JsonV)>) -> Seq<
    (Seq<char>, JsonV),
> {
    if entries.len() == 0 {
        Seq::empty()
    } else {
        seq![(name, JsonV::Obj(entries))]
    }
}

/// The nodes of the first `n` dynamic-value array elements.
pub open spec fn any_nodes(items: Seq<AnyV>, n: int) -> Seq<JsonV>
    decreases items, n,
{
    if n <= 0 || n > items.len() {
        Seq::empty()
    } else {
        any_nodes(items, n - 1).push(spec_any_to_node(items[n - 1]))
    }
}

/// The object entries of the first `n` dynamic-value object entries,
/// in the given order.
pub open spec fn any_obj_nodes(entries: Seq<(Seq<char>, AnyV)>, n: int) -> Seq<
    (Seq<char>, JsonV),
>
    decreases entries, n,
{
    if n <= 0 || n > entries.len() {
        Seq::empty()
    } else {
        any_obj_nodes(entries, n - 1).push(
            (entries[n - 1].0, spec_any_to_node(entries[n - 1].1)),
        )
    }
}

/// The node a dynamic value serializes to. Object entries are emitted
/// in stored order, which the conversions keep sorted by key.
pub open spec fn spec_any_to_node(a: AnyV) -> JsonV
    decreases a, 0int,
{
    match a {
        AnyV::Null => JsonV::Null,
        AnyV::Boolean(b) => JsonV::Bool(b),
        AnyV::Integer(i) => JsonV::Int(i),
        AnyV::UInteger(u) => JsonV::UInt(u),
        AnyV::Float(x) => JsonV::Num(x),
        AnyV::String(s) => JsonV::Str(s),
        AnyV::Array(items) => JsonV::Arr(any_nodes(items, items.len() as int)),
        AnyV::Object(entries) => JsonV::Obj(any_obj_nodes(entries, entries.len() as int)),
    }
}

/// What each position of [`any_nodes`] holds.
pub proof fn lemma_any_nodes(items: Seq<AnyV>, n: int)
    requires
        0 <= n <= items.len(),
    ensures
        any_nodes(items, n).len() == n,
        forall|k: int|
            0 <= k < n ==> #[trigger] any_nodes(items, n)[k] == spec_any_to_node(items[k]),
    decreases n,
{
    if n > 0 {
        lemma_any_nodes(items, n - 1);
        assert(any_nodes(items, n) == any_nodes(items, n - 1).push(
            spec_any_to_node(items[n - 1]),
        ));
    }
}

/// What each position of [`any_obj_nodes`] holds.
pub proof fn lemma_any_obj_nodes(entries: Seq<(Seq<char>, AnyV)>, n: int)
    requires
        0 <= n <= entries.len(),
    ensures
        any_obj_nodes(entries, n).len() == n,
        forall|k: int|
            0 <= k < n ==> #[trigger] any_obj_nodes(entries, n)[k] == (
                entries[k].0,
                spec_any_to_node(entries[k].1),
            ),
    decreases n,
{
    if n > 0 {
        lemma_any_obj_nodes(entries, n - 1);
        assert(any_obj_nodes(entries, n) == any_obj_nodes(entries, n - 1).push(
            (entries[n - 1].0, spec_any_to_node(entries[n - 1].1)),
        ));
    }
}

/// Serializes a dynamic value to a tree node.
pub fn any_to_json_node(a: &AnyValue) -> (r: JsonNode)
    ensures
        r.deep_view() == spec_any_to_node(a.deep_view()),
    decreases *a,
{
    match a {
        AnyValue::Null => JsonNode::Null,
        AnyValue::Boolean(b) => JsonNode::Bool(*b),
        AnyValue::Integer(i) => JsonNode::Int(*i),
        AnyValue::UInteger(u) => JsonNode::UInt(*u),
        AnyValue::Float(x) => JsonNode::Num(x.clone()),
        AnyValue::String(s) => JsonNode::Str(s.clone()),
        AnyValue::Array(items) => {
            let ghost iv = a.deep_view()->Array_0;
            proof {
                lemma_any_items_dv(items@, items@.len() as int);
            }
            let mut out: Vec<JsonNode> = Vec::new();
            proof {
                assert(out.deep_view() =~= Seq::<JsonV>::empty());
            }
            let mut i: usize = 0;
            while i < items.len()
                invariant
                    i <= items.len(),
                    iv.len() == items@.len(),
                    forall|k: int| 0 <= k < items@.len() ==> iv[k] == items@[k].deep_view(),
                    out.deep_view() == any_nodes(iv, i as int),
                decreases items.len() - i,
            {
                proof {
                    assert(decreases_to!(*a => *items));
                    assert(decreases_to!(*items => items@[i as int]));
                }
                let ghost pre = out;
                let node = any_to_json_node(&items[i]);
                out.push(node);
                proof {
                    lemma_deep_view_push(pre, out, node);
                }
                i = i + 1;
            }
            let r = JsonNode::Arr(out);
            proof {
                crate::nodes::lemma_json_arr_dv(out);
                assert(r.deep_view()->Arr_0 =~= out.deep_view());
            }
            r
        },
        AnyValue::Object(entries) => {
            let ghost ev = a.deep_view()->Object_0;
            proof {
                lemma_any_entries_dv(entries@, entries@.len() as int);
            }
            let mut out: Vec<(String, JsonNode)> = Vec::new();
            proof {
                assert(out.deep_view() =~= Seq::<(Seq<char>, JsonV)>::empty());
            }
            let mut i: usize = 0;
            while i < entries.len()
                invariant
                    i <= entries.len(),
                    ev.len() == entries@.len(),
                    forall|k: int|
                        0 <= k < entries@.len() ==> ev[k] == (
                            entries@[k].0@,
                            entries@[k].1.deep_view(),
                        ),
                    out.deep_view() == any_obj_nodes(ev, i as int),
                decreases entries.len() - i,
            {
                proof {
                    assert(decreases_to!(*a => *entries));
                    assert(decreases_to!(*entries => entries@[i as int]));
                    assert(decreases_to!(entries@[i as int] => entries@[i as int].1));
                }
                let ghost pre = out;
                let key = entries[i].0.clone();
                let node = any_to_json_node(&entries[i].1);
                out.push((key, node));
                proof {
                    lemma_deep_view_push(pre, out, (key, node));
                }
                i = i + 1;
            }
            let r = JsonNode::Obj(out);
            proof {
                crate::nodes::lemma_json_obj_dv(out);
                assert(r.deep_view()->Obj_0 =~= out.deep_view());
            }
            r
        },
    }
}

/// The extension entries emitted after the fixed fields: each name
/// re-prefixed with `x-` and its value serialized, in the given
/// (sorted) order.
pub open spec fn ext_nodes(exts: Seq<(Seq<char>, AnyV)>, n: int) -> Seq<(Seq<char>, JsonV)>
    decreases n,
{
    if n <= 0 || n > exts.len() {
        Seq::empty()
    } else {
        ext_nodes(exts, n - 1).push(
            ("x-"@ + exts[n - 1].0, spec_any_to_node(exts[n - 1].1)),
        )
    }
}

/// The serialized extension block of a mapping: its entries sorted by
/// name, then emitted with the prefix.
pub open spec fn spec_ser_exts(exts: Seq<(Seq<char>, AnyV)>) -> Seq<(Seq<char>, JsonV)> {
    let sorted = kv_sort(exts, exts.len() as int);
    ext_nodes(sorted, sorted.len() as int)
}

/// Duplicates an extension mapping.
fn clone_exts(exts: &Vec<(String, AnyValue)>) -> (r: Vec<(String, AnyValue)>)
    ensures
        r.deep_view() == exts.deep_view(),
{
    let mut out: Vec<(String, AnyValue)> = Vec::new();
    let mut i: usize = 0;
    while i < exts.len()
        invariant
            i <= exts.len(),
            out@.len() == i,
            forall|k: int|
                0 <= k < i ==> (#[trigger] out@[k]).0@ == exts@[k].0@ && out@[k].1.deep_view()
                    == exts@[k].1.deep_view(),
        decreases exts.len() - i,
    {
        let key = exts[i].0.clone();
        let val = exts[i].1.clone();
        out.push((key, val));
        proof {
            assert(out@[i as int] == (key, val));
            assert(key@ == exts@[i as int].0@);
            assert(val.deep_view() == exts@[i as int].1.deep_view());
        }
        i = i + 1;
    }
    proof {
        assert forall|k: int| 0 <= k < out@.len() implies out.deep_view()[k]
            == exts.deep_view()[k] by {
            assert(out.deep_view()[k] == (out@[k].0@, out@[k].1.deep_view()));
            assert(exts.deep_view()[k] == (exts@[k].0@, exts@[k].1.deep_view()));
        }
        assert(out.deep_view() =~= exts.deep_view());
    }
    out
}

/// Appends the serialized extension block of the mapping: sorted by
/// name and re-prefixed with `x-`.
fn push_exts(e: &mut Vec<(String, JsonNode)>, exts: &Vec<(String, AnyValue)>)
    ensures
        final(e).deep_view() == old(e).deep_view() + spec_ser_exts(exts.deep_view()),
{
    let ghost base = old(e).deep_view();
    let copy = clone_exts(exts);
    let sorted = kv_sort_exec(copy);
    let ghost sv = kv_sort(exts.deep_view(), exts.deep_view().len() as int);
    let mut i: usize = 0;
    proof {
        assert(base + ext_nodes(sv, 0) =~= base);
    }
    while i < sorted.len()
        invariant
            i <= sorted.len(),
            sorted.deep_view() == sv,
            sv.len() == sorted@.len(),
            e.deep_view() == base + ext_nodes(sv, i as int),
        decreases sorted.len() - i,
    {
        proof {
            assert(sv[i as int] == (sorted@[i as int].0@, sorted@[i as int].1.deep_view()));
        }
        let ghost pre = *e;
        let key = ("x-".to_owned()).concat(sorted[i].0.as_str());
        let node = any_to_json_node(&sorted[i].1);
        e.push((key, node));
        proof {
            lemma_deep_view_push(pre, *e, (key, node));
            assert(e.deep_view() =~= base + ext_nodes(sv, i + 1));
        }
        i = i + 1;
    }
}

/// Appends a required string field.
fn push_str(e: &mut Vec<(String, JsonNode)>, name: &str, s: &String)
    ensures
        final(e).deep_view() == old(e).deep_view() + fld_str(name@, s@),
{
    let ghost pre = *e;
    let key = name.to_owned();
    let val = JsonNode::Str(s.clone());
    e.push((key, val));
    proof {
        lemma_deep_view_push(pre, *e, (key, val));
        assert(e.deep_view() =~= old(e).deep_view() + fld_str(name@, s@));
    }
}

/// Appends an optional string field, omitting an absent one.
fn push_opt_str(e: &mut Vec<(String, JsonNode)>, name: &str, o: &Option<String>)
    ensures
        final(e).deep_view() == old(e).deep_view() + fld_opt_str(name@, o.deep_view()),
{
    match o {
        None => {
            proof {
                assert(e.deep_view() =~= old(e).deep_view() + fld_opt_str(name@, o.deep_view()));
            }
        },
        Some(s) => {
            let ghost pre = *e;
            let key = name.to_owned();
            let val = JsonNode::Str(s.clone());
            e.push((key, val));
            proof {
                lemma_deep_view_push(pre, *e, (key, val));
                assert(e.deep_view() =~= old(e).deep_view() + fld_opt_str(name@, o.deep_view()));
            }
        },
    }
}

/// Appends a field holding an already-built node.
fn push_node(e: &mut Vec<(String, JsonNode)>, name: &str, v: JsonNode)
    ensures
        final(e).deep_view() == old(e).deep_view() + fld_node(name@, v.deep_view()),
{
    let ghost pre = *e;
    let ghost vv = v.deep_view();
    let key = name.to_owned();
    e.push((key, v));
    proof {
        lemma_deep_view_push(pre, *e, (key, v));
        assert(e.deep_view() =~= old(e).deep_view() + fld_node(name@, vv));
    }
}

/// Appends a list field, omitting an empty list.
fn push_list(e: &mut Vec<(String, JsonNode)>, name: &str, items: Vec<JsonNode>)
    ensures
        final(e).deep_view() == old(e).deep_view() + fld_list(name@, items.deep_view()),
{
    let ghost iv = items.deep_view();
    if items.len() == 0 {
        proof {
            assert(e.deep_view() =~= old(e).deep_view() + fld_list(name@, iv));
        }
    } else {
        let ghost pre = *e;
        let node = JsonNode::Arr(items);
        proof {
            crate::nodes::lemma_json_arr_dv(node->Arr_0);
            assert(node.deep_view()->Arr_0 =~= iv);
        }
        let key = name.to_owned();
        e.push((key, node));
        proof {
            lemma_deep_view_push(pre, *e, (key, node));
            assert(e.deep_view() =~= old(e).deep_view() + fld_list(name@, iv));
        }
    }
}

/// Appends a mapping field, omitting an empty mapping.
fn push_obj(e: &mut Vec<(String, JsonNode)>, name: &str, entries: Vec<(String, JsonNode)>)
    ensures
        final(e).deep_view() == old(e).deep_view() + fld_obj(name@, entries.deep_view()),
{
    let ghost ev = entries.deep_view();
    if entries.len() == 0 {
        proof {
            assert(e.deep_view() =~= old(e).deep_view() + fld_obj(name@, ev));
        }
    } else {
        let ghost pre = *e;
        let node = JsonNode::Obj(entries);
        proof {
            crate::nodes::lemma_json_obj_dv(node->Obj_0);
            assert(node.deep_view()->Obj_0 =~= ev);
        }
        let key = name.to_owned();
        e.push((key, node));
        proof {
            lemma_deep_view_push(pre, *e, (key, node));
            assert(e.deep_view() =~= old(e).deep_view() + fld_obj(name@, ev));
        }
    }
}


/// The nodes of the first `n` list elements under `f`.
pub open spec fn map_nodes<T>(items: Seq<T>, n: int, f: spec_fn(T) -> JsonV) -> Seq<JsonV>
    decreases n,
{
    if n <= 0 || n > items.len() {
        Seq::empty()
    } else {
        map_nodes(items, n - 1, f).push(f(items[n - 1]))
    }
}

/// What each position of [`map_nodes`] holds.
pub proof fn lemma_map_nodes<T>(items: Seq<T>, n: int, f: spec_fn(T) -> JsonV)
    requires
        0 <= n <= items.len(),
    ensures
        map_nodes(items, n, f).len() == n,
        forall|k: int| 0 <= k < n ==> #[trigger] map_nodes(items, n, f)[k] == f(items[k]),
    decreases n,
{
    if n > 0 {
        lemma_map_nodes(items, n - 1, f);
        assert(map_nodes(items, n, f) == map_nodes(items, n - 1, f).push(f(items[n - 1])));
    }
}

/// The object entries of the first `n` mapping entries under `f`, in
/// the given order.
pub open spec fn map_kv_nodes<T>(
    entries: Seq<(Seq<char>, T)>,
    n: int,
    f: spec_fn(T) -> JsonV,
) -> Seq<(Seq<char>, JsonV)>
    decreases n,
{
    if n <= 0 || n > entries.len() {
        Seq::empty()
    } else {
        map_kv_nodes(entries, n - 1, f).push((entries[n - 1].0, f(entries[n - 1].1)))
    }
}

/// What each position of [`map_kv_nodes`] holds.
pub proof fn lemma_map_kv_nodes<T>(entries: Seq<(Seq<char>, T)>, n: int, f: spec_fn(T) -> JsonV)
    requires
        0 <= n <= entries.len(),
    ensures
        map_kv_nodes(entries, n, f).len() == n,
        forall|k: int|
            0 <= k < n ==> #[trigger] map_kv_nodes(entries, n, f)[k] == (
                entries[k].0,
                f(entries[k].1),
            ),
    decreases n,
{
    if n > 0 {
        lemma_map_kv_nodes(entries, n - 1, f);
        assert(map_kv_nodes(entries, n, f) == map_kv_nodes(entries, n - 1, f).push(
            (entries[n - 1].0, f(entries[n - 1].1)),
        ));
    }
}

/// The node a two-shape value serializes to: literal data as its own
/// node, an expression as its string, so the encoded shape and scalar
/// kind of the source are reproduced.
pub open spec fn spec_ser_value(v: Either<AnyV, Seq<char>>) -> JsonV {
    match v {
        Either::First(a) => spec_any_to_node(a),
        Either::Second(s) => JsonV::Str(s),
    }
}

/// Serializes a two-shape value.
pub fn value_to_node(v: &Either<AnyValue, String>) -> (r: JsonNode)
    ensures
        r.deep_view() == spec_ser_value(v.deep_view()),
{
    match v {
        Either::First(a) => any_to_json_node(a),
        Either::Second(s) => JsonNode::Str(s.clone()),
    }
}

/// The tree a Reusable Object serializes to.
pub open spec fn spec_ser_reusable(v: ReusableObjectV) -> JsonV {
    JsonV::Obj(fld_str("reference"@, v.reference) + fld_opt_str("value"@, v.value))
}

impl ReusableObject {
    /// Serializes this object to an ordered tree node.
    pub fn to_node(&self) -> (r: JsonNode)
        ensures
            r.deep_view() == spec_ser_reusable(self.deep_view()),
    {
        let mut e: Vec<(String, JsonNode)> = Vec::new();
        proof {
            assert(e.deep_view() =~= Seq::<(Seq<char>, JsonV)>::empty());
        }
        push_str(&mut e, "reference", &self.reference);
        push_opt_str(&mut e, "value", &self.value);
        let r = JsonNode::Obj(e);
        proof {
            crate::nodes::lemma_json_obj_dv(r->Obj_0);
            assert(r.deep_view()->Obj_0 =~= fld_str("reference"@, self.reference@) + fld_opt_str(
                "value"@,
                self.value.deep_view(),
            ));
        }
        r
    }
}

/// The tree a Parameter Object serializes to.
pub open spec fn spec_ser_parameter(v: ParameterObjectV) -> JsonV {
    JsonV::Obj(
        fld_opt_str("in"@, v.in_) + fld_str("name"@, v.name) + fld_node(
            "value"@,
            spec_ser_value(v.value),
        ) + spec_ser_exts(v.extensions),
    )
}

impl ParameterObject {
    /// Serializes this object to an ordered tree node.
    pub fn to_node(&self) -> (r: JsonNode)
        ensures
            r.deep_view() == spec_ser_parameter(self.deep_view()),
    {
        let mut e: Vec<(String, JsonNode)> = Vec::new();
        proof {
            assert(e.deep_view() =~= Seq::<(Seq<char>, JsonV)>::empty());
        }
        push_opt_str(&mut e, "in", &self.in_);
        push_str(&mut e, "name", &self.name);
        push_node(&mut e, "value", value_to_node(&self.value));
        push_exts(&mut e, &self.extensions);
        let r = JsonNode::Obj(e);
        proof {
            crate::nodes::lemma_json_obj_dv(r->Obj_0);
            assert(r.deep_view()->Obj_0 =~= spec_ser_parameter(self.deep_view())->Obj_0);
        }
        r
    }
}

/// The tree a Criterion Expression Type Object serializes to.
pub open spec fn spec_ser_cet(v: CriterionExpressionTypeV) -> JsonV {
    JsonV::Obj(
        fld_str("type"@, v.type_) + fld_str("version"@, v.version) + spec_ser_exts(v.extensions),
    )
}

impl CriterionExpressionType {
    /// Serializes this object to an ordered tree node.
    pub fn to_node(&self) -> (r: JsonNode)
        ensures
            r.deep_view() == spec_ser_cet(self.deep_view()),
    {
        let mut e: Vec<(String, JsonNode)> = Vec::new();
        proof {
            assert(e.deep_view() =~= Seq::<(Seq<char>, JsonV)>::empty());
        }
        push_str(&mut e, "type", &self.type_);
        push_str(&mut e, "version", &self.version);
        push_exts(&mut e, &self.extensions);
        let r = JsonNode::Obj(e);
        proof {
            crate::nodes::lemma_json_obj_dv(r->Obj_0);
            assert(r.deep_view()->Obj_0 =~= spec_ser_cet(self.deep_view())->Obj_0);
        }
        r
    }
}

/// The `type` field of a criterion, omitted when absent.
pub open spec fn fld_criterion_type(
    o: Option<Either<Seq<char>, CriterionExpressionTypeV>>,
) -> Seq<(Seq<char>, JsonV)> {
    match o {
        None => Seq::empty(),
        Some(Either::First(s)) => seq![("type"@, JsonV::Str(s))],
        Some(Either::Second(cet)) => seq![("type"@, spec_ser_cet(cet))],
    }
}

/// The tree a Criterion Object serializes to.
pub open spec fn spec_ser_criterion(v: CriterionV) -> JsonV {
    JsonV::Obj(
        fld_str("condition"@, v.condition) + fld_opt_str("context"@, v.context)
            + fld_criterion_type(v.type_) + spec_ser_exts(v.extensions),
    )
}

impl Criterion {
    /// Serializes this object to an ordered tree node.
    pub fn to_node(&self) -> (r: JsonNode)
        ensures
            r.deep_view() == spec_ser_criterion(self.deep_view()),
    {
        let mut e: Vec<(String, JsonNode)> = Vec::new();
        proof {
            assert(e.deep_view() =~= Seq::<(Seq<char>, JsonV)>::empty());
        }
        push_str(&mut e, "condition", &self.condition);
        push_opt_str(&mut e, "context", &self.context);
        match &self.type_ {
            None => {},
            Some(Either::First(st)) => {
                push_node(&mut e, "type", JsonNode::Str(st.clone()));
            },
            Some(Either::Second(cet)) => {
                push_node(&mut e, "type", cet.to_node());
            },
        }
        push_exts(&mut e, &self.extensions);
        let r = JsonNode::Obj(e);
        proof {
            crate::nodes::lemma_json_obj_dv(r->Obj_0);
            assert(r.deep_view()->Obj_0 =~= spec_ser_criterion(self.deep_view())->Obj_0);
        }
        r
    }
}

/// The serialized criteria list.
pub open spec fn spec_ser_criteria(items: Seq<CriterionV>) -> Seq<JsonV> {
    map_nodes(items, items.len() as int, |c: CriterionV| spec_ser_criterion(c))
}

/// Serializes a criteria list.
fn criteria_nodes(list: &Vec<Criterion>) -> (r: Vec<JsonNode>)
    ensures
        r.deep_view() == spec_ser_criteria(list.deep_view()),
{
    let ghost f = |c: CriterionV| spec_ser_criterion(c);
    let ghost lv = list.deep_view();
    let mut out: Vec<JsonNode> = Vec::new();
    proof {
        assert(out.deep_view() =~= Seq::<JsonV>::empty());
        assert(out.deep_view() =~= map_nodes(lv, 0, f));
    }
    let mut i: usize = 0;
    while i < list.len()
        invariant
            i <= list.len(),
            lv.len() == list@.len(),
            forall|k: int| 0 <= k < list@.len() ==> lv[k] == list@[k].deep_view(),
            out.deep_view() == map_nodes(lv, i as int, f),
        decreases list.len() - i,
    {
        let ghost pre = out;
        let node = list[i].to_node();
        out.push(node);
        proof {
            lemma_deep_view_push(pre, out, node);
        }
        i = i + 1;
    }
    out
}

/// The node a parameter-or-reference entry serializes to.
pub open spec fn spec_ser_param_item(v: Either<ParameterObjectV, ReusableObjectV>) -> JsonV {
    match v {
        Either::First(p) => spec_ser_parameter(p),
        Either::Second(r) => spec_ser_reusable(r),
    }
}

/// The serialized parameters list.
pub open spec fn spec_ser_params(items: Seq<Either<ParameterObjectV, ReusableObjectV>>) -> Seq<
    JsonV,
> {
    map_nodes(
        items,
        items.len() as int,
        |v: Either<ParameterObjectV, ReusableObjectV>| spec_ser_param_item(v),
    )
}

/// Serializes a parameters list.
fn params_nodes(list: &Vec<Either<ParameterObject, ReusableObject>>) -> (r: Vec<JsonNode>)
    ensures
        r.deep_view() == spec_ser_params(list.deep_view()),
{
    let ghost f = |v: Either<ParameterObjectV, ReusableObjectV>| spec_ser_param_item(v);
    let ghost lv = list.deep_view();
    let mut out: Vec<JsonNode> = Vec::new();
    proof {
        assert(out.deep_view() =~= Seq::<JsonV>::empty());
        assert(out.deep_view() =~= map_nodes(lv, 0, f));
    }
    let mut i: usize = 0;
    while i < list.len()
        invariant
            i <= list.len(),
            lv.len() == list@.len(),
            forall|k: int| 0 <= k < list@.len() ==> lv[k] == list@[k].deep_view(),
            out.deep_view() == map_nodes(lv, i as int, f),
        decreases list.len() - i,
    {
        let ghost pre = out;
        let node = match &list[i] {
            Either::First(p) => p.to_node(),
            Either::Second(ro) => ro.to_node(),
        };
        out.push(node);
        proof {
            lemma_deep_view_push(pre, out, node);
        }
        i = i + 1;
    }
    out
}

/// The tree a Success Action Object serializes to.
pub open spec fn spec_ser_success(v: SuccessObjectV) -> JsonV {
    JsonV::Obj(
        fld_list("criteria"@, spec_ser_criteria(v.criteria)) + fld_str("name"@, v.name)
            + fld_opt_str("stepId"@, v.step_id) + fld_str("type"@, v.type_) + fld_opt_str(
            "workflowId"@,
            v.workflow_id,
        ) + spec_ser_exts(v.extensions),
    )
}

impl SuccessObject {
    /// Serializes this object to an ordered tree node.
    pub fn to_node(&self) -> (r: JsonNode)
        ensures
            r.deep_view() == spec_ser_success(self.deep_view()),
    {
        let mut e: Vec<(String, JsonNode)> = Vec::new();
        proof {
            assert(e.deep_view() =~= Seq::<(Seq<char>, JsonV)>::empty());
        }
        push_list(&mut e, "criteria", criteria_nodes(&self.criteria));
        push_str(&mut e, "name", &self.name);
        push_opt_str(&mut e, "stepId", &self.step_id);
        push_str(&mut e, "type", &self.type_);
        push_opt_str(&mut e, "workflowId", &self.workflow_id);
        push_exts(&mut e, &self.extensions);
        let r = JsonNode::Obj(e);
        proof {
            crate::nodes::lemma_json_obj_dv(r->Obj_0);
            assert(r.deep_view()->Obj_0 =~= spec_ser_success(self.deep_view())->Obj_0);
        }
        r
    }
}

/// An optional opaque-number field, omitted when absent.
pub open spec fn fld_opt_num(name: Seq<char>, o: Option<serde_json::Number>) -> Seq<
    (Seq<char>, JsonV),
> {
    match o {
        None => Seq::empty(),
        Some(x) => seq![(name, JsonV::Num(x))],
    }
}

/// An optional integer field, omitted when absent.
pub open spec fn fld_opt_int(name: Seq<char>, o: Option<i64>) -> Seq<(Seq<char>, JsonV)> {
    match o {
        None => Seq::empty(),
        Some(i) => seq![(name, JsonV::Int(i))],
    }
}

/// The tree a Failure Action Object serializes to.
pub open spec fn spec_ser_failure(v: FailureObjectV) -> JsonV {
    JsonV::Obj(
        fld_list("criteria"@, spec_ser_criteria(v.criteria)) + fld_str("name"@, v.name)
            + fld_opt_num("retryAfter"@, v.retry_after) + fld_opt_int(
            "retryLimit"@,
            v.retry_limit,
        ) + fld_opt_str("stepId"@, v.step_id) + fld_str("type"@, v.type_) + fld_opt_str(
            "workflowId"@,
            v.workflow_id,
        ) + spec_ser_exts(v.extensions),
    )
}

impl FailureObject {
    /// Serializes this object to an ordered tree node.
    pub fn to_node(&self) -> (r: JsonNode)
        ensures
            r.deep_view() == spec_ser_failure(self.deep_view()),
    {
        let mut e: Vec<(String, JsonNode)> = Vec::new();
        proof {
            assert(e.deep_view() =~= Seq::<(Seq<char>, JsonV)>::empty());
        }
        push_list(&mut e, "criteria", criteria_nodes(&self.criteria));
        push_str(&mut e, "name", &self.name);
        match &self.retry_after {
            None => {},
            Some(x) => {
                push_node(&mut e, "retryAfter", JsonNode::Num(x.clone()));
            },
        }
        match &self.retry_limit {
            None => {},
            Some(i) => {
                push_node(&mut e, "retryLimit", JsonNode::Int(*i));
            },
        }
        push_opt_str(&mut e, "stepId", &self.step_id);
        push_str(&mut e, "type", &self.type_);
        push_opt_str(&mut e, "workflowId", &self.workflow_id);
        push_exts(&mut e, &self.extensions);
        let r = JsonNode::Obj(e);
        proof {
            crate::nodes::lemma_json_obj_dv(r->Obj_0);
            assert(r.deep_view()->Obj_0 =~= spec_ser_failure(self.deep_view())->Obj_0);
        }
        r
    }
}

/// The node a success-or-reference entry serializes to.
pub open spec fn spec_ser_success_item(v: Either<SuccessObjectV, ReusableObjectV>) -> JsonV {
    match v {
        Either::First(p) => spec_ser_success(p),
        Either::Second(r) => spec_ser_reusable(r),
    }
}

/// The serialized success-actions list.
pub open spec fn spec_ser_successes(items: Seq<Either<SuccessObjectV, ReusableObjectV>>) -> Seq<
    JsonV,
> {
    map_nodes(
        items,
        items.len() as int,
        |v: Either<SuccessObjectV, ReusableObjectV>| spec_ser_success_item(v),
    )
}

/// Serializes a success-actions list.
fn successes_nodes(list: &Vec<Either<SuccessObject, ReusableObject>>) -> (r: Vec<JsonNode>)
    ensures
        r.deep_view() == spec_ser_successes(list.deep_view()),
{
    let ghost f = |v: Either<SuccessObjectV, ReusableObjectV>| spec_ser_success_item(v);
    let ghost lv = list.deep_view();
    let mut out: Vec<JsonNode> = Vec::new();
    proof {
        assert(out.deep_view() =~= Seq::<JsonV>::empty());
        assert(out.deep_view() =~= map_nodes(lv, 0, f));
    }
    let mut i: usize = 0;
    while i < list.len()
        invariant
            i <= list.len(),
            lv.len() == list@.len(),
            forall|k: int| 0 <= k < list@.len() ==> lv[k] == list@[k].deep_view(),
            out.deep_view() == map_nodes(lv, i as int, f),
        decreases list.len() - i,
    {
        let ghost pre = out;
        let node = match &list[i] {
            Either::First(p) => p.to_node(),
            Either::Second(ro) => ro.to_node(),
        };
        out.push(node);
        proof {
            lemma_deep_view_push(pre, out, node);
        }
        i = i + 1;
    }
    out
}

/// The node a failure-or-reference entry serializes to.
pub open spec fn spec_ser_failure_item(v: Either<FailureObjectV, ReusableObjectV>) -> JsonV {
    match v {
        Either::First(p) => spec_ser_failure(p),
        Either::Second(r) => spec_ser_reusable(r),
    }
}

/// The serialized failure-actions list.
pub open spec fn spec_ser_failures(items: Seq<Either<FailureObjectV, ReusableObjectV>>) -> Seq<
    JsonV,
> {
    map_nodes(
        items,
        items.len() as int,
        |v: Either<FailureObjectV, ReusableObjectV>| spec_ser_failure_item(v),
    )
}

/// Serializes a failure-actions list.
fn failures_nodes(list: &Vec<Either<FailureObject, ReusableObject>>) -> (r: Vec<JsonNode>)
    ensures
        r.deep_view() == spec_ser_failures(list.deep_view()),
{
    let ghost f = |v: Either<FailureObjectV, ReusableObjectV>| spec_ser_failure_item(v);
    let ghost lv = list.deep_view();
    let mut out: Vec<JsonNode> = Vec::new();
    proof {
        assert(out.deep_view() =~= Seq::<JsonV>::empty());
        assert(out.deep_view() =~= map_nodes(lv, 0, f));
    }
    let mut i: usize = 0;
    while i < list.len()
        invariant
            i <= list.len(),
            lv.len() == list@.len(),
            forall|k: int| 0 <= k < list@.len() ==> lv[k] == list@[k].deep_view(),
            out.deep_view() == map_nodes(lv, i as int, f),
        decreases list.len() - i,
    {
        let ghost pre = out;
        let node = match &list[i] {
            Either::First(p) => p.to_node(),
            Either::Second(ro) => ro.to_node(),
        };
        out.push(node);
        proof {
            lemma_deep_view_push(pre, out, node);
        }
        i = i + 1;
    }
    out
}

/// The node a payload serializes to: verbatim text as a string node,
/// the empty payload as null, a structured payload as its own tree.
pub open spec fn spec_ser_payload(p: PayloadV) -> JsonV {
    match p {
        PayloadV::Text(s) => JsonV::Str(s),
        PayloadV::Empty => JsonV::Null,
        PayloadV::Structured(j) => j,
    }
}

/// The tree a Payload Replacement Object serializes to.
pub open spec fn spec_ser_replacement(v: PayloadReplacementV) -> JsonV {
    JsonV::Obj(
        fld_str("target"@, v.target) + fld_node("value"@, spec_ser_value(v.value))
            + spec_ser_exts(v.extensions),
    )
}

impl PayloadReplacement {
    /// Serializes this object to an ordered tree node.
    pub fn to_node(&self) -> (r: JsonNode)
        ensures
            r.deep_view() == spec_ser_replacement(self.deep_view()),
    {
        let mut e: Vec<(String, JsonNode)> = Vec::new();
        proof {
            assert(e.deep_view() =~= Seq::<(Seq<char>, JsonV)>::empty());
        }
        push_str(&mut e, "target", &self.target);
        push_node(&mut e, "value", value_to_node(&self.value));
        push_exts(&mut e, &self.extensions);
        let r = JsonNode::Obj(e);
        proof {
            crate::nodes::lemma_json_obj_dv(r->Obj_0);
            assert(r.deep_view()->Obj_0 =~= spec_ser_replacement(self.deep_view())->Obj_0);
        }
        r
    }
}

/// The serialized replacements list.
pub open spec fn spec_ser_replacements(items: Seq<PayloadReplacementV>) -> Seq<JsonV> {
    map_nodes(items, items.len() as int, |v: PayloadReplacementV| spec_ser_replacement(v))
}

/// Serializes a replacements list.
fn replacements_nodes(list: &Vec<PayloadReplacement>) -> (r: Vec<JsonNode>)
    ensures
        r.deep_view() == spec_ser_replacements(list.deep_view()),
{
    let ghost f = |v: PayloadReplacementV| spec_ser_replacement(v);
    let ghost lv = list.deep_view();
    let mut out: Vec<JsonNode> = Vec::new();
    proof {
        assert(out.deep_view() =~= Seq::<JsonV>::empty());
        assert(out.deep_view() =~= map_nodes(lv, 0, f));
    }
    let mut i: usize = 0;
    while i < list.len()
        invariant
            i <= list.len(),
            lv.len() == list@.len(),
            forall|k: int| 0 <= k < list@.len() ==> lv[k] == list@[k].deep_view(),
            out.deep_view() == map_nodes(lv, i as int, f),
        decreases list.len() - i,
    {
        let ghost pre = out;
        let node = list[i].to_node();
        out.push(node);
        proof {
            lemma_deep_view_push(pre, out, node);
        }
        i = i + 1;
    }
    out
}

/// The `payload` field of a request body, omitted when absent.
pub open spec fn fld_payload(o: Option<PayloadV>) -> Seq<(Seq<char>, JsonV)> {
    match o {
        None => Seq::empty(),
        Some(p) => seq![("payload"@, spec_ser_payload(p))],
    }
}

/// The tree a Request Body Object serializes to.
pub open spec fn spec_ser_request_body(v: RequestBodyV) -> JsonV {
    JsonV::Obj(
        fld_opt_str("contentType"@, v.content_type) + fld_payload(v.payload) + fld_list(
            "replacements"@,
            spec_ser_replacements(v.replacements),
        ) + spec_ser_exts(v.extensions),
    )
}

impl RequestBody {
    /// Serializes this object to an ordered tree node.
    pub fn to_node(&self) -> (r: JsonNode)
        ensures
            r.deep_view() == spec_ser_request_body(self.deep_view()),
    {
        let mut e: Vec<(String, JsonNode)> = Vec::new();
        proof {
            assert(e.deep_view() =~= Seq::<(Seq<char>, JsonV)>::empty());
        }
        push_opt_str(&mut e, "contentType", &self.content_type);
        match &self.payload {
            None => {},
            Some(Payload::String(p)) => {
                push_node(&mut e, "payload", JsonNode::Str(p.0.clone()));
            },
            Some(Payload::Empty(_)) => {
                push_node(&mut e, "payload", JsonNode::Null);
            },
            Some(Payload::Json(p)) => {
                push_node(&mut e, "payload", p.0.clone());
            },
        }
        push_list(&mut e, "replacements", replacements_nodes(&self.replacements));
        push_exts(&mut e, &self.extensions);
        let r = JsonNode::Obj(e);
        proof {
            crate::nodes::lemma_json_obj_dv(r->Obj_0);
            assert(r.deep_view()->Obj_0 =~= spec_ser_request_body(self.deep_view())->Obj_0);
        }
        r
    }
}

/// The serialized outputs mapping, in stored order.
pub open spec fn spec_ser_outputs(outputs: Seq<(Seq<char>, Seq<char>)>) -> Seq<
    (Seq<char>, JsonV),
> {
    map_kv_nodes(outputs, outputs.len() as int, |s: Seq<char>| JsonV::Str(s))
}

/// Serializes an outputs mapping.
fn outputs_nodes(outputs: &Vec<(String, String)>) -> (r: Vec<(String, JsonNode)>)
    ensures
        r.deep_view() == spec_ser_outputs(outputs.deep_view()),
{
    let ghost f = |s: Seq<char>| JsonV::Str(s);
    let ghost ov = outputs.deep_view();
    let mut out: Vec<(String, JsonNode)> = Vec::new();
    proof {
        assert(out.deep_view() =~= Seq::<(Seq<char>, JsonV)>::empty());
        assert(out.deep_view() =~= map_kv_nodes(ov, 0, f));
    }
    let mut i: usize = 0;
    while i < outputs.len()
        invariant
            i <= outputs.len(),
            ov.len() == outputs@.len(),
            forall|k: int|
                0 <= k < outputs@.len() ==> ov[k] == (outputs@[k].0@, outputs@[k].1@),
            out.deep_view() == map_kv_nodes(ov, i as int, f),
        decreases outputs.len() - i,
    {
        let ghost pre = out;
        let key = outputs[i].0.clone();
        let val = JsonNode::Str(outputs[i].1.clone());
        out.push((key, val));
        proof {
            lemma_deep_view_push(pre, out, (key, val));
        }
        i = i + 1;
    }
    out
}

/// The `requestBody` field of a step, omitted when absent.
pub open spec fn fld_request_body(o: Option<RequestBodyV>) -> Seq<(Seq<char>, JsonV)> {
    match o {
        None => Seq::empty(),
        Some(rb) => seq![("requestBody"@, spec_ser_request_body(rb))],
    }
}

/// The tree a Step Object serializes to.
pub open spec fn spec_ser_step(v: StepV) -> JsonV {
    JsonV::Obj(
        fld_opt_str("description"@, v.description) + fld_list(
            "onFailure"@,
            spec_ser_failures(v.on_failure),
        ) + fld_list("onSuccess"@, spec_ser_successes(v.on_success)) + fld_opt_str(
            "operationId"@,
            v.operation_id,
        ) + fld_opt_str("operationPath"@, v.operation_path) + fld_obj(
            "outputs"@,
            spec_ser_outputs(v.outputs),
        ) + fld_list("parameters"@, spec_ser_params(v.parameters)) + fld_request_body(
            v.request_body,
        ) + fld_str("stepId"@, v.step_id) + fld_list(
            "successCriteria"@,
            spec_ser_criteria(v.success_criteria),
        ) + fld_opt_str("workflowId"@, v.workflow_id) + spec_ser_exts(v.extensions),
    )
}

impl Step {
    /// Serializes this object to an ordered tree node.
    pub fn to_node(&self) -> (r: JsonNode)
        ensures
            r.deep_view() == spec_ser_step(self.deep_view()),
    {
        let mut e: Vec<(String, JsonNode)> = Vec::new();
        proof {
            assert(e.deep_view() =~= Seq::<(Seq<char>, JsonV)>::empty());
        }
        push_opt_str(&mut e, "description", &self.description);
        push_list(&mut e, "onFailure", failures_nodes(&self.on_failure));
        push_list(&mut e, "onSuccess", successes_nodes(&self.on_success));
        push_opt_str(&mut e, "operationId", &self.operation_id);
        push_opt_str(&mut e, "operationPath", &self.operation_path);
        push_obj(&mut e, "outputs", outputs_nodes(&self.outputs));
        push_list(&mut e, "parameters", params_nodes(&self.parameters));
        match &self.request_body {
            None => {},
            Some(rb) => {
                push_node(&mut e, "requestBody", rb.to_node());
            },
        }
        push_str(&mut e, "stepId", &self.step_id);
        push_list(&mut e, "successCriteria", criteria_nodes(&self.success_criteria));
        push_opt_str(&mut e, "workflowId", &self.workflow_id);
        push_exts(&mut e, &self.extensions);
        let r = JsonNode::Obj(e);
        proof {
            crate::nodes::lemma_json_obj_dv(r->Obj_0);
            assert(r.deep_view()->Obj_0 =~= spec_ser_step(self.deep_view())->Obj_0);
        }
        r
    }
}

/// The serialized steps list.
pub open spec fn spec_ser_steps(items: Seq<StepV>) -> Seq<JsonV> {
    map_nodes(items, items.len() as int, |v: StepV| spec_ser_step(v))
}

/// Serializes a steps list.
#[verifier::rlimit(50)]
fn steps_nodes(list: &Vec<Step>) -> (r: Vec<JsonNode>)
    ensures
        r.deep_view() == spec_ser_steps(list.deep_view()),
{
    let ghost f = |v: StepV| spec_ser_step(v);
    let ghost lv = list.deep_view();
    let mut out: Vec<JsonNode> = Vec::new();
    proof {
        assert(out.deep_view() =~= Seq::<JsonV>::empty());
        assert(out.deep_view() =~= map_nodes(lv, 0, f));
    }
    let mut i: usize = 0;
    while i < list.len()
        invariant
            i <= list.len(),
            lv.len() == list@.len(),
            forall|k: int| 0 <= k < list@.len() ==> lv[k] == list@[k].deep_view(),
            out.deep_view() == map_nodes(lv, i as int, f),
        decreases list.len() - i,
    {
        let ghost pre = out;
        let node = list[i].to_node();
        out.push(node);
        proof {
            lemma_deep_view_push(pre, out, node);
        }
        i = i + 1;
    }
    out
}

/// The serialized depends-on list.
pub open spec fn spec_ser_depends(items: Seq<Seq<char>>) -> Seq<JsonV> {
    map_nodes(items, items.len() as int, |s: Seq<char>| JsonV::Str(s))
}

/// Serializes a depends-on list.
fn depends_nodes(list: &Vec<String>) -> (r: Vec<JsonNode>)
    ensures
        r.deep_view() == spec_ser_depends(list.deep_view()),
{
    let ghost f = |s: Seq<char>| JsonV::Str(s);
    let ghost lv = list.deep_view();
    let mut out: Vec<JsonNode> = Vec::new();
    proof {
        assert(out.deep_view() =~= Seq::<JsonV>::empty());
        assert(out.deep_view() =~= map_nodes(lv, 0, f));
    }
    let mut i: usize = 0;
    while i < list.len()
        invariant
            i <= list.len(),
            lv.len() == list@.len(),
            forall|k: int| 0 <= k < list@.len() ==> lv[k] == list@[k]@,
            out.deep_view() == map_nodes(lv, i as int, f),
        decreases list.len() - i,
    {
        let ghost pre = out;
        let node = JsonNode::Str(list[i].clone());
        out.push(node);
        proof {
            lemma_deep_view_push(pre, out, node);
        }
        i = i + 1;
    }
    out
}

/// The `inputs` field of a workflow, omitted when it is the null tree.
pub open spec fn fld_inputs(v: JsonV) -> Seq<(Seq<char>, JsonV)> {
    match v {
        JsonV::Null => Seq::empty(),
        _ => seq![("inputs"@, v)],
    }
}

/// The tree a Workflow Object serializes to.
pub open spec fn spec_ser_workflow(v: WorkflowV) -> JsonV {
    JsonV::Obj(
        fld_list("dependsOn"@, spec_ser_depends(v.depends_on)) + fld_opt_str(
            "description"@,
            v.description,
        ) + fld_list("failureActions"@, spec_ser_failures(v.failure_actions)) + fld_inputs(
            v.inputs,
        ) + fld_obj("outputs"@, spec_ser_outputs(v.outputs)) + fld_list(
            "parameters"@,
            spec_ser_params(v.parameters),
        ) + fld_list("steps"@, spec_ser_steps(v.steps)) + fld_list(
            "successActions"@,
            spec_ser_successes(v.success_actions),
        ) + fld_opt_str("summary"@, v.summary) + fld_str("workflowId"@, v.workflow_id)
            + spec_ser_exts(v.extensions),
    )
}

impl Workflow {
    /// Serializes this object to an ordered tree node.
    pub fn to_node(&self) -> (r: JsonNode)
        ensures
            r.deep_view() == spec_ser_workflow(self.deep_view()),
    {
        let mut e: Vec<(String, JsonNode)> = Vec::new();
        proof {
            assert(e.deep_view() =~= Seq::<(Seq<char>, JsonV)>::empty());
        }
        push_list(&mut e, "dependsOn", depends_nodes(&self.depends_on));
        push_opt_str(&mut e, "description", &self.description);
        push_list(&mut e, "failureActions", failures_nodes(&self.failure_actions));
        match &self.inputs {
            JsonNode::Null => {},
            _ => {
                push_node(&mut e, "inputs", self.inputs.clone());
            },
        }
        push_obj(&mut e, "outputs", outputs_nodes(&self.outputs));
        push_list(&mut e, "parameters", params_nodes(&self.parameters));
        push_list(&mut e, "steps", steps_nodes(&self.steps));
        push_list(&mut e, "successActions", successes_nodes(&self.success_actions));
        push_opt_str(&mut e, "summary", &self.summary);
        push_str(&mut e, "workflowId", &self.workflow_id);
        push_exts(&mut e, &self.extensions);
        let r = JsonNode::Obj(e);
        proof {
            crate::nodes::lemma_json_obj_dv(r->Obj_0);
            assert(r.deep_view()->Obj_0 =~= spec_ser_workflow(self.deep_view())->Obj_0);
        }
        r
    }
}

/// The tree an Info Object serializes to.
pub open spec fn spec_ser_info(v: InfoV) -> JsonV {
    JsonV::Obj(
        fld_opt_str("description"@, v.description) + fld_opt_str("summary"@, v.summary)
            + fld_str("title"@, v.title) + fld_str("version"@, v.version) + spec_ser_exts(
            v.extensions,
        ),
    )
}

impl Info {
    /// Serializes this object to an ordered tree node.
    pub fn to_node(&self) -> (r: JsonNode)
        ensures
            r.deep_view() == spec_ser_info(self.deep_view()),
    {
        let mut e: Vec<(String, JsonNode)> = Vec::new();
        proof {
            assert(e.deep_view() =~= Seq::<(Seq<char>, JsonV)>::empty());
        }
        push_opt_str(&mut e, "description", &self.description);
        push_opt_str(&mut e, "summary", &self.summary);
        push_str(&mut e, "title", &self.title);
        push_str(&mut e, "version", &self.version);
        push_exts(&mut e, &self.extensions);
        let r = JsonNode::Obj(e);
        proof {
            crate::nodes::lemma_json_obj_dv(r->Obj_0);
            assert(r.deep_view()->Obj_0 =~= spec_ser_info(self.deep_view())->Obj_0);
        }
        r
    }
}

/// The tree a Source Description Object serializes to.
pub open spec fn spec_ser_source_description(v: SourceDescriptionV) -> JsonV {
    JsonV::Obj(
        fld_str("name"@, v.name) + fld_opt_str("type"@, v.type_) + fld_str("url"@, v.url)
            + spec_ser_exts(v.extensions),
    )
}

impl SourceDescription {
    /// Serializes this object to an ordered tree node.
    pub fn to_node(&self) -> (r: JsonNode)
        ensures
            r.deep_view() == spec_ser_source_description(self.deep_view()),
    {
        let mut e: Vec<(String, JsonNode)> = Vec::new();
        proof {
            assert(e.deep_view() =~= Seq::<(Seq<char>, JsonV)>::empty());
        }
        push_str(&mut e, "name", &self.name);
        push_opt_str(&mut e, "type", &self.type_);
        push_str(&mut e, "url", &self.url);
        push_exts(&mut e, &self.extensions);
        let r = JsonNode::Obj(e);
        proof {
            crate::nodes::lemma_json_obj_dv(r->Obj_0);
            assert(r.deep_view()->Obj_0 =~= spec_ser_source_description(self.deep_view())->Obj_0);
        }
        r
    }
}

/// The serialized source-descriptions list.
pub open spec fn spec_ser_source_descriptions(items: Seq<SourceDescriptionV>) -> Seq<JsonV> {
    map_nodes(items, items.len() as int, |v: SourceDescriptionV| spec_ser_source_description(v))
}

/// Serializes a source-descriptions list.
fn source_descriptions_nodes(list: &Vec<SourceDescription>) -> (r: Vec<JsonNode>)
    ensures
        r.deep_view() == spec_ser_source_descriptions(list.deep_view()),
{
    let ghost f = |v: SourceDescriptionV| spec_ser_source_description(v);
    let ghost lv = list.deep_view();
    let mut out: Vec<JsonNode> = Vec::new();
    proof {
        assert(out.deep_view() =~= Seq::<JsonV>::empty());
        assert(out.deep_view() =~= map_nodes(lv, 0, f));
    }
    let mut i: usize = 0;
    while i < list.len()
        invariant
            i <= list.len(),
            lv.len() == list@.len(),
            forall|k: int| 0 <= k < list@.len() ==> lv[k] == list@[k].deep_view(),
            out.deep_view() == map_nodes(lv, i as int, f),
        decreases list.len() - i,
    {
        let ghost pre = out;
        let node = list[i].to_node();
        out.push(node);
        proof {
            lemma_deep_view_push(pre, out, node);
        }
        i = i + 1;
    }
    out
}

/// The serialized workflows list.
pub open spec fn spec_ser_workflows(items: Seq<WorkflowV>) -> Seq<JsonV> {
    map_nodes(items, items.len() as int, |v: WorkflowV| spec_ser_workflow(v))
}

/// Serializes a workflows list.
#[verifier::rlimit(50)]
fn workflows_nodes(list: &Vec<Workflow>) -> (r: Vec<JsonNode>)
    ensures
        r.deep_view() == spec_ser_workflows(list.deep_view()),
{
    let ghost f = |v: WorkflowV| spec_ser_workflow(v);
    let ghost lv = list.deep_view();
    let mut out: Vec<JsonNode> = Vec::new();
    proof {
        assert(out.deep_view() =~= Seq::<JsonV>::empty());
        assert(out.deep_view() =~= map_nodes(lv, 0, f));
    }
    let mut i: usize = 0;
    while i < list.len()
        invariant
            i <= list.len(),
            lv.len() == list@.len(),
            forall|k: int| 0 <= k < list@.len() ==> lv[k] == list@[k].deep_view(),
            out.deep_view() == map_nodes(lv, i as int, f),
        decreases list.len() - i,
    {
        let ghost pre = out;
        let node = list[i].to_node();
        out.push(node);
        proof {
            lemma_deep_view_push(pre, out, node);
        }
        i = i + 1;
    }
    out
}

/// The serialized reusable-inputs mapping, in stored order.
pub open spec fn spec_ser_comp_inputs(entries: Seq<(Seq<char>, JsonV)>) -> Seq<
    (Seq<char>, JsonV),
> {
    map_kv_nodes(entries, entries.len() as int, |v: JsonV| v)
}

/// The serialized reusable-parameters mapping, in stored order.
pub open spec fn spec_ser_comp_params(entries: Seq<(Seq<char>, ParameterObjectV)>) -> Seq<
    (Seq<char>, JsonV),
> {
    map_kv_nodes(entries, entries.len() as int, |v: ParameterObjectV| spec_ser_parameter(v))
}

/// The serialized reusable-success-actions mapping, in stored order.
pub open spec fn spec_ser_comp_successes(entries: Seq<(Seq<char>, SuccessObjectV)>) -> Seq<
    (Seq<char>, JsonV),
> {
    map_kv_nodes(entries, entries.len() as int, |v: SuccessObjectV| spec_ser_success(v))
}

/// The serialized reusable-failure-actions mapping, in stored order.
pub open spec fn spec_ser_comp_failures(entries: Seq<(Seq<char>, FailureObjectV)>) -> Seq<
    (Seq<char>, JsonV),
> {
    map_kv_nodes(entries, entries.len() as int, |v: FailureObjectV| spec_ser_failure(v))
}

/// The entries a Components Object serializes to.
pub open spec fn spec_ser_components_entries(v: ComponentsV) -> Seq<(Seq<char>, JsonV)> {
    fld_obj("failureActions"@, spec_ser_comp_failures(v.failure_actions)) + fld_obj(
        "inputs"@,
        spec_ser_comp_inputs(v.inputs),
    ) + fld_obj("parameters"@, spec_ser_comp_params(v.parameters)) + fld_obj(
        "successActions"@,
        spec_ser_comp_successes(v.success_actions),
    ) + spec_ser_exts(v.extensions)
}

impl Components {
    /// Serializes this element's entries; the caller omits the whole
    /// element when they are empty.
    pub fn to_entries(&self) -> (r: Vec<(String, JsonNode)>)
        ensures
            r.deep_view() == spec_ser_components_entries(self.deep_view()),
    {
        let mut e: Vec<(String, JsonNode)> = Vec::new();
        proof {
            assert(e.deep_view() =~= Seq::<(Seq<char>, JsonV)>::empty());
        }
        push_obj(&mut e, "failureActions", comp_failures_nodes(&self.failure_actions));
        push_obj(&mut e, "inputs", comp_inputs_nodes(&self.inputs));
        push_obj(&mut e, "parameters", comp_params_nodes(&self.parameters));
        push_obj(&mut e, "successActions", comp_successes_nodes(&self.success_actions));
        push_exts(&mut e, &self.extensions);
        proof {
            assert(e.deep_view() =~= spec_ser_components_entries(self.deep_view()));
        }
        e
    }
}

/// Serializes the reusable-inputs mapping.
fn comp_inputs_nodes(entries: &Vec<(String, JsonNode)>) -> (r: Vec<(String, JsonNode)>)
    ensures
        r.deep_view() == spec_ser_comp_inputs(entries.deep_view()),
{
    let ghost f = |v: JsonV| v;
    let ghost ev = entries.deep_view();
    let mut out: Vec<(String, JsonNode)> = Vec::new();
    proof {
        assert(out.deep_view() =~= Seq::<(Seq<char>, JsonV)>::empty());
        assert(out.deep_view() =~= map_kv_nodes(ev, 0, f));
    }
    let mut i: usize = 0;
    while i < entries.len()
        invariant
            i <= entries.len(),
            ev.len() == entries@.len(),
            forall|k: int|
                0 <= k < entries@.len() ==> ev[k] == (
                    entries@[k].0@,
                    entries@[k].1.deep_view(),
                ),
            out.deep_view() == map_kv_nodes(ev, i as int, f),
        decreases entries.len() - i,
    {
        let ghost pre = out;
        let key = entries[i].0.clone();
        let val = entries[i].1.clone();
        out.push((key, val));
        proof {
            lemma_deep_view_push(pre, out, (key, val));
        }
        i = i + 1;
    }
    out
}

/// Serializes the reusable-parameters mapping.
fn comp_params_nodes(entries: &Vec<(String, ParameterObject)>) -> (r: Vec<(String, JsonNode)>)
    ensures
        r.deep_view() == spec_ser_comp_params(entries.deep_view()),
{
    let ghost f = |v: ParameterObjectV| spec_ser_parameter(v);
    let ghost ev = entries.deep_view();
    let mut out: Vec<(String, JsonNode)> = Vec::new();
    proof {
        assert(out.deep_view() =~= Seq::<(Seq<char>, JsonV)>::empty());
        assert(out.deep_view() =~= map_kv_nodes(ev, 0, f));
    }
    let mut i: usize = 0;
    while i < entries.len()
        invariant
            i <= entries.len(),
            ev.len() == entries@.len(),
            forall|k: int|
                0 <= k < entries@.len() ==> ev[k] == (
                    entries@[k].0@,
                    entries@[k].1.deep_view(),
                ),
            out.deep_view() == map_kv_nodes(ev, i as int, f),
        decreases entries.len() - i,
    {
        let ghost pre = out;
        let key = entries[i].0.clone();
        let val = entries[i].1.to_node();
        out.push((key, val));
        proof {
            lemma_deep_view_push(pre, out, (key, val));
        }
        i = i + 1;
    }
    out
}

/// Serializes the reusable-success-actions mapping.
fn comp_successes_nodes(entries: &Vec<(String, SuccessObject)>) -> (r: Vec<(String, JsonNode)>)
    ensures
        r.deep_view() == spec_ser_comp_successes(entries.deep_view()),
{
    let ghost f = |v: SuccessObjectV| spec_ser_success(v);
    let ghost ev = entries.deep_view();
    let mut out: Vec<(String, JsonNode)> = Vec::new();
    proof {
        assert(out.deep_view() =~= Seq::<(Seq<char>, JsonV)>::empty());
        assert(out.deep_view() =~= map_kv_nodes(ev, 0, f));
    }
    let mut i: usize = 0;
    while i < entries.len()
        invariant
            i <= entries.len(),
            ev.len() == entries@.len(),
            forall|k: int|
                0 <= k < entries@.len() ==> ev[k] == (
                    entries@[k].0@,
                    entries@[k].1.deep_view(),
                ),
            out.deep_view() == map_kv_nodes(ev, i as int, f),
        decreases entries.len() - i,
    {
        let ghost pre = out;
        let key = entries[i].0.clone();
        let val = entries[i].1.to_node();
        out.push((key, val));
        proof {
            lemma_deep_view_push(pre, out, (key, val));
        }
        i = i + 1;
    }
    out
}

/// Serializes the reusable-failure-actions mapping.
fn comp_failures_nodes(entries: &Vec<(String, FailureObject)>) -> (r: Vec<(String, JsonNode)>)
    ensures
        r.deep_view() == spec_ser_comp_failures(entries.deep_view()),
{
    let ghost f = |v: FailureObjectV| spec_ser_failure(v);
    let ghost ev = entries.deep_view();
    let mut out: Vec<(String, JsonNode)> = Vec::new();
    proof {
        assert(out.deep_view() =~= Seq::<(Seq<char>, JsonV)>::empty());
        assert(out.deep_view() =~= map_kv_nodes(ev, 0, f));
    }
    let mut i: usize = 0;
    while i < entries.len()
        invariant
            i <= entries.len(),
            ev.len() == entries@.len(),
            forall|k: int|
                0 <= k < entries@.len() ==> ev[k] == (
                    entries@[k].0@,
                    entries@[k].1.deep_view(),
                ),
            out.deep_view() == map_kv_nodes(ev, i as int, f),
        decreases entries.len() - i,
    {
        let ghost pre = out;
        let key = entries[i].0.clone();
        let val = entries[i].1.to_node();
        out.push((key, val));
        proof {
            lemma_deep_view_push(pre, out, (key, val));
        }
        i = i + 1;
    }
    out
}

/// The tree the whole description document serializes to.
pub open spec fn spec_ser_description(v: ArazzoDescriptionV) -> JsonV {
    JsonV::Obj(
        fld_str("arazzo"@, v.arazzo) + fld_obj(
            "components"@,
            spec_ser_components_entries(v.components),
        ) + fld_node("info"@, spec_ser_info(v.info)) + fld_list(
            "sourceDescriptions"@,
            spec_ser_source_descriptions(v.source_descriptions),
        ) + fld_list("workflows"@, spec_ser_workflows(v.workflows)) + spec_ser_exts(
            v.extensions,
        ),
    )
}

impl ArazzoDescription {
    /// Serializes the whole document to an ordered tree: the
    /// structural inverse of loading.
    pub fn to_node(&self) -> (r: JsonNode)
        ensures
            r.deep_view() == spec_ser_description(self.deep_view()),
    {
        let mut e: Vec<(String, JsonNode)> = Vec::new();
        proof {
            assert(e.deep_view() =~= Seq::<(Seq<char>, JsonV)>::empty());
        }
        push_str(&mut e, "arazzo", &self.arazzo);
        push_obj(&mut e, "components", self.components.to_entries());
        push_node(&mut e, "info", self.info.to_node());
        push_list(&mut e, "sourceDescriptions", source_descriptions_nodes(
            &self.source_descriptions,
        ));
        push_list(&mut e, "workflows", workflows_nodes(&self.workflows));
        push_exts(&mut e, &self.extensions);
        let r = JsonNode::Obj(e);
        proof {
            crate::nodes::lemma_json_obj_dv(r->Obj_0);
            assert(r.deep_view()->Obj_0 =~= spec_ser_description(self.deep_view())->Obj_0);
        }
        r
    }
}

} // verus!
