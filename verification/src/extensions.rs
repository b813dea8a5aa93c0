//! The dynamic value held by specification-extension fields, and the
//! extraction of `x-`-prefixed extension entries from parsed objects.

use vstd::prelude::*;

use crate::errors::{ErrV, LoadError};
use crate::kv::{kv_upsert, kv_upsert_exec, lemma_deep_view_push};
use crate::nodes::{
    spec_yaml_type_name, yaml_type_name, JsonNode, JsonV, YamlNode, YamlV,
};
use crate::numbers::{parse_real, spec_parse_real};
#[allow(unused_imports)]
use vstd::string::StrSliceExecFns;

verus! {

broadcast use vstd::group_vstd_default;


/// Ghost mirror of [`AnyValue`].
pub enum AnyV {
    Null,
    Boolean(bool),
    Integer(i64),
    UInteger(u64),
    Float(serde_json::Number),
    String(Seq<char>),
    Array(Seq<AnyV>),
    Object(Seq<(Seq<char>, AnyV)>),
}

/// Enum to store a value of additional data
#[derive(Debug, Default, PartialEq)]
pub enum AnyValue {
    /// Empty value
    #[default]
    Null,
    /// Boolean value
    Boolean(bool),
    /// 64-bit signed Integer
    Integer(i64),
    /// 64-bit unsigned Integer
    UInteger(u64),
    /// A number that fits neither integer form, kept opaque
    Float(serde_json::Number),
    /// String
    String(String),
    /// An array of values
    Array(Vec<AnyValue>),
    /// An Object: string keys mapped to values, kept sorted by key
    Object(Vec<(String, AnyValue)>),
}

/// The ghost mirrors of the first `n` elements.
pub open spec fn any_items_dv(items: Seq<AnyValue>, n: int) -> Seq<AnyV>
    decreases items, n,
{
    if n <= 0 || n > items.len() {
        Seq::empty()
    } else {
        any_items_dv(items, n - 1).push(items[n - 1].deep_view())
    }
}

/// The ghost mirrors of the first `n` object entries.
pub open spec fn any_entries_dv(entries: Seq<(String, AnyValue)>, n: int) -> Seq<
    (Seq<char>, AnyV),
>
    decreases entries, n,
{
    if n <= 0 || n > entries.len() {
        Seq::empty()
    } else {
        any_entries_dv(entries, n - 1).push((entries[n - 1].0@, entries[n - 1].1.deep_view()))
    }
}

impl DeepView for AnyValue {
    type V = AnyV;

    open spec fn deep_view(&self) -> AnyV
        decreases self, 0int,
    {
        match self {
            AnyValue::Null => AnyV::Null,
            AnyValue::Boolean(b) => AnyV::Boolean(*b),
            AnyValue::Integer(i) => AnyV::Integer(*i),
            AnyValue::UInteger(u) => AnyV::UInteger(*u),
            AnyValue::Float(x) => AnyV::Float(*x),
            AnyValue::String(s) => AnyV::String(s@),
            AnyValue::Array(items) => AnyV::Array(any_items_dv(items@, items@.len() as int)),
            AnyValue::Object(entries) => AnyV::Object(
                any_entries_dv(entries@, entries@.len() as int),
            ),
        }
    }
}

/// What each position of [`any_items_dv`] holds.
pub proof fn lemma_any_items_dv(items: Seq<AnyValue>, n: int)
    requires
        0 <= n <= items.len(),
    ensures
        any_items_dv(items, n).len() == n,
        forall|k: int| 0 <= k < n ==> #[trigger] any_items_dv(items, n)[k] == items[k].deep_view(),
    decreases n,
{
    if n > 0 {
        lemma_any_items_dv(items, n - 1);
        assert(any_items_dv(items, n) == any_items_dv(items, n - 1).push(
            items[n - 1].deep_view(),
        ));
    }
}

/// What each position of [`any_entries_dv`] holds.
pub proof fn lemma_any_entries_dv(entries: Seq<(String, AnyValue)>, n: int)
    requires
        0 <= n <= entries.len(),
    ensures
        any_entries_dv(entries, n).len() == n,
        forall|k: int|
            0 <= k < n ==> #[trigger] any_entries_dv(entries, n)[k] == (
                entries[k].0@,
                entries[k].1.deep_view(),
            ),
    decreases n,
{
    if n > 0 {
        lemma_any_entries_dv(entries, n - 1);
        assert(any_entries_dv(entries, n) == any_entries_dv(entries, n - 1).push(
            (entries[n - 1].0@, entries[n - 1].1.deep_view()),
        ));
    }
}

impl Clone for AnyValue {
    fn clone(&self) -> (r: Self)
        ensures
            r.deep_view() == self.deep_view(),
        decreases self,
    {
        match self {
            AnyValue::Null => AnyValue::Null,
            AnyValue::Boolean(b) => AnyValue::Boolean(*b),
            AnyValue::Integer(i) => AnyValue::Integer(*i),
            AnyValue::UInteger(u) => AnyValue::UInteger(*u),
            AnyValue::Float(x) => AnyValue::Float(x.clone()),
            AnyValue::String(s) => AnyValue::String(s.clone()),
            AnyValue::Array(items) => {
                let mut out: Vec<AnyValue> = Vec::new();
                let mut i: usize = 0;
                while i < items.len()
                    invariant
                        i <= items.len(),
                        out@.len() == i,
                        forall|k: int|
                            0 <= k < i ==> out@[k].deep_view() == items@[k].deep_view(),
                    decreases items.len() - i,
                {
                    proof {
                        assert(decreases_to!(*self => *items));
                        assert(decreases_to!(*items => items@[i as int]));
                    }
                    out.push(items[i].clone());
                    i = i + 1;
                }
                let r = AnyValue::Array(out);
                proof {
                    lemma_any_items_dv(out@, out@.len() as int);
                    lemma_any_items_dv(items@, items@.len() as int);
                    assert(r.deep_view()->Array_0 =~= self.deep_view()->Array_0);
                }
                r
            },
            AnyValue::Object(entries) => {
                let mut out: Vec<(String, AnyValue)> = Vec::new();
                let mut i: usize = 0;
                while i < entries.len()
                    invariant
                        i <= entries.len(),
                        out@.len() == i,
                        forall|k: int|
                            0 <= k < i ==> (out@[k].0@, out@[k].1.deep_view()) == (
                                entries@[k].0@,
                                entries@[k].1.deep_view(),
                            ),
                    decreases entries.len() - i,
                {
                    proof {
                        assert(decreases_to!(*self => *entries));
                        assert(decreases_to!(*entries => entries@[i as int]));
                        assert(decreases_to!(entries@[i as int] => entries@[i as int].1));
                    }
                    let key = entries[i].0.clone();
                    let val = entries[i].1.clone();
                    out.push((key, val));
                    i = i + 1;
                }
                let r = AnyValue::Object(out);
                proof {
                    lemma_any_entries_dv(out@, out@.len() as int);
                    lemma_any_entries_dv(entries@, entries@.len() as int);
                    assert(r.deep_view()->Object_0 =~= self.deep_view()->Object_0);
                }
                r
            },
        }
    }
}

/// The dynamic value a JSON-shaped node converts to. A number that
/// fits the unsigned 64-bit range is unsigned; one that only fits the
/// signed range is signed; any other number stays an opaque float.
/// This conversion cannot fail.
pub open spec fn spec_json_to_any(v: JsonV) -> AnyV
    decreases v, 0int,
{
    match v {
        JsonV::Null => AnyV::Null,
        JsonV::Bool(b) => AnyV::Boolean(b),
        JsonV::UInt(u) => AnyV::UInteger(u),
        JsonV::Int(i) => if i >= 0 {
            AnyV::UInteger(i as u64)
        } else {
            AnyV::Integer(i)
        },
        JsonV::Num(x) => AnyV::Float(x),
        JsonV::Str(s) => AnyV::String(s),
        JsonV::Arr(items) => AnyV::Array(spec_json_arr_to_any(items, items.len() as int)),
        JsonV::Obj(entries) => AnyV::Object(spec_json_obj_to_any(entries, entries.len() as int)),
    }
}

/// The first `n` elements of an array, converted in order.
pub open spec fn spec_json_arr_to_any(items: Seq<JsonV>, n: int) -> Seq<AnyV>
    decreases items, n,
{
    if n <= 0 || n > items.len() {
        Seq::empty()
    } else {
        spec_json_arr_to_any(items, n - 1).push(spec_json_to_any(items[n - 1]))
    }
}

/// The first `n` object entries, converted and merged in order: a
/// repeated key keeps the later value, and keys end up sorted.
pub open spec fn spec_json_obj_to_any(entries: Seq<(Seq<char>, JsonV)>, n: int) -> Seq<
    (Seq<char>, AnyV),
>
    decreases entries, n,
{
    if n <= 0 || n > entries.len() {
        Seq::empty()
    } else {
        kv_upsert(
            spec_json_obj_to_any(entries, n - 1),
            (entries[n - 1].0, spec_json_to_any(entries[n - 1].1)),
        )
    }
}

/// Converts a JSON-shaped node to a dynamic value.
pub fn json_to_any(n: &JsonNode) -> (r: AnyValue)
    ensures
        r.deep_view() == spec_json_to_any(n.deep_view()),
    decreases *n,
{
    match n {
        JsonNode::Null => AnyValue::Null,
        JsonNode::Bool(b) => AnyValue::Boolean(*b),
        JsonNode::UInt(u) => AnyValue::UInteger(*u),
        JsonNode::Int(i) => {
            if *i >= 0 {
                AnyValue::UInteger(*i as u64)
            } else {
                AnyValue::Integer(*i)
            }
        },
        JsonNode::Num(x) => AnyValue::Float(x.clone()),
        JsonNode::Str(s) => AnyValue::String(s.clone()),
        JsonNode::Arr(items) => {
            let ghost iv = n.deep_view()->Arr_0;
            proof {
                crate::nodes::lemma_json_items_dv(items@, items@.len() as int);
            }
            let mut out: Vec<AnyValue> = Vec::new();
            let mut i: usize = 0;
            while i < items.len()
                invariant
                    i <= items.len(),
                    iv.len() == items@.len(),
                    forall|k: int| 0 <= k < items@.len() ==> iv[k] == items@[k].deep_view(),
                    out.deep_view() == spec_json_arr_to_any(iv, i as int),
                decreases items.len() - i,
            {
                proof {
                    assert(decreases_to!(*n => *items));
                    assert(decreases_to!(*items => items@[i as int]));
                }
                let ghost pre = out;
                let v = json_to_any(&items[i]);
                out.push(v);
                proof {
                    lemma_deep_view_push(pre, out, v);
                }
                i = i + 1;
            }
            let r = AnyValue::Array(out);
            proof {
                lemma_any_items_dv(out@, out@.len() as int);
                lemma_vec_dv_pointwise(out);
                assert(r.deep_view()->Array_0 =~= out.deep_view());
            }
            r
        },
        JsonNode::Obj(entries) => {
            let ghost ev = n.deep_view()->Obj_0;
            proof {
                crate::nodes::lemma_json_entries_dv(entries@, entries@.len() as int);
            }
            let mut out: Vec<(String, AnyValue)> = Vec::new();
            let mut i: usize = 0;
            while i < entries.len()
                invariant
                    i <= entries.len(),
                    ev.len() == entries@.len(),
                    forall|k: int|
                        0 <= k < entries@.len() ==> ev[k] == (
                            entries@[k].0@,
                            entries@[k].1.deep_view(),
                        ),
                    out.deep_view() == spec_json_obj_to_any(ev, i as int),
                decreases entries.len() - i,
            {
                proof {
                    assert(decreases_to!(*n => *entries));
                    assert(decreases_to!(*entries => entries@[i as int]));
                    assert(decreases_to!(entries@[i as int] => entries@[i as int].1));
                }
                let key = entries[i].0.clone();
                let val = json_to_any(&entries[i].1);
                kv_upsert_exec(&mut out, key, val);
                i = i + 1;
            }
            let r = AnyValue::Object(out);
            proof {
                lemma_any_entries_dv(out@, out@.len() as int);
                lemma_kv_vec_dv_pointwise(out);
                assert(r.deep_view()->Object_0 =~= out.deep_view());
            }
            r
        },
    }
}

/// The dynamic value a YAML-shaped node converts to, or the error that
/// rejects it. Integers always stay signed: the source has no unsigned
/// kind. A real scalar is parsed strictly and a malformed one is
/// rejected; non-string mapping keys and alias or unresolvable nodes
/// are rejected too.
pub open spec fn spec_yaml_to_any(v: YamlV) -> Result<AnyV, ErrV>
    decreases v, 0int,
{
    match v {
        YamlV::Real(s) => match spec_parse_real(s) {
            Some(x) => Ok(AnyV::Float(x)),
            None => Err(ErrV::NumericParseFailure(s)),
        },
        YamlV::Integer(i) => Ok(AnyV::Integer(i)),
        YamlV::Str(s) => Ok(AnyV::String(s)),
        YamlV::Boolean(b) => Ok(AnyV::Boolean(b)),
        YamlV::Null => Ok(AnyV::Null),
        YamlV::Arr(items) => match spec_yaml_arr_to_any(items, items.len() as int) {
            Ok(s) => Ok(AnyV::Array(s)),
            Err(e) => Err(e),
        },
        YamlV::Hash(entries) => match spec_yaml_hash_to_any(entries, entries.len() as int) {
            Ok(m) => Ok(AnyV::Object(m)),
            Err(e) => Err(e),
        },
        YamlV::Alias(_) => Err(ErrV::UnsupportedValueKind(spec_yaml_type_name(v))),
        YamlV::BadValue => Err(ErrV::UnsupportedValueKind(spec_yaml_type_name(v))),
    }
}

/// The first `n` elements converted in order, stopping at the first
/// rejected element.
pub open spec fn spec_yaml_arr_to_any(items: Seq<YamlV>, n: int) -> Result<Seq<AnyV>, ErrV>
    decreases items, n,
{
    if n <= 0 || n > items.len() {
        Ok(Seq::empty())
    } else {
        match spec_yaml_arr_to_any(items, n - 1) {
            Err(e) => Err(e),
            Ok(s) => match spec_yaml_to_any(items[n - 1]) {
                Err(e) => Err(e),
                Ok(a) => Ok(s.push(a)),
            },
        }
    }
}

/// The first `n` mapping entries converted and merged in order. A
/// non-string key rejects the mapping; a repeated key keeps the later
/// value.
pub open spec fn spec_yaml_hash_to_any(entries: Seq<(YamlV, YamlV)>, n: int) -> Result<
    Seq<(Seq<char>, AnyV)>,
    ErrV,
>
    decreases entries, n,
{
    if n <= 0 || n > entries.len() {
        Ok(Seq::empty())
    } else {
        match spec_yaml_hash_to_any(entries, n - 1) {
            Err(e) => Err(e),
            Ok(m) => match entries[n - 1].0 {
                YamlV::Str(k) => match spec_yaml_to_any(entries[n - 1].1) {
                    Err(e) => Err(e),
                    Ok(a) => Ok(kv_upsert(m, (k, a))),
                },
                _ => Err(ErrV::UnsupportedKey(spec_yaml_type_name(entries[n - 1].0))),
            },
        }
    }
}

/// A rejection among the first `k` entries decides the whole array.
proof fn lemma_yaml_arr_err_persists(items: Seq<YamlV>, k: int, n: int)
    requires
        0 <= k <= n <= items.len(),
        spec_yaml_arr_to_any(items, k) is Err,
    ensures
        spec_yaml_arr_to_any(items, n) == spec_yaml_arr_to_any(items, k),
    decreases n - k,
{
    if n > k {
        lemma_yaml_arr_err_persists(items, k, n - 1);
    }
}

/// A rejection among the first `k` entries decides the whole mapping.
proof fn lemma_yaml_hash_err_persists(entries: Seq<(YamlV, YamlV)>, k: int, n: int)
    requires
        0 <= k <= n <= entries.len(),
        spec_yaml_hash_to_any(entries, k) is Err,
    ensures
        spec_yaml_hash_to_any(entries, n) == spec_yaml_hash_to_any(entries, k),
    decreases n - k,
{
    if n > k {
        lemma_yaml_hash_err_persists(entries, k, n - 1);
    }
}

/// Converts a YAML-shaped node to a dynamic value, or rejects it.
pub fn yaml_to_any(n: &YamlNode) -> (r: Result<AnyValue, LoadError>)
    ensures
        match r {
            Ok(a) => spec_yaml_to_any(n.deep_view()) == Ok::<AnyV, ErrV>(a.deep_view()),
            Err(e) => spec_yaml_to_any(n.deep_view()) == Err::<AnyV, ErrV>(e.deep_view()),
        },
    decreases *n,
{
    match n {
        YamlNode::Real(s) => match parse_real(s.as_str()) {
            Some(x) => Ok(AnyValue::Float(x)),
            None => Err(LoadError::NumericParseFailure(s.clone())),
        },
        YamlNode::Integer(i) => Ok(AnyValue::Integer(*i)),
        YamlNode::Str(s) => Ok(AnyValue::String(s.clone())),
        YamlNode::Boolean(b) => Ok(AnyValue::Boolean(*b)),
        YamlNode::Null => Ok(AnyValue::Null),
        YamlNode::Arr(items) => {
            let ghost iv = n.deep_view()->Arr_0;
            proof {
                crate::nodes::lemma_yaml_items_dv(items@, items@.len() as int);
            }
            let mut out: Vec<AnyValue> = Vec::new();
            proof {
                assert(out.deep_view() =~= Seq::<AnyV>::empty());
            }
            let mut i: usize = 0;
            while i < items.len()
                invariant
                    i <= items.len(),
                    iv.len() == items@.len(),
                    forall|k: int| 0 <= k < items@.len() ==> iv[k] == items@[k].deep_view(),
                    spec_yaml_arr_to_any(iv, i as int) == Ok::<Seq<AnyV>, ErrV>(out.deep_view()),
                decreases items.len() - i,
            {
                proof {
                    assert(decreases_to!(*n => *items));
                    assert(decreases_to!(*items => items@[i as int]));
                }
                let ghost pre = out;
                match yaml_to_any(&items[i]) {
                    Ok(a) => {
                        out.push(a);
                        proof {
                            lemma_deep_view_push(pre, out, a);
                        }
                    },
                    Err(e) => {
                        proof {
                            lemma_yaml_arr_err_persists(iv, i + 1, iv.len() as int);
                        }
                        return Err(e);
                    },
                }
                i = i + 1;
            }
            let r = AnyValue::Array(out);
            proof {
                lemma_any_items_dv(out@, out@.len() as int);
                lemma_vec_dv_pointwise(out);
                assert(r.deep_view()->Array_0 =~= out.deep_view());
            }
            Ok(r)
        },
        YamlNode::Hash(entries) => {
            let ghost ev = n.deep_view()->Hash_0;
            proof {
                crate::nodes::lemma_yaml_entries_dv(entries@, entries@.len() as int);
            }
            let mut out: Vec<(String, AnyValue)> = Vec::new();
            proof {
                assert(out.deep_view() =~= Seq::<(Seq<char>, AnyV)>::empty());
            }
            let mut i: usize = 0;
            while i < entries.len()
                invariant
                    i <= entries.len(),
                    ev.len() == entries@.len(),
                    forall|k: int|
                        0 <= k < entries@.len() ==> ev[k] == (
                            entries@[k].0.deep_view(),
                            entries@[k].1.deep_view(),
                        ),
                    spec_yaml_hash_to_any(ev, i as int) == Ok::<Seq<(Seq<char>, AnyV)>, ErrV>(
                        out.deep_view(),
                    ),
                decreases entries.len() - i,
            {
                proof {
                    assert(decreases_to!(*n => *entries));
                    assert(decreases_to!(*entries => entries@[i as int]));
                    assert(decreases_to!(entries@[i as int] => entries@[i as int].1));
                }
                match &entries[i].0 {
                    YamlNode::Str(k) => {
                        let key = k.clone();
                        match yaml_to_any(&entries[i].1) {
                            Ok(a) => {
                                kv_upsert_exec(&mut out, key, a);
                            },
                            Err(e) => {
                                proof {
                                    lemma_yaml_hash_err_persists(ev, i + 1, ev.len() as int);
                                }
                                return Err(e);
                            },
                        }
                    },
                    _ => {
                        let e = LoadError::UnsupportedKey(yaml_type_name(&entries[i].0));
                        proof {
                            lemma_yaml_hash_err_persists(ev, i + 1, ev.len() as int);
                        }
                        return Err(e);
                    },
                }
                i = i + 1;
            }
            let r = AnyValue::Object(out);
            proof {
                lemma_any_entries_dv(out@, out@.len() as int);
                lemma_kv_vec_dv_pointwise(out);
                assert(r.deep_view()->Object_0 =~= out.deep_view());
            }
            Ok(r)
        },
        YamlNode::Alias(_) => Err(LoadError::UnsupportedValueKind(yaml_type_name(n))),
        YamlNode::BadValue => Err(LoadError::UnsupportedValueKind(yaml_type_name(n))),
    }
}

/// Whether a key carries the extension prefix: its first two
/// characters are literally `x-`.
pub open spec fn has_ext_prefix(k: Seq<char>) -> bool {
    k.len() >= 2 && k[0] == 'x' && k[1] == '-'
}

/// The extension mapping drawn from the first `n` object entries:
/// every key whose first two characters are literally `x-` is taken,
/// with the prefix stripped, its value converted; other keys are left
/// alone. A repeated extension name keeps the later value.
pub open spec fn spec_json_extract_extensions(entries: Seq<(Seq<char>, JsonV)>, n: int) -> Seq<
    (Seq<char>, AnyV),
>
    decreases n,
{
    if n <= 0 || n > entries.len() {
        Seq::empty()
    } else {
        let prev = spec_json_extract_extensions(entries, n - 1);
        if has_ext_prefix(entries[n - 1].0) {
            kv_upsert(prev, (entries[n - 1].0.skip(2), spec_json_to_any(entries[n - 1].1)))
        } else {
            prev
        }
    }
}

/// Whether the string starts with the extension prefix.
fn str_has_ext_prefix(k: &str) -> (r: bool)
    ensures
        r == has_ext_prefix(k@),
{
    let len = k.unicode_len();
    len >= 2 && k.get_char(0) == 'x' && k.get_char(1) == '-'
}

/// Extracts all the extension values from the object, stripping the `x-` prefix off.
pub fn json_extract_extensions(map: &Vec<(String, JsonNode)>) -> (r: Vec<(String, AnyValue)>)
    ensures
        r.deep_view() == spec_json_extract_extensions(
            map.deep_view(),
            map.deep_view().len() as int,
        ),
{
    let ghost ev = map.deep_view();
    let mut out: Vec<(String, AnyValue)> = Vec::new();
    let mut i: usize = 0;
    while i < map.len()
        invariant
            i <= map.len(),
            ev.len() == map@.len(),
            forall|k: int| 0 <= k < map@.len() ==> ev[k] == (map@[k].0@, map@[k].1.deep_view()),
            out.deep_view() == spec_json_extract_extensions(ev, i as int),
        decreases map.len() - i,
    {
        let key = &map[i].0;
        if str_has_ext_prefix(key.as_str()) {
            let name = key.as_str().substring_char(2, key.as_str().unicode_len()).to_owned();
            proof {
                assert(name@ =~= ev[i as int].0.skip(2));
            }
            let val = json_to_any(&map[i].1);
            kv_upsert_exec(&mut out, name, val);
        }
        i = i + 1;
    }
    out
}

/// The extension mapping drawn from the first `n` mapping entries:
/// string keys with the `x-` prefix are taken; everything else,
/// including non-string keys, is left alone. Converting a taken value
/// can reject the document.
pub open spec fn spec_yaml_extract_extensions(entries: Seq<(YamlV, YamlV)>, n: int) -> Result<
    Seq<(Seq<char>, AnyV)>,
    ErrV,
>
    decreases n,
{
    if n <= 0 || n > entries.len() {
        Ok(Seq::empty())
    } else {
        match spec_yaml_extract_extensions(entries, n - 1) {
            Err(e) => Err(e),
            Ok(m) => match entries[n - 1].0 {
                YamlV::Str(k) => if has_ext_prefix(k) {
                    match spec_yaml_to_any(entries[n - 1].1) {
                        Err(e) => Err(e),
                        Ok(a) => Ok(kv_upsert(m, (k.skip(2), a))),
                    }
                } else {
                    Ok(m)
                },
                _ => Ok(m),
            },
        }
    }
}

/// A rejection among the first `k` entries decides the extraction.
proof fn lemma_yaml_ext_err_persists(entries: Seq<(YamlV, YamlV)>, k: int, n: int)
    requires
        0 <= k <= n <= entries.len(),
        spec_yaml_extract_extensions(entries, k) is Err,
    ensures
        spec_yaml_extract_extensions(entries, n) == spec_yaml_extract_extensions(entries, k),
    decreases n - k,
{
    if n > k {
        lemma_yaml_ext_err_persists(entries, k, n - 1);
    }
}

/// Extracts all the extension values from the hash, stripping the `x-` prefix off.
pub fn yaml_extract_extensions(hash: &Vec<(YamlNode, YamlNode)>) -> (r: Result<
    Vec<(String, AnyValue)>,
    LoadError,
>)
    ensures
        match r {
            Ok(m) => spec_yaml_extract_extensions(hash.deep_view(), hash.deep_view().len() as int)
                == Ok::<Seq<(Seq<char>, AnyV)>, ErrV>(m.deep_view()),
            Err(e) => spec_yaml_extract_extensions(
                hash.deep_view(),
                hash.deep_view().len() as int,
            ) == Err::<Seq<(Seq<char>, AnyV)>, ErrV>(e.deep_view()),
        },
{
    let ghost ev = hash.deep_view();
    let mut out: Vec<(String, AnyValue)> = Vec::new();
    proof {
        assert(out.deep_view() =~= Seq::<(Seq<char>, AnyV)>::empty());
    }
    let mut i: usize = 0;
    while i < hash.len()
        invariant
            i <= hash.len(),
            ev.len() == hash@.len(),
            forall|k: int|
                0 <= k < hash@.len() ==> ev[k] == (
                    hash@[k].0.deep_view(),
                    hash@[k].1.deep_view(),
                ),
            spec_yaml_extract_extensions(ev, i as int) == Ok::<Seq<(Seq<char>, AnyV)>, ErrV>(
                out.deep_view(),
            ),
        decreases hash.len() - i,
    {
        match &hash[i].0 {
            YamlNode::Str(k) => {
                if str_has_ext_prefix(k.as_str()) {
                    let name = k.as_str().substring_char(2, k.as_str().unicode_len()).to_owned();
                    proof {
                        assert(name@ =~= ev[i as int].0->Str_0.skip(2));
                    }
                    match yaml_to_any(&hash[i].1) {
                        Ok(a) => {
                            kv_upsert_exec(&mut out, name, a);
                        },
                        Err(e) => {
                            proof {
                                lemma_yaml_ext_err_persists(ev, i + 1, ev.len() as int);
                            }
                            return Err(e);
                        },
                    }
                }
            },
            _ => {},
        }
        i = i + 1;
    }
    Ok(out)
}

/// Each position of a vector's deep view is its element's deep view.
proof fn lemma_vec_dv_pointwise(v: Vec<AnyValue>)
    ensures
        v.deep_view().len() == v@.len(),
        forall|k: int| 0 <= k < v@.len() ==> #[trigger] v.deep_view()[k] == v@[k].deep_view(),
{
}

/// Each position of an entry vector's deep view is its entry's views.
proof fn lemma_kv_vec_dv_pointwise(v: Vec<(String, AnyValue)>)
    ensures
        v.deep_view().len() == v@.len(),
        forall|k: int|
            0 <= k < v@.len() ==> #[trigger] v.deep_view()[k] == (v@[k].0@, v@[k].1.deep_view()),
{
}

} // verus!
