//! Functions for loading from a parsed YAML-shaped document tree. The
//! document loader converts the YAML tree to the equivalent JSON
//! shape, then loads that; dynamic values also have a direct YAML
//! conversion that keeps integers signed.

use vstd::prelude::*;

use crate::errors::{ErrV, LoadError};
use crate::kv::{kv_upsert, kv_upsert_exec};
use crate::nodes::{
    lemma_yaml_entries_dv, lemma_yaml_items_dv, spec_yaml_type_name, yaml_type_name, JsonNode,
    JsonV, YamlNode, YamlV,
};
use crate::numbers::{
    num_double_from_i64, num_double_of_i64, num_trunc, number_to_i64_lossy, parse_real,
    spec_parse_real,
};
use crate::text::{bool_text, bool_to_string, dec_digits_signed, i64_to_dec_string, str_eq};
use crate::v1_0::{ArazzoDescription, ArazzoDescriptionV};
#[allow(unused_imports)]
use vstd::string::StrSliceExecFns;

verus! {

broadcast use vstd::group_vstd_default;

/// The YAML mapping entries the loader receives.
pub type YamlHash = Vec<(YamlNode, YamlNode)>;

/// Ghost mirror of a [`YamlHash`].
pub type YamlHashV = Seq<(YamlV, YamlV)>;

/// The value of the first entry whose key is the string `k`, if any.
pub open spec fn yaml_kv_get(entries: YamlHashV, k: Seq<char>) -> Option<YamlV>
    decreases entries.len(),
{
    if entries.len() == 0 {
        None
    } else if entries[0].0 == YamlV::Str(k) {
        Some(entries[0].1)
    } else {
        yaml_kv_get(entries.drop_first(), k)
    }
}

/// Looks up a String key in the given hash, returning the value node.
pub fn yaml_hash_lookup<'a>(hash: &'a YamlHash, key: &str) -> (r: Option<&'a YamlNode>)
    ensures
        match r {
            Some(v) => yaml_kv_get(hash.deep_view(), key@) == Some(v.deep_view()),
            None => yaml_kv_get(hash.deep_view(), key@) is None,
        },
{
    let ghost ev = hash.deep_view();
    proof {
        lemma_yaml_entries_dv(hash@, hash@.len() as int);
        assert(ev.skip(0) =~= ev);
    }
    let mut i: usize = 0;
    while i < hash.len()
        invariant
            i <= hash.len(),
            ev.len() == hash@.len(),
            forall|k: int|
                0 <= k < hash@.len() ==> ev[k] == (
                    hash@[k].0.deep_view(),
                    hash@[k].1.deep_view(),
                ),
            yaml_kv_get(ev, key@) == yaml_kv_get(ev.skip(i as int), key@),
        decreases hash.len() - i,
    {
        let matches_key = match &hash[i].0 {
            YamlNode::Str(s) => str_eq(s.as_str(), key),
            _ => false,
        };
        if matches_key {
            proof {
                assert(ev.skip(i as int)[0] == ev[i as int]);
            }
            return Some(&hash[i].1);
        }
        proof {
            let sk = ev.skip(i as int);
            assert(sk[0] == ev[i as int]);
            assert(sk.drop_first() =~= ev.skip(i + 1));
        }
        i = i + 1;
    }
    proof {
        assert(ev.skip(i as int).len() == 0);
    }
    None
}

/// The string a YAML scalar converts to when looked up as a string: a
/// real keeps its raw text, integers and booleans render to their
/// usual text, strings pass through, and anything else has none.
pub open spec fn spec_yaml_stringish(v: YamlV) -> Option<Seq<char>> {
    match v {
        YamlV::Real(s) => Some(s),
        YamlV::Integer(i) => Some(dec_digits_signed(i as int)),
        YamlV::Str(s) => Some(s),
        YamlV::Boolean(b) => Some(bool_text(b)),
        _ => None,
    }
}

/// What [`yaml_hash_lookup_string`] returns.
pub open spec fn spec_yaml_lookup_string(entries: YamlHashV, k: Seq<char>) -> Option<Seq<char>> {
    match yaml_kv_get(entries, k) {
        None => None,
        Some(v) => spec_yaml_stringish(v),
    }
}

/// Looks up a String value with the given String key in a YAML Hash. If the
/// value is easily convertable to a String (is a Number or Boolean), its
/// text will be used.
pub fn yaml_hash_lookup_string(hash: &YamlHash, key: &str) -> (r: Option<String>)
    ensures
        match r {
            Some(s) => spec_yaml_lookup_string(hash.deep_view(), key@) == Some(s@),
            None => spec_yaml_lookup_string(hash.deep_view(), key@) is None,
        },
{
    match yaml_hash_lookup(hash, key) {
        None => None,
        Some(v) => match v {
            YamlNode::Real(s) => Some(s.clone()),
            YamlNode::Integer(i) => Some(i64_to_dec_string(*i)),
            YamlNode::Str(s) => Some(s.clone()),
            YamlNode::Boolean(b) => Some(bool_to_string(*b)),
            _ => None,
        },
    }
}

/// What [`yaml_hash_lookup_number`] returns: a real parses strictly
/// (malformed text gives none here), an integer widens to the
/// equivalent double-valued number.
pub open spec fn spec_yaml_lookup_number(entries: YamlHashV, k: Seq<char>) -> Option<
    serde_json::Number,
> {
    match yaml_kv_get(entries, k) {
        Some(YamlV::Real(s)) => spec_parse_real(s),
        Some(YamlV::Integer(i)) => num_double_of_i64(i),
        _ => None,
    }
}

/// Looks up a numeric value with the given String key in a YAML Hash. If the
/// value is an integer it will be converted to a double.
pub fn yaml_hash_lookup_number(hash: &YamlHash, key: &str) -> (r: Option<serde_json::Number>)
    ensures
        r == spec_yaml_lookup_number(hash.deep_view(), key@),
{
    match yaml_hash_lookup(hash, key) {
        Some(v) => match v {
            YamlNode::Real(s) => parse_real(s.as_str()),
            YamlNode::Integer(i) => num_double_from_i64(*i),
            _ => None,
        },
        None => None,
    }
}

/// What [`yaml_hash_lookup_integer`] returns: a real parses then
/// truncates, an integer passes through.
pub open spec fn spec_yaml_lookup_integer(entries: YamlHashV, k: Seq<char>) -> Option<i64> {
    match yaml_kv_get(entries, k) {
        Some(YamlV::Real(s)) => match spec_parse_real(s) {
            Some(x) => num_trunc(x),
            None => None,
        },
        Some(YamlV::Integer(i)) => Some(i),
        _ => None,
    }
}

/// Looks up an integer value with the given String key in a YAML Hash. If the
/// value is a float it will be converted to an integer.
pub fn yaml_hash_lookup_integer(hash: &YamlHash, key: &str) -> (r: Option<i64>)
    ensures
        r == spec_yaml_lookup_integer(hash.deep_view(), key@),
{
    match yaml_hash_lookup(hash, key) {
        Some(v) => match v {
            YamlNode::Real(s) => match parse_real(s.as_str()) {
                Some(x) => number_to_i64_lossy(&x),
                None => None,
            },
            YamlNode::Integer(i) => Some(*i),
            _ => None,
        },
        None => None,
    }
}

/// What [`yaml_hash_require_string`] returns: only a string value is
/// accepted; an absent key gives `MissingRequiredField` and any other
/// kind gives `WrongType`.
pub open spec fn spec_yaml_require_string(
    entries: YamlHashV,
    k: Seq<char>,
    section: Seq<char>,
) -> Result<Seq<char>, ErrV> {
    match yaml_kv_get(entries, k) {
        None => Err(ErrV::MissingRequiredField(k, section)),
        Some(YamlV::Str(s)) => Ok(s),
        Some(v) => Err(ErrV::WrongType(k, "String"@, spec_yaml_type_name(v))),
    }
}

/// Looks up a required String value with the given String key in a YAML Hash,
/// citing the given fixed-fields section on failure. If the key does not
/// exist, or the resulting value is not a String, an Error is returned.
pub fn yaml_hash_require_string(hash: &YamlHash, key: &str, section: &str) -> (r: Result<
    String,
    LoadError,
>)
    ensures
        match r {
            Ok(s) => spec_yaml_require_string(hash.deep_view(), key@, section@) == Ok::<
                Seq<char>,
                ErrV,
            >(s@),
            Err(e) => spec_yaml_require_string(hash.deep_view(), key@, section@) == Err::<
                Seq<char>,
                ErrV,
            >(e.deep_view()),
        },
{
    match yaml_hash_lookup(hash, key) {
        None => Err(
            LoadError::MissingRequiredField(key.to_owned(), section.to_owned()),
        ),
        Some(v) => match v {
            YamlNode::Str(s) => Ok(s.clone()),
            _ => Err(
                LoadError::WrongType(key.to_owned(), "String".to_owned(), yaml_type_name(v)),
            ),
        },
    }
}

/// The stringish elements of the first `n` sequence entries, in
/// order; other elements are ignored.
pub open spec fn spec_yaml_stringish_list(items: Seq<YamlV>, n: int) -> Seq<Seq<char>>
    decreases n,
{
    if n <= 0 || n > items.len() {
        Seq::empty()
    } else {
        let prev = spec_yaml_stringish_list(items, n - 1);
        match spec_yaml_stringish(items[n - 1]) {
            Some(s) => prev.push(s),
            None => prev,
        }
    }
}

/// What [`yaml_hash_lookup_string_list`] returns.
pub open spec fn spec_yaml_lookup_string_list(entries: YamlHashV, k: Seq<char>) -> Option<
    Seq<Seq<char>>,
> {
    match yaml_kv_get(entries, k) {
        Some(YamlV::Arr(items)) => Some(spec_yaml_stringish_list(items, items.len() as int)),
        _ => None,
    }
}

/// Looks up an Array of String values with the given String key in a YAML
/// Hash. If a value is easily convertable to a String (is a Number or
/// Boolean), its text will be used. All other values are ignored.
pub fn yaml_hash_lookup_string_list(hash: &YamlHash, key: &str) -> (r: Option<Vec<String>>)
    ensures
        match r {
            Some(list) => spec_yaml_lookup_string_list(hash.deep_view(), key@) == Some(
                list.deep_view(),
            ),
            None => spec_yaml_lookup_string_list(hash.deep_view(), key@) is None,
        },
{
    match yaml_hash_lookup(hash, key) {
        Some(v) => match v {
            YamlNode::Arr(items) => {
                let ghost iv = v.deep_view()->Arr_0;
                proof {
                    lemma_yaml_items_dv(items@, items@.len() as int);
                }
                let mut out: Vec<String> = Vec::new();
                proof {
                    assert(out.deep_view() =~= Seq::<Seq<char>>::empty());
                }
                let mut i: usize = 0;
                while i < items.len()
                    invariant
                        i <= items.len(),
                        iv.len() == items@.len(),
                        forall|k: int| 0 <= k < items@.len() ==> iv[k] == items@[k].deep_view(),
                        out.deep_view() == spec_yaml_stringish_list(iv, i as int),
                    decreases items.len() - i,
                {
                    let ghost pre = out;
                    let picked: Option<String> = match &items[i] {
                        YamlNode::Real(s) => Some(s.clone()),
                        YamlNode::Integer(x) => Some(i64_to_dec_string(*x)),
                        YamlNode::Str(s) => Some(s.clone()),
                        YamlNode::Boolean(b) => Some(bool_to_string(*b)),
                        _ => None,
                    };
                    match picked {
                        Some(s) => {
                            out.push(s);
                            proof {
                                crate::kv::lemma_deep_view_push(pre, out, s);
                            }
                        },
                        None => {},
                    }
                    i = i + 1;
                }
                Some(out)
            },
            _ => None,
        },
        None => None,
    }
}

/// The JSON-shaped tree a YAML-shaped tree converts to, or the error
/// that rejects it: a malformed real, a non-string mapping key, or an
/// alias or unresolvable node. Integers stay signed integer nodes;
/// reals parse to opaque numbers; repeated mapping keys keep the
/// later value and keys end up sorted.
pub open spec fn spec_yaml_to_json(v: YamlV) -> Result<JsonV, ErrV>
    decreases v, 0int,
{
    match v {
        YamlV::Null => Ok(JsonV::Null),
        YamlV::Boolean(b) => Ok(JsonV::Bool(b)),
        YamlV::Integer(i) => Ok(JsonV::Int(i)),
        YamlV::Real(s) => match spec_parse_real(s) {
            Some(x) => Ok(JsonV::Num(x)),
            None => Err(ErrV::NumericParseFailure(s)),
        },
        YamlV::Str(s) => Ok(JsonV::Str(s)),
        YamlV::Arr(items) => match spec_yaml_arr_to_json(items, items.len() as int) {
            Ok(s) => Ok(JsonV::Arr(s)),
            Err(e) => Err(e),
        },
        YamlV::Hash(entries) => match spec_yaml_hash_to_json(entries, entries.len() as int) {
            Ok(m) => Ok(JsonV::Obj(m)),
            Err(e) => Err(e),
        },
        YamlV::Alias(_) => Err(ErrV::UnsupportedValueKind(spec_yaml_type_name(v))),
        YamlV::BadValue => Err(ErrV::UnsupportedValueKind(spec_yaml_type_name(v))),
    }
}

/// The first `n` sequence elements converted in order, stopping at
/// the first rejected element.
pub open spec fn spec_yaml_arr_to_json(items: Seq<YamlV>, n: int) -> Result<Seq<JsonV>, ErrV>
    decreases items, n,
{
    if n <= 0 || n > items.len() {
        Ok(Seq::empty())
    } else {
        match spec_yaml_arr_to_json(items, n - 1) {
            Err(e) => Err(e),
            Ok(s) => match spec_yaml_to_json(items[n - 1]) {
                Err(e) => Err(e),
                Ok(j) => Ok(s.push(j)),
            },
        }
    }
}

/// The first `n` mapping entries converted and merged in order; a
/// non-string key rejects the mapping.
pub open spec fn spec_yaml_hash_to_json(entries: YamlHashV, n: int) -> Result<
    Seq<(Seq<char>, JsonV)>,
    ErrV,
>
    decreases entries, n,
{
    if n <= 0 || n > entries.len() {
        Ok(Seq::empty())
    } else {
        match spec_yaml_hash_to_json(entries, n - 1) {
            Err(e) => Err(e),
            Ok(m) => match entries[n - 1].0 {
                YamlV::Str(k) => match spec_yaml_to_json(entries[n - 1].1) {
                    Err(e) => Err(e),
                    Ok(j) => Ok(kv_upsert(m, (k, j))),
                },
                _ => Err(ErrV::UnsupportedKey(spec_yaml_type_name(entries[n - 1].0))),
            },
        }
    }
}

/// A rejection among the first `k` elements decides the sequence.
proof fn lemma_yaml_arr_json_err_persists(items: Seq<YamlV>, k: int, n: int)
    requires
        0 <= k <= n <= items.len(),
        spec_yaml_arr_to_json(items, k) is Err,
    ensures
        spec_yaml_arr_to_json(items, n) == spec_yaml_arr_to_json(items, k),
    decreases n - k,
{
    if n > k {
        lemma_yaml_arr_json_err_persists(items, k, n - 1);
    }
}

/// A rejection among the first `k` entries decides the mapping.
proof fn lemma_yaml_hash_json_err_persists(entries: YamlHashV, k: int, n: int)
    requires
        0 <= k <= n <= entries.len(),
        spec_yaml_hash_to_json(entries, k) is Err,
    ensures
        spec_yaml_hash_to_json(entries, n) == spec_yaml_hash_to_json(entries, k),
    decreases n - k,
{
    if n > k {
        lemma_yaml_hash_json_err_persists(entries, k, n - 1);
    }
}

/// Converts the Yaml value to the equivalent JSON value
pub fn yaml_to_json(yaml: &YamlNode) -> (r: Result<JsonNode, LoadError>)
    ensures
        match r {
            Ok(j) => spec_yaml_to_json(yaml.deep_view()) == Ok::<JsonV, ErrV>(j.deep_view()),
            Err(e) => spec_yaml_to_json(yaml.deep_view()) == Err::<JsonV, ErrV>(e.deep_view()),
        },
    decreases *yaml,
{
    match yaml {
        YamlNode::Null => Ok(JsonNode::Null),
        YamlNode::Boolean(b) => Ok(JsonNode::Bool(*b)),
        YamlNode::Integer(i) => Ok(JsonNode::Int(*i)),
        YamlNode::Real(s) => match parse_real(s.as_str()) {
            Some(x) => Ok(JsonNode::Num(x)),
            None => Err(LoadError::NumericParseFailure(s.clone())),
        },
        YamlNode::Str(s) => Ok(JsonNode::Str(s.clone())),
        YamlNode::Arr(items) => {
            let ghost iv = yaml.deep_view()->Arr_0;
            proof {
                lemma_yaml_items_dv(items@, items@.len() as int);
            }
            let mut out: Vec<JsonNode> = Vec::new();
            proof {
                assert(out.deep_view() =~= Seq::<JsonV>::empty());
            }
            let mut i: usize = 0;
            while i < items.len()
                invariant
                    i <= items.len(),
                    iv.len() == items@.len(),
                    forall|k: int| 0 <= k < items@.len() ==> iv[k] == items@[k].deep_view(),
                    spec_yaml_arr_to_json(iv, i as int) == Ok::<Seq<JsonV>, ErrV>(
                        out.deep_view(),
                    ),
                decreases items.len() - i,
            {
                proof {
                    assert(decreases_to!(*yaml => *items));
                    assert(decreases_to!(*items => items@[i as int]));
                }
                let ghost pre = out;
                match yaml_to_json(&items[i]) {
                    Ok(j) => {
                        out.push(j);
                        proof {
                            crate::kv::lemma_deep_view_push(pre, out, j);
                        }
                    },
                    Err(e) => {
                        proof {
                            lemma_yaml_arr_json_err_persists(iv, i + 1, iv.len() as int);
                        }
                        return Err(e);
                    },
                }
                i = i + 1;
            }
            let r = JsonNode::Arr(out);
            proof {
                crate::nodes::lemma_json_arr_dv(out);
                assert(r.deep_view()->Arr_0 =~= out.deep_view());
            }
            Ok(r)
        },
        YamlNode::Hash(entries) => {
            let ghost ev = yaml.deep_view()->Hash_0;
            proof {
                lemma_yaml_entries_dv(entries@, entries@.len() as int);
            }
            let mut out: Vec<(String, JsonNode)> = Vec::new();
            proof {
                assert(out.deep_view() =~= Seq::<(Seq<char>, JsonV)>::empty());
            }
            let mut i: usize = 0;
            while i < entries.len()
                invariant
                    i <= entries.len(),
                    ev.len() == entries@.len(),
                    forall|k: int|
                        0 <= k < entries@.len() ==> ev[k] == (
                            entries@[k].0.deep_view(),
                            entries@[k].1.deep_view(),
                        ),
                    spec_yaml_hash_to_json(ev, i as int) == Ok::<Seq<(Seq<char>, JsonV)>, ErrV>(
                        out.deep_view(),
                    ),
                decreases entries.len() - i,
            {
                proof {
                    assert(decreases_to!(*yaml => *entries));
                    assert(decreases_to!(*entries => entries@[i as int]));
                    assert(decreases_to!(entries@[i as int] => entries@[i as int].1));
                }
                match &entries[i].0 {
                    YamlNode::Str(k) => {
                        let key = k.clone();
                        match yaml_to_json(&entries[i].1) {
                            Ok(j) => {
                                kv_upsert_exec(&mut out, key, j);
                            },
                            Err(e) => {
                                proof {
                                    lemma_yaml_hash_json_err_persists(ev, i + 1, ev.len() as int);
                                }
                                return Err(e);
                            },
                        }
                    },
                    _ => {
                        let e = LoadError::UnsupportedKey(yaml_type_name(&entries[i].0));
                        proof {
                            lemma_yaml_hash_json_err_persists(ev, i + 1, ev.len() as int);
                        }
                        return Err(e);
                    },
                }
                i = i + 1;
            }
            let r = JsonNode::Obj(out);
            proof {
                crate::nodes::lemma_json_obj_dv(out);
                assert(r.deep_view()->Obj_0 =~= out.deep_view());
            }
            Ok(r)
        },
        YamlNode::Alias(_) => Err(LoadError::UnsupportedValueKind(yaml_type_name(yaml))),
        YamlNode::BadValue => Err(LoadError::UnsupportedValueKind(yaml_type_name(yaml))),
    }
}

/// What [`yaml_hash_entry_to_json`] returns: the entry under the key
/// converted to the JSON shape, or the null tree when absent.
pub open spec fn spec_yaml_entry_to_json(entries: YamlHashV, k: Seq<char>) -> Result<JsonV, ErrV> {
    match yaml_kv_get(entries, k) {
        None => Ok(JsonV::Null),
        Some(v) => spec_yaml_to_json(v),
    }
}

/// Looks up the entry in the hash and converts it to the JSON shape. If
/// there is no entry with that key, the null tree is returned.
pub fn yaml_hash_entry_to_json(hash: &YamlHash, key: &str) -> (r: Result<JsonNode, LoadError>)
    ensures
        match r {
            Ok(j) => spec_yaml_entry_to_json(hash.deep_view(), key@) == Ok::<JsonV, ErrV>(
                j.deep_view(),
            ),
            Err(e) => spec_yaml_entry_to_json(hash.deep_view(), key@) == Err::<JsonV, ErrV>(
                e.deep_view(),
            ),
        },
{
    match yaml_hash_lookup(hash, key) {
        None => Ok(JsonNode::Null),
        Some(v) => yaml_to_json(v),
    }
}

/// What loading a whole document from the YAML shape returns: the
/// tree converts to the JSON shape, then loads by the same rules as a
/// JSON document.
pub open spec fn spec_load_yaml_description(v: YamlV) -> Result<ArazzoDescriptionV, ErrV> {
    match spec_yaml_to_json(v) {
        Err(e) => Err(e),
        Ok(j) => crate::json::spec_load_description(j),
    }
}

impl ArazzoDescription {
    /// Loads a whole description document from a YAML-shaped tree, by
    /// converting it to the JSON shape and loading that.
    pub fn try_from_yaml(n: &YamlNode) -> (r: Result<ArazzoDescription, LoadError>)
        ensures
            match r {
                Ok(v) => spec_load_yaml_description(n.deep_view()) == Ok::<
                    ArazzoDescriptionV,
                    ErrV,
                >(v.deep_view()),
                Err(e) => spec_load_yaml_description(n.deep_view()) == Err::<
                    ArazzoDescriptionV,
                    ErrV,
                >(e.deep_view()),
            },
    {
        match yaml_to_json(n) {
            Err(e) => Err(e),
            Ok(j) => ArazzoDescription::try_from_json(&j),
        }
    }
}

} // verus!
