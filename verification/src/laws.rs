//! The laws the mapping layer obeys: loading the serialized tree of a
//! well-formed model gives the model back, for either source format.

use vstd::prelude::*;

use crate::either::Either;
use crate::extensions::{
    spec_json_extract_extensions, spec_json_to_any, spec_json_arr_to_any, spec_json_obj_to_any,
    has_ext_prefix, AnyV,
};
use crate::errors::ErrV;
use crate::json::{
    criterion_item, failure_item, load_items, load_kv_items, parameter_item, replacement_item,
    spec_any_or_expression, spec_load_cet, spec_load_criteria, spec_load_criterion,
    spec_load_failure, spec_load_failure_actions, spec_load_outputs, spec_load_parameter,
    spec_load_parameters, spec_load_payload, spec_load_replacement, spec_load_replacements,
    spec_load_request_body, spec_load_reusable, spec_load_success, spec_load_success_actions,
    success_item, JsonObjectV,
};
use crate::serialize::{
    ext_nodes, fld_criterion_type, fld_list, fld_node, fld_opt_int, fld_opt_num, fld_opt_str,
    fld_payload, fld_str, map_kv_nodes, map_nodes, lemma_map_kv_nodes, lemma_map_nodes,
    spec_ser_cet, spec_ser_criteria, spec_ser_criterion, spec_ser_exts, spec_ser_failure,
    spec_ser_failure_item, spec_ser_failures, spec_ser_param_item, spec_ser_parameter,
    spec_ser_params, spec_ser_payload, spec_ser_replacement, spec_ser_replacements,
    spec_ser_request_body, spec_ser_reusable, spec_ser_success, spec_ser_success_item,
    spec_ser_successes, spec_ser_value,
};
use crate::v1_0::{
    CriterionExpressionTypeV, CriterionV, FailureObjectV, ParameterObjectV, PayloadReplacementV,
    RequestBodyV, ReusableObjectV, SuccessObjectV,
};
use crate::payloads::PayloadV;
use crate::kv::{
    kv_get, kv_has, kv_insert, kv_insert_pos, kv_sort, kv_sorted, kv_upsert,
    lemma_insert_pos_at_end, lemma_sort_of_sorted,
};
use crate::nodes::JsonV;
use crate::serialize::{any_nodes, any_obj_nodes, lemma_any_nodes, lemma_any_obj_nodes,
    spec_any_to_node};
use crate::text::{char_seq_lt, lemma_char_seq_lt_trans, lemma_char_seq_lt_trichotomy};

verus! {

broadcast use vstd::group_vstd_default;

/// A dynamic value in the loader's image: signed integers are
/// negative (anything else loads unsigned) and object keys are
/// strictly sorted (the loader merges objects in key order). Every
/// value the loaders produce has this shape.
pub open spec fn wf_any(a: AnyV) -> bool
    decreases a, 0int,
{
    match a {
        AnyV::Integer(i) => i < 0,
        AnyV::Array(items) => wf_any_seq(items, items.len() as int),
        AnyV::Object(entries) => kv_sorted(entries) && wf_any_entries(
            entries,
            entries.len() as int,
        ),
        _ => true,
    }
}

/// The first `n` array elements are well formed.
pub open spec fn wf_any_seq(items: Seq<AnyV>, n: int) -> bool
    decreases items, n,
{
    if n <= 0 || n > items.len() {
        true
    } else {
        wf_any_seq(items, n - 1) && wf_any(items[n - 1])
    }
}

/// The first `n` object values are well formed.
pub open spec fn wf_any_entries(entries: Seq<(Seq<char>, AnyV)>, n: int) -> bool
    decreases entries, n,
{
    if n <= 0 || n > entries.len() {
        true
    } else {
        wf_any_entries(entries, n - 1) && wf_any(entries[n - 1].1)
    }
}

/// Each of the first `n` elements is well formed.
pub proof fn lemma_wf_any_seq_index(items: Seq<AnyV>, n: int)
    requires
        0 <= n <= items.len(),
        wf_any_seq(items, n),
    ensures
        forall|k: int| 0 <= k < n ==> wf_any(#[trigger] items[k]),
    decreases n,
{
    if n > 0 {
        lemma_wf_any_seq_index(items, n - 1);
    }
}

/// Each of the first `n` object values is well formed.
pub proof fn lemma_wf_any_entries_index(entries: Seq<(Seq<char>, AnyV)>, n: int)
    requires
        0 <= n <= entries.len(),
        wf_any_entries(entries, n),
    ensures
        forall|k: int| 0 <= k < n ==> wf_any((#[trigger] entries[k]).1),
    decreases n,
{
    if n > 0 {
        lemma_wf_any_entries_index(entries, n - 1);
    }
}

/// In a strictly sorted list no prefix carries the key of a later
/// entry.
pub proof fn lemma_sorted_prefix_misses_key<T>(s: Seq<(Seq<char>, T)>, n: int)
    requires
        kv_sorted(s),
        0 <= n < s.len(),
    ensures
        !kv_has(s.take(n), s[n].0),
        forall|i: int| 0 <= i < n ==> char_seq_lt(#[trigger] s.take(n)[i].0, s[n].0),
{
    assert forall|i: int| 0 <= i < n implies char_seq_lt(#[trigger] s.take(n)[i].0, s[n].0) by {
        assert(s.take(n)[i] == s[i]);
    }
    assert forall|i: int| 0 <= i < n implies s.take(n)[i].0 != s[n].0 by {
        assert(s.take(n)[i] == s[i]);
        lemma_char_seq_lt_trichotomy(s[i].0, s[n].0);
    }
}

/// Merging an entry whose key is strictly greater than every key so
/// far appends it.
pub proof fn lemma_upsert_appends<T>(s: Seq<(Seq<char>, T)>, kv: (Seq<char>, T))
    requires
        forall|i: int| 0 <= i < s.len() ==> char_seq_lt((#[trigger] s[i]).0, kv.0),
    ensures
        kv_upsert(s, kv) == s.push(kv),
{
    assert forall|i: int| 0 <= i < s.len() implies s[i].0 != kv.0 by {
        lemma_char_seq_lt_trichotomy(s[i].0, kv.0);
    }
    assert(!kv_has(s, kv.0));
    lemma_insert_pos_at_end(s, kv.0);
    assert(kv_insert(s, kv) =~= s.push(kv));
}

/// Loading the serialized tree of a well-formed dynamic value gives
/// the value back.
pub proof fn lemma_any_round_trip(a: AnyV)
    requires
        wf_any(a),
    ensures
        spec_json_to_any(spec_any_to_node(a)) == a,
    decreases a, 0int,
{
    match a {
        AnyV::Array(items) => {
            lemma_any_nodes(items, items.len() as int);
            lemma_any_arr_round_trip(items, items.len() as int);
            let nodes = any_nodes(items, items.len() as int);
            assert(spec_json_arr_to_any(nodes, items.len() as int) =~= items);
        },
        AnyV::Object(entries) => {
            lemma_any_obj_nodes(entries, entries.len() as int);
            lemma_any_obj_round_trip(entries, entries.len() as int);
            let nodes = any_obj_nodes(entries, entries.len() as int);
            assert(spec_json_obj_to_any(nodes, entries.len() as int) =~= entries);
        },
        _ => {},
    }
}

/// Converting back the first `n` serialized array elements rebuilds
/// the prefix.
proof fn lemma_any_arr_round_trip(items: Seq<AnyV>, n: int)
    requires
        0 <= n <= items.len(),
        wf_any_seq(items, items.len() as int),
    ensures
        spec_json_arr_to_any(any_nodes(items, items.len() as int), n) == items.take(n),
    decreases items, n,
{
    lemma_any_nodes(items, items.len() as int);
    let nodes = any_nodes(items, items.len() as int);
    if n == 0 {
        assert(spec_json_arr_to_any(nodes, 0) =~= items.take(0));
    } else {
        lemma_any_arr_round_trip(items, n - 1);
        lemma_wf_any_seq_index(items, items.len() as int);
        lemma_any_round_trip(items[n - 1]);
        assert(nodes[n - 1] == spec_any_to_node(items[n - 1]));
        assert(spec_json_arr_to_any(nodes, n) == spec_json_arr_to_any(nodes, n - 1).push(
            spec_json_to_any(nodes[n - 1]),
        ));
        assert(spec_json_arr_to_any(nodes, n) =~= items.take(n));
    }
}

/// Merging back the first `n` serialized object entries rebuilds the
/// prefix.
proof fn lemma_any_obj_round_trip(entries: Seq<(Seq<char>, AnyV)>, n: int)
    requires
        0 <= n <= entries.len(),
        kv_sorted(entries),
        wf_any_entries(entries, entries.len() as int),
    ensures
        spec_json_obj_to_any(any_obj_nodes(entries, entries.len() as int), n) == entries.take(n),
    decreases entries, n,
{
    lemma_any_obj_nodes(entries, entries.len() as int);
    let nodes = any_obj_nodes(entries, entries.len() as int);
    if n == 0 {
        assert(spec_json_obj_to_any(nodes, 0) =~= entries.take(0));
    } else {
        lemma_any_obj_round_trip(entries, n - 1);
        lemma_wf_any_entries_index(entries, entries.len() as int);
        lemma_any_round_trip(entries[n - 1].1);
        assert(nodes[n - 1] == (entries[n - 1].0, spec_any_to_node(entries[n - 1].1)));
        lemma_sorted_prefix_misses_key(entries, n - 1);
        assert(spec_json_obj_to_any(nodes, n) == kv_upsert(
            spec_json_obj_to_any(nodes, n - 1),
            (nodes[n - 1].0, spec_json_to_any(nodes[n - 1].1)),
        ));
        lemma_upsert_appends(entries.take(n - 1), (entries[n - 1].0, entries[n - 1].1));
        assert(entries.take(n - 1).push(entries[n - 1]) =~= entries.take(n));
        assert(spec_json_obj_to_any(nodes, n) == entries.take(n - 1).push(
            (entries[n - 1].0, entries[n - 1].1),
        ));
        assert((entries[n - 1].0, entries[n - 1].1) == entries[n - 1]);
    }
}


/// Looking a key up in a concatenation finds it in the front part
/// first.
pub proof fn lemma_kv_get_append<T>(s1: Seq<(Seq<char>, T)>, s2: Seq<(Seq<char>, T)>, k: Seq<char>)
    ensures
        kv_get(s1 + s2, k) == (match kv_get(s1, k) {
            Some(v) => Some(v),
            None => kv_get(s2, k),
        }),
    decreases s1.len(),
{
    if s1.len() == 0 {
        assert(s1 + s2 =~= s2);
    } else {
        assert((s1 + s2)[0] == s1[0]);
        assert((s1 + s2).drop_first() =~= s1.drop_first() + s2);
        lemma_kv_get_append(s1.drop_first(), s2, k);
    }
}

/// A key appears in a singleton entry list exactly when it is that
/// entry's key.
pub proof fn lemma_kv_get_single<T>(kv: (Seq<char>, T), k: Seq<char>)
    ensures
        kv_get(seq![kv], k) == (if kv.0 == k {
            Some(kv.1)
        } else {
            Option::<T>::None
        }),
{
    let s = seq![kv];
    assert(s.len() == 1);
    assert(s[0] == kv);
    if kv.0 == k {
        assert(kv_get(s, k) == Some(kv.1));
    } else {
        assert(s.drop_first().len() == 0);
        assert(kv_get(s.drop_first(), k) == Option::<T>::None);
    }
}

/// No extension entry comes out of a prefix without extension keys.
proof fn lemma_extract_none(s: JsonObjectV, n: int)
    requires
        0 <= n <= s.len(),
        forall|i: int| 0 <= i < n ==> !has_ext_prefix((#[trigger] s[i]).0),
    ensures
        spec_json_extract_extensions(s, n) == Seq::<(Seq<char>, AnyV)>::empty(),
    decreases n,
{
    if n > 0 {
        lemma_extract_none(s, n - 1);
    }
}

/// Extraction over a concatenation whose front part has no extension
/// keys is extraction over the tail.
proof fn lemma_extract_concat(s1: JsonObjectV, s2: JsonObjectV, j: int)
    requires
        0 <= j <= s2.len(),
        forall|i: int| 0 <= i < s1.len() ==> !has_ext_prefix((#[trigger] s1[i]).0),
    ensures
        spec_json_extract_extensions(s1 + s2, s1.len() + j) == spec_json_extract_extensions(
            s2,
            j,
        ),
    decreases j,
{
    if j == 0 {
        assert forall|i: int| 0 <= i < s1.len() implies !has_ext_prefix(
            (#[trigger] (s1 + s2)[i]).0,
        ) by {
            assert((s1 + s2)[i] == s1[i]);
        }
        lemma_extract_none(s1 + s2, s1.len() as int);
    } else {
        lemma_extract_concat(s1, s2, j - 1);
        assert((s1 + s2)[s1.len() + j - 1] == s2[j - 1]);
    }
}

/// The serialized extension entries all carry the `x-` prefix, and
/// none carries a non-extension key.
proof fn lemma_ext_nodes_keys(exts: Seq<(Seq<char>, AnyV)>, n: int)
    requires
        0 <= n <= exts.len(),
    ensures
        ext_nodes(exts, n).len() == n,
        forall|i: int|
            0 <= i < n ==> #[trigger] ext_nodes(exts, n)[i] == (
                "x-"@ + exts[i].0,
                spec_any_to_node(exts[i].1),
            ),
        forall|i: int| 0 <= i < n ==> has_ext_prefix(#[trigger] ext_nodes(exts, n)[i].0),
    decreases n,
{
    reveal_strlit("x-");
    if n > 0 {
        lemma_ext_nodes_keys(exts, n - 1);
        assert(ext_nodes(exts, n) == ext_nodes(exts, n - 1).push(
            ("x-"@ + exts[n - 1].0, spec_any_to_node(exts[n - 1].1)),
        ));
        assert(("x-"@ + exts[n - 1].0)[0] == 'x');
        assert(("x-"@ + exts[n - 1].0)[1] == '-');
    }
}

/// A key without the extension prefix differs from every serialized
/// extension key.
proof fn lemma_plain_key_not_ext(k: Seq<char>, name: Seq<char>)
    requires
        !has_ext_prefix(k),
    ensures
        k != "x-"@ + name,
{
    reveal_strlit("x-");
    let pk = "x-"@ + name;
    assert(pk.len() >= 2);
    assert(pk[0] == 'x');
    assert(pk[1] == '-');
}

/// Extracting the serialized extension block of a sorted well-formed
/// mapping rebuilds the mapping.
proof fn lemma_ext_nodes_extract(exts: Seq<(Seq<char>, AnyV)>, j: int)
    requires
        0 <= j <= exts.len(),
        kv_sorted(exts),
        wf_any_entries(exts, exts.len() as int),
    ensures
        spec_json_extract_extensions(ext_nodes(exts, exts.len() as int), j) == exts.take(j),
    decreases j,
{
    reveal_strlit("x-");
    lemma_ext_nodes_keys(exts, exts.len() as int);
    let nodes = ext_nodes(exts, exts.len() as int);
    if j == 0 {
        assert(spec_json_extract_extensions(nodes, 0) =~= exts.take(0));
    } else {
        lemma_ext_nodes_extract(exts, j - 1);
        lemma_wf_any_entries_index(exts, exts.len() as int);
        lemma_any_round_trip(exts[j - 1].1);
        assert(nodes[j - 1] == ("x-"@ + exts[j - 1].0, spec_any_to_node(exts[j - 1].1)));
        assert(has_ext_prefix(nodes[j - 1].0));
        assert(("x-"@ + exts[j - 1].0).skip(2) =~= exts[j - 1].0);
        lemma_sorted_prefix_misses_key(exts, j - 1);
        lemma_upsert_appends(exts.take(j - 1), (exts[j - 1].0, exts[j - 1].1));
        assert((exts[j - 1].0, exts[j - 1].1) == exts[j - 1]);
        assert(exts.take(j - 1).push(exts[j - 1]) =~= exts.take(j));
    }
}

/// A well-formed extension mapping: keys strictly sorted, values in
/// the loader's image.
pub open spec fn wf_exts(exts: Seq<(Seq<char>, AnyV)>) -> bool {
    kv_sorted(exts) && wf_any_entries(exts, exts.len() as int)
}

/// Extracting the extensions of a serialized entity rebuilds its
/// extension mapping: the fixed entries in front carry no `x-` keys
/// and the appended block is the sorted mapping itself.
pub proof fn lemma_entity_ext_round_trip(fixed: JsonObjectV, exts: Seq<(Seq<char>, AnyV)>)
    requires
        forall|i: int| 0 <= i < fixed.len() ==> !has_ext_prefix((#[trigger] fixed[i]).0),
        wf_exts(exts),
    ensures
        spec_json_extract_extensions(
            fixed + spec_ser_exts(exts),
            (fixed + spec_ser_exts(exts)).len() as int,
        ) == exts,
{
    lemma_sort_of_sorted(exts, exts.len() as int);
    assert(exts.take(exts.len() as int) =~= exts);
    assert(kv_sort(exts, exts.len() as int) == exts);
    lemma_ext_nodes_keys(exts, exts.len() as int);
    lemma_extract_concat(fixed, spec_ser_exts(exts), spec_ser_exts(exts).len() as int);
    lemma_ext_nodes_extract(exts, exts.len() as int);
    assert(exts.take(exts.len() as int) =~= exts);
}

/// Looking a key without the extension prefix up past the serialized
/// extension block finds nothing there.
pub proof fn lemma_kv_get_ext_none(exts: Seq<(Seq<char>, AnyV)>, k: Seq<char>)
    requires
        !has_ext_prefix(k),
    ensures
        kv_get(spec_ser_exts(exts), k) is None,
{
    let sorted = kv_sort(exts, exts.len() as int);
    lemma_kv_sort_len(exts, exts.len() as int);
    lemma_ext_nodes_keys(sorted, sorted.len() as int);
    let nodes = ext_nodes(sorted, sorted.len() as int);
    assert forall|i: int| 0 <= i < nodes.len() implies (#[trigger] nodes[i]).0 != k by {
        lemma_plain_key_not_ext(k, sorted[i].0);
    }
    lemma_kv_get_no_key(nodes, k);
}

/// The insertion position always lies inside the list.
proof fn lemma_kv_insert_pos_bounds<T>(s: Seq<(Seq<char>, T)>, k: Seq<char>)
    ensures
        0 <= kv_insert_pos(s, k) <= s.len(),
    decreases s.len(),
{
    if s.len() > 0 && !char_seq_lt(k, s[0].0) {
        lemma_kv_insert_pos_bounds(s.drop_first(), k);
    }
}

/// The sorted copy has as many entries as the original.
proof fn lemma_kv_sort_len<T>(s: Seq<(Seq<char>, T)>, n: int)
    requires
        0 <= n <= s.len(),
    ensures
        kv_sort(s, n).len() == n,
    decreases n,
{
    if n > 0 {
        lemma_kv_sort_len(s, n - 1);
        lemma_kv_insert_pos_bounds(kv_sort(s, n - 1), s[n - 1].0);
        let prev = kv_sort(s, n - 1);
        let p = kv_insert_pos(prev, s[n - 1].0);
        assert(kv_insert(prev, s[n - 1]).len() == prev.take(p).len() + 1 + prev.skip(p).len());
    }
}

/// A key that no entry carries is not found.
pub proof fn lemma_kv_get_no_key<T>(s: Seq<(Seq<char>, T)>, k: Seq<char>)
    requires
        forall|i: int| 0 <= i < s.len() ==> (#[trigger] s[i]).0 != k,
    ensures
        kv_get(s, k) is None,
    decreases s.len(),
{
    if s.len() > 0 {
        assert forall|i: int| 0 <= i < s.drop_first().len() implies (#[trigger] s.drop_first()[i]).0
            != k by {
            assert(s.drop_first()[i] == s[i + 1]);
        }
        lemma_kv_get_no_key(s.drop_first(), k);
    }
}

/// Loading back a list serialized elementwise rebuilds its prefix,
/// given that each element survives its own round trip.
pub proof fn lemma_load_items_of_map<T>(
    items: Seq<T>,
    n: int,
    f: spec_fn(T) -> JsonV,
    g: spec_fn(JsonV) -> Result<Option<T>, ErrV>,
)
    requires
        0 <= n <= items.len(),
        forall|k: int| 0 <= k < n ==> g(f(#[trigger] items[k])) == Ok::<Option<T>, ErrV>(
            Some(items[k]),
        ),
    ensures
        load_items(map_nodes(items, items.len() as int, f), n, g) == Ok::<Seq<T>, ErrV>(
            items.take(n),
        ),
    decreases n,
{
    lemma_map_nodes(items, items.len() as int, f);
    let nodes = map_nodes(items, items.len() as int, f);
    if n == 0 {
        assert(load_items(nodes, 0, g) == Ok::<Seq<T>, ErrV>(Seq::empty()));
        assert(items.take(0) =~= Seq::<T>::empty());
    } else {
        lemma_load_items_of_map(items, n - 1, f, g);
        assert(nodes[n - 1] == f(items[n - 1]));
        assert(items.take(n - 1).push(items[n - 1]) =~= items.take(n));
    }
}

/// Loading back a mapping serialized entrywise rebuilds its prefix,
/// given sorted keys and per-value round trips.
pub proof fn lemma_load_kv_of_map<T>(
    entries: Seq<(Seq<char>, T)>,
    n: int,
    f: spec_fn(T) -> JsonV,
    g: spec_fn(JsonV) -> Result<T, ErrV>,
)
    requires
        0 <= n <= entries.len(),
        kv_sorted(entries),
        forall|k: int| 0 <= k < n ==> g(f((#[trigger] entries[k]).1)) == Ok::<T, ErrV>(
            entries[k].1,
        ),
    ensures
        load_kv_items(map_kv_nodes(entries, entries.len() as int, f), n, g) == Ok::<
            Seq<(Seq<char>, T)>,
            ErrV,
        >(entries.take(n)),
    decreases n,
{
    lemma_map_kv_nodes(entries, entries.len() as int, f);
    let nodes = map_kv_nodes(entries, entries.len() as int, f);
    if n == 0 {
        assert(load_kv_items(nodes, 0, g) == Ok::<Seq<(Seq<char>, T)>, ErrV>(Seq::empty()));
        assert(entries.take(0) =~= Seq::<(Seq<char>, T)>::empty());
    } else {
        lemma_load_kv_of_map(entries, n - 1, f, g);
        assert(nodes[n - 1] == (entries[n - 1].0, f(entries[n - 1].1)));
        lemma_sorted_prefix_misses_key(entries, n - 1);
        lemma_upsert_appends(entries.take(n - 1), (entries[n - 1].0, entries[n - 1].1));
        assert((entries[n - 1].0, entries[n - 1].1) == entries[n - 1]);
        assert(entries.take(n - 1).push(entries[n - 1]) =~= entries.take(n));
    }
}


/// A well-formed two-shape value: an expression string carries the
/// sigil, a literal string does not, and literal data is in the
/// loader's image.
pub open spec fn wf_value2(v: Either<AnyV, Seq<char>>) -> bool {
    match v {
        Either::First(a) => wf_any(a) && (a matches AnyV::String(s) ==> !crate::json::has_sigil(s)),
        Either::Second(s) => crate::json::has_sigil(s),
    }
}

/// The serialized node of a non-string dynamic value is not a string
/// node.
proof fn lemma_any_node_not_str(a: AnyV)
    requires
        !(a is String),
    ensures
        !(spec_any_to_node(a) is Str),
{
}

/// Reading back a serialized two-shape field gives the value back:
/// the sigil decides the branch, so the encoded shape and scalar kind
/// survive a round trip.
pub proof fn lemma_value2_round_trip(m: JsonObjectV, k: Seq<char>, v: Either<AnyV, Seq<char>>)
    requires
        wf_value2(v),
        kv_get(m, k) == Some(spec_ser_value(v)),
    ensures
        spec_any_or_expression(m, k) == Ok::<Either<AnyV, Seq<char>>, ErrV>(v),
{
    match v {
        Either::First(a) => {
            lemma_any_round_trip(a);
            match a {
                AnyV::String(t) => {},
                _ => {
                    lemma_any_node_not_str(a);
                },
            }
        },
        Either::Second(st) => {},
    }
}

/// Loading the serialized tree of a Reusable Object gives it back.
pub proof fn lemma_reusable_round_trip(v: ReusableObjectV)
    ensures
        spec_load_reusable(spec_ser_reusable(v)) == Ok::<ReusableObjectV, ErrV>(v),
{
    reveal_strlit("reference");
    reveal_strlit("value");
    assert("reference"@.len() == 9);
    assert("value"@.len() == 5);
    let a = fld_str("reference"@, v.reference);
    let b = fld_opt_str("value"@, v.value);
    let e = a + b;
    lemma_kv_get_append(a, b, "reference"@);
    lemma_kv_get_single(("reference"@, JsonV::Str(v.reference)), "reference"@);
    assert(kv_get(e, "reference"@) == Some(JsonV::Str(v.reference)));
    lemma_kv_get_append(a, b, "value"@);
    lemma_kv_get_single(("reference"@, JsonV::Str(v.reference)), "value"@);
    match v.value {
        Some(s) => {
            lemma_kv_get_single(("value"@, JsonV::Str(s)), "value"@);
            assert(kv_get(e, "value"@) == Some(JsonV::Str(s)));
        },
        None => {
            assert(b.len() == 0);
            assert(kv_get(e, "value"@) is None);
        },
    }
}

/// A well-formed Parameter Object: a well-formed two-shape value and
/// a well-formed extension mapping.
pub open spec fn wf_parameter(v: ParameterObjectV) -> bool {
    wf_value2(v.value) && wf_exts(v.extensions)
}

/// Loading the serialized tree of a Parameter Object gives it back.
pub proof fn lemma_parameter_round_trip(v: ParameterObjectV)
    requires
        wf_parameter(v),
    ensures
        spec_load_parameter(spec_ser_parameter(v)) == Ok::<ParameterObjectV, ErrV>(v),
{
    reveal_strlit("in");
    reveal_strlit("name");
    reveal_strlit("value");
    reveal_strlit("x-");
    assert("in"@.len() == 2);
    assert("name"@.len() == 4);
    assert("value"@.len() == 5);
    assert("in"@[0] == 'i' && "name"@[0] == 'n' && "value"@[0] == 'v');
    let a = fld_opt_str("in"@, v.in_);
    let b = fld_str("name"@, v.name);
    let c = crate::serialize::fld_node("value"@, spec_ser_value(v.value));
    let x = spec_ser_exts(v.extensions);
    let fixed = a + b + c;
    let e = fixed + x;
    assert(spec_ser_parameter(v)->Obj_0 == e);

    assert forall|i: int| 0 <= i < fixed.len() implies !has_ext_prefix(
        (#[trigger] fixed[i]).0,
    ) by {
        assert(fixed[i].0 == "in"@ || fixed[i].0 == "name"@ || fixed[i].0 == "value"@);
    }

    let keys = seq!["in"@, "name"@, "value"@];
    assert forall|k: Seq<char>|
        k == "in"@ || k == "name"@ || k == "value"@ implies kv_get(e, k) == (match kv_get(
        a,
        k,
    ) {
        Some(val) => Some(val),
        None => match kv_get(b, k) {
            Some(val) => Some(val),
            None => match kv_get(c, k) {
                Some(val) => Some(val),
                None => Option::<JsonV>::None,
            },
        },
    }) by {
        lemma_kv_get_append(fixed, x, k);
        lemma_kv_get_append(a + b, c, k);
        lemma_kv_get_append(a, b, k);
        assert(!has_ext_prefix(k));
        lemma_kv_get_ext_none(v.extensions, k);
    }

    lemma_kv_get_single(("name"@, JsonV::Str(v.name)), "name"@);
    match v.in_ {
        Some(s) => {
            lemma_kv_get_single(("in"@, JsonV::Str(s)), "name"@);
            lemma_kv_get_single(("in"@, JsonV::Str(s)), "in"@);
            lemma_kv_get_single(("in"@, JsonV::Str(s)), "value"@);
        },
        None => {
            assert(a.len() == 0);
        },
    }
    lemma_kv_get_single(("name"@, JsonV::Str(v.name)), "in"@);
    lemma_kv_get_single(("name"@, JsonV::Str(v.name)), "value"@);
    lemma_kv_get_single(("value"@, spec_ser_value(v.value)), "value"@);
    lemma_kv_get_single(("value"@, spec_ser_value(v.value)), "in"@);

    assert(kv_get(e, "name"@) == Some(JsonV::Str(v.name)));
    assert(kv_get(e, "value"@) == Some(spec_ser_value(v.value)));
    lemma_value2_round_trip(e, "value"@, v.value);
    match v.in_ {
        Some(s) => {
            assert(kv_get(e, "in"@) == Some(JsonV::Str(s)));
        },
        None => {
            assert(kv_get(e, "in"@) is None);
        },
    }
    lemma_entity_ext_round_trip(fixed, v.extensions);
}


/// A well-formed Criterion Expression Type: a well-formed extension
/// mapping.
pub open spec fn wf_cet(v: CriterionExpressionTypeV) -> bool {
    wf_exts(v.extensions)
}

/// Loading the serialized tree of a Criterion Expression Type gives
/// it back.
pub proof fn lemma_cet_round_trip(v: CriterionExpressionTypeV)
    requires
        wf_cet(v),
    ensures
        spec_load_cet(spec_ser_cet(v)) == Ok::<CriterionExpressionTypeV, ErrV>(v),
{
    reveal_strlit("type");
    reveal_strlit("version");
    reveal_strlit("x-");
    assert("type"@.len() == 4);
    assert("version"@.len() == 7);
    let a = fld_str("type"@, v.type_);
    let b = fld_str("version"@, v.version);
    let x = spec_ser_exts(v.extensions);
    let fixed = a + b;
    let e = fixed + x;
    assert(spec_ser_cet(v)->Obj_0 == e);
    assert forall|i: int| 0 <= i < fixed.len() implies !has_ext_prefix(
        (#[trigger] fixed[i]).0,
    ) by {
        assert(fixed[i].0 == "type"@ || fixed[i].0 == "version"@);
        assert("type"@[0] == 't' && "version"@[0] == 'v');
    }
    assert forall|k: Seq<char>| k == "type"@ || k == "version"@ implies kv_get(e, k) == (
    match kv_get(a, k) {
        Some(val) => Some(val),
        None => kv_get(b, k),
    }) by {
        lemma_kv_get_append(fixed, x, k);
        lemma_kv_get_append(a, b, k);
        assert("type"@[0] == 't' && "version"@[0] == 'v');
        lemma_kv_get_ext_none(v.extensions, k);
    }
    lemma_kv_get_single(("type"@, JsonV::Str(v.type_)), "type"@);
    lemma_kv_get_single(("type"@, JsonV::Str(v.type_)), "version"@);
    lemma_kv_get_single(("version"@, JsonV::Str(v.version)), "version"@);
    assert(kv_get(e, "type"@) == Some(JsonV::Str(v.type_)));
    assert(kv_get(e, "version"@) == Some(JsonV::Str(v.version)));
    lemma_entity_ext_round_trip(fixed, v.extensions);
}

/// A well-formed Criterion: a well-formed extension mapping, and a
/// well-formed record when the type is the full record form.
pub open spec fn wf_criterion(v: CriterionV) -> bool {
    &&& wf_exts(v.extensions)
    &&& (v.type_ matches Some(Either::Second(cet)) ==> wf_cet(cet))
}

/// Loading the serialized tree of a Criterion gives it back.
pub proof fn lemma_criterion_round_trip(v: CriterionV)
    requires
        wf_criterion(v),
    ensures
        spec_load_criterion(spec_ser_criterion(v)) == Ok::<CriterionV, ErrV>(v),
{
    reveal_strlit("condition");
    reveal_strlit("context");
    reveal_strlit("type");
    reveal_strlit("x-");
    assert("condition"@.len() == 9);
    assert("context"@.len() == 7);
    assert("type"@.len() == 4);
    assert("condition"@[3] == 'd' && "context"@[3] == 't');
    let a = fld_str("condition"@, v.condition);
    let b = fld_opt_str("context"@, v.context);
    let c = fld_criterion_type(v.type_);
    let x = spec_ser_exts(v.extensions);
    let fixed = a + b + c;
    let e = fixed + x;
    assert(spec_ser_criterion(v)->Obj_0 == e);
    assert forall|i: int| 0 <= i < fixed.len() implies !has_ext_prefix(
        (#[trigger] fixed[i]).0,
    ) by {
        assert(fixed[i].0 == "condition"@ || fixed[i].0 == "context"@ || fixed[i].0 == "type"@);
    }
    assert forall|k: Seq<char>|
        k == "condition"@ || k == "context"@ || k == "type"@ implies kv_get(e, k) == (match kv_get(
        a,
        k,
    ) {
        Some(val) => Some(val),
        None => match kv_get(b, k) {
            Some(val) => Some(val),
            None => kv_get(c, k),
        },
    }) by {
        lemma_kv_get_append(fixed, x, k);
        lemma_kv_get_append(a + b, c, k);
        lemma_kv_get_append(a, b, k);
        lemma_kv_get_ext_none(v.extensions, k);
    }
    lemma_kv_get_single(("condition"@, JsonV::Str(v.condition)), "condition"@);
    lemma_kv_get_single(("condition"@, JsonV::Str(v.condition)), "context"@);
    lemma_kv_get_single(("condition"@, JsonV::Str(v.condition)), "type"@);
    match v.context {
        Some(sctx) => {
            lemma_kv_get_single(("context"@, JsonV::Str(sctx)), "condition"@);
            lemma_kv_get_single(("context"@, JsonV::Str(sctx)), "context"@);
            lemma_kv_get_single(("context"@, JsonV::Str(sctx)), "type"@);
        },
        None => {
            assert(b.len() == 0);
        },
    }
    match v.type_ {
        Some(Either::First(st)) => {
            lemma_kv_get_single(("type"@, JsonV::Str(st)), "context"@);
            lemma_kv_get_single(("type"@, JsonV::Str(st)), "type"@);
            assert(kv_get(e, "type"@) == Some(JsonV::Str(st)));
        },
        Some(Either::Second(cet)) => {
            lemma_kv_get_single(("type"@, spec_ser_cet(cet)), "context"@);
            lemma_kv_get_single(("type"@, spec_ser_cet(cet)), "type"@);
            assert(kv_get(e, "type"@) == Some(spec_ser_cet(cet)));
            lemma_cet_round_trip(cet);
        },
        None => {
            assert(c.len() == 0);
            assert(kv_get(e, "type"@) is None);
        },
    }
    assert(kv_get(e, "condition"@) == Some(JsonV::Str(v.condition)));
    match v.context {
        Some(sctx) => {
            assert(kv_get(e, "context"@) == Some(JsonV::Str(sctx)));
        },
        None => {
            assert(kv_get(e, "context"@) is None);
        },
    }
    lemma_entity_ext_round_trip(fixed, v.extensions);
}

/// Every criterion in the list is well formed.
pub open spec fn wf_criteria(items: Seq<CriterionV>) -> bool {
    forall|i: int| 0 <= i < items.len() ==> wf_criterion(#[trigger] items[i])
}

/// Reading back a serialized criteria list field gives the list back.
proof fn lemma_criteria_field_round_trip(m: JsonObjectV, k: Seq<char>, items: Seq<CriterionV>)
    requires
        wf_criteria(items),
        kv_get(m, k) == (if items.len() == 0 {
            Option::<JsonV>::None
        } else {
            Some(JsonV::Arr(spec_ser_criteria(items)))
        }),
    ensures
        spec_load_criteria(m, k) == Ok::<Seq<CriterionV>, ErrV>(items),
{
    if items.len() == 0 {
        assert(spec_load_criteria(m, k) == Ok::<Seq<CriterionV>, ErrV>(Seq::empty()));
        assert(items =~= Seq::<CriterionV>::empty());
    } else {
        let f = |c: CriterionV| spec_ser_criterion(c);
        let g = |nv: JsonV| criterion_item(nv);
        assert forall|j: int| 0 <= j < items.len() implies g(f(#[trigger] items[j])) == Ok::<
            Option<CriterionV>,
            ErrV,
        >(Some(items[j])) by {
            lemma_criterion_round_trip(items[j]);
        }
        lemma_load_items_of_map(items, items.len() as int, f, g);
        lemma_map_nodes(items, items.len() as int, f);
        assert(items.take(items.len() as int) =~= items);
        assert(spec_ser_criteria(items) == map_nodes(items, items.len() as int, f));
    }
}

/// A serialized criteria list has one node per criterion.
proof fn lemma_ser_criteria_len(items: Seq<CriterionV>)
    ensures
        spec_ser_criteria(items).len() == items.len(),
{
    let f = |c: CriterionV| spec_ser_criterion(c);
    lemma_map_nodes(items, items.len() as int, f);
    assert(spec_ser_criteria(items) == map_nodes(items, items.len() as int, f));
}

/// A well-formed Success Action: well-formed criteria and extensions.
pub open spec fn wf_success(v: SuccessObjectV) -> bool {
    wf_criteria(v.criteria) && wf_exts(v.extensions)
}

/// Loading the serialized tree of a Success Action gives it back.
pub proof fn lemma_success_round_trip(v: SuccessObjectV)
    requires
        wf_success(v),
    ensures
        spec_load_success(spec_ser_success(v)) == Ok::<SuccessObjectV, ErrV>(v),
{
    reveal_strlit("criteria");
    reveal_strlit("name");
    reveal_strlit("stepId");
    reveal_strlit("type");
    reveal_strlit("workflowId");
    reveal_strlit("x-");
    assert("criteria"@.len() == 8);
    assert("name"@.len() == 4);
    assert("stepId"@.len() == 6);
    assert("type"@.len() == 4);
    assert("workflowId"@.len() == 10);
    assert("name"@[0] == 'n' && "type"@[0] == 't');
    lemma_ser_criteria_len(v.criteria);
    let a = fld_list("criteria"@, spec_ser_criteria(v.criteria));
    let b = fld_str("name"@, v.name);
    let c = fld_opt_str("stepId"@, v.step_id);
    let d = fld_str("type"@, v.type_);
    let f = fld_opt_str("workflowId"@, v.workflow_id);
    let x = spec_ser_exts(v.extensions);
    let fixed = a + b + c + d + f;
    let e = fixed + x;
    assert(spec_ser_success(v)->Obj_0 == e);
    assert forall|i: int| 0 <= i < fixed.len() implies !has_ext_prefix(
        (#[trigger] fixed[i]).0,
    ) by {
        assert(fixed[i].0 == "criteria"@ || fixed[i].0 == "name"@ || fixed[i].0 == "stepId"@
            || fixed[i].0 == "type"@ || fixed[i].0 == "workflowId"@);
    }
    assert forall|k: Seq<char>|
        k == "criteria"@ || k == "name"@ || k == "stepId"@ || k == "type"@ || k
            == "workflowId"@ implies kv_get(e, k) == (match kv_get(a, k) {
        Some(val) => Some(val),
        None => match kv_get(b, k) {
            Some(val) => Some(val),
            None => match kv_get(c, k) {
                Some(val) => Some(val),
                None => match kv_get(d, k) {
                    Some(val) => Some(val),
                    None => kv_get(f, k),
                },
            },
        },
    }) by {
        lemma_kv_get_append(fixed, x, k);
        lemma_kv_get_append(a + b + c + d, f, k);
        lemma_kv_get_append(a + b + c, d, k);
        lemma_kv_get_append(a + b, c, k);
        lemma_kv_get_append(a, b, k);
        lemma_kv_get_ext_none(v.extensions, k);
    }
    if v.criteria.len() > 0 {
        let kv = ("criteria"@, JsonV::Arr(spec_ser_criteria(v.criteria)));
        lemma_kv_get_single(kv, "criteria"@);
        lemma_kv_get_single(kv, "name"@);
        lemma_kv_get_single(kv, "stepId"@);
        lemma_kv_get_single(kv, "type"@);
        lemma_kv_get_single(kv, "workflowId"@);
    } else {
        assert(a.len() == 0);
    }
    lemma_kv_get_single(("name"@, JsonV::Str(v.name)), "criteria"@);
    lemma_kv_get_single(("name"@, JsonV::Str(v.name)), "name"@);
    lemma_kv_get_single(("name"@, JsonV::Str(v.name)), "stepId"@);
    lemma_kv_get_single(("name"@, JsonV::Str(v.name)), "type"@);
    lemma_kv_get_single(("name"@, JsonV::Str(v.name)), "workflowId"@);
    match v.step_id {
        Some(sid) => {
            lemma_kv_get_single(("stepId"@, JsonV::Str(sid)), "criteria"@);
            lemma_kv_get_single(("stepId"@, JsonV::Str(sid)), "name"@);
            lemma_kv_get_single(("stepId"@, JsonV::Str(sid)), "stepId"@);
            lemma_kv_get_single(("stepId"@, JsonV::Str(sid)), "type"@);
            lemma_kv_get_single(("stepId"@, JsonV::Str(sid)), "workflowId"@);
        },
        None => {
            assert(c.len() == 0);
        },
    }
    lemma_kv_get_single(("type"@, JsonV::Str(v.type_)), "criteria"@);
    lemma_kv_get_single(("type"@, JsonV::Str(v.type_)), "name"@);
    lemma_kv_get_single(("type"@, JsonV::Str(v.type_)), "stepId"@);
    lemma_kv_get_single(("type"@, JsonV::Str(v.type_)), "type"@);
    lemma_kv_get_single(("type"@, JsonV::Str(v.type_)), "workflowId"@);
    match v.workflow_id {
        Some(wid) => {
            let kv = ("workflowId"@, JsonV::Str(wid));
            lemma_kv_get_single(kv, "criteria"@);
            lemma_kv_get_single(kv, "name"@);
            lemma_kv_get_single(kv, "stepId"@);
            lemma_kv_get_single(kv, "type"@);
            lemma_kv_get_single(kv, "workflowId"@);
        },
        None => {
            assert(f.len() == 0);
        },
    }
    assert(kv_get(e, "name"@) == Some(JsonV::Str(v.name)));
    assert(kv_get(e, "type"@) == Some(JsonV::Str(v.type_)));
    if v.criteria.len() > 0 {
        assert(kv_get(e, "criteria"@) == Some(JsonV::Arr(spec_ser_criteria(v.criteria))));
    } else {
        assert(kv_get(e, "criteria"@) is None);
    }
    lemma_criteria_field_round_trip(e, "criteria"@, v.criteria);
    lemma_entity_ext_round_trip(fixed, v.extensions);
}

/// A well-formed Failure Action: well-formed criteria and extensions.
pub open spec fn wf_failure(v: FailureObjectV) -> bool {
    wf_criteria(v.criteria) && wf_exts(v.extensions)
}

/// Loading the serialized tree of a Failure Action gives it back.
pub proof fn lemma_failure_round_trip(v: FailureObjectV)
    requires
        wf_failure(v),
    ensures
        spec_load_failure(spec_ser_failure(v)) == Ok::<FailureObjectV, ErrV>(v),
{
    reveal_strlit("criteria");
    reveal_strlit("name");
    reveal_strlit("retryAfter");
    reveal_strlit("retryLimit");
    reveal_strlit("stepId");
    reveal_strlit("type");
    reveal_strlit("workflowId");
    reveal_strlit("x-");
    assert("criteria"@.len() == 8);
    assert("name"@.len() == 4);
    assert("retryAfter"@.len() == 10);
    assert("retryLimit"@.len() == 10);
    assert("stepId"@.len() == 6);
    assert("type"@.len() == 4);
    assert("workflowId"@.len() == 10);
    assert("retryAfter"@[5] == 'A' && "retryLimit"@[5] == 'L' && "workflowId"@[5] == 'l');
    assert("name"@[0] == 'n' && "type"@[0] == 't' && "retryAfter"@[0] == 'r' && "workflowId"@[0]
        == 'w');
    lemma_ser_criteria_len(v.criteria);
    let a = fld_list("criteria"@, spec_ser_criteria(v.criteria));
    let b = fld_str("name"@, v.name);
    let c = fld_opt_num("retryAfter"@, v.retry_after);
    let d = fld_opt_int("retryLimit"@, v.retry_limit);
    let f = fld_opt_str("stepId"@, v.step_id);
    let g = fld_str("type"@, v.type_);
    let h = fld_opt_str("workflowId"@, v.workflow_id);
    let x = spec_ser_exts(v.extensions);
    let fixed = a + b + c + d + f + g + h;
    let e = fixed + x;
    assert(spec_ser_failure(v)->Obj_0 == e);
    assert forall|i: int| 0 <= i < fixed.len() implies !has_ext_prefix(
        (#[trigger] fixed[i]).0,
    ) by {
        assert(fixed[i].0 == "criteria"@ || fixed[i].0 == "name"@ || fixed[i].0 == "retryAfter"@
            || fixed[i].0 == "retryLimit"@ || fixed[i].0 == "stepId"@ || fixed[i].0 == "type"@
            || fixed[i].0 == "workflowId"@);
    }
    assert forall|k: Seq<char>|
        k == "criteria"@ || k == "name"@ || k == "retryAfter"@ || k == "retryLimit"@ || k
            == "stepId"@ || k == "type"@ || k == "workflowId"@ implies kv_get(e, k) == (match
    kv_get(a, k) {
        Some(val) => Some(val),
        None => match kv_get(b, k) {
            Some(val) => Some(val),
            None => match kv_get(c, k) {
                Some(val) => Some(val),
                None => match kv_get(d, k) {
                    Some(val) => Some(val),
                    None => match kv_get(f, k) {
                        Some(val) => Some(val),
                        None => match kv_get(g, k) {
                            Some(val) => Some(val),
                            None => kv_get(h, k),
                        },
                    },
                },
            },
        },
    }) by {
        lemma_kv_get_append(fixed, x, k);
        lemma_kv_get_append(a + b + c + d + f + g, h, k);
        lemma_kv_get_append(a + b + c + d + f, g, k);
        lemma_kv_get_append(a + b + c + d, f, k);
        lemma_kv_get_append(a + b + c, d, k);
        lemma_kv_get_append(a + b, c, k);
        lemma_kv_get_append(a, b, k);
        lemma_kv_get_ext_none(v.extensions, k);
    }
    if v.criteria.len() > 0 {
        let kv = ("criteria"@, JsonV::Arr(spec_ser_criteria(v.criteria)));
        lemma_kv_get_single(kv, "criteria"@);
        lemma_kv_get_single(kv, "name"@);
        lemma_kv_get_single(kv, "retryAfter"@);
        lemma_kv_get_single(kv, "retryLimit"@);
        lemma_kv_get_single(kv, "stepId"@);
        lemma_kv_get_single(kv, "type"@);
        lemma_kv_get_single(kv, "workflowId"@);
    } else {
        assert(a.len() == 0);
    }
    let namekv = ("name"@, JsonV::Str(v.name));
    lemma_kv_get_single(namekv, "criteria"@);
    lemma_kv_get_single(namekv, "name"@);
    lemma_kv_get_single(namekv, "retryAfter"@);
    lemma_kv_get_single(namekv, "retryLimit"@);
    lemma_kv_get_single(namekv, "stepId"@);
    lemma_kv_get_single(namekv, "type"@);
    lemma_kv_get_single(namekv, "workflowId"@);
    match v.retry_after {
        Some(n) => {
            let kv = ("retryAfter"@, JsonV::Num(n));
            lemma_kv_get_single(kv, "criteria"@);
            lemma_kv_get_single(kv, "name"@);
            lemma_kv_get_single(kv, "retryAfter"@);
            lemma_kv_get_single(kv, "retryLimit"@);
            lemma_kv_get_single(kv, "stepId"@);
            lemma_kv_get_single(kv, "type"@);
            lemma_kv_get_single(kv, "workflowId"@);
        },
        None => {
            assert(c.len() == 0);
        },
    }
    match v.retry_limit {
        Some(i) => {
            let kv = ("retryLimit"@, JsonV::Int(i));
            lemma_kv_get_single(kv, "criteria"@);
            lemma_kv_get_single(kv, "name"@);
            lemma_kv_get_single(kv, "retryAfter"@);
            lemma_kv_get_single(kv, "retryLimit"@);
            lemma_kv_get_single(kv, "stepId"@);
            lemma_kv_get_single(kv, "type"@);
            lemma_kv_get_single(kv, "workflowId"@);
        },
        None => {
            assert(d.len() == 0);
        },
    }
    match v.step_id {
        Some(sid) => {
            let kv = ("stepId"@, JsonV::Str(sid));
            lemma_kv_get_single(kv, "criteria"@);
            lemma_kv_get_single(kv, "name"@);
            lemma_kv_get_single(kv, "retryAfter"@);
            lemma_kv_get_single(kv, "retryLimit"@);
            lemma_kv_get_single(kv, "stepId"@);
            lemma_kv_get_single(kv, "type"@);
            lemma_kv_get_single(kv, "workflowId"@);
        },
        None => {
            assert(f.len() == 0);
        },
    }
    let typekv = ("type"@, JsonV::Str(v.type_));
    lemma_kv_get_single(typekv, "criteria"@);
    lemma_kv_get_single(typekv, "name"@);
    lemma_kv_get_single(typekv, "retryAfter"@);
    lemma_kv_get_single(typekv, "retryLimit"@);
    lemma_kv_get_single(typekv, "stepId"@);
    lemma_kv_get_single(typekv, "type"@);
    lemma_kv_get_single(typekv, "workflowId"@);
    match v.workflow_id {
        Some(wid) => {
            let kv = ("workflowId"@, JsonV::Str(wid));
            lemma_kv_get_single(kv, "criteria"@);
            lemma_kv_get_single(kv, "name"@);
            lemma_kv_get_single(kv, "retryAfter"@);
            lemma_kv_get_single(kv, "retryLimit"@);
            lemma_kv_get_single(kv, "stepId"@);
            lemma_kv_get_single(kv, "type"@);
            lemma_kv_get_single(kv, "workflowId"@);
        },
        None => {
            assert(h.len() == 0);
        },
    }
    assert(kv_get(e, "name"@) == Some(JsonV::Str(v.name)));
    assert(kv_get(e, "type"@) == Some(JsonV::Str(v.type_)));
    if v.criteria.len() > 0 {
        assert(kv_get(e, "criteria"@) == Some(JsonV::Arr(spec_ser_criteria(v.criteria))));
    } else {
        assert(kv_get(e, "criteria"@) is None);
    }
    lemma_criteria_field_round_trip(e, "criteria"@, v.criteria);
    lemma_entity_ext_round_trip(fixed, v.extensions);
}


/// `reference` is not a field name of any primary entity and never an
/// extension key, so a serialized primary object carries no entry
/// with it.
proof fn lemma_no_reference_key(fixed: JsonObjectV, exts: Seq<(Seq<char>, AnyV)>)
    requires
        forall|i: int|
            0 <= i < fixed.len() ==> (#[trigger] fixed[i]).0 != "reference"@,
    ensures
        !kv_has(fixed + spec_ser_exts(exts), "reference"@),
{
    reveal_strlit("reference");
    reveal_strlit("x-");
    assert("reference"@.len() == 9);
    assert("reference"@[0] == 'r');
    assert(!has_ext_prefix("reference"@));
    let x = spec_ser_exts(exts);
    let sorted = kv_sort(exts, exts.len() as int);
    lemma_kv_sort_len(exts, exts.len() as int);
    lemma_ext_nodes_keys(sorted, sorted.len() as int);
    let e = fixed + x;
    assert forall|i: int| 0 <= i < e.len() implies (#[trigger] e[i]).0 != "reference"@ by {
        if i < fixed.len() {
            assert(e[i] == fixed[i]);
        } else {
            assert(e[i] == x[i - fixed.len()]);
            lemma_plain_key_not_ext("reference"@, sorted[i - fixed.len()].0);
        }
    }
}

/// A serialized Reusable Object carries its `reference` entry.
proof fn lemma_reusable_has_reference(v: ReusableObjectV)
    ensures
        spec_ser_reusable(v)->Obj_0.len() > 0,
        kv_has(spec_ser_reusable(v)->Obj_0, "reference"@),
{
    let a = fld_str("reference"@, v.reference);
    let b = fld_opt_str("value"@, v.value);
    let e = a + b;
    assert(e[0] == ("reference"@, JsonV::Str(v.reference)));
}

/// A well-formed parameter-or-reference entry.
pub open spec fn wf_param_item(v: Either<ParameterObjectV, ReusableObjectV>) -> bool {
    match v {
        Either::First(p) => wf_parameter(p),
        Either::Second(_) => true,
    }
}

/// Reading back one serialized parameters-list entry gives it back:
/// the presence of a `reference` key decides the shape, so the
/// discrimination undoes the serialization.
pub proof fn lemma_param_item_round_trip(v: Either<ParameterObjectV, ReusableObjectV>)
    requires
        wf_param_item(v),
    ensures
        parameter_item(spec_ser_param_item(v)) == Ok::<
            Option<Either<ParameterObjectV, ReusableObjectV>>,
            ErrV,
        >(Some(v)),
{
    reveal_strlit("reference");
    reveal_strlit("in");
    reveal_strlit("name");
    reveal_strlit("value");
    assert("reference"@.len() == 9);
    assert("in"@.len() == 2);
    assert("name"@.len() == 4);
    assert("value"@.len() == 5);
    match v {
        Either::First(p) => {
            let a = fld_opt_str("in"@, p.in_);
            let b = fld_str("name"@, p.name);
            let c = fld_node("value"@, spec_ser_value(p.value));
            let fixed = a + b + c;
            assert forall|i: int| 0 <= i < fixed.len() implies (#[trigger] fixed[i]).0
                != "reference"@ by {
                assert(fixed[i].0 == "in"@ || fixed[i].0 == "name"@ || fixed[i].0 == "value"@);
            }
            lemma_no_reference_key(fixed, p.extensions);
            lemma_parameter_round_trip(p);
        },
        Either::Second(r) => {
            lemma_reusable_has_reference(r);
            lemma_reusable_round_trip(r);
        },
    }
}

/// A well-formed success-or-reference entry.
pub open spec fn wf_success_item(v: Either<SuccessObjectV, ReusableObjectV>) -> bool {
    match v {
        Either::First(p) => wf_success(p),
        Either::Second(_) => true,
    }
}

/// Reading back one serialized success-actions entry gives it back.
proof fn lemma_success_item_round_trip(v: Either<SuccessObjectV, ReusableObjectV>)
    requires
        wf_success_item(v),
    ensures
        success_item(spec_ser_success_item(v)) == Ok::<
            Option<Either<SuccessObjectV, ReusableObjectV>>,
            ErrV,
        >(Some(v)),
{
    reveal_strlit("reference");
    reveal_strlit("criteria");
    reveal_strlit("name");
    reveal_strlit("stepId");
    reveal_strlit("type");
    reveal_strlit("workflowId");
    assert("reference"@.len() == 9);
    assert("criteria"@.len() == 8);
    assert("name"@.len() == 4);
    assert("stepId"@.len() == 6);
    assert("type"@.len() == 4);
    assert("workflowId"@.len() == 10);
    assert("workflowId"@[0] == 'w' && "reference"@[0] == 'r');
    match v {
        Either::First(p) => {
            lemma_ser_criteria_len(p.criteria);
            let a = fld_list("criteria"@, spec_ser_criteria(p.criteria));
            let b = fld_str("name"@, p.name);
            let c = fld_opt_str("stepId"@, p.step_id);
            let d = fld_str("type"@, p.type_);
            let f = fld_opt_str("workflowId"@, p.workflow_id);
            let fixed = a + b + c + d + f;
            assert forall|i: int| 0 <= i < fixed.len() implies (#[trigger] fixed[i]).0
                != "reference"@ by {
                assert(fixed[i].0 == "criteria"@ || fixed[i].0 == "name"@ || fixed[i].0
                    == "stepId"@ || fixed[i].0 == "type"@ || fixed[i].0 == "workflowId"@);
            }
            lemma_no_reference_key(fixed, p.extensions);
            lemma_success_round_trip(p);
        },
        Either::Second(r) => {
            lemma_reusable_has_reference(r);
            lemma_reusable_round_trip(r);
        },
    }
}

/// A well-formed failure-or-reference entry.
pub open spec fn wf_failure_item(v: Either<FailureObjectV, ReusableObjectV>) -> bool {
    match v {
        Either::First(p) => wf_failure(p),
        Either::Second(_) => true,
    }
}

/// Reading back one serialized failure-actions entry gives it back.
proof fn lemma_failure_item_round_trip(v: Either<FailureObjectV, ReusableObjectV>)
    requires
        wf_failure_item(v),
    ensures
        failure_item(spec_ser_failure_item(v)) == Ok::<
            Option<Either<FailureObjectV, ReusableObjectV>>,
            ErrV,
        >(Some(v)),
{
    reveal_strlit("reference");
    reveal_strlit("criteria");
    reveal_strlit("name");
    reveal_strlit("retryAfter");
    reveal_strlit("retryLimit");
    reveal_strlit("stepId");
    reveal_strlit("type");
    reveal_strlit("workflowId");
    assert("reference"@.len() == 9);
    assert("criteria"@.len() == 8);
    assert("name"@.len() == 4);
    assert("retryAfter"@.len() == 10);
    assert("retryLimit"@.len() == 10);
    assert("stepId"@.len() == 6);
    assert("type"@.len() == 4);
    assert("workflowId"@.len() == 10);
    match v {
        Either::First(p) => {
            lemma_ser_criteria_len(p.criteria);
            let a = fld_list("criteria"@, spec_ser_criteria(p.criteria));
            let b = fld_str("name"@, p.name);
            let c = fld_opt_num("retryAfter"@, p.retry_after);
            let d = fld_opt_int("retryLimit"@, p.retry_limit);
            let f = fld_opt_str("stepId"@, p.step_id);
            let g = fld_str("type"@, p.type_);
            let h = fld_opt_str("workflowId"@, p.workflow_id);
            let fixed = a + b + c + d + f + g + h;
            assert forall|i: int| 0 <= i < fixed.len() implies (#[trigger] fixed[i]).0
                != "reference"@ by {
                assert(fixed[i].0 == "criteria"@ || fixed[i].0 == "name"@ || fixed[i].0
                    == "retryAfter"@ || fixed[i].0 == "retryLimit"@ || fixed[i].0 == "stepId"@
                    || fixed[i].0 == "type"@ || fixed[i].0 == "workflowId"@);
            }
            lemma_no_reference_key(fixed, p.extensions);
            lemma_failure_round_trip(p);
        },
        Either::Second(r) => {
            lemma_reusable_has_reference(r);
            lemma_reusable_round_trip(r);
        },
    }
}

/// Every entry of a parameters list is well formed.
pub open spec fn wf_params(items: Seq<Either<ParameterObjectV, ReusableObjectV>>) -> bool {
    forall|i: int| 0 <= i < items.len() ==> wf_param_item(#[trigger] items[i])
}

/// Every entry of a success-actions list is well formed.
pub open spec fn wf_successes(items: Seq<Either<SuccessObjectV, ReusableObjectV>>) -> bool {
    forall|i: int| 0 <= i < items.len() ==> wf_success_item(#[trigger] items[i])
}

/// Every entry of a failure-actions list is well formed.
pub open spec fn wf_failures(items: Seq<Either<FailureObjectV, ReusableObjectV>>) -> bool {
    forall|i: int| 0 <= i < items.len() ==> wf_failure_item(#[trigger] items[i])
}

/// A serialized parameters list has one node per entry.
proof fn lemma_ser_params_len(items: Seq<Either<ParameterObjectV, ReusableObjectV>>)
    ensures
        spec_ser_params(items).len() == items.len(),
{
    let f = |x: Either<ParameterObjectV, ReusableObjectV>| spec_ser_param_item(x);
    lemma_map_nodes(items, items.len() as int, f);
    assert(spec_ser_params(items) == map_nodes(items, items.len() as int, f));
}

/// A serialized success-actions list has one node per entry.
proof fn lemma_ser_successes_len(items: Seq<Either<SuccessObjectV, ReusableObjectV>>)
    ensures
        spec_ser_successes(items).len() == items.len(),
{
    let f = |x: Either<SuccessObjectV, ReusableObjectV>| spec_ser_success_item(x);
    lemma_map_nodes(items, items.len() as int, f);
    assert(spec_ser_successes(items) == map_nodes(items, items.len() as int, f));
}

/// A serialized failure-actions list has one node per entry.
proof fn lemma_ser_failures_len(items: Seq<Either<FailureObjectV, ReusableObjectV>>)
    ensures
        spec_ser_failures(items).len() == items.len(),
{
    let f = |x: Either<FailureObjectV, ReusableObjectV>| spec_ser_failure_item(x);
    lemma_map_nodes(items, items.len() as int, f);
    assert(spec_ser_failures(items) == map_nodes(items, items.len() as int, f));
}

/// Reading back a serialized parameters-list field gives the list
/// back.
proof fn lemma_params_field_round_trip(
    m: JsonObjectV,
    k: Seq<char>,
    items: Seq<Either<ParameterObjectV, ReusableObjectV>>,
)
    requires
        wf_params(items),
        kv_get(m, k) == (if items.len() == 0 {
            Option::<JsonV>::None
        } else {
            Some(JsonV::Arr(spec_ser_params(items)))
        }),
    ensures
        spec_load_parameters(m, k) == Ok::<Seq<Either<ParameterObjectV, ReusableObjectV>>, ErrV>(
            items,
        ),
{
    if items.len() == 0 {
        assert(items =~= Seq::<Either<ParameterObjectV, ReusableObjectV>>::empty());
    } else {
        let f = |x: Either<ParameterObjectV, ReusableObjectV>| spec_ser_param_item(x);
        let g = |nv: JsonV| parameter_item(nv);
        assert forall|j: int| 0 <= j < items.len() implies g(f(#[trigger] items[j])) == Ok::<
            Option<Either<ParameterObjectV, ReusableObjectV>>,
            ErrV,
        >(Some(items[j])) by {
            lemma_param_item_round_trip(items[j]);
        }
        lemma_load_items_of_map(items, items.len() as int, f, g);
        lemma_map_nodes(items, items.len() as int, f);
        assert(items.take(items.len() as int) =~= items);
        assert(spec_ser_params(items) == map_nodes(items, items.len() as int, f));
    }
}

/// Reading back a serialized success-actions field gives the list
/// back.
proof fn lemma_successes_field_round_trip(
    m: JsonObjectV,
    k: Seq<char>,
    items: Seq<Either<SuccessObjectV, ReusableObjectV>>,
)
    requires
        wf_successes(items),
        kv_get(m, k) == (if items.len() == 0 {
            Option::<JsonV>::None
        } else {
            Some(JsonV::Arr(spec_ser_successes(items)))
        }),
    ensures
        spec_load_success_actions(m, k) == Ok::<
            Seq<Either<SuccessObjectV, ReusableObjectV>>,
            ErrV,
        >(items),
{
    if items.len() == 0 {
        assert(items =~= Seq::<Either<SuccessObjectV, ReusableObjectV>>::empty());
    } else {
        let f = |x: Either<SuccessObjectV, ReusableObjectV>| spec_ser_success_item(x);
        let g = |nv: JsonV| success_item(nv);
        assert forall|j: int| 0 <= j < items.len() implies g(f(#[trigger] items[j])) == Ok::<
            Option<Either<SuccessObjectV, ReusableObjectV>>,
            ErrV,
        >(Some(items[j])) by {
            lemma_success_item_round_trip(items[j]);
        }
        lemma_load_items_of_map(items, items.len() as int, f, g);
        lemma_map_nodes(items, items.len() as int, f);
        assert(items.take(items.len() as int) =~= items);
        assert(spec_ser_successes(items) == map_nodes(items, items.len() as int, f));
    }
}

/// Reading back a serialized failure-actions field gives the list
/// back.
proof fn lemma_failures_field_round_trip(
    m: JsonObjectV,
    k: Seq<char>,
    items: Seq<Either<FailureObjectV, ReusableObjectV>>,
)
    requires
        wf_failures(items),
        kv_get(m, k) == (if items.len() == 0 {
            Option::<JsonV>::None
        } else {
            Some(JsonV::Arr(spec_ser_failures(items)))
        }),
    ensures
        spec_load_failure_actions(m, k) == Ok::<
            Seq<Either<FailureObjectV, ReusableObjectV>>,
            ErrV,
        >(items),
{
    if items.len() == 0 {
        assert(items =~= Seq::<Either<FailureObjectV, ReusableObjectV>>::empty());
    } else {
        let f = |x: Either<FailureObjectV, ReusableObjectV>| spec_ser_failure_item(x);
        let g = |nv: JsonV| failure_item(nv);
        assert forall|j: int| 0 <= j < items.len() implies g(f(#[trigger] items[j])) == Ok::<
            Option<Either<FailureObjectV, ReusableObjectV>>,
            ErrV,
        >(Some(items[j])) by {
            lemma_failure_item_round_trip(items[j]);
        }
        lemma_load_items_of_map(items, items.len() as int, f, g);
        lemma_map_nodes(items, items.len() as int, f);
        assert(items.take(items.len() as int) =~= items);
        assert(spec_ser_failures(items) == map_nodes(items, items.len() as int, f));
    }
}


/// A well-formed Payload Replacement: a well-formed two-shape value
/// and extensions.
pub open spec fn wf_replacement(v: PayloadReplacementV) -> bool {
    wf_value2(v.value) && wf_exts(v.extensions)
}

/// Loading the serialized tree of a Payload Replacement gives it
/// back.
pub proof fn lemma_replacement_round_trip(v: PayloadReplacementV)
    requires
        wf_replacement(v),
    ensures
        spec_load_replacement(spec_ser_replacement(v)) == Ok::<PayloadReplacementV, ErrV>(v),
{
    reveal_strlit("target");
    reveal_strlit("value");
    reveal_strlit("x-");
    assert("target"@.len() == 6);
    assert("value"@.len() == 5);
    let a = fld_str("target"@, v.target);
    let b = fld_node("value"@, spec_ser_value(v.value));
    let x = spec_ser_exts(v.extensions);
    let fixed = a + b;
    let e = fixed + x;
    assert(spec_ser_replacement(v)->Obj_0 == e);
    assert forall|i: int| 0 <= i < fixed.len() implies !has_ext_prefix(
        (#[trigger] fixed[i]).0,
    ) by {
        assert(fixed[i].0 == "target"@ || fixed[i].0 == "value"@);
        assert("target"@[0] == 't' && "value"@[0] == 'v');
    }
    assert forall|k: Seq<char>| k == "target"@ || k == "value"@ implies kv_get(e, k) == (match
    kv_get(a, k) {
        Some(val) => Some(val),
        None => kv_get(b, k),
    }) by {
        lemma_kv_get_append(fixed, x, k);
        lemma_kv_get_append(a, b, k);
        assert("target"@[0] == 't' && "value"@[0] == 'v');
        lemma_kv_get_ext_none(v.extensions, k);
    }
    lemma_kv_get_single(("target"@, JsonV::Str(v.target)), "target"@);
    lemma_kv_get_single(("target"@, JsonV::Str(v.target)), "value"@);
    lemma_kv_get_single(("value"@, spec_ser_value(v.value)), "value"@);
    assert(kv_get(e, "target"@) == Some(JsonV::Str(v.target)));
    assert(kv_get(e, "value"@) == Some(spec_ser_value(v.value)));
    lemma_value2_round_trip(e, "value"@, v.value);
    lemma_entity_ext_round_trip(fixed, v.extensions);
}

/// Every replacement in the list is well formed.
pub open spec fn wf_replacements(items: Seq<PayloadReplacementV>) -> bool {
    forall|i: int| 0 <= i < items.len() ==> wf_replacement(#[trigger] items[i])
}

/// A well-formed payload: the loader never captures a null or string
/// tree structurally, so a structured payload holds neither.
pub open spec fn wf_payload(p: PayloadV) -> bool {
    match p {
        PayloadV::Structured(j) => !(j is Null) && !(j is Str),
        _ => true,
    }
}

/// A well-formed Request Body: well-formed payload, replacements and
/// extensions.
pub open spec fn wf_request_body(v: RequestBodyV) -> bool {
    &&& (v.payload matches Some(p) ==> wf_payload(p))
    &&& wf_replacements(v.replacements)
    &&& wf_exts(v.extensions)
}

/// A serialized replacements list has one node per entry.
proof fn lemma_ser_replacements_len(items: Seq<PayloadReplacementV>)
    ensures
        spec_ser_replacements(items).len() == items.len(),
{
    let f = |x: PayloadReplacementV| spec_ser_replacement(x);
    lemma_map_nodes(items, items.len() as int, f);
    assert(spec_ser_replacements(items) == map_nodes(items, items.len() as int, f));
}

/// Loading the serialized tree of a Request Body gives it back.
pub proof fn lemma_request_body_round_trip(v: RequestBodyV)
    requires
        wf_request_body(v),
    ensures
        spec_load_request_body(spec_ser_request_body(v)) == Ok::<RequestBodyV, ErrV>(v),
{
    reveal_strlit("contentType");
    reveal_strlit("payload");
    reveal_strlit("replacements");
    reveal_strlit("x-");
    assert("contentType"@.len() == 11);
    assert("payload"@.len() == 7);
    assert("replacements"@.len() == 12);
    assert("contentType"@[0] == 'c' && "payload"@[0] == 'p' && "replacements"@[0] == 'r');
    lemma_ser_replacements_len(v.replacements);
    let a = fld_opt_str("contentType"@, v.content_type);
    let b = fld_payload(v.payload);
    let c = fld_list("replacements"@, spec_ser_replacements(v.replacements));
    let x = spec_ser_exts(v.extensions);
    let fixed = a + b + c;
    let e = fixed + x;
    assert(spec_ser_request_body(v)->Obj_0 == e);
    assert forall|i: int| 0 <= i < fixed.len() implies !has_ext_prefix(
        (#[trigger] fixed[i]).0,
    ) by {
        assert(fixed[i].0 == "contentType"@ || fixed[i].0 == "payload"@ || fixed[i].0
            == "replacements"@);
    }
    assert forall|k: Seq<char>|
        k == "contentType"@ || k == "payload"@ || k == "replacements"@ implies kv_get(e, k) == (
    match kv_get(a, k) {
        Some(val) => Some(val),
        None => match kv_get(b, k) {
            Some(val) => Some(val),
            None => kv_get(c, k),
        },
    }) by {
        lemma_kv_get_append(fixed, x, k);
        lemma_kv_get_append(a + b, c, k);
        lemma_kv_get_append(a, b, k);
        lemma_kv_get_ext_none(v.extensions, k);
    }
    match v.content_type {
        Some(ct) => {
            let kv = ("contentType"@, JsonV::Str(ct));
            lemma_kv_get_single(kv, "contentType"@);
            lemma_kv_get_single(kv, "payload"@);
            lemma_kv_get_single(kv, "replacements"@);
        },
        None => {
            assert(a.len() == 0);
        },
    }
    match v.payload {
        Some(p) => {
            let kv = ("payload"@, crate::serialize::spec_ser_payload(p));
            lemma_kv_get_single(kv, "contentType"@);
            lemma_kv_get_single(kv, "payload"@);
            lemma_kv_get_single(kv, "replacements"@);
        },
        None => {
            assert(b.len() == 0);
        },
    }
    if v.replacements.len() > 0 {
        let kv = ("replacements"@, JsonV::Arr(spec_ser_replacements(v.replacements)));
        lemma_kv_get_single(kv, "contentType"@);
        lemma_kv_get_single(kv, "payload"@);
        lemma_kv_get_single(kv, "replacements"@);
    } else {
        assert(c.len() == 0);
    }

    match v.content_type {
        Some(ct) => {
            assert(kv_get(e, "contentType"@) == Some(JsonV::Str(ct)));
        },
        None => {
            assert(kv_get(e, "contentType"@) is None);
        },
    }
    match v.payload {
        Some(p) => {
            assert(kv_get(e, "payload"@) == Some(crate::serialize::spec_ser_payload(p)));
            match p {
                PayloadV::Text(st) => {},
                PayloadV::Empty => {},
                PayloadV::Structured(j) => {},
            }
            assert(spec_load_payload(e) == Some(p));
        },
        None => {
            assert(kv_get(e, "payload"@) is None);
            assert(spec_load_payload(e) is None);
        },
    }
    if v.replacements.len() == 0 {
        assert(kv_get(e, "replacements"@) is None);
        assert(v.replacements =~= Seq::<PayloadReplacementV>::empty());
        assert(spec_load_replacements(e) == Ok::<Seq<PayloadReplacementV>, ErrV>(Seq::empty()));
    } else {
        assert(kv_get(e, "replacements"@) == Some(
            JsonV::Arr(spec_ser_replacements(v.replacements)),
        ));
        let f = |x2: PayloadReplacementV| spec_ser_replacement(x2);
        let g = |nv: JsonV| replacement_item(nv);
        assert forall|j: int| 0 <= j < v.replacements.len() implies g(
            f(#[trigger] v.replacements[j]),
        ) == Ok::<Option<PayloadReplacementV>, ErrV>(Some(v.replacements[j])) by {
            lemma_replacement_round_trip(v.replacements[j]);
        }
        lemma_load_items_of_map(v.replacements, v.replacements.len() as int, f, g);
        lemma_map_nodes(v.replacements, v.replacements.len() as int, f);
        assert(v.replacements.take(v.replacements.len() as int) =~= v.replacements);
        assert(spec_ser_replacements(v.replacements) == map_nodes(
            v.replacements,
            v.replacements.len() as int,
            f,
        ));
    }
    lemma_entity_ext_round_trip(fixed, v.extensions);
}

/// A well-formed outputs mapping: keys strictly sorted.
pub open spec fn wf_outputs(outputs: Seq<(Seq<char>, Seq<char>)>) -> bool {
    kv_sorted(outputs)
}

/// Merging back the first `j` serialized outputs entries rebuilds the
/// prefix.
proof fn lemma_outputs_entries_round_trip(outputs: Seq<(Seq<char>, Seq<char>)>, j: int)
    requires
        0 <= j <= outputs.len(),
        kv_sorted(outputs),
    ensures
        crate::json::spec_outputs_entries(
            map_kv_nodes(outputs, outputs.len() as int, |sv: Seq<char>| JsonV::Str(sv)),
            j,
        ) == outputs.take(j),
    decreases j,
{
    let f = |sv: Seq<char>| JsonV::Str(sv);
    lemma_map_kv_nodes(outputs, outputs.len() as int, f);
    let nodes = map_kv_nodes(outputs, outputs.len() as int, f);
    if j == 0 {
        assert(crate::json::spec_outputs_entries(nodes, 0) =~= outputs.take(0));
    } else {
        lemma_outputs_entries_round_trip(outputs, j - 1);
        assert(nodes[j - 1] == (outputs[j - 1].0, JsonV::Str(outputs[j - 1].1)));
        lemma_sorted_prefix_misses_key(outputs, j - 1);
        lemma_upsert_appends(outputs.take(j - 1), (outputs[j - 1].0, outputs[j - 1].1));
        assert((outputs[j - 1].0, outputs[j - 1].1) == outputs[j - 1]);
        assert(outputs.take(j - 1).push(outputs[j - 1]) =~= outputs.take(j));
    }
}

/// Reading back a serialized outputs field gives the mapping back.
proof fn lemma_outputs_field_round_trip(
    m: JsonObjectV,
    outputs: Seq<(Seq<char>, Seq<char>)>,
)
    requires
        wf_outputs(outputs),
        kv_get(m, "outputs"@) == (if outputs.len() == 0 {
            Option::<JsonV>::None
        } else {
            Some(JsonV::Obj(crate::serialize::spec_ser_outputs(outputs)))
        }),
    ensures
        spec_load_outputs(m) == outputs,
{
    let f = |sv: Seq<char>| JsonV::Str(sv);
    lemma_map_kv_nodes(outputs, outputs.len() as int, f);
    assert(crate::serialize::spec_ser_outputs(outputs) == map_kv_nodes(
        outputs,
        outputs.len() as int,
        f,
    ));
    if outputs.len() == 0 {
        assert(spec_load_outputs(m) =~= outputs);
    } else {
        lemma_outputs_entries_round_trip(outputs, outputs.len() as int);
        assert(outputs.take(outputs.len() as int) =~= outputs);
    }
}

/// A well-formed Source Description: a well-formed extension mapping.
pub open spec fn wf_source_description(v: crate::v1_0::SourceDescriptionV) -> bool {
    wf_exts(v.extensions)
}

/// Loading the serialized tree of a Source Description gives it back.
pub proof fn lemma_source_description_round_trip(v: crate::v1_0::SourceDescriptionV)
    requires
        wf_source_description(v),
    ensures
        crate::json::spec_load_source_description(
            crate::serialize::spec_ser_source_description(v),
        ) == Ok::<crate::v1_0::SourceDescriptionV, ErrV>(v),
{
    reveal_strlit("name");
    reveal_strlit("type");
    reveal_strlit("url");
    reveal_strlit("x-");
    assert("name"@.len() == 4);
    assert("type"@.len() == 4);
    assert("url"@.len() == 3);
    assert("name"@[0] == 'n' && "type"@[0] == 't' && "url"@[0] == 'u');
    let a = fld_str("name"@, v.name);
    let b = fld_opt_str("type"@, v.type_);
    let c = fld_str("url"@, v.url);
    let x = spec_ser_exts(v.extensions);
    let fixed = a + b + c;
    let e = fixed + x;
    assert(crate::serialize::spec_ser_source_description(v)->Obj_0 == e);
    assert forall|i: int| 0 <= i < fixed.len() implies !has_ext_prefix(
        (#[trigger] fixed[i]).0,
    ) by {
        assert(fixed[i].0 == "name"@ || fixed[i].0 == "type"@ || fixed[i].0 == "url"@);
    }
    assert forall|k: Seq<char>|
        k == "name"@ || k == "type"@ || k == "url"@ implies kv_get(e, k) == (match kv_get(a, k) {
        Some(val) => Some(val),
        None => match kv_get(b, k) {
            Some(val) => Some(val),
            None => kv_get(c, k),
        },
    }) by {
        lemma_kv_get_append(fixed, x, k);
        lemma_kv_get_append(a + b, c, k);
        lemma_kv_get_append(a, b, k);
        lemma_kv_get_ext_none(v.extensions, k);
    }
    let namekv = ("name"@, JsonV::Str(v.name));
    lemma_kv_get_single(namekv, "name"@);
    lemma_kv_get_single(namekv, "type"@);
    lemma_kv_get_single(namekv, "url"@);
    match v.type_ {
        Some(t) => {
            let kv = ("type"@, JsonV::Str(t));
            lemma_kv_get_single(kv, "name"@);
            lemma_kv_get_single(kv, "type"@);
            lemma_kv_get_single(kv, "url"@);
        },
        None => {
            assert(b.len() == 0);
        },
    }
    let urlkv = ("url"@, JsonV::Str(v.url));
    lemma_kv_get_single(urlkv, "name"@);
    lemma_kv_get_single(urlkv, "type"@);
    lemma_kv_get_single(urlkv, "url"@);
    assert(kv_get(e, "name"@) == Some(JsonV::Str(v.name)));
    assert(kv_get(e, "url"@) == Some(JsonV::Str(v.url)));
    lemma_entity_ext_round_trip(fixed, v.extensions);
}

/// A well-formed Info: a well-formed extension mapping.
pub open spec fn wf_info(v: crate::v1_0::InfoV) -> bool {
    wf_exts(v.extensions)
}

/// Loading the serialized tree of an Info Object gives it back.
pub proof fn lemma_info_round_trip(v: crate::v1_0::InfoV)
    requires
        wf_info(v),
    ensures
        crate::json::spec_load_info(crate::serialize::spec_ser_info(v)) == Ok::<
            crate::v1_0::InfoV,
            ErrV,
        >(v),
{
    reveal_strlit("description");
    reveal_strlit("summary");
    reveal_strlit("title");
    reveal_strlit("version");
    reveal_strlit("x-");
    assert("description"@.len() == 11);
    assert("summary"@.len() == 7);
    assert("title"@.len() == 5);
    assert("version"@.len() == 7);
    assert("description"@[0] == 'd' && "summary"@[0] == 's' && "title"@[0] == 't'
        && "version"@[0] == 'v');
    let a = fld_opt_str("description"@, v.description);
    let b = fld_opt_str("summary"@, v.summary);
    let c = fld_str("title"@, v.title);
    let d = fld_str("version"@, v.version);
    let x = spec_ser_exts(v.extensions);
    let fixed = a + b + c + d;
    let e = fixed + x;
    assert(crate::serialize::spec_ser_info(v)->Obj_0 == e);
    assert forall|i: int| 0 <= i < fixed.len() implies !has_ext_prefix(
        (#[trigger] fixed[i]).0,
    ) by {
        assert(fixed[i].0 == "description"@ || fixed[i].0 == "summary"@ || fixed[i].0
            == "title"@ || fixed[i].0 == "version"@);
    }
    assert forall|k: Seq<char>|
        k == "description"@ || k == "summary"@ || k == "title"@ || k == "version"@ implies kv_get(
        e,
        k,
    ) == (match kv_get(a, k) {
        Some(val) => Some(val),
        None => match kv_get(b, k) {
            Some(val) => Some(val),
            None => match kv_get(c, k) {
                Some(val) => Some(val),
                None => kv_get(d, k),
            },
        },
    }) by {
        lemma_kv_get_append(fixed, x, k);
        lemma_kv_get_append(a + b + c, d, k);
        lemma_kv_get_append(a + b, c, k);
        lemma_kv_get_append(a, b, k);
        lemma_kv_get_ext_none(v.extensions, k);
    }
    match v.description {
        Some(ds) => {
            let kv = ("description"@, JsonV::Str(ds));
            lemma_kv_get_single(kv, "description"@);
            lemma_kv_get_single(kv, "summary"@);
            lemma_kv_get_single(kv, "title"@);
            lemma_kv_get_single(kv, "version"@);
        },
        None => {
            assert(a.len() == 0);
        },
    }
    match v.summary {
        Some(sm) => {
            let kv = ("summary"@, JsonV::Str(sm));
            lemma_kv_get_single(kv, "description"@);
            lemma_kv_get_single(kv, "summary"@);
            lemma_kv_get_single(kv, "title"@);
            lemma_kv_get_single(kv, "version"@);
        },
        None => {
            assert(b.len() == 0);
        },
    }
    let titlekv = ("title"@, JsonV::Str(v.title));
    lemma_kv_get_single(titlekv, "description"@);
    lemma_kv_get_single(titlekv, "summary"@);
    lemma_kv_get_single(titlekv, "title"@);
    lemma_kv_get_single(titlekv, "version"@);
    let verkv = ("version"@, JsonV::Str(v.version));
    lemma_kv_get_single(verkv, "description"@);
    lemma_kv_get_single(verkv, "summary"@);
    lemma_kv_get_single(verkv, "title"@);
    lemma_kv_get_single(verkv, "version"@);
    assert(kv_get(e, "title"@) == Some(JsonV::Str(v.title)));
    assert(kv_get(e, "version"@) == Some(JsonV::Str(v.version)));
    match v.description {
        Some(ds) => {
            assert(kv_get(e, "description"@) == Some(JsonV::Str(ds)));
        },
        None => {
            assert(kv_get(e, "description"@) is None);
        },
    }
    match v.summary {
        Some(sm) => {
            assert(kv_get(e, "summary"@) == Some(JsonV::Str(sm)));
        },
        None => {
            assert(kv_get(e, "summary"@) is None);
        },
    }
    lemma_entity_ext_round_trip(fixed, v.extensions);
}


/// A well-formed Step: well-formed nested lists, request body,
/// outputs and extensions.
pub open spec fn wf_step(v: crate::v1_0::StepV) -> bool {
    &&& wf_params(v.parameters)
    &&& (v.request_body matches Some(rb) ==> wf_request_body(rb))
    &&& wf_criteria(v.success_criteria)
    &&& wf_successes(v.on_success)
    &&& wf_failures(v.on_failure)
    &&& wf_outputs(v.outputs)
    &&& wf_exts(v.extensions)
}

/// A serialized outputs mapping has one entry per output.
proof fn lemma_ser_outputs_len(outputs: Seq<(Seq<char>, Seq<char>)>)
    ensures
        crate::serialize::spec_ser_outputs(outputs).len() == outputs.len(),
{
    let f = |sv: Seq<char>| JsonV::Str(sv);
    lemma_map_kv_nodes(outputs, outputs.len() as int, f);
    assert(crate::serialize::spec_ser_outputs(outputs) == map_kv_nodes(
        outputs,
        outputs.len() as int,
        f,
    ));
}

/// Loading the serialized tree of a Step gives it back.
#[verifier::rlimit(100)]
pub proof fn lemma_step_round_trip(v: crate::v1_0::StepV)
    requires
        wf_step(v),
    ensures
        crate::json::spec_load_step(crate::serialize::spec_ser_step(v)) == Ok::<
            crate::v1_0::StepV,
            ErrV,
        >(v),
{
    reveal_strlit("description");
    reveal_strlit("onFailure");
    reveal_strlit("onSuccess");
    reveal_strlit("operationId");
    reveal_strlit("operationPath");
    reveal_strlit("outputs");
    reveal_strlit("parameters");
    reveal_strlit("requestBody");
    reveal_strlit("stepId");
    reveal_strlit("successCriteria");
    reveal_strlit("workflowId");
    reveal_strlit("x-");
    assert("description"@.len() == 11);
    assert("onFailure"@.len() == 9);
    assert("onSuccess"@.len() == 9);
    assert("operationId"@.len() == 11);
    assert("operationPath"@.len() == 13);
    assert("outputs"@.len() == 7);
    assert("parameters"@.len() == 10);
    assert("requestBody"@.len() == 11);
    assert("stepId"@.len() == 6);
    assert("successCriteria"@.len() == 15);
    assert("workflowId"@.len() == 10);
    assert("description"@[0] == 'd' && "onFailure"@[0] == 'o' && "operationId"@[0] == 'o'
        && "requestBody"@[0] == 'r' && "stepId"@[0] == 's' && "workflowId"@[0] == 'w'
        && "parameters"@[0] == 'p' && "outputs"@[0] == 'o');
    assert("onFailure"@[2] == 'F' && "onSuccess"@[2] == 'S' && "operationId"@[2] == 'e'
        && "outputs"@[2] == 't');
    assert("operationId"@[9] == 'I' && "description"@[9] == 'o' && "requestBody"@[9] == 'd');
    lemma_ser_criteria_len(v.success_criteria);
    lemma_ser_params_len(v.parameters);
    lemma_ser_successes_len(v.on_success);
    lemma_ser_failures_len(v.on_failure);
    lemma_ser_outputs_len(v.outputs);
    let a = fld_opt_str("description"@, v.description);
    let b = fld_list("onFailure"@, spec_ser_failures(v.on_failure));
    let c = fld_list("onSuccess"@, spec_ser_successes(v.on_success));
    let d = fld_opt_str("operationId"@, v.operation_id);
    let e2 = fld_opt_str("operationPath"@, v.operation_path);
    let f2 = crate::serialize::fld_obj("outputs"@, crate::serialize::spec_ser_outputs(v.outputs));
    let g = fld_list("parameters"@, spec_ser_params(v.parameters));
    let h = crate::serialize::fld_request_body(v.request_body);
    let i2 = fld_str("stepId"@, v.step_id);
    let j = fld_list("successCriteria"@, spec_ser_criteria(v.success_criteria));
    let k2 = fld_opt_str("workflowId"@, v.workflow_id);
    let x = spec_ser_exts(v.extensions);
    let fixed = a + b + c + d + e2 + f2 + g + h + i2 + j + k2;
    let e = fixed + x;
    assert(crate::serialize::spec_ser_step(v)->Obj_0 == e);
    assert forall|i: int| 0 <= i < fixed.len() implies !has_ext_prefix(
        (#[trigger] fixed[i]).0,
    ) by {
        assert(fixed[i].0 == "description"@ || fixed[i].0 == "onFailure"@ || fixed[i].0
            == "onSuccess"@ || fixed[i].0 == "operationId"@ || fixed[i].0 == "operationPath"@
            || fixed[i].0 == "outputs"@ || fixed[i].0 == "parameters"@ || fixed[i].0
            == "requestBody"@ || fixed[i].0 == "stepId"@ || fixed[i].0 == "successCriteria"@
            || fixed[i].0 == "workflowId"@);
    }
    assert forall|kq: Seq<char>| kq == "description"@ || kq == "onFailure"@ || kq == "onSuccess"@ || kq == "operationId"@ || kq == "operationPath"@ || kq == "outputs"@ || kq == "parameters"@ || kq == "requestBody"@ || kq == "stepId"@ || kq == "successCriteria"@ || kq == "workflowId"@ implies kv_get(e, kq) == (match kv_get(a, kq) {
        Some(val) => Some(val),
        None => match kv_get(b, kq) {
        Some(val) => Some(val),
        None => match kv_get(c, kq) {
        Some(val) => Some(val),
        None => match kv_get(d, kq) {
        Some(val) => Some(val),
        None => match kv_get(e2, kq) {
        Some(val) => Some(val),
        None => match kv_get(f2, kq) {
        Some(val) => Some(val),
        None => match kv_get(g, kq) {
        Some(val) => Some(val),
        None => match kv_get(h, kq) {
        Some(val) => Some(val),
        None => match kv_get(i2, kq) {
        Some(val) => Some(val),
        None => match kv_get(j, kq) {
        Some(val) => Some(val),
        None => kv_get(k2, kq),
    },
    },
    },
    },
    },
    },
    },
    },
    },
    }) by {
        lemma_kv_get_append(fixed, x, kq);
        lemma_kv_get_append(a + b + c + d + e2 + f2 + g + h + i2 + j, k2, kq);
        lemma_kv_get_append(a + b + c + d + e2 + f2 + g + h + i2, j, kq);
        lemma_kv_get_append(a + b + c + d + e2 + f2 + g + h, i2, kq);
        lemma_kv_get_append(a + b + c + d + e2 + f2 + g, h, kq);
        lemma_kv_get_append(a + b + c + d + e2 + f2, g, kq);
        lemma_kv_get_append(a + b + c + d + e2, f2, kq);
        lemma_kv_get_append(a + b + c + d, e2, kq);
        lemma_kv_get_append(a + b + c, d, kq);
        lemma_kv_get_append(a + b, c, kq);
        lemma_kv_get_append(a, b, kq);
        lemma_kv_get_ext_none(v.extensions, kq);
    }
    match v.description {
        Some(sv) => {
            let kv = ("description"@, JsonV::Str(sv));
            lemma_kv_get_single(kv, "description"@);
            lemma_kv_get_single(kv, "onFailure"@);
            lemma_kv_get_single(kv, "onSuccess"@);
            lemma_kv_get_single(kv, "operationId"@);
            lemma_kv_get_single(kv, "operationPath"@);
            lemma_kv_get_single(kv, "outputs"@);
            lemma_kv_get_single(kv, "parameters"@);
            lemma_kv_get_single(kv, "requestBody"@);
            lemma_kv_get_single(kv, "stepId"@);
            lemma_kv_get_single(kv, "successCriteria"@);
            lemma_kv_get_single(kv, "workflowId"@);
        },
        None => {
            assert(a.len() == 0);
        },
    }
    if spec_ser_failures(v.on_failure).len() > 0 {
        let kv = ("onFailure"@, JsonV::Arr(spec_ser_failures(v.on_failure)));
            lemma_kv_get_single(kv, "description"@);
            lemma_kv_get_single(kv, "onFailure"@);
            lemma_kv_get_single(kv, "onSuccess"@);
            lemma_kv_get_single(kv, "operationId"@);
            lemma_kv_get_single(kv, "operationPath"@);
            lemma_kv_get_single(kv, "outputs"@);
            lemma_kv_get_single(kv, "parameters"@);
            lemma_kv_get_single(kv, "requestBody"@);
            lemma_kv_get_single(kv, "stepId"@);
            lemma_kv_get_single(kv, "successCriteria"@);
            lemma_kv_get_single(kv, "workflowId"@);
    } else {
        assert(b.len() == 0);
    }
    if spec_ser_successes(v.on_success).len() > 0 {
        let kv = ("onSuccess"@, JsonV::Arr(spec_ser_successes(v.on_success)));
            lemma_kv_get_single(kv, "description"@);
            lemma_kv_get_single(kv, "onFailure"@);
            lemma_kv_get_single(kv, "onSuccess"@);
            lemma_kv_get_single(kv, "operationId"@);
            lemma_kv_get_single(kv, "operationPath"@);
            lemma_kv_get_single(kv, "outputs"@);
            lemma_kv_get_single(kv, "parameters"@);
            lemma_kv_get_single(kv, "requestBody"@);
            lemma_kv_get_single(kv, "stepId"@);
            lemma_kv_get_single(kv, "successCriteria"@);
            lemma_kv_get_single(kv, "workflowId"@);
    } else {
        assert(c.len() == 0);
    }
    match v.operation_id {
        Some(sv) => {
            let kv = ("operationId"@, JsonV::Str(sv));
            lemma_kv_get_single(kv, "description"@);
            lemma_kv_get_single(kv, "onFailure"@);
            lemma_kv_get_single(kv, "onSuccess"@);
            lemma_kv_get_single(kv, "operationId"@);
            lemma_kv_get_single(kv, "operationPath"@);
            lemma_kv_get_single(kv, "outputs"@);
            lemma_kv_get_single(kv, "parameters"@);
            lemma_kv_get_single(kv, "requestBody"@);
            lemma_kv_get_single(kv, "stepId"@);
            lemma_kv_get_single(kv, "successCriteria"@);
            lemma_kv_get_single(kv, "workflowId"@);
        },
        None => {
            assert(d.len() == 0);
        },
    }
    match v.operation_path {
        Some(sv) => {
            let kv = ("operationPath"@, JsonV::Str(sv));
            lemma_kv_get_single(kv, "description"@);
            lemma_kv_get_single(kv, "onFailure"@);
            lemma_kv_get_single(kv, "onSuccess"@);
            lemma_kv_get_single(kv, "operationId"@);
            lemma_kv_get_single(kv, "operationPath"@);
            lemma_kv_get_single(kv, "outputs"@);
            lemma_kv_get_single(kv, "parameters"@);
            lemma_kv_get_single(kv, "requestBody"@);
            lemma_kv_get_single(kv, "stepId"@);
            lemma_kv_get_single(kv, "successCriteria"@);
            lemma_kv_get_single(kv, "workflowId"@);
        },
        None => {
            assert(e2.len() == 0);
        },
    }
    if crate::serialize::spec_ser_outputs(v.outputs).len() > 0 {
        let kv = ("outputs"@, JsonV::Obj(crate::serialize::spec_ser_outputs(v.outputs)));
            lemma_kv_get_single(kv, "description"@);
            lemma_kv_get_single(kv, "onFailure"@);
            lemma_kv_get_single(kv, "onSuccess"@);
            lemma_kv_get_single(kv, "operationId"@);
            lemma_kv_get_single(kv, "operationPath"@);
            lemma_kv_get_single(kv, "outputs"@);
            lemma_kv_get_single(kv, "parameters"@);
            lemma_kv_get_single(kv, "requestBody"@);
            lemma_kv_get_single(kv, "stepId"@);
            lemma_kv_get_single(kv, "successCriteria"@);
            lemma_kv_get_single(kv, "workflowId"@);
    } else {
        assert(f2.len() == 0);
    }
    if spec_ser_params(v.parameters).len() > 0 {
        let kv = ("parameters"@, JsonV::Arr(spec_ser_params(v.parameters)));
            lemma_kv_get_single(kv, "description"@);
            lemma_kv_get_single(kv, "onFailure"@);
            lemma_kv_get_single(kv, "onSuccess"@);
            lemma_kv_get_single(kv, "operationId"@);
            lemma_kv_get_single(kv, "operationPath"@);
            lemma_kv_get_single(kv, "outputs"@);
            lemma_kv_get_single(kv, "parameters"@);
            lemma_kv_get_single(kv, "requestBody"@);
            lemma_kv_get_single(kv, "stepId"@);
            lemma_kv_get_single(kv, "successCriteria"@);
            lemma_kv_get_single(kv, "workflowId"@);
    } else {
        assert(g.len() == 0);
    }
    match v.request_body {
        Some(rb) => {
            let kv = ("requestBody"@, spec_ser_request_body(rb));
            lemma_kv_get_single(kv, "description"@);
            lemma_kv_get_single(kv, "onFailure"@);
            lemma_kv_get_single(kv, "onSuccess"@);
            lemma_kv_get_single(kv, "operationId"@);
            lemma_kv_get_single(kv, "operationPath"@);
            lemma_kv_get_single(kv, "outputs"@);
            lemma_kv_get_single(kv, "parameters"@);
            lemma_kv_get_single(kv, "requestBody"@);
            lemma_kv_get_single(kv, "stepId"@);
            lemma_kv_get_single(kv, "successCriteria"@);
            lemma_kv_get_single(kv, "workflowId"@);
        },
        None => {
            assert(h.len() == 0);
        },
    }
    {
        let kv = ("stepId"@, JsonV::Str(v.step_id));
            lemma_kv_get_single(kv, "description"@);
            lemma_kv_get_single(kv, "onFailure"@);
            lemma_kv_get_single(kv, "onSuccess"@);
            lemma_kv_get_single(kv, "operationId"@);
            lemma_kv_get_single(kv, "operationPath"@);
            lemma_kv_get_single(kv, "outputs"@);
            lemma_kv_get_single(kv, "parameters"@);
            lemma_kv_get_single(kv, "requestBody"@);
            lemma_kv_get_single(kv, "stepId"@);
            lemma_kv_get_single(kv, "successCriteria"@);
            lemma_kv_get_single(kv, "workflowId"@);
    }
    if spec_ser_criteria(v.success_criteria).len() > 0 {
        let kv = ("successCriteria"@, JsonV::Arr(spec_ser_criteria(v.success_criteria)));
            lemma_kv_get_single(kv, "description"@);
            lemma_kv_get_single(kv, "onFailure"@);
            lemma_kv_get_single(kv, "onSuccess"@);
            lemma_kv_get_single(kv, "operationId"@);
            lemma_kv_get_single(kv, "operationPath"@);
            lemma_kv_get_single(kv, "outputs"@);
            lemma_kv_get_single(kv, "parameters"@);
            lemma_kv_get_single(kv, "requestBody"@);
            lemma_kv_get_single(kv, "stepId"@);
            lemma_kv_get_single(kv, "successCriteria"@);
            lemma_kv_get_single(kv, "workflowId"@);
    } else {
        assert(j.len() == 0);
    }
    match v.workflow_id {
        Some(sv) => {
            let kv = ("workflowId"@, JsonV::Str(sv));
            lemma_kv_get_single(kv, "description"@);
            lemma_kv_get_single(kv, "onFailure"@);
            lemma_kv_get_single(kv, "onSuccess"@);
            lemma_kv_get_single(kv, "operationId"@);
            lemma_kv_get_single(kv, "operationPath"@);
            lemma_kv_get_single(kv, "outputs"@);
            lemma_kv_get_single(kv, "parameters"@);
            lemma_kv_get_single(kv, "requestBody"@);
            lemma_kv_get_single(kv, "stepId"@);
            lemma_kv_get_single(kv, "successCriteria"@);
            lemma_kv_get_single(kv, "workflowId"@);
        },
        None => {
            assert(k2.len() == 0);
        },
    }
    assert(kv_get(e, "stepId"@) == Some(JsonV::Str(v.step_id)));
    lemma_params_field_round_trip(e, "parameters"@, v.parameters);
    match v.request_body {
        Some(rb) => {
            assert(kv_get(e, "requestBody"@) == Some(spec_ser_request_body(rb)));
            lemma_request_body_round_trip(rb);
        },
        None => {
            assert(kv_get(e, "requestBody"@) is None);
        },
    }
    lemma_successes_field_round_trip(e, "onSuccess"@, v.on_success);
    lemma_criteria_field_round_trip(e, "successCriteria"@, v.success_criteria);
    lemma_failures_field_round_trip(e, "onFailure"@, v.on_failure);
    lemma_outputs_field_round_trip(e, v.outputs);
    lemma_entity_ext_round_trip(fixed, v.extensions);
}


/// Converting back the first `j` serialized string-list elements
/// rebuilds the prefix.
proof fn lemma_stringish_of_strs(items: Seq<Seq<char>>, j: int)
    requires
        0 <= j <= items.len(),
    ensures
        crate::json::spec_stringish_list(
            map_nodes(items, items.len() as int, |sv: Seq<char>| JsonV::Str(sv)),
            j,
        ) == items.take(j),
    decreases j,
{
    let f = |sv: Seq<char>| JsonV::Str(sv);
    lemma_map_nodes(items, items.len() as int, f);
    let nodes = map_nodes(items, items.len() as int, f);
    if j == 0 {
        assert(crate::json::spec_stringish_list(nodes, 0) =~= items.take(0));
    } else {
        lemma_stringish_of_strs(items, j - 1);
        assert(nodes[j - 1] == JsonV::Str(items[j - 1]));
        assert(items.take(j - 1).push(items[j - 1]) =~= items.take(j));
    }
}

/// A serialized depends-on list has one node per name.
proof fn lemma_ser_depends_len(items: Seq<Seq<char>>)
    ensures
        crate::serialize::spec_ser_depends(items).len() == items.len(),
{
    let f = |sv: Seq<char>| JsonV::Str(sv);
    lemma_map_nodes(items, items.len() as int, f);
    assert(crate::serialize::spec_ser_depends(items) == map_nodes(
        items,
        items.len() as int,
        f,
    ));
}

/// A serialized steps list has one node per step.
proof fn lemma_ser_steps_len(items: Seq<crate::v1_0::StepV>)
    ensures
        crate::serialize::spec_ser_steps(items).len() == items.len(),
{
    let f = |x2: crate::v1_0::StepV| crate::serialize::spec_ser_step(x2);
    lemma_map_nodes(items, items.len() as int, f);
    assert(crate::serialize::spec_ser_steps(items) == map_nodes(items, items.len() as int, f));
}

/// Every step in the list is well formed.
pub open spec fn wf_steps(items: Seq<crate::v1_0::StepV>) -> bool {
    forall|i: int| 0 <= i < items.len() ==> wf_step(#[trigger] items[i])
}

/// Reading back a serialized non-empty steps field gives the list
/// back.
proof fn lemma_steps_field_round_trip(m: JsonObjectV, items: Seq<crate::v1_0::StepV>)
    requires
        wf_steps(items),
        items.len() > 0,
        kv_get(m, "steps"@) == Some(JsonV::Arr(crate::serialize::spec_ser_steps(items))),
    ensures
        crate::json::spec_load_steps(m) == Ok::<Seq<crate::v1_0::StepV>, ErrV>(items),
{
    let f = |x2: crate::v1_0::StepV| crate::serialize::spec_ser_step(x2);
    let g = |nv: JsonV| crate::json::step_item(nv);
    lemma_ser_steps_len(items);
    assert forall|jj: int| 0 <= jj < items.len() implies g(f(#[trigger] items[jj])) == Ok::<
        Option<crate::v1_0::StepV>,
        ErrV,
    >(Some(items[jj])) by {
        lemma_step_round_trip(items[jj]);
    }
    lemma_load_items_of_map(items, items.len() as int, f, g);
    lemma_map_nodes(items, items.len() as int, f);
    assert(items.take(items.len() as int) =~= items);
    assert(crate::serialize::spec_ser_steps(items) == map_nodes(items, items.len() as int, f));
}

/// A well-formed Workflow: a non-empty list of well-formed steps and
/// well-formed nested lists, outputs and extensions.
pub open spec fn wf_workflow(v: crate::v1_0::WorkflowV) -> bool {
    &&& v.steps.len() > 0
    &&& wf_steps(v.steps)
    &&& wf_params(v.parameters)
    &&& wf_successes(v.success_actions)
    &&& wf_failures(v.failure_actions)
    &&& wf_outputs(v.outputs)
    &&& wf_exts(v.extensions)
}

/// Loading the serialized tree of a Workflow gives it back.
#[verifier::rlimit(100)]
pub proof fn lemma_workflow_round_trip(v: crate::v1_0::WorkflowV)
    requires
        wf_workflow(v),
    ensures
        crate::json::spec_load_workflow(crate::serialize::spec_ser_workflow(v)) == Ok::<
            crate::v1_0::WorkflowV,
            ErrV,
        >(v),
{
    reveal_strlit("dependsOn");
    reveal_strlit("description");
    reveal_strlit("failureActions");
    reveal_strlit("inputs");
    reveal_strlit("outputs");
    reveal_strlit("parameters");
    reveal_strlit("steps");
    reveal_strlit("successActions");
    reveal_strlit("summary");
    reveal_strlit("workflowId");
    reveal_strlit("x-");
    assert("dependsOn"@.len() == 9);
    assert("description"@.len() == 11);
    assert("failureActions"@.len() == 14);
    assert("inputs"@.len() == 6);
    assert("outputs"@.len() == 7);
    assert("parameters"@.len() == 10);
    assert("steps"@.len() == 5);
    assert("successActions"@.len() == 14);
    assert("summary"@.len() == 7);
    assert("workflowId"@.len() == 10);
    assert("dependsOn"@[0] == 'd' && "description"@[0] == 'd' && "failureActions"@[0] == 'f'
        && "inputs"@[0] == 'i' && "outputs"@[0] == 'o' && "parameters"@[0] == 'p'
        && "steps"@[0] == 's' && "successActions"@[0] == 's' && "summary"@[0] == 's'
        && "workflowId"@[0] == 'w');
    assert("dependsOn"@[1] == 'e' && "description"@[1] == 'e' && "dependsOn"@[2] == 'p'
        && "description"@[2] == 's');
    assert("failureActions"@[1] == 'a' && "successActions"@[1] == 'u' && "summary"@[1] == 'u'
        && "steps"@[1] == 't' && "successActions"@[2] == 'c' && "summary"@[2] == 'm');
    assert("parameters"@[1] == 'a' && "workflowId"@[1] == 'o');
    lemma_ser_depends_len(v.depends_on);
    lemma_ser_failures_len(v.failure_actions);
    lemma_ser_outputs_len(v.outputs);
    lemma_ser_params_len(v.parameters);
    lemma_ser_steps_len(v.steps);
    lemma_ser_successes_len(v.success_actions);
    let a = fld_list("dependsOn"@, crate::serialize::spec_ser_depends(v.depends_on));
    let b = fld_opt_str("description"@, v.description);
    let c = fld_list("failureActions"@, spec_ser_failures(v.failure_actions));
    let d = crate::serialize::fld_inputs(v.inputs);
    let e2 = crate::serialize::fld_obj("outputs"@, crate::serialize::spec_ser_outputs(v.outputs));
    let f2 = fld_list("parameters"@, spec_ser_params(v.parameters));
    let g = fld_list("steps"@, crate::serialize::spec_ser_steps(v.steps));
    let h = fld_list("successActions"@, spec_ser_successes(v.success_actions));
    let i2 = fld_opt_str("summary"@, v.summary);
    let j = fld_str("workflowId"@, v.workflow_id);
    let x = spec_ser_exts(v.extensions);
    let fixed = a + b + c + d + e2 + f2 + g + h + i2 + j;
    let e = fixed + x;
    assert(crate::serialize::spec_ser_workflow(v)->Obj_0 == e);
    assert forall|i: int| 0 <= i < fixed.len() implies !has_ext_prefix(
        (#[trigger] fixed[i]).0,
    ) by {
        assert(fixed[i].0 == "dependsOn"@ || fixed[i].0 == "description"@ || fixed[i].0
            == "failureActions"@ || fixed[i].0 == "inputs"@ || fixed[i].0 == "outputs"@
            || fixed[i].0 == "parameters"@ || fixed[i].0 == "steps"@ || fixed[i].0
            == "successActions"@ || fixed[i].0 == "summary"@ || fixed[i].0 == "workflowId"@);
    }
    assert forall|kq: Seq<char>| kq == "dependsOn"@ || kq == "description"@ || kq == "failureActions"@ || kq == "inputs"@ || kq == "outputs"@ || kq == "parameters"@ || kq == "steps"@ || kq == "successActions"@ || kq == "summary"@ || kq == "workflowId"@ implies kv_get(e, kq) == (match kv_get(a, kq) {
        Some(val) => Some(val),
        None => match kv_get(b, kq) {
        Some(val) => Some(val),
        None => match kv_get(c, kq) {
        Some(val) => Some(val),
        None => match kv_get(d, kq) {
        Some(val) => Some(val),
        None => match kv_get(e2, kq) {
        Some(val) => Some(val),
        None => match kv_get(f2, kq) {
        Some(val) => Some(val),
        None => match kv_get(g, kq) {
        Some(val) => Some(val),
        None => match kv_get(h, kq) {
        Some(val) => Some(val),
        None => match kv_get(i2, kq) {
        Some(val) => Some(val),
        None => kv_get(j, kq),
    },
    },
    },
    },
    },
    },
    },
    },
    }) by {
        lemma_kv_get_append(fixed, x, kq);
        lemma_kv_get_append(a + b + c + d + e2 + f2 + g + h + i2, j, kq);
        lemma_kv_get_append(a + b + c + d + e2 + f2 + g + h, i2, kq);
        lemma_kv_get_append(a + b + c + d + e2 + f2 + g, h, kq);
        lemma_kv_get_append(a + b + c + d + e2 + f2, g, kq);
        lemma_kv_get_append(a + b + c + d + e2, f2, kq);
        lemma_kv_get_append(a + b + c + d, e2, kq);
        lemma_kv_get_append(a + b + c, d, kq);
        lemma_kv_get_append(a + b, c, kq);
        lemma_kv_get_append(a, b, kq);
        lemma_kv_get_ext_none(v.extensions, kq);
    }
    if crate::serialize::spec_ser_depends(v.depends_on).len() > 0 {
        let kv = ("dependsOn"@, JsonV::Arr(crate::serialize::spec_ser_depends(v.depends_on)));
            lemma_kv_get_single(kv, "dependsOn"@);
            lemma_kv_get_single(kv, "description"@);
            lemma_kv_get_single(kv, "failureActions"@);
            lemma_kv_get_single(kv, "inputs"@);
            lemma_kv_get_single(kv, "outputs"@);
            lemma_kv_get_single(kv, "parameters"@);
            lemma_kv_get_single(kv, "steps"@);
            lemma_kv_get_single(kv, "successActions"@);
            lemma_kv_get_single(kv, "summary"@);
            lemma_kv_get_single(kv, "workflowId"@);
    } else {
        assert(a.len() == 0);
    }
    match v.description {
        Some(sv) => {
            let kv = ("description"@, JsonV::Str(sv));
            lemma_kv_get_single(kv, "dependsOn"@);
            lemma_kv_get_single(kv, "description"@);
            lemma_kv_get_single(kv, "failureActions"@);
            lemma_kv_get_single(kv, "inputs"@);
            lemma_kv_get_single(kv, "outputs"@);
            lemma_kv_get_single(kv, "parameters"@);
            lemma_kv_get_single(kv, "steps"@);
            lemma_kv_get_single(kv, "successActions"@);
            lemma_kv_get_single(kv, "summary"@);
            lemma_kv_get_single(kv, "workflowId"@);
        },
        None => {
            assert(b.len() == 0);
        },
    }
    if spec_ser_failures(v.failure_actions).len() > 0 {
        let kv = ("failureActions"@, JsonV::Arr(spec_ser_failures(v.failure_actions)));
            lemma_kv_get_single(kv, "dependsOn"@);
            lemma_kv_get_single(kv, "description"@);
            lemma_kv_get_single(kv, "failureActions"@);
            lemma_kv_get_single(kv, "inputs"@);
            lemma_kv_get_single(kv, "outputs"@);
            lemma_kv_get_single(kv, "parameters"@);
            lemma_kv_get_single(kv, "steps"@);
            lemma_kv_get_single(kv, "successActions"@);
            lemma_kv_get_single(kv, "summary"@);
            lemma_kv_get_single(kv, "workflowId"@);
    } else {
        assert(c.len() == 0);
    }
    match v.inputs {
        JsonV::Null => {
            assert(d.len() == 0);
        },
        _ => {
            let kv = ("inputs"@, v.inputs);
            lemma_kv_get_single(kv, "dependsOn"@);
            lemma_kv_get_single(kv, "description"@);
            lemma_kv_get_single(kv, "failureActions"@);
            lemma_kv_get_single(kv, "inputs"@);
            lemma_kv_get_single(kv, "outputs"@);
            lemma_kv_get_single(kv, "parameters"@);
            lemma_kv_get_single(kv, "steps"@);
            lemma_kv_get_single(kv, "successActions"@);
            lemma_kv_get_single(kv, "summary"@);
            lemma_kv_get_single(kv, "workflowId"@);
        },
    }
    if crate::serialize::spec_ser_outputs(v.outputs).len() > 0 {
        let kv = ("outputs"@, JsonV::Obj(crate::serialize::spec_ser_outputs(v.outputs)));
            lemma_kv_get_single(kv, "dependsOn"@);
            lemma_kv_get_single(kv, "description"@);
            lemma_kv_get_single(kv, "failureActions"@);
            lemma_kv_get_single(kv, "inputs"@);
            lemma_kv_get_single(kv, "outputs"@);
            lemma_kv_get_single(kv, "parameters"@);
            lemma_kv_get_single(kv, "steps"@);
            lemma_kv_get_single(kv, "successActions"@);
            lemma_kv_get_single(kv, "summary"@);
            lemma_kv_get_single(kv, "workflowId"@);
    } else {
        assert(e2.len() == 0);
    }
    if spec_ser_params(v.parameters).len() > 0 {
        let kv = ("parameters"@, JsonV::Arr(spec_ser_params(v.parameters)));
            lemma_kv_get_single(kv, "dependsOn"@);
            lemma_kv_get_single(kv, "description"@);
            lemma_kv_get_single(kv, "failureActions"@);
            lemma_kv_get_single(kv, "inputs"@);
            lemma_kv_get_single(kv, "outputs"@);
            lemma_kv_get_single(kv, "parameters"@);
            lemma_kv_get_single(kv, "steps"@);
            lemma_kv_get_single(kv, "successActions"@);
            lemma_kv_get_single(kv, "summary"@);
            lemma_kv_get_single(kv, "workflowId"@);
    } else {
        assert(f2.len() == 0);
    }
    if crate::serialize::spec_ser_steps(v.steps).len() > 0 {
        let kv = ("steps"@, JsonV::Arr(crate::serialize::spec_ser_steps(v.steps)));
            lemma_kv_get_single(kv, "dependsOn"@);
            lemma_kv_get_single(kv, "description"@);
            lemma_kv_get_single(kv, "failureActions"@);
            lemma_kv_get_single(kv, "inputs"@);
            lemma_kv_get_single(kv, "outputs"@);
            lemma_kv_get_single(kv, "parameters"@);
            lemma_kv_get_single(kv, "steps"@);
            lemma_kv_get_single(kv, "successActions"@);
            lemma_kv_get_single(kv, "summary"@);
            lemma_kv_get_single(kv, "workflowId"@);
    } else {
        assert(g.len() == 0);
    }
    if spec_ser_successes(v.success_actions).len() > 0 {
        let kv = ("successActions"@, JsonV::Arr(spec_ser_successes(v.success_actions)));
            lemma_kv_get_single(kv, "dependsOn"@);
            lemma_kv_get_single(kv, "description"@);
            lemma_kv_get_single(kv, "failureActions"@);
            lemma_kv_get_single(kv, "inputs"@);
            lemma_kv_get_single(kv, "outputs"@);
            lemma_kv_get_single(kv, "parameters"@);
            lemma_kv_get_single(kv, "steps"@);
            lemma_kv_get_single(kv, "successActions"@);
            lemma_kv_get_single(kv, "summary"@);
            lemma_kv_get_single(kv, "workflowId"@);
    } else {
        assert(h.len() == 0);
    }
    match v.summary {
        Some(sv) => {
            let kv = ("summary"@, JsonV::Str(sv));
            lemma_kv_get_single(kv, "dependsOn"@);
            lemma_kv_get_single(kv, "description"@);
            lemma_kv_get_single(kv, "failureActions"@);
            lemma_kv_get_single(kv, "inputs"@);
            lemma_kv_get_single(kv, "outputs"@);
            lemma_kv_get_single(kv, "parameters"@);
            lemma_kv_get_single(kv, "steps"@);
            lemma_kv_get_single(kv, "successActions"@);
            lemma_kv_get_single(kv, "summary"@);
            lemma_kv_get_single(kv, "workflowId"@);
        },
        None => {
            assert(i2.len() == 0);
        },
    }
    {
        let kv = ("workflowId"@, JsonV::Str(v.workflow_id));
            lemma_kv_get_single(kv, "dependsOn"@);
            lemma_kv_get_single(kv, "description"@);
            lemma_kv_get_single(kv, "failureActions"@);
            lemma_kv_get_single(kv, "inputs"@);
            lemma_kv_get_single(kv, "outputs"@);
            lemma_kv_get_single(kv, "parameters"@);
            lemma_kv_get_single(kv, "steps"@);
            lemma_kv_get_single(kv, "successActions"@);
            lemma_kv_get_single(kv, "summary"@);
            lemma_kv_get_single(kv, "workflowId"@);
    }
    assert(kv_get(e, "workflowId"@) == Some(JsonV::Str(v.workflow_id)));
    lemma_steps_field_round_trip(e, v.steps);
    lemma_successes_field_round_trip(e, "successActions"@, v.success_actions);
    lemma_failures_field_round_trip(e, "failureActions"@, v.failure_actions);
    lemma_params_field_round_trip(e, "parameters"@, v.parameters);
    lemma_outputs_field_round_trip(e, v.outputs);
    match v.inputs {
        JsonV::Null => {
            assert(kv_get(e, "inputs"@) is None);
        },
        _ => {
            assert(kv_get(e, "inputs"@) == Some(v.inputs));
        },
    }
    if v.depends_on.len() == 0 {
        assert(kv_get(e, "dependsOn"@) is None);
        assert(v.depends_on =~= Seq::<Seq<char>>::empty());
    } else {
        assert(kv_get(e, "dependsOn"@) == Some(
            JsonV::Arr(crate::serialize::spec_ser_depends(v.depends_on)),
        ));
        lemma_stringish_of_strs(v.depends_on, v.depends_on.len() as int);
        assert(v.depends_on.take(v.depends_on.len() as int) =~= v.depends_on);
    }
    lemma_entity_ext_round_trip(fixed, v.extensions);
}


/// Merging back the first `j` serialized reusable-input entries
/// rebuilds the prefix.
proof fn lemma_comp_inputs_round_trip(entries: Seq<(Seq<char>, JsonV)>, j: int)
    requires
        0 <= j <= entries.len(),
        kv_sorted(entries),
    ensures
        crate::json::spec_components_inputs(
            crate::serialize::spec_ser_comp_inputs(entries),
            j,
        ) == entries.take(j),
    decreases j,
{
    let f = |nv: JsonV| nv;
    lemma_map_kv_nodes(entries, entries.len() as int, f);
    assert(crate::serialize::spec_ser_comp_inputs(entries) == map_kv_nodes(
        entries,
        entries.len() as int,
        f,
    ));
    let nodes = crate::serialize::spec_ser_comp_inputs(entries);
    if j == 0 {
        assert(crate::json::spec_components_inputs(nodes, 0) =~= entries.take(0));
    } else {
        lemma_comp_inputs_round_trip(entries, j - 1);
        assert(nodes[j - 1] == (entries[j - 1].0, entries[j - 1].1));
        lemma_sorted_prefix_misses_key(entries, j - 1);
        lemma_upsert_appends(entries.take(j - 1), (entries[j - 1].0, entries[j - 1].1));
        assert((entries[j - 1].0, entries[j - 1].1) == entries[j - 1]);
        assert(entries.take(j - 1).push(entries[j - 1]) =~= entries.take(j));
    }
}

/// Entry counts of the serialized component mappings.
proof fn lemma_ser_comp_lens(v: crate::v1_0::ComponentsV)
    ensures
        crate::serialize::spec_ser_comp_inputs(v.inputs).len() == v.inputs.len(),
        crate::serialize::spec_ser_comp_params(v.parameters).len() == v.parameters.len(),
        crate::serialize::spec_ser_comp_successes(v.success_actions).len()
            == v.success_actions.len(),
        crate::serialize::spec_ser_comp_failures(v.failure_actions).len()
            == v.failure_actions.len(),
{
    let fi = |nv: JsonV| nv;
    lemma_map_kv_nodes(v.inputs, v.inputs.len() as int, fi);
    assert(crate::serialize::spec_ser_comp_inputs(v.inputs) == map_kv_nodes(
        v.inputs,
        v.inputs.len() as int,
        fi,
    ));
    let fp = |p: ParameterObjectV| spec_ser_parameter(p);
    lemma_map_kv_nodes(v.parameters, v.parameters.len() as int, fp);
    assert(crate::serialize::spec_ser_comp_params(v.parameters) == map_kv_nodes(
        v.parameters,
        v.parameters.len() as int,
        fp,
    ));
    let fs = |p: SuccessObjectV| spec_ser_success(p);
    lemma_map_kv_nodes(v.success_actions, v.success_actions.len() as int, fs);
    assert(crate::serialize::spec_ser_comp_successes(v.success_actions) == map_kv_nodes(
        v.success_actions,
        v.success_actions.len() as int,
        fs,
    ));
    let ff = |p: FailureObjectV| spec_ser_failure(p);
    lemma_map_kv_nodes(v.failure_actions, v.failure_actions.len() as int, ff);
    assert(crate::serialize::spec_ser_comp_failures(v.failure_actions) == map_kv_nodes(
        v.failure_actions,
        v.failure_actions.len() as int,
        ff,
    ));
}

/// A well-formed Components element: every mapping sorted by key with
/// well-formed values, and well-formed extensions.
pub open spec fn wf_components(v: crate::v1_0::ComponentsV) -> bool {
    &&& kv_sorted(v.inputs)
    &&& kv_sorted(v.parameters)
    &&& kv_sorted(v.success_actions)
    &&& kv_sorted(v.failure_actions)
    &&& forall|i: int|
        0 <= i < v.parameters.len() ==> wf_parameter((#[trigger] v.parameters[i]).1)
    &&& forall|i: int|
        0 <= i < v.success_actions.len() ==> wf_success((#[trigger] v.success_actions[i]).1)
    &&& forall|i: int|
        0 <= i < v.failure_actions.len() ==> wf_failure((#[trigger] v.failure_actions[i]).1)
    &&& wf_exts(v.extensions)
}

/// Loading the serialized entries of a Components element gives it
/// back.
#[verifier::rlimit(100)]
pub proof fn lemma_components_round_trip(v: crate::v1_0::ComponentsV)
    requires
        wf_components(v),
    ensures
        crate::json::spec_load_components(
            JsonV::Obj(crate::serialize::spec_ser_components_entries(v)),
        ) == Ok::<crate::v1_0::ComponentsV, ErrV>(v),
{
    reveal_strlit("failureActions");
    reveal_strlit("inputs");
    reveal_strlit("parameters");
    reveal_strlit("successActions");
    reveal_strlit("x-");
    assert("failureActions"@.len() == 14);
    assert("inputs"@.len() == 6);
    assert("parameters"@.len() == 10);
    assert("successActions"@.len() == 14);
    assert("failureActions"@[0] == 'f' && "inputs"@[0] == 'i' && "parameters"@[0] == 'p'
        && "successActions"@[0] == 's');
    lemma_ser_comp_lens(v);
    let a = crate::serialize::fld_obj(
        "failureActions"@,
        crate::serialize::spec_ser_comp_failures(v.failure_actions),
    );
    let b = crate::serialize::fld_obj(
        "inputs"@,
        crate::serialize::spec_ser_comp_inputs(v.inputs),
    );
    let c = crate::serialize::fld_obj(
        "parameters"@,
        crate::serialize::spec_ser_comp_params(v.parameters),
    );
    let d = crate::serialize::fld_obj(
        "successActions"@,
        crate::serialize::spec_ser_comp_successes(v.success_actions),
    );
    let x = spec_ser_exts(v.extensions);
    let fixed = a + b + c + d;
    let e = fixed + x;
    assert(crate::serialize::spec_ser_components_entries(v) == e);
    assert forall|i: int| 0 <= i < fixed.len() implies !has_ext_prefix(
        (#[trigger] fixed[i]).0,
    ) by {
        assert(fixed[i].0 == "failureActions"@ || fixed[i].0 == "inputs"@ || fixed[i].0
            == "parameters"@ || fixed[i].0 == "successActions"@);
    }
    assert forall|kq: Seq<char>|
        kq == "failureActions"@ || kq == "inputs"@ || kq == "parameters"@ || kq
            == "successActions"@ implies kv_get(e, kq) == (match kv_get(a, kq) {
        Some(val) => Some(val),
        None => match kv_get(b, kq) {
            Some(val) => Some(val),
            None => match kv_get(c, kq) {
                Some(val) => Some(val),
                None => kv_get(d, kq),
            },
        },
    }) by {
        lemma_kv_get_append(fixed, x, kq);
        lemma_kv_get_append(a + b + c, d, kq);
        lemma_kv_get_append(a + b, c, kq);
        lemma_kv_get_append(a, b, kq);
        lemma_kv_get_ext_none(v.extensions, kq);
    }
    if v.failure_actions.len() > 0 {
        let kv = (
            "failureActions"@,
            JsonV::Obj(crate::serialize::spec_ser_comp_failures(v.failure_actions)),
        );
        lemma_kv_get_single(kv, "failureActions"@);
        lemma_kv_get_single(kv, "inputs"@);
        lemma_kv_get_single(kv, "parameters"@);
        lemma_kv_get_single(kv, "successActions"@);
    } else {
        assert(a.len() == 0);
    }
    if v.inputs.len() > 0 {
        let kv = ("inputs"@, JsonV::Obj(crate::serialize::spec_ser_comp_inputs(v.inputs)));
        lemma_kv_get_single(kv, "failureActions"@);
        lemma_kv_get_single(kv, "inputs"@);
        lemma_kv_get_single(kv, "parameters"@);
        lemma_kv_get_single(kv, "successActions"@);
    } else {
        assert(b.len() == 0);
    }
    if v.parameters.len() > 0 {
        let kv = (
            "parameters"@,
            JsonV::Obj(crate::serialize::spec_ser_comp_params(v.parameters)),
        );
        lemma_kv_get_single(kv, "failureActions"@);
        lemma_kv_get_single(kv, "inputs"@);
        lemma_kv_get_single(kv, "parameters"@);
        lemma_kv_get_single(kv, "successActions"@);
    } else {
        assert(c.len() == 0);
    }
    if v.success_actions.len() > 0 {
        let kv = (
            "successActions"@,
            JsonV::Obj(crate::serialize::spec_ser_comp_successes(v.success_actions)),
        );
        lemma_kv_get_single(kv, "failureActions"@);
        lemma_kv_get_single(kv, "inputs"@);
        lemma_kv_get_single(kv, "parameters"@);
        lemma_kv_get_single(kv, "successActions"@);
    } else {
        assert(d.len() == 0);
    }

    if v.inputs.len() == 0 {
        assert(kv_get(e, "inputs"@) is None);
        assert(v.inputs =~= Seq::<(Seq<char>, JsonV)>::empty());
    } else {
        assert(kv_get(e, "inputs"@) == Some(
            JsonV::Obj(crate::serialize::spec_ser_comp_inputs(v.inputs)),
        ));
        lemma_comp_inputs_round_trip(v.inputs, v.inputs.len() as int);
        assert(v.inputs.take(v.inputs.len() as int) =~= v.inputs);
    }
    if v.parameters.len() == 0 {
        assert(kv_get(e, "parameters"@) is None);
        assert(v.parameters =~= Seq::<(Seq<char>, ParameterObjectV)>::empty());
    } else {
        let fp = |p: ParameterObjectV| spec_ser_parameter(p);
        let gp = |nv: JsonV| spec_load_parameter(nv);
        assert forall|jj: int| 0 <= jj < v.parameters.len() implies gp(
            fp((#[trigger] v.parameters[jj]).1),
        ) == Ok::<ParameterObjectV, ErrV>(v.parameters[jj].1) by {
            lemma_parameter_round_trip(v.parameters[jj].1);
        }
        lemma_load_kv_of_map(v.parameters, v.parameters.len() as int, fp, gp);
        assert(v.parameters.take(v.parameters.len() as int) =~= v.parameters);
        assert(crate::serialize::spec_ser_comp_params(v.parameters) == map_kv_nodes(
            v.parameters,
            v.parameters.len() as int,
            fp,
        ));
    }
    if v.success_actions.len() == 0 {
        assert(kv_get(e, "successActions"@) is None);
        assert(v.success_actions =~= Seq::<(Seq<char>, SuccessObjectV)>::empty());
    } else {
        let fs = |p: SuccessObjectV| spec_ser_success(p);
        let gs = |nv: JsonV| spec_load_success(nv);
        assert forall|jj: int| 0 <= jj < v.success_actions.len() implies gs(
            fs((#[trigger] v.success_actions[jj]).1),
        ) == Ok::<SuccessObjectV, ErrV>(v.success_actions[jj].1) by {
            lemma_success_round_trip(v.success_actions[jj].1);
        }
        lemma_load_kv_of_map(v.success_actions, v.success_actions.len() as int, fs, gs);
        assert(v.success_actions.take(v.success_actions.len() as int) =~= v.success_actions);
        assert(crate::serialize::spec_ser_comp_successes(v.success_actions) == map_kv_nodes(
            v.success_actions,
            v.success_actions.len() as int,
            fs,
        ));
    }
    if v.failure_actions.len() == 0 {
        assert(kv_get(e, "failureActions"@) is None);
        assert(v.failure_actions =~= Seq::<(Seq<char>, FailureObjectV)>::empty());
    } else {
        let ff = |p: FailureObjectV| spec_ser_failure(p);
        let gf = |nv: JsonV| spec_load_failure(nv);
        assert forall|jj: int| 0 <= jj < v.failure_actions.len() implies gf(
            ff((#[trigger] v.failure_actions[jj]).1),
        ) == Ok::<FailureObjectV, ErrV>(v.failure_actions[jj].1) by {
            lemma_failure_round_trip(v.failure_actions[jj].1);
        }
        lemma_load_kv_of_map(v.failure_actions, v.failure_actions.len() as int, ff, gf);
        assert(v.failure_actions.take(v.failure_actions.len() as int) =~= v.failure_actions);
        assert(crate::serialize::spec_ser_comp_failures(v.failure_actions) == map_kv_nodes(
            v.failure_actions,
            v.failure_actions.len() as int,
            ff,
        ));
    }
    lemma_entity_ext_round_trip(fixed, v.extensions);
}


/// A serialized source-descriptions list has one node per entry.
proof fn lemma_ser_sds_len(items: Seq<crate::v1_0::SourceDescriptionV>)
    ensures
        crate::serialize::spec_ser_source_descriptions(items).len() == items.len(),
{
    let f = |x2: crate::v1_0::SourceDescriptionV|
        crate::serialize::spec_ser_source_description(x2);
    lemma_map_nodes(items, items.len() as int, f);
    assert(crate::serialize::spec_ser_source_descriptions(items) == map_nodes(
        items,
        items.len() as int,
        f,
    ));
}

/// A serialized workflows list has one node per entry.
proof fn lemma_ser_workflows_len(items: Seq<crate::v1_0::WorkflowV>)
    ensures
        crate::serialize::spec_ser_workflows(items).len() == items.len(),
{
    let f = |x2: crate::v1_0::WorkflowV| crate::serialize::spec_ser_workflow(x2);
    lemma_map_nodes(items, items.len() as int, f);
    assert(crate::serialize::spec_ser_workflows(items) == map_nodes(
        items,
        items.len() as int,
        f,
    ));
}

/// Every source description in the list is well formed.
pub open spec fn wf_source_descriptions(items: Seq<crate::v1_0::SourceDescriptionV>) -> bool {
    forall|i: int| 0 <= i < items.len() ==> wf_source_description(#[trigger] items[i])
}

/// Every workflow in the list is well formed.
pub open spec fn wf_workflows(items: Seq<crate::v1_0::WorkflowV>) -> bool {
    forall|i: int| 0 <= i < items.len() ==> wf_workflow(#[trigger] items[i])
}

/// Reading back a serialized non-empty source-descriptions field
/// gives the list back.
proof fn lemma_sds_field_round_trip(m: JsonObjectV, items: Seq<crate::v1_0::SourceDescriptionV>)
    requires
        wf_source_descriptions(items),
        items.len() > 0,
        kv_get(m, "sourceDescriptions"@) == Some(
            JsonV::Arr(crate::serialize::spec_ser_source_descriptions(items)),
        ),
    ensures
        crate::json::spec_load_source_descriptions(m) == Ok::<
            Seq<crate::v1_0::SourceDescriptionV>,
            ErrV,
        >(items),
{
    let f = |x2: crate::v1_0::SourceDescriptionV|
        crate::serialize::spec_ser_source_description(x2);
    let g = |nv: JsonV| crate::json::source_description_item(nv);
    lemma_ser_sds_len(items);
    assert forall|jj: int| 0 <= jj < items.len() implies g(f(#[trigger] items[jj])) == Ok::<
        Option<crate::v1_0::SourceDescriptionV>,
        ErrV,
    >(Some(items[jj])) by {
        lemma_source_description_round_trip(items[jj]);
    }
    lemma_load_items_of_map(items, items.len() as int, f, g);
    lemma_map_nodes(items, items.len() as int, f);
    assert(items.take(items.len() as int) =~= items);
    assert(crate::serialize::spec_ser_source_descriptions(items) == map_nodes(
        items,
        items.len() as int,
        f,
    ));
}

/// Reading back a serialized non-empty workflows field gives the list
/// back.
proof fn lemma_workflows_field_round_trip(m: JsonObjectV, items: Seq<crate::v1_0::WorkflowV>)
    requires
        wf_workflows(items),
        items.len() > 0,
        kv_get(m, "workflows"@) == Some(
            JsonV::Arr(crate::serialize::spec_ser_workflows(items)),
        ),
    ensures
        crate::json::spec_load_workflows(m) == Ok::<Seq<crate::v1_0::WorkflowV>, ErrV>(items),
{
    let f = |x2: crate::v1_0::WorkflowV| crate::serialize::spec_ser_workflow(x2);
    let g = |nv: JsonV| crate::json::workflow_item(nv);
    lemma_ser_workflows_len(items);
    assert forall|jj: int| 0 <= jj < items.len() implies g(f(#[trigger] items[jj])) == Ok::<
        Option<crate::v1_0::WorkflowV>,
        ErrV,
    >(Some(items[jj])) by {
        lemma_workflow_round_trip(items[jj]);
    }
    lemma_load_items_of_map(items, items.len() as int, f, g);
    lemma_map_nodes(items, items.len() as int, f);
    assert(items.take(items.len() as int) =~= items);
    assert(crate::serialize::spec_ser_workflows(items) == map_nodes(
        items,
        items.len() as int,
        f,
    ));
}

/// The number of serialized component entries.
proof fn lemma_ser_components_entries_len(v: crate::v1_0::ComponentsV)
    ensures
        crate::serialize::spec_ser_components_entries(v).len() == 0 <==> (v.inputs.len() == 0
            && v.parameters.len() == 0 && v.success_actions.len() == 0
            && v.failure_actions.len() == 0 && v.extensions.len() == 0),
{
    lemma_ser_comp_lens(v);
    let sorted = kv_sort(v.extensions, v.extensions.len() as int);
    lemma_kv_sort_len(v.extensions, v.extensions.len() as int);
    lemma_ext_nodes_keys(sorted, sorted.len() as int);
}

/// A well-formed description document: well-formed parts throughout
/// and both required lists non-empty.
pub open spec fn wf_description(v: crate::v1_0::ArazzoDescriptionV) -> bool {
    &&& wf_info(v.info)
    &&& v.source_descriptions.len() > 0
    &&& wf_source_descriptions(v.source_descriptions)
    &&& v.workflows.len() > 0
    &&& wf_workflows(v.workflows)
    &&& wf_components(v.components)
    &&& wf_exts(v.extensions)
}

/// LAW. Round trip: loading the canonical serialized tree of any
/// well-formed model gives back a model equal to it, field for field.
#[verifier::rlimit(100)]
pub proof fn lemma_document_round_trip(v: crate::v1_0::ArazzoDescriptionV)
    requires
        wf_description(v),
    ensures
        crate::json::spec_load_description(crate::serialize::spec_ser_description(v)) == Ok::<
            crate::v1_0::ArazzoDescriptionV,
            ErrV,
        >(v),
{
    reveal_strlit("arazzo");
    reveal_strlit("components");
    reveal_strlit("info");
    reveal_strlit("sourceDescriptions");
    reveal_strlit("workflows");
    reveal_strlit("x-");
    assert("arazzo"@.len() == 6);
    assert("components"@.len() == 10);
    assert("info"@.len() == 4);
    assert("sourceDescriptions"@.len() == 18);
    assert("workflows"@.len() == 9);
    assert("arazzo"@[0] == 'a' && "components"@[0] == 'c' && "info"@[0] == 'i'
        && "sourceDescriptions"@[0] == 's' && "workflows"@[0] == 'w');
    lemma_ser_sds_len(v.source_descriptions);
    lemma_ser_workflows_len(v.workflows);
    let centries = crate::serialize::spec_ser_components_entries(v.components);
    let a = fld_str("arazzo"@, v.arazzo);
    let b = crate::serialize::fld_obj("components"@, centries);
    let c = fld_node("info"@, crate::serialize::spec_ser_info(v.info));
    let d = fld_list(
        "sourceDescriptions"@,
        crate::serialize::spec_ser_source_descriptions(v.source_descriptions),
    );
    let e2 = fld_list("workflows"@, crate::serialize::spec_ser_workflows(v.workflows));
    let x = spec_ser_exts(v.extensions);
    let fixed = a + b + c + d + e2;
    let e = fixed + x;
    assert(crate::serialize::spec_ser_description(v)->Obj_0 == e);
    assert forall|i: int| 0 <= i < fixed.len() implies !has_ext_prefix(
        (#[trigger] fixed[i]).0,
    ) by {
        assert(fixed[i].0 == "arazzo"@ || fixed[i].0 == "components"@ || fixed[i].0 == "info"@
            || fixed[i].0 == "sourceDescriptions"@ || fixed[i].0 == "workflows"@);
    }
    assert forall|kq: Seq<char>|
        kq == "arazzo"@ || kq == "components"@ || kq == "info"@ || kq == "sourceDescriptions"@
            || kq == "workflows"@ implies kv_get(e, kq) == (match kv_get(a, kq) {
        Some(val) => Some(val),
        None => match kv_get(b, kq) {
            Some(val) => Some(val),
            None => match kv_get(c, kq) {
                Some(val) => Some(val),
                None => match kv_get(d, kq) {
                    Some(val) => Some(val),
                    None => kv_get(e2, kq),
                },
            },
        },
    }) by {
        lemma_kv_get_append(fixed, x, kq);
        lemma_kv_get_append(a + b + c + d, e2, kq);
        lemma_kv_get_append(a + b + c, d, kq);
        lemma_kv_get_append(a + b, c, kq);
        lemma_kv_get_append(a, b, kq);
        lemma_kv_get_ext_none(v.extensions, kq);
    }
    {
        let kv = ("arazzo"@, JsonV::Str(v.arazzo));
        lemma_kv_get_single(kv, "arazzo"@);
        lemma_kv_get_single(kv, "components"@);
        lemma_kv_get_single(kv, "info"@);
        lemma_kv_get_single(kv, "sourceDescriptions"@);
        lemma_kv_get_single(kv, "workflows"@);
    }
    if centries.len() > 0 {
        let kv = ("components"@, JsonV::Obj(centries));
        lemma_kv_get_single(kv, "arazzo"@);
        lemma_kv_get_single(kv, "components"@);
        lemma_kv_get_single(kv, "info"@);
        lemma_kv_get_single(kv, "sourceDescriptions"@);
        lemma_kv_get_single(kv, "workflows"@);
    } else {
        assert(b.len() == 0);
    }
    {
        let kv = ("info"@, crate::serialize::spec_ser_info(v.info));
        lemma_kv_get_single(kv, "arazzo"@);
        lemma_kv_get_single(kv, "components"@);
        lemma_kv_get_single(kv, "info"@);
        lemma_kv_get_single(kv, "sourceDescriptions"@);
        lemma_kv_get_single(kv, "workflows"@);
    }
    {
        let kv = (
            "sourceDescriptions"@,
            JsonV::Arr(crate::serialize::spec_ser_source_descriptions(v.source_descriptions)),
        );
        lemma_kv_get_single(kv, "arazzo"@);
        lemma_kv_get_single(kv, "components"@);
        lemma_kv_get_single(kv, "info"@);
        lemma_kv_get_single(kv, "sourceDescriptions"@);
        lemma_kv_get_single(kv, "workflows"@);
    }
    {
        let kv = (
            "workflows"@,
            JsonV::Arr(crate::serialize::spec_ser_workflows(v.workflows)),
        );
        lemma_kv_get_single(kv, "arazzo"@);
        lemma_kv_get_single(kv, "components"@);
        lemma_kv_get_single(kv, "info"@);
        lemma_kv_get_single(kv, "sourceDescriptions"@);
        lemma_kv_get_single(kv, "workflows"@);
    }
    assert(kv_get(e, "arazzo"@) == Some(JsonV::Str(v.arazzo)));
    assert(kv_get(e, "info"@) == Some(crate::serialize::spec_ser_info(v.info)));
    lemma_info_round_trip(v.info);
    lemma_sds_field_round_trip(e, v.source_descriptions);
    lemma_workflows_field_round_trip(e, v.workflows);
    lemma_ser_components_entries_len(v.components);
    if centries.len() == 0 {
        assert(kv_get(e, "components"@) is None);
        assert(v.components.inputs =~= Seq::<(Seq<char>, JsonV)>::empty());
        assert(v.components.parameters =~= Seq::<(Seq<char>, ParameterObjectV)>::empty());
        assert(v.components.success_actions =~= Seq::<(Seq<char>, SuccessObjectV)>::empty());
        assert(v.components.failure_actions =~= Seq::<(Seq<char>, FailureObjectV)>::empty());
        assert(v.components.extensions =~= Seq::<(Seq<char>, AnyV)>::empty());
    } else {
        assert(kv_get(e, "components"@) == Some(JsonV::Obj(centries)));
        lemma_components_round_trip(v.components);
    }
    lemma_entity_ext_round_trip(fixed, v.extensions);
}

/// LAW. Round trip through the YAML shape: a YAML-shaped tree whose
/// JSON image is the canonical serialized tree of a well-formed model
/// loads back to that model.
pub proof fn lemma_yaml_document_round_trip(y: crate::nodes::YamlV, v: crate::v1_0::ArazzoDescriptionV)
    requires
        wf_description(v),
        crate::yaml::spec_yaml_to_json(y) == Ok::<JsonV, ErrV>(
            crate::serialize::spec_ser_description(v),
        ),
    ensures
        crate::yaml::spec_load_yaml_description(y) == Ok::<
            crate::v1_0::ArazzoDescriptionV,
            ErrV,
        >(v),
{
    lemma_document_round_trip(v);
}

/// LAW. Cross-format equivalence: a YAML document and the JSON
/// document it converts to load to the very same outcome, model or
/// error.
pub proof fn lemma_cross_format_equivalence(y: crate::nodes::YamlV, j: JsonV)
    requires
        crate::yaml::spec_yaml_to_json(y) == Ok::<JsonV, ErrV>(j),
    ensures
        crate::yaml::spec_load_yaml_description(y) == crate::json::spec_load_description(j),
{
}


/// Where an entry with key `k` is placed: everything before stays at
/// or below `k`, everything at or after is strictly above it.
proof fn lemma_kv_insert_pos_split<T>(s: Seq<(Seq<char>, T)>, k: Seq<char>)
    ensures
        0 <= kv_insert_pos(s, k) <= s.len(),
        forall|i: int| 0 <= i < kv_insert_pos(s, k) ==> !char_seq_lt(k, (#[trigger] s[i]).0),
        forall|i: int|
            kv_insert_pos(s, k) <= i < s.len() && kv_sorted(s) ==> char_seq_lt(
                k,
                (#[trigger] s[i]).0,
            ),
    decreases s.len(),
{
    if s.len() > 0 {
        if char_seq_lt(k, s[0].0) {
            assert forall|i: int| 0 <= i < s.len() && kv_sorted(s) implies char_seq_lt(
                k,
                (#[trigger] s[i]).0,
            ) by {
                if i > 0 {
                    lemma_char_seq_lt_trans(k, s[0].0, s[i].0);
                }
            }
        } else {
            let t = s.drop_first();
            lemma_kv_insert_pos_split(t, k);
            let p = kv_insert_pos(s, k);
            assert(p == 1 + kv_insert_pos(t, k));
            assert forall|i: int| 0 <= i < p implies !char_seq_lt(k, (#[trigger] s[i]).0) by {
                if i > 0 {
                    assert(s[i] == t[i - 1]);
                }
            }
            if kv_sorted(s) {
                assert forall|i2: int, j2: int| 0 <= i2 < j2 < t.len() implies char_seq_lt(
                    (#[trigger] t[i2]).0,
                    (#[trigger] t[j2]).0,
                ) by {
                    assert(t[i2] == s[i2 + 1]);
                    assert(t[j2] == s[j2 + 1]);
                }
                assert(kv_sorted(t));
                assert forall|i: int| p <= i < s.len() implies char_seq_lt(
                    k,
                    (#[trigger] s[i]).0,
                ) by {
                    assert(s[i] == t[i - 1]);
                }
            }
        }
    }
}

/// Merging an entry into a sorted mapping keeps it sorted.
proof fn lemma_upsert_preserves_sorted<T>(s: Seq<(Seq<char>, T)>, kv: (Seq<char>, T))
    requires
        kv_sorted(s),
    ensures
        kv_sorted(kv_upsert(s, kv)),
{
    let r = kv_upsert(s, kv);
    if kv_has(s, kv.0) {
        let j = crate::kv::kv_find(s, kv.0);
        lemma_kv_find_key(s, kv.0);
        assert forall|i2: int, j2: int| 0 <= i2 < j2 < r.len() implies char_seq_lt(
            (#[trigger] r[i2]).0,
            (#[trigger] r[j2]).0,
        ) by {
            assert(r[i2].0 == s[i2].0);
            assert(r[j2].0 == s[j2].0);
        }
    } else {
        lemma_kv_insert_pos_split(s, kv.0);
        let p = kv_insert_pos(s, kv.0);
        assert forall|i: int| 0 <= i < p implies char_seq_lt((#[trigger] s[i]).0, kv.0) by {
            lemma_char_seq_lt_trichotomy(s[i].0, kv.0);
            assert(s[i].0 != kv.0);
        }
        assert forall|i2: int, j2: int| 0 <= i2 < j2 < r.len() implies char_seq_lt(
            (#[trigger] r[i2]).0,
            (#[trigger] r[j2]).0,
        ) by {
            assert(r =~= s.take(p) + seq![kv] + s.skip(p));
            if i2 < p {
                assert(r[i2] == s[i2]);
            } else if i2 == p {
                assert(r[i2] == kv);
            } else {
                assert(r[i2] == s[i2 - 1]);
            }
            if j2 < p {
                assert(r[j2] == s[j2]);
            } else if j2 == p {
                assert(r[j2] == kv);
            } else {
                assert(r[j2] == s[j2 - 1]);
            }
        }
    }
}

/// The first entry carrying a present key does carry it.
proof fn lemma_kv_find_key<T>(s: Seq<(Seq<char>, T)>, k: Seq<char>)
    requires
        kv_has(s, k),
    ensures
        0 <= crate::kv::kv_find(s, k) < s.len(),
        s[crate::kv::kv_find(s, k)].0 == k,
    decreases s.len(),
{
    if s.len() > 0 && s[0].0 != k {
        assert forall|i: int| 0 <= i < s.len() && s[i].0 == k implies kv_has(
            s.drop_first(),
            k,
        ) by {
            assert(s.drop_first()[i - 1] == s[i]);
        }
        lemma_kv_find_key(s.drop_first(), k);
    }
}

/// Merging an entry whose value satisfies a property into a mapping
/// whose values all satisfy it keeps every value satisfying it.
proof fn lemma_upsert_preserves_values<T>(
    s: Seq<(Seq<char>, T)>,
    kv: (Seq<char>, T),
    p: spec_fn(T) -> bool,
)
    requires
        forall|i: int| 0 <= i < s.len() ==> p((#[trigger] s[i]).1),
        p(kv.1),
    ensures
        forall|i: int| 0 <= i < kv_upsert(s, kv).len() ==> p((#[trigger] kv_upsert(s, kv)[i]).1),
{
    let r = kv_upsert(s, kv);
    if kv_has(s, kv.0) {
        let j = crate::kv::kv_find(s, kv.0);
        lemma_kv_find_key(s, kv.0);
        assert forall|i: int| 0 <= i < r.len() implies p((#[trigger] r[i]).1) by {
            if i != j {
                assert(r[i] == s[i]);
            }
        }
    } else {
        lemma_kv_insert_pos_bounds(s, kv.0);
        let q = kv_insert_pos(s, kv.0);
        assert forall|i: int| 0 <= i < r.len() implies p((#[trigger] r[i]).1) by {
            assert(r =~= s.take(q) + seq![kv] + s.skip(q));
            if i < q {
                assert(r[i] == s[i]);
            } else if i == q {
                assert(r[i] == kv);
            } else {
                assert(r[i] == s[i - 1]);
            }
        }
    }
}

/// Well-formedness of the first `n` entries follows from each value
/// being well formed.
proof fn lemma_wf_any_entries_from_forall(entries: Seq<(Seq<char>, AnyV)>, n: int)
    requires
        0 <= n <= entries.len(),
        forall|i: int| 0 <= i < n ==> wf_any((#[trigger] entries[i]).1),
    ensures
        wf_any_entries(entries, n),
    decreases n,
{
    if n > 0 {
        lemma_wf_any_entries_from_forall(entries, n - 1);
    }
}

/// Well-formedness of the first `n` elements follows from each being
/// well formed.
proof fn lemma_wf_any_seq_from_forall(items: Seq<AnyV>, n: int)
    requires
        0 <= n <= items.len(),
        forall|i: int| 0 <= i < n ==> wf_any(#[trigger] items[i]),
    ensures
        wf_any_seq(items, n),
    decreases n,
{
    if n > 0 {
        lemma_wf_any_seq_from_forall(items, n - 1);
    }
}

/// The dynamic value a JSON-shaped node converts to is well formed:
/// the conversion only makes negative signed integers and sorted
/// objects.
pub proof fn lemma_json_to_any_wf(v: JsonV)
    ensures
        wf_any(spec_json_to_any(v)),
    decreases v, 2int,
{
    match v {
        JsonV::Arr(items) => {
            lemma_json_arr_to_any_wf(items, items.len() as int);
            lemma_wf_any_seq_from_forall(
                spec_json_arr_to_any(items, items.len() as int),
                spec_json_arr_to_any(items, items.len() as int).len() as int,
            );
        },
        JsonV::Obj(entries) => {
            lemma_json_obj_to_any_wf(entries, entries.len() as int);
            lemma_wf_any_entries_from_forall(
                spec_json_obj_to_any(entries, entries.len() as int),
                spec_json_obj_to_any(entries, entries.len() as int).len() as int,
            );
        },
        _ => {},
    }
}

/// The converted array prefix has one well-formed element per node.
proof fn lemma_json_arr_to_any_wf(items: Seq<JsonV>, n: int)
    requires
        0 <= n <= items.len(),
    ensures
        spec_json_arr_to_any(items, n).len() == n,
        forall|i: int|
            0 <= i < n ==> wf_any(#[trigger] spec_json_arr_to_any(items, n)[i]),
    decreases items, n,
{
    if n > 0 {
        lemma_json_arr_to_any_wf(items, n - 1);
        lemma_json_to_any_wf(items[n - 1]);
        assert(spec_json_arr_to_any(items, n) == spec_json_arr_to_any(items, n - 1).push(
            spec_json_to_any(items[n - 1]),
        ));
    }
}

/// The merged object prefix is sorted with well-formed values.
proof fn lemma_json_obj_to_any_wf(entries: Seq<(Seq<char>, JsonV)>, n: int)
    requires
        0 <= n <= entries.len(),
    ensures
        kv_sorted(spec_json_obj_to_any(entries, n)),
        forall|i: int|
            0 <= i < spec_json_obj_to_any(entries, n).len() ==> wf_any(
                (#[trigger] spec_json_obj_to_any(entries, n)[i]).1,
            ),
    decreases entries, n,
{
    if n > 0 {
        lemma_json_obj_to_any_wf(entries, n - 1);
        lemma_json_to_any_wf(entries[n - 1].1);
        let prev = spec_json_obj_to_any(entries, n - 1);
        let kv = (entries[n - 1].0, spec_json_to_any(entries[n - 1].1));
        lemma_upsert_preserves_sorted(prev, kv);
        lemma_upsert_preserves_values(prev, kv, |a: AnyV| wf_any(a));
    }
}

/// The extension mapping drawn from any object is well formed.
pub proof fn lemma_json_extract_extensions_wf(entries: JsonObjectV, n: int)
    requires
        0 <= n <= entries.len(),
    ensures
        wf_exts(spec_json_extract_extensions(entries, n)),
    decreases n,
{
    if n <= 0 {
    } else {
        lemma_json_extract_extensions_wf(entries, n - 1);
        let prev = spec_json_extract_extensions(entries, n - 1);
        lemma_wf_any_entries_index(prev, prev.len() as int);
        if has_ext_prefix(entries[n - 1].0) {
            let kv = (entries[n - 1].0.skip(2), spec_json_to_any(entries[n - 1].1));
            lemma_json_to_any_wf(entries[n - 1].1);
            lemma_upsert_preserves_sorted(prev, kv);
            lemma_upsert_preserves_values(prev, kv, |a: AnyV| wf_any(a));
            lemma_wf_any_entries_from_forall(
                spec_json_extract_extensions(entries, n),
                spec_json_extract_extensions(entries, n).len() as int,
            );
        }
    }
}


/// Elements a list loader accepts satisfy whatever its per-element
/// conversion guarantees.
proof fn lemma_load_items_all<T>(
    items: Seq<JsonV>,
    n: int,
    g: spec_fn(JsonV) -> Result<Option<T>, ErrV>,
    p: spec_fn(T) -> bool,
)
    requires
        0 <= n <= items.len(),
        forall|v: JsonV, t: T| #![trigger g(v), p(t)] g(v) == Ok::<Option<T>, ErrV>(Some(t)) ==> p(t),
        load_items(items, n, g) is Ok,
    ensures
        forall|i: int|
            0 <= i < load_items(items, n, g)->Ok_0.len() ==> p(
                #[trigger] load_items(items, n, g)->Ok_0[i],
            ),
    decreases n,
{
    if n > 0 {
        lemma_load_items_all(items, n - 1, g, p);
        let prev = load_items(items, n - 1, g)->Ok_0;
        match g(items[n - 1]) {
            Ok(Some(t)) => {
                assert(load_items(items, n, g)->Ok_0 == prev.push(t));
            },
            Ok(None) => {},
            Err(_) => {},
        }
    }
}

/// When every element converts to a kept value, the loaded list keeps
/// them all.
proof fn lemma_load_items_len<T>(
    items: Seq<JsonV>,
    n: int,
    g: spec_fn(JsonV) -> Result<Option<T>, ErrV>,
)
    requires
        0 <= n <= items.len(),
        forall|v: JsonV| !(#[trigger] g(v) matches Ok(None)),
        load_items(items, n, g) is Ok,
    ensures
        load_items(items, n, g)->Ok_0.len() == n,
    decreases n,
{
    if n > 0 {
        lemma_load_items_len(items, n - 1, g);
        assert(!(g(items[n - 1]) matches Ok(None)));
    }
}

/// A loaded mapping is sorted and its values satisfy whatever the
/// per-value conversion guarantees.
proof fn lemma_load_kv_items_all<T>(
    entries: JsonObjectV,
    n: int,
    g: spec_fn(JsonV) -> Result<T, ErrV>,
    p: spec_fn(T) -> bool,
)
    requires
        0 <= n <= entries.len(),
        forall|v: JsonV, t: T| #![trigger g(v), p(t)] g(v) == Ok::<T, ErrV>(t) ==> p(t),
        load_kv_items(entries, n, g) is Ok,
    ensures
        kv_sorted(load_kv_items(entries, n, g)->Ok_0),
        forall|i: int|
            0 <= i < load_kv_items(entries, n, g)->Ok_0.len() ==> p(
                (#[trigger] load_kv_items(entries, n, g)->Ok_0[i]).1,
            ),
    decreases n,
{
    if n > 0 {
        lemma_load_kv_items_all(entries, n - 1, g, p);
        let prev = load_kv_items(entries, n - 1, g)->Ok_0;
        match g(entries[n - 1].1) {
            Ok(t) => {
                lemma_upsert_preserves_sorted(prev, (entries[n - 1].0, t));
                lemma_upsert_preserves_values(prev, (entries[n - 1].0, t), p);
            },
            Err(_) => {},
        }
    }
}

/// A loaded outputs mapping is sorted.
proof fn lemma_outputs_entries_sorted(entries: JsonObjectV, n: int)
    requires
        0 <= n <= entries.len(),
    ensures
        kv_sorted(crate::json::spec_outputs_entries(entries, n)),
    decreases n,
{
    if n > 0 {
        lemma_outputs_entries_sorted(entries, n - 1);
        match entries[n - 1].1 {
            JsonV::Str(sv) => {
                lemma_upsert_preserves_sorted(
                    crate::json::spec_outputs_entries(entries, n - 1),
                    (entries[n - 1].0, sv),
                );
            },
            _ => {},
        }
    }
}

/// What the outputs loader returns is sorted.
proof fn lemma_load_outputs_wf(m: JsonObjectV)
    ensures
        wf_outputs(spec_load_outputs(m)),
{
    match kv_get(m, "outputs"@) {
        Some(JsonV::Obj(entries)) => {
            lemma_outputs_entries_sorted(entries, entries.len() as int);
        },
        _ => {},
    }
}

/// A loaded reusable-inputs mapping is sorted.
proof fn lemma_components_inputs_sorted(entries: JsonObjectV, n: int)
    requires
        0 <= n <= entries.len(),
    ensures
        kv_sorted(crate::json::spec_components_inputs(entries, n)),
    decreases n,
{
    if n > 0 {
        lemma_components_inputs_sorted(entries, n - 1);
        lemma_upsert_preserves_sorted(
            crate::json::spec_components_inputs(entries, n - 1),
            entries[n - 1],
        );
    }
}

/// A loaded two-shape value is well formed: the sigil decides the
/// branch exactly.
proof fn lemma_any_or_expression_wf(m: JsonObjectV, k: Seq<char>)
    requires
        spec_any_or_expression(m, k) is Ok,
    ensures
        wf_value2(spec_any_or_expression(m, k)->Ok_0),
{
    match kv_get(m, k) {
        Some(JsonV::Str(sv)) => {},
        Some(v) => {
            lemma_json_to_any_wf(v);
        },
        None => {},
    }
}

/// A loaded Parameter Object is well formed.
proof fn lemma_load_parameter_wf(v: JsonV)
    requires
        spec_load_parameter(v) is Ok,
    ensures
        wf_parameter(spec_load_parameter(v)->Ok_0),
{
    match v {
        JsonV::Obj(m) => {
            lemma_any_or_expression_wf(m, "value"@);
            lemma_json_extract_extensions_wf(m, m.len() as int);
        },
        _ => {},
    }
}

/// A loaded Criterion Expression Type is well formed.
proof fn lemma_load_cet_wf(v: JsonV)
    requires
        spec_load_cet(v) is Ok,
    ensures
        wf_cet(spec_load_cet(v)->Ok_0),
{
    match v {
        JsonV::Obj(m) => {
            lemma_json_extract_extensions_wf(m, m.len() as int);
        },
        _ => {},
    }
}

/// A loaded Criterion is well formed.
proof fn lemma_load_criterion_wf(v: JsonV)
    requires
        spec_load_criterion(v) is Ok,
    ensures
        wf_criterion(spec_load_criterion(v)->Ok_0),
{
    match v {
        JsonV::Obj(m) => {
            lemma_json_extract_extensions_wf(m, m.len() as int);
            match kv_get(m, "type"@) {
                Some(JsonV::Str(sv)) => {},
                Some(tv) => {
                    lemma_load_cet_wf(tv);
                },
                None => {},
            }
        },
        _ => {},
    }
}

/// A loaded criteria list is well formed throughout.
proof fn lemma_load_criteria_wf(m: JsonObjectV, k: Seq<char>)
    requires
        spec_load_criteria(m, k) is Ok,
    ensures
        wf_criteria(spec_load_criteria(m, k)->Ok_0),
{
    match kv_get(m, k) {
        Some(JsonV::Arr(items)) => {
            let g = |nv: JsonV| criterion_item(nv);
            let p = |t: CriterionV| wf_criterion(t);
            assert forall|nv: JsonV, t: CriterionV| #![trigger g(nv), p(t)]
                g(nv) == Ok::<Option<CriterionV>, ErrV>(Some(t)) implies p(t) by {
                lemma_load_criterion_wf(nv);
            }
            lemma_load_items_all(items, items.len() as int, g, p);
        },
        _ => {},
    }
}

/// A loaded Success Action is well formed.
proof fn lemma_load_success_wf(v: JsonV)
    requires
        spec_load_success(v) is Ok,
    ensures
        wf_success(spec_load_success(v)->Ok_0),
{
    match v {
        JsonV::Obj(m) => {
            lemma_load_criteria_wf(m, "criteria"@);
            lemma_json_extract_extensions_wf(m, m.len() as int);
        },
        _ => {},
    }
}

/// A loaded Failure Action is well formed.
proof fn lemma_load_failure_wf(v: JsonV)
    requires
        spec_load_failure(v) is Ok,
    ensures
        wf_failure(spec_load_failure(v)->Ok_0),
{
    match v {
        JsonV::Obj(m) => {
            lemma_load_criteria_wf(m, "criteria"@);
            lemma_json_extract_extensions_wf(m, m.len() as int);
        },
        _ => {},
    }
}

/// A loaded parameters list is well formed throughout.
proof fn lemma_load_parameters_wf(m: JsonObjectV, k: Seq<char>)
    requires
        crate::json::spec_load_parameters(m, k) is Ok,
    ensures
        wf_params(crate::json::spec_load_parameters(m, k)->Ok_0),
{
    match kv_get(m, k) {
        Some(JsonV::Arr(items)) => {
            let g = |nv: JsonV| parameter_item(nv);
            let p = |t: Either<ParameterObjectV, ReusableObjectV>| wf_param_item(t);
            assert forall|nv: JsonV, t: Either<ParameterObjectV, ReusableObjectV>| #![trigger g(nv), p(t)]
                g(nv) == Ok::<Option<Either<ParameterObjectV, ReusableObjectV>>, ErrV>(
                    Some(t),
                ) implies p(t) by {
                match nv {
                    JsonV::Obj(em) => {
                        if !kv_has(em, "reference"@) {
                            lemma_load_parameter_wf(nv);
                        }
                    },
                    _ => {},
                }
            }
            lemma_load_items_all(items, items.len() as int, g, p);
        },
        _ => {},
    }
}

/// A loaded success-actions list is well formed throughout.
proof fn lemma_load_success_actions_wf(m: JsonObjectV, k: Seq<char>)
    requires
        crate::json::spec_load_success_actions(m, k) is Ok,
    ensures
        wf_successes(crate::json::spec_load_success_actions(m, k)->Ok_0),
{
    match kv_get(m, k) {
        Some(JsonV::Arr(items)) => {
            let g = |nv: JsonV| success_item(nv);
            let p = |t: Either<SuccessObjectV, ReusableObjectV>| wf_success_item(t);
            assert forall|nv: JsonV, t: Either<SuccessObjectV, ReusableObjectV>| #![trigger g(nv), p(t)]
                g(nv) == Ok::<Option<Either<SuccessObjectV, ReusableObjectV>>, ErrV>(
                    Some(t),
                ) implies p(t) by {
                match nv {
                    JsonV::Obj(em) => {
                        if !kv_has(em, "reference"@) {
                            lemma_load_success_wf(nv);
                        }
                    },
                    _ => {},
                }
            }
            lemma_load_items_all(items, items.len() as int, g, p);
        },
        _ => {},
    }
}

/// A loaded failure-actions list is well formed throughout.
proof fn lemma_load_failure_actions_wf(m: JsonObjectV, k: Seq<char>)
    requires
        crate::json::spec_load_failure_actions(m, k) is Ok,
    ensures
        wf_failures(crate::json::spec_load_failure_actions(m, k)->Ok_0),
{
    match kv_get(m, k) {
        Some(JsonV::Arr(items)) => {
            let g = |nv: JsonV| failure_item(nv);
            let p = |t: Either<FailureObjectV, ReusableObjectV>| wf_failure_item(t);
            assert forall|nv: JsonV, t: Either<FailureObjectV, ReusableObjectV>| #![trigger g(nv), p(t)]
                g(nv) == Ok::<Option<Either<FailureObjectV, ReusableObjectV>>, ErrV>(
                    Some(t),
                ) implies p(t) by {
                match nv {
                    JsonV::Obj(em) => {
                        if !kv_has(em, "reference"@) {
                            lemma_load_failure_wf(nv);
                        }
                    },
                    _ => {},
                }
            }
            lemma_load_items_all(items, items.len() as int, g, p);
        },
        _ => {},
    }
}

/// A loaded replacements list is well formed throughout.
proof fn lemma_load_replacements_wf(m: JsonObjectV)
    requires
        spec_load_replacements(m) is Ok,
    ensures
        wf_replacements(spec_load_replacements(m)->Ok_0),
{
    match kv_get(m, "replacements"@) {
        Some(JsonV::Arr(items)) => {
            let g = |nv: JsonV| replacement_item(nv);
            let p = |t: PayloadReplacementV| wf_replacement(t);
            assert forall|nv: JsonV, t: PayloadReplacementV| #![trigger g(nv), p(t)]
                g(nv) == Ok::<Option<PayloadReplacementV>, ErrV>(Some(t)) implies p(t) by {
                match nv {
                    JsonV::Obj(em) => {
                        lemma_any_or_expression_wf(em, "value"@);
                        lemma_json_extract_extensions_wf(em, em.len() as int);
                    },
                    _ => {},
                }
            }
            lemma_load_items_all(items, items.len() as int, g, p);
        },
        _ => {},
    }
}

/// A loaded Request Body is well formed.
proof fn lemma_load_request_body_wf(v: JsonV)
    requires
        spec_load_request_body(v) is Ok,
    ensures
        wf_request_body(spec_load_request_body(v)->Ok_0),
{
    match v {
        JsonV::Obj(m) => {
            lemma_load_replacements_wf(m);
            lemma_json_extract_extensions_wf(m, m.len() as int);
        },
        _ => {},
    }
}

/// A loaded Step is well formed.
proof fn lemma_load_step_wf(v: JsonV)
    requires
        crate::json::spec_load_step(v) is Ok,
    ensures
        wf_step(crate::json::spec_load_step(v)->Ok_0),
{
    match v {
        JsonV::Obj(m) => {
            lemma_load_parameters_wf(m, "parameters"@);
            match kv_get(m, "requestBody"@) {
                Some(rb) => {
                    lemma_load_request_body_wf(rb);
                },
                None => {},
            }
            lemma_load_success_actions_wf(m, "onSuccess"@);
            lemma_load_criteria_wf(m, "successCriteria"@);
            lemma_load_failure_actions_wf(m, "onFailure"@);
            lemma_load_outputs_wf(m);
            lemma_json_extract_extensions_wf(m, m.len() as int);
        },
        _ => {},
    }
}

/// A loaded Workflow is well formed, with at least one step.
proof fn lemma_load_workflow_wf(v: JsonV)
    requires
        crate::json::spec_load_workflow(v) is Ok,
    ensures
        wf_workflow(crate::json::spec_load_workflow(v)->Ok_0),
{
    match v {
        JsonV::Obj(m) => {
            match kv_get(m, "steps"@) {
                Some(JsonV::Arr(items)) => {
                    let g = |nv: JsonV| crate::json::step_item(nv);
                    let p = |t: crate::v1_0::StepV| wf_step(t);
                    assert forall|nv: JsonV, t: crate::v1_0::StepV| #![trigger g(nv), p(t)]
                        g(nv) == Ok::<Option<crate::v1_0::StepV>, ErrV>(Some(t)) implies p(
                        t,
                    ) by {
                        lemma_load_step_wf(nv);
                    }
                    lemma_load_items_all(items, items.len() as int, g, p);
                    assert forall|nv: JsonV| !(#[trigger] g(nv) matches Ok(None)) by {}
                    lemma_load_items_len(items, items.len() as int, g);
                },
                _ => {},
            }
            lemma_load_success_actions_wf(m, "successActions"@);
            lemma_load_failure_actions_wf(m, "failureActions"@);
            lemma_load_parameters_wf(m, "parameters"@);
            lemma_load_outputs_wf(m);
            lemma_json_extract_extensions_wf(m, m.len() as int);
        },
        _ => {},
    }
}

/// A loaded Components element is well formed.
proof fn lemma_load_components_wf(v: JsonV)
    requires
        crate::json::spec_load_components(v) is Ok,
    ensures
        wf_components(crate::json::spec_load_components(v)->Ok_0),
{
    match v {
        JsonV::Obj(m) => {
            match kv_get(m, "inputs"@) {
                Some(JsonV::Obj(entries)) => {
                    lemma_components_inputs_sorted(entries, entries.len() as int);
                },
                _ => {},
            }
            match kv_get(m, "parameters"@) {
                Some(JsonV::Obj(entries)) => {
                    let g = |nv: JsonV| spec_load_parameter(nv);
                    let p = |t: ParameterObjectV| wf_parameter(t);
                    assert forall|nv: JsonV, t: ParameterObjectV| #![trigger g(nv), p(t)]
                        g(nv) == Ok::<ParameterObjectV, ErrV>(t) implies p(t) by {
                        lemma_load_parameter_wf(nv);
                    }
                    lemma_load_kv_items_all(entries, entries.len() as int, g, p);
                },
                _ => {},
            }
            match kv_get(m, "successActions"@) {
                Some(JsonV::Obj(entries)) => {
                    let g = |nv: JsonV| spec_load_success(nv);
                    let p = |t: SuccessObjectV| wf_success(t);
                    assert forall|nv: JsonV, t: SuccessObjectV| #![trigger g(nv), p(t)]
                        g(nv) == Ok::<SuccessObjectV, ErrV>(t) implies p(t) by {
                        lemma_load_success_wf(nv);
                    }
                    lemma_load_kv_items_all(entries, entries.len() as int, g, p);
                },
                _ => {},
            }
            match kv_get(m, "failureActions"@) {
                Some(JsonV::Obj(entries)) => {
                    let g = |nv: JsonV| spec_load_failure(nv);
                    let p = |t: FailureObjectV| wf_failure(t);
                    assert forall|nv: JsonV, t: FailureObjectV| #![trigger g(nv), p(t)]
                        g(nv) == Ok::<FailureObjectV, ErrV>(t) implies p(t) by {
                        lemma_load_failure_wf(nv);
                    }
                    lemma_load_kv_items_all(entries, entries.len() as int, g, p);
                },
                _ => {},
            }
            lemma_json_extract_extensions_wf(m, m.len() as int);
        },
        _ => {},
    }
}

/// LAW. Every model the loader accepts is well formed, so the round
/// trip applies to it.
pub proof fn lemma_loaded_description_wf(v: JsonV)
    requires
        crate::json::spec_load_description(v) is Ok,
    ensures
        wf_description(crate::json::spec_load_description(v)->Ok_0),
{
    match v {
        JsonV::Obj(m) => {
            match kv_get(m, "info"@) {
                Some(iv) => {
                    match iv {
                        JsonV::Obj(im) => {
                            lemma_json_extract_extensions_wf(im, im.len() as int);
                        },
                        _ => {},
                    }
                },
                None => {},
            }
            match kv_get(m, "sourceDescriptions"@) {
                Some(JsonV::Arr(items)) => {
                    let g = |nv: JsonV| crate::json::source_description_item(nv);
                    let p = |t: crate::v1_0::SourceDescriptionV| wf_source_description(t);
                    assert forall|nv: JsonV, t: crate::v1_0::SourceDescriptionV| #![trigger g(nv), p(t)]
                        g(nv) == Ok::<Option<crate::v1_0::SourceDescriptionV>, ErrV>(
                            Some(t),
                        ) implies p(t) by {
                        match nv {
                            JsonV::Obj(em) => {
                                lemma_json_extract_extensions_wf(em, em.len() as int);
                            },
                            _ => {},
                        }
                    }
                    lemma_load_items_all(items, items.len() as int, g, p);
                    assert forall|nv: JsonV| !(#[trigger] g(nv) matches Ok(None)) by {}
                    lemma_load_items_len(items, items.len() as int, g);
                },
                _ => {},
            }
            match kv_get(m, "workflows"@) {
                Some(JsonV::Arr(items)) => {
                    let g = |nv: JsonV| crate::json::workflow_item(nv);
                    let p = |t: crate::v1_0::WorkflowV| wf_workflow(t);
                    assert forall|nv: JsonV, t: crate::v1_0::WorkflowV| #![trigger g(nv), p(t)]
                        g(nv) == Ok::<Option<crate::v1_0::WorkflowV>, ErrV>(Some(t)) implies p(
                        t,
                    ) by {
                        lemma_load_workflow_wf(nv);
                    }
                    lemma_load_items_all(items, items.len() as int, g, p);
                    assert forall|nv: JsonV| !(#[trigger] g(nv) matches Ok(None)) by {}
                    lemma_load_items_len(items, items.len() as int, g);
                },
                _ => {},
            }
            match kv_get(m, "components"@) {
                Some(cv) => {
                    lemma_load_components_wf(cv);
                },
                None => {},
            }
            lemma_json_extract_extensions_wf(m, m.len() as int);
        },
        _ => {},
    }
}

/// LAW. Serializing any loaded model and loading the result gives the
/// same model again, whichever format the document came from.
pub proof fn lemma_load_serialize_load(v: JsonV)
    requires
        crate::json::spec_load_description(v) is Ok,
    ensures
        crate::json::spec_load_description(
            crate::serialize::spec_ser_description(crate::json::spec_load_description(v)->Ok_0),
        ) == crate::json::spec_load_description(v),
{
    lemma_loaded_description_wf(v);
    lemma_document_round_trip(crate::json::spec_load_description(v)->Ok_0);
}

} // verus!
