//! Raw parsed document trees: a JSON-shaped tree, which also serves as
//! the generic ordered tree the serializer emits, and a YAML-shaped
//! tree, together with their ghost mirrors.

use vstd::prelude::*;

verus! {

broadcast use vstd::group_vstd_default;

/// Ghost mirror of a JSON-shaped tree.
pub enum JsonV {
    Null,
    Bool(bool),
    /// A number stored as a non-negative 64-bit integer.
    UInt(u64),
    /// A number stored as a signed 64-bit integer.
    Int(i64),
    /// A number that is not a 64-bit integer, kept opaque.
    Num(serde_json::Number),
    Str(Seq<char>),
    Arr(Seq<JsonV>),
    Obj(Seq<(Seq<char>, JsonV)>),
}

/// A parsed JSON document tree, which is also the ordered tree the
/// serializer emits. Numbers keep the distinction the parser made:
/// unsigned integer, signed integer, or other (a float, kept as an
/// opaque number value, since the tree itself never does float
/// arithmetic). Object entries keep their document order.
#[derive(Debug, PartialEq)]
pub enum JsonNode {
    Null,
    Bool(bool),
    UInt(u64),
    Int(i64),
    Num(serde_json::Number),
    Str(String),
    Arr(Vec<JsonNode>),
    Obj(Vec<(String, JsonNode)>),
}

/// The ghost mirrors of the first `n` elements.
pub open spec fn json_items_dv(items: Seq<JsonNode>, n: int) -> Seq<JsonV>
    decreases items, n,
{
    if n <= 0 || n > items.len() {
        Seq::empty()
    } else {
        json_items_dv(items, n - 1).push(items[n - 1].deep_view())
    }
}

/// The ghost mirrors of the first `n` object entries.
pub open spec fn json_entries_dv(entries: Seq<(String, JsonNode)>, n: int) -> Seq<
    (Seq<char>, JsonV),
>
    decreases entries, n,
{
    if n <= 0 || n > entries.len() {
        Seq::empty()
    } else {
        json_entries_dv(entries, n - 1).push((entries[n - 1].0@, entries[n - 1].1.deep_view()))
    }
}

impl DeepView for JsonNode {
    type V = JsonV;

    open spec fn deep_view(&self) -> JsonV
        decreases self, 0int,
    {
        match self {
            JsonNode::Null => JsonV::Null,
            JsonNode::Bool(b) => JsonV::Bool(*b),
            JsonNode::UInt(u) => JsonV::UInt(*u),
            JsonNode::Int(i) => JsonV::Int(*i),
            JsonNode::Num(x) => JsonV::Num(*x),
            JsonNode::Str(s) => JsonV::Str(s@),
            JsonNode::Arr(items) => JsonV::Arr(json_items_dv(items@, items@.len() as int)),
            JsonNode::Obj(entries) => JsonV::Obj(
                json_entries_dv(entries@, entries@.len() as int),
            ),
        }
    }
}

/// What each position of [`json_items_dv`] holds.
pub proof fn lemma_json_items_dv(items: Seq<JsonNode>, n: int)
    requires
        0 <= n <= items.len(),
    ensures
        json_items_dv(items, n).len() == n,
        forall|k: int| 0 <= k < n ==> #[trigger] json_items_dv(items, n)[k] == items[k].deep_view(),
    decreases n,
{
    if n > 0 {
        lemma_json_items_dv(items, n - 1);
        assert(json_items_dv(items, n) == json_items_dv(items, n - 1).push(
            items[n - 1].deep_view(),
        ));
    }
}

/// What each position of [`json_entries_dv`] holds.
pub proof fn lemma_json_entries_dv(entries: Seq<(String, JsonNode)>, n: int)
    requires
        0 <= n <= entries.len(),
    ensures
        json_entries_dv(entries, n).len() == n,
        forall|k: int|
            0 <= k < n ==> #[trigger] json_entries_dv(entries, n)[k] == (
                entries[k].0@,
                entries[k].1.deep_view(),
            ),
    decreases n,
{
    if n > 0 {
        lemma_json_entries_dv(entries, n - 1);
        assert(json_entries_dv(entries, n) == json_entries_dv(entries, n - 1).push(
            (entries[n - 1].0@, entries[n - 1].1.deep_view()),
        ));
    }
}

impl Clone for JsonNode {
    fn clone(&self) -> (r: Self)
        ensures
            r.deep_view() == self.deep_view(),
        decreases self,
    {
        match self {
            JsonNode::Null => JsonNode::Null,
            JsonNode::Bool(b) => JsonNode::Bool(*b),
            JsonNode::UInt(u) => JsonNode::UInt(*u),
            JsonNode::Int(i) => JsonNode::Int(*i),
            JsonNode::Num(x) => JsonNode::Num(x.clone()),
            JsonNode::Str(s) => JsonNode::Str(s.clone()),
            JsonNode::Arr(items) => {
                let mut out: Vec<JsonNode> = Vec::new();
                let mut i: usize = 0;
                while i < items.len()
                    invariant
                        i <= items.len(),
                        out@.len() == i,
                        forall|k: int|
                            0 <= k < i ==> #[trigger] out@[k].deep_view()
                                == items@[k].deep_view(),
                    decreases items.len() - i,
                {
                    proof {
                        assert(decreases_to!(*self => *items));
                        assert(decreases_to!(*items => items@[i as int]));
                    }
                    out.push(items[i].clone());
                    i = i + 1;
                }
                let r = JsonNode::Arr(out);
                proof {
                    lemma_json_items_dv(out@, out@.len() as int);
                    lemma_json_items_dv(items@, items@.len() as int);
                    assert(r.deep_view()->Arr_0 =~= self.deep_view()->Arr_0);
                }
                r
            },
            JsonNode::Obj(entries) => {
                let mut out: Vec<(String, JsonNode)> = Vec::new();
                let mut i: usize = 0;
                while i < entries.len()
                    invariant
                        i <= entries.len(),
                        out@.len() == i,
                        forall|k: int|
                            0 <= k < i ==> (#[trigger] out@[k].0@, out@[k].1.deep_view()) == (
                                entries@[k].0@,
                                entries@[k].1.deep_view(),
                            ),
                    decreases entries.len() - i,
                {
                    proof {
                        assert(decreases_to!(*self => *entries));
                        assert(decreases_to!(*entries => entries@[i as int]));
                        assert(decreases_to!(entries@[i as int] => entries@[i as int].1));
                    }
                    let key = entries[i].0.clone();
                    let val = entries[i].1.clone();
                    out.push((key, val));
                    i = i + 1;
                }
                let r = JsonNode::Obj(out);
                proof {
                    lemma_json_entries_dv(out@, out@.len() as int);
                    lemma_json_entries_dv(entries@, entries@.len() as int);
                    assert(r.deep_view()->Obj_0 =~= self.deep_view()->Obj_0);
                }
                r
            },
        }
    }
}

/// A whole vector's mirror sequence is its deep view.
pub proof fn lemma_json_arr_dv(v: Vec<JsonNode>)
    ensures
        json_items_dv(v@, v@.len() as int) == v.deep_view(),
{
    lemma_json_items_dv(v@, v@.len() as int);
    assert(json_items_dv(v@, v@.len() as int) =~= v.deep_view());
}

/// A whole entry vector's mirror sequence is its deep view.
pub proof fn lemma_json_obj_dv(m: Vec<(String, JsonNode)>)
    ensures
        json_entries_dv(m@, m@.len() as int) == m.deep_view(),
{
    lemma_json_entries_dv(m@, m@.len() as int);
    assert(json_entries_dv(m@, m@.len() as int) =~= m.deep_view());
}

/// The kind name of a JSON-shaped node.
pub open spec fn spec_json_type_name(v: JsonV) -> Seq<char> {
    match v {
        JsonV::Null => "Null"@,
        JsonV::Bool(_) => "Boolean"@,
        JsonV::UInt(_) => "Number"@,
        JsonV::Int(_) => "Number"@,
        JsonV::Num(_) => "Number"@,
        JsonV::Str(_) => "String"@,
        JsonV::Arr(_) => "Array"@,
        JsonV::Obj(_) => "Object"@,
    }
}

/// Returns the type name of the JSON value
pub fn json_type_name(json: &JsonNode) -> (r: String)
    ensures
        r@ == spec_json_type_name(json.deep_view()),
{
    match json {
        JsonNode::Null => "Null".to_owned(),
        JsonNode::Bool(_) => "Boolean".to_owned(),
        JsonNode::UInt(_) => "Number".to_owned(),
        JsonNode::Int(_) => "Number".to_owned(),
        JsonNode::Num(_) => "Number".to_owned(),
        JsonNode::Str(_) => "String".to_owned(),
        JsonNode::Arr(_) => "Array".to_owned(),
        JsonNode::Obj(_) => "Object".to_owned(),
    }
}

/// Ghost mirror of a YAML-shaped tree.
pub enum YamlV {
    /// A real number kept as the raw scalar text.
    Real(Seq<char>),
    Integer(i64),
    Str(Seq<char>),
    Boolean(bool),
    Arr(Seq<YamlV>),
    Hash(Seq<(YamlV, YamlV)>),
    Alias(usize),
    Null,
    BadValue,
}

/// A parsed YAML document tree, mirroring what a YAML parser hands
/// back: reals arrive as raw text, integers are signed, mapping keys
/// may be any node, and alias or unresolvable nodes are marked.
#[derive(Debug, PartialEq)]
pub enum YamlNode {
    Real(String),
    Integer(i64),
    Str(String),
    Boolean(bool),
    Arr(Vec<YamlNode>),
    Hash(Vec<(YamlNode, YamlNode)>),
    Alias(usize),
    Null,
    BadValue,
}

/// The ghost mirrors of the first `n` elements.
pub open spec fn yaml_items_dv(items: Seq<YamlNode>, n: int) -> Seq<YamlV>
    decreases items, n,
{
    if n <= 0 || n > items.len() {
        Seq::empty()
    } else {
        yaml_items_dv(items, n - 1).push(items[n - 1].deep_view())
    }
}

/// The ghost mirrors of the first `n` mapping entries.
pub open spec fn yaml_entries_dv(entries: Seq<(YamlNode, YamlNode)>, n: int) -> Seq<
    (YamlV, YamlV),
>
    decreases entries, n,
{
    if n <= 0 || n > entries.len() {
        Seq::empty()
    } else {
        yaml_entries_dv(entries, n - 1).push(
            (entries[n - 1].0.deep_view(), entries[n - 1].1.deep_view()),
        )
    }
}

impl DeepView for YamlNode {
    type V = YamlV;

    open spec fn deep_view(&self) -> YamlV
        decreases self, 0int,
    {
        match self {
            YamlNode::Real(s) => YamlV::Real(s@),
            YamlNode::Integer(i) => YamlV::Integer(*i),
            YamlNode::Str(s) => YamlV::Str(s@),
            YamlNode::Boolean(b) => YamlV::Boolean(*b),
            YamlNode::Arr(items) => YamlV::Arr(yaml_items_dv(items@, items@.len() as int)),
            YamlNode::Hash(entries) => YamlV::Hash(
                yaml_entries_dv(entries@, entries@.len() as int),
            ),
            YamlNode::Alias(a) => YamlV::Alias(*a),
            YamlNode::Null => YamlV::Null,
            YamlNode::BadValue => YamlV::BadValue,
        }
    }
}

/// What each position of [`yaml_items_dv`] holds.
pub proof fn lemma_yaml_items_dv(items: Seq<YamlNode>, n: int)
    requires
        0 <= n <= items.len(),
    ensures
        yaml_items_dv(items, n).len() == n,
        forall|k: int| 0 <= k < n ==> #[trigger] yaml_items_dv(items, n)[k] == items[k].deep_view(),
    decreases n,
{
    if n > 0 {
        lemma_yaml_items_dv(items, n - 1);
        assert(yaml_items_dv(items, n) == yaml_items_dv(items, n - 1).push(
            items[n - 1].deep_view(),
        ));
    }
}

/// What each position of [`yaml_entries_dv`] holds.
pub proof fn lemma_yaml_entries_dv(entries: Seq<(YamlNode, YamlNode)>, n: int)
    requires
        0 <= n <= entries.len(),
    ensures
        yaml_entries_dv(entries, n).len() == n,
        forall|k: int|
            0 <= k < n ==> #[trigger] yaml_entries_dv(entries, n)[k] == (
                entries[k].0.deep_view(),
                entries[k].1.deep_view(),
            ),
    decreases n,
{
    if n > 0 {
        lemma_yaml_entries_dv(entries, n - 1);
        assert(yaml_entries_dv(entries, n) == yaml_entries_dv(entries, n - 1).push(
            (entries[n - 1].0.deep_view(), entries[n - 1].1.deep_view()),
        ));
    }
}

/// The kind name of a YAML-shaped node.
pub open spec fn spec_yaml_type_name(v: YamlV) -> Seq<char> {
    match v {
        YamlV::Real(_) => "Real"@,
        YamlV::Integer(_) => "Integer"@,
        YamlV::Str(_) => "String"@,
        YamlV::Boolean(_) => "Boolean"@,
        YamlV::Arr(_) => "Array"@,
        YamlV::Hash(_) => "Hash"@,
        YamlV::Alias(_) => "Alias"@,
        YamlV::Null => "Null"@,
        YamlV::BadValue => "BadValue"@,
    }
}

/// Returns the type name of the YAML value
pub fn yaml_type_name(yaml: &YamlNode) -> (r: String)
    ensures
        r@ == spec_yaml_type_name(yaml.deep_view()),
{
    match yaml {
        YamlNode::Real(_) => "Real".to_owned(),
        YamlNode::Integer(_) => "Integer".to_owned(),
        YamlNode::Str(_) => "String".to_owned(),
        YamlNode::Boolean(_) => "Boolean".to_owned(),
        YamlNode::Arr(_) => "Array".to_owned(),
        YamlNode::Hash(_) => "Hash".to_owned(),
        YamlNode::Alias(_) => "Alias".to_owned(),
        YamlNode::Null => "Null".to_owned(),
        YamlNode::BadValue => "BadValue".to_owned(),
    }
}

} // verus!
