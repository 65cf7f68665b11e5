//! JSON documents: reading them from text, and writing requests.
//!
//! Parsing and printing are `serde_json`'s. What a document holds is a
//! [`JsonTree`]; [`Json`] is such a tree as a value that programs can walk.

use crate::text::same_text;
use serde_json::Value;
use vstd::prelude::*;

verus! {

/// A JSON value of `serde_json`.
#[verifier::external_type_specification]
#[verifier::external_body]
pub struct ExJsonValue(serde_json::Value);

/// What a JSON value holds.
///
/// A number is known by its value where it is an integer in the range of `i64`;
/// of any other number nothing is kept.
#[verifier::ext_equal]
pub enum JsonTree {
    Null,
    Bool(bool),
    Number(Option<i64>),
    Text(Seq<char>),
    Array(Seq<JsonTree>),
    Object(Map<Seq<char>, JsonTree>),
}

/// What a `serde_json` value holds.
pub uninterp spec fn value_tree(v: serde_json::Value) -> JsonTree;

/// What `serde_json` reads a text as, where it is a JSON document; otherwise what it
/// says is wrong with it.
pub uninterp spec fn json_meaning(text: Seq<char>) -> Result<JsonTree, Seq<char>>;

/// How `serde_json` prints a tree, without any white space.
pub uninterp spec fn json_rendering(tree: JsonTree) -> Seq<char>;

/// The value under a key, where the tree is an object that has the key.
pub open spec fn field(t: JsonTree, key: Seq<char>) -> Option<JsonTree> {
    match t {
        JsonTree::Object(m) => if m.contains_key(key) {
            Some(m[key])
        } else {
            None
        },
        _ => None,
    }
}

/// The `i`-th item, where the tree is an array that has one.
pub open spec fn item(t: JsonTree, i: int) -> Option<JsonTree> {
    match t {
        JsonTree::Array(s) => if 0 <= i < s.len() {
            Some(s[i])
        } else {
            None
        },
        _ => None,
    }
}

/// The items, where the tree is an array.
pub open spec fn items(t: JsonTree) -> Option<Seq<JsonTree>> {
    match t {
        JsonTree::Array(s) => Some(s),
        _ => None,
    }
}

/// The characters, where the tree is a text.
pub open spec fn text(t: JsonTree) -> Option<Seq<char>> {
    match t {
        JsonTree::Text(s) => Some(s),
        _ => None,
    }
}

/// The value, where the tree is an integer in the range of `i64`.
pub open spec fn integer(t: JsonTree) -> Option<i64> {
    match t {
        JsonTree::Number(n) => n,
        _ => None,
    }
}

/// The text under a key.
pub open spec fn text_field(t: JsonTree, key: Seq<char>) -> Option<Seq<char>> {
    match field(t, key) {
        Some(x) => text(x),
        None => None,
    }
}

/// The integer under a key.
pub open spec fn integer_field(t: JsonTree, key: Seq<char>) -> Option<i64> {
    match field(t, key) {
        Some(x) => integer(x),
        None => None,
    }
}

/// A JSON document as a value.
///
/// Of entries of an object with the same key the first one counts.
pub enum Json {
    Null,
    Bool(bool),
    Number(Option<i64>),
    Text(String),
    Array(Vec<Json>),
    Object(Vec<(String, Json)>),
}

/// The place of the first entry with a key; the number of entries where there is
/// none.
pub open spec fn key_place(entries: Seq<(String, Json)>, key: Seq<char>) -> int
    decreases entries.len(),
{
    if entries.len() == 0 {
        0
    } else if entries[0].0@ == key {
        0
    } else {
        1 + key_place(entries.skip(1), key)
    }
}

impl Json {
    /// What the document holds.
    pub open spec fn tree(self) -> JsonTree
        decreases self,
    {
        match self {
            Json::Null => JsonTree::Null,
            Json::Bool(b) => JsonTree::Bool(b),
            Json::Number(n) => JsonTree::Number(n),
            Json::Text(s) => JsonTree::Text(s@),
            Json::Array(v) => JsonTree::Array(
                Seq::new(
                    v@.len(),
                    |i: int|
                        if 0 <= i < v@.len() {
                            v@[i].tree()
                        } else {
                            JsonTree::Null
                        },
                ),
            ),
            Json::Object(v) => JsonTree::Object(
                Map::new(
                    |k: Seq<char>| key_place(v@, k) < v@.len(),
                    |k: Seq<char>|
                        {
                            let i = key_place(v@, k);
                            if 0 <= i < v@.len() {
                                v@[i].1.tree()
                            } else {
                                JsonTree::Null
                            }
                        },
                ),
            ),
        }
    }
}

/// A key's place is that of the first entry that has it.
pub proof fn key_place_is_first(entries: Seq<(String, Json)>, key: Seq<char>)
    ensures
        0 <= key_place(entries, key) <= entries.len(),
        key_place(entries, key) < entries.len() ==> entries[key_place(entries, key)].0@ == key,
        forall|i: int|
            0 <= i < key_place(entries, key) ==> (#[trigger] entries[i]).0@ != key,
    decreases entries.len(),
{
    if entries.len() > 0 && entries[0].0@ != key {
        let rest = entries.skip(1);
        key_place_is_first(rest, key);
        assert forall|i: int| 0 <= i < key_place(entries, key) implies (#[trigger] entries[i]).0@
            != key by {
            if i > 0 {
                assert(rest[i - 1] == entries[i]);
            }
        }
    }
}

impl Json {
    /// The value under a key, where this is an object that has the key.
    pub fn get(&self, key: &str) -> (r: Option<&Json>)
        ensures
            match r {
                Some(x) => field(self.tree(), key@) == Some(x.tree()),
                None => field(self.tree(), key@) is None,
            },
    {
        match self {
            Json::Object(v) => {
                let mut i: usize = 0;
                while i < v.len() && !same_text(v[i].0.as_str(), key)
                    invariant
                        i <= v@.len(),
                        forall|j: int| 0 <= j < i ==> (#[trigger] v@[j]).0@ != key@,
                    decreases v@.len() - i,
                {
                    i = i + 1;
                }
                proof {
                    key_place_is_first(v@, key@);
                    let p = key_place(v@, key@);
                    if i < v@.len() {
                        assert(v@[i as int].0@ == key@);
                        assert(p == i);
                    } else if p < v@.len() {
                        assert(v@[p].0@ != key@);
                    }
                }
                if i < v.len() {
                    Some(&v[i].1)
                } else {
                    None
                }
            },
            _ => None,
        }
    }

    /// The `i`-th item, where this is an array that has one.
    pub fn at(&self, i: usize) -> (r: Option<&Json>)
        ensures
            match r {
                Some(x) => item(self.tree(), i as int) == Some(x.tree()),
                None => item(self.tree(), i as int) is None,
            },
    {
        match self {
            Json::Array(v) => if i < v.len() {
                Some(&v[i])
            } else {
                None
            },
            _ => None,
        }
    }

    /// The items, where this is an array.
    pub fn as_items(&self) -> (r: Option<&Vec<Json>>)
        ensures
            match r {
                Some(v) => items(self.tree()) == Some(trees(v@)),
                None => items(self.tree()) is None,
            },
    {
        match self {
            Json::Array(v) => {
                proof {
                    assert(items(self.tree())->0 =~= trees(v@));
                }
                Some(v)
            },
            _ => None,
        }
    }

    /// The text, where this is one.
    pub fn as_text(&self) -> (r: Option<&String>)
        ensures
            match r {
                Some(s) => text(self.tree()) == Some(s@),
                None => text(self.tree()) is None,
            },
    {
        match self {
            Json::Text(s) => Some(s),
            _ => None,
        }
    }

    /// The value, where this is an integer in the range of `i64`.
    pub fn as_integer(&self) -> (r: Option<i64>)
        ensures
            r == integer(self.tree()),
    {
        match self {
            Json::Number(n) => *n,
            _ => None,
        }
    }

    /// A copy of the text under a key.
    pub fn get_text(&self, key: &str) -> (r: Option<String>)
        ensures
            match r {
                Some(s) => text_field(self.tree(), key@) == Some(s@),
                None => text_field(self.tree(), key@) is None,
            },
    {
        match self.get(key) {
            Some(x) => match x.as_text() {
                Some(s) => Some(s.clone()),
                None => None,
            },
            None => None,
        }
    }

    /// The integer under a key.
    pub fn get_integer(&self, key: &str) -> (r: Option<i64>)
        ensures
            r == integer_field(self.tree(), key@),
    {
        match self.get(key) {
            Some(x) => x.as_integer(),
            None => None,
        }
    }
}

/// What each of several documents holds.
pub open spec fn trees(v: Seq<Json>) -> Seq<JsonTree> {
    v.map_values(|j: Json| j.tree())
}

/// The outermost form of a `serde_json` value, with what stands inside it.
enum Shape<'a> {
    Null,
    Bool(bool),
    Number(Option<i64>),
    Text(&'a str),
    Array(&'a Vec<Value>),
    Object(Vec<(&'a String, &'a Value)>),
}

/// Whether a form is that of a tree.
spec fn shape_of(s: Shape, t: JsonTree) -> bool {
    match s {
        Shape::Null => t == JsonTree::Null,
        Shape::Bool(b) => t == JsonTree::Bool(b),
        Shape::Number(n) => t == JsonTree::Number(n),
        Shape::Text(x) => t == JsonTree::Text(x@),
        Shape::Array(v) => {
            &&& t matches JsonTree::Array(ts)
            &&& ts == v@.map_values(|x: Value| value_tree(x))
        },
        Shape::Object(es) => {
            &&& t matches JsonTree::Object(m)
            &&& m.dom().finite()
            &&& forall|i: int, j: int| 0 <= i < j < es@.len() ==> es@[i].0@ != es@[j].0@
            &&& forall|i: int|
                0 <= i < es@.len() ==> m.contains_key((#[trigger] es@[i]).0@) && m[es@[i].0@]
                    == value_tree(*es@[i].1)
            &&& forall|k: Seq<char>| #[trigger]
                m.contains_key(k) ==> exists|i: int| 0 <= i < es@.len() && (#[trigger] es@[i]).0@ == k
        },
    }
}

/// Reads a text as a JSON document with `serde_json::from_str`.
///
/// Taken on trust: whether the text is a document, what it holds, and the text of the
/// error where it is none, depend on its characters alone.
#[verifier::external_body]
fn read_value(text: &str) -> (r: Result<Value, String>)
    ensures
        match r {
            Ok(v) => json_meaning(text@) == Ok::<JsonTree, Seq<char>>(value_tree(v)),
            Err(e) => json_meaning(text@) == Err::<JsonTree, Seq<char>>(e@),
        },
{
    serde_json::from_str::<Value>(text).map_err(|e| e.to_string())
}

/// Tells the variants of `serde_json::Value` apart.
///
/// Taken on trust: a number is handed out by `Number::as_i64`, and the entries of
/// an object, by `Map::iter`, are all of them, each under a key of its own.
#[verifier::external_body]
fn shape(v: &Value) -> (r: Shape<'_>)
    ensures
        shape_of(r, value_tree(*v)),
{
    match v {
        Value::Null => Shape::Null,
        Value::Bool(b) => Shape::Bool(*b),
        Value::Number(n) => Shape::Number(n.as_i64()),
        Value::String(s) => Shape::Text(s.as_str()),
        Value::Array(a) => Shape::Array(a),
        Value::Object(m) => Shape::Object(m.iter().collect()),
    }
}

/// A `serde_json` value as a document of this library.
pub fn to_json(v: &Value) -> (r: Json)
    ensures
        r.tree() == value_tree(*v),
    decreases value_tree(*v),
{
    match shape(v) {
        Shape::Null => Json::Null,
        Shape::Bool(b) => Json::Bool(b),
        Shape::Number(n) => Json::Number(n),
        Shape::Text(s) => Json::Text(s.to_owned()),
        Shape::Array(a) => {
            let ghost ts = value_tree(*v)->Array_0;
            let mut out: Vec<Json> = Vec::new();
            let mut i: usize = 0;
            while i < a.len()
                invariant
                    i <= a@.len(),
                    out@.len() == i,
                    value_tree(*v) == JsonTree::Array(ts),
                    ts == a@.map_values(|x: Value| value_tree(x)),
                    forall|j: int| 0 <= j < i ==> (#[trigger] out@[j]).tree() == ts[j],
                decreases a@.len() - i,
            {
                assert(ts[i as int] == value_tree(a@[i as int]));
                assert(decreases_to!(value_tree(*v) => value_tree(*v)->Array_0));
                assert(decreases_to!(ts => ts[i as int]));
                out.push(to_json(&a[i]));
                i = i + 1;
            }
            let r = Json::Array(out);
            assert(r.tree()->Array_0 =~= ts);
            r
        },
        Shape::Object(es) => {
            let ghost m = value_tree(*v)->Object_0;
            let mut out: Vec<(String, Json)> = Vec::new();
            let mut i: usize = 0;
            while i < es.len()
                invariant
                    i <= es@.len(),
                    out@.len() == i,
                    value_tree(*v) == JsonTree::Object(m),
                    shape_of(Shape::Object(es), value_tree(*v)),
                    forall|j: int|
                        0 <= j < i ==> (#[trigger] out@[j]).0@ == es@[j].0@ && out@[j].1.tree()
                            == m[es@[j].0@],
                decreases es@.len() - i,
            {
                assert(m.contains_key(es@[i as int].0@));
                let e = es[i];
                out.push((e.0.clone(), to_json(e.1)));
                i = i + 1;
            }
            let r = Json::Object(out);
            proof {
                let n = r.tree()->Object_0;
                assert forall|k: Seq<char>|
                    n.dom().contains(k) == #[trigger] m.dom().contains(k) && (m.dom().contains(k)
                        ==> n[k] == m[k]) by {
                    key_place_is_first(out@, k);
                    let p = key_place(out@, k);
                    if p < out@.len() {
                        assert(out@[p].0@ == es@[p].0@);
                        assert(m.contains_key(es@[p].0@));
                    } else if m.contains_key(k) {
                        let i = choose|i: int| 0 <= i < es@.len() && (#[trigger] es@[i]).0@ == k;
                        assert(out@[i].0@ == es@[i].0@);
                    }
                }
                assert(n.dom() =~= m.dom());
                assert(n =~= m);
            }
            r
        },
    }
}

/// Reads a text as a JSON document; where it is none, the result says why.
pub fn parse_json(text: &str) -> (r: Result<Json, String>)
    ensures
        match r {
            Ok(j) => json_meaning(text@) == Ok::<JsonTree, Seq<char>>(j.tree()),
            Err(e) => json_meaning(text@) == Err::<JsonTree, Seq<char>>(e@),
        },
{
    match read_value(text) {
        Ok(v) => Ok(to_json(&v)),
        Err(e) => Err(e),
    }
}

/// Makes a JSON text by `Value::from`.
///
/// Taken on trust: the value holds these characters.
#[verifier::external_body]
pub(crate) fn text_value(s: &str) -> (r: Value)
    ensures
        value_tree(r) == JsonTree::Text(s@),
{
    Value::from(s)
}

/// Makes a JSON number by `Value::from`.
///
/// Taken on trust: the value holds this integer.
#[verifier::external_body]
pub(crate) fn integer_value(n: i64) -> (r: Value)
    ensures
        value_tree(r) == JsonTree::Number(Some(n)),
{
    Value::from(n)
}

/// Whether no two entries have the same key.
pub open spec fn keys_differ(entries: Seq<(&'static str, Value)>) -> bool {
    forall|i: int, j: int|
        0 <= i < j < entries.len() ==> (#[trigger] entries[i]).0@ != (#[trigger] entries[j]).0@
}

/// The entries of an object as a map.
pub open spec fn entry_map(entries: Seq<(&'static str, Value)>) -> Map<Seq<char>, JsonTree>
    decreases entries.len(),
{
    if entries.len() == 0 {
        Map::empty()
    } else {
        entry_map(entries.drop_last()).insert(entries.last().0@, value_tree(entries.last().1))
    }
}

/// Makes a JSON object by collecting entries into a `serde_json::Map`.
///
/// Taken on trust: where the keys differ, the value holds these entries.
#[verifier::external_body]
pub(crate) fn object_value(entries: Vec<(&'static str, Value)>) -> (r: Value)
    requires
        keys_differ(entries@),
    ensures
        value_tree(r) == JsonTree::Object(entry_map(entries@)),
{
    Value::Object(entries.into_iter().map(|e| (e.0.to_string(), e.1)).collect())
}

/// Whether every number in a tree is an integer in the range of `i64`.
pub open spec fn whole(t: JsonTree) -> bool
    decreases t,
{
    match t {
        JsonTree::Number(n) => n is Some,
        JsonTree::Array(s) => forall|i: int| 0 <= i < s.len() ==> whole(#[trigger] s[i]),
        JsonTree::Object(m) => m.dom().finite() && forall|k: Seq<char>| #[trigger]
            m.contains_key(k) ==> whole(m[k]),
        _ => true,
    }
}

/// Prints a JSON value by its `Display`.
///
/// Taken on trust: where every number in it is an integer in the range of `i64`,
/// the text depends on what the value holds alone.
#[verifier::external_body]
pub(crate) fn render(v: &Value) -> (r: String)
    requires
        whole(value_tree(*v)),
    ensures
        r@ == json_rendering(value_tree(*v)),
{
    v.to_string()
}

/// An entry is found by its key and by no other, and only in an object.
pub proof fn entries_are_found_by_their_key(
    m: Map<Seq<char>, JsonTree>,
    key: Seq<char>,
    other: Seq<char>,
    value: JsonTree,
)
    ensures
        field(JsonTree::Object(m.insert(key, value)), key) == Some(value),
        field(JsonTree::Object(m.remove(key)), key) is None,
        other != key ==> field(JsonTree::Object(m.insert(other, value)), key) == field(
            JsonTree::Object(m),
            key,
        ),
        !(value is Object) ==> field(value, key) is None,
        text_field(JsonTree::Object(m.insert(key, value)), key) == text(value),
        integer_field(JsonTree::Object(m.insert(key, value)), key) == integer(value),
        text_field(JsonTree::Object(m.remove(key)), key) is None,
        integer_field(JsonTree::Object(m.remove(key)), key) is None,
        !(value is Object) ==> text_field(value, key) is None && integer_field(value, key) is None,
{
}

/// Items are found by their place, and only in an array; a text and an integer are read
/// as what they are, and nothing else is read as one.
pub proof fn values_are_read_as_what_they_are(
    before: Seq<JsonTree>,
    value: JsonTree,
    after: Seq<JsonTree>,
    s: Seq<char>,
    n: i64,
    i: int,
)
    ensures
        item(JsonTree::Array(before.push(value) + after), before.len() as int) == Some(value),
        i < 0 || i >= before.len() ==> item(JsonTree::Array(before), i) is None,
        items(JsonTree::Array(before)) == Some(before),
        !(value is Array) ==> items(value) is None && item(value, i) is None,
        text(value) == Some(s) <==> value == JsonTree::Text(s),
        integer(value) == Some(n) <==> value == JsonTree::Number(Some(n)),
{
}

/// A document holds what it is made of: an array its items one by one and in order, an
/// object under each key the first entry that has it.
pub proof fn documents_hold_what_they_are_made_of(
    s: String,
    n: Option<i64>,
    b: bool,
    v: Vec<Json>,
    es: Vec<(String, Json)>,
    k: int,
)
    ensures
        Json::Null.tree() == JsonTree::Null,
        Json::Bool(b).tree() == JsonTree::Bool(b),
        Json::Number(n).tree() == JsonTree::Number(n),
        Json::Text(s).tree() == JsonTree::Text(s@),
        trees(v@).len() == v@.len(),
        0 <= k < v@.len() ==> trees(v@)[k] == v@[k].tree(),
        items(Json::Array(v).tree()) == Some(trees(v@)),
        0 <= k < es@.len() && (forall|j: int|
            0 <= j < k ==> (#[trigger] es@[j]).0@ != es@[k].0@) ==> field(
            Json::Object(es).tree(),
            es@[k].0@,
        ) == Some(es@[k].1.tree()),
        (forall|j: int| 0 <= j < es@.len() ==> (#[trigger] es@[j]).0@ != s@) ==> field(
            Json::Object(es).tree(),
            s@,
        ) is None,
{
    reveal_with_fuel(Json::tree, 2);
    assert(items(Json::Array(v).tree())->0 =~= trees(v@));
    key_place_is_first(es@, s@);
    if 0 <= k < es@.len() {
        key_place_is_first(es@, es@[k].0@);
    }
}

} // verus!
