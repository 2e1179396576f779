//! JSON values as the decisions of this library read them.

use vstd::prelude::*;
use vstd::string::*;
use crate::text::same_text;

verus! {

/// A parsed JSON value. The pairs of an object stand in the order of its keys.
#[derive(Debug, PartialEq, Eq)]
pub enum Json {
    Null,
    Bool(bool),
    /// A number, as it is printed again after it was read: `1E2` is `100.0`.
    Number(String),
    Text(String),
    Array(Vec<Json>),
    Object(Vec<(String, Json)>),
}

/// The mathematical value of a [`Json`].
pub enum JsonTree {
    Null,
    Bool(bool),
    Number(Seq<char>),
    Text(Seq<char>),
    Array(Seq<JsonTree>),
    Object(Seq<(Seq<char>, JsonTree)>),
}

/// The value that `j` stands for.
pub open spec fn tree_of(j: Json) -> JsonTree
    decreases j,
{
    match j {
        Json::Null => JsonTree::Null,
        Json::Bool(b) => JsonTree::Bool(b),
        Json::Number(s) => JsonTree::Number(s@),
        Json::Text(s) => JsonTree::Text(s@),
        Json::Array(items) => JsonTree::Array(
            Seq::new(
                items@.len(),
                |i: int|
                    if 0 <= i < items@.len() {
                        tree_of(items@[i])
                    } else {
                        JsonTree::Null
                    },
            ),
        ),
        Json::Object(pairs) => JsonTree::Object(
            Seq::new(
                pairs@.len(),
                |i: int|
                    if 0 <= i < pairs@.len() {
                        (pairs@[i].0@, tree_of(pairs@[i].1))
                    } else {
                        (Seq::empty(), JsonTree::Null)
                    },
            ),
        ),
    }
}

impl DeepView for Json {
    type V = JsonTree;

    open spec fn deep_view(&self) -> JsonTree {
        tree_of(*self)
    }
}

/// The value of the first pair with this key.
pub open spec fn find_pair(pairs: Seq<(Seq<char>, JsonTree)>, key: Seq<char>) -> Option<JsonTree>
    decreases pairs.len(),
{
    if pairs.len() == 0 {
        None
    } else if pairs[0].0 == key {
        Some(pairs[0].1)
    } else {
        find_pair(pairs.skip(1), key)
    }
}

impl JsonTree {
    /// The member `key` of an object; nothing on any other value.
    pub open spec fn member(self, key: Seq<char>) -> Option<JsonTree> {
        match self {
            JsonTree::Object(pairs) => find_pair(pairs, key),
            _ => None,
        }
    }

    /// The text of the member `key`, where there is such a member and it is a text.
    pub open spec fn text_member(self, key: Seq<char>) -> Option<Seq<char>> {
        match self.member(key) {
            Some(JsonTree::Text(s)) => Some(s),
            _ => None,
        }
    }

    /// The member `key`, where there is such a member and it is true or false.
    pub open spec fn flag_member(self, key: Seq<char>) -> Option<bool> {
        match self.member(key) {
            Some(JsonTree::Bool(b)) => Some(b),
            _ => None,
        }
    }
}

impl Json {
    /// The member `key` of an object; nothing on any other value.
    pub fn get(&self, key: &str) -> (r: Option<&Json>)
        ensures
            r.deep_view() == self.deep_view().member(key@),
    {
        match self {
            Json::Object(pairs) => {
                let ghost model = self.deep_view()->Object_0;
                let mut i: usize = 0;
                assert(model.skip(0) =~= model);
                while i < pairs.len()
                    invariant
                        *self == Json::Object(*pairs),
                        model == self.deep_view()->Object_0,
                        i <= pairs@.len(),
                        find_pair(model.skip(i as int), key@) == find_pair(model, key@),
                    decreases pairs@.len() - i,
                {
                    assert(model.skip(i as int).skip(1) =~= model.skip(i + 1));
                    assert(model[i as int] == (pairs@[i as int].0@, tree_of(pairs@[i as int].1)));
                    if same_text(pairs[i].0.as_str(), key) {
                        return Some(&pairs[i].1);
                    }
                    i += 1;
                }
                None
            },
            _ => None,
        }
    }

    /// The text of the member `key`, where there is such a member and it is a text.
    pub fn text(&self, key: &str) -> (r: Option<&str>)
        ensures
            r.deep_view() == self.deep_view().text_member(key@),
    {
        match self.get(key) {
            Some(Json::Text(s)) => Some(s.as_str()),
            _ => None,
        }
    }

    /// The member `key`, where there is such a member and it is true or false.
    pub fn flag(&self, key: &str) -> (r: Option<bool>)
        ensures
            r == self.deep_view().flag_member(key@),
    {
        match self.get(key) {
            Some(Json::Bool(b)) => Some(*b),
            _ => None,
        }
    }
}

/// A JSON value as `serde_json` holds it.
#[verifier::external_type_specification]
#[verifier::external_body]
pub struct ExValue(serde_json::Value);

/// What a text parses to; nothing where it is not JSON.
pub uninterp spec fn parsed_json(text: Seq<char>) -> Option<JsonTree>;

/// What a parsed value holds.
pub uninterp spec fn json_content(value: serde_json::Value) -> JsonTree;

/// `serde_json::from_str` into a [`serde_json::Value`]: the result depends on the text
/// alone. What each text parses to is left to that crate.
#[verifier::external_body]
fn parse_value(text: &str) -> (r: Option<serde_json::Value>)
    ensures
        r matches Some(value) ==> parsed_json(text@) == Some(json_content(value)),
        r is None ==> parsed_json(text@) is None,
{
    serde_json::from_str::<serde_json::Value>(text).ok()
}

/// The outermost layer of a JSON value.
enum Layer {
    Null,
    Bool(bool),
    Number(String),
    Text(String),
    Array(Vec<serde_json::Value>),
    Object(Vec<(String, serde_json::Value)>),
}

/// What a value with this outermost layer holds.
spec fn layer_content(layer: Layer) -> JsonTree {
    match layer {
        Layer::Null => JsonTree::Null,
        Layer::Bool(b) => JsonTree::Bool(b),
        Layer::Number(s) => JsonTree::Number(s@),
        Layer::Text(s) => JsonTree::Text(s@),
        Layer::Array(items) => JsonTree::Array(
            Seq::new(items@.len(), |i: int| json_content(items@[i])),
        ),
        Layer::Object(pairs) => JsonTree::Object(
            Seq::new(pairs@.len(), |i: int| (pairs@[i].0@, json_content(pairs@[i].1))),
        ),
    }
}

/// The variants of [`serde_json::Value`], one for one: an array gives its items and an
/// object its pairs, in the order in which they are handed out, a number the text that
/// it prints as.
#[verifier::external_body]
fn open_value(value: serde_json::Value) -> (r: Layer)
    ensures
        layer_content(r) == json_content(value),
{
    match value {
        serde_json::Value::Null => Layer::Null,
        serde_json::Value::Bool(b) => Layer::Bool(b),
        serde_json::Value::Number(n) => Layer::Number(n.to_string()),
        serde_json::Value::String(s) => Layer::Text(s),
        serde_json::Value::Array(items) => Layer::Array(items),
        serde_json::Value::Object(map) => Layer::Object(map.into_iter().collect()),
    }
}

/// The whole of a JSON value.
fn json_of(value: serde_json::Value) -> (r: Json)
    ensures
        r.deep_view() == json_content(value),
    decreases json_content(value),
{
    let ghost content = json_content(value);
    match open_value(value) {
        Layer::Null => Json::Null,
        Layer::Bool(b) => Json::Bool(b),
        Layer::Number(s) => Json::Number(s),
        Layer::Text(s) => Json::Text(s),
        Layer::Array(items) => {
            let ghost all = items@;
            let ghost model = content->Array_0;
            let mut out: Vec<Json> = Vec::new();
            for item in iter: items
                invariant
                    iter.seq() == all,
                    content == json_content(value),
                    content is Array,
                    model == content->Array_0,
                    model.len() == all.len(),
                    forall|i: int| 0 <= i < all.len() ==> model[i] == json_content(all[i]),
                    out@.len() == iter.index(),
                    forall|i: int| 0 <= i < out@.len() ==> tree_of(#[trigger] out@[i]) == model[i],
            {
                assert(decreases_to!(content => content->Array_0[iter.index() as int]));
                out.push(json_of(item));
            }
            let r = Json::Array(out);
            assert(r.deep_view()->Array_0 =~= model);
            r
        },
        Layer::Object(pairs) => {
            let ghost all = pairs@;
            let ghost model = content->Object_0;
            let mut out: Vec<(String, Json)> = Vec::new();
            for pair in iter: pairs
                invariant
                    iter.seq() == all,
                    content == json_content(value),
                    content is Object,
                    model == content->Object_0,
                    model.len() == all.len(),
                    forall|i: int|
                        0 <= i < all.len() ==> model[i] == (all[i].0@, json_content(all[i].1)),
                    out@.len() == iter.index(),
                    forall|i: int|
                        0 <= i < out@.len() ==> (out@[i].0@, tree_of((#[trigger] out@[i]).1))
                            == model[i],
            {
                assert(decreases_to!(content => content->Object_0[iter.index() as int].1));
                out.push((pair.0, json_of(pair.1)));
            }
            let r = Json::Object(out);
            assert(r.deep_view()->Object_0 =~= model);
            r
        },
    }
}

/// Parse a JSON text; nothing where it is not JSON.
pub fn parse_json(text: &str) -> (r: Option<Json>)
    ensures
        r.deep_view() == parsed_json(text@),
{
    match parse_value(text) {
        Some(value) => Some(json_of(value)),
        None => None,
    }
}

/// What bytes parse to; nothing where they are not JSON.
pub uninterp spec fn parsed_json_bytes(bytes: Seq<u8>) -> Option<JsonTree>;

/// `serde_json::from_slice` into a [`serde_json::Value`]: the result depends on the bytes
/// alone. What they parse to is left to that crate.
#[verifier::external_body]
fn parse_value_bytes(bytes: &[u8]) -> (r: Option<serde_json::Value>)
    ensures
        r matches Some(value) ==> parsed_json_bytes(bytes@) == Some(json_content(value)),
        r is None ==> parsed_json_bytes(bytes@) is None,
{
    serde_json::from_slice::<serde_json::Value>(bytes).ok()
}

/// Parse the bytes of a JSON text; nothing where they are not JSON.
pub fn parse_json_bytes(bytes: &[u8]) -> (r: Option<Json>)
    ensures
        r.deep_view() == parsed_json_bytes(bytes@),
{
    match parse_value_bytes(bytes) {
        Some(value) => Some(json_of(value)),
        None => None,
    }
}

/// A member of an object is the first with its key, and only objects have members; it counts
/// as a text or a flag only where it is one.
pub proof fn law_members(pairs: Seq<(Seq<char>, JsonTree)>, key: Seq<char>, i: int)
    ensures
        0 <= i < pairs.len() && pairs[i].0 == key && (forall|j: int|
            0 <= j < i ==> (#[trigger] pairs[j]).0 != key) ==> {
            let tree = JsonTree::Object(pairs);
            &&& tree.member(key) == Some(pairs[i].1)
            &&& pairs[i].1 matches JsonTree::Text(text) ==> tree.text_member(key) == Some(
                pairs[i].1->Text_0,
            )
            &&& !(pairs[i].1 is Text) ==> tree.text_member(key) is None
            &&& pairs[i].1 matches JsonTree::Bool(flag) ==> tree.flag_member(key) == Some(
                pairs[i].1->Bool_0,
            )
            &&& !(pairs[i].1 is Bool) ==> tree.flag_member(key) is None
        },
        (forall|j: int| 0 <= j < pairs.len() ==> (#[trigger] pairs[j]).0 != key)
            ==> JsonTree::Object(pairs).member(key) is None && JsonTree::Object(pairs).text_member(
            key,
        ) is None,
        JsonTree::Null.member(key) is None,
    decreases pairs.len(),
{
    if pairs.len() > 0 {
        let rest = pairs.skip(1);
        law_members(rest, key, i - 1);
        if 0 < i < pairs.len() && pairs[i].0 == key && (forall|j: int|
            0 <= j < i ==> (#[trigger] pairs[j]).0 != key) {
            assert(pairs[0].0 != key);
            assert(rest[i - 1] == pairs[i]);
            assert forall|j: int| 0 <= j < i - 1 implies (#[trigger] rest[j]).0 != key by {
                assert(rest[j] == pairs[j + 1]);
            }
        }
        if forall|j: int| 0 <= j < pairs.len() ==> (#[trigger] pairs[j]).0 != key {
            assert(pairs[0].0 != key);
            assert forall|j: int| 0 <= j < rest.len() implies (#[trigger] rest[j]).0 != key by {
                assert(rest[j] == pairs[j + 1]);
            }
        }
    }
}

} // verus!
