//! The JSON documents that kernel tools print, as far as this library reads them.

use crate::text::same_text;
use vstd::prelude::*;
use vstd::string::*;

verus! {

/// A JSON document as a mathematical value.
pub enum JsonTree {
    Null,
    Bool(bool),
    /// A number, with its value where it is written as a whole number from 0 to `u64::MAX`.
    Number(Option<u64>),
    Text(Seq<char>),
    Array(Seq<JsonTree>),
    /// The members in the order in which they are kept.
    Object(Seq<(Seq<char>, JsonTree)>),
}

/// The value of the first member named `key`.
pub open spec fn member(members: Seq<(Seq<char>, JsonTree)>, key: Seq<char>) -> Option<JsonTree>
    decreases members.len(),
{
    if members.len() == 0 {
        None
    } else if members[0].0 == key {
        Some(members[0].1)
    } else {
        member(members.skip(1), key)
    }
}

impl JsonTree {
    /// The member `key`, if this is an object that has it.
    pub open spec fn get(self, key: Seq<char>) -> Option<JsonTree> {
        match self {
            JsonTree::Object(members) => member(members, key),
            _ => None,
        }
    }

    /// The member `key`; null where there is none.
    pub open spec fn field(self, key: Seq<char>) -> JsonTree {
        match self.get(key) {
            Some(value) => value,
            None => JsonTree::Null,
        }
    }

    /// The first item of an array; null where there is none.
    pub open spec fn first(self) -> JsonTree {
        match self {
            JsonTree::Array(items) if items.len() > 0 => items[0],
            _ => JsonTree::Null,
        }
    }

    pub open spec fn as_array(self) -> Option<Seq<JsonTree>> {
        match self {
            JsonTree::Array(items) => Some(items),
            _ => None,
        }
    }

    pub open spec fn as_u64(self) -> Option<u64> {
        match self {
            JsonTree::Number(n) => n,
            _ => None,
        }
    }

    pub open spec fn is_text(self, s: Seq<char>) -> bool {
        match self {
            JsonTree::Text(t) => t == s,
            _ => false,
        }
    }
}

/// A JSON document.
#[derive(Debug)]
pub enum Json {
    Null,
    Bool(bool),
    /// A number, with its value where it is written as a whole number from 0 to `u64::MAX`.
    Number(Option<u64>),
    Text(String),
    Array(Vec<Json>),
    Object(Vec<(String, Json)>),
}

impl Json {
    pub open spec fn tree(&self) -> JsonTree
        decreases self,
    {
        match self {
            Json::Null => JsonTree::Null,
            Json::Bool(b) => JsonTree::Bool(*b),
            Json::Number(n) => JsonTree::Number(*n),
            Json::Text(s) => JsonTree::Text(s@),
            Json::Array(v) => JsonTree::Array(
                Seq::new(
                    v@.len(),
                    |i: int|
                        if 0 <= i < v@.len() {
                            v@[i].tree()
                        } else {
                            JsonTree::Null
                        },
                ),
            ),
            Json::Object(v) => JsonTree::Object(
                Seq::new(
                    v@.len(),
                    |i: int|
                        if 0 <= i < v@.len() {
                            (v@[i].0@, v@[i].1.tree())
                        } else {
                            (seq![], JsonTree::Null)
                        },
                ),
            ),
        }
    }
}

impl View for Json {
    type V = JsonTree;

    open spec fn view(&self) -> JsonTree {
        self.tree()
    }
}

/// The documents of a list.
pub open spec fn trees(items: Seq<Json>) -> Seq<JsonTree> {
    items.map_values(|x: Json| x@)
}

impl Json {
    /// The member `key`, if this is an object that has it.
    pub fn get(&self, key: &str) -> (r: Option<&Json>)
        ensures
            match r {
                Some(value) => self@.get(key@) == Some(value@),
                None => self@.get(key@) is None,
            },
    {
        match self {
            Json::Object(members) => {
                let ghost all = self@->Object_0;
                let mut i: usize = 0;
                proof {
                    assert(all.skip(0) =~= all);
                }
                while i < members.len()
                    invariant
                        i <= members@.len(),
                        *self == Json::Object(*members),
                        self@ == JsonTree::Object(all),
                        all.len() == members@.len(),
                        member(all, key@) == member(all.skip(i as int), key@),
                    decreases members@.len() - i,
                {
                    assert(all[i as int] == (members@[i as int].0@, members@[i as int].1@));
                    assert(all.skip(i as int)[0] == all[i as int]);
                    if same_text(members[i].0.as_str(), key) {
                        return Some(&members[i].1);
                    }
                    assert(all.skip(i as int).skip(1) =~= all.skip(i + 1));
                    i = i + 1;
                }
                None
            },
            _ => None,
        }
    }

    /// The items, if this is an array.
    pub fn as_array(&self) -> (r: Option<&Vec<Json>>)
        ensures
            match r {
                Some(items) => {
                    &&& *self == Json::Array(*items)
                    &&& self@.as_array() == Some(trees(items@))
                },
                None => self@.as_array() is None,
            },
    {
        match self {
            Json::Array(items) => {
                assert(self@.as_array()->0 =~= trees(items@));
                Some(items)
            },
            _ => None,
        }
    }

    /// The value of a number that is written as a whole number from 0 to `u64::MAX`.
    pub fn as_u64(&self) -> (r: Option<u64>)
        ensures
            r == self@.as_u64(),
    {
        match self {
            Json::Number(n) => *n,
            _ => None,
        }
    }

    /// Whether this is the text `s`.
    pub fn is_text(&self, s: &str) -> (r: bool)
        ensures
            r == self@.is_text(s@),
    {
        match self {
            Json::Text(t) => same_text(t.as_str(), s),
            _ => false,
        }
    }

    /// The whole number in the member `key`.
    pub fn number_in(&self, key: &str) -> (r: Option<u64>)
        ensures
            r == self@.field(key@).as_u64(),
    {
        match self.get(key) {
            Some(value) => value.as_u64(),
            None => None,
        }
    }

    /// Whether the member `key` is the text `s`.
    pub fn text_in(&self, key: &str, s: &str) -> (r: bool)
        ensures
            r == self@.field(key@).is_text(s@),
    {
        match self.get(key) {
            Some(value) => value.is_text(s),
            None => false,
        }
    }
}

/// serde_json's document type.
#[verifier::external_type_specification]
#[verifier::external_body]
pub struct ExValue(serde_json::Value);

/// serde_json's parse error.
#[verifier::external_type_specification]
#[verifier::external_body]
pub struct ExError(serde_json::Error);

/// What a `serde_json::Value` holds.
pub uninterp spec fn value_tree(value: serde_json::Value) -> JsonTree;

/// What a `serde_json::Error` prints as.
pub uninterp spec fn error_words(error: serde_json::Error) -> Seq<char>;

/// What `serde_json::from_slice` makes of a text when it is asked for a `serde_json::Value`; where
/// it reports an error, what that prints as.
pub uninterp spec fn parsed(text: Seq<u8>) -> Result<JsonTree, Seq<char>>;

/// A `serde_json::Value` with its outermost layer opened.
enum Layer {
    Null,
    Bool(bool),
    Number(Option<u64>),
    Text(String),
    Array(Vec<serde_json::Value>),
    Object(Vec<(String, serde_json::Value)>),
}

impl Layer {
    spec fn tree(self) -> JsonTree {
        match self {
            Layer::Null => JsonTree::Null,
            Layer::Bool(b) => JsonTree::Bool(b),
            Layer::Number(n) => JsonTree::Number(n),
            Layer::Text(s) => JsonTree::Text(s@),
            Layer::Array(v) => JsonTree::Array(Seq::new(v@.len(), |i: int| value_tree(v@[i]))),
            Layer::Object(v) => JsonTree::Object(
                Seq::new(v@.len(), |i: int| (v@[i].0@, value_tree(v@[i].1))),
            ),
        }
    }
}

/// Calls `serde_json::from_slice`: the text alone decides whether there is a document, which it
/// is, and what is reported where there is none.
#[verifier::external_body]
fn from_slice(text: &[u8]) -> (r: Result<serde_json::Value, serde_json::Error>)
    ensures
        match r {
            Ok(value) => parsed(text@) == Ok::<JsonTree, Seq<char>>(value_tree(value)),
            Err(e) => parsed(text@) == Err::<JsonTree, Seq<char>>(error_words(e)),
        },
{
    serde_json::from_slice(text)
}

/// Calls `to_string` of `serde_json::Error`: what the error prints as.
#[verifier::external_body]
fn error_text(error: &serde_json::Error) -> (r: String)
    ensures
        r@ == error_words(*error),
{
    error.to_string()
}

/// Takes a `serde_json::Value` apart by its variants. A number is read by `Number::as_u64`; the
/// members of an object come in the order of `serde_json::Map`'s own iterator.
#[verifier::external_body]
fn open(value: serde_json::Value) -> (r: Layer)
    ensures
        r.tree() == value_tree(value),
{
    match value {
        serde_json::Value::Null => Layer::Null,
        serde_json::Value::Bool(b) => Layer::Bool(b),
        serde_json::Value::Number(n) => Layer::Number(n.as_u64()),
        serde_json::Value::String(s) => Layer::Text(s),
        serde_json::Value::Array(v) => Layer::Array(v),
        serde_json::Value::Object(m) => Layer::Object(m.into_iter().collect()),
    }
}

/// The document that a `serde_json::Value` holds.
fn document(value: serde_json::Value) -> (r: Json)
    ensures
        r@ == value_tree(value),
    decreases value_tree(value),
{
    let ghost whole = value_tree(value);
    match open(value) {
        Layer::Null => Json::Null,
        Layer::Bool(b) => Json::Bool(b),
        Layer::Number(n) => Json::Number(n),
        Layer::Text(s) => Json::Text(s),
        Layer::Array(v) => {
            let ghost items = v@;
            let mut out: Vec<Json> = Vec::new();
            for item in it: v
                invariant
                    it.seq() == items,
                    whole == value_tree(value),
                    whole == JsonTree::Array(Seq::new(items.len(), |i: int| value_tree(items[i]))),
                    out@.len() == it.index(),
                    forall|i: int|
                        0 <= i < out@.len() ==> (#[trigger] out@[i])@ == value_tree(items[i]),
            {
                assert(decreases_to!(whole => whole->Array_0[it.index() as int]));
                out.push(document(item));
            }
            let r = Json::Array(out);
            assert(r@->Array_0 =~= whole->Array_0);
            r
        },
        Layer::Object(v) => {
            let ghost items = v@;
            let mut out: Vec<(String, Json)> = Vec::new();
            for item in it: v
                invariant
                    it.seq() == items,
                    whole == value_tree(value),
                    whole == JsonTree::Object(
                        Seq::new(items.len(), |i: int| (items[i].0@, value_tree(items[i].1))),
                    ),
                    out@.len() == it.index(),
                    forall|i: int|
                        0 <= i < out@.len() ==> {
                            &&& (#[trigger] out@[i]).0@ == items[i].0@
                            &&& out@[i].1@ == value_tree(items[i].1)
                        },
            {
                assert(decreases_to!(whole => whole->Object_0[it.index() as int]));
                assert(decreases_to!(whole => whole->Object_0[it.index() as int].1));
                out.push((item.0, document(item.1)));
            }
            let r = Json::Object(out);
            assert(r@->Object_0 =~= whole->Object_0);
            r
        },
    }
}

/// What reading a text has given.
pub open spec fn reading(r: Result<Json, String>) -> Result<JsonTree, Seq<char>> {
    match r {
        Ok(json) => Ok(json@),
        Err(report) => Err(report@),
    }
}

/// Reads a JSON text; if it is not one, gives what is reported of it.
pub fn parse(text: &[u8]) -> (r: Result<Json, String>)
    ensures
        reading(r) == parsed(text@),
{
    match from_slice(text) {
        Ok(value) => Ok(document(value)),
        Err(e) => Err(error_text(&e)),
    }
}

/// A document is what its parts are.
pub proof fn law_documents_are_their_parts(json: Json)
    ensures
        match json {
            Json::Null => json@ == JsonTree::Null,
            Json::Bool(b) => json@ == JsonTree::Bool(b),
            Json::Number(n) => json@ == JsonTree::Number(n),
            Json::Text(s) => json@ == JsonTree::Text(s@),
            Json::Array(v) => json@ matches JsonTree::Array(items) && items.len() == v@.len()
                && forall|i: int| 0 <= i < items.len() ==> #[trigger] items[i] == v@[i]@,
            Json::Object(v) => json@ matches JsonTree::Object(members) && members.len() == v@.len()
                && forall|i: int|
                0 <= i < members.len() ==> (#[trigger] members[i]).0 == v@[i].0@ && members[i].1
                    == v@[i].1@,
        },
{
}

} // verus!
