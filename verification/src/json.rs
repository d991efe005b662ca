//! JSON documents, as the `serde_json` crate reads and writes them.

use crate::text::{opt_text, owned, same_text, text_pairs, texts};
use vstd::prelude::*;

verus! {

/// A JSON document.
#[derive(Debug)]
pub enum Json {
    Null,
    Bool(bool),
    /// A number: its value where that is a `u64`, and how it is written.
    Number(Option<u64>, String),
    Text(String),
    List(Vec<Json>),
    /// Members in the order in which the parser hands them out.
    Object(Vec<(String, Json)>),
}

/// Mathematical counterpart of [`Json`].
pub enum Tree {
    Null,
    Bool(bool),
    Number(Option<u64>, Seq<char>),
    Text(Seq<char>),
    List(Seq<Tree>),
    Object(Seq<(Seq<char>, Tree)>),
}

/// What a document holds.
pub open spec fn json_tree(json: Json) -> Tree
    decreases json,
{
    match json {
        Json::Null => Tree::Null,
        Json::Bool(b) => Tree::Bool(b),
        Json::Number(n, t) => Tree::Number(n, t@),
        Json::Text(t) => Tree::Text(t@),
        Json::List(items) => Tree::List(
            Seq::new(
                items@.len(),
                |i: int|
                    if 0 <= i < items@.len() {
                        json_tree(items@[i])
                    } else {
                        Tree::Null
                    },
            ),
        ),
        Json::Object(fields) => Tree::Object(
            Seq::new(
                fields@.len(),
                |i: int|
                    if 0 <= i < fields@.len() {
                        (fields@[i].0@, json_tree(fields@[i].1))
                    } else {
                        (Seq::<char>::empty(), Tree::Null)
                    },
            ),
        ),
    }
}

impl View for Json {
    type V = Tree;

    open spec fn view(&self) -> Tree {
        json_tree(*self)
    }
}

// ---------------------------------------------------------------------------
// Reading a document
// ---------------------------------------------------------------------------

/// The first member named `key`.
pub open spec fn lookup(fields: Seq<(Seq<char>, Tree)>, key: Seq<char>) -> Option<Tree>
    decreases fields.len(),
{
    if fields.len() == 0 {
        None
    } else if fields[0].0 == key {
        Some(fields[0].1)
    } else {
        lookup(fields.skip(1), key)
    }
}

/// The member `key` of an object; other documents have no members.
pub open spec fn member(tree: Tree, key: Seq<char>) -> Option<Tree> {
    match tree {
        Tree::Object(fields) => lookup(fields, key),
        _ => None,
    }
}

/// The text of a string document.
pub open spec fn as_text(tree: Tree) -> Option<Seq<char>> {
    match tree {
        Tree::Text(t) => Some(t),
        _ => None,
    }
}

/// The member `key`, where it is a string.
pub open spec fn text_member(tree: Tree, key: Seq<char>) -> Option<Seq<char>> {
    match member(tree, key) {
        Some(v) => as_text(v),
        None => None,
    }
}

/// The member `key`, where it is a string that is not empty.
pub open spec fn filled_member(tree: Tree, key: Seq<char>) -> Option<Seq<char>> {
    match text_member(tree, key) {
        Some(t) => if t.len() > 0 {
            Some(t)
        } else {
            None
        },
        None => None,
    }
}

/// The member `key`, where it is a number that fits a `u64`.
pub open spec fn number_member(tree: Tree, key: Seq<char>) -> Option<u64> {
    match member(tree, key) {
        Some(Tree::Number(n, _)) => n,
        _ => None,
    }
}

impl Json {
    /// The member `key` of an object.
    pub fn get(&self, key: &str) -> (r: Option<&Json>)
        ensures
            match r {
                Some(v) => member(self@, key@) == Some(v@),
                None => member(self@, key@) is None,
            },
    {
        match self {
            Json::Object(fields) => {
                let ghost all = self@->Object_0;
                let mut i: usize = 0;
                assert(all.skip(0) =~= all);
                while i < fields.len()
                    invariant
                        i <= fields@.len(),
                        self@ == Tree::Object(all),
                        all.len() == fields@.len(),
                        forall|k: int|
                            0 <= k < all.len() ==> #[trigger] all[k] == (
                                fields@[k].0@,
                                fields@[k].1@,
                            ),
                        lookup(all, key@) == lookup(all.skip(i as int), key@),
                    decreases fields.len() - i,
                {
                    assert(all.skip(i as int)[0] == all[i as int]);
                    if same_text(fields[i].0.as_str(), key) {
                        return Some(&fields[i].1);
                    }
                    assert(all.skip(i as int).skip(1) =~= all.skip(i + 1));
                    i = i + 1;
                }
                None
            },
            _ => None,
        }
    }

    /// The text of a string document.
    pub fn as_text(&self) -> (r: Option<&String>)
        ensures
            match r {
                Some(t) => as_text(self@) == Some(t@),
                None => as_text(self@) is None,
            },
    {
        match self {
            Json::Text(t) => Some(t),
            _ => None,
        }
    }

    /// The member `key`, where it is a string.
    pub fn get_text(&self, key: &str) -> (r: Option<String>)
        ensures
            opt_text(r) == text_member(self@, key@),
    {
        match self.get(key) {
            Some(Json::Text(t)) => Some(owned(t.as_str())),
            _ => None,
        }
    }

    /// The member `key`, where it is a string that is not empty.
    pub fn get_filled(&self, key: &str) -> (r: Option<String>)
        ensures
            opt_text(r) == filled_member(self@, key@),
    {
        match self.get_text(key) {
            Some(t) => if t.as_str().is_empty() {
                None
            } else {
                Some(t)
            },
            None => None,
        }
    }

    /// The member `key`, where it is a number that fits a `u64`.
    pub fn get_number(&self, key: &str) -> (r: Option<u64>)
        ensures
            r == number_member(self@, key@),
    {
        match self.get(key) {
            Some(Json::Number(n, _)) => *n,
            _ => None,
        }
    }

    /// Whether the document is an object.
    pub fn is_object(&self) -> (r: bool)
        ensures
            r == (self@ is Object),
    {
        match self {
            Json::Object(_) => true,
            _ => false,
        }
    }
}

// ---------------------------------------------------------------------------
// Parsing and writing
// ---------------------------------------------------------------------------

/// A parsed document of the `serde_json` crate.
#[verifier::external_type_specification]
#[verifier::external_body]
pub struct ExValue(serde_json::Value);

/// What a parsed document holds.
pub uninterp spec fn value_tree(value: serde_json::Value) -> Tree;

/// What `serde_json::from_str` makes of a text: a document, or the error's text.
pub uninterp spec fn json_parse(text: Seq<char>) -> Result<Tree, Seq<char>>;

/// How `serde_json::to_string` writes a document.
pub uninterp spec fn json_text(tree: Tree) -> Option<Seq<char>>;

/// What `serde_json::from_str` makes of a text that is read as an array of
/// strings; `None` where it is none.
pub uninterp spec fn json_strings(text: Seq<char>) -> Option<Seq<Seq<char>>>;

/// How `serde_json::to_string` writes a list of strings.
pub uninterp spec fn json_strings_text(items: Seq<Seq<char>>) -> Option<Seq<char>>;

/// How `serde_json::to_string` writes an object whose members are strings.
pub uninterp spec fn json_object_text(fields: Seq<(Seq<char>, Seq<char>)>) -> Option<Seq<char>>;

/// One level of a parsed document.
pub(crate) enum Node<'a> {
    Null,
    Bool(bool),
    Number(Option<u64>, String),
    Text(String),
    List(Vec<&'a serde_json::Value>),
    Object(Vec<(String, &'a serde_json::Value)>),
}

/// The document whose top level is `node`.
pub(crate) open spec fn node_tree(node: Node) -> Tree {
    match node {
        Node::Null => Tree::Null,
        Node::Bool(b) => Tree::Bool(b),
        Node::Number(n, t) => Tree::Number(n, t@),
        Node::Text(t) => Tree::Text(t@),
        Node::List(items) => Tree::List(Seq::new(items@.len(), |i: int| value_tree(*items@[i]))),
        Node::Object(fields) => Tree::Object(
            Seq::new(fields@.len(), |i: int| (fields@[i].0@, value_tree(*fields@[i].1))),
        ),
    }
}

/// `serde_json::from_str` into a `serde_json::Value`.
#[verifier::external_body]
pub(crate) fn parse_value(text: &str) -> (r: Result<serde_json::Value, String>)
    ensures
        match r {
            Ok(v) => json_parse(text@) == Ok::<Tree, Seq<char>>(value_tree(v)),
            Err(message) => json_parse(text@) == Err::<Tree, Seq<char>>(message@),
        },
{
    serde_json::from_str::<serde_json::Value>(text).map_err(|e| e.to_string())
}

/// The variants of `serde_json::Value`, one level deep; a number is read with
/// `serde_json::Number::as_u64` and written with its `Display`.
#[verifier::external_body]
pub(crate) fn open_value<'a>(value: &'a serde_json::Value) -> (r: Node<'a>)
    ensures
        node_tree(r) == value_tree(*value),
{
    match value {
        serde_json::Value::Null => Node::Null,
        serde_json::Value::Bool(b) => Node::Bool(*b),
        serde_json::Value::Number(n) => Node::Number(n.as_u64(), n.to_string()),
        serde_json::Value::String(s) => Node::Text(s.clone()),
        serde_json::Value::Array(items) => Node::List(items.iter().collect()),
        serde_json::Value::Object(map) => Node::Object(
            map.iter().map(|(k, v)| (k.clone(), v)).collect(),
        ),
    }
}

/// `serde_json::to_string` of a document, which always succeeds.
#[verifier::external_body]
pub(crate) fn write_value(value: &serde_json::Value) -> (r: Option<String>)
    ensures
        r is Some,
        opt_text(r) == json_text(value_tree(*value)),
{
    serde_json::to_string(value).ok()
}

/// `serde_json::from_str` into a list of strings.
#[verifier::external_body]
pub(crate) fn parse_strings(text: &str) -> (r: Option<Vec<String>>)
    ensures
        match r {
            Some(v) => json_strings(text@) == Some(texts(v@)),
            None => json_strings(text@) is None,
        },
{
    serde_json::from_str::<Vec<String>>(text).ok()
}

/// `serde_json::to_string` of a list of strings, which always succeeds; reading
/// the text back gives the same list.
#[verifier::external_body]
pub(crate) fn write_strings(items: &Vec<String>) -> (r: Option<String>)
    ensures
        r is Some,
        opt_text(r) == json_strings_text(texts(items@)),
        json_strings(r->0@) == Some(texts(items@)),
{
    serde_json::to_string(items).ok()
}

/// `serde_json::to_string` of an object with string members, which always
/// succeeds.
#[verifier::external_body]
pub(crate) fn write_string_object(fields: Vec<(String, String)>) -> (r: Option<String>)
    ensures
        r is Some,
        opt_text(r) == json_object_text(text_pairs(fields@)),
{
    let map: serde_json::Map<String, serde_json::Value> = fields.into_iter().map(
        |(k, v)| (k, serde_json::Value::String(v)),
    ).collect();
    serde_json::to_string(&map).ok()
}

/// The library's copy of a parsed document.
pub(crate) fn copy_value(value: &serde_json::Value) -> (r: Json)
    ensures
        r@ == value_tree(*value),
    decreases value_tree(*value),
{
    let ghost tree = value_tree(*value);
    match open_value(value) {
        Node::Null => Json::Null,
        Node::Bool(b) => Json::Bool(b),
        Node::Number(n, t) => Json::Number(n, t),
        Node::Text(t) => Json::Text(t),
        Node::List(items) => {
            let mut out: Vec<Json> = Vec::new();
            let mut i: usize = 0;
            let ghost all = tree->List_0;
            while i < items.len()
                invariant
                    i <= items@.len(),
                    out@.len() == i,
                    tree == value_tree(*value),
                    tree == Tree::List(all),
                    all.len() == items@.len(),
                    forall|k: int| 0 <= k < all.len() ==> #[trigger] all[k] == value_tree(*items@[k]),
                    forall|k: int| 0 <= k < i ==> (#[trigger] out@[k])@ == all[k],
                decreases items.len() - i,
            {
                assert(all[i as int] == value_tree(*items@[i as int]));
                assert(decreases_to!(all => all[i as int]));
                assert(decreases_to!(tree => tree->List_0));
                out.push(copy_value(items[i]));
                i = i + 1;
            }
            let r = Json::List(out);
            assert(r@->List_0 =~= all);
            r
        },
        Node::Object(fields) => {
            let mut out: Vec<(String, Json)> = Vec::new();
            let mut i: usize = 0;
            let ghost all = tree->Object_0;
            while i < fields.len()
                invariant
                    i <= fields@.len(),
                    out@.len() == i,
                    tree == value_tree(*value),
                    tree == Tree::Object(all),
                    all.len() == fields@.len(),
                    forall|k: int|
                        0 <= k < all.len() ==> #[trigger] all[k] == (
                            fields@[k].0@,
                            value_tree(*fields@[k].1),
                        ),
                    forall|k: int|
                        0 <= k < i ==> (#[trigger] out@[k]).0@ == all[k].0 && out@[k].1@ == all[k].1,
                decreases fields.len() - i,
            {
                assert(all[i as int].1 == value_tree(*fields@[i as int].1));
                assert(decreases_to!(all => all[i as int]));
                assert(decreases_to!(tree => tree->Object_0));
                assert(decreases_to!(all[i as int] => all[i as int].1));
                let name = owned(fields[i].0.as_str());
                out.push((name, copy_value(fields[i].1)));
                i = i + 1;
            }
            let r = Json::Object(out);
            assert(r@->Object_0 =~= all);
            r
        },
    }
}

/// Parses a document; an error carries the parser's message.
pub fn parse_json(text: &str) -> (r: Result<Json, String>)
    ensures
        match r {
            Ok(v) => json_parse(text@) == Ok::<Tree, Seq<char>>(v@),
            Err(message) => json_parse(text@) == Err::<Tree, Seq<char>>(message@),
        },
{
    match parse_value(text) {
        Ok(v) => Ok(copy_value(&v)),
        Err(message) => Err(message),
    }
}

} // verus!
