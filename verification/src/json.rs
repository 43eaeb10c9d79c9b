//! JSON documents, and their bridge to `serde_json`.

use vstd::prelude::*;
use crate::text::same_text;

verus! {

/// A JSON document.
#[derive(Debug)]
pub enum Json {
    Null,
    Bool(bool),
    /// A number, by its JSON text.
    Number(String),
    Text(String),
    Array(Vec<Json>),
    Object(Vec<(String, Json)>),
}

/// What a JSON document says.
pub enum JsonView {
    Null,
    Bool(bool),
    Number(Seq<char>),
    Text(Seq<char>),
    Array(Seq<JsonView>),
    Object(Seq<(Seq<char>, JsonView)>),
}

impl Json {
    pub open spec fn view(&self) -> JsonView
        decreases self,
    {
        match self {
            Json::Null => JsonView::Null,
            Json::Bool(b) => JsonView::Bool(*b),
            Json::Number(n) => JsonView::Number(n@),
            Json::Text(s) => JsonView::Text(s@),
            Json::Array(items) => JsonView::Array(
                Seq::new(
                    items@.len(),
                    |i: int|
                        if 0 <= i < items@.len() {
                            items@[i].view()
                        } else {
                            JsonView::Null
                        },
                ),
            ),
            Json::Object(entries) => JsonView::Object(
                Seq::new(
                    entries@.len(),
                    |i: int|
                        if 0 <= i < entries@.len() {
                            (entries@[i].0@, entries@[i].1.view())
                        } else {
                            (Seq::empty(), JsonView::Null)
                        },
                ),
            ),
        }
    }
}

/// The value of the first entry whose key is `key`.
pub open spec fn lookup(entries: Seq<(Seq<char>, JsonView)>, key: Seq<char>) -> Option<JsonView>
    decreases entries.len(),
{
    if entries.len() == 0 {
        None
    } else if entries[0].0 == key {
        Some(entries[0].1)
    } else {
        lookup(entries.drop_first(), key)
    }
}

impl JsonView {
    /// The member `key` of an object; other documents have no members.
    pub open spec fn get(self, key: Seq<char>) -> Option<JsonView> {
        match self {
            JsonView::Object(entries) => lookup(entries, key),
            _ => None,
        }
    }

    pub open spec fn as_text(self) -> Option<Seq<char>> {
        match self {
            JsonView::Text(s) => Some(s),
            _ => None,
        }
    }

    pub open spec fn as_bool(self) -> Option<bool> {
        match self {
            JsonView::Bool(b) => Some(b),
            _ => None,
        }
    }

    pub open spec fn as_array(self) -> Option<Seq<JsonView>> {
        match self {
            JsonView::Array(items) => Some(items),
            _ => None,
        }
    }

    /// The member `key`, where it is there and is a string.
    pub open spec fn text_at(self, key: Seq<char>) -> Option<Seq<char>> {
        match self.get(key) {
            Some(v) => v.as_text(),
            None => None,
        }
    }
}

impl Json {
    /// The member `key` of an object.
    pub fn get(&self, key: &str) -> (r: Option<&Json>)
        ensures
            match r {
                Some(v) => self@.get(key@) == Some(v@),
                None => self@.get(key@) is None,
            },
    {
        match self {
            Json::Object(entries) => {
                let ghost all = self@->Object_0;
                let mut i: usize = 0;
                assert(all.skip(0) == all);
                while i < entries.len()
                    invariant
                        i <= entries@.len(),
                        self@ == JsonView::Object(all),
                        all.len() == entries@.len(),
                        forall|j: int| 0 <= j < all.len() ==>
                            all[j] == (entries@[j].0@, (#[trigger] entries@[j]).1@),
                        lookup(all, key@) == lookup(all.skip(i as int), key@),
                    decreases entries@.len() - i,
                {
                    assert(all.skip(i as int)[0] == all[i as int]);
                    assert(entries@[i as int].0@ == all[i as int].0);
                    if same_text(entries[i].0.as_str(), key) {
                        return Some(&entries[i].1);
                    }
                    assert(all.skip(i as int).drop_first() == all.skip(i + 1));
                    i += 1;
                }
                None
            },
            _ => None,
        }
    }

    /// The text of a string document.
    pub fn as_text(&self) -> (r: Option<&String>)
        ensures
            match r {
                Some(s) => self@.as_text() == Some(s@),
                None => self@.as_text() is None,
            },
    {
        match self {
            Json::Text(s) => Some(s),
            _ => None,
        }
    }

    /// The value of a boolean document.
    pub fn as_bool(&self) -> (r: Option<bool>)
        ensures
            r == self@.as_bool(),
    {
        match self {
            Json::Bool(b) => Some(*b),
            _ => None,
        }
    }

    /// The items of an array.
    pub fn as_array(&self) -> (r: Option<&Vec<Json>>)
        ensures
            match r {
                Some(items) => self@.as_array() == Some(views(items@)),
                None => self@.as_array() is None,
            },
    {
        match self {
            Json::Array(items) => {
                assert(self@->Array_0 =~= views(items@));
                Some(items)
            },
            _ => None,
        }
    }

    /// The member `key`, where it is there and is a string.
    pub fn text_at(&self, key: &str) -> (r: Option<&String>)
        ensures
            match r {
                Some(s) => self@.text_at(key@) == Some(s@),
                None => self@.text_at(key@) is None,
            },
    {
        match self.get(key) {
            Some(v) => v.as_text(),
            None => None,
        }
    }

    /// A document that says the same.
    pub fn copy(&self) -> (r: Json)
        ensures
            r@ == self@,
        decreases self,
    {
        match self {
            Json::Null => Json::Null,
            Json::Bool(b) => Json::Bool(*b),
            Json::Number(n) => Json::Number(n.clone()),
            Json::Text(s) => Json::Text(s.clone()),
            Json::Array(items) => {
                let mut out: Vec<Json> = Vec::new();
                let mut i: usize = 0;
                while i < items.len()
                    invariant
                        i <= items@.len(),
                        *self == Json::Array(*items),
                        out@.len() == i,
                        forall|j: int| 0 <= j < i ==> (#[trigger] out@[j])@ == items@[j]@,
                    decreases items@.len() - i,
                {
                    assert(decreases_to!(*self => self->Array_0));
                    assert(decreases_to!(*items => items[i as int]));
                    let item = items[i].copy();
                    out.push(item);
                    i += 1;
                }
                let r = Json::Array(out);
                assert(r@->Array_0 =~= self@->Array_0);
                r
            },
            Json::Object(entries) => {
                let mut out: Vec<(String, Json)> = Vec::new();
                let mut i: usize = 0;
                while i < entries.len()
                    invariant
                        i <= entries@.len(),
                        *self == Json::Object(*entries),
                        out@.len() == i,
                        forall|j: int| 0 <= j < i ==> (#[trigger] out@[j]).0@ == entries@[j].0@
                            && out@[j].1@ == entries@[j].1@,
                    decreases entries@.len() - i,
                {
                    assert(decreases_to!(*self => self->Object_0));
                    assert(decreases_to!(*entries => entries[i as int]));
                    assert(decreases_to!(entries[i as int] => entries[i as int].1));
                    let item = entries[i].1.copy();
                    out.push((entries[i].0.clone(), item));
                    i += 1;
                }
                let r = Json::Object(out);
                assert(r@->Object_0 =~= self@->Object_0);
                r
            },
        }
    }
}

/// The views of a list of documents, in order.
pub open spec fn views(items: Seq<Json>) -> Seq<JsonView> {
    items.map_values(|j: Json| j@)
}

/// `serde_json::Value`, a JSON document as `serde_json` holds it.
#[verifier::external_type_specification]
#[verifier::external_body]
pub struct ExValue(serde_json::Value);

/// `serde_json::Error`, why a text is not JSON.
#[verifier::external_type_specification]
#[verifier::external_body]
pub struct ExJsonError(serde_json::Error);

/// What a `serde_json::Value` holds: its kind and its parts. An object is the
/// list of its members in the order in which its map walks them; a number is
/// its text.
pub uninterp spec fn value_view(v: serde_json::Value) -> JsonView;

/// The document that `serde_json::from_str` reads from a text; none where it
/// returns an error.
pub uninterp spec fn parsed_json(text: Seq<char>) -> Option<JsonView>;

/// `serde_json::from_str` at the type `serde_json::Value`: the text is either
/// refused or read as one document, and which of the two, and which document,
/// is settled by the text.
#[verifier::external_body]
fn read_value(text: &str) -> (r: Result<serde_json::Value, serde_json::Error>)
    ensures
        match r {
            Ok(v) => parsed_json(text@) == Some(value_view(v)),
            Err(_) => parsed_json(text@) is None,
        },
{
    serde_json::from_str(text)
}

/// One layer of a `serde_json::Value`.
enum Node<'a> {
    Null,
    Bool(bool),
    Number(String),
    Text(String),
    Array(&'a Vec<serde_json::Value>),
    Object(Vec<(&'a String, &'a serde_json::Value)>),
}

impl<'a> Node<'a> {
    spec fn document(self) -> JsonView {
        match self {
            Node::Null => JsonView::Null,
            Node::Bool(b) => JsonView::Bool(b),
            Node::Number(n) => JsonView::Number(n@),
            Node::Text(s) => JsonView::Text(s@),
            Node::Array(items) => JsonView::Array(
                items@.map_values(|v: serde_json::Value| value_view(v)),
            ),
            Node::Object(entries) => JsonView::Object(
                entries@.map_values(
                    |e: (&String, &serde_json::Value)| (e.0@, value_view(*e.1)),
                ),
            ),
        }
    }
}

/// The six variants of `serde_json::Value`, told apart: the parts that come
/// out are the parts that the value holds, `Number` by its text and `Object`
/// by the entries of its map.
#[verifier::external_body]
fn open_value<'a>(v: &'a serde_json::Value) -> (node: Node<'a>)
    ensures
        node.document() == value_view(*v),
{
    match v {
        serde_json::Value::Null => Node::Null,
        serde_json::Value::Bool(b) => Node::Bool(*b),
        serde_json::Value::Number(n) => Node::Number(n.to_string()),
        serde_json::Value::String(s) => Node::Text(s.clone()),
        serde_json::Value::Array(items) => Node::Array(items),
        serde_json::Value::Object(members) => Node::Object(members.iter().collect()),
    }
}

/// The document that `v` holds.
pub fn json_of(v: &serde_json::Value) -> (j: Json)
    ensures
        j@ == value_view(*v),
    decreases value_view(*v),
{
    match open_value(v) {
        Node::Null => Json::Null,
        Node::Bool(b) => Json::Bool(b),
        Node::Number(n) => Json::Number(n),
        Node::Text(s) => Json::Text(s),
        Node::Array(items) => {
            let ghost parts = value_view(*v)->Array_0;
            let mut out: Vec<Json> = Vec::new();
            let mut i: usize = 0;
            while i < items.len()
                invariant
                    i <= items@.len(),
                    value_view(*v) == JsonView::Array(parts),
                    parts == items@.map_values(|v: serde_json::Value| value_view(v)),
                    out@.len() == i,
                    forall|k: int| 0 <= k < i ==> (#[trigger] out@[k])@ == parts[k],
                decreases items@.len() - i,
            {
                assert(parts[i as int] == value_view(items@[i as int]));
                assert(decreases_to!(value_view(*v) => value_view(*v)->Array_0));
                assert(decreases_to!(parts => parts[i as int]));
                let item = json_of(&items[i]);
                out.push(item);
                i += 1;
            }
            let j = Json::Array(out);
            assert(j@->Array_0 =~= parts);
            j
        },
        Node::Object(entries) => {
            let ghost parts = value_view(*v)->Object_0;
            let mut out: Vec<(String, Json)> = Vec::new();
            let mut i: usize = 0;
            while i < entries.len()
                invariant
                    i <= entries@.len(),
                    value_view(*v) == JsonView::Object(parts),
                    parts == entries@.map_values(
                        |e: (&String, &serde_json::Value)| (e.0@, value_view(*e.1)),
                    ),
                    out@.len() == i,
                    forall|k: int| 0 <= k < i ==> ((#[trigger] out@[k]).0@, out@[k].1@) == parts[k],
                decreases entries@.len() - i,
            {
                assert(parts[i as int] == (entries@[i as int].0@, value_view(*entries@[i as int].1)));
                assert(decreases_to!(value_view(*v) => value_view(*v)->Object_0));
                assert(decreases_to!(parts => parts[i as int]));
                assert(decreases_to!(parts[i as int] => parts[i as int].1));
                let item = json_of(entries[i].1);
                out.push((entries[i].0.clone(), item));
                i += 1;
            }
            let j = Json::Object(out);
            assert(j@->Object_0 =~= parts);
            j
        },
    }
}

/// Reads `text` as one JSON document.
pub fn parse_json(text: &str) -> (r: Result<Json, serde_json::Error>)
    ensures
        match r {
            Ok(j) => parsed_json(text@) == Some(j@),
            Err(_) => parsed_json(text@) is None,
        },
{
    match read_value(text) {
        Ok(v) => Ok(json_of(&v)),
        Err(e) => Err(e),
    }
}

/// A document says what it holds: a leaf its value, an array its items and an
/// object its members, in order.
pub proof fn law_document_says_what_it_holds(doc: Json)
    ensures
        match doc {
            Json::Null => doc@ == JsonView::Null,
            Json::Bool(b) => doc@ == JsonView::Bool(b),
            Json::Number(n) => doc@ == JsonView::Number(n@),
            Json::Text(s) => doc@ == JsonView::Text(s@),
            Json::Array(items) => doc@ is Array && doc@->Array_0.len() == items@.len() && forall|
                i: int,
            |
                0 <= i < items@.len() ==> #[trigger] doc@->Array_0[i] == items@[i]@,
            Json::Object(entries) => doc@ is Object && doc@->Object_0.len() == entries@.len()
                && forall|i: int|
                0 <= i < entries@.len() ==> #[trigger] doc@->Object_0[i] == (
                    entries@[i].0@,
                    entries@[i].1@,
                ),
        },
{
}

/// The member of a key is the value of the first entry with that key, and there
/// is one exactly where there is such an entry. Other documents have no members.
pub proof fn law_member_is_the_first_of_its_key(doc: JsonView, key: Seq<char>)
    ensures
        !(doc is Object) ==> doc.get(key) is None,
        doc matches JsonView::Object(entries) ==> match doc.get(key) {
            Some(value) => exists|i: int|
                0 <= i < entries.len() && #[trigger] entries[i] == (key, value) && forall|j: int|
                    0 <= j < i ==> (#[trigger] entries[j]).0 != key,
            None => forall|i: int| 0 <= i < entries.len() ==> (#[trigger] entries[i]).0 != key,
        },
{
    if let JsonView::Object(entries) = doc {
        lemma_lookup(entries, key);
    }
}

proof fn lemma_lookup(entries: Seq<(Seq<char>, JsonView)>, key: Seq<char>)
    ensures
        match lookup(entries, key) {
            Some(value) => exists|i: int|
                0 <= i < entries.len() && #[trigger] entries[i] == (key, value) && forall|j: int|
                    0 <= j < i ==> (#[trigger] entries[j]).0 != key,
            None => forall|i: int| 0 <= i < entries.len() ==> (#[trigger] entries[i]).0 != key,
        },
    decreases entries.len(),
{
    if entries.len() > 0 {
        if entries[0].0 == key {
            assert(entries[0] == (key, entries[0].1));
        } else {
            let rest = entries.drop_first();
            lemma_lookup(rest, key);
            match lookup(rest, key) {
                Some(value) => {
                    let i = choose|i: int|
                        0 <= i < rest.len() && #[trigger] rest[i] == (key, value) && forall|j: int|
                            0 <= j < i ==> (#[trigger] rest[j]).0 != key;
                    assert(entries[i + 1] == (key, value));
                    assert forall|j: int| 0 <= j < i + 1 implies (#[trigger] entries[j]).0
                        != key by {
                        if j > 0 {
                            assert(rest[j - 1] == entries[j]);
                        }
                    }
                },
                None => {
                    assert forall|i: int| 0 <= i < entries.len() implies (#[trigger] entries[i]).0
                        != key by {
                        if i > 0 {
                            assert(rest[i - 1] == entries[i]);
                        }
                    }
                },
            }
        }
    }
}

/// Only a string has a text, only a boolean a truth value and only an array
/// items; the text of a member is that of a member that is a string.
pub proof fn law_kinds_are_told_apart(doc: JsonView, key: Seq<char>)
    ensures
        doc.as_text() is Some <==> doc is Text,
        doc is Text ==> doc.as_text()->0 == doc->Text_0,
        doc.as_bool() is Some <==> doc is Bool,
        doc is Bool ==> doc.as_bool()->0 == doc->Bool_0,
        doc.as_array() is Some <==> doc is Array,
        doc is Array ==> doc.as_array()->0 == doc->Array_0,
        doc.text_at(key) is Some <==> doc.get(key) is Some && doc.get(key)->0 is Text,
        doc.text_at(key) is Some ==> doc.get(key)->0 == JsonView::Text(doc.text_at(key)->0),
{
}

} // verus!
