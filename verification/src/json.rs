//! A JSON document as a tree of plain values. Reading a document from text
//! and writing it as text is the work of `serde_json`.

use vstd::prelude::*;
use vstd::string::*;
use crate::keyed::{position_of, value_of, with_entry};
use crate::number::{decimal, to_decimal};

verus! {

/// A JSON document. A number is kept as its text; the members of an object
/// are kept as a list, in which a name is looked up from the front.
#[derive(Debug)]
pub enum Json {
    Null,
    Bool(bool),
    Number(String),
    Text(String),
    Array(Vec<Json>),
    Object(Vec<Member>),
}

/// A member of a JSON object.
#[derive(Debug)]
pub struct Member {
    pub name: String,
    pub value: Json,
}

/// The mathematical value of a JSON document.
pub enum JsonModel {
    Null,
    Bool(bool),
    Number(Seq<char>),
    Text(Seq<char>),
    Array(Seq<JsonModel>),
    Object(Seq<(Seq<char>, JsonModel)>),
}

impl Json {
    /// The mathematical value of the document.
    pub open spec fn model(self) -> JsonModel
        decreases self,
    {
        match self {
            Json::Null => JsonModel::Null,
            Json::Bool(b) => JsonModel::Bool(b),
            Json::Number(n) => JsonModel::Number(n@),
            Json::Text(s) => JsonModel::Text(s@),
            Json::Array(items) => JsonModel::Array(
                Seq::new(
                    items@.len(),
                    |i: int|
                        if 0 <= i < items@.len() {
                            items@[i].model()
                        } else {
                            JsonModel::Null
                        },
                ),
            ),
            Json::Object(members) => JsonModel::Object(
                Seq::new(
                    members@.len(),
                    |i: int|
                        if 0 <= i < members@.len() {
                            (members@[i].name@, members@[i].value.model())
                        } else {
                            (Seq::empty(), JsonModel::Null)
                        },
                ),
            ),
        }
    }
}

impl View for Json {
    type V = JsonModel;

    open spec fn view(&self) -> JsonModel {
        self.model()
    }
}

/// The values of a list of documents.
pub open spec fn item_views(items: Seq<Json>) -> Seq<JsonModel> {
    Seq::new(items.len(), |i: int| items[i]@)
}

/// The values of a list of members.
pub open spec fn member_views(members: Seq<Member>) -> Seq<(Seq<char>, JsonModel)> {
    Seq::new(members.len(), |i: int| (members[i].name@, members[i].value@))
}

/// The value of an array is the array of its items' values, and that of an
/// object the list of its members' names and values.
pub proof fn lemma_json_view(j: Json)
    ensures
        j matches Json::Array(items) ==> j@ == JsonModel::Array(item_views(items@)),
        j matches Json::Object(members) ==> j@ == JsonModel::Object(member_views(members@)),
{
    match j {
        Json::Array(items) => {
            assert(j@->Array_0 =~= item_views(items@));
        },
        Json::Object(members) => {
            match j@ {
                JsonModel::Object(left) => {
                    assert(left =~= member_views(members@));
                },
                _ => {},
            }
        },
        _ => {},
    }
}

impl JsonModel {
    /// The member called `name` of an object; `None` for another document,
    /// or where the object has no such member.
    pub open spec fn member(self, name: Seq<char>) -> Option<JsonModel> {
        match self {
            JsonModel::Object(members) => value_of(members, name),
            _ => None,
        }
    }

    /// The object once its member `name` is given `value`; another document
    /// is left as it is.
    pub open spec fn with_member(self, name: Seq<char>, value: JsonModel) -> JsonModel {
        match self {
            JsonModel::Object(members) => JsonModel::Object(with_entry(members, name, value)),
            _ => self,
        }
    }

    /// The text that a document of text holds.
    pub open spec fn text(self) -> Option<Seq<char>> {
        match self {
            JsonModel::Text(s) => Some(s),
            _ => None,
        }
    }
}

/// What `serde_json` reads from a text: the document, or, where the text is
/// not JSON, what its error says.
pub uninterp spec fn json_parsed(text: Seq<char>) -> Result<JsonModel, Seq<char>>;

/// The text that `serde_json` writes for a document, without white space.
pub uninterp spec fn json_text(document: JsonModel) -> Seq<char>;

/// The text that `serde_json` writes for a document, indented.
pub uninterp spec fn json_pretty_text(document: JsonModel) -> Seq<char>;

#[verifier::external_type_specification]
#[verifier::external_body]
pub struct ExValue(serde_json::Value);

/// Turns a `serde_json::Value` into a tree, variant by variant: a number
/// becomes its text, an object the list of its members in the order in which
/// the value holds them.
#[verifier::external_body]
fn tree_of(v: serde_json::Value) -> Json {
    match v {
        serde_json::Value::Null => Json::Null,
        serde_json::Value::Bool(b) => Json::Bool(b),
        serde_json::Value::Number(n) => Json::Number(n.to_string()),
        serde_json::Value::String(s) => Json::Text(s),
        serde_json::Value::Array(a) => Json::Array(a.into_iter().map(tree_of).collect()),
        serde_json::Value::Object(o) => Json::Object(
            o.into_iter().map(|(k, x)| Member { name: k, value: tree_of(x) }).collect(),
        ),
    }
}

/// Turns a tree into a `serde_json::Value`, variant by variant. A number is
/// read back from its text, as a float where it is no integer of 64 bits, and
/// is `null` where the text is no number; of two members with one name the
/// later one stays.
#[verifier::external_body]
fn value_from(j: &Json) -> serde_json::Value {
    match j {
        Json::Null => serde_json::Value::Null,
        Json::Bool(b) => serde_json::Value::Bool(*b),
        Json::Number(n) => match serde_json::from_str::<serde_json::Number>(n) {
            Ok(number) => serde_json::Value::Number(number),
            Err(_) => serde_json::Value::Null,
        },
        Json::Text(s) => serde_json::Value::String(s.clone()),
        Json::Array(a) => serde_json::Value::Array(a.iter().map(value_from).collect()),
        Json::Object(o) => serde_json::Value::Object(
            o.iter().map(|m| (m.name.clone(), value_from(&m.value))).collect(),
        ),
    }
}

/// The value of a document that was read, or of the error instead.
pub open spec fn read_json(r: Result<Json, String>) -> Result<JsonModel, Seq<char>> {
    match r {
        Ok(j) => Ok(j@),
        Err(why) => Err(why@),
    }
}

/// Calls `serde_json::from_str` for a `serde_json::Value`: the document that
/// the text holds, or the text of the error where the text is not JSON.
#[verifier::external_body]
fn parse(text: &str) -> (r: Result<Json, String>)
    ensures
        read_json(r) == json_parsed(text@),
{
    match serde_json::from_str::<serde_json::Value>(text) {
        Ok(v) => Ok(tree_of(v)),
        Err(why) => Err(why.to_string()),
    }
}

/// Calls `serde_json::Value`'s `to_string`: the document as text without
/// white space.
#[verifier::external_body]
fn render(j: &Json) -> (s: String)
    ensures
        s@ == json_text(j@),
{
    value_from(j).to_string()
}

/// Calls `serde_json::to_string_pretty`: the document as indented text.
#[verifier::external_body]
fn render_pretty(j: &Json) -> (s: String)
    ensures
        s@ == json_pretty_text(j@),
{
    match serde_json::to_string_pretty(&value_from(j)) {
        Ok(s) => s,
        Err(_) => String::new(),
    }
}

impl Json {
    /// Reads a document from text.
    pub fn from_text(text: &str) -> (r: Result<Json, String>)
        ensures
            read_json(r) == json_parsed(text@),
    {
        parse(text)
    }

    /// Writes the document as text without white space.
    pub fn to_text(&self) -> (s: String)
        ensures
            s@ == json_text(self@),
    {
        render(self)
    }

    /// Writes the document as indented text.
    pub fn to_pretty_text(&self) -> (s: String)
        ensures
            s@ == json_pretty_text(self@),
    {
        render_pretty(self)
    }

    /// The document that holds an integer.
    pub fn integer(n: i128) -> (j: Json)
        ensures
            j@ == JsonModel::Number(decimal(n as int)),
    {
        Json::Number(to_decimal(n))
    }

    /// The document that holds a text.
    pub fn text(s: &str) -> (j: Json)
        ensures
            j@ == JsonModel::Text(s@),
    {
        Json::Text(String::from_str(s))
    }

    /// The text that a document of text holds.
    pub fn as_text(&self) -> (r: Option<&String>)
        ensures
            match r {
                Some(s) => self@.text() == Some(s@),
                None => self@.text() is None,
            },
    {
        match self {
            Json::Text(s) => Some(s),
            _ => None,
        }
    }

    /// Gives the member `name` of an object the value `value`; another
    /// document is returned as it is.
    pub fn with_member(self, name: &str, value: Json) -> (r: Json)
        ensures
            r@ == self@.with_member(name@, value@),
    {
        proof {
            lemma_json_view(self);
        }
        match self {
            Json::Object(mut members) => {
                set_member(&mut members, name, value);
                let r = Json::Object(members);
                proof {
                    lemma_json_view(r);
                }
                r
            },
            other => other,
        }
    }

    /// The object without members.
    pub fn object() -> (r: Json)
        ensures
            r@ == JsonModel::Object(Seq::empty()),
    {
        let r = Json::Object(Vec::new());
        proof {
            lemma_json_view(r);
            assert(member_views(Seq::empty()) =~= Seq::empty());
        }
        r
    }

    /// The member called `name` of an object.
    pub fn get(&self, name: &str) -> (r: Option<&Json>)
        ensures
            match r {
                Some(j) => self@.member(name@) == Some(j@),
                None => self@.member(name@) is None,
            },
    {
        proof {
            lemma_json_view(*self);
        }
        match self {
            Json::Object(members) => {
                let i = find_member(members, name);
                if i < members.len() {
                    Some(&members[i].value)
                } else {
                    None
                }
            },
            _ => None,
        }
    }
}

/// The index of the first member called `name`, or the number of members
/// where none is.
pub fn find_member(members: &Vec<Member>, name: &str) -> (i: usize)
    ensures
        i == position_of(member_views(members@), name@),
        i <= members.len(),
{
    let key = String::from_str(name);
    let mut i: usize = 0;
    proof {
        assert(member_views(members@).subrange(0, members.len() as int) =~= member_views(
            members@,
        ));
    }
    while i < members.len()
        invariant
            i <= members.len(),
            key@ == name@,
            position_of(member_views(members@), name@) == i + position_of(
                member_views(members@).subrange(i as int, members.len() as int),
                name@,
            ),
        decreases members.len() - i,
    {
        let ghost rest = member_views(members@).subrange(i as int, members.len() as int);
        proof {
            assert(rest[0].0 == members@[i as int].name@);
            assert(rest.drop_first() == member_views(members@).subrange(
                i as int + 1,
                members.len() as int,
            ));
        }
        if members[i].name == key {
            return i;
        }
        i += 1;
    }
    proof {
        assert(member_views(members@).subrange(i as int, members.len() as int).len() == 0);
    }
    i
}

/// Gives the member `name` the value `value`: the first member of that name
/// takes it, or a new member joins at the end.
pub fn set_member(members: &mut Vec<Member>, name: &str, value: Json)
    ensures
        member_views(final(members)@) == with_entry(member_views(old(members)@), name@, value@),
{
    let i = find_member(members, name);
    let ghost before = member_views(members@);
    let key = String::from_str(name);
    if i < members.len() {
        members.set(i, Member { name: key, value });
        proof {
            assert(member_views(members@) =~= before.update(i as int, (name@, value@)));
        }
    } else {
        members.push(Member { name: key, value });
        proof {
            assert(member_views(members@) =~= before.push((name@, value@)));
        }
    }
}

/// A copy of a list of documents.
pub fn copy_items(items: &Vec<Json>) -> (r: Vec<Json>)
    ensures
        item_views(r@) == item_views(items@),
    decreases items,
{
    let mut r: Vec<Json> = Vec::new();
    let mut i: usize = 0;
    while i < items.len()
        invariant
            i <= items.len(),
            r.len() == i,
            forall|j: int| 0 <= j < i ==> (#[trigger] r@[j])@ == items@[j]@,
        decreases items.len() - i,
    {
        r.push(copy_json(&items[i]));
        i += 1;
    }
    proof {
        assert(item_views(r@) =~= item_views(items@));
    }
    r
}

/// A copy of a list of members.
pub fn copy_members(members: &Vec<Member>) -> (r: Vec<Member>)
    ensures
        member_views(r@) == member_views(members@),
    decreases members,
{
    let mut r: Vec<Member> = Vec::new();
    let mut i: usize = 0;
    while i < members.len()
        invariant
            i <= members.len(),
            r.len() == i,
            forall|j: int|
                0 <= j < i ==> (#[trigger] r@[j]).name@ == members@[j].name@ && r@[j].value@
                    == members@[j].value@,
        decreases members.len() - i,
    {
        r.push(Member { name: members[i].name.clone(), value: copy_json(&members[i].value) });
        i += 1;
    }
    proof {
        assert(member_views(r@) =~= member_views(members@));
    }
    r
}

/// A copy of a document.
pub fn copy_json(j: &Json) -> (r: Json)
    ensures
        r@ == j@,
    decreases j,
{
    proof {
        lemma_json_view(*j);
    }
    let r = match j {
        Json::Null => Json::Null,
        Json::Bool(b) => Json::Bool(*b),
        Json::Number(n) => Json::Number(n.clone()),
        Json::Text(s) => Json::Text(s.clone()),
        Json::Array(items) => Json::Array(copy_items(items)),
        Json::Object(members) => Json::Object(copy_members(members)),
    };
    proof {
        lemma_json_view(r);
    }
    r
}

} // verus!
