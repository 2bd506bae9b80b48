//! JSON values as the library holds them, the calls into `serde_json` that
//! read and write JSON text, and the accessors that the logic uses.

use crate::text::same_text;
use vstd::prelude::*;

verus! {

/// A JSON value as mathematics: what a `JsonValue` stands for.
pub enum Json {
    Null,
    Bool(bool),
    /// A number that is a non-negative integer below two to the sixty-fourth.
    Unsigned(u64),
    /// Any other number, by its decimal text.
    Decimal(Seq<char>),
    String(Seq<char>),
    Array(Seq<Json>),
    /// The members of an object, each a key and a value.
    Object(Seq<(Seq<char>, Json)>),
}

/// A JSON value. Numbers other than unsigned integers are kept by their
/// decimal text, so that they are written out as they were read.
#[derive(Debug, PartialEq)]
pub enum JsonValue {
    Null,
    Bool(bool),
    Unsigned(u64),
    Decimal(String),
    String(String),
    Array(Vec<JsonValue>),
    Object(Vec<(String, JsonValue)>),
}

/// What a value stands for.
pub open spec fn json_model(value: JsonValue) -> Json
    decreases value,
{
    match value {
        JsonValue::Null => Json::Null,
        JsonValue::Bool(b) => Json::Bool(b),
        JsonValue::Unsigned(n) => Json::Unsigned(n),
        JsonValue::Decimal(text) => Json::Decimal(text@),
        JsonValue::String(text) => Json::String(text@),
        JsonValue::Array(items) => Json::Array(
            Seq::new(
                items@.len(),
                |i: int|
                    if 0 <= i < items@.len() {
                        json_model(items@[i])
                    } else {
                        Json::Null
                    },
            ),
        ),
        JsonValue::Object(members) => Json::Object(
            Seq::new(
                members@.len(),
                |i: int|
                    if 0 <= i < members@.len() {
                        (members@[i].0@, json_model(members@[i].1))
                    } else {
                        (Seq::empty(), Json::Null)
                    },
            ),
        ),
    }
}

impl View for JsonValue {
    type V = Json;

    open spec fn view(&self) -> Json {
        json_model(*self)
    }
}

/// The index of the first member with the given key.
pub open spec fn member_index(members: Seq<(Seq<char>, Json)>, key: Seq<char>) -> Option<int>
    decreases members.len(),
{
    if members.len() == 0 {
        None
    } else if members[0].0 == key {
        Some(0)
    } else {
        match member_index(members.skip(1), key) {
            Some(i) => Some(i + 1),
            None => None,
        }
    }
}

impl Json {
    /// The value of the first member with the given key, where `self` is an
    /// object that has one.
    pub open spec fn member(self, key: Seq<char>) -> Option<Json> {
        match self {
            Json::Object(members) => match member_index(members, key) {
                Some(i) => Some(members[i].1),
                None => None,
            },
            _ => None,
        }
    }

    /// The characters of a string.
    pub open spec fn text(self) -> Option<Seq<char>> {
        match self {
            Json::String(text) => Some(text),
            _ => None,
        }
    }

    /// The value of an unsigned number.
    pub open spec fn unsigned(self) -> Option<u64> {
        match self {
            Json::Unsigned(n) => Some(n),
            _ => None,
        }
    }

    /// The value of a boolean.
    pub open spec fn boolean(self) -> Option<bool> {
        match self {
            Json::Bool(b) => Some(b),
            _ => None,
        }
    }

    /// The items of an array.
    pub open spec fn items(self) -> Option<Seq<Json>> {
        match self {
            Json::Array(items) => Some(items),
            _ => None,
        }
    }

    /// The members of an object.
    pub open spec fn members(self) -> Option<Seq<(Seq<char>, Json)>> {
        match self {
            Json::Object(members) => Some(members),
            _ => None,
        }
    }

    /// The text of the string member with the given key.
    pub open spec fn member_text(self, key: Seq<char>) -> Option<Seq<char>> {
        match self.member(key) {
            Some(value) => value.text(),
            None => None,
        }
    }
}

/// What a list of values stands for.
pub open spec fn items_view(items: Seq<JsonValue>) -> Seq<Json> {
    Seq::new(items.len(), |i: int| items[i]@)
}

/// What a list of members stands for.
pub open spec fn members_view(members: Seq<(String, JsonValue)>) -> Seq<(Seq<char>, Json)> {
    Seq::new(members.len(), |i: int| (members[i].0@, members[i].1@))
}

/// The index of the first member with the given key is the first index at
/// which the key stands.
pub proof fn lemma_member_index(members: Seq<(Seq<char>, Json)>, key: Seq<char>)
    ensures
        match member_index(members, key) {
            Some(i) => 0 <= i < members.len() && members[i].0 == key && forall|j: int|
                0 <= j < i ==> members[j].0 != key,
            None => forall|j: int| 0 <= j < members.len() ==> members[j].0 != key,
        },
    decreases members.len(),
{
    if members.len() > 0 && members[0].0 != key {
        let rest = members.skip(1);
        lemma_member_index(rest, key);
        match member_index(rest, key) {
            Some(i) => {
                assert forall|j: int| 0 <= j < i + 1 implies members[j].0 != key by {
                    if j > 0 {
                        assert(rest[j - 1].0 != key);
                    }
                }
            },
            None => {
                assert forall|j: int| 0 <= j < members.len() implies members[j].0 != key by {
                    if j > 0 {
                        assert(rest[j - 1].0 != key);
                    }
                }
            },
        }
    }
}

/// The first index at which the key stands is the index of the member.
pub proof fn lemma_member_index_is(members: Seq<(Seq<char>, Json)>, key: Seq<char>, at: int)
    requires
        0 <= at < members.len(),
        members[at].0 == key,
        forall|j: int| 0 <= j < at ==> members[j].0 != key,
    ensures
        member_index(members, key) == Some(at),
{
    lemma_member_index(members, key);
}

/// No index at which the key stands: no member.
pub proof fn lemma_member_index_none(members: Seq<(Seq<char>, Json)>, key: Seq<char>)
    requires
        forall|j: int| 0 <= j < members.len() ==> members[j].0 != key,
    ensures
        member_index(members, key) is None,
{
    lemma_member_index(members, key);
}

impl JsonValue {
    /// The value of the first member with the given key. `None` where `self`
    /// is no object or has no such member.
    pub fn get(&self, key: &str) -> (r: Option<&JsonValue>)
        ensures
            match r {
                Some(value) => self@.member(key@) == Some(value@),
                None => self@.member(key@) is None,
            },
    {
        match self {
            JsonValue::Object(members) => {
                let ghost model = self@->Object_0;
                let mut i: usize = 0;
                proof {
                    assert(*self == JsonValue::Object(*members));
                    assert(self@ is Object);
                    assert(model.len() == members@.len());
                }
                while i < members.len()
                    invariant
                        i <= members@.len(),
                        self@ == Json::Object(model),
                        model.len() == members@.len(),
                        forall|j: int|
                            0 <= j < members@.len() ==> model[j] == (
                                members@[j].0@,
                                members@[j].1@,
                            ),
                        forall|j: int| 0 <= j < i ==> model[j].0 != key@,
                    decreases members@.len() - i,
                {
                    if same_text(members[i].0.as_str(), key) {
                        proof {
                            assert(model[i as int] == (members@[i as int].0@, members@[i as int].1@));
                            lemma_member_index_is(model, key@, i as int);
                        }
                        return Some(&members[i].1);
                    }
                    i = i + 1;
                }
                proof {
                    lemma_member_index_none(model, key@);
                }
                None
            },
            _ => None,
        }
    }

    /// The text of a string; `None` for any other value.
    pub fn as_str(&self) -> (r: Option<&str>)
        ensures
            match r {
                Some(text) => self@.text() == Some(text@),
                None => self@.text() is None,
            },
    {
        match self {
            JsonValue::String(text) => Some(text.as_str()),
            _ => None,
        }
    }

    /// The value of an unsigned number; `None` for any other value.
    pub fn as_u64(&self) -> (r: Option<u64>)
        ensures
            r == self@.unsigned(),
    {
        match self {
            JsonValue::Unsigned(n) => Some(*n),
            _ => None,
        }
    }

    /// The value of a boolean; `None` for any other value.
    pub fn as_bool(&self) -> (r: Option<bool>)
        ensures
            r == self@.boolean(),
    {
        match self {
            JsonValue::Bool(b) => Some(*b),
            _ => None,
        }
    }

    /// The items of an array; `None` for any other value.
    pub fn as_array(&self) -> (r: Option<&Vec<JsonValue>>)
        ensures
            match r {
                Some(items) => self@.items() == Some(items_view(items@)),
                None => self@.items() is None,
            },
    {
        match self {
            JsonValue::Array(items) => {
                proof {
                    assert(self@->Array_0 =~= items_view(items@));
                }
                Some(items)
            },
            _ => None,
        }
    }

    /// The members of an object; `None` for any other value.
    pub fn as_object(&self) -> (r: Option<&Vec<(String, JsonValue)>>)
        ensures
            match r {
                Some(members) => self@.members() == Some(members_view(members@)),
                None => self@.members() is None,
            },
    {
        match self {
            JsonValue::Object(members) => {
                proof {
                    assert(self@->Object_0 =~= members_view(members@));
                }
                Some(members)
            },
            _ => None,
        }
    }

    /// The text of the string member with the given key; `None` where there
    /// is no such member or it is no string.
    pub fn get_str(&self, key: &str) -> (r: Option<&str>)
        ensures
            match r {
                Some(text) => self@.member_text(key@) == Some(text@),
                None => self@.member_text(key@) is None,
            },
    {
        match self.get(key) {
            Some(value) => value.as_str(),
            None => None,
        }
    }
}

/// `serde_json::Value`, taken as opaque: the library reads it only through
/// `value_model`.
#[verifier::external_type_specification]
#[verifier::external_body]
pub struct ExValue(serde_json::Value);

/// What a `serde_json::Value` holds: null, a boolean, a number (an unsigned
/// integer where it is one, else its decimal text as `serde_json` prints it),
/// a string, the items of an array in order, or the members of an object in
/// the order in which its map gives them.
pub uninterp spec fn value_model(value: serde_json::Value) -> Json;

/// What `serde_json` reads out of a text: the value, or nothing where the
/// text is not one JSON value.
pub uninterp spec fn json_parse(text: Seq<char>) -> Option<Json>;

/// The compact text that `serde_json` writes for one of its values.
pub uninterp spec fn value_text(value: serde_json::Value) -> Seq<char>;

/// The compact text that `serde_json` writes for a value of this library,
/// once it is handed over.
pub uninterp spec fn json_text(value: Json) -> Seq<char>;

/// `serde_json::from_str` at `serde_json::Value`: the value read, or `None`
/// where it reports an error.
#[verifier::external_body]
fn parse_value(text: &str) -> (r: Option<serde_json::Value>)
    ensures
        r matches Some(value) ==> json_parse(text@) == Some(value_model(value)),
        r is None ==> json_parse(text@) is None,
{
    serde_json::from_str::<serde_json::Value>(text).ok()
}

/// Takes a `serde_json::Value` apart, variant by variant, into a value of
/// this library that stands for the same JSON. A number is taken by
/// `Number::as_u64` where that gives one, else by the text that its `Display`
/// writes; the members of an object are taken as `Map::iter` gives them.
#[verifier::external_body]
fn from_value(value: &serde_json::Value) -> (r: JsonValue)
    ensures
        r@ == value_model(*value),
{
    match value {
        serde_json::Value::Null => JsonValue::Null,
        serde_json::Value::Bool(b) => JsonValue::Bool(*b),
        serde_json::Value::Number(n) => match n.as_u64() {
            Some(u) => JsonValue::Unsigned(u),
            None => JsonValue::Decimal(n.to_string()),
        },
        serde_json::Value::String(s) => JsonValue::String(s.clone()),
        serde_json::Value::Array(a) => JsonValue::Array(a.iter().map(from_value).collect()),
        serde_json::Value::Object(m) => JsonValue::Object(
            m.iter().map(|(k, v)| (k.clone(), from_value(v))).collect(),
        ),
    }
}

/// Builds the `serde_json::Value` for a value of this library, variant by
/// variant. An unsigned number goes through `Value::from`, a decimal text
/// through `Number::from_str`, and becomes null where that refuses it; the
/// members of an object are collected into a `serde_json::Map`, which keeps
/// one value per key. What is built, and so the text written for it, depends
/// on what the argument stands for and on nothing else.
#[verifier::external_body]
fn to_value(value: &JsonValue) -> (r: serde_json::Value)
    ensures
        value_text(r) == json_text(value@),
{
    match value {
        JsonValue::Null => serde_json::Value::Null,
        JsonValue::Bool(b) => serde_json::Value::Bool(*b),
        JsonValue::Unsigned(n) => serde_json::Value::from(*n),
        JsonValue::Decimal(t) => t.parse().map_or(serde_json::Value::Null, serde_json::Value::Number),
        JsonValue::String(s) => serde_json::Value::String(s.clone()),
        JsonValue::Array(a) => serde_json::Value::Array(a.iter().map(to_value).collect()),
        JsonValue::Object(m) => serde_json::Value::Object(
            m.iter().map(|(k, v)| (k.clone(), to_value(v))).collect(),
        ),
    }
}

/// `Display` of `serde_json::Value`: its compact text.
#[verifier::external_body]
fn value_to_string(value: &serde_json::Value) -> (s: String)
    ensures
        s@ == value_text(*value),
{
    value.to_string()
}

/// The members with one more: a member with the same key is replaced, else
/// the new member goes to the end.
pub open spec fn with_member(
    members: Seq<(Seq<char>, Json)>,
    key: Seq<char>,
    value: Json,
) -> Seq<(Seq<char>, Json)> {
    match member_index(members, key) {
        Some(i) => members.update(i, (key, value)),
        None => members.push((key, value)),
    }
}

/// After a member was put into a list, the list has a member with its key,
/// and still has a member with every key that it had.
pub proof fn lemma_with_member(
    members: Seq<(Seq<char>, Json)>,
    key: Seq<char>,
    value: Json,
    other: Seq<char>,
)
    ensures
        member_index(with_member(members, key, value), key) is Some,
        member_index(members, other) is Some ==> member_index(
            with_member(members, key, value),
            other,
        ) is Some,
{
    let after = with_member(members, key, value);
    lemma_member_index(members, key);
    lemma_member_index(members, other);
    lemma_member_index(after, key);
    lemma_member_index(after, other);
    match member_index(members, key) {
        Some(i) => {
            assert(after[i].0 == key);
            if member_index(members, other) is Some {
                let j = member_index(members, other)->0;
                assert(after[j].0 == other);
            }
        },
        None => {
            assert(after[members.len() as int].0 == key);
            if member_index(members, other) is Some {
                let j = member_index(members, other)->0;
                assert(after[j].0 == other);
            }
        },
    }
}

impl JsonValue {
    /// Reads one JSON value out of a text. `None` where the text is not one
    /// JSON value.
    pub fn parse(text: &str) -> (r: Option<JsonValue>)
        ensures
            match r {
                Some(value) => json_parse(text@) == Some(value@),
                None => json_parse(text@) is None,
            },
    {
        match parse_value(text) {
            Some(value) => Some(from_value(&value)),
            None => None,
        }
    }

    /// The compact JSON text of the value.
    pub fn to_text(&self) -> (s: String)
        ensures
            s@ == json_text(self@),
    {
        let value = to_value(self);
        value_to_string(&value)
    }

    /// An object made of the given members.
    pub fn object(members: Vec<(String, JsonValue)>) -> (r: JsonValue)
        ensures
            r@ == Json::Object(members_view(members@)),
    {
        let r = JsonValue::Object(members);
        proof {
            assert(r@->Object_0 =~= members_view(members@));
        }
        r
    }

    /// An array made of the given items.
    pub fn array(items: Vec<JsonValue>) -> (r: JsonValue)
        ensures
            r@ == Json::Array(items_view(items@)),
    {
        let r = JsonValue::Array(items);
        proof {
            assert(r@->Array_0 =~= items_view(items@));
        }
        r
    }

    /// A string with the given text.
    pub fn string(text: &str) -> (r: JsonValue)
        ensures
            r@ == Json::String(text@),
    {
        JsonValue::String(text.to_owned())
    }
}

impl JsonValue {
    /// A copy of the value.
    pub fn duplicate(&self) -> (copy: JsonValue)
        ensures
            copy@ == self@,
        decreases self,
    {
        match self {
            JsonValue::Null => JsonValue::Null,
            JsonValue::Bool(b) => JsonValue::Bool(*b),
            JsonValue::Unsigned(n) => JsonValue::Unsigned(*n),
            JsonValue::Decimal(text) => JsonValue::Decimal(text.clone()),
            JsonValue::String(text) => JsonValue::String(text.clone()),
            JsonValue::Array(items) => {
                let mut out: Vec<JsonValue> = Vec::new();
                let mut i: usize = 0;
                while i < items.len()
                    invariant
                        i <= items@.len(),
                        *self == JsonValue::Array(*items),
                        items_view(out@) == items_view(items@).take(i as int),
                    decreases items@.len() - i,
                {
                    proof {
                        vstd::std_specs::vec::axiom_vec_index_decreases(*items, i as int);
                        assert(decreases_to!(*self => self->Array_0));
                        assert(self->Array_0 == *items);
                        assert(decreases_to!(*items => items[i as int]));
                        assert(decreases_to!(*self => items[i as int]));
                    }
                    let item = items[i].duplicate();
                    let ghost before = items_view(out@);
                    out.push(item);
                    proof {
                        assert(items_view(out@) =~= before.push(item@));
                        assert(items_view(out@) =~= items_view(items@).take(i + 1));
                    }
                    i = i + 1;
                }
                proof {
                    assert(items_view(items@).take(items@.len() as int) =~= items_view(items@));
                    assert(self@->Array_0 =~= items_view(items@));
                }
                JsonValue::array(out)
            },
            JsonValue::Object(members) => {
                let mut out: Vec<(String, JsonValue)> = Vec::new();
                let mut i: usize = 0;
                while i < members.len()
                    invariant
                        i <= members@.len(),
                        *self == JsonValue::Object(*members),
                        members_view(out@) == members_view(members@).take(i as int),
                    decreases members@.len() - i,
                {
                    proof {
                        vstd::std_specs::vec::axiom_vec_index_decreases(*members, i as int);
                        assert(decreases_to!(*self => self->Object_0));
                        assert(self->Object_0 == *members);
                        assert(decreases_to!(*members => members[i as int]));
                        assert(decreases_to!(members[i as int] => members[i as int].1));
                        assert(decreases_to!(*self => members[i as int].1));
                    }
                    let value = members[i].1.duplicate();
                    let key = members[i].0.clone();
                    let ghost before = members_view(out@);
                    out.push((key, value));
                    proof {
                        assert(members_view(out@) =~= before.push((key@, value@)));
                        assert(members_view(out@) =~= members_view(members@).take(i + 1));
                    }
                    i = i + 1;
                }
                proof {
                    assert(members_view(members@).take(members@.len() as int) =~= members_view(
                        members@,
                    ));
                    assert(self@->Object_0 =~= members_view(members@));
                }
                JsonValue::object(out)
            },
        }
    }
}

/// Puts a member into a list of members: a member with the same key is
/// replaced, else the new member goes to the end.
pub fn insert_member(members: &mut Vec<(String, JsonValue)>, key: String, value: JsonValue)
    ensures
        members_view(final(members)@) == with_member(members_view(old(members)@), key@, value@),
{
    let ghost model = members_view(members@);
    let mut i: usize = 0;
    while i < members.len()
        invariant
            i <= members@.len(),
            members@ == old(members)@,
            model == members_view(members@),
            forall|j: int| 0 <= j < i ==> model[j].0 != key@,
        decreases members@.len() - i,
    {
        if same_text(members[i].0.as_str(), key.as_str()) {
            proof {
                assert(model[i as int].0 == key@);
                lemma_member_index_is(model, key@, i as int);
            }
            members[i] = (key, value);
            proof {
                assert(members_view(members@) =~= model.update(i as int, (key@, value@)));
            }
            return ;
        }
        i = i + 1;
    }
    proof {
        lemma_member_index_none(model, key@);
    }
    members.push((key, value));
    proof {
        assert(members_view(members@) =~= model.push((key@, value@)));
    }
}

/// Appends a member whose value is a string.
pub fn push_text(members: &mut Vec<(String, JsonValue)>, key: &str, text: &str)
    ensures
        members_view(final(members)@) == members_view(old(members)@).push(
            (key@, Json::String(text@)),
        ),
{
    members.push((key.to_owned(), JsonValue::String(text.to_owned())));
    proof {
        assert(members_view(members@) =~= members_view(old(members)@).push(
            (key@, Json::String(text@)),
        ));
    }
}

/// Appends a member whose value is an unsigned number.
pub fn push_number(members: &mut Vec<(String, JsonValue)>, key: &str, n: u64)
    ensures
        members_view(final(members)@) == members_view(old(members)@).push(
            (key@, Json::Unsigned(n)),
        ),
{
    members.push((key.to_owned(), JsonValue::Unsigned(n)));
    proof {
        assert(members_view(members@) =~= members_view(old(members)@).push(
            (key@, Json::Unsigned(n)),
        ));
    }
}

/// Appends a member with the given value.
pub fn push_member(members: &mut Vec<(String, JsonValue)>, key: &str, value: JsonValue)
    ensures
        members_view(final(members)@) == members_view(old(members)@).push((key@, value@)),
{
    members.push((key.to_owned(), value));
    proof {
        assert(members_view(members@) =~= members_view(old(members)@).push((key@, value@)));
    }
}

/// A list of members that holds none.
pub fn no_members() -> (members: Vec<(String, JsonValue)>)
    ensures
        members_view(members@) == Seq::<(Seq<char>, Json)>::empty(),
{
    let members: Vec<(String, JsonValue)> = Vec::new();
    proof {
        assert(members_view(members@) =~= Seq::<(Seq<char>, Json)>::empty());
    }
    members
}

} // verus!
