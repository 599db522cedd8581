//! JSON documents as values of the crate's own.
//!
//! A `Json` holds what a body or a template says; its view, a `JsonValue`, is
//! what contracts speak of. An object keeps its members in order and answers
//! a key with the first member under it.

use crate::text::{decimal, push_decimal, str_eq, text_of};
use serde_json::Value;
use vstd::prelude::*;

verus! {

/// A JSON number: whole and not negative, whole and negative, or any other,
/// kept as it is written. A `Decimal` is written back as the number that
/// its text reads as, and as `null` where its text is no number.
#[derive(Debug, PartialEq, Eq)]
pub enum Numeral {
    Unsigned(u64),
    Negative(i64),
    Decimal(String),
}

/// One member of an object.
#[derive(Debug, PartialEq, Eq)]
pub struct Member {
    pub key: String,
    pub value: Json,
}

#[derive(Debug, PartialEq, Eq)]
pub enum Json {
    Null,
    Bool(bool),
    Number(Numeral),
    Text(String),
    Array(Vec<Json>),
    Object(Vec<Member>),
}

pub ghost enum NumeralValue {
    Unsigned(u64),
    Negative(i64),
    Decimal(Seq<char>),
}

pub ghost struct MemberValue {
    pub key: Seq<char>,
    pub value: JsonValue,
}

pub ghost enum JsonValue {
    Null,
    Bool(bool),
    Number(NumeralValue),
    Text(Seq<char>),
    Array(Seq<JsonValue>),
    Object(Seq<MemberValue>),
}

impl View for Numeral {
    type V = NumeralValue;

    open spec fn view(&self) -> NumeralValue {
        match self {
            Numeral::Unsigned(n) => NumeralValue::Unsigned(*n),
            Numeral::Negative(n) => NumeralValue::Negative(*n),
            Numeral::Decimal(s) => NumeralValue::Decimal(s@),
        }
    }
}

/// What a document says.
pub open spec fn value_of(j: Json) -> JsonValue
    decreases j,
{
    match j {
        Json::Null => JsonValue::Null,
        Json::Bool(b) => JsonValue::Bool(b),
        Json::Number(n) => JsonValue::Number(n@),
        Json::Text(s) => JsonValue::Text(s@),
        Json::Array(items) => JsonValue::Array(
            Seq::new(
                items@.len(),
                |i: int|
                    if 0 <= i < items@.len() {
                        value_of(items@[i])
                    } else {
                        JsonValue::Null
                    },
            ),
        ),
        Json::Object(members) => JsonValue::Object(
            Seq::new(
                members@.len(),
                |i: int|
                    if 0 <= i < members@.len() {
                        MemberValue { key: members@[i].key@, value: value_of(members@[i].value) }
                    } else {
                        MemberValue { key: Seq::empty(), value: JsonValue::Null }
                    },
            ),
        ),
    }
}

impl View for Json {
    type V = JsonValue;

    open spec fn view(&self) -> JsonValue {
        value_of(*self)
    }
}

impl View for Member {
    type V = MemberValue;

    open spec fn view(&self) -> MemberValue {
        MemberValue { key: self.key@, value: self.value@ }
    }
}

/// The views of `items`, in order.
pub open spec fn views(items: Seq<Json>) -> Seq<JsonValue> {
    Seq::new(items.len(), |i: int| items[i]@)
}

/// The views of `members`, in order.
pub open spec fn member_views(members: Seq<Member>) -> Seq<MemberValue> {
    Seq::new(members.len(), |i: int| members[i]@)
}

/// An array's view holds the views of its items.
pub proof fn lemma_array_view(items: Vec<Json>)
    ensures
        Json::Array(items)@ == JsonValue::Array(views(items@)),
{
    let j = Json::Array(items);
    assert(j@ is Array);
    assert(j@->Array_0 =~= views(items@));
}

/// An object's view holds the views of its members.
pub proof fn lemma_object_view(members: Vec<Member>)
    ensures
        Json::Object(members)@ == JsonValue::Object(member_views(members@)),
{
    assert(Json::Object(members)@->Object_0 =~= member_views(members@));
}

/// An item of an array is smaller than the array, in the order by which
/// recursion over documents ends.
pub proof fn lemma_item_is_smaller(doc: Json, i: int)
    requires
        doc is Array,
        0 <= i < doc->Array_0@.len(),
    ensures
        decreases_to!(doc => doc->Array_0@[i]),
{
    assert(decreases_to!(doc => doc->Array_0));
    assert(decreases_to!(doc->Array_0 => doc->Array_0@));
    assert(decreases_to!(doc->Array_0@ => doc->Array_0@[i]));
}

/// What a member of an object holds is smaller than the object, in the
/// order by which recursion over documents ends.
pub proof fn lemma_member_is_smaller(doc: Json, i: int)
    requires
        doc is Object,
        0 <= i < doc->Object_0@.len(),
    ensures
        decreases_to!(doc => doc->Object_0@[i].value),
{
    assert(decreases_to!(doc => doc->Object_0));
    assert(decreases_to!(doc->Object_0 => doc->Object_0@));
    assert(decreases_to!(doc->Object_0@ => doc->Object_0@[i]));
    assert(decreases_to!(doc->Object_0@[i] => doc->Object_0@[i].value));
}

impl Numeral {
    /// A copy of this number.
    pub fn duplicate(&self) -> (r: Numeral)
        ensures
            r@ == self@,
    {
        match self {
            Numeral::Unsigned(n) => Numeral::Unsigned(*n),
            Numeral::Negative(n) => Numeral::Negative(*n),
            Numeral::Decimal(s) => Numeral::Decimal(s.clone()),
        }
    }
}

impl Json {
    /// A copy of this document.
    pub fn duplicate(&self) -> (r: Json)
        ensures
            r@ == self@,
        decreases self,
    {
        match self {
            Json::Null => Json::Null,
            Json::Bool(b) => Json::Bool(*b),
            Json::Number(n) => Json::Number(n.duplicate()),
            Json::Text(s) => Json::Text(s.clone()),
            Json::Array(items) => {
                let mut out: Vec<Json> = Vec::new();
                let mut i: usize = 0;
                while i < items.len()
                    invariant
                        i <= items.len(),
                        out.len() == i,
                        *self == Json::Array(*items),
                        forall|j: int| 0 <= j < i ==> out@[j]@ == items@[j]@,
                    decreases items.len() - i,
                {
                    proof {
                        lemma_item_is_smaller(*self, i as int);
                    }
                    out.push(items[i].duplicate());
                    i = i + 1;
                }
                proof {
                    lemma_array_view(*items);
                    lemma_array_view(out);
                    assert(views(out@) =~= views(items@));
                }
                Json::Array(out)
            },
            Json::Object(members) => {
                let mut out: Vec<Member> = Vec::new();
                let mut i: usize = 0;
                while i < members.len()
                    invariant
                        i <= members.len(),
                        out.len() == i,
                        *self == Json::Object(*members),
                        forall|j: int| 0 <= j < i ==> out@[j]@ == members@[j]@,
                    decreases members.len() - i,
                {
                    proof {
                        lemma_member_is_smaller(*self, i as int);
                    }
                    let value: Json = members[i].value.duplicate();
                    out.push(Member { key: members[i].key.clone(), value });
                    i = i + 1;
                }
                proof {
                    lemma_object_view(*members);
                    lemma_object_view(out);
                    assert(member_views(out@) =~= member_views(members@));
                }
                Json::Object(out)
            },
        }
    }
}

/// One step into a document: into an object by key, or into an array by
/// position.
#[derive(Debug, PartialEq, Eq)]
pub enum Step {
    Key(String),
    Index(usize),
}

/// The position at or after `start` of the first member under `key`, or -1.
pub open spec fn position_from(members: Seq<MemberValue>, key: Seq<char>, start: int) -> int
    decreases members.len() - start,
{
    if start < 0 || start >= members.len() {
        -1
    } else if members[start].key == key {
        start
    } else {
        position_from(members, key, start + 1)
    }
}

/// The position of the first member under `key`, or -1.
pub open spec fn position(members: Seq<MemberValue>, key: Seq<char>) -> int {
    position_from(members, key, 0)
}

/// What the object `doc` holds under `key`; nothing where `doc` is no object
/// or has no such member.
pub open spec fn field(doc: JsonValue, key: Seq<char>) -> Option<JsonValue> {
    match doc {
        JsonValue::Object(members) => {
            let i = position(members, key);
            if 0 <= i < members.len() {
                Some(members[i].value)
            } else {
                None
            }
        },
        _ => None,
    }
}

/// What the array `doc` holds at `index`.
pub open spec fn element(doc: JsonValue, index: int) -> Option<JsonValue> {
    match doc {
        JsonValue::Array(items) => if 0 <= index < items.len() {
            Some(items[index])
        } else {
            None
        },
        _ => None,
    }
}

pub ghost enum StepValue {
    Key(Seq<char>),
    Index(int),
}

impl View for Step {
    type V = StepValue;

    open spec fn view(&self) -> StepValue {
        match self {
            Step::Key(key) => StepValue::Key(key@),
            Step::Index(index) => StepValue::Index(*index as int),
        }
    }
}

/// The views of `steps`, in order.
pub open spec fn step_views(steps: Seq<Step>) -> Seq<StepValue> {
    Seq::new(steps.len(), |i: int| steps[i]@)
}

/// What `doc` holds one step in.
pub open spec fn step_into(doc: JsonValue, step: StepValue) -> Option<JsonValue> {
    match step {
        StepValue::Key(key) => field(doc, key),
        StepValue::Index(index) => element(doc, index),
    }
}

/// What `doc` holds at the end of `steps`, taken from `from` on.
pub open spec fn descend(doc: JsonValue, steps: Seq<StepValue>, from: int) -> Option<JsonValue>
    decreases steps.len() - from,
{
    if from < 0 || from >= steps.len() {
        Some(doc)
    } else {
        match step_into(doc, steps[from]) {
            Some(inner) => descend(inner, steps, from + 1),
            None => None,
        }
    }
}

/// What `doc` holds at the end of `steps`.
pub open spec fn lookup(doc: JsonValue, steps: Seq<StepValue>) -> Option<JsonValue> {
    descend(doc, steps, 0)
}

/// The text that `doc` is, where it is text.
pub open spec fn text_value(doc: JsonValue) -> Option<Seq<char>> {
    match doc {
        JsonValue::Text(s) => Some(s),
        _ => None,
    }
}

/// The number that `doc` is, where it is a whole number that is not negative.
pub open spec fn unsigned_value(doc: JsonValue) -> Option<u64> {
    match doc {
        JsonValue::Number(NumeralValue::Unsigned(n)) => Some(n),
        _ => None,
    }
}

/// Where `position_from` finds a member, it is the first under the key from
/// `start` on; where it finds none, no member from `start` on has the key.
pub proof fn lemma_position_from(members: Seq<MemberValue>, key: Seq<char>, start: int)
    requires
        0 <= start,
    ensures
        ({
            let i = position_from(members, key, start);
            if i == -1 {
                forall|j: int| start <= j < members.len() ==> members[j].key != key
            } else {
                start <= i < members.len() && members[i].key == key && forall|j: int|
                    start <= j < i ==> members[j].key != key
            }
        }),
    decreases members.len() - start,
{
    if start < members.len() && members[start].key != key {
        lemma_position_from(members, key, start + 1);
    }
}

/// The position of the first member of `members` under `key`.
pub fn find_member(members: &Vec<Member>, key: &str) -> (r: Option<usize>)
    ensures
        match r {
            Some(i) => i == position(member_views(members@), key@) && i < members.len(),
            None => position(member_views(members@), key@) == -1,
        },
{
    let ghost ms = member_views(members@);
    let mut i: usize = 0;
    while i < members.len()
        invariant
            i <= members.len(),
            ms == member_views(members@),
            position(ms, key@) == position_from(ms, key@, i as int),
        decreases members.len() - i,
    {
        if str_eq(members[i].key.as_str(), key) {
            return Some(i);
        }
        i = i + 1;
    }
    None
}

impl Json {
    /// What this object holds under `key`.
    pub fn get(&self, key: &str) -> (r: Option<&Json>)
        ensures
            match r {
                Some(v) => field(self@, key@) == Some(v@),
                None => field(self@, key@) is None,
            },
    {
        match self {
            Json::Object(members) => {
                proof {
                    lemma_object_view(*members);
                }
                match find_member(members, key) {
                    Some(i) => Some(&members[i].value),
                    None => None,
                }
            },
            _ => None,
        }
    }

    /// What this array holds at `index`.
    pub fn item(&self, index: usize) -> (r: Option<&Json>)
        ensures
            match r {
                Some(v) => element(self@, index as int) == Some(v@),
                None => element(self@, index as int) is None,
            },
    {
        match self {
            Json::Array(items) => {
                proof {
                    lemma_array_view(*items);
                }
                if index < items.len() {
                    Some(&items[index])
                } else {
                    None
                }
            },
            _ => None,
        }
    }

    /// What this document holds at the end of `steps`.
    pub fn at(&self, steps: &Vec<Step>) -> (r: Option<&Json>)
        ensures
            match r {
                Some(v) => lookup(self@, step_views(steps@)) == Some(v@),
                None => lookup(self@, step_views(steps@)) is None,
            },
    {
        let mut here: &Json = self;
        let mut i: usize = 0;
        while i < steps.len()
            invariant
                i <= steps.len(),
                lookup(self@, step_views(steps@)) == descend(here@, step_views(steps@), i as int),
            decreases steps.len() - i,
        {
            assert(step_views(steps@)[i as int] == steps@[i as int]@);
            let next: Option<&Json> = match &steps[i] {
                Step::Key(key) => here.get(key.as_str()),
                Step::Index(index) => here.item(*index),
            };
            match next {
                Some(inner) => {
                    here = inner;
                },
                None => {
                    return None;
                },
            }
            i = i + 1;
        }
        Some(here)
    }

    /// The text that this document is, where it is text.
    pub fn as_str(&self) -> (r: Option<&str>)
        ensures
            match r {
                Some(s) => text_value(self@) == Some(s@),
                None => text_value(self@) is None,
            },
    {
        match self {
            Json::Text(s) => Some(s.as_str()),
            _ => None,
        }
    }

    /// The number that this document is, where it is a whole number that is
    /// not negative.
    pub fn as_u64(&self) -> (r: Option<u64>)
        ensures
            r == unsigned_value(self@),
    {
        match self {
            Json::Number(Numeral::Unsigned(n)) => Some(*n),
            _ => None,
        }
    }

    /// The items of this document, where it is an array.
    pub fn as_array(&self) -> (r: Option<&Vec<Json>>)
        ensures
            match r {
                Some(items) => self@ == JsonValue::Array(views(items@)),
                None => !(self@ is Array),
            },
    {
        match self {
            Json::Array(items) => {
                proof {
                    lemma_array_view(*items);
                }
                Some(items)
            },
            _ => None,
        }
    }

    /// The members of this document, where it is an object.
    pub fn as_object(&self) -> (r: Option<&Vec<Member>>)
        ensures
            match r {
                Some(members) => self@ == JsonValue::Object(member_views(members@)),
                None => !(self@ is Object),
            },
    {
        match self {
            Json::Object(members) => {
                proof {
                    lemma_object_view(*members);
                }
                Some(members)
            },
            _ => None,
        }
    }
}

/// What the object `doc` holds under `key`, where there is a document.
pub open spec fn field_of(doc: Option<JsonValue>, key: Seq<char>) -> Option<JsonValue> {
    match doc {
        Some(d) => field(d, key),
        None => None,
    }
}

/// What `doc` holds under the number `index`: in an array the item at that
/// position, in an object the member whose key is the number written in
/// decimal.
pub open spec fn entry(doc: JsonValue, index: nat) -> Option<JsonValue> {
    match doc {
        JsonValue::Array(_) => element(doc, index as int),
        JsonValue::Object(_) => field(doc, decimal(index)),
        _ => None,
    }
}

/// What `doc` holds under the number `index`, where there is a document.
pub open spec fn entry_of(doc: Option<JsonValue>, index: nat) -> Option<JsonValue> {
    match doc {
        Some(d) => entry(d, index),
        None => None,
    }
}

/// The text that `doc` is, where there is a document and it is text.
pub open spec fn text_in(doc: Option<JsonValue>) -> Option<Seq<char>> {
    match doc {
        Some(d) => text_value(d),
        None => None,
    }
}

/// The number that `doc` is, where there is a document and it is a whole
/// number that is not negative.
pub open spec fn unsigned_in(doc: Option<JsonValue>) -> Option<u64> {
    match doc {
        Some(d) => unsigned_value(d),
        None => None,
    }
}

/// The text that the object `doc` holds under `key`.
pub open spec fn text_at(doc: JsonValue, key: Seq<char>) -> Option<Seq<char>> {
    text_in(field(doc, key))
}

/// The number that the object `doc` holds under `key`.
pub open spec fn unsigned_at(doc: JsonValue, key: Seq<char>) -> Option<u64> {
    unsigned_in(field(doc, key))
}

/// What a document that may be absent says.
pub open spec fn value_in(doc: Option<&Json>) -> Option<JsonValue> {
    match doc {
        Some(d) => Some(d@),
        None => None,
    }
}

/// The view of a string slice that may be absent.
pub open spec fn slice_in(s: Option<&str>) -> Option<Seq<char>> {
    match s {
        Some(s) => Some(s@),
        None => None,
    }
}

/// What the object `doc` holds under `key`, where there is a document.
pub fn child<'a>(doc: Option<&'a Json>, key: &str) -> (r: Option<&'a Json>)
    ensures
        value_in(r) == field_of(value_in(doc), key@),
{
    match doc {
        Some(d) => d.get(key),
        None => None,
    }
}

/// What `doc` holds under the number `index`, where there is a document:
/// an item of an array, or a member of an object.
pub fn nth<'a>(doc: Option<&'a Json>, index: usize) -> (r: Option<&'a Json>)
    ensures
        value_in(r) == entry_of(value_in(doc), index as nat),
{
    match doc {
        Some(d) => match d {
            Json::Array(_) => d.item(index),
            Json::Object(_) => {
                let mut key: Vec<char> = Vec::new();
                push_decimal(&mut key, index as u64);
                assert(key@ =~= decimal(index as nat));
                d.get(text_of(&key).as_str())
            },
            _ => None,
        },
        None => None,
    }
}

/// The text that `doc` is, where there is a document and it is text.
pub fn text<'a>(doc: Option<&'a Json>) -> (r: Option<&'a str>)
    ensures
        slice_in(r) == text_in(value_in(doc)),
{
    match doc {
        Some(d) => d.as_str(),
        None => None,
    }
}

/// The number that `doc` is, where there is a document and it is a whole
/// number that is not negative.
pub fn unsigned(doc: Option<&Json>) -> (r: Option<u64>)
    ensures
        r == unsigned_in(value_in(doc)),
{
    match doc {
        Some(d) => d.as_u64(),
        None => None,
    }
}

/// An owned copy of a string slice that may be absent.
pub fn owned(s: Option<&str>) -> (r: Option<String>)
    ensures
        crate::text::view_of(r) == slice_in(s),
{
    match s {
        Some(s) => Some(s.to_owned()),
        None => None,
    }
}

/// `doc` with `value` under `key`: in place of what the first member under
/// that key holds, or as a new last member where there is none. A document
/// that is no object stays as it is.
pub open spec fn with_field(doc: JsonValue, key: Seq<char>, value: JsonValue) -> JsonValue {
    match doc {
        JsonValue::Object(members) => {
            let i = position(members, key);
            if 0 <= i < members.len() {
                JsonValue::Object(members.update(i, MemberValue { key, value }))
            } else {
                JsonValue::Object(members.push(MemberValue { key, value }))
            }
        },
        _ => doc,
    }
}

/// Puts `value` under `key` in the object `doc`.
pub fn set_field(doc: Json, key: &str, value: Json) -> (r: Json)
    ensures
        r@ == with_field(doc@, key@, value@),
{
    match doc {
        Json::Object(mut members) => {
            proof {
                lemma_object_view(members);
            }
            let ghost before = member_views(members@);
            let ghost made = MemberValue { key: key@, value: value@ };
            match find_member(&members, key) {
                Some(i) => {
                    members[i].value = value;
                    proof {
                        lemma_position_from(before, key@, 0);
                        assert(member_views(members@) =~= before.update(i as int, made));
                    }
                },
                None => {
                    members.push(Member { key: key.to_owned(), value });
                    assert(member_views(members@) =~= before.push(made));
                },
            }
            proof {
                lemma_object_view(members);
            }
            Json::Object(members)
        },
        other => other,
    }
}

/// What is put under a key is what is found there afterwards.
pub proof fn law_field_after_with_field(doc: JsonValue, key: Seq<char>, value: JsonValue)
    requires
        doc is Object,
    ensures
        field(with_field(doc, key, value), key) == Some(value),
{
    let members = doc->Object_0;
    lemma_position_from(members, key, 0);
    let i = position(members, key);
    if 0 <= i < members.len() {
        let after = members.update(i, MemberValue { key, value });
        lemma_first_member(after, key, 0, i);
    } else {
        let after = members.push(MemberValue { key, value });
        lemma_first_member(after, key, 0, members.len() as int);
    }
}

/// The member at `at` is the first under `key` from `start` on where it has
/// that key and none between has.
pub proof fn lemma_first_member(members: Seq<MemberValue>, key: Seq<char>, start: int, at: int)
    requires
        0 <= start <= at < members.len(),
        members[at].key == key,
        forall|j: int| start <= j < at ==> (#[trigger] members[j]).key != key,
    ensures
        position_from(members, key, start) == at,
    decreases at - start,
{
    if start < at {
        lemma_first_member(members, key, start + 1, at);
    }
}

/// `serde_json::Value`, a document as the JSON reader and writer hold it.
#[verifier::external_type_specification]
#[verifier::external_body]
pub struct OutsideValue(serde_json::Value);

/// What the JSON reader makes of `text`: the document that it holds, or
/// nothing where the text is not one JSON document.
pub uninterp spec fn parsed(text: Seq<char>) -> Option<JsonValue>;

/// What the JSON reader says of a `text` that it refuses: the message of
/// its fault, as `Display` writes it.
pub uninterp spec fn refusal(text: Seq<char>) -> Seq<char>;

/// What the JSON writer makes of `doc`: its compact text.
pub uninterp spec fn rendered(doc: JsonValue) -> Seq<char>;

/// Moves a document of the JSON reader into a `Json`, variant by variant.
/// Of a number, `as_u64` decides for `Unsigned`, `as_i64` for `Negative`,
/// and any other is kept as `Display` writes it. An object's members come in
/// the order in which `serde_json::Map` hands them out. The function serves
/// `read_document` alone, and nothing is claimed of its result.
#[verifier::external_body]
fn from_value(v: &Value) -> Json {
    match v {
        Value::Null => Json::Null,
        Value::Bool(b) => Json::Bool(*b),
        Value::Number(n) => Json::Number(match (n.as_u64(), n.as_i64()) {
            (Some(u), _) => Numeral::Unsigned(u),
            (None, Some(i)) => Numeral::Negative(i),
            _ => Numeral::Decimal(n.to_string()),
        }),
        Value::String(s) => Json::Text(s.clone()),
        Value::Array(a) => Json::Array(a.iter().map(from_value).collect()),
        Value::Object(m) => Json::Object(
            m.iter().map(|(k, v)| Member { key: k.clone(), value: from_value(v) }).collect(),
        ),
    }
}

/// Moves a `Json` into a document of the JSON writer, variant by variant. A
/// `Decimal` becomes the number that `serde_json::from_str` reads from its
/// text as a `serde_json::Number`, and `null` where its text is no number. The function serves `write_document` alone, and nothing
/// is claimed of its result.
#[verifier::external_body]
fn to_value(j: &Json) -> Value {
    match j {
        Json::Null => Value::Null,
        Json::Bool(b) => Value::Bool(*b),
        Json::Number(Numeral::Unsigned(u)) => Value::from(*u),
        Json::Number(Numeral::Negative(i)) => Value::from(*i),
        Json::Number(Numeral::Decimal(s)) => serde_json::from_str::<serde_json::Number>(s).map_or(
            Value::Null,
            Value::Number,
        ),
        Json::Text(s) => Value::String(s.clone()),
        Json::Array(a) => Value::Array(a.iter().map(to_value).collect()),
        Json::Object(m) => Value::Object(
            m.iter().map(|e| (e.key.clone(), to_value(&e.value))).collect(),
        ),
    }
}

/// Reads `text` with `serde_json::from_str` and moves what was read into a
/// `Json`; a fault of the reader is handed on as its `Display` writes it.
/// The contract names the outcome: the document read is `parsed` of the
/// text, the reader refuses the text exactly where `parsed` holds nothing,
/// and what it then says is `refusal` of the text.
#[verifier::external_body]
fn read_document(text: &str) -> (r: Result<Json, String>)
    ensures
        match r {
            Ok(doc) => parsed(text@) == Some(doc@),
            Err(message) => parsed(text@) is None && message@ == refusal(text@),
        },
{
    match serde_json::from_str::<Value>(text) {
        Ok(v) => Ok(from_value(&v)),
        Err(e) => Err(e.to_string()),
    }
}

/// Moves `doc` into a document of the JSON writer and writes it with
/// `serde_json::to_string`, which does not fail on such a document. The
/// contract names the outcome: the text written is `rendered` of the
/// document.
#[verifier::external_body]
fn write_document(doc: &Json) -> (r: String)
    ensures
        r@ == rendered(doc@),
{
    match serde_json::to_string(&to_value(doc)) {
        Ok(s) => s,
        Err(_) => String::new(),
    }
}

/// Why a text is no JSON document.
#[derive(Debug, PartialEq, Eq)]
pub struct SyntaxError {
    /// What the reader says of the text.
    pub message: String,
}

/// Reads one JSON document from `text`.
pub fn parse(text: &str) -> (r: Result<Json, SyntaxError>)
    ensures
        match r {
            Ok(doc) => parsed(text@) == Some(doc@),
            Err(e) => parsed(text@) is None && e.message@ == refusal(text@),
        },
{
    match read_document(text) {
        Ok(doc) => Ok(doc),
        Err(message) => Err(SyntaxError { message }),
    }
}

/// Writes `doc` as compact JSON text.
pub fn render(doc: &Json) -> (r: String)
    ensures
        r@ == rendered(doc@),
{
    write_document(doc)
}

} // verus!
