//! The rule that comes with the system: between the chat protocol of
//! OpenAI and the messages protocol of Anthropic. Its two templates are
//! built here as documents, and are proved to be well formed.

use crate::json::{
    lemma_array_view, lemma_object_view, member_views, position_from, views, Json, JsonValue,
    Member, MemberValue, Numeral, NumeralValue,
};
use crate::rules::path::{digits_end, index_value, is_reference, key_end, path_of, steps_from};
use crate::rules::renaming::lemma_no_directive;
use crate::rules::template::{
    all_text, is_table, item_fault, member_fault, stray_member, well_formed,
};
use vstd::prelude::*;

verus! {

/// The member with the key and the value given.
pub open spec fn entry(key: Seq<char>, value: JsonValue) -> MemberValue {
    MemberValue { key, value }
}

/// The template that copies what stands at `path`, or injects `fallback`
/// where nothing stands there.
pub open spec fn copy_or(path: Seq<char>, fallback: JsonValue) -> JsonValue {
    JsonValue::Object(seq![entry("$path"@, JsonValue::Text(path)), entry("$default"@, fallback)])
}

/// The template that reshapes each item of the array at `path` by `item`.
pub open spec fn each_of(path: Seq<char>, item: JsonValue) -> JsonValue {
    JsonValue::Object(seq![entry("$path"@, JsonValue::Text(path)), entry("$each"@, item)])
}

/// The template that translates the text at `path` as `table` says.
pub open spec fn translated_by(path: Seq<char>, table: JsonValue) -> JsonValue {
    JsonValue::Object(seq![entry("$path"@, JsonValue::Text(path)), entry("$map"@, table)])
}

/// The template that injects `value` as it stands.
pub open spec fn injected(value: JsonValue) -> JsonValue {
    JsonValue::Object(seq![entry("$literal"@, value)])
}

/// The names of the directives differ from one another, and each begins
/// with `$`.
proof fn lemma_directive_names()
    ensures
        "$path"@ != "$literal"@,
        "$path"@ != "$default"@,
        "$path"@ != "$each"@,
        "$path"@ != "$map"@,
        "$default"@ != "$literal"@,
        "$default"@ != "$each"@,
        "$default"@ != "$map"@,
        "$each"@ != "$literal"@,
        "$each"@ != "$map"@,
        "$map"@ != "$literal"@,
        is_reference("$literal"@),
        is_reference("$path"@),
{
    reveal_strlit("$path");
    reveal_strlit("$literal");
    reveal_strlit("$default");
    reveal_strlit("$each");
    reveal_strlit("$map");
    assert("$path"@.len() == 5 && "$literal"@.len() == 8 && "$default"@.len() == 8 && "$each"@.len()
        == 5 && "$map"@.len() == 4);
    assert("$path"@[1] == 'p' && "$each"@[1] == 'e');
    assert("$default"@[1] == 'd' && "$literal"@[1] == 'l');
}

/// A copy with a fallback is well formed where its path is a path.
pub proof fn lemma_copy_or_is_well_formed(path: Seq<char>, fallback: JsonValue)
    requires
        path_of(path) is Some,
    ensures
        well_formed(copy_or(path, fallback)),
{
    lemma_directive_names();
    reveal_with_fuel(position_from, 3);
    reveal_with_fuel(stray_member, 3);
}

/// A reshaping of each item is well formed where its path is a path and the
/// template for the items is well formed.
pub proof fn lemma_each_of_is_well_formed(path: Seq<char>, item: JsonValue)
    requires
        path_of(path) is Some,
        well_formed(item),
    ensures
        well_formed(each_of(path, item)),
{
    lemma_directive_names();
    reveal_with_fuel(position_from, 3);
    reveal_with_fuel(stray_member, 3);
}

/// A translation is well formed where its path is a path and its table
/// holds texts only.
pub proof fn lemma_translated_by_is_well_formed(path: Seq<char>, table: JsonValue)
    requires
        path_of(path) is Some,
        is_table(table),
    ensures
        well_formed(translated_by(path, table)),
{
    lemma_directive_names();
    reveal_with_fuel(position_from, 3);
    reveal_with_fuel(stray_member, 3);
}

/// An injected value is well formed, whatever it is.
pub proof fn lemma_injected_is_well_formed(value: JsonValue)
    ensures
        well_formed(injected(value)),
{
    lemma_directive_names();
    reveal_with_fuel(position_from, 2);
}

/// None of the first members has a fault where no key begins with `$` and
/// every value is well formed.
proof fn lemma_members_are_well_formed(members: Seq<MemberValue>, upto: nat)
    requires
        upto <= members.len(),
        forall|i: int|
            0 <= i < members.len() ==> !is_reference((#[trigger] members[i]).key) && well_formed(
                members[i].value,
            ),
    ensures
        member_fault(members, upto) is None,
    decreases upto,
{
    if upto > 0 {
        lemma_members_are_well_formed(members, (upto - 1) as nat);
        assert(!is_reference(members[upto - 1].key));
    }
}

/// An object is well formed where none of its keys begins with `$` and every
/// value is well formed.
pub proof fn lemma_object_is_well_formed(members: Seq<MemberValue>)
    requires
        forall|i: int|
            0 <= i < members.len() ==> !is_reference((#[trigger] members[i]).key) && well_formed(
                members[i].value,
            ),
    ensures
        well_formed(JsonValue::Object(members)),
{
    lemma_directive_names();
    lemma_no_directive(members, "$literal"@);
    lemma_no_directive(members, "$path"@);
    lemma_members_are_well_formed(members, members.len());
}

/// None of the first items has a fault where every item is well formed.
proof fn lemma_items_are_well_formed(items: Seq<JsonValue>, upto: nat)
    requires
        upto <= items.len(),
        forall|i: int| 0 <= i < items.len() ==> well_formed(#[trigger] items[i]),
    ensures
        item_fault(items, upto) is None,
    decreases upto,
{
    if upto > 0 {
        lemma_items_are_well_formed(items, (upto - 1) as nat);
        assert(well_formed(items[upto - 1]));
    }
}

/// An array is well formed where every item is.
pub proof fn lemma_array_is_well_formed(items: Seq<JsonValue>)
    requires
        forall|i: int| 0 <= i < items.len() ==> well_formed(#[trigger] items[i]),
    ensures
        well_formed(JsonValue::Array(items)),
{
    lemma_items_are_well_formed(items, items.len());
}

/// The member with the key and the value given.
fn member(key: &str, value: Json) -> (r: Member)
    ensures
        r@ == entry(key@, value@),
{
    Member { key: key.to_owned(), value }
}

/// The text `s` as a document.
fn text(s: &str) -> (r: Json)
    ensures
        r@ == JsonValue::Text(s@),
{
    Json::Text(s.to_owned())
}

/// The object with the members given.
fn object(members: Vec<Member>) -> (r: Json)
    ensures
        r@ == JsonValue::Object(member_views(members@)),
{
    proof {
        lemma_object_view(members);
    }
    Json::Object(members)
}

/// The object with the two members given.
fn object2(first: Member, second: Member) -> (r: Json)
    ensures
        r@ == JsonValue::Object(seq![first@, second@]),
{
    let mut members: Vec<Member> = Vec::new();
    members.push(first);
    members.push(second);
    assert(member_views(members@) =~= seq![first@, second@]);
    object(members)
}

/// The object with the three members given.
fn object3(first: Member, second: Member, third: Member) -> (r: Json)
    ensures
        r@ == JsonValue::Object(seq![first@, second@, third@]),
{
    let mut members: Vec<Member> = Vec::new();
    members.push(first);
    members.push(second);
    members.push(third);
    assert(member_views(members@) =~= seq![first@, second@, third@]);
    object(members)
}

/// The whole number `n` as a document.
pub open spec fn count(n: u64) -> JsonValue {
    JsonValue::Number(NumeralValue::Unsigned(n))
}

/// How the roles of the chat protocol are called in the messages protocol,
/// where they are called otherwise.
pub open spec fn roles_table() -> JsonValue {
    JsonValue::Object(seq![entry("system"@, JsonValue::Text("user"@))])
}

/// How one message of a chat request is reshaped.
pub open spec fn message_item() -> JsonValue {
    JsonValue::Object(
        seq![
            entry("content"@, JsonValue::Text("$.content"@)),
            entry("role"@, translated_by("$.role"@, roles_table())),
        ],
    )
}

/// The template that makes a messages request of a chat request: the model,
/// the limit of tokens or 1024 where none is given, and the messages, each
/// with its content and its role.
pub open spec fn chat_request_template() -> JsonValue {
    JsonValue::Object(
        seq![
            entry("max_tokens"@, copy_or("$.max_tokens"@, count(1024))),
            entry("messages"@, each_of("$.messages"@, message_item())),
            entry("model"@, JsonValue::Text("$.model"@)),
        ],
    )
}

/// How the reasons to stop of the messages protocol are called in the chat
/// protocol.
pub open spec fn stops_table() -> JsonValue {
    JsonValue::Object(
        seq![
            entry("end_turn"@, JsonValue::Text("stop"@)),
            entry("max_tokens"@, JsonValue::Text("length"@)),
        ],
    )
}

/// The message of the one choice of a chat answer.
pub open spec fn answer_message() -> JsonValue {
    JsonValue::Object(
        seq![
            entry("content"@, JsonValue::Text("$.content[0].text"@)),
            entry("role"@, JsonValue::Text("assistant"@)),
        ],
    )
}

/// The one choice of a chat answer.
pub open spec fn answer_choice() -> JsonValue {
    JsonValue::Object(
        seq![
            entry("finish_reason"@, translated_by("$.stop_reason"@, stops_table())),
            entry("index"@, count(0)),
            entry("message"@, answer_message()),
        ],
    )
}

/// The usage of a chat answer.
pub open spec fn answer_usage() -> JsonValue {
    JsonValue::Object(
        seq![
            entry("completion_tokens"@, JsonValue::Text("$.usage.output_tokens"@)),
            entry("prompt_tokens"@, JsonValue::Text("$.usage.input_tokens"@)),
        ],
    )
}

/// The template that makes a chat answer of a messages answer: one choice
/// with the first text of the content, the reason to stop in the words of
/// the chat protocol, and the usage.
pub open spec fn chat_response_template() -> JsonValue {
    JsonValue::Object(
        seq![
            entry("choices"@, JsonValue::Array(seq![answer_choice()])),
            entry("id"@, JsonValue::Text("$.id"@)),
            entry("model"@, JsonValue::Text("$.model"@)),
            entry("object"@, injected(JsonValue::Text("chat.completion"@))),
            entry("usage"@, answer_usage()),
        ],
    )
}

/// Every path that the two templates name is a path.
proof fn lemma_paths()
    ensures
        path_of("$.content"@) is Some,
        path_of("$.role"@) is Some,
        path_of("$.max_tokens"@) is Some,
        path_of("$.messages"@) is Some,
        path_of("$.model"@) is Some,
        path_of("$.id"@) is Some,
        path_of("$.stop_reason"@) is Some,
        path_of("$.content[0].text"@) is Some,
        path_of("$.usage.output_tokens"@) is Some,
        path_of("$.usage.input_tokens"@) is Some,
{
    reveal_strlit("$.content");
    reveal_strlit("$.role");
    reveal_strlit("$.max_tokens");
    reveal_strlit("$.messages");
    reveal_strlit("$.model");
    reveal_strlit("$.id");
    reveal_strlit("$.stop_reason");
    reveal_strlit("$.content[0].text");
    reveal_strlit("$.usage.output_tokens");
    reveal_strlit("$.usage.input_tokens");
    reveal_with_fuel(key_end, 16);
    reveal_with_fuel(digits_end, 3);
    reveal_with_fuel(index_value, 3);
    reveal_with_fuel(steps_from, 5);
}

/// No key and no plain text of the two templates begins with `$`.
proof fn lemma_plain_words()
    ensures
        !is_reference("content"@),
        !is_reference("role"@),
        !is_reference("max_tokens"@),
        !is_reference("messages"@),
        !is_reference("model"@),
        !is_reference("choices"@),
        !is_reference("id"@),
        !is_reference("object"@),
        !is_reference("usage"@),
        !is_reference("finish_reason"@),
        !is_reference("index"@),
        !is_reference("message"@),
        !is_reference("completion_tokens"@),
        !is_reference("prompt_tokens"@),
        !is_reference("assistant"@),
{
    reveal_strlit("content");
    reveal_strlit("role");
    reveal_strlit("max_tokens");
    reveal_strlit("messages");
    reveal_strlit("model");
    reveal_strlit("choices");
    reveal_strlit("id");
    reveal_strlit("object");
    reveal_strlit("usage");
    reveal_strlit("finish_reason");
    reveal_strlit("index");
    reveal_strlit("message");
    reveal_strlit("completion_tokens");
    reveal_strlit("prompt_tokens");
    reveal_strlit("assistant");
}

/// The template for chat requests is well formed.
pub proof fn law_chat_request_template_is_well_formed()
    ensures
        well_formed(chat_request_template()),
{
    lemma_paths();
    lemma_plain_words();
    assert(is_table(roles_table())) by {
        reveal_with_fuel(all_text, 2);
    }
    lemma_translated_by_is_well_formed("$.role"@, roles_table());
    lemma_object_is_well_formed(message_item()->Object_0);
    lemma_each_of_is_well_formed("$.messages"@, message_item());
    lemma_copy_or_is_well_formed("$.max_tokens"@, count(1024));
    lemma_object_is_well_formed(chat_request_template()->Object_0);
}

/// The template for chat answers is well formed.
pub proof fn law_chat_response_template_is_well_formed()
    ensures
        well_formed(chat_response_template()),
{
    lemma_paths();
    lemma_plain_words();
    assert(is_table(stops_table())) by {
        reveal_with_fuel(all_text, 3);
    }
    lemma_translated_by_is_well_formed("$.stop_reason"@, stops_table());
    lemma_object_is_well_formed(answer_message()->Object_0);
    lemma_object_is_well_formed(answer_choice()->Object_0);
    lemma_array_is_well_formed(seq![answer_choice()]);
    lemma_injected_is_well_formed(JsonValue::Text("chat.completion"@));
    lemma_object_is_well_formed(answer_usage()->Object_0);
    lemma_object_is_well_formed(chat_response_template()->Object_0);
}

/// The template that makes a messages request of a chat request.
pub fn system_request_template() -> (r: Json)
    ensures
        r@ == chat_request_template(),
        well_formed(r@),
{
    let table: Json = object1(member("system", text("user")));
    let role: Json = object2(member("$path", text("$.role")), member("$map", table));
    let item: Json = object2(member("content", text("$.content")), member("role", role));
    let messages: Json = object2(member("$path", text("$.messages")), member("$each", item));
    let limit: Json = object2(
        member("$path", text("$.max_tokens")),
        member("$default", Json::Number(Numeral::Unsigned(1024))),
    );
    proof {
        law_chat_request_template_is_well_formed();
    }
    object3(
        member("max_tokens", limit),
        member("messages", messages),
        member("model", text("$.model")),
    )
}

/// The template that makes a chat answer of a messages answer.
pub fn system_response_template() -> (r: Json)
    ensures
        r@ == chat_response_template(),
        well_formed(r@),
{
    let table: Json = object2(
        member("end_turn", text("stop")),
        member("max_tokens", text("length")),
    );
    let reason: Json = object2(member("$path", text("$.stop_reason")), member("$map", table));
    let message: Json = object2(
        member("content", text("$.content[0].text")),
        member("role", text("assistant")),
    );
    let choice: Json = object3(
        member("finish_reason", reason),
        member("index", Json::Number(Numeral::Unsigned(0))),
        member("message", message),
    );
    let mut choices: Vec<Json> = Vec::new();
    choices.push(choice);
    proof {
        lemma_array_view(choices);
        assert(views(choices@) =~= seq![answer_choice()]);
    }
    let usage: Json = object2(
        member("completion_tokens", text("$.usage.output_tokens")),
        member("prompt_tokens", text("$.usage.input_tokens")),
    );
    let kind: Json = object1(member("$literal", text("chat.completion")));
    let mut members: Vec<Member> = Vec::new();
    members.push(member("choices", Json::Array(choices)));
    members.push(member("id", text("$.id")));
    members.push(member("model", text("$.model")));
    members.push(member("object", kind));
    members.push(member("usage", usage));
    proof {
        assert(member_views(members@) =~= chat_response_template()->Object_0);
        law_chat_response_template_is_well_formed();
    }
    object(members)
}

/// The object with the one member given.
fn object1(only: Member) -> (r: Json)
    ensures
        r@ == JsonValue::Object(seq![only@]),
{
    let mut members: Vec<Member> = Vec::new();
    members.push(only);
    assert(member_views(members@) =~= seq![only@]);
    object(members)
}

} // verus!
