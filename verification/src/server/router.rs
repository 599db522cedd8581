//! The endpoints: which format each takes, what the plain ones answer, and
//! how the video proxy fetches.

use crate::format::WireFormat;
use crate::json::{
    lemma_array_view, lemma_object_view, member_views, slice_in, views, Json, JsonValue, Member,
    MemberValue,
};
use crate::text::{contains, occurs, str_eq};
use vstd::prelude::*;

verus! {

/// The format of the bodies that the endpoint at `path` takes.
pub open spec fn format_at(path: Seq<char>) -> Option<WireFormat> {
    if path == "/v1/chat/completions"@ {
        Some(WireFormat::OpenAiChat)
    } else if path == "/v1/responses"@ {
        Some(WireFormat::OpenAiResponses)
    } else if path == "/v1/messages"@ {
        Some(WireFormat::Anthropic)
    } else {
        None
    }
}

/// The format of the bodies that the endpoint at `path` takes.
pub fn entry_format(path: &str) -> (r: Option<WireFormat>)
    ensures
        r == format_at(path@),
{
    if str_eq(path, "/v1/chat/completions") {
        Some(WireFormat::OpenAiChat)
    } else if str_eq(path, "/v1/responses") {
        Some(WireFormat::OpenAiResponses)
    } else if str_eq(path, "/v1/messages") {
        Some(WireFormat::Anthropic)
    } else {
        None
    }
}

/// The member with the key and the text given.
pub open spec fn text_member(key: Seq<char>, text: Seq<char>) -> MemberValue {
    MemberValue { key, value: JsonValue::Text(text) }
}

/// What the liveness probe answers for the version `version`.
pub open spec fn health(version: Seq<char>) -> JsonValue {
    JsonValue::Object(seq![text_member("status"@, "ok"@), text_member("version"@, version)])
}

/// What the liveness probe answers.
pub fn health_check(version: &str) -> (r: Json)
    ensures
        r@ == health(version@),
{
    let mut members: Vec<Member> = Vec::new();
    members.push(Member { key: "status".to_owned(), value: Json::Text("ok".to_owned()) });
    members.push(Member { key: "version".to_owned(), value: Json::Text(version.to_owned()) });
    proof {
        lemma_object_view(members);
        assert(member_views(members@) =~= seq![
            text_member("status"@, "ok"@),
            text_member("version"@, version@),
        ]);
    }
    Json::Object(members)
}

/// The entry of the model list for the public name `name`.
pub open spec fn model_entry(name: Seq<char>) -> JsonValue {
    JsonValue::Object(
        seq![
            text_member("id"@, name),
            text_member("object"@, "model"@),
            text_member("owned_by"@, "omnikit"@),
        ],
    )
}

/// The model list for the public names `names`: one entry for each, in
/// their order.
pub open spec fn model_list(names: Seq<String>) -> JsonValue {
    JsonValue::Object(
        seq![
            MemberValue {
                key: "data"@,
                value: JsonValue::Array(Seq::new(names.len(), |i: int| model_entry(names[i]@))),
            },
            text_member("object"@, "list"@),
        ],
    )
}

/// The model list for the public names `names`.
pub fn list_models(names: &Vec<String>) -> (r: Json)
    ensures
        r@ == model_list(names@),
{
    let mut entries: Vec<Json> = Vec::new();
    let mut i: usize = 0;
    while i < names.len()
        invariant
            i <= names.len(),
            entries.len() == i,
            forall|j: int| 0 <= j < i ==> entries@[j]@ == model_entry(names@[j]@),
        decreases names.len() - i,
    {
        let mut members: Vec<Member> = Vec::new();
        members.push(Member { key: "id".to_owned(), value: Json::Text(names[i].clone()) });
        members.push(Member { key: "object".to_owned(), value: Json::Text("model".to_owned()) });
        members.push(
            Member { key: "owned_by".to_owned(), value: Json::Text("omnikit".to_owned()) },
        );
        proof {
            lemma_object_view(members);
            assert(member_views(members@) =~= seq![
                text_member("id"@, names@[i as int]@),
                text_member("object"@, "model"@),
                text_member("owned_by"@, "omnikit"@),
            ]);
        }
        entries.push(Json::Object(members));
        i = i + 1;
    }
    proof {
        lemma_array_view(entries);
        assert(views(entries@) =~= Seq::new(names@.len(), |i: int| model_entry(names@[i]@)));
    }
    let data: Json = Json::Array(entries);
    let mut members: Vec<Member> = Vec::new();
    members.push(Member { key: "data".to_owned(), value: data });
    members.push(Member { key: "object".to_owned(), value: Json::Text("list".to_owned()) });
    proof {
        lemma_object_view(members);
        assert(member_views(members@) =~= seq![
            MemberValue { key: "data"@, value: data@ },
            text_member("object"@, "list"@),
        ]);
    }
    Json::Object(members)
}

/// Whether the video at `url` is reached through a redirect that has to be
/// followed by hand.
pub open spec fn redirects(url: Seq<char>) -> bool {
    occurs(url, "aweme.snssdk.com"@) || occurs(url, "api-h2.amemv.com"@)
}

/// Whether the video at `url` is reached through a redirect that has to be
/// followed by hand.
pub fn needs_redirect_lookup(url: &str) -> (r: bool)
    ensures
        r == redirects(url@),
{
    contains(url, "aweme.snssdk.com") || contains(url, "api-h2.amemv.com")
}

/// Whether the video at `url` lies with Bilibili.
pub open spec fn is_bilibili_video(url: Seq<char>) -> bool {
    occurs(url, "bilibili.com"@) || occurs(url, "bilivideo"@)
}

/// The page that the proxy names as the one a request for the video at
/// `url` comes from.
pub fn proxy_referer(url: &str) -> (r: Option<&'static str>)
    ensures
        slice_in(r) == if is_bilibili_video(url@) {
            Some("https://www.bilibili.com/"@)
        } else {
            None
        },
{
    if contains(url, "bilibili.com") || contains(url, "bilivideo") {
        Some("https://www.bilibili.com/")
    } else {
        None
    }
}

/// Whether the proxy hands the upstream's header `name` on to the player.
pub open spec fn is_passed_through(name: Seq<char>) -> bool {
    name == "content-type"@ || name == "content-length"@ || name == "content-range"@ || name
        == "accept-ranges"@
}

/// Whether the proxy hands the upstream's header `name` on to the player.
pub fn passes_through(name: &str) -> (r: bool)
    ensures
        r == is_passed_through(name@),
{
    str_eq(name, "content-type") || str_eq(name, "content-length") || str_eq(
        name,
        "content-range",
    ) || str_eq(name, "accept-ranges")
}

/// The status that the proxy answers with: the upstream's where it is a
/// status code, from 100 up to 999, and 200 where it is none.
pub fn proxy_status(upstream: u16) -> (r: u16)
    ensures
        r == if 100 <= upstream < 1000 {
            upstream
        } else {
            200u16
        },
{
    if 100 <= upstream && upstream < 1000 {
        upstream
    } else {
        200
    }
}

} // verus!
