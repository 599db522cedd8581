//! The upstream call as HTTP has it: where it goes and how it names its
//! key.

use crate::format::{endpoint_of, WireFormat};
use crate::text::{chars_of, push_str, strip_end, strip_end_chars, text_of};
use vstd::prelude::*;

verus! {

/// One header of a request.
#[derive(Debug, PartialEq, Eq)]
pub struct Header {
    pub name: String,
    pub value: String,
}

pub ghost struct HeaderView {
    pub name: Seq<char>,
    pub value: Seq<char>,
}

impl View for Header {
    type V = HeaderView;

    open spec fn view(&self) -> HeaderView {
        HeaderView { name: self.name@, value: self.value@ }
    }
}

/// The views of `headers`, in order.
pub open spec fn header_views(headers: Seq<Header>) -> Seq<HeaderView> {
    Seq::new(headers.len(), |i: int| headers[i]@)
}

/// The path that a call in `target` takes; a channel of no known format is
/// called at the path at which the client called.
pub open spec fn upstream_path(source: WireFormat, target: WireFormat) -> Seq<char> {
    match endpoint_of(target) {
        Some(path) => path,
        None => match endpoint_of(source) {
            Some(path) => path,
            None => Seq::empty(),
        },
    }
}

/// Where a call goes: the channel's base address without `/` at its end,
/// then the path.
pub open spec fn upstream_address(base_url: Seq<char>, source: WireFormat, target: WireFormat) -> Seq<
    char,
> {
    strip_end(base_url, "/"@) + upstream_path(source, target)
}

/// Where a call goes.
pub fn upstream_url(base_url: &str, source: WireFormat, target: WireFormat) -> (r: String)
    ensures
        r@ == upstream_address(base_url@, source, target),
{
    let mut out: Vec<char> = strip_end_chars(&chars_of(base_url), &chars_of("/"));
    let path: &str = match target.endpoint() {
        Some(p) => p,
        None => match source.endpoint() {
            Some(p) => p,
            None => "",
        },
    };
    proof {
        reveal_strlit("");
        assert(""@ =~= Seq::<char>::empty());
    }
    push_str(&mut out, path);
    text_of(&out)
}

/// How a call in `target` names its key and its content: Anthropic takes
/// the key under `x-api-key` and wants its version named; every other
/// format takes it as a bearer credential.
pub open spec fn upstream_headers(target: WireFormat, key: Seq<char>) -> Seq<HeaderView> {
    if target == WireFormat::Anthropic {
        seq![
            HeaderView { name: "content-type"@, value: "application/json"@ },
            HeaderView { name: "x-api-key"@, value: key },
            HeaderView { name: "anthropic-version"@, value: "2023-06-01"@ },
        ]
    } else {
        seq![
            HeaderView { name: "content-type"@, value: "application/json"@ },
            HeaderView { name: "authorization"@, value: "Bearer "@ + key },
        ]
    }
}

/// How a call in `target` names its key and its content.
pub fn auth_headers(target: WireFormat, key: &str) -> (r: Vec<Header>)
    ensures
        header_views(r@) == upstream_headers(target, key@),
{
    let mut headers: Vec<Header> = Vec::new();
    headers.push(
        Header { name: "content-type".to_owned(), value: "application/json".to_owned() },
    );
    if target == WireFormat::Anthropic {
        headers.push(Header { name: "x-api-key".to_owned(), value: key.to_owned() });
        headers.push(
            Header { name: "anthropic-version".to_owned(), value: "2023-06-01".to_owned() },
        );
    } else {
        headers.push(
            Header { name: "authorization".to_owned(), value: "Bearer ".to_owned().concat(key) },
        );
    }
    assert(header_views(headers@) =~= upstream_headers(target, key@));
    headers
}

} // verus!
