//! Answers that come as a stream of events: each line is reshaped as it
//! arrives, so that nothing waits for the whole answer.

use crate::dispatch::settle::{reshape, reshaped};
use crate::error::{GatewayError, GatewayFault};
use crate::format::WireFormat;
use crate::rules::registry::{CompiledRuleView, RuleRegistry};
use crate::text::{
    begins_with, chars_of, matches_at, push_str, slice_of, str_eq, text_of, trim_chars, trimmed,
};
use vstd::prelude::*;

verus! {

/// What a line of an event stream carries as data: what follows `data:`,
/// without white space at its ends; nothing where the line is no data line.
pub open spec fn payload_of(line: Seq<char>) -> Option<Seq<char>> {
    let prefix = "data:"@;
    if begins_with(line, prefix) {
        Some(trimmed(line.skip(prefix.len() as int)))
    } else {
        None
    }
}

/// Whether a payload is a document to reshape: it is not empty and not the
/// mark that ends a stream.
pub open spec fn is_document(payload: Seq<char>) -> bool {
    payload.len() > 0 && payload != "[DONE]"@
}

/// The line that the client gets for the line `line` of the upstream's
/// stream: a data line that carries a document carries the reshaped
/// document, and every other line passes as it is.
pub open spec fn event_line(
    line: Seq<char>,
    source: WireFormat,
    target: WireFormat,
    rules: Seq<CompiledRuleView>,
) -> Result<Seq<char>, GatewayFault> {
    match payload_of(line) {
        Some(payload) => if source != target && is_document(payload) {
            match reshaped(payload, source, target, false, rules) {
                Ok(made) => Ok("data: "@ + made),
                Err(fault) => Err(fault),
            }
        } else {
            Ok(line)
        },
        None => Ok(line),
    }
}

/// What a line of an event stream carries as data.
pub fn data_of(line: &str) -> (r: Option<String>)
    ensures
        crate::text::view_of(r) == payload_of(line@),
{
    let l: Vec<char> = chars_of(line);
    let prefix: Vec<char> = chars_of("data:");
    if !matches_at(&l, &prefix, 0) {
        return None;
    }
    let rest: Vec<char> = slice_of(&l, prefix.len(), l.len());
    assert(rest@ =~= line@.skip(prefix.len() as int));
    Some(text_of(&trim_chars(&rest)))
}

/// Reshapes one line of the upstream's stream for the client.
pub fn reshape_line(line: &str, source: WireFormat, target: WireFormat, registry: &RuleRegistry) -> (r:
    Result<String, GatewayError>)
    ensures
        match r {
            Ok(made) => event_line(line@, source, target, registry.rules()) == Ok::<
                Seq<char>,
                GatewayFault,
            >(made@),
            Err(e) => event_line(line@, source, target, registry.rules()) == Err::<
                Seq<char>,
                GatewayFault,
            >(e@),
        },
{
    let payload: String = match data_of(line) {
        Some(p) => p,
        None => {
            return Ok(line.to_owned());
        },
    };
    if source == target || payload.as_str().unicode_len() == 0 || str_eq(
        payload.as_str(),
        "[DONE]",
    ) {
        return Ok(line.to_owned());
    }
    match reshape(payload.as_str(), source, target, false, registry) {
        Ok(made) => Ok("data: ".to_owned().concat(made.as_str())),
        Err(e) => Err(e),
    }
}

/// The line that the client gets for the line `line` whatever becomes of
/// it: the reshaped line, or the line as it came where it cannot be
/// reshaped.
pub open spec fn relayed(
    line: Seq<char>,
    source: WireFormat,
    target: WireFormat,
    rules: Seq<CompiledRuleView>,
) -> Seq<char> {
    match event_line(line, source, target, rules) {
        Ok(made) => made,
        Err(_) => line,
    }
}

/// Reshapes one line of the upstream's stream for the client, and hands the
/// line on as it came where it cannot be reshaped, so that one line that is
/// out of shape does not end the stream.
pub fn relay_line(line: &str, source: WireFormat, target: WireFormat, registry: &RuleRegistry) -> (r:
    String)
    ensures
        r@ == relayed(line@, source, target, registry.rules()),
{
    match reshape_line(line, source, target, registry) {
        Ok(made) => made,
        Err(_) => line.to_owned(),
    }
}

/// Where the line that begins at `from` ends: at the first line feed at or
/// after `from`, or at the end of the text.
pub open spec fn line_end(s: Seq<char>, from: int) -> int
    decreases s.len() - from,
{
    if from < 0 || from >= s.len() || s[from] == '\n' {
        from
    } else {
        line_end(s, from + 1)
    }
}

/// The whole lines of `s` from `from` on: each piece that a line feed ends,
/// without the line feed.
pub open spec fn whole_lines(s: Seq<char>, from: int) -> Seq<Seq<char>>
    decreases s.len() - from,
{
    if from < 0 || from >= s.len() {
        Seq::empty()
    } else {
        let end = line_end(s, from);
        if from <= end < s.len() {
            seq![s.subrange(from, end)] + whole_lines(s, end + 1)
        } else {
            Seq::empty()
        }
    }
}

/// What of `s` from `from` on belongs to no whole line: what follows the
/// last line feed.
pub open spec fn unfinished(s: Seq<char>, from: int) -> Seq<char>
    decreases s.len() - from,
{
    if from < 0 || from >= s.len() {
        Seq::empty()
    } else {
        let end = line_end(s, from);
        if from <= end < s.len() {
            unfinished(s, end + 1)
        } else {
            s.subrange(from, s.len() as int)
        }
    }
}

/// The views of `lines`, in order.
pub open spec fn line_views(lines: Seq<String>) -> Seq<Seq<char>> {
    Seq::new(lines.len(), |i: int| lines[i]@)
}

/// What has arrived of a stream, cut into lines.
#[derive(Debug, PartialEq, Eq)]
pub struct Lines {
    /// The lines that are whole, without their line feeds.
    pub whole: Vec<String>,
    /// What has arrived of the line that is not whole yet.
    pub rest: String,
}

/// Where the line that begins at `from` ends.
fn scan_line(s: &Vec<char>, from: usize) -> (end: usize)
    requires
        from <= s.len(),
    ensures
        end == line_end(s@, from as int),
        from <= end <= s.len(),
{
    let mut i: usize = from;
    while i < s.len() && s[i] != '\n'
        invariant
            from <= i <= s.len(),
            line_end(s@, from as int) == line_end(s@, i as int),
        decreases s.len() - i,
    {
        i = i + 1;
    }
    i
}

/// Cuts what was left over, followed by what has arrived now, into lines.
pub fn split_lines(pending: &str, chunk: &str) -> (r: Lines)
    ensures
        line_views(r.whole@) == whole_lines(pending@ + chunk@, 0),
        r.rest@ == unfinished(pending@ + chunk@, 0),
{
    let mut s: Vec<char> = chars_of(pending);
    push_str(&mut s, chunk);
    let mut whole: Vec<String> = Vec::new();
    let mut pos: usize = 0;
    assert(line_views(whole@) + whole_lines(s@, 0) =~= whole_lines(s@, 0));
    while pos < s.len()
        invariant
            pos <= s.len(),
            s@ == pending@ + chunk@,
            whole_lines(s@, 0) == line_views(whole@) + whole_lines(s@, pos as int),
            unfinished(s@, 0) == unfinished(s@, pos as int),
        decreases s.len() - pos,
    {
        let end: usize = scan_line(&s, pos);
        if end >= s.len() {
            let rest: Vec<char> = slice_of(&s, pos, s.len());
            assert(line_views(whole@) + Seq::<Seq<char>>::empty() =~= line_views(whole@));
            return Lines { whole, rest: text_of(&rest) };
        }
        let ghost before = line_views(whole@);
        let line: Vec<char> = slice_of(&s, pos, end);
        whole.push(text_of(&line));
        proof {
            assert(line_views(whole@) =~= before.push(line@));
            assert(before + (seq![line@] + whole_lines(s@, end + 1)) =~= before.push(line@)
                + whole_lines(s@, end + 1));
        }
        pos = end + 1;
    }
    assert(line_views(whole@) + Seq::<Seq<char>>::empty() =~= line_views(whole@));
    Lines { whole, rest: String::new() }
}

/// What the client gets for the first `upto` of `lines`: each line as it
/// is relayed, with its line feed.
pub open spec fn relayed_lines(
    lines: Seq<Seq<char>>,
    source: WireFormat,
    target: WireFormat,
    rules: Seq<CompiledRuleView>,
    upto: int,
) -> Seq<char>
    decreases upto,
{
    if upto <= 0 || upto > lines.len() {
        Seq::empty()
    } else {
        relayed_lines(lines, source, target, rules, upto - 1) + relayed(
            lines[upto - 1],
            source,
            target,
            rules,
        ) + seq!['\n']
    }
}

/// What the client gets now, and what is kept for later.
#[derive(Debug, PartialEq, Eq)]
pub struct Relay {
    /// What goes to the client now.
    pub out: String,
    /// What has arrived of the line that is not whole yet.
    pub rest: String,
}

/// Relays what has arrived of the upstream's stream: every line that is
/// whole goes to the client, reshaped, and what follows the last line feed
/// is kept until more arrives.
pub fn relay_chunk(
    pending: &str,
    chunk: &str,
    source: WireFormat,
    target: WireFormat,
    registry: &RuleRegistry,
) -> (r: Relay)
    ensures
        r.out@ == relayed_lines(
            whole_lines(pending@ + chunk@, 0),
            source,
            target,
            registry.rules(),
            whole_lines(pending@ + chunk@, 0).len() as int,
        ),
        r.rest@ == unfinished(pending@ + chunk@, 0),
{
    let lines: Lines = split_lines(pending, chunk);
    let ghost ls = line_views(lines.whole@);
    let mut out: Vec<char> = Vec::new();
    let mut i: usize = 0;
    while i < lines.whole.len()
        invariant
            i <= lines.whole.len(),
            ls == line_views(lines.whole@),
            out@ == relayed_lines(ls, source, target, registry.rules(), i as int),
        decreases lines.whole.len() - i,
    {
        let ghost before = out@;
        let made: String = relay_line(lines.whole[i].as_str(), source, target, registry);
        assert(ls[i as int] == lines.whole@[i as int]@);
        push_str(&mut out, made.as_str());
        out.push('\n');
        assert(out@ =~= before + made@ + seq!['\n']);
        i = i + 1;
    }
    Relay { out: text_of(&out), rest: lines.rest }
}

} // verus!
