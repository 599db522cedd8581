//! Templates: what they may say, and what they make of a document.
//!
//! A template is itself a JSON document. Where it holds
//!
//! - a text that begins with `$`, the text is a path, and the result is what
//!   the input holds there; the field is required;
//! - an object `{"$literal": v}`, the result is `v` as it stands;
//! - an object with `"$path"`, the result is what the input holds there,
//!   or `"$default"` where the input holds nothing there; with `"$each"`
//!   the place must hold an array, and each of its items is reshaped by that
//!   template, which sees the item as its input; with `"$map"` the place
//!   must hold a text, which is replaced as the table says and left as it is
//!   where the table has no entry for it;
//! - any other object or an array, the result has the same shape, each part
//!   reshaped in turn;
//! - anything else, the result is the same value.

use crate::json::{
    find_member, lemma_array_view, lemma_item_is_smaller, lemma_member_is_smaller,
    lemma_object_view, lookup, member_views, position, value_in, views, Json, JsonValue, Member,
    MemberValue,
};
use crate::rules::path::{is_reference, parse_path, path_of};
use crate::text::str_eq;
use vstd::prelude::*;

verus! {

/// Why a template is refused.
#[derive(Debug, PartialEq, Eq)]
pub enum RuleCompileError {
    /// The template is no JSON document; the reader's message says why.
    Syntax(String),
    /// The text is written as a path and is none.
    BadPath(String),
    /// The member under this key is no directive, or is used against the
    /// rules of its directive.
    BadDirective(String),
}

/// Why a template could not reshape a document.
#[derive(Debug, PartialEq, Eq)]
pub enum RuleExecutionError {
    /// The document holds nothing at this path, and the path is required.
    MissingField(String),
    /// The document holds a value of the wrong kind at this path.
    TypeMismatch(String),
}

pub ghost enum CompileFault {
    Syntax(Seq<char>),
    BadPath(Seq<char>),
    BadDirective(Seq<char>),
}

pub ghost enum RunFault {
    MissingField(Seq<char>),
    TypeMismatch(Seq<char>),
}

impl View for RuleCompileError {
    type V = CompileFault;

    open spec fn view(&self) -> CompileFault {
        match self {
            RuleCompileError::Syntax(message) => CompileFault::Syntax(message@),
            RuleCompileError::BadPath(e) => CompileFault::BadPath(e@),
            RuleCompileError::BadDirective(k) => CompileFault::BadDirective(k@),
        }
    }
}

impl View for RuleExecutionError {
    type V = RunFault;

    open spec fn view(&self) -> RunFault {
        match self {
            RuleExecutionError::MissingField(e) => RunFault::MissingField(e@),
            RuleExecutionError::TypeMismatch(e) => RunFault::TypeMismatch(e@),
        }
    }
}

/// Whether `members` holds one under `key`.
pub open spec fn has_member(members: Seq<MemberValue>, key: Seq<char>) -> bool {
    0 <= position(members, key) < members.len()
}

/// Whether `key` names a directive that may stand beside `$path`.
pub open spec fn is_path_directive(key: Seq<char>) -> bool {
    key == "$path"@ || key == "$default"@ || key == "$each"@ || key == "$map"@
}

/// The position at or after `start` of the first member that may not stand
/// beside `$path`, or -1.
pub open spec fn stray_member(members: Seq<MemberValue>, start: int) -> int
    decreases members.len() - start,
{
    if start < 0 || start >= members.len() {
        -1
    } else if !is_path_directive(members[start].key) {
        start
    } else {
        stray_member(members, start + 1)
    }
}

/// Whether the first `upto` of `members` all hold a text.
pub open spec fn all_text(members: Seq<MemberValue>, upto: int) -> bool
    decreases upto,
{
    upto <= 0 || (upto <= members.len() && members[upto - 1].value is Text && all_text(
        members,
        upto - 1,
    ))
}

/// Whether `doc` is a table from texts to texts.
pub open spec fn is_table(doc: JsonValue) -> bool {
    match doc {
        JsonValue::Object(entries) => all_text(entries, entries.len() as int),
        _ => false,
    }
}

/// What is wrong with the template `t`: the first fault in reading order, or
/// nothing where `t` is well formed.
pub open spec fn first_fault(t: JsonValue) -> Option<CompileFault>
    decreases t, 0nat,
{
    match t {
        JsonValue::Text(s) => if is_reference(s) && path_of(s) is None {
            Some(CompileFault::BadPath(s))
        } else {
            None
        },
        JsonValue::Array(items) => item_fault(items, items.len()),
        JsonValue::Object(members) => if has_member(members, "$literal"@) {
            if members.len() == 1 {
                None
            } else {
                Some(CompileFault::BadDirective("$literal"@))
            }
        } else if has_member(members, "$path"@) {
            match members[position(members, "$path"@)].value {
                JsonValue::Text(e) => if path_of(e) is None {
                    Some(CompileFault::BadPath(e))
                } else if stray_member(members, 0) >= 0 {
                    Some(CompileFault::BadDirective(members[stray_member(members, 0)].key))
                } else if has_member(members, "$each"@) && has_member(members, "$map"@) {
                    Some(CompileFault::BadDirective("$map"@))
                } else if has_member(members, "$each"@) {
                    first_fault(members[position(members, "$each"@)].value)
                } else if has_member(members, "$map"@) && !is_table(
                    members[position(members, "$map"@)].value,
                ) {
                    Some(CompileFault::BadDirective("$map"@))
                } else {
                    None
                },
                _ => Some(CompileFault::BadDirective("$path"@)),
            }
        } else {
            member_fault(members, members.len())
        },
        _ => None,
    }
}

/// The first fault among the first `upto` of `items`.
pub open spec fn item_fault(items: Seq<JsonValue>, upto: nat) -> Option<CompileFault>
    decreases items, upto,
{
    if upto == 0 || upto > items.len() {
        None
    } else {
        match item_fault(items, (upto - 1) as nat) {
            Some(fault) => Some(fault),
            None => first_fault(items[upto - 1]),
        }
    }
}

/// The first fault among the first `upto` of `members`, none of which may
/// have a key that begins with `$`.
pub open spec fn member_fault(members: Seq<MemberValue>, upto: nat) -> Option<CompileFault>
    decreases members, upto,
{
    if upto == 0 || upto > members.len() {
        None
    } else {
        match member_fault(members, (upto - 1) as nat) {
            Some(fault) => Some(fault),
            None => if is_reference(members[upto - 1].key) {
                Some(CompileFault::BadDirective(members[upto - 1].key))
            } else {
                first_fault(members[upto - 1].value)
            },
        }
    }
}

/// Whether `t` may be used as a template.
pub open spec fn well_formed(t: JsonValue) -> bool {
    first_fault(t) is None
}

/// What the table `entries` says in place of `s`: the text of the first entry
/// under `s`, or `s` itself where there is none.
pub open spec fn translated(entries: Seq<MemberValue>, s: Seq<char>) -> Seq<char> {
    if has_member(entries, s) {
        match entries[position(entries, s)].value {
            JsonValue::Text(to) => to,
            _ => s,
        }
    } else {
        s
    }
}

/// What the input holds at the path that `e` writes.
pub open spec fn resolve(input: JsonValue, e: Seq<char>) -> Option<JsonValue> {
    match path_of(e) {
        Some(steps) => lookup(input, steps),
        None => None,
    }
}

/// What the template `t` makes of `input`.
pub open spec fn run(t: JsonValue, input: JsonValue) -> Result<JsonValue, RunFault>
    decreases t, 0nat,
{
    match t {
        JsonValue::Text(s) => if is_reference(s) {
            match resolve(input, s) {
                Some(v) => Ok(v),
                None => Err(RunFault::MissingField(s)),
            }
        } else {
            Ok(t)
        },
        JsonValue::Array(items) => match run_items(items, input, items.len()) {
            Ok(made) => Ok(JsonValue::Array(made)),
            Err(fault) => Err(fault),
        },
        JsonValue::Object(members) => if has_member(members, "$literal"@) {
            Ok(members[position(members, "$literal"@)].value)
        } else if has_member(members, "$path"@) {
            match members[position(members, "$path"@)].value {
                JsonValue::Text(e) => match resolve(input, e) {
                    None => if has_member(members, "$default"@) {
                        Ok(members[position(members, "$default"@)].value)
                    } else {
                        Err(RunFault::MissingField(e))
                    },
                    Some(found) => if has_member(members, "$each"@) {
                        match found {
                            JsonValue::Array(elements) => match run_each(
                                members[position(members, "$each"@)].value,
                                elements,
                                elements.len(),
                            ) {
                                Ok(made) => Ok(JsonValue::Array(made)),
                                Err(fault) => Err(fault),
                            },
                            _ => Err(RunFault::TypeMismatch(e)),
                        }
                    } else if has_member(members, "$map"@) {
                        match (found, members[position(members, "$map"@)].value) {
                            (JsonValue::Text(s), JsonValue::Object(entries)) => Ok(
                                JsonValue::Text(translated(entries, s)),
                            ),
                            _ => Err(RunFault::TypeMismatch(e)),
                        }
                    } else {
                        Ok(found)
                    },
                },
                _ => Err(RunFault::TypeMismatch("$path"@)),
            }
        } else {
            match run_members(members, input, members.len()) {
                Ok(made) => Ok(JsonValue::Object(made)),
                Err(fault) => Err(fault),
            }
        },
        _ => Ok(t),
    }
}

/// What the first `upto` of the templates `items` make of `input`.
pub open spec fn run_items(items: Seq<JsonValue>, input: JsonValue, upto: nat) -> Result<
    Seq<JsonValue>,
    RunFault,
>
    decreases items, upto,
{
    if upto == 0 || upto > items.len() {
        Ok(Seq::empty())
    } else {
        match run_items(items, input, (upto - 1) as nat) {
            Err(fault) => Err(fault),
            Ok(before) => match run(items[upto - 1], input) {
                Ok(v) => Ok(before.push(v)),
                Err(fault) => Err(fault),
            },
        }
    }
}

/// What the first `upto` of the templates in `members` make of `input`,
/// each under its key.
pub open spec fn run_members(members: Seq<MemberValue>, input: JsonValue, upto: nat) -> Result<
    Seq<MemberValue>,
    RunFault,
>
    decreases members, upto,
{
    if upto == 0 || upto > members.len() {
        Ok(Seq::empty())
    } else {
        match run_members(members, input, (upto - 1) as nat) {
            Err(fault) => Err(fault),
            Ok(before) => match run(members[upto - 1].value, input) {
                Ok(v) => Ok(before.push(MemberValue { key: members[upto - 1].key, value: v })),
                Err(fault) => Err(fault),
            },
        }
    }
}

/// What the template `t` makes of each of the first `upto` of `elements`.
pub open spec fn run_each(t: JsonValue, elements: Seq<JsonValue>, upto: nat) -> Result<
    Seq<JsonValue>,
    RunFault,
>
    decreases t, upto,
{
    if upto == 0 || upto > elements.len() {
        Ok(Seq::empty())
    } else {
        match run_each(t, elements, (upto - 1) as nat) {
            Err(fault) => Err(fault),
            Ok(before) => match run(t, elements[upto - 1]) {
                Ok(v) => Ok(before.push(v)),
                Err(fault) => Err(fault),
            },
        }
    }
}

/// What a fault that may be absent says.
pub open spec fn fault_in(fault: Option<RuleCompileError>) -> Option<CompileFault> {
    match fault {
        Some(f) => Some(f@),
        None => None,
    }
}

/// What the outcome of a run says.
pub open spec fn outcome_of(r: Result<Json, RuleExecutionError>) -> Result<JsonValue, RunFault> {
    match r {
        Ok(v) => Ok(v@),
        Err(e) => Err(e@),
    }
}

/// A fault among the first items is the fault of any longer run of them.
proof fn lemma_item_fault_stays(items: Seq<JsonValue>, found: nat, upto: nat)
    requires
        item_fault(items, found) is Some,
        found <= upto <= items.len(),
    ensures
        item_fault(items, upto) == item_fault(items, found),
    decreases upto,
{
    if found < upto {
        lemma_item_fault_stays(items, found, (upto - 1) as nat);
    }
}

/// A fault among the first members is the fault of any longer run of them.
proof fn lemma_member_fault_stays(members: Seq<MemberValue>, found: nat, upto: nat)
    requires
        member_fault(members, found) is Some,
        found <= upto <= members.len(),
    ensures
        member_fault(members, upto) == member_fault(members, found),
    decreases upto,
{
    if found < upto {
        lemma_member_fault_stays(members, found, (upto - 1) as nat);
    }
}

/// A fault of the first items is the fault of any longer run of them.
proof fn lemma_run_items_stays(items: Seq<JsonValue>, input: JsonValue, found: nat, upto: nat)
    requires
        run_items(items, input, found) is Err,
        found <= upto <= items.len(),
    ensures
        run_items(items, input, upto) == run_items(items, input, found),
    decreases upto,
{
    if found < upto {
        lemma_run_items_stays(items, input, found, (upto - 1) as nat);
    }
}

/// A fault of the first members is the fault of any longer run of them.
proof fn lemma_run_members_stays(
    members: Seq<MemberValue>,
    input: JsonValue,
    found: nat,
    upto: nat,
)
    requires
        run_members(members, input, found) is Err,
        found <= upto <= members.len(),
    ensures
        run_members(members, input, upto) == run_members(members, input, found),
    decreases upto,
{
    if found < upto {
        lemma_run_members_stays(members, input, found, (upto - 1) as nat);
    }
}

/// A fault at the first elements is the fault of any longer run of them.
proof fn lemma_run_each_stays(t: JsonValue, elements: Seq<JsonValue>, found: nat, upto: nat)
    requires
        run_each(t, elements, found) is Err,
        found <= upto <= elements.len(),
    ensures
        run_each(t, elements, upto) == run_each(t, elements, found),
    decreases upto,
{
    if found < upto {
        lemma_run_each_stays(t, elements, found, (upto - 1) as nat);
    }
}

/// Whether `s` is written as a reference to a path.
pub fn is_reference_text(s: &str) -> (r: bool)
    ensures
        r == is_reference(s@),
{
    s.unicode_len() > 0 && s.get_char(0) == '$'
}

/// The position of the first member that may not stand beside `$path`.
fn find_stray(members: &Vec<Member>) -> (r: Option<usize>)
    ensures
        match r {
            Some(i) => i == stray_member(member_views(members@), 0) && i < members.len(),
            None => stray_member(member_views(members@), 0) == -1,
        },
{
    let ghost ms = member_views(members@);
    let mut i: usize = 0;
    while i < members.len()
        invariant
            i <= members.len(),
            ms == member_views(members@),
            stray_member(ms, 0) == stray_member(ms, i as int),
        decreases members.len() - i,
    {
        let key: &str = members[i].key.as_str();
        assert(ms[i as int].key == key@);
        if !(str_eq(key, "$path") || str_eq(key, "$default") || str_eq(key, "$each") || str_eq(
            key,
            "$map",
        )) {
            return Some(i);
        }
        i = i + 1;
    }
    None
}

/// Whether `doc` is a table from texts to texts.
fn table_ok(doc: &Json) -> (r: bool)
    ensures
        r == is_table(doc@),
{
    match doc.as_object() {
        Some(entries) => {
            let ghost es = member_views(entries@);
            let mut i: usize = 0;
            while i < entries.len()
                invariant
                    i <= entries.len(),
                    es == member_views(entries@),
                    doc@ == JsonValue::Object(es),
                    all_text(es, i as int),
                decreases entries.len() - i,
            {
                assert(es[i as int].value == entries@[i as int].value@);
                match &entries[i].value {
                    Json::Text(_) => {},
                    _ => {
                        proof {
                            lemma_not_all_text(es, i as int, entries.len() as int);
                        }
                        return false;
                    },
                }
                i = i + 1;
            }
            true
        },
        None => false,
    }
}

/// One member that holds no text spoils every longer run of members.
proof fn lemma_not_all_text(entries: Seq<MemberValue>, at: int, upto: int)
    requires
        0 <= at < upto <= entries.len(),
        !(entries[at].value is Text),
    ensures
        !all_text(entries, upto),
    decreases upto,
{
    if at + 1 < upto {
        lemma_not_all_text(entries, at, upto - 1);
    }
}

/// What is wrong with the template `t`: the first fault in reading order.
pub fn check(t: &Json) -> (r: Option<RuleCompileError>)
    ensures
        fault_in(r) == first_fault(t@),
    decreases t,
{
    match t {
        Json::Text(s) => {
            if is_reference_text(s.as_str()) && parse_path(s.as_str()).is_none() {
                Some(RuleCompileError::BadPath(s.clone()))
            } else {
                None
            }
        },
        Json::Array(items) => {
            proof {
                lemma_array_view(*items);
            }
            let ghost ts = views(items@);
            let mut i: usize = 0;
            while i < items.len()
                invariant
                    i <= items.len(),
                    *t == Json::Array(*items),
                    ts == views(items@),
                    t@ == JsonValue::Array(ts),
                    item_fault(ts, i as nat) is None,
                decreases items.len() - i,
            {
                proof {
                    lemma_item_is_smaller(*t, i as int);
                    assert(ts[i as int] == items@[i as int]@);
                }
                match check(&items[i]) {
                    Some(fault) => {
                        proof {
                            lemma_item_fault_stays(ts, (i + 1) as nat, items.len() as nat);
                        }
                        return Some(fault);
                    },
                    None => {},
                }
                i = i + 1;
            }
            None
        },
        Json::Object(members) => {
            proof {
                lemma_object_view(*members);
            }
            let ghost ms = member_views(members@);
            if find_member(members, "$literal").is_some() {
                return if members.len() == 1 {
                    None
                } else {
                    Some(RuleCompileError::BadDirective("$literal".to_owned()))
                };
            }
            match find_member(members, "$path") {
                Some(p) => {
                    assert(ms[p as int].value == members@[p as int].value@);
                    let expr: &str = match &members[p].value {
                        Json::Text(e) => e.as_str(),
                        _ => {
                            return Some(RuleCompileError::BadDirective("$path".to_owned()));
                        },
                    };
                    if parse_path(expr).is_none() {
                        return Some(RuleCompileError::BadPath(expr.to_owned()));
                    }
                    match find_stray(members) {
                        Some(k) => {
                            assert(ms[k as int].key == members@[k as int].key@);
                            return Some(RuleCompileError::BadDirective(members[k].key.clone()));
                        },
                        None => {},
                    }
                    let each: Option<usize> = find_member(members, "$each");
                    let table: Option<usize> = find_member(members, "$map");
                    match (each, table) {
                        (Some(_), Some(_)) => Some(
                            RuleCompileError::BadDirective("$map".to_owned()),
                        ),
                        (Some(k), None) => {
                            proof {
                                lemma_member_is_smaller(*t, k as int);
                                assert(ms[k as int].value == members@[k as int].value@);
                            }
                            check(&members[k].value)
                        },
                        (None, Some(k)) => {
                            assert(ms[k as int].value == members@[k as int].value@);
                            if table_ok(&members[k].value) {
                                None
                            } else {
                                Some(RuleCompileError::BadDirective("$map".to_owned()))
                            }
                        },
                        (None, None) => None,
                    }
                },
                None => {
                    let mut i: usize = 0;
                    while i < members.len()
                        invariant
                            i <= members.len(),
                            *t == Json::Object(*members),
                            ms == member_views(members@),
                            t@ == JsonValue::Object(ms),
                            !has_member(ms, "$literal"@),
                            !has_member(ms, "$path"@),
                            member_fault(ms, i as nat) is None,
                        decreases members.len() - i,
                    {
                        proof {
                            lemma_member_is_smaller(*t, i as int);
                            assert(ms[i as int] == members@[i as int]@);
                        }
                        if is_reference_text(members[i].key.as_str()) {
                            proof {
                                lemma_member_fault_stays(ms, (i + 1) as nat, members.len() as nat);
                            }
                            return Some(RuleCompileError::BadDirective(members[i].key.clone()));
                        }
                        match check(&members[i].value) {
                            Some(fault) => {
                                proof {
                                    lemma_member_fault_stays(
                                        ms,
                                        (i + 1) as nat,
                                        members.len() as nat,
                                    );
                                }
                                return Some(fault);
                            },
                            None => {},
                        }
                        i = i + 1;
                    }
                    None
                },
            }
        },
        _ => None,
    }
}

/// What `input` holds at the path that `expr` writes.
pub fn resolve_path<'a>(input: &'a Json, expr: &str) -> (r: Option<&'a Json>)
    ensures
        value_in(r) == resolve(input@, expr@),
{
    match parse_path(expr) {
        Some(steps) => input.at(&steps),
        None => None,
    }
}

/// What the table `entries` says in place of `s`.
fn translate(entries: &Vec<Member>, s: &str) -> (r: String)
    ensures
        r@ == translated(member_views(entries@), s@),
{
    match find_member(entries, s) {
        Some(k) => {
            assert(member_views(entries@)[k as int].value == entries@[k as int].value@);
            match &entries[k].value {
                Json::Text(to) => to.clone(),
                _ => s.to_owned(),
            }
        },
        None => s.to_owned(),
    }
}

/// What the template `t` makes of `input`.
pub fn execute(t: &Json, input: &Json) -> (r: Result<Json, RuleExecutionError>)
    ensures
        outcome_of(r) == run(t@, input@),
    decreases t,
{
    match t {
        Json::Text(s) => {
            if is_reference_text(s.as_str()) {
                match resolve_path(input, s.as_str()) {
                    Some(v) => Ok(v.duplicate()),
                    None => Err(RuleExecutionError::MissingField(s.clone())),
                }
            } else {
                Ok(t.duplicate())
            }
        },
        Json::Array(items) => {
            proof {
                lemma_array_view(*items);
            }
            let ghost ts = views(items@);
            let mut out: Vec<Json> = Vec::new();
            let mut i: usize = 0;
            assert(views(out@) =~= Seq::empty());
            while i < items.len()
                invariant
                    i <= items.len(),
                    *t == Json::Array(*items),
                    ts == views(items@),
                    t@ == JsonValue::Array(ts),
                    run_items(ts, input@, i as nat) == Ok::<Seq<JsonValue>, RunFault>(views(out@)),
                decreases items.len() - i,
            {
                proof {
                    lemma_item_is_smaller(*t, i as int);
                    assert(ts[i as int] == items@[i as int]@);
                }
                match execute(&items[i], input) {
                    Ok(v) => {
                        let ghost before = views(out@);
                        out.push(v);
                        assert(views(out@) =~= before.push(v@));
                    },
                    Err(fault) => {
                        proof {
                            lemma_run_items_stays(ts, input@, (i + 1) as nat, items.len() as nat);
                        }
                        return Err(fault);
                    },
                }
                i = i + 1;
            }
            proof {
                lemma_array_view(out);
            }
            Ok(Json::Array(out))
        },
        Json::Object(members) => {
            proof {
                lemma_object_view(*members);
            }
            let ghost ms = member_views(members@);
            match find_member(members, "$literal") {
                Some(k) => {
                    assert(ms[k as int].value == members@[k as int].value@);
                    return Ok(members[k].value.duplicate());
                },
                None => {},
            }
            match find_member(members, "$path") {
                Some(p) => {
                    assert(ms[p as int].value == members@[p as int].value@);
                    let expr: &str = match &members[p].value {
                        Json::Text(e) => e.as_str(),
                        _ => {
                            return Err(RuleExecutionError::TypeMismatch("$path".to_owned()));
                        },
                    };
                    let found: &Json = match resolve_path(input, expr) {
                        Some(found) => found,
                        None => {
                            return match find_member(members, "$default") {
                                Some(k) => {
                                    assert(ms[k as int].value == members@[k as int].value@);
                                    Ok(members[k].value.duplicate())
                                },
                                None => Err(RuleExecutionError::MissingField(expr.to_owned())),
                            };
                        },
                    };
                    match find_member(members, "$each") {
                        Some(k) => {
                            assert(ms[k as int].value == members@[k as int].value@);
                            let elements: &Vec<Json> = match found.as_array() {
                                Some(elements) => elements,
                                None => {
                                    return Err(
                                        RuleExecutionError::TypeMismatch(expr.to_owned()),
                                    );
                                },
                            };
                            let each: &Json = &members[k].value;
                            let ghost es = views(elements@);
                            let mut out: Vec<Json> = Vec::new();
                            let mut i: usize = 0;
                            assert(views(out@) =~= Seq::empty());
                            assert(run(t@, input@) == match run_each(each@, es, es.len()) {
                                Ok(made) => Ok::<JsonValue, RunFault>(JsonValue::Array(made)),
                                Err(fault) => Err(fault),
                            });
                            while i < elements.len()
                                invariant
                                    i <= elements.len(),
                                    run(t@, input@) == match run_each(each@, es, es.len()) {
                                        Ok(made) => Ok::<JsonValue, RunFault>(
                                            JsonValue::Array(made),
                                        ),
                                        Err(fault) => Err(fault),
                                    },
                                    *t == Json::Object(*members),
                                    k < members.len(),
                                    *each == members@[k as int].value,
                                    es == views(elements@),
                                    run_each(each@, es, i as nat) == Ok::<
                                        Seq<JsonValue>,
                                        RunFault,
                                    >(views(out@)),
                                decreases elements.len() - i,
                            {
                                proof {
                                    lemma_member_is_smaller(*t, k as int);
                                    assert(es[i as int] == elements@[i as int]@);
                                }
                                match execute(each, &elements[i]) {
                                    Ok(v) => {
                                        let ghost before = views(out@);
                                        out.push(v);
                                        assert(views(out@) =~= before.push(v@));
                                    },
                                    Err(fault) => {
                                        proof {
                                            lemma_run_each_stays(
                                                each@,
                                                es,
                                                (i + 1) as nat,
                                                elements.len() as nat,
                                            );
                                        }
                                        return Err(fault);
                                    },
                                }
                                i = i + 1;
                            }
                            proof {
                                lemma_array_view(out);
                            }
                            return Ok(Json::Array(out));
                        },
                        None => {},
                    }
                    match find_member(members, "$map") {
                        Some(k) => {
                            assert(ms[k as int].value == members@[k as int].value@);
                            match (found, &members[k].value) {
                                (Json::Text(s), Json::Object(entries)) => {
                                    proof {
                                        lemma_object_view(*entries);
                                    }
                                    Ok(Json::Text(translate(entries, s.as_str())))
                                },
                                _ => Err(RuleExecutionError::TypeMismatch(expr.to_owned())),
                            }
                        },
                        None => Ok(found.duplicate()),
                    }
                },
                None => {
                    let mut out: Vec<Member> = Vec::new();
                    let mut i: usize = 0;
                    assert(member_views(out@) =~= Seq::empty());
                    while i < members.len()
                        invariant
                            i <= members.len(),
                            *t == Json::Object(*members),
                            ms == member_views(members@),
                            run(t@, input@) == match run_members(ms, input@, ms.len()) {
                                Ok(made) => Ok::<JsonValue, RunFault>(JsonValue::Object(made)),
                                Err(fault) => Err(fault),
                            },
                            run_members(ms, input@, i as nat) == Ok::<Seq<MemberValue>, RunFault>(
                                member_views(out@),
                            ),
                        decreases members.len() - i,
                    {
                        proof {
                            lemma_member_is_smaller(*t, i as int);
                            assert(ms[i as int] == members@[i as int]@);
                        }
                        match execute(&members[i].value, input) {
                            Ok(v) => {
                                let ghost before = member_views(out@);
                                let made = Member { key: members[i].key.clone(), value: v };
                                out.push(made);
                                assert(member_views(out@) =~= before.push(made@));
                            },
                            Err(fault) => {
                                proof {
                                    lemma_run_members_stays(
                                        ms,
                                        input@,
                                        (i + 1) as nat,
                                        members.len() as nat,
                                    );
                                }
                                return Err(fault);
                            },
                        }
                        i = i + 1;
                    }
                    proof {
                        lemma_object_view(out);
                    }
                    Ok(Json::Object(out))
                },
            }
        },
        _ => Ok(t.duplicate()),
    }
}

} // verus!
