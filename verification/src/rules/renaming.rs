//! Renamings: templates that move fields from one key to another, and the
//! proof that a renaming and its inverse give every field back.

use crate::json::{
    descend, field, lemma_first_member, lemma_position_from, lookup, JsonValue, MemberValue,
    StepValue,
};
use crate::rules::path::{ends_key, is_reference, key_end, path_of, prefixed, step_at, steps_from};
use crate::rules::template::{
    first_fault, has_member, member_fault, resolve, run, run_members, well_formed, RunFault,
};
use vstd::prelude::*;

verus! {

/// A field of one protocol, and the key under which the other protocol
/// holds the same.
pub ghost struct FieldPair {
    pub from: Seq<char>,
    pub to: Seq<char>,
}

/// Whether `key` can be written as one step of a path and can stand as a
/// key of a template: it is not empty, does not begin with `$`, and holds
/// none of `.`, `[` and `]`.
pub open spec fn plain_key(key: Seq<char>) -> bool {
    &&& key.len() > 0
    &&& key[0] != '$'
    &&& forall|i: int| 0 <= i < key.len() ==> !ends_key(#[trigger] key[i])
}

/// The path that goes into an object under `key`.
pub open spec fn reference_to(key: Seq<char>) -> Seq<char> {
    seq!['$', '.'] + key
}

/// The template that moves each `from` of `pairs` to its `to`.
pub open spec fn renaming(pairs: Seq<FieldPair>) -> JsonValue {
    JsonValue::Object(renaming_members(pairs))
}

/// The members of the template that moves each `from` of `pairs` to its `to`.
pub open spec fn renaming_members(pairs: Seq<FieldPair>) -> Seq<MemberValue> {
    Seq::new(
        pairs.len(),
        |i: int|
            MemberValue { key: pairs[i].to, value: JsonValue::Text(reference_to(pairs[i].from)) },
    )
}

/// `pairs`, each turned round.
pub open spec fn inverse(pairs: Seq<FieldPair>) -> Seq<FieldPair> {
    Seq::new(pairs.len(), |i: int| FieldPair { from: pairs[i].to, to: pairs[i].from })
}

/// Whether `pairs` can be turned round: every key is plain, no two pairs
/// read the same field and no two write the same.
pub open spec fn invertible(pairs: Seq<FieldPair>) -> bool {
    &&& forall|i: int|
        0 <= i < pairs.len() ==> plain_key((#[trigger] pairs[i]).from) && plain_key(pairs[i].to)
    &&& forall|i: int, j: int|
        0 <= i < pairs.len() && 0 <= j < pairs.len() && i != j ==> (#[trigger] pairs[i]).from != (
        #[trigger] pairs[j]).from && pairs[i].to != pairs[j].to
}

/// Whether `doc` holds every field that `pairs` read.
pub open spec fn covers(doc: JsonValue, pairs: Seq<FieldPair>) -> bool {
    forall|i: int| 0 <= i < pairs.len() ==> field(doc, (#[trigger] pairs[i]).from) is Some
}

/// What the renaming by `pairs` makes of `doc`, member by member.
pub open spec fn renamed_members(pairs: Seq<FieldPair>, doc: JsonValue, upto: int) -> Seq<
    MemberValue,
> {
    Seq::new(
        upto as nat,
        |i: int| MemberValue { key: pairs[i].to, value: field(doc, pairs[i].from).unwrap() },
    )
}

/// A key without `.`, `[` and `]` runs to the end of the text.
proof fn lemma_key_runs_to_end(e: Seq<char>, pos: int)
    requires
        0 <= pos <= e.len(),
        forall|i: int| pos <= i < e.len() ==> !ends_key(#[trigger] e[i]),
    ensures
        key_end(e, pos) == e.len(),
    decreases e.len() - pos,
{
    if pos < e.len() {
        lemma_key_runs_to_end(e, pos + 1);
    }
}

/// The reference to a plain key is the path of one step, into that key.
pub proof fn lemma_reference_path(key: Seq<char>)
    requires
        plain_key(key),
    ensures
        is_reference(reference_to(key)),
        path_of(reference_to(key)) == Some(seq![StepValue::Key(key)]),
{
    let e = reference_to(key);
    assert(e[0] == '$' && e[1] == '.');
    assert forall|i: int| 2 <= i < e.len() implies !ends_key(#[trigger] e[i]) by {
        assert(e[i] == key[i - 2]);
    }
    lemma_key_runs_to_end(e, 2);
    assert(e.subrange(2, e.len() as int) =~= key);
    assert(step_at(e, 1) == Some((StepValue::Key(key), e.len() as int)));
    assert(steps_from(e, e.len() as int) == Some(Seq::<StepValue>::empty()));
    assert(seq![StepValue::Key(key)] + Seq::<StepValue>::empty() =~= seq![StepValue::Key(key)]);
    assert(steps_from(e, 1) == prefixed(seq![StepValue::Key(key)], steps_from(e, e.len() as int)));
}

/// The reference to a plain key finds what the document holds under it.
pub proof fn lemma_reference_resolves(key: Seq<char>, doc: JsonValue)
    requires
        plain_key(key),
    ensures
        resolve(doc, reference_to(key)) == field(doc, key),
{
    lemma_reference_path(key);
    let steps = seq![StepValue::Key(key)];
    assert(lookup(doc, steps) == descend(doc, steps, 0));
    match field(doc, key) {
        Some(inner) => {
            assert(descend(inner, steps, 1) == Some(inner));
        },
        None => {},
    }
}

/// No member is found under a key that begins with `$` among members whose
/// keys do not.
pub proof fn lemma_no_directive(members: Seq<MemberValue>, key: Seq<char>)
    requires
        is_reference(key),
        forall|i: int| 0 <= i < members.len() ==> !is_reference((#[trigger] members[i]).key),
    ensures
        !has_member(members, key),
{
    lemma_position_from(members, key, 0);
}

/// The renaming by `pairs` makes of the first `upto` members the fields of
/// `doc`, each under its new key.
proof fn lemma_renaming_members(pairs: Seq<FieldPair>, doc: JsonValue, upto: nat)
    requires
        invertible(pairs),
        covers(doc, pairs),
        upto <= pairs.len(),
    ensures
        run_members(renaming_members(pairs), doc, upto) == Ok::<Seq<MemberValue>, RunFault>(
            renamed_members(pairs, doc, upto as int),
        ),
        member_fault(renaming_members(pairs), upto) is None,
    decreases upto,
{
    let members = renaming_members(pairs);
    if upto == 0 {
        assert(renamed_members(pairs, doc, 0) =~= Seq::empty());
    } else {
        lemma_renaming_members(pairs, doc, (upto - 1) as nat);
        let pair = pairs[upto - 1];
        assert(members[upto - 1].key == pair.to);
        assert(members[upto - 1].value == JsonValue::Text(reference_to(pair.from)));
        lemma_reference_path(pair.from);
        lemma_reference_resolves(pair.from, doc);
        assert(field(doc, pair.from) is Some);
        assert(!is_reference(pair.to));
        assert(first_fault(members[upto - 1].value) is None);
        assert(run(members[upto - 1].value, doc) == Ok::<JsonValue, RunFault>(
            field(doc, pair.from).unwrap(),
        ));
        assert(renamed_members(pairs, doc, upto as int) =~= renamed_members(
            pairs,
            doc,
            upto - 1,
        ).push(MemberValue { key: pair.to, value: field(doc, pair.from).unwrap() }));
    }
}

/// The renaming by `pairs` is well formed, and what it makes of `doc` holds
/// under each new key what `doc` holds under the old.
pub proof fn lemma_renaming_run(pairs: Seq<FieldPair>, doc: JsonValue)
    requires
        invertible(pairs),
        covers(doc, pairs),
    ensures
        well_formed(renaming(pairs)),
        run(renaming(pairs), doc) == Ok::<JsonValue, RunFault>(
            JsonValue::Object(renamed_members(pairs, doc, pairs.len() as int)),
        ),
        forall|i: int|
            0 <= i < pairs.len() ==> field(
                JsonValue::Object(renamed_members(pairs, doc, pairs.len() as int)),
                (#[trigger] pairs[i]).to,
            ) == field(doc, pairs[i].from),
{
    let members = renaming_members(pairs);
    reveal_strlit("$literal");
    reveal_strlit("$path");
    assert forall|i: int| 0 <= i < members.len() implies !is_reference(
        (#[trigger] members[i]).key,
    ) by {
        assert(members[i].key == pairs[i].to);
    }
    lemma_no_directive(members, "$literal"@);
    lemma_no_directive(members, "$path"@);
    lemma_renaming_members(pairs, doc, pairs.len());
    let made = renamed_members(pairs, doc, pairs.len() as int);
    assert forall|i: int| 0 <= i < pairs.len() implies field(
        JsonValue::Object(made),
        (#[trigger] pairs[i]).to,
    ) == field(doc, pairs[i].from) by {
        assert forall|j: int| 0 <= j < i implies (#[trigger] made[j]).key != pairs[i].to by {
            assert(made[j].key == pairs[j].to);
        }
        lemma_first_member(made, pairs[i].to, 0, i);
    }
}

/// A renaming and its inverse give every field back: where `pairs` can be
/// turned round and `doc` holds every field they read, the renaming makes a
/// document of `doc`, its inverse makes a document of that, and this last
/// one holds under every key that `pairs` read what `doc` holds there.
pub proof fn law_renaming_round_trip(pairs: Seq<FieldPair>, doc: JsonValue)
    requires
        invertible(pairs),
        covers(doc, pairs),
    ensures
        well_formed(renaming(pairs)),
        well_formed(renaming(inverse(pairs))),
        run(renaming(pairs), doc) is Ok,
        run(renaming(inverse(pairs)), run(renaming(pairs), doc)->Ok_0) is Ok,
        forall|i: int|
            0 <= i < pairs.len() ==> field(
                run(renaming(inverse(pairs)), run(renaming(pairs), doc)->Ok_0)->Ok_0,
                (#[trigger] pairs[i]).from,
            ) == field(doc, pairs[i].from),
{
    lemma_renaming_run(pairs, doc);
    let there = run(renaming(pairs), doc)->Ok_0;
    let back_pairs = inverse(pairs);
    assert forall|i: int| 0 <= i < back_pairs.len() implies field(
        there,
        (#[trigger] back_pairs[i]).from,
    ) is Some by {
        assert(back_pairs[i].from == pairs[i].to);
    }
    assert(invertible(back_pairs)) by {
        assert forall|i: int| 0 <= i < back_pairs.len() implies plain_key(
            (#[trigger] back_pairs[i]).from,
        ) && plain_key(back_pairs[i].to) by {
            assert(back_pairs[i].from == pairs[i].to);
        }
        assert forall|i: int, j: int|
            0 <= i < back_pairs.len() && 0 <= j < back_pairs.len() && i != j implies (
        #[trigger] back_pairs[i]).from != (#[trigger] back_pairs[j]).from && back_pairs[i].to
            != back_pairs[j].to by {
            assert(back_pairs[i].from == pairs[i].to && back_pairs[j].from == pairs[j].to);
        }
    }
    lemma_renaming_run(back_pairs, there);
    let back = run(renaming(back_pairs), there)->Ok_0;
    assert forall|i: int| 0 <= i < pairs.len() implies field(back, (#[trigger] pairs[i]).from)
        == field(doc, pairs[i].from) by {
        assert(back_pairs[i].to == pairs[i].from);
        assert(field(back, back_pairs[i].to) == field(there, back_pairs[i].from));
    }
}

} // verus!
