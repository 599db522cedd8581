//! The records that the gateway reads: tokens, channels with their keys,
//! and the mapping from model names to channels.
//!
//! The tables themselves live elsewhere. What is here says what a record
//! holds and how one is found among those that were read.

use crate::format::WireFormat;
use crate::text::str_eq;
use vstd::prelude::*;

verus! {

/// A credential issued to a client, with what it has used.
#[derive(Debug, PartialEq, Eq)]
pub struct Token {
    pub id: String,
    /// The bearer credential.
    pub key_value: String,
    pub enabled: bool,
    /// How many units the token may use; unlimited where absent.
    pub quota_limit: Option<u64>,
    /// How many units the token has used.
    pub quota_used: u64,
    /// How many requests went upstream in its name.
    pub request_count: u64,
}

/// One key of a channel.
#[derive(Debug, PartialEq, Eq)]
pub struct ApiKey {
    pub id: String,
    pub key_value: String,
    pub enabled: bool,
}

/// An upstream provider.
#[derive(Debug, PartialEq, Eq)]
pub struct Channel {
    pub id: String,
    pub name: String,
    /// The wire protocol that the provider speaks.
    pub format: WireFormat,
    pub base_url: String,
    pub keys: Vec<ApiKey>,
}

/// The channel and upstream model that serve a public model name.
#[derive(Debug, PartialEq, Eq)]
pub struct ModelMapping {
    pub public_name: String,
    pub channel_id: String,
    pub upstream_model: String,
}

/// Whether `token` has used up what it may use.
pub open spec fn exhausted(token: Token) -> bool {
    match token.quota_limit {
        Some(limit) => token.quota_used >= limit,
        None => false,
    }
}

/// The position at or after `start` of the first enabled token whose
/// credential is `key`, or -1.
pub open spec fn token_from(tokens: Seq<Token>, key: Seq<char>, start: int) -> int
    decreases tokens.len() - start,
{
    if start < 0 || start >= tokens.len() {
        -1
    } else if tokens[start].enabled && tokens[start].key_value@ == key {
        start
    } else {
        token_from(tokens, key, start + 1)
    }
}

/// The position at or after `start` of the first mapping of the public name
/// `name`, or -1.
pub open spec fn mapping_from(mappings: Seq<ModelMapping>, name: Seq<char>, start: int) -> int
    decreases mappings.len() - start,
{
    if start < 0 || start >= mappings.len() {
        -1
    } else if mappings[start].public_name@ == name {
        start
    } else {
        mapping_from(mappings, name, start + 1)
    }
}

/// The position at or after `start` of the first channel with the id `id`,
/// or -1.
pub open spec fn channel_from(channels: Seq<Channel>, id: Seq<char>, start: int) -> int
    decreases channels.len() - start,
{
    if start < 0 || start >= channels.len() {
        -1
    } else if channels[start].id@ == id {
        start
    } else {
        channel_from(channels, id, start + 1)
    }
}

/// How many of the first `upto` keys are enabled.
pub open spec fn enabled_count(keys: Seq<ApiKey>, upto: int) -> nat
    decreases upto,
{
    if upto <= 0 || upto > keys.len() {
        0
    } else if keys[upto - 1].enabled {
        enabled_count(keys, upto - 1) + 1
    } else {
        enabled_count(keys, upto - 1)
    }
}

/// The position at or after `start` of the enabled key that has `rank`
/// enabled keys between `start` and itself, or -1.
pub open spec fn enabled_at(keys: Seq<ApiKey>, rank: nat, start: int) -> int
    decreases keys.len() - start,
{
    if start < 0 || start >= keys.len() {
        -1
    } else if keys[start].enabled {
        if rank == 0 {
            start
        } else {
            enabled_at(keys, (rank - 1) as nat, start + 1)
        }
    } else {
        enabled_at(keys, rank, start + 1)
    }
}

/// The key whose turn it is: the enabled keys take turns in their order, and
/// of `n` enabled keys, turn `turn` falls to number `turn % n`. -1 where no
/// key is enabled.
pub open spec fn key_for(keys: Seq<ApiKey>, turn: u64) -> int {
    let n = enabled_count(keys, keys.len() as int);
    if n == 0 {
        -1
    } else {
        enabled_at(keys, (turn as nat) % n, 0)
    }
}

/// Where fewer enabled keys are asked to be passed over than there are from
/// `start` on, `enabled_at` finds a key, and the key is enabled.
pub proof fn lemma_enabled_at_found(keys: Seq<ApiKey>, rank: nat, start: int)
    requires
        0 <= start <= keys.len(),
        rank < enabled_count(keys, keys.len() as int) - enabled_count(keys, start),
    ensures
        start <= enabled_at(keys, rank, start) < keys.len(),
        keys[enabled_at(keys, rank, start)].enabled,
    decreases keys.len() - start,
{
    if start < keys.len() {
        if keys[start].enabled {
            assert(enabled_count(keys, start + 1) == enabled_count(keys, start) + 1);
            if rank > 0 {
                lemma_enabled_at_found(keys, (rank - 1) as nat, start + 1);
            }
        } else {
            assert(enabled_count(keys, start + 1) == enabled_count(keys, start));
            lemma_enabled_at_found(keys, rank, start + 1);
        }
    }
}

/// The key whose turn it is is one of the keys and is enabled, whenever any
/// key is enabled; and no key has a turn where none is.
pub proof fn law_turn_falls_to_enabled_key(keys: Seq<ApiKey>, turn: u64)
    ensures
        enabled_count(keys, keys.len() as int) == 0 ==> key_for(keys, turn) == -1,
        enabled_count(keys, keys.len() as int) > 0 ==> 0 <= key_for(keys, turn) < keys.len()
            && keys[key_for(keys, turn)].enabled,
{
    let n = enabled_count(keys, keys.len() as int);
    if n > 0 {
        assert((turn as nat) % n < n) by (nonlinear_arith)
            requires
                n > 0,
        ;
        lemma_enabled_at_found(keys, (turn as nat) % n, 0);
    }
}

/// The count of enabled keys does not go down as more keys are counted.
pub proof fn lemma_enabled_count_grows(keys: Seq<ApiKey>, a: int, b: int)
    requires
        0 <= a <= b <= keys.len(),
    ensures
        enabled_count(keys, a) <= enabled_count(keys, b),
    decreases b - a,
{
    if a < b {
        lemma_enabled_count_grows(keys, a, b - 1);
    }
}

/// From `start` on, the enabled key `i` is reached by passing over as many
/// enabled keys as lie between `start` and `i`.
proof fn lemma_enabled_at_reaches(keys: Seq<ApiKey>, start: int, i: int)
    requires
        0 <= start <= i < keys.len(),
        keys[i].enabled,
    ensures
        enabled_count(keys, start) <= enabled_count(keys, i),
        enabled_at(keys, (enabled_count(keys, i) - enabled_count(keys, start)) as nat, start) == i,
    decreases i - start,
{
    lemma_enabled_count_grows(keys, start, i);
    if start < i {
        lemma_enabled_count_grows(keys, start + 1, i);
        lemma_enabled_at_reaches(keys, start + 1, i);
    }
}

/// Every enabled key has its turn: of `n` enabled keys, the key with `k`
/// enabled keys before it is selected at every turn that leaves `k` when
/// divided by `n`.
pub proof fn law_every_enabled_key_has_a_turn(keys: Seq<ApiKey>, i: int, turn: u64)
    requires
        0 <= i < keys.len(),
        keys[i].enabled,
        (turn as nat) % enabled_count(keys, keys.len() as int) == enabled_count(keys, i),
    ensures
        key_for(keys, turn) == i,
{
    lemma_enabled_count_grows(keys, i + 1, keys.len() as int);
    lemma_enabled_at_reaches(keys, 0, i);
}

/// The token that `token_from` finds is enabled and has the credential.
pub proof fn lemma_token_from(tokens: Seq<Token>, key: Seq<char>, start: int)
    requires
        0 <= start,
    ensures
        ({
            let t = token_from(tokens, key, start);
            t == -1 || (start <= t < tokens.len() && tokens[t].enabled && tokens[t].key_value@
                == key)
        }),
    decreases tokens.len() - start,
{
    if start < tokens.len() && !(tokens[start].enabled && tokens[start].key_value@ == key) {
        lemma_token_from(tokens, key, start + 1);
    }
}

/// The first enabled token among `tokens` whose credential is `key`.
pub fn find_token(tokens: &Vec<Token>, key: &str) -> (r: Option<usize>)
    ensures
        match r {
            Some(i) => i == token_from(tokens@, key@, 0) && i < tokens.len(),
            None => token_from(tokens@, key@, 0) == -1,
        },
{
    let mut i: usize = 0;
    while i < tokens.len()
        invariant
            i <= tokens.len(),
            token_from(tokens@, key@, 0) == token_from(tokens@, key@, i as int),
        decreases tokens.len() - i,
    {
        if tokens[i].enabled && str_eq(tokens[i].key_value.as_str(), key) {
            return Some(i);
        }
        i = i + 1;
    }
    None
}

/// The first mapping among `mappings` of the public name `name`.
pub fn find_mapping(mappings: &Vec<ModelMapping>, name: &str) -> (r: Option<usize>)
    ensures
        match r {
            Some(i) => i == mapping_from(mappings@, name@, 0) && i < mappings.len(),
            None => mapping_from(mappings@, name@, 0) == -1,
        },
{
    let mut i: usize = 0;
    while i < mappings.len()
        invariant
            i <= mappings.len(),
            mapping_from(mappings@, name@, 0) == mapping_from(mappings@, name@, i as int),
        decreases mappings.len() - i,
    {
        if str_eq(mappings[i].public_name.as_str(), name) {
            return Some(i);
        }
        i = i + 1;
    }
    None
}

/// The first channel among `channels` with the id `id`.
pub fn find_channel(channels: &Vec<Channel>, id: &str) -> (r: Option<usize>)
    ensures
        match r {
            Some(i) => i == channel_from(channels@, id@, 0) && i < channels.len(),
            None => channel_from(channels@, id@, 0) == -1,
        },
{
    let mut i: usize = 0;
    while i < channels.len()
        invariant
            i <= channels.len(),
            channel_from(channels@, id@, 0) == channel_from(channels@, id@, i as int),
        decreases channels.len() - i,
    {
        if str_eq(channels[i].id.as_str(), id) {
            return Some(i);
        }
        i = i + 1;
    }
    None
}

/// How many of `keys` are enabled.
pub fn count_enabled(keys: &Vec<ApiKey>) -> (n: usize)
    ensures
        n == enabled_count(keys@, keys.len() as int),
{
    let mut n: usize = 0;
    let mut i: usize = 0;
    while i < keys.len()
        invariant
            i <= keys.len(),
            n == enabled_count(keys@, i as int),
            n <= i,
        decreases keys.len() - i,
    {
        if keys[i].enabled {
            n = n + 1;
        }
        i = i + 1;
    }
    n
}

/// The turn that follows `turn`: the next one where a key was used, the
/// same where none was. After the last turn the first comes again.
pub open spec fn following_turn(turn: u64, used: bool) -> u64 {
    if !used {
        turn
    } else if turn == u64::MAX {
        0
    } else {
        (turn + 1) as u64
    }
}

/// The turn that follows `turn`.
pub fn next_turn(turn: u64, used: bool) -> (r: u64)
    ensures
        r == following_turn(turn, used),
{
    if !used {
        turn
    } else if turn == u64::MAX {
        0
    } else {
        turn + 1
    }
}

/// The key whose turn it is.
pub fn select_key(keys: &Vec<ApiKey>, turn: u64) -> (r: Option<usize>)
    ensures
        match r {
            Some(i) => i == key_for(keys@, turn) && i < keys.len(),
            None => key_for(keys@, turn) == -1,
        },
{
    let n: usize = count_enabled(keys);
    if n == 0 {
        return None;
    }
    let rank: u64 = turn % (n as u64);
    let mut left: u64 = rank;
    let mut i: usize = 0;
    while i < keys.len()
        invariant
            i <= keys.len(),
            n == enabled_count(keys@, keys.len() as int),
            n > 0,
            key_for(keys@, turn) == enabled_at(keys@, left as nat, i as int),
        decreases keys.len() - i,
    {
        if keys[i].enabled {
            if left == 0 {
                return Some(i);
            }
            left = left - 1;
        }
        i = i + 1;
    }
    None
}

/// Whether one of the first `upto` mappings is of the public name `name`.
pub open spec fn named_before(mappings: Seq<ModelMapping>, name: Seq<char>, upto: int) -> bool
    decreases upto,
{
    0 < upto <= mappings.len() && (mappings[upto - 1].public_name@ == name || named_before(
        mappings,
        name,
        upto - 1,
    ))
}

/// The public names of the first `upto` mappings, each once, in the order
/// in which they first occur.
pub open spec fn distinct_names(mappings: Seq<ModelMapping>, upto: int) -> Seq<Seq<char>>
    decreases upto,
{
    if upto <= 0 || upto > mappings.len() {
        Seq::empty()
    } else if named_before(mappings, mappings[upto - 1].public_name@, upto - 1) {
        distinct_names(mappings, upto - 1)
    } else {
        distinct_names(mappings, upto - 1).push(mappings[upto - 1].public_name@)
    }
}

/// The views of `names`, in order.
pub open spec fn name_views(names: Seq<String>) -> Seq<Seq<char>> {
    Seq::new(names.len(), |i: int| names[i]@)
}

/// A name is among the distinct names of the first mappings exactly when one
/// of those mappings has it.
pub proof fn lemma_distinct_names_hold(mappings: Seq<ModelMapping>, name: Seq<char>, upto: int)
    requires
        0 <= upto <= mappings.len(),
    ensures
        distinct_names(mappings, upto).contains(name) == named_before(mappings, name, upto),
    decreases upto,
{
    if upto > 0 {
        lemma_distinct_names_hold(mappings, name, upto - 1);
        let before = distinct_names(mappings, upto - 1);
        let last = mappings[upto - 1].public_name@;
        if named_before(mappings, last, upto - 1) {
            lemma_distinct_names_hold(mappings, last, upto - 1);
        } else {
            let after = before.push(last);
            assert(after[before.len() as int] == last);
            if before.contains(name) {
                let i = choose|i: int| 0 <= i < before.len() && before[i] == name;
                assert(after[i] == name);
            }
        }
    }
}

/// No name stands twice among the distinct names.
pub proof fn law_names_are_distinct(mappings: Seq<ModelMapping>, upto: int, i: int, j: int)
    requires
        0 <= upto <= mappings.len(),
        0 <= i < j < distinct_names(mappings, upto).len(),
    ensures
        distinct_names(mappings, upto)[i] != distinct_names(mappings, upto)[j],
    decreases upto,
{
    let before = distinct_names(mappings, upto - 1);
    let last = mappings[upto - 1].public_name@;
    if named_before(mappings, last, upto - 1) {
        law_names_are_distinct(mappings, upto - 1, i, j);
    } else if j < before.len() {
        law_names_are_distinct(mappings, upto - 1, i, j);
    } else {
        lemma_distinct_names_hold(mappings, last, upto - 1);
        assert(before[i] != last);
    }
}

/// Whether `name` is one of `names`.
fn holds_name(names: &Vec<String>, name: &str) -> (r: bool)
    ensures
        r == name_views(names@).contains(name@),
{
    let mut i: usize = 0;
    while i < names.len()
        invariant
            i <= names.len(),
            forall|j: int| 0 <= j < i ==> name_views(names@)[j] != name@,
        decreases names.len() - i,
    {
        if str_eq(names[i].as_str(), name) {
            assert(name_views(names@)[i as int] == name@);
            return true;
        }
        i = i + 1;
    }
    false
}

/// The public names that are mapped, each once, in the order in which they
/// first occur.
pub fn public_models(mappings: &Vec<ModelMapping>) -> (r: Vec<String>)
    ensures
        name_views(r@) == distinct_names(mappings@, mappings.len() as int),
{
    let mut names: Vec<String> = Vec::new();
    let mut i: usize = 0;
    assert(name_views(names@) =~= distinct_names(mappings@, 0));
    while i < mappings.len()
        invariant
            i <= mappings.len(),
            name_views(names@) == distinct_names(mappings@, i as int),
        decreases mappings.len() - i,
    {
        proof {
            lemma_distinct_names_hold(mappings@, mappings@[i as int].public_name@, i as int);
        }
        if !holds_name(&names, mappings[i].public_name.as_str()) {
            let ghost before = name_views(names@);
            names.push(mappings[i].public_name.clone());
            assert(name_views(names@) =~= before.push(mappings@[i as int].public_name@));
        }
        i = i + 1;
    }
    names
}

} // verus!
