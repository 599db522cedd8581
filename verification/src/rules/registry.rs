//! The rules in force: the compiled rules, and which of them is
//! authoritative for a pair of formats.
//!
//! A registry is a value. Whoever shares it among requests replaces the
//! whole value when a rule changes, so that a reader sees the rules either
//! as they were or as they are.

use crate::format::WireFormat;
use crate::json::JsonValue;
use crate::rules::rule::{compiled, Template};
use vstd::prelude::*;

verus! {

/// Where a rule comes from.
#[derive(Clone, Copy, Debug, PartialEq, Eq, Structural)]
pub enum RuleOrigin {
    /// Seeded with the system.
    System,
    /// Written by the user.
    User,
    /// Installed from the rule store.
    Installed,
}

/// A rule as it is stored.
#[derive(Debug, PartialEq, Eq)]
pub struct RuleDefinition {
    pub id: String,
    pub source: WireFormat,
    pub target: WireFormat,
    pub request_template: String,
    pub response_template: String,
    pub enabled: bool,
    pub origin: RuleOrigin,
    /// When the rule was last changed; a later change has a greater value.
    pub updated_at: u64,
}

/// A rule whose two templates compiled.
#[derive(Debug, PartialEq, Eq)]
pub struct CompiledRule {
    pub id: String,
    pub source: WireFormat,
    pub target: WireFormat,
    pub updated_at: u64,
    pub request: Template,
    pub response: Template,
}

pub ghost struct CompiledRuleView {
    pub id: Seq<char>,
    pub source: WireFormat,
    pub target: WireFormat,
    pub updated_at: u64,
    pub request: JsonValue,
    pub response: JsonValue,
}

impl View for CompiledRule {
    type V = CompiledRuleView;

    open spec fn view(&self) -> CompiledRuleView {
        CompiledRuleView {
            id: self.id@,
            source: self.source,
            target: self.target,
            updated_at: self.updated_at,
            request: self.request.document(),
            response: self.response.document(),
        }
    }
}

/// The views of `rules`, in order.
pub open spec fn rule_views(rules: Seq<CompiledRule>) -> Seq<CompiledRuleView> {
    Seq::new(rules.len(), |i: int| rules[i]@)
}

/// What the stored rule `def` compiles to; nothing where it is disabled or
/// one of its templates is refused.
pub open spec fn compiled_rule(def: RuleDefinition) -> Option<CompiledRuleView> {
    if !def.enabled {
        None
    } else {
        match (compiled(def.request_template@), compiled(def.response_template@)) {
            (Ok(request), Ok(response)) => Some(
                CompiledRuleView {
                    id: def.id@,
                    source: def.source,
                    target: def.target,
                    updated_at: def.updated_at,
                    request,
                    response,
                },
            ),
            _ => None,
        }
    }
}

/// What the first `upto` of `defs` compile to, in order.
pub open spec fn compiled_rules(defs: Seq<RuleDefinition>, upto: int) -> Seq<CompiledRuleView>
    decreases upto,
{
    if upto <= 0 || upto > defs.len() {
        Seq::empty()
    } else {
        match compiled_rule(defs[upto - 1]) {
            Some(rule) => compiled_rules(defs, upto - 1).push(rule),
            None => compiled_rules(defs, upto - 1),
        }
    }
}

/// Whether `rule` turns `source` into `target`.
pub open spec fn serves(rule: CompiledRuleView, source: WireFormat, target: WireFormat) -> bool {
    rule.source == source && rule.target == target
}

/// Whether rule `i` is the authoritative one for the pair: it serves the
/// pair, no other that serves it was changed later, and of those changed at
/// the same time it stands last.
pub open spec fn authoritative(
    rules: Seq<CompiledRuleView>,
    source: WireFormat,
    target: WireFormat,
    i: int,
) -> bool {
    &&& 0 <= i < rules.len()
    &&& serves(rules[i], source, target)
    &&& forall|j: int|
        0 <= j < rules.len() && serves(#[trigger] rules[j], source, target) ==> rules[j].updated_at
            < rules[i].updated_at || (rules[j].updated_at == rules[i].updated_at && j <= i)
}

/// The position of the authoritative rule among the first `upto`, or -1
/// where none of them serves the pair.
pub open spec fn choice(
    rules: Seq<CompiledRuleView>,
    source: WireFormat,
    target: WireFormat,
    upto: int,
) -> int
    decreases upto,
{
    if upto <= 0 || upto > rules.len() {
        -1
    } else {
        let before = choice(rules, source, target, upto - 1);
        if serves(rules[upto - 1], source, target) && (before < 0 || rules[upto - 1].updated_at
            >= rules[before].updated_at) {
            upto - 1
        } else {
            before
        }
    }
}

/// The rules among the first `upto` that `keep` holds of, in order.
pub open spec fn selected(
    rules: Seq<CompiledRuleView>,
    keep: spec_fn(CompiledRuleView) -> bool,
    upto: int,
) -> Seq<CompiledRuleView>
    decreases upto,
{
    if upto <= 0 || upto > rules.len() {
        Seq::empty()
    } else if keep(rules[upto - 1]) {
        selected(rules, keep, upto - 1).push(rules[upto - 1])
    } else {
        selected(rules, keep, upto - 1)
    }
}

/// `choice` stays inside the rules it has seen, and what it picks serves the
/// pair and is behind no other among them.
pub proof fn lemma_choice(
    rules: Seq<CompiledRuleView>,
    source: WireFormat,
    target: WireFormat,
    upto: int,
)
    requires
        0 <= upto <= rules.len(),
    ensures
        ({
            let c = choice(rules, source, target, upto);
            &&& -1 <= c < upto
            &&& c >= 0 ==> serves(rules[c], source, target)
            &&& forall|j: int|
                0 <= j < upto && serves(#[trigger] rules[j], source, target) ==> c >= 0 && (
                rules[j].updated_at < rules[c].updated_at || (rules[j].updated_at
                    == rules[c].updated_at && j <= c))
        }),
    decreases upto,
{
    if upto > 0 {
        lemma_choice(rules, source, target, upto - 1);
    }
}

/// What `choice` picks among all the rules is the authoritative rule, and
/// where it picks none, no rule serves the pair.
pub proof fn law_choice_is_authoritative(
    rules: Seq<CompiledRuleView>,
    source: WireFormat,
    target: WireFormat,
)
    ensures
        ({
            let c = choice(rules, source, target, rules.len() as int);
            if c >= 0 {
                authoritative(rules, source, target, c)
            } else {
                forall|j: int| 0 <= j < rules.len() ==> !serves(#[trigger] rules[j], source, target)
            }
        }),
{
    lemma_choice(rules, source, target, rules.len() as int);
}

/// A pair has at most one authoritative rule.
pub proof fn law_authoritative_is_unique(
    rules: Seq<CompiledRuleView>,
    source: WireFormat,
    target: WireFormat,
    i: int,
    j: int,
)
    requires
        authoritative(rules, source, target, i),
        authoritative(rules, source, target, j),
    ensures
        i == j,
{
}

impl RuleDefinition {
    /// Compiles this rule; nothing where it is disabled or one of its
    /// templates is refused.
    pub fn compile(&self) -> (r: Option<CompiledRule>)
        ensures
            match r {
                Some(rule) => compiled_rule(*self) == Some(rule@),
                None => compiled_rule(*self) is None,
            },
    {
        if !self.enabled {
            return None;
        }
        let request = Template::compile(self.request_template.as_str());
        let response = Template::compile(self.response_template.as_str());
        match (request, response) {
            (Ok(request), Ok(response)) => Some(
                CompiledRule {
                    id: self.id.clone(),
                    source: self.source,
                    target: self.target,
                    updated_at: self.updated_at,
                    request,
                    response,
                },
            ),
            _ => None,
        }
    }
}

impl CompiledRule {
    /// A copy of this rule.
    pub fn duplicate(&self) -> (r: CompiledRule)
        ensures
            r@ == self@,
    {
        CompiledRule {
            id: self.id.clone(),
            source: self.source,
            target: self.target,
            updated_at: self.updated_at,
            request: self.request.duplicate(),
            response: self.response.duplicate(),
        }
    }
}

/// Whether one of the first `upto` of `defs` came with the system.
pub open spec fn has_system_rule(defs: Seq<RuleDefinition>, upto: int) -> bool
    decreases upto,
{
    0 < upto <= defs.len() && (defs[upto - 1].origin == RuleOrigin::System || has_system_rule(
        defs,
        upto - 1,
    ))
}

/// Whether the rules that come with the system have to be seeded: only a
/// store that holds none of them is seeded, so that a rule that the user
/// changed or disabled is not made anew at every start.
pub fn needs_seeding(defs: &Vec<RuleDefinition>) -> (r: bool)
    ensures
        r == !has_system_rule(defs@, defs.len() as int),
{
    let mut i: usize = defs.len();
    while i > 0
        invariant
            i <= defs.len(),
            has_system_rule(defs@, defs.len() as int) == has_system_rule(defs@, i as int),
        decreases i,
    {
        if defs[i - 1].origin == RuleOrigin::System {
            return false;
        }
        i = i - 1;
    }
    true
}

/// The compiled rules in force.
pub struct RuleRegistry {
    rules: Vec<CompiledRule>,
}

impl RuleRegistry {
    /// The rules in force, in the order in which they were loaded.
    pub closed spec fn rules(&self) -> Seq<CompiledRuleView> {
        rule_views(self.rules@)
    }

    /// A registry without rules.
    pub fn new() -> (r: RuleRegistry)
        ensures
            r.rules() == Seq::<CompiledRuleView>::empty(),
    {
        let r = RuleRegistry { rules: Vec::new() };
        assert(r.rules() =~= Seq::empty());
        r
    }

    /// A registry of what `defs` compile to: each enabled rule whose
    /// templates are accepted, in the order of `defs`.
    pub fn load(defs: &Vec<RuleDefinition>) -> (r: RuleRegistry)
        ensures
            r.rules() == compiled_rules(defs@, defs.len() as int),
    {
        let mut rules: Vec<CompiledRule> = Vec::new();
        let mut i: usize = 0;
        assert(rule_views(rules@) =~= compiled_rules(defs@, 0));
        while i < defs.len()
            invariant
                i <= defs.len(),
                rule_views(rules@) == compiled_rules(defs@, i as int),
            decreases defs.len() - i,
        {
            match defs[i].compile() {
                Some(rule) => {
                    let ghost before = rule_views(rules@);
                    let ghost made = rule@;
                    rules.push(rule);
                    assert(rule_views(rules@) =~= before.push(made));
                },
                None => {},
            }
            i = i + 1;
        }
        RuleRegistry { rules }
    }

    /// How many rules are in force.
    pub fn len(&self) -> (n: usize)
        ensures
            n == self.rules().len(),
    {
        self.rules.len()
    }

    /// The authoritative rule that turns `source` into `target`: of the
    /// rules that serve the pair, the one changed last.
    pub fn lookup(&self, source: WireFormat, target: WireFormat) -> (r: Option<&CompiledRule>)
        ensures
            match r {
                Some(rule) => {
                    let c = choice(self.rules(), source, target, self.rules().len() as int);
                    0 <= c < self.rules().len() && rule@ == self.rules()[c]
                },
                None => choice(self.rules(), source, target, self.rules().len() as int) < 0,
            },
    {
        let ghost views = rule_views(self.rules@);
        let mut best: Option<usize> = None;
        let mut i: usize = 0;
        while i < self.rules.len()
            invariant
                i <= self.rules.len(),
                views == rule_views(self.rules@),
                match best {
                    Some(b) => b < i && choice(views, source, target, i as int) == b,
                    None => choice(views, source, target, i as int) == -1,
                },
            decreases self.rules.len() - i,
        {
            let rule: &CompiledRule = &self.rules[i];
            assert(views[i as int] == rule@);
            if rule.source == source && rule.target == target {
                let newer: bool = match best {
                    Some(b) => {
                        assert(views[b as int] == self.rules@[b as int]@);
                        rule.updated_at >= self.rules[b].updated_at
                    },
                    None => true,
                };
                if newer {
                    best = Some(i);
                }
            }
            i = i + 1;
        }
        match best {
            Some(b) => {
                assert(views[b as int] == self.rules@[b as int]@);
                Some(&self.rules[b])
            },
            None => None,
        }
    }

    /// Replaces the rules of one pair by what `defs` compile to for that
    /// pair; the rules of every other pair stay, in their order, before them.
    pub fn refresh_pair(&mut self, source: WireFormat, target: WireFormat, defs: &Vec<RuleDefinition>)
        ensures
            final(self).rules() == selected(
                old(self).rules(),
                |rule: CompiledRuleView| !serves(rule, source, target),
                old(self).rules().len() as int,
            ) + selected(
                compiled_rules(defs@, defs.len() as int),
                |rule: CompiledRuleView| serves(rule, source, target),
                compiled_rules(defs@, defs.len() as int).len() as int,
            ),
    {
        let ghost others = |rule: CompiledRuleView| !serves(rule, source, target);
        let ghost same = |rule: CompiledRuleView| serves(rule, source, target);
        let ghost was = rule_views(self.rules@);
        let mut kept: Vec<CompiledRule> = Vec::new();
        let mut i: usize = 0;
        assert(rule_views(kept@) =~= selected(was, others, 0));
        while i < self.rules.len()
            invariant
                i <= self.rules.len(),
                was == rule_views(self.rules@),
                others == |rule: CompiledRuleView| !serves(rule, source, target),
                rule_views(kept@) == selected(was, others, i as int),
            decreases self.rules.len() - i,
        {
            let rule: &CompiledRule = &self.rules[i];
            assert(was[i as int] == rule@);
            if !(rule.source == source && rule.target == target) {
                let ghost before = rule_views(kept@);
                let copy: CompiledRule = rule.duplicate();
                let ghost made = copy@;
                kept.push(copy);
                assert(rule_views(kept@) =~= before.push(made));
            }
            i = i + 1;
        }
        let fresh: RuleRegistry = RuleRegistry::load(defs);
        let ghost now = rule_views(fresh.rules@);
        let ghost head = rule_views(kept@);
        let mut k: usize = 0;
        assert(head + selected(now, same, 0) =~= head);
        while k < fresh.rules.len()
            invariant
                k <= fresh.rules.len(),
                now == rule_views(fresh.rules@),
                same == |rule: CompiledRuleView| serves(rule, source, target),
                rule_views(kept@) == head + selected(now, same, k as int),
            decreases fresh.rules.len() - k,
        {
            let rule: &CompiledRule = &fresh.rules[k];
            assert(now[k as int] == rule@);
            if rule.source == source && rule.target == target {
                let ghost before = rule_views(kept@);
                let copy: CompiledRule = rule.duplicate();
                let ghost made = copy@;
                kept.push(copy);
                assert(rule_views(kept@) =~= before.push(made));
                assert(head + selected(now, same, k as int).push(made) =~= (head + selected(
                    now,
                    same,
                    k as int,
                )).push(made));
            }
            k = k + 1;
        }
        self.rules = kept;
    }
}

} // verus!
