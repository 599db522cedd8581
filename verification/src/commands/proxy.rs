//! Rules of the path-prefix proxy: how one is made and changed.

use crate::text::{begins_with, starts_with};
use vstd::prelude::*;

verus! {

/// A rule of the path-prefix proxy, as it is stored.
#[derive(Debug, PartialEq, Eq)]
pub struct ProxyRule {
    pub id: String,
    pub name: String,
    pub path_prefix: String,
    pub target_base_url: String,
    pub enabled: bool,
    pub created_at: String,
    pub updated_at: String,
}

/// `prefix` as a path: with `/` in front where it has none.
pub open spec fn rooted(prefix: Seq<char>) -> Seq<char> {
    if begins_with(prefix, "/"@) {
        prefix
    } else {
        "/"@ + prefix
    }
}

/// `prefix` as a path.
pub fn normalize_prefix(prefix: String) -> (r: String)
    ensures
        r@ == rooted(prefix@),
{
    if starts_with(prefix.as_str(), "/") {
        prefix
    } else {
        "/".to_owned().concat(prefix.as_str())
    }
}

/// A new rule: enabled, its prefix a path, made and last changed at `now`.
pub fn new_rule(id: String, name: String, path_prefix: String, target_base_url: String, now: &str) -> (r:
    ProxyRule)
    ensures
        r.id == id,
        r.name == name,
        r.path_prefix@ == rooted(path_prefix@),
        r.target_base_url == target_base_url,
        r.enabled,
        r.created_at@ == now@,
        r.updated_at@ == now@,
{
    ProxyRule {
        id,
        name,
        path_prefix: normalize_prefix(path_prefix),
        target_base_url,
        enabled: true,
        created_at: now.to_owned(),
        updated_at: now.to_owned(),
    }
}

/// Changes a rule at `now`: all but its id and the time it was made.
pub fn update_rule(
    rule: &mut ProxyRule,
    name: String,
    path_prefix: String,
    target_base_url: String,
    enabled: bool,
    now: &str,
)
    ensures
        final(rule).id == old(rule).id,
        final(rule).created_at == old(rule).created_at,
        final(rule).name == name,
        final(rule).path_prefix@ == rooted(path_prefix@),
        final(rule).target_base_url == target_base_url,
        final(rule).enabled == enabled,
        final(rule).updated_at@ == now@,
{
    rule.name = name;
    rule.path_prefix = normalize_prefix(path_prefix);
    rule.target_base_url = target_base_url;
    rule.enabled = enabled;
    rule.updated_at = now.to_owned();
}

} // verus!
