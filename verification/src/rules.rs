//! The rule resolver: one exact, case-sensitive lookup of a row's raw
//! description in the optional rule table, with override-or-fallback
//! semantics for the resolved description and destination account.

use vstd::prelude::*;
use crate::config::RuleTable;
use crate::config::TransactionRule;
use crate::config::lemma_lookup_none;

verus! {

/// The rule that applies to a raw description, if any: a lookup miss and
/// an absent table fall back alike.
pub open spec fn spec_rule_for(table: Option<&RuleTable>, desc: Seq<char>) -> Option<
    TransactionRule,
> {
    match table {
        Some(t) => t.spec_lookup(desc),
        None => None,
    }
}

/// The resolved description: the matching rule's `info` override when
/// present, else the raw description.
pub open spec fn spec_resolved_description(table: Option<&RuleTable>, desc: Seq<char>) -> Seq<
    char,
> {
    match spec_rule_for(table, desc) {
        Some(rule) => match rule.info {
            Some(i) => i@,
            None => desc,
        },
        None => desc,
    }
}

/// The resolved destination account: the matching rule's `account`
/// override when present, else the configured default account.
pub open spec fn spec_resolved_account(
    table: Option<&RuleTable>,
    desc: Seq<char>,
    default_account: Seq<char>,
) -> Seq<char> {
    match spec_rule_for(table, desc) {
        Some(rule) => match rule.account {
            Some(a) => a@,
            None => default_account,
        },
        None => default_account,
    }
}

/// Resolve a raw description against the optional rule table: returns
/// the effective description and destination account.
pub fn resolve(desc: &String, table: Option<&RuleTable>, default_account: &String) -> (r: (
    String,
    String,
))
    ensures
        r.0@ == spec_resolved_description(table, desc@),
        r.1@ == spec_resolved_account(table, desc@, default_account@),
{
    let rule: Option<&TransactionRule> = match table {
        Some(t) => t.lookup(desc),
        None => None,
    };
    let resolved_description = match rule {
        Some(r) => match &r.info {
            Some(i) => i.clone(),
            None => desc.clone(),
        },
        None => desc.clone(),
    };
    let resolved_account = match rule {
        Some(r) => match &r.account {
            Some(a) => a.clone(),
            None => default_account.clone(),
        },
        None => default_account.clone(),
    };
    (resolved_description, resolved_account)
}

/// Rule override precedence: when a matching rule carries both
/// overrides, the resolved pair is the rule's pair, never the defaults.
pub proof fn lemma_rule_override(
    table: Option<&RuleTable>,
    desc: Seq<char>,
    default_account: Seq<char>,
    rule: TransactionRule,
)
    requires
        spec_rule_for(table, desc) == Some(rule),
        rule.info is Some,
        rule.account is Some,
    ensures
        spec_resolved_description(table, desc) == rule.info->0@,
        spec_resolved_account(table, desc, default_account) == rule.account->0@,
{
}

/// Rule fallback: with no matching rule, or no rule table at all, the
/// resolved description is the raw field and the resolved account is the
/// configured default.
pub proof fn lemma_rule_fallback(
    table: Option<&RuleTable>,
    desc: Seq<char>,
    default_account: Seq<char>,
)
    requires
        spec_rule_for(table, desc) is None,
    ensures
        spec_resolved_description(table, desc) == desc,
        spec_resolved_account(table, desc, default_account) == default_account,
{
}

/// A description absent from every entry of the table resolves to the
/// defaults.
pub proof fn lemma_unmatched_key_falls_back(
    table: &RuleTable,
    desc: Seq<char>,
    default_account: Seq<char>,
)
    requires
        forall|i: int| 0 <= i < table.entries@.len() ==> table.entries@[i].0@ != desc,
    ensures
        spec_resolved_description(Some(table), desc) == desc,
        spec_resolved_account(Some(table), desc, default_account) == default_account,
{
    lemma_lookup_none(table.entries@, desc);
}

} // verus!
