//! The configuration model: the column-mapping schema and the
//! description-keyed rule table. Pure data with small accessors; bounds
//! on column indices are checked per row, where the row's width is first
//! known.

use vstd::prelude::*;

verus! {

/// The column-mapping schema for one run.
#[derive(Debug)]
pub struct Config {
    /// The single ledger currency code used for every transaction.
    pub currency: String,
    /// The account the statement under conversion belongs to.
    pub processing_account: String,
    /// The destination account used when no rule overrides it.
    pub default_account: String,
    /// The pattern the date column is parsed under.
    pub date_format: String,
    /// Zero-based column index of the date field.
    pub date: usize,
    /// Zero-based column index of the credited amount.
    pub amount_in: usize,
    /// Zero-based column index of the debited amount.
    pub amount_out: usize,
    /// Zero-based column index of the description field.
    pub description: usize,
    /// Zero-based column index of the payee field, when one is configured.
    pub payee: Option<usize>,
    /// Field separator of the input, when it is not a comma.
    pub delimiter: Option<u8>,
    /// Leading input rows to discard, when any.
    pub skip: Option<usize>,
    /// When set to true, every resolved amount is negated once more.
    pub toggle_sign: Option<bool>,
    /// Quote character of the input, when it is not a double quote.
    pub quote: Option<u8>,
}

/// The field separator in force: the configured one, else a comma.
pub open spec fn spec_delimiter(c: Config) -> u8 {
    match c.delimiter {
        Some(b) => b,
        None => 44,
    }
}

/// The quote character in force: the configured one, else a double quote.
pub open spec fn spec_quote(c: Config) -> u8 {
    match c.quote {
        Some(b) => b,
        None => 34,
    }
}

/// How many leading rows are discarded: the configured count, else none.
pub open spec fn spec_skip(c: Config) -> int {
    match c.skip {
        Some(n) => n as int,
        None => 0,
    }
}

/// Whether every resolved amount is negated once more.
pub open spec fn spec_toggle(c: Config) -> bool {
    c.toggle_sign == Some(true)
}

impl Config {
    pub fn effective_delimiter(&self) -> (r: u8)
        ensures
            r == spec_delimiter(*self),
    {
        match self.delimiter {
            Some(b) => b,
            None => 44,
        }
    }

    pub fn effective_quote(&self) -> (r: u8)
        ensures
            r == spec_quote(*self),
    {
        match self.quote {
            Some(b) => b,
            None => 34,
        }
    }

    pub fn effective_skip(&self) -> (r: usize)
        ensures
            r == spec_skip(*self),
    {
        match self.skip {
            Some(n) => n,
            None => 0,
        }
    }

    pub fn sign_toggled(&self) -> (r: bool)
        ensures
            r == spec_toggle(*self),
    {
        match self.toggle_sign {
            Some(b) => b,
            None => false,
        }
    }
}

/// A description-keyed override: either field, both, or neither may be
/// present; an absent field defers to the row's default value.
#[derive(Debug)]
pub struct TransactionRule {
    pub account: Option<String>,
    pub info: Option<String>,
}

impl TransactionRule {
    /// The override description, if the rule carries one.
    pub fn info(&self) -> (r: Option<&str>)
        ensures
            match r {
                Some(s) => self.info matches Some(i) && s@ == i@,
                None => self.info is None,
            },
    {
        match &self.info {
            Some(s) => Some(s.as_str()),
            None => None,
        }
    }

    /// The override destination account, if the rule carries one.
    pub fn account(&self) -> (r: Option<&str>)
        ensures
            match r {
                Some(s) => self.account matches Some(a) && s@ == a@,
                None => self.account is None,
            },
    {
        match &self.account {
            Some(s) => Some(s.as_str()),
            None => None,
        }
    }
}

/// The first rule keyed by `key` among `es`, if any.
pub open spec fn spec_lookup_entries(
    es: Seq<(String, TransactionRule)>,
    key: Seq<char>,
) -> Option<TransactionRule>
    decreases es.len(),
{
    if es.len() == 0 {
        None
    } else if es[0].0@ == key {
        Some(es[0].1)
    } else {
        spec_lookup_entries(es.drop_first(), key)
    }
}

/// A lookup misses exactly when no entry carries the key.
pub proof fn lemma_lookup_none(es: Seq<(String, TransactionRule)>, key: Seq<char>)
    ensures
        (spec_lookup_entries(es, key) is None) <==> (forall|i: int|
            0 <= i < es.len() ==> es[i].0@ != key),
    decreases es.len(),
{
    if es.len() > 0 {
        lemma_lookup_none(es.drop_first(), key);
        assert(forall|i: int| 1 <= i < es.len() ==> es[i] == es.drop_first()[i - 1]);
    }
}

/// The rule table: a mapping from raw description to its override rule,
/// with unique keys, loaded once and read-only thereafter.
#[derive(Debug)]
pub struct RuleTable {
    pub entries: Vec<(String, TransactionRule)>,
}

impl RuleTable {
    /// Keys are unique.
    pub open spec fn wf(self) -> bool {
        forall|i: int, j: int|
            0 <= i < j < self.entries@.len() ==> self.entries@[i].0@ != self.entries@[j].0@
    }

    /// The rule keyed by `key`, if any.
    pub open spec fn spec_lookup(self, key: Seq<char>) -> Option<TransactionRule> {
        spec_lookup_entries(self.entries@, key)
    }

    pub fn new() -> (r: RuleTable)
        ensures
            r.wf(),
            r.entries@.len() == 0,
    {
        RuleTable { entries: Vec::new() }
    }

    /// Find the rule for an exact, case-sensitive key.
    pub fn lookup(&self, key: &String) -> (r: Option<&TransactionRule>)
        ensures
            match r {
                Some(rule) => self.spec_lookup(key@) == Some(*rule),
                None => self.spec_lookup(key@) is None,
            },
    {
        let n = self.entries.len();
        let mut i: usize = 0;
        proof {
            assert(self.entries@.skip(0) =~= self.entries@);
        }
        while i < n
            invariant
                n == self.entries@.len(),
                i <= n,
                spec_lookup_entries(self.entries@, key@) == spec_lookup_entries(
                    self.entries@.skip(i as int),
                    key@,
                ),
            decreases n - i,
        {
            proof {
                assert(self.entries@.skip(i as int)[0] == self.entries@[i as int]);
                assert(self.entries@.skip(i as int).drop_first() =~= self.entries@.skip(
                    i as int + 1,
                ));
            }
            if self.entries[i].0 == *key {
                return Some(&self.entries[i].1);
            }
            i = i + 1;
        }
        proof {
            assert(self.entries@.skip(n as int) =~= Seq::empty());
        }
        None
    }

    /// Add a rule under a key not yet present; refuses a duplicate key,
    /// leaving the table unchanged.
    pub fn insert(&mut self, key: String, rule: TransactionRule) -> (added: bool)
        requires
            old(self).wf(),
        ensures
            final(self).wf(),
            added == (old(self).spec_lookup(key@) is None),
            added ==> final(self).entries@ == old(self).entries@.push((key, rule)),
            !added ==> *final(self) == *old(self),
    {
        let absent = self.lookup(&key).is_none();
        if absent {
            proof {
                lemma_lookup_none(self.entries@, key@);
            }
            self.entries.push((key, rule));
            proof {
                assert(forall|i: int|
                    0 <= i < old(self).entries@.len() ==> self.entries@[i] == old(
                        self,
                    ).entries@[i]);
            }
            true
        } else {
            false
        }
    }
}

} // verus!
