//! The transaction builder and formatter: one row, the configuration and
//! the resolver's output become one two-posting ledger transaction, then
//! its rendered text. The second posting's amount is the literal
//! negation of the first, so the two always sum to exactly zero.

use vstd::prelude::*;
use vstd::string::StringExecFns;
use crate::dates::Date;
use crate::dates::spec_date_string;
use crate::dates::date_from_str;
use crate::dates::parse_date;
use crate::decimal::Decimal;
use crate::decimal::spec_dec_string;
use crate::decimal::spec_parse_decimal;
use crate::decimal::parse_decimal;
use crate::config::Config;
use crate::config::RuleTable;
use crate::config::spec_toggle;
use crate::rules::spec_resolved_description;
use crate::rules::spec_resolved_account;
use crate::rules::resolve;

verus! {

/// The characters of each field of a row, in order.
pub open spec fn row_view(row: Vec<String>) -> Seq<Seq<char>> {
    Seq::new(row@.len(), |i: int| row@[i]@)
}

/// The mathematical value of one transaction.
pub struct SpecTransaction {
    pub date: Date,
    pub processing_account: Seq<char>,
    pub other_account: Seq<char>,
    pub currency: Seq<char>,
    pub magnitude: Decimal,
    pub payee: Option<Seq<char>>,
    pub description: Seq<char>,
}

/// One transaction: two postings over one header. The magnitude is the
/// processing-account leg's amount; the other leg carries its negation.
pub struct Transaction {
    pub date: Date,
    pub processing_account: String,
    pub other_account: String,
    pub currency: String,
    pub magnitude: Decimal,
    pub payee: Option<String>,
    pub description: String,
}

impl View for Transaction {
    type V = SpecTransaction;

    open spec fn view(&self) -> SpecTransaction {
        SpecTransaction {
            date: self.date,
            processing_account: self.processing_account@,
            other_account: self.other_account@,
            currency: self.currency@,
            magnitude: self.magnitude,
            payee: match self.payee {
                Some(p) => Some(p@),
                None => None,
            },
            description: self.description@,
        }
    }
}

/// Why a row failed; any failure aborts the whole run.
#[derive(Debug)]
pub enum RowError {
    /// The row lacks a field at a configured column index.
    MissingField,
    /// The date field does not match the configured format.
    DateParse,
    /// Neither amount column parses as a decimal number; carries the
    /// row's resolved description.
    AmountParse { description: String },
}

/// The mathematical value of a row failure.
pub enum SpecRowError {
    MissingField,
    DateParse,
    AmountParse(Seq<char>),
}

impl View for RowError {
    type V = SpecRowError;

    open spec fn view(&self) -> SpecRowError {
        match self {
            RowError::MissingField => SpecRowError::MissingField,
            RowError::DateParse => SpecRowError::DateParse,
            RowError::AmountParse { description } => SpecRowError::AmountParse(description@),
        }
    }
}

/// Every configured column index falls within the row.
pub open spec fn spec_indices_ok(row: Seq<Seq<char>>, cfg: Config) -> bool {
    &&& match cfg.payee {
        Some(p) => (p as int) < row.len(),
        None => true,
    }
    &&& (cfg.description as int) < row.len()
    &&& (cfg.date as int) < row.len()
    &&& (cfg.amount_in as int) < row.len()
    &&& (cfg.amount_out as int) < row.len()
}

/// The payee of a row: the configured payee field, with an empty field
/// treated the same as no configured payee column at all.
pub open spec fn spec_payee(row: Seq<Seq<char>>, cfg: Config) -> Option<Seq<char>> {
    match cfg.payee {
        Some(p) => if row[p as int].len() == 0 {
            None
        } else {
            Some(row[p as int])
        },
        None => None,
    }
}

/// The signed base amount of a row: the amount-in field's value when it
/// parses, else the negation of the amount-out field's value, else
/// nothing.
pub open spec fn spec_base_amount(row: Seq<Seq<char>>, cfg: Config) -> Option<Decimal> {
    match spec_parse_decimal(row[cfg.amount_in as int]) {
        Some(a) => Some(a),
        None => match spec_parse_decimal(row[cfg.amount_out as int]) {
            Some(a) => Some(a.spec_neg()),
            None => None,
        },
    }
}

/// What building a transaction from one row yields, step by step: check
/// the column bounds, take the payee and the raw description, parse the
/// date, resolve the description and destination account against the
/// rule table, pick the signed amount from the two amount columns, and
/// apply the configured sign toggle.
pub open spec fn spec_build(row: Seq<Seq<char>>, cfg: Config, table: Option<&RuleTable>) -> Result<
    SpecTransaction,
    SpecRowError,
> {
    if !spec_indices_ok(row, cfg) {
        Err(SpecRowError::MissingField)
    } else {
        let raw_desc = row[cfg.description as int];
        let description = spec_resolved_description(table, raw_desc);
        match date_from_str(row[cfg.date as int], cfg.date_format@) {
            None => Err(SpecRowError::DateParse),
            Some((y, m, d)) => match spec_base_amount(row, cfg) {
                None => Err(SpecRowError::AmountParse(description)),
                Some(amt) => Ok(
                    SpecTransaction {
                        date: Date { year: y as i32, month: m as u8, day: d as u8 },
                        processing_account: cfg.processing_account@,
                        other_account: spec_resolved_account(table, raw_desc, cfg.default_account@),
                        currency: cfg.currency@,
                        magnitude: if spec_toggle(cfg) {
                            amt.spec_neg()
                        } else {
                            amt
                        },
                        payee: spec_payee(row, cfg),
                        description,
                    },
                ),
            },
        }
    }
}

/// Build the transaction for one row, or say why the row fails.
pub fn build_transaction(row: &Vec<String>, cfg: &Config, table: Option<&RuleTable>) -> (r: Result<
    Transaction,
    RowError,
>)
    ensures
        match r {
            Ok(t) => spec_build(row_view(*row), *cfg, table) == Ok::<SpecTransaction, SpecRowError>(
                t@,
            ) && t.magnitude.wf() && t.date.wf(),
            Err(e) => spec_build(row_view(*row), *cfg, table) == Err::<
                SpecTransaction,
                SpecRowError,
            >(e@),
        },
{
    let len = row.len();
    let indices_ok = (match cfg.payee {
        Some(p) => p < len,
        None => true,
    }) && cfg.description < len && cfg.date < len && cfg.amount_in < len && cfg.amount_out < len;
    if !indices_ok {
        return Err(RowError::MissingField);
    }
    let payee: Option<String> = match cfg.payee {
        Some(p) => if row[p].as_str().is_empty() {
            None
        } else {
            Some(row[p].clone())
        },
        None => None,
    };
    let raw_desc = &row[cfg.description];
    let (description, other_account) = resolve(raw_desc, table, &cfg.default_account);
    let date = match parse_date(row[cfg.date].as_str(), cfg.date_format.as_str()) {
        Some(d) => d,
        None => {
            return Err(RowError::DateParse);
        },
    };
    let base = match parse_decimal(row[cfg.amount_in].as_str()) {
        Some(a) => Some(a),
        None => match parse_decimal(row[cfg.amount_out].as_str()) {
            Some(a) => Some(a.neg()),
            None => None,
        },
    };
    let amt = match base {
        Some(a) => a,
        None => {
            return Err(RowError::AmountParse { description });
        },
    };
    let magnitude = if cfg.sign_toggled() {
        amt.neg()
    } else {
        amt
    };
    Ok(
        Transaction {
            date,
            processing_account: cfg.processing_account.clone(),
            other_account,
            currency: cfg.currency.clone(),
            magnitude,
            payee,
            description,
        },
    )
}

/// The header line: the date, the quoted payee when there is one, and
/// the quoted description.
pub open spec fn spec_header(t: SpecTransaction) -> Seq<char> {
    spec_date_string(t.date) + " * "@ + (match t.payee {
        Some(p) => "\""@ + p + "\" "@,
        None => Seq::<char>::empty(),
    }) + "\""@ + t.description + "\""@
}

/// One posting line: two leading spaces, the account, the signed
/// amount, the currency.
pub open spec fn spec_posting(account: Seq<char>, amount: Decimal, currency: Seq<char>) -> Seq<
    char,
> {
    "\n  "@ + account + " "@ + spec_dec_string(amount) + " "@ + currency
}

/// The rendered transaction: the header, the processing-account posting
/// with the magnitude, and the destination posting with its exact
/// negation.
pub open spec fn spec_transaction_string(t: SpecTransaction) -> Seq<char> {
    spec_header(t) + spec_posting(t.processing_account, t.magnitude, t.currency) + spec_posting(
        t.other_account,
        t.magnitude.spec_neg(),
        t.currency,
    )
}

/// Double-entry balance: the amounts of the two postings of a rendered
/// transaction — the magnitude and its exact negation — share one scale
/// and their signed units sum to zero, so the postings sum to exactly
/// zero.
pub proof fn lemma_postings_balance(t: SpecTransaction)
    ensures
        t.magnitude.spec_signed_units() + t.magnitude.spec_neg().spec_signed_units() == 0,
        t.magnitude.spec_neg().scale == t.magnitude.scale,
{
}

impl Transaction {
    /// Render the transaction: one header line, then the two postings.
    pub fn render(&self) -> (r: String)
        requires
            self.magnitude.wf(),
            self.date.wf(),
        ensures
            r@ == spec_transaction_string(self@),
    {
        let mut r = self.date.render();
        r.append(" * ");
        match &self.payee {
            Some(p) => {
                r.append("\"");
                r.append(p.as_str());
                r.append("\" ");
            },
            None => {},
        }
        r.append("\"");
        r.append(self.description.as_str());
        r.append("\"");
        proof {
            assert(r@ =~= spec_header(self@));
        }
        r.append("\n  ");
        r.append(self.processing_account.as_str());
        r.append(" ");
        let m = self.magnitude.render();
        r.append(m.as_str());
        r.append(" ");
        r.append(self.currency.as_str());
        proof {
            assert(r@ =~= spec_header(self@) + spec_posting(
                self@.processing_account,
                self@.magnitude,
                self@.currency,
            ));
        }
        r.append("\n  ");
        r.append(self.other_account.as_str());
        r.append(" ");
        let n = self.magnitude.neg();
        let ns = n.render();
        r.append(ns.as_str());
        r.append(" ");
        r.append(self.currency.as_str());
        proof {
            assert(r@ =~= spec_transaction_string(self@));
        }
        r
    }
}

/// Sign toggling negates: the same row under the same configuration,
/// once with `toggle_sign` off and once with it set, yields the same
/// transaction but for the magnitude, which is exactly negated — and the
/// same failure when the row fails.
pub proof fn lemma_toggle_sign(
    row: Seq<Seq<char>>,
    cfg_off: Config,
    cfg_on: Config,
    table: Option<&RuleTable>,
)
    requires
        !spec_toggle(cfg_off),
        cfg_on == (Config { toggle_sign: Some(true), ..cfg_off }),
    ensures
        match (spec_build(row, cfg_off, table), spec_build(row, cfg_on, table)) {
            (Ok(t0), Ok(t1)) => {
                &&& t1.magnitude == t0.magnitude.spec_neg()
                &&& t1.date == t0.date
                &&& t1.processing_account == t0.processing_account
                &&& t1.other_account == t0.other_account
                &&& t1.currency == t0.currency
                &&& t1.payee == t0.payee
                &&& t1.description == t0.description
            },
            (Err(e0), Err(e1)) => e0 == e1,
            _ => false,
        },
{
}

/// Payee omission: a configured payee column whose field is empty
/// builds a transaction with no payee, whose header therefore carries
/// no quoted payee segment.
pub proof fn lemma_payee_omitted(
    row: Seq<Seq<char>>,
    cfg: Config,
    table: Option<&RuleTable>,
    t: SpecTransaction,
)
    requires
        cfg.payee matches Some(p) && (p as int) < row.len() && row[p as int].len() == 0,
        spec_build(row, cfg, table) == Ok::<SpecTransaction, SpecRowError>(t),
    ensures
        t.payee is None,
        spec_header(t) == spec_date_string(t.date) + " * "@ + "\""@ + t.description + "\""@,
{
}

/// A row whose two amount fields both fail to parse fails with an error
/// naming the row's resolved description, and yields no transaction.
pub proof fn lemma_amount_failure_names_description(
    row: Seq<Seq<char>>,
    cfg: Config,
    table: Option<&RuleTable>,
)
    requires
        spec_indices_ok(row, cfg),
        date_from_str(row[cfg.date as int], cfg.date_format@) is Some,
        spec_parse_decimal(row[cfg.amount_in as int]) is None,
        spec_parse_decimal(row[cfg.amount_out as int]) is None,
    ensures
        spec_build(row, cfg, table) == Err::<SpecTransaction, SpecRowError>(
            SpecRowError::AmountParse(
                spec_resolved_description(table, row[cfg.description as int]),
            ),
        ),
{
}

} // verus!
