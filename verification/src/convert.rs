//! The single-pass batch conversion: parse the delimited input bytes,
//! discard the configured number of leading rows, map each remaining row
//! to one transaction in input order, and join the rendered transactions
//! with one blank line between consecutive ones. Any row failure aborts
//! the whole run.

use vstd::prelude::*;
use vstd::string::StringExecFns;
use crate::config::Config;
use crate::config::RuleTable;
use crate::config::spec_skip;
use crate::config::spec_delimiter;
use crate::config::spec_quote;
use crate::transaction::row_view;
use crate::transaction::spec_build;
use crate::transaction::spec_transaction_string;
use crate::transaction::build_transaction;
use crate::transaction::RowError;
use crate::transaction::SpecRowError;

verus! {

/// The characters of every field of every row, in order.
pub open spec fn rows_view(rows: Vec<Vec<String>>) -> Seq<Seq<Seq<char>>> {
    Seq::new(rows@.len(), |i: int| row_view(rows@[i]))
}

/// Why a run failed.
#[derive(Debug)]
pub enum ConvertError {
    /// The input bytes are not a well-formed delimited file.
    Csv,
    /// A row failed; conversion stopped at that row.
    Row(RowError),
}

/// The mathematical value of a run failure.
pub enum SpecConvertError {
    Csv,
    Row(SpecRowError),
}

impl View for ConvertError {
    type V = SpecConvertError;

    open spec fn view(&self) -> SpecConvertError {
        match self {
            ConvertError::Csv => SpecConvertError::Csv,
            ConvertError::Row(e) => SpecConvertError::Row(e@),
        }
    }
}

/// What converting a sequence of rows yields: the rendered transactions
/// in row order, consecutive ones separated by one blank line — or the
/// first row failure.
pub open spec fn spec_rows_output(
    rows: Seq<Seq<Seq<char>>>,
    cfg: Config,
    table: Option<&RuleTable>,
) -> Result<Seq<char>, SpecRowError>
    decreases rows.len(),
{
    if rows.len() == 0 {
        Ok(Seq::empty())
    } else {
        match spec_rows_output(rows.drop_last(), cfg, table) {
            Err(e) => Err(e),
            Ok(init) => match spec_build(rows.last(), cfg, table) {
                Err(e) => Err(e),
                Ok(t) => Ok(
                    init + (if rows.len() == 1 {
                        Seq::<char>::empty()
                    } else {
                        "\n\n"@
                    }) + spec_transaction_string(t),
                ),
            },
        }
    }
}

/// The rows left after discarding the configured number of leading ones.
pub open spec fn spec_after_skip(rows: Seq<Seq<Seq<char>>>, cfg: Config) -> Seq<Seq<Seq<char>>> {
    if spec_skip(cfg) <= rows.len() {
        rows.skip(spec_skip(cfg))
    } else {
        Seq::empty()
    }
}

/// What converting a whole input yields: the output over the rows that
/// remain after skipping.
pub open spec fn spec_convert(
    rows: Seq<Seq<Seq<char>>>,
    cfg: Config,
    table: Option<&RuleTable>,
) -> Result<Seq<char>, SpecRowError> {
    spec_rows_output(spec_after_skip(rows, cfg), cfg, table)
}

/// A failure among the first `k` rows is the whole sequence's failure.
proof fn lemma_error_propagates(
    rows: Seq<Seq<Seq<char>>>,
    cfg: Config,
    table: Option<&RuleTable>,
    k: int,
)
    requires
        0 <= k <= rows.len(),
        spec_rows_output(rows.take(k), cfg, table) is Err,
    ensures
        spec_rows_output(rows, cfg, table) == spec_rows_output(rows.take(k), cfg, table),
    decreases rows.len(),
{
    if k == rows.len() {
        assert(rows.take(k) =~= rows);
    } else {
        assert(rows.drop_last().take(k) =~= rows.take(k));
        lemma_error_propagates(rows.drop_last(), cfg, table, k);
    }
}

/// Row skipping: the output never depends on the discarded leading
/// rows — two inputs that agree after the skip convert identically, so
/// the skipped rows are absent from the output entirely.
pub proof fn lemma_skipped_rows_ignored(
    rows1: Seq<Seq<Seq<char>>>,
    rows2: Seq<Seq<Seq<char>>>,
    cfg: Config,
    table: Option<&RuleTable>,
)
    requires
        spec_after_skip(rows1, cfg) == spec_after_skip(rows2, cfg),
    ensures
        spec_convert(rows1, cfg, table) == spec_convert(rows2, cfg, table),
{
}

/// Convert parsed rows to ledger text, in input order, stopping at the
/// first failing row.
pub fn convert(rows: &Vec<Vec<String>>, cfg: &Config, table: Option<&RuleTable>) -> (r: Result<
    String,
    RowError,
>)
    ensures
        match r {
            Ok(s) => spec_convert(rows_view(*rows), *cfg, table) == Ok::<Seq<char>, SpecRowError>(
                s@,
            ),
            Err(e) => spec_convert(rows_view(*rows), *cfg, table) == Err::<Seq<char>, SpecRowError>(
                e@,
            ),
        },
{
    let n = rows.len();
    let skip = cfg.effective_skip();
    let start = if skip < n {
        skip
    } else {
        n
    };
    let ghost s = spec_after_skip(rows_view(*rows), *cfg);
    proof {
        assert(s =~= rows_view(*rows).skip(start as int));
        assert(s.take(0) =~= Seq::empty());
    }
    let mut out = String::new();
    let mut i: usize = start;
    while i < n
        invariant
            n == rows@.len(),
            start <= i <= n,
            s == spec_after_skip(rows_view(*rows), *cfg),
            s =~= rows_view(*rows).skip(start as int),
            spec_rows_output(s.take(i - start), *cfg, table) == Ok::<Seq<char>, SpecRowError>(out@),
        decreases n - i,
    {
        let ghost j = i - start;
        proof {
            assert(s.take(j + 1).drop_last() =~= s.take(j));
            assert(s.take(j + 1).last() == s[j]);
            assert(s[j] == row_view(rows@[i as int]));
        }
        match build_transaction(&rows[i], cfg, table) {
            Err(e) => {
                proof {
                    lemma_error_propagates(s, *cfg, table, j + 1);
                }
                return Err(e);
            },
            Ok(t) => {
                if i > start {
                    out.append("\n\n");
                }
                let ts = t.render();
                out.append(ts.as_str());
            },
        }
        i = i + 1;
    }
    proof {
        assert(s.take(n - start) =~= s);
    }
    Ok(out)
}

/// What parsing delimited input bytes yields: the ordered rows of
/// string fields, or nothing when the bytes are not a well-formed
/// delimited file under the given delimiter and quote.
pub uninterp spec fn csv_rows(data: Seq<u8>, delimiter: u8, quote: u8) -> Option<
    Seq<Seq<Seq<char>>>,
>;

/// Relies on csv::ReaderBuilder and csv::Reader: reading bytes with a
/// given delimiter and quote character and no header row yields each
/// record's fields in order, and is a function of those three arguments
/// alone; a malformed record is an error.
#[verifier::external_body]
fn read_rows(data: &Vec<u8>, delimiter: u8, quote: u8) -> (r: Option<Vec<Vec<String>>>)
    ensures
        match r {
            Some(rows) => csv_rows(data@, delimiter, quote) == Some(rows_view(rows)),
            None => csv_rows(data@, delimiter, quote) is None,
        },
{
    let mut rdr = csv::ReaderBuilder::new()
        .delimiter(delimiter)
        .quote(quote)
        .has_headers(false)
        .from_reader(data.as_slice());
    let mut rows: Vec<Vec<String>> = Vec::new();
    for record in rdr.records() {
        match record {
            Ok(record) => rows.push(record.iter().map(|f| f.to_string()).collect()),
            Err(_) => return None,
        }
    }
    Some(rows)
}

/// What converting a whole delimited input yields.
pub open spec fn spec_convert_csv(data: Seq<u8>, cfg: Config, table: Option<&RuleTable>) -> Result<
    Seq<char>,
    SpecConvertError,
> {
    match csv_rows(data, spec_delimiter(cfg), spec_quote(cfg)) {
        None => Err(SpecConvertError::Csv),
        Some(rows) => match spec_convert(rows, cfg, table) {
            Ok(s) => Ok(s),
            Err(e) => Err(SpecConvertError::Row(e)),
        },
    }
}

/// Convert delimited input bytes to ledger text: parse them under the
/// configured delimiter and quote, then convert the rows.
pub fn convert_csv(data: &Vec<u8>, cfg: &Config, table: Option<&RuleTable>) -> (r: Result<
    String,
    ConvertError,
>)
    ensures
        match r {
            Ok(s) => spec_convert_csv(data@, *cfg, table) == Ok::<Seq<char>, SpecConvertError>(s@),
            Err(e) => spec_convert_csv(data@, *cfg, table) == Err::<Seq<char>, SpecConvertError>(
                e@,
            ),
        },
{
    let rows = match read_rows(data, cfg.effective_delimiter(), cfg.effective_quote()) {
        Some(rows) => rows,
        None => {
            return Err(ConvertError::Csv);
        },
    };
    match convert(&rows, cfg, table) {
        Ok(s) => Ok(s),
        Err(e) => Err(ConvertError::Row(e)),
    }
}

/// The diagnostic line for a failure.
pub open spec fn spec_message(e: SpecConvertError) -> Seq<char> {
    match e {
        SpecConvertError::Csv => "malformed delimited input"@,
        SpecConvertError::Row(SpecRowError::MissingField) => "row lacks a field at a configured column"@,
        SpecConvertError::Row(SpecRowError::DateParse) => "could not parse the date field"@,
        SpecConvertError::Row(SpecRowError::AmountParse(d)) => "Could not parse either in or out amounts for "@
            + d,
    }
}

impl ConvertError {
    /// A diagnostic line naming the failure; an amount failure names the
    /// failing row's resolved description.
    pub fn message(&self) -> (r: String)
        ensures
            r@ == spec_message(self@),
    {
        match self {
            ConvertError::Csv => String::from_str("malformed delimited input"),
            ConvertError::Row(RowError::MissingField) => String::from_str(
                "row lacks a field at a configured column",
            ),
            ConvertError::Row(RowError::DateParse) => String::from_str(
                "could not parse the date field",
            ),
            ConvertError::Row(RowError::AmountParse { description }) => {
                let mut r = String::from_str("Could not parse either in or out amounts for ");
                r.append(description.as_str());
                r
            },
        }
    }
}

} // verus!
