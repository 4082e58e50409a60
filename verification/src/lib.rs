//! Converts tabular transaction records into a plain-text double-entry
//! ledger. A configuration describes which column holds the date, the
//! credit and debit amounts, the description and the optional payee; an
//! optional rule table rewrites the description and the destination
//! account per raw description. Every emitted transaction has exactly two
//! postings whose amounts sum to zero.

pub mod num;
pub mod decimal;
pub mod dates;
pub mod config;
pub mod rules;
pub mod transaction;
pub mod convert;
