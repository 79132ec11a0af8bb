//! Reading one value out of a database result row.
//!
//! A result-row value arrives with no reliable declared type, so it is
//! probed under each candidate representation through the driver's
//! fallible accessor and the outcomes are handed to the verified coercer.
//! Each probe's outcome is a function of the row and column alone, so it
//! carries a name that the coercion contract is stated over. A failed
//! probe has no observable side effect; the driver's error is discarded,
//! never surfaced.
//!
//! The timestamp probe is the one candidate not read here: the driver's
//! binary timestamp decode aborts on stored values outside chrono's
//! range (`infinity`, `-infinity`, years beyond 262143), and no contract
//! of this crate may admit an abort. The caller probes it at the
//! boundary, contains the abort there, and hands the rendered text in as
//! a plain value.

use vstd::prelude::*;

use crate::coerce::{coerce, JsonValue, RawValue, RawValueSpec, spec_coerce};

verus! {

#[verifier::external_type_specification]
#[verifier::external_body]
pub struct ExPgRow(sqlx::postgres::PgRow);

/// What the text probe of a row's column yields: the cell decoded as a
/// string, or nothing. A function of the row and column alone.
pub uninterp spec fn text_probe_of(row: sqlx::postgres::PgRow, col: Seq<char>) -> Option<Seq<char>>;

/// What the 32-bit integer probe of a row's column yields.
pub uninterp spec fn int4_probe_of(row: sqlx::postgres::PgRow, col: Seq<char>) -> Option<int>;

/// What the 64-bit integer probe of a row's column yields.
pub uninterp spec fn int8_probe_of(row: sqlx::postgres::PgRow, col: Seq<char>) -> Option<int>;

/// What the boolean probe of a row's column yields.
pub uninterp spec fn bool_probe_of(row: sqlx::postgres::PgRow, col: Seq<char>) -> Option<bool>;

/// Relies on sqlx::Row::try_get::<String>: decodes the named column as
/// text, failing on a missing column, a null, or an incompatible type.
#[verifier::external_body]
fn probe_text(row: &sqlx::postgres::PgRow, col: &str) -> (r: Option<String>)
    ensures
        (match r {
            Some(s) => Some(s@),
            None => None::<Seq<char>>,
        }) == text_probe_of(*row, col@),
{
    sqlx::Row::try_get::<String, &str>(row, col).ok()
}

/// Relies on sqlx::Row::try_get::<i32>: decodes the named column as a
/// 32-bit integer, failing on a missing column, a null, or an
/// incompatible type.
#[verifier::external_body]
fn probe_int4(row: &sqlx::postgres::PgRow, col: &str) -> (r: Option<i32>)
    ensures
        (match r {
            Some(n) => Some(n as int),
            None => None::<int>,
        }) == int4_probe_of(*row, col@),
{
    sqlx::Row::try_get::<i32, &str>(row, col).ok()
}

/// Relies on sqlx::Row::try_get::<i64>: decodes the named column as a
/// 64-bit integer, failing on a missing column, a null, or an
/// incompatible type.
#[verifier::external_body]
fn probe_int8(row: &sqlx::postgres::PgRow, col: &str) -> (r: Option<i64>)
    ensures
        (match r {
            Some(n) => Some(n as int),
            None => None::<int>,
        }) == int8_probe_of(*row, col@),
{
    sqlx::Row::try_get::<i64, &str>(row, col).ok()
}

/// Relies on sqlx::Row::try_get::<bool>: decodes the named column as a
/// boolean, failing on a missing column, a null, or an incompatible type.
#[verifier::external_body]
fn probe_bool(row: &sqlx::postgres::PgRow, col: &str) -> (r: Option<bool>)
    ensures
        r == bool_probe_of(*row, col@),
{
    sqlx::Row::try_get::<bool, &str>(row, col).ok()
}

/// The probe outcomes of one cell, as the coercion contract sees them:
/// the four named in-crate probes, and the timestamp text the caller
/// probed at the boundary.
pub open spec fn cell_probes(
    row: sqlx::postgres::PgRow,
    col: Seq<char>,
    timestamp: Option<String>,
) -> RawValueSpec {
    RawValueSpec {
        text: text_probe_of(row, col),
        int4: int4_probe_of(row, col),
        int8: int8_probe_of(row, col),
        boolean: bool_probe_of(row, col),
        timestamp: match timestamp {
            Some(s) => Some(s@),
            None => None,
        },
    }
}

/// Coerces the named column of a result row to JSON: exactly the fixed
/// probe order applied to this cell's probe outcomes — earliest
/// successful probe wins, string first, null when all fail. `timestamp`
/// is the timestamp probe's outcome, handed in by the caller, who probes
/// it at the boundary: the driver's binary timestamp decode aborts on
/// stored values outside chrono's range, and containing that abort —
/// degrading it to a failed probe — is boundary work this crate's rules
/// keep out of a verified library.
pub fn coerce_row_value(row: &sqlx::postgres::PgRow, col: &str, timestamp: Option<String>) -> (r:
    JsonValue)
    ensures
        r@ == spec_coerce(cell_probes(*row, col@, timestamp)),
{
    let ghost expected = cell_probes(*row, col@, timestamp);
    let raw = RawValue {
        text: probe_text(row, col),
        int4: probe_int4(row, col),
        int8: probe_int8(row, col),
        boolean: probe_bool(row, col),
        timestamp,
    };
    proof {
        assert(raw@ == expected);
    }
    coerce(raw)
}

} // verus!
