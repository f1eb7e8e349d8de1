//! Extraction of signature components from transaction execution outcomes.
//!
//! An outcome is either a single terminal status or carries a list of
//! per-receipt statuses. The single-outcome form is strict: every failure is
//! reported with its own error. The aggregate form is lenient by design:
//! receipts whose payload cannot be decoded or lacks a field are silently
//! skipped, and only an empty aggregate result is an error.

use vstd::prelude::*;
use crate::errors::ExtractError;
use crate::errors::SigField;

verus! {

/// The terminal status of a transaction execution.
pub enum FinalStatus {
    /// The transaction is not yet started.
    NotStarted,
    /// The transaction is started but not yet complete.
    Started,
    /// The transaction failed.
    Failure,
    /// The transaction completed with the given payload.
    SuccessValue(Vec<u8>),
}

/// The status of one receipt of a transaction execution.
pub enum ReceiptStatus {
    /// The receipt's outcome is unknown.
    Unknown,
    /// The receipt failed.
    Failure,
    /// The receipt produced another receipt.
    SuccessReceiptId,
    /// The receipt completed with the given payload.
    SuccessValue(Vec<u8>),
}

/// A transaction execution result: the terminal status and the per-receipt
/// statuses.
pub struct TransactionOutcome {
    pub status: FinalStatus,
    pub receipts: Vec<ReceiptStatus>,
}

/// Whether the payload parses as JSON.
pub uninterp spec fn json_ok(payload: Seq<u8>) -> bool;

/// The string at the two-level key path of the payload's JSON document:
/// `None` when the payload does not parse, a key is absent, or the value at
/// the path is not a string.
pub uninterp spec fn json_str_at(payload: Seq<u8>, outer: Seq<char>, inner: Seq<char>) -> Option<
    Seq<char>,
>;

/// Relies on `serde_json::from_slice::<serde_json::Value>`: whether the bytes
/// parse as a JSON document is a function of the bytes alone.
#[verifier::external_body]
fn json_parses(payload: &Vec<u8>) -> (r: bool)
    ensures
        r == json_ok(payload@),
{
    serde_json::from_slice::<serde_json::Value>(payload.as_slice()).is_ok()
}

/// Relies on `serde_json::from_slice::<serde_json::Value>` and on
/// `serde_json::Value::get` / `serde_json::Value::as_str`: parses the payload
/// and returns the string at `payload[outer][inner]`, a function of the
/// arguments alone. It returns a string only when the payload is a JSON
/// document.
#[verifier::external_body]
fn json_lookup_str(payload: &Vec<u8>, outer: &str, inner: &str) -> (r: Option<String>)
    ensures
        (match r {
            Some(v) => Some(v@),
            None => None,
        }) == json_str_at(payload@, outer@, inner@),
        r is Some ==> json_ok(payload@),
{
    let doc: serde_json::Value = match serde_json::from_slice(payload.as_slice()) {
        Ok(v) => v,
        Err(_) => {
            return None;
        },
    };
    match doc.get(outer).and_then(|v| v.get(inner)).and_then(|v| v.as_str()) {
        Some(s) => Some(s.to_owned()),
        None => None,
    }
}

/// The `big_r.affine_point` field of a payload.
pub open spec fn big_r_of(payload: Seq<u8>) -> Option<Seq<char>> {
    json_str_at(payload, "big_r"@, "affine_point"@)
}

/// The `s.scalar` field of a payload.
pub open spec fn s_of(payload: Seq<u8>) -> Option<Seq<char>> {
    json_str_at(payload, "s"@, "scalar"@)
}

/// The component pair a receipt yields: both fields of its success payload,
/// or nothing.
pub open spec fn receipt_components(rs: ReceiptStatus) -> Option<(Seq<char>, Seq<char>)> {
    match rs {
        ReceiptStatus::SuccessValue(payload) => match (big_r_of(payload@), s_of(payload@)) {
            (Some(big_r), Some(s)) => Some((big_r, s)),
            _ => None,
        },
        _ => None,
    }
}

/// The component pairs of all receipts that yield one, in receipt order.
pub open spec fn components_of(receipts: Seq<ReceiptStatus>) -> Seq<(Seq<char>, Seq<char>)>
    decreases receipts.len(),
{
    if receipts.len() == 0 {
        Seq::empty()
    } else {
        components_of(receipts.drop_last()) + (match receipt_components(receipts.last()) {
            Some(pair) => seq![pair],
            None => Seq::empty(),
        })
    }
}

/// The views of a vector of component pairs.
pub open spec fn component_views(v: Seq<(String, String)>) -> Seq<(Seq<char>, Seq<char>)> {
    v.map_values(|pair: (String, String)| (pair.0@, pair.1@))
}

/// Extracts the `big_r` and `s` components from the terminal status of an
/// outcome. Strict: the outcome must have completed with a success payload
/// that is a JSON document carrying both fields, and each failure is reported
/// as its own error.
pub fn extract_big_r_and_s(outcome: &TransactionOutcome) -> (r: Result<
    (String, String),
    ExtractError,
>)
    ensures
        match outcome.status {
            FinalStatus::SuccessValue(payload) => {
                if !json_ok(payload@) {
                    r == Err::<(String, String), _>(ExtractError::InvalidPayload)
                } else {
                    match big_r_of(payload@) {
                        None => r == Err::<(String, String), _>(
                            ExtractError::MissingField(SigField::BigR),
                        ),
                        Some(big_r) => match s_of(payload@) {
                            None => r == Err::<(String, String), _>(
                                ExtractError::MissingField(SigField::SScalar),
                            ),
                            Some(s) => r matches Ok(pair) && pair.0@ == big_r && pair.1@ == s,
                        },
                    }
                }
            },
            _ => r == Err::<(String, String), _>(ExtractError::NotSuccess),
        },
{
    match &outcome.status {
        FinalStatus::SuccessValue(payload) => {
            if !json_parses(payload) {
                return Err(ExtractError::InvalidPayload);
            }
            let big_r = match json_lookup_str(payload, "big_r", "affine_point") {
                Some(v) => v,
                None => {
                    return Err(ExtractError::MissingField(SigField::BigR));
                },
            };
            let s = match json_lookup_str(payload, "s", "scalar") {
                Some(v) => v,
                None => {
                    return Err(ExtractError::MissingField(SigField::SScalar));
                },
            };
            Ok((big_r, s))
        },
        _ => Err(ExtractError::NotSuccess),
    }
}

/// Extracts the component pairs of every receipt that carries both fields in
/// a success payload. Lenient: receipts that did not succeed, do not decode,
/// or lack a field are skipped; only an empty aggregate result is an error.
pub fn extract_multiple_signatures(outcome: &TransactionOutcome) -> (r: Result<
    Vec<(String, String)>,
    ExtractError,
>)
    ensures
        match r {
            Ok(v) => component_views(v@) == components_of(outcome.receipts@) && v@.len() > 0,
            Err(e) => e == ExtractError::NoSignaturesFound && components_of(
                outcome.receipts@,
            ).len() == 0,
        },
{
    let mut out: Vec<(String, String)> = Vec::new();
    let n = outcome.receipts.len();
    let mut i: usize = 0;
    proof {
        assert(component_views(out@) =~= components_of(outcome.receipts@.take(0)));
    }
    while i < n
        invariant
            n == outcome.receipts@.len(),
            i <= n,
            component_views(out@) == components_of(outcome.receipts@.take(i as int)),
        decreases n - i,
    {
        match &outcome.receipts[i] {
            ReceiptStatus::SuccessValue(payload) => {
                match json_lookup_str(payload, "big_r", "affine_point") {
                    Some(big_r) => match json_lookup_str(payload, "s", "scalar") {
                        Some(s) => {
                            out.push((big_r, s));
                        },
                        None => {},
                    },
                    None => {},
                }
            },
            _ => {},
        }
        proof {
            assert(outcome.receipts@.take(i + 1).drop_last() =~= outcome.receipts@.take(i as int));
            assert(outcome.receipts@.take(i + 1).last() == outcome.receipts@[i as int]);
            assert(component_views(out@) =~= components_of(outcome.receipts@.take(i + 1)));
        }
        i += 1;
    }
    proof {
        assert(outcome.receipts@.take(n as int) =~= outcome.receipts@);
    }
    if out.len() == 0 {
        Err(ExtractError::NoSignaturesFound)
    } else {
        Ok(out)
    }
}

} // verus!
