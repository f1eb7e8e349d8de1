//! Tests of outcome extraction: strict single-outcome form, lenient
//! aggregate form.

use wallet_verify::extract_big_r_and_s;
use wallet_verify::extract_multiple_signatures;
use wallet_verify::ExtractError;
use wallet_verify::FinalStatus;
use wallet_verify::ReceiptStatus;
use wallet_verify::SigField;
use wallet_verify::TransactionOutcome;

fn full_payload() -> Vec<u8> {
    br#"{"big_r":{"affine_point":"02AABB"},"s":{"scalar":"CCDD"}}"#.to_vec()
}

fn payload_without_scalar() -> Vec<u8> {
    br#"{"big_r":{"affine_point":"02AABB"},"s":{}}"#.to_vec()
}

fn payload_without_big_r() -> Vec<u8> {
    br#"{"s":{"scalar":"CCDD"}}"#.to_vec()
}

#[test]
fn single_outcome_yields_both_components() {
    let outcome = TransactionOutcome {
        status: FinalStatus::SuccessValue(full_payload()),
        receipts: vec![],
    };
    let (big_r, s) = extract_big_r_and_s(&outcome).expect("both fields are present");
    assert_eq!(big_r, "02AABB");
    assert_eq!(s, "CCDD");
}

#[test]
fn single_outcome_missing_scalar_is_reported() {
    let outcome = TransactionOutcome {
        status: FinalStatus::SuccessValue(payload_without_scalar()),
        receipts: vec![],
    };
    assert_eq!(
        extract_big_r_and_s(&outcome),
        Err(ExtractError::MissingField(SigField::SScalar))
    );
}

#[test]
fn single_outcome_missing_big_r_is_reported() {
    let outcome = TransactionOutcome {
        status: FinalStatus::SuccessValue(payload_without_big_r()),
        receipts: vec![],
    };
    assert_eq!(
        extract_big_r_and_s(&outcome),
        Err(ExtractError::MissingField(SigField::BigR))
    );
}

#[test]
fn single_outcome_that_did_not_succeed_is_reported() {
    for status in [FinalStatus::NotStarted, FinalStatus::Started, FinalStatus::Failure] {
        let outcome = TransactionOutcome { status, receipts: vec![] };
        assert_eq!(extract_big_r_and_s(&outcome), Err(ExtractError::NotSuccess));
    }
}

#[test]
fn single_outcome_with_undecodable_payload_is_reported() {
    let outcome = TransactionOutcome {
        status: FinalStatus::SuccessValue(b"not json at all".to_vec()),
        receipts: vec![],
    };
    assert_eq!(extract_big_r_and_s(&outcome), Err(ExtractError::InvalidPayload));
}

#[test]
fn single_outcome_field_of_wrong_type_is_missing() {
    let outcome = TransactionOutcome {
        status: FinalStatus::SuccessValue(
            br#"{"big_r":{"affine_point":7},"s":{"scalar":"CCDD"}}"#.to_vec(),
        ),
        receipts: vec![],
    };
    assert_eq!(
        extract_big_r_and_s(&outcome),
        Err(ExtractError::MissingField(SigField::BigR))
    );
}

#[test]
fn aggregate_extraction_skips_bad_receipts() {
    let outcome = TransactionOutcome {
        status: FinalStatus::Failure,
        receipts: vec![
            ReceiptStatus::SuccessValue(full_payload()),
            ReceiptStatus::SuccessValue(b"{{{ not json".to_vec()),
            ReceiptStatus::SuccessValue(payload_without_scalar()),
        ],
    };
    let sigs = extract_multiple_signatures(&outcome).expect("one receipt is usable");
    assert_eq!(sigs.len(), 1);
    assert_eq!(sigs[0].0, "02AABB");
    assert_eq!(sigs[0].1, "CCDD");
}

#[test]
fn aggregate_extraction_keeps_receipt_order() {
    let second = br#"{"big_r":{"affine_point":"03EEFF"},"s":{"scalar":"0011"}}"#.to_vec();
    let outcome = TransactionOutcome {
        status: FinalStatus::Failure,
        receipts: vec![
            ReceiptStatus::Failure,
            ReceiptStatus::SuccessValue(full_payload()),
            ReceiptStatus::Unknown,
            ReceiptStatus::SuccessValue(second),
            ReceiptStatus::SuccessReceiptId,
        ],
    };
    let sigs = extract_multiple_signatures(&outcome).expect("two receipts are usable");
    assert_eq!(sigs.len(), 2);
    assert_eq!(sigs[0], ("02AABB".to_string(), "CCDD".to_string()));
    assert_eq!(sigs[1], ("03EEFF".to_string(), "0011".to_string()));
}

#[test]
fn aggregate_extraction_with_no_usable_receipt_fails() {
    let outcome = TransactionOutcome {
        status: FinalStatus::Failure,
        receipts: vec![
            ReceiptStatus::SuccessValue(payload_without_big_r()),
            ReceiptStatus::SuccessValue(payload_without_scalar()),
            ReceiptStatus::Failure,
        ],
    };
    assert_eq!(
        extract_multiple_signatures(&outcome),
        Err(ExtractError::NoSignaturesFound)
    );
}

#[test]
fn aggregate_extraction_with_no_receipts_fails() {
    let outcome = TransactionOutcome {
        status: FinalStatus::SuccessValue(full_payload()),
        receipts: vec![],
    };
    assert_eq!(
        extract_multiple_signatures(&outcome),
        Err(ExtractError::NoSignaturesFound)
    );
}
