//! Tests of path parsing, key derivation and the comparison against
//! node-reported values.

use wallet_verify::derive_keypair;
use wallet_verify::find_master_key;
use wallet_verify::parse_derivation_path;
use wallet_verify::utxos_match_address;
use wallet_verify::verify_against_node;
use wallet_verify::DerivationError;
use wallet_verify::Network;
use wallet_verify::ScriptType;

const TPRV: &str = "tprv8ZgxMBicQKsPd4arFr7sKjSnKFDVMR2JHw9Y8L9nXN4kiok4u28LpHijEudH3mMYoL4pM5UL9Bgdz2M4Cy8EzfErmU9m86ZTw6hCzvFeTg7";

// Derived from TPRV at m/44'/1'/0'/0/0 (legacy) and m/84'/1'/0'/0/0 (segwit).
const LEGACY_PUBKEY_HEX: &str = "03d4744cff4e72443819bacf56c56ae123abfddac3a827b3f46cc3809e5c6dde3e";
const LEGACY_ADDRESS: &str = "mu2k64C3nDzncQkYLxJH59Mcr5Ni2i4XfV";
const SEGWIT_PUBKEY_HEX: &str = "031869121cf569567ab8710fc7e0c48e4dcb4e4e0cb932693527028a0cd2ae6b6b";
const SEGWIT_ADDRESS: &str = "bcrt1q9a7rtchjssrdynjkhrd3ejs5hj4axwv3dn0psl";

#[test]
fn parse_path_accepts_mixed_components() {
    let path = parse_derivation_path("m/44'/1h/0'/0/2147483647").expect("structurally valid");
    let steps = path.steps();
    let expected: Vec<(u32, bool)> =
        vec![(44, true), (1, true), (0, true), (0, false), (2147483647, false)];
    assert_eq!(steps.len(), expected.len());
    for (step, (index, hardened)) in steps.iter().zip(expected.iter()) {
        assert_eq!(step.index, *index);
        assert_eq!(step.hardened, *hardened);
    }
}

#[test]
fn parse_path_accepts_bare_master() {
    let path = parse_derivation_path("m").expect("the empty path");
    assert_eq!(path.steps().len(), 0);
}

#[test]
fn parse_path_rejects_malformed_strings() {
    for bad in ["", "44/0", "m/", "m//0", "m/2147483648", "m/x", "m/0''", "n/0", "m/-1"] {
        assert_eq!(
            parse_derivation_path(bad),
            Err(DerivationError::InvalidPath),
            "{bad:?} must be rejected"
        );
    }
}

#[test]
fn derivation_is_deterministic() {
    let descriptors = vec![format!("pkh({}/44'/1'/0'/0/*)", TPRV)];
    let master = find_master_key(&descriptors, ScriptType::Legacy).unwrap();
    let path = parse_derivation_path("m/44'/1'/0'/0/0").unwrap();
    let first = derive_keypair(&master, &path).expect("derivation succeeds");
    let second = derive_keypair(&master, &path).expect("derivation succeeds");
    assert_eq!(first.secret, second.secret);
    assert_eq!(first.public, second.public);
    assert_eq!(first.secret.len(), 32);
    assert_eq!(first.public.len(), 33);
}

#[test]
fn legacy_round_trip_matches_node_values() {
    let descriptors = vec![format!("pkh({}/44'/1'/0'/0/*)", TPRV)];
    let master = find_master_key(&descriptors, ScriptType::Legacy).unwrap();
    let path = parse_derivation_path("m/44'/1'/0'/0/0").unwrap();
    let derived = derive_keypair(&master, &path).unwrap();
    verify_against_node(
        &derived,
        LEGACY_PUBKEY_HEX,
        LEGACY_ADDRESS,
        ScriptType::Legacy,
        Network::Regtest,
    )
    .expect("the derived pair reproduces the node's values");
}

#[test]
fn segwit_round_trip_matches_node_values() {
    let descriptors = vec![format!("wpkh({}/84'/1'/0'/0/*)", TPRV)];
    let master = find_master_key(&descriptors, ScriptType::Segwit).unwrap();
    let path = parse_derivation_path("m/84'/1'/0'/0/0").unwrap();
    let derived = derive_keypair(&master, &path).unwrap();
    verify_against_node(
        &derived,
        SEGWIT_PUBKEY_HEX,
        SEGWIT_ADDRESS,
        ScriptType::Segwit,
        Network::Regtest,
    )
    .expect("the derived pair reproduces the node's values");
}

#[test]
fn mismatching_pubkey_is_reported_with_both_sides() {
    let descriptors = vec![format!("pkh({}/44'/1'/0'/0/*)", TPRV)];
    let master = find_master_key(&descriptors, ScriptType::Legacy).unwrap();
    let path = parse_derivation_path("m/44'/1'/0'/0/0").unwrap();
    let derived = derive_keypair(&master, &path).unwrap();
    let wrong = "02ffffffffffffffffffffffffffffffffffffffffffffffffffffffffffffffff";
    match verify_against_node(
        &derived,
        wrong,
        LEGACY_ADDRESS,
        ScriptType::Legacy,
        Network::Regtest,
    ) {
        Err(DerivationError::DerivationMismatch {
            expected_pubkey,
            observed_pubkey,
            expected_address,
            observed_address,
        }) => {
            assert_eq!(expected_pubkey, LEGACY_PUBKEY_HEX);
            assert_eq!(observed_pubkey, wrong);
            assert_eq!(expected_address.as_deref(), Some(LEGACY_ADDRESS));
            assert_eq!(observed_address, LEGACY_ADDRESS);
        },
        other => panic!("expected a mismatch, got {other:?}"),
    }
}

#[test]
fn mismatching_address_is_reported() {
    let descriptors = vec![format!("pkh({}/44'/1'/0'/0/*)", TPRV)];
    let master = find_master_key(&descriptors, ScriptType::Legacy).unwrap();
    let path = parse_derivation_path("m/44'/1'/0'/0/0").unwrap();
    let derived = derive_keypair(&master, &path).unwrap();
    let r = verify_against_node(
        &derived,
        LEGACY_PUBKEY_HEX,
        SEGWIT_ADDRESS,
        ScriptType::Legacy,
        Network::Regtest,
    );
    assert!(r.is_err());
}

#[test]
fn utxo_ownership_check_compares_every_entry() {
    let addr = "mu2k64C3nDzncQkYLxJH59Mcr5Ni2i4XfV";
    let owned = vec![addr.to_string(), addr.to_string()];
    assert!(utxos_match_address(&owned, addr));
    assert!(utxos_match_address(&vec![], addr));
    let foreign = vec![addr.to_string(), SEGWIT_ADDRESS.to_string()];
    assert!(!utxos_match_address(&foreign, addr));
}
