//! Tests of descriptor selection, key extraction and normalization.

use wallet_verify::find_master_key;
use wallet_verify::DescriptorError;
use wallet_verify::ScriptType;

const TPRV: &str = "tprv8ZgxMBicQKsPd4arFr7sKjSnKFDVMR2JHw9Y8L9nXN4kiok4u28LpHijEudH3mMYoL4pM5UL9Bgdz2M4Cy8EzfErmU9m86ZTw6hCzvFeTg7";

#[test]
fn legacy_descriptor_is_found_and_parsed() {
    let descriptors = vec![
        "sh(wsh(abc))".to_string(),
        format!("pkh({}/44'/1'/0'/0/*)#abcd1234", TPRV),
    ];
    let master = find_master_key(&descriptors, ScriptType::Legacy).expect("a pkh descriptor");
    assert_eq!(master.key_text(), TPRV);
}

#[test]
fn segwit_descriptor_is_found_and_parsed() {
    let descriptors = vec![
        format!("pkh({}/44'/1'/0'/0/*)#abcd1234", TPRV),
        format!("wpkh({}/84'/1'/0'/0/*)#abcd1234", TPRV),
    ];
    let master = find_master_key(&descriptors, ScriptType::Segwit).expect("a wpkh descriptor");
    assert_eq!(master.key_text(), TPRV);
}

#[test]
fn taproot_descriptor_is_excluded_for_segwit() {
    // The taproot descriptor stands first and contains the segwit marker, so
    // a plain substring search would pick it; selection must skip it.
    let descriptors = vec![
        format!("tr(wpkhdecoy{}/86'/1'/0'/0/*)", TPRV),
        format!("wpkh({}/84'/1'/0'/0/*)", TPRV),
    ];
    let master = find_master_key(&descriptors, ScriptType::Segwit).expect("the true wpkh one");
    assert_eq!(master.key_text(), TPRV);
}

#[test]
fn legacy_marker_also_matches_a_wpkh_descriptor() {
    // The legacy marker is a substring of the segwit one, so a wpkh
    // descriptor satisfies a legacy search; the key material is the same.
    let descriptors = vec![format!("wpkh({}/84'/1'/0'/0/*)", TPRV)];
    let master = find_master_key(&descriptors, ScriptType::Legacy).expect("marker matches");
    assert_eq!(master.key_text(), TPRV);
}

#[test]
fn missing_descriptor_is_reported() {
    let descriptors = vec!["tr(abc/86'/1'/0'/0/*)".to_string(), "wsh(xyz)".to_string()];
    assert_eq!(
        find_master_key(&descriptors, ScriptType::Segwit),
        Err(DescriptorError::DescriptorNotFound)
    );
    assert_eq!(
        find_master_key(&vec![], ScriptType::Legacy),
        Err(DescriptorError::DescriptorNotFound)
    );
}

#[test]
fn unparsable_key_material_is_reported() {
    let descriptors = vec!["wpkh(garbage/0/*)".to_string()];
    assert_eq!(
        find_master_key(&descriptors, ScriptType::Segwit),
        Err(DescriptorError::MalformedKey)
    );
}

#[test]
fn segwit_key_without_version_prefix_is_normalized() {
    // A node may report the key with its leading version prefix dropped; the
    // parser prepends it before parsing.
    let stripped = &TPRV[4..];
    let descriptors = vec![format!("wpkh({}/84'/1'/0'/0/*)", stripped)];
    let master = find_master_key(&descriptors, ScriptType::Segwit).expect("prefix is restored");
    assert_eq!(master.key_text(), TPRV);
}
