//! Verification of an MPC signer's ECDSA signature reconstruction and of a
//! regtest wallet's hierarchical key derivation.
//!
//! The crate has two independent pipelines. One recovers split signature
//! components from transaction execution outcomes and reassembles them into a
//! 64-byte compact ECDSA signature. The other extracts a master extended
//! private key from a wallet descriptor listing, derives a child key pair
//! along a BIP32 path, and checks the result against the public key and
//! address that a node reported.

mod derivation;
mod descriptor;
mod errors;
mod hexutil;
mod outcome;
mod signature;
mod strutil;

pub use errors::DescriptorError;
pub use errors::DerivationError;
pub use errors::SignatureError;
pub use errors::SigField;
pub use errors::ExtractError;
pub use derivation::PathStep;
pub use derivation::DerivationPath;
pub use derivation::parse_derivation_path;
pub use derivation::parse_path;
pub use derivation::parse_steps;
pub use derivation::parse_component;
pub use derivation::DerivedKeyPair;
pub use derivation::derive_keypair;
pub use derivation::derived_keys_of;
pub use derivation::lemma_derivation_deterministic;
pub use derivation::Network;
pub use derivation::network_tag;
pub use derivation::p2pkh_address_of;
pub use derivation::p2wpkh_address_of;
pub use derivation::expected_address_of;
pub use derivation::verify_against_node;
pub use derivation::utxos_match_address;
pub use derivation::step_views;
pub use derivation::dec_val;
pub use derivation::is_digits;
pub use derivation::digits_val;
pub use derivation::comp_hardened;
pub use derivation::comp_digits;
pub use descriptor::ScriptType;
pub use descriptor::MasterKey;
pub use descriptor::find_master_key;
pub use descriptor::desc_matches;
pub use descriptor::selected_index;
pub use descriptor::raw_key_of;
pub use descriptor::normalized_key;
pub use descriptor::xpriv_valid;
pub use descriptor::string_views;
pub use descriptor::lemma_segwit_selection_excludes_taproot;
pub use descriptor::lemma_selected_is_first_match;
pub use descriptor::script_marker;
pub use descriptor::script_token;
pub use descriptor::upto;
pub use outcome::FinalStatus;
pub use outcome::ReceiptStatus;
pub use outcome::TransactionOutcome;
pub use outcome::extract_big_r_and_s;
pub use outcome::extract_multiple_signatures;
pub use outcome::json_ok;
pub use outcome::json_str_at;
pub use outcome::big_r_of;
pub use outcome::s_of;
pub use outcome::receipt_components;
pub use outcome::components_of;
pub use outcome::component_views;
pub use signature::CompactSignature;
pub use signature::create_signature;
pub use signature::compact_form;
pub use signature::compact_sig_valid;
pub use hexutil::hex_decode;
pub use hexutil::hex_encode;
pub use hexutil::hex_to_bytes;
pub use hexutil::hex_of;
pub use hexutil::hex_val;
pub use hexutil::byte_hex;
pub use hexutil::nibble_char;
pub use strutil::find_str;
pub use strutil::str_eq;
pub use strutil::match_at;
pub use strutil::find_from;
pub use strutil::contains_seq;
pub use strutil::starts_with;
pub use strutil::starts_with_str;
pub use strutil::lemma_find_from_is_match;
