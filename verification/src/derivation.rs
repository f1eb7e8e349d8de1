//! BIP32 child-key derivation from a master extended private key along a
//! parsed derivation path, and the comparison of the derived pair against
//! node-reported values.

use vstd::prelude::*;
use vstd::string::*;
use bitcoin::bip32::ChildNumber;
use crate::descriptor::MasterKey;
use crate::descriptor::ScriptType;
use crate::errors::DerivationError;
use crate::hexutil::hex_of;
use crate::hexutil::hex_encode;
use crate::strutil::find_from;
use crate::strutil::find_str;
use crate::strutil::lemma_find_from_is_match;
use crate::strutil::str_eq;

verus! {

/// One step of a derivation path: a child index below 2^31, hardened or not.
#[derive(Debug, Clone, Copy, PartialEq, Eq, Structural)]
pub struct PathStep {
    pub index: u32,
    pub hardened: bool,
}

/// The `(index, hardened)` pairs of a sequence of steps.
pub open spec fn step_views(s: Seq<PathStep>) -> Seq<(u32, bool)> {
    s.map_values(|p: PathStep| (p.index, p.hardened))
}

/// An ordered sequence of derivation steps, parsed from a path string such as
/// `m/44'/1'/0'/0/0`. Its view is the sequence of `(index, hardened)` pairs.
#[derive(Debug, PartialEq, Eq)]
pub struct DerivationPath {
    steps: Vec<PathStep>,
}

impl View for DerivationPath {
    type V = Seq<(u32, bool)>;

    closed spec fn view(&self) -> Seq<(u32, bool)> {
        step_views(self.steps@)
    }
}

impl DerivationPath {
    /// The parsed steps, in order.
    pub fn steps(&self) -> (r: &Vec<PathStep>)
        ensures
            step_views(r@) == self@,
    {
        &self.steps
    }
}

/// Value of one decimal digit; `None` for any other character.
pub open spec fn dec_val(c: char) -> Option<u8> {
    let v = c as u32;
    if 48 <= v <= 57 {
        Some((v - 48) as u8)
    } else {
        None
    }
}

/// All characters are decimal digits, and there is at least one.
pub open spec fn is_digits(s: Seq<char>) -> bool {
    s.len() > 0 && forall|i: int| 0 <= i < s.len() ==> dec_val(s[i]) is Some
}

/// The number denoted by a string of decimal digits.
pub open spec fn digits_val(s: Seq<char>) -> nat
    decreases s.len(),
{
    if s.len() == 0 {
        0
    } else {
        digits_val(s.drop_last()) * 10 + (dec_val(s.last())->Some_0 as nat)
    }
}

/// A component carries the hardened marker: a trailing apostrophe or `h`.
pub open spec fn comp_hardened(c: Seq<char>) -> bool {
    c.len() > 0 && (c.last() == '\'' || c.last() == 'h')
}

/// The digit part of a component: all of it but a hardened marker.
pub open spec fn comp_digits(c: Seq<char>) -> Seq<char> {
    if comp_hardened(c) {
        c.drop_last()
    } else {
        c
    }
}

/// One path component: decimal digits, optionally marked hardened by a
/// trailing apostrophe or `h`, whose value fits below 2^31.
pub open spec fn parse_component(c: Seq<char>) -> Option<(u32, bool)> {
    if is_digits(comp_digits(c)) && digits_val(comp_digits(c)) < 0x80000000 {
        Some(((digits_val(comp_digits(c)) as u32), comp_hardened(c)))
    } else {
        None
    }
}

/// The steps denoted by a `/`-separated list of components.
pub open spec fn parse_steps(s: Seq<char>) -> Option<Seq<(u32, bool)>>
    decreases s.len(),
    via parse_steps_decreases
{
    match find_from(s, "/"@, 0) {
        None => match parse_component(s) {
            Some(step) => Some(seq![step]),
            None => None,
        },
        Some(j) => match parse_component(s.take(j)) {
            Some(step) => match parse_steps(s.skip(j + 1)) {
                Some(rest) => Some(seq![step] + rest),
                None => None,
            },
            None => None,
        },
    }
}

#[via_fn]
proof fn parse_steps_decreases(s: Seq<char>) {
    reveal_strlit("/");
    match find_from(s, "/"@, 0) {
        Some(j) => {
            lemma_find_from_is_match(s, "/"@, 0, j);
        },
        None => {},
    }
}

/// The steps denoted by a full path string: `m` alone is the empty path,
/// `m/` followed by components is their list, and anything else is invalid.
pub open spec fn parse_path(s: Seq<char>) -> Option<Seq<(u32, bool)>> {
    if s == "m"@ {
        Some(Seq::empty())
    } else if s.len() >= 2 && s[0] == 'm' && s[1] == '/' {
        parse_steps(s.skip(2))
    } else {
        None
    }
}

/// Value of one decimal digit character.
fn dec_val_exec(c: char) -> (r: Option<u8>)
    ensures
        r == dec_val(c),
{
    let v = c as u32;
    if 48 <= v && v <= 57 {
        Some((v - 48) as u8)
    } else {
        None
    }
}

/// A digit string's prefixes denote values no larger than the whole string's.
proof fn lemma_digits_val_take_monotone(s: Seq<char>, i: int, j: int)
    requires
        0 <= i <= j <= s.len(),
    ensures
        digits_val(s.take(i)) <= digits_val(s.take(j)),
    decreases j - i,
{
    if i < j {
        assert(s.take(i + 1).drop_last() =~= s.take(i));
        lemma_digits_val_take_monotone(s, i + 1, j);
    }
}

/// Parses one path component.
fn parse_component_exec(c: &str) -> (r: Option<PathStep>)
    ensures
        match r {
            Some(p) => parse_component(c@) == Some((p.index, p.hardened)),
            None => parse_component(c@) is None,
        },
{
    let len = c.unicode_len();
    if len == 0 {
        return None;
    }
    let lastc = c.get_char(len - 1);
    let hardened = lastc == '\'' || lastc == 'h';
    let digits: &str = if hardened {
        c.substring_char(0, len - 1)
    } else {
        c
    };
    proof {
        if hardened {
            assert(digits@ =~= c@.drop_last());
        }
        assert(hardened == comp_hardened(c@));
        assert(digits@ == comp_digits(c@));
    }
    let dlen = digits.unicode_len();
    if dlen == 0 {
        return None;
    }
    let mut acc: u32 = 0;
    let mut i: usize = 0;
    while i < dlen
        invariant
            digits@ == comp_digits(c@),
            dlen == digits@.len(),
            dlen > 0,
            i <= dlen,
            acc < 0x80000000,
            acc == digits_val(digits@.take(i as int)),
            forall|k: int| 0 <= k < i ==> dec_val(digits@[k]) is Some,
        decreases dlen - i,
    {
        let d = match dec_val_exec(digits.get_char(i)) {
            Some(d) => d,
            None => {
                proof {
                    assert(!is_digits(digits@)) by {
                        assert(dec_val(digits@[i as int]) is None);
                    }
                }
                return None;
            },
        };
        let wide: u64 = (acc as u64) * 10 + (d as u64);
        proof {
            assert(digits@.take(i + 1).drop_last() =~= digits@.take(i as int));
            assert(digits_val(digits@.take(i + 1)) == wide);
        }
        if wide >= 0x80000000 {
            proof {
                if is_digits(digits@) {
                    lemma_digits_val_take_monotone(digits@, i + 1, dlen as int);
                    assert(digits@.take(dlen as int) =~= digits@);
                    assert(digits_val(digits@) >= 0x80000000);
                }
                assert(parse_component(c@) is None);
            }
            return None;
        }
        acc = wide as u32;
        i += 1;
    }
    proof {
        assert(digits@.take(dlen as int) =~= digits@);
    }
    Some(PathStep { index: acc, hardened })
}

/// Parses a `/`-separated list of components, appending the steps to `out`.
fn parse_steps_exec(s: &str, out: &mut Vec<PathStep>) -> (ok: bool)
    ensures
        match parse_steps(s@) {
            Some(steps) => ok && step_views(final(out)@) == step_views(old(out)@) + steps,
            None => !ok,
        },
    decreases s@.len(),
{
    match find_str(s, "/") {
        None => match parse_component_exec(s) {
            Some(step) => {
                out.push(step);
                proof {
                    assert(step_views(out@) =~= step_views(old(out)@) + seq![
                        (step.index, step.hardened),
                    ]);
                }
                true
            },
            None => false,
        },
        Some(j) => {
            proof {
                reveal_strlit("/");
                lemma_find_from_is_match(s@, "/"@, 0, j as int);
            }
            let len = s.unicode_len();
            let head = s.substring_char(0, j);
            proof {
                assert(head@ =~= s@.take(j as int));
            }
            match parse_component_exec(head) {
                Some(step) => {
                    out.push(step);
                    let ghost mid = out@;
                    let tail = s.substring_char(j + 1, len);
                    proof {
                        assert(tail@ =~= s@.skip(j + 1));
                        assert(step_views(mid) =~= step_views(old(out)@) + seq![
                            (step.index, step.hardened),
                        ]);
                    }
                    let ok = parse_steps_exec(tail, out);
                    proof {
                        if ok {
                            match parse_steps(s@.skip(j + 1)) {
                                Some(rest) => {
                                    assert(step_views(out@) =~= step_views(old(out)@) + (seq![
                                        (step.index, step.hardened),
                                    ] + rest));
                                },
                                None => {},
                            }
                        }
                    }
                    ok
                },
                None => false,
            }
        },
    }
}

/// Parses and structurally validates a derivation path string.
pub fn parse_derivation_path(s: &str) -> (r: Result<DerivationPath, DerivationError>)
    ensures
        match parse_path(s@) {
            Some(steps) => r matches Ok(p) && p@ == steps,
            None => r == Err::<DerivationPath, _>(DerivationError::InvalidPath),
        },
{
    if str_eq(s, "m") {
        let steps: Vec<PathStep> = Vec::new();
        proof {
            assert(step_views(steps@) =~= Seq::<(u32, bool)>::empty());
        }
        return Ok(DerivationPath { steps });
    }
    let len = s.unicode_len();
    if len < 2 {
        return Err(DerivationError::InvalidPath);
    }
    if s.get_char(0) != 'm' || s.get_char(1) != '/' {
        return Err(DerivationError::InvalidPath);
    }
    let rest = s.substring_char(2, len);
    proof {
        assert(rest@ =~= s@.skip(2));
    }
    let mut steps: Vec<PathStep> = Vec::new();
    if parse_steps_exec(rest, &mut steps) {
        proof {
            assert(step_views(Seq::<PathStep>::empty()) =~= Seq::<(u32, bool)>::empty());
        }
        Ok(DerivationPath { steps })
    } else {
        Err(DerivationError::InvalidPath)
    }
}

/// A key pair derived from a master key: the 32-byte private scalar and the
/// 33-byte compressed public key.
pub struct DerivedKeyPair {
    pub secret: Vec<u8>,
    pub public: Vec<u8>,
}

/// The (private scalar, compressed public key) bytes that BIP32 derivation
/// yields for a master key string and a path; `None` when the master key
/// string does not parse or derivation fails. A function of its arguments
/// alone: BIP32 derivation is deterministic and involves no randomness.
pub uninterp spec fn derived_keys_of(master: Seq<char>, path: Seq<(u32, bool)>) -> Option<
    (Seq<u8>, Seq<u8>),
>;

/// Relies on `bitcoin::bip32::Xpriv::derive_priv` (deterministic BIP32 child
/// key derivation, hardened steps keyed by the private key and normal steps
/// by the public key), with `bitcoin::secp256k1::PublicKey::from_secret_key`
/// for the corresponding compressed public key.
#[verifier::external_body]
fn derive_child_keys(master: &MasterKey, path: &DerivationPath) -> (r: Option<DerivedKeyPair>)
    ensures
        (match r {
            Some(kp) => Some((kp.secret@, kp.public@)),
            None => None,
        }) == derived_keys_of(master@, path@),
        r matches Some(kp) ==> kp.secret@.len() == 32 && kp.public@.len() == 33,
{
    let secp = bitcoin::secp256k1::Secp256k1::new();
    let xpriv = <bitcoin::bip32::Xpriv as std::str::FromStr>::from_str(
        master.key_text().as_str(),
    ).ok()?;
    let mut children: Vec<ChildNumber> = Vec::new();
    for s in path.steps.iter() {
        let mk = if s.hardened { ChildNumber::from_hardened_idx } else { ChildNumber::from_normal_idx };
        children.push(mk(s.index).ok()?);
    }
    let derived = xpriv.derive_priv(&secp, &children).ok()?;
    let public = bitcoin::secp256k1::PublicKey::from_secret_key(&secp, &derived.private_key);
    Some(DerivedKeyPair {
        secret: derived.private_key.secret_bytes().to_vec(),
        public: public.serialize().to_vec(),
    })
}

/// Derives the child key pair of a master key along a path. Deterministic:
/// the result is a function of the master key and the path alone.
pub fn derive_keypair(master: &MasterKey, path: &DerivationPath) -> (r: Option<DerivedKeyPair>)
    ensures
        (match r {
            Some(kp) => Some((kp.secret@, kp.public@)),
            None => None,
        }) == derived_keys_of(master@, path@),
        r matches Some(kp) ==> kp.secret@.len() == 32 && kp.public@.len() == 33,
{
    derive_child_keys(master, path)
}

/// Law: determinism of derivation. For a fixed master key and path, repeated
/// derivations yield the same key pair.
pub proof fn lemma_derivation_deterministic(
    master: Seq<char>,
    path: Seq<(u32, bool)>,
    first: Option<(Seq<u8>, Seq<u8>)>,
    second: Option<(Seq<u8>, Seq<u8>)>,
)
    requires
        first == derived_keys_of(master, path),
        second == derived_keys_of(master, path),
    ensures
        first == second,
{
}

/// The network a derived address is rendered for.
#[derive(Debug, Clone, Copy, PartialEq, Eq, Structural)]
pub enum Network {
    Mainnet,
    Testnet,
    Regtest,
}

/// A distinct tag for each network, used to parametrize address
/// specifications.
pub open spec fn network_tag(network: Network) -> int {
    match network {
        Network::Mainnet => 0,
        Network::Testnet => 1,
        Network::Regtest => 2,
    }
}

/// The base58check pay-to-pubkey-hash address of a public key on a network;
/// `None` when the bytes are not a valid public key encoding.
pub uninterp spec fn p2pkh_address_of(pk: Seq<u8>, network: int) -> Option<Seq<char>>;

/// The bech32 pay-to-witness-pubkey-hash address of a compressed public key
/// on a network; `None` when the bytes are not a valid compressed key.
pub uninterp spec fn p2wpkh_address_of(pk: Seq<u8>, network: int) -> Option<Seq<char>>;

/// Relies on `bitcoin::Address::p2pkh` over `bitcoin::PublicKey::from_slice`:
/// the rendered address is a function of the key bytes and the network alone.
#[verifier::external_body]
fn p2pkh_address(pk: &Vec<u8>, network: Network) -> (r: Option<String>)
    ensures
        (match r {
            Some(a) => Some(a@),
            None => None,
        }) == p2pkh_address_of(pk@, network_tag(network)),
{
    let key = match bitcoin::PublicKey::from_slice(pk.as_slice()) {
        Ok(k) => k,
        Err(_) => return None,
    };
    let net = match network {
        Network::Mainnet => bitcoin::Network::Bitcoin,
        Network::Testnet => bitcoin::Network::Testnet,
        Network::Regtest => bitcoin::Network::Regtest,
    };
    Some(bitcoin::Address::p2pkh(key, net).to_string())
}

/// Relies on `bitcoin::Address::p2wpkh` over
/// `bitcoin::CompressedPublicKey::from_slice`: the rendered address is a
/// function of the key bytes and the network alone.
#[verifier::external_body]
fn p2wpkh_address(pk: &Vec<u8>, network: Network) -> (r: Option<String>)
    ensures
        (match r {
            Some(a) => Some(a@),
            None => None,
        }) == p2wpkh_address_of(pk@, network_tag(network)),
{
    let key = match bitcoin::CompressedPublicKey::from_slice(pk.as_slice()) {
        Ok(k) => k,
        Err(_) => return None,
    };
    let net = match network {
        Network::Mainnet => bitcoin::Network::Bitcoin,
        Network::Testnet => bitcoin::Network::Testnet,
        Network::Regtest => bitcoin::Network::Regtest,
    };
    Some(bitcoin::Address::p2wpkh(&key, net).to_string())
}

/// The address expected for a derived public key under a script type and
/// network.
pub open spec fn expected_address_of(pk: Seq<u8>, st: ScriptType, network: Network) -> Option<
    Seq<char>,
> {
    match st {
        ScriptType::Legacy => p2pkh_address_of(pk, network_tag(network)),
        ScriptType::Segwit => p2wpkh_address_of(pk, network_tag(network)),
    }
}

/// Checks a derived key pair against the public key hex and address a node
/// reported: the node's values must equal, character for character, the hex
/// rendering of the derived public key and the address recomputed from it.
/// Any disagreement is reported as a mismatch carrying both sides.
pub fn verify_against_node(
    derived: &DerivedKeyPair,
    reported_pubkey_hex: &str,
    reported_address: &str,
    script_type: ScriptType,
    network: Network,
) -> (r: Result<(), DerivationError>)
    ensures
        r is Ok <==> (reported_pubkey_hex@ == hex_of(derived.public@) && expected_address_of(
            derived.public@,
            script_type,
            network,
        ) == Some(reported_address@)),
        r matches Err(e) ==> e matches DerivationError::DerivationMismatch {
            expected_pubkey: ep,
            observed_pubkey: op,
            expected_address: ea,
            observed_address: oa,
        } && ep@ == hex_of(derived.public@) && op@ == reported_pubkey_hex@ && (match ea {
            Some(a) => Some(a@),
            None => None,
        }) == expected_address_of(derived.public@, script_type, network) && oa@
            == reported_address@,
{
    let expected_hex = hex_encode(&derived.public);
    let pubkey_matches = str_eq(expected_hex.as_str(), reported_pubkey_hex);
    let addr = match script_type {
        ScriptType::Legacy => p2pkh_address(&derived.public, network),
        ScriptType::Segwit => p2wpkh_address(&derived.public, network),
    };
    let addr_matches = match &addr {
        Some(a) => str_eq(a.as_str(), reported_address),
        None => false,
    };
    if pubkey_matches && addr_matches {
        Ok(())
    } else {
        Err(DerivationError::DerivationMismatch {
            expected_pubkey: expected_hex,
            observed_pubkey: reported_pubkey_hex.to_owned(),
            expected_address: addr,
            observed_address: reported_address.to_owned(),
        })
    }
}

/// Checks that every unspent output's reported address is the requested one.
pub fn utxos_match_address(utxo_addresses: &Vec<String>, address: &str) -> (r: bool)
    ensures
        r == (forall|i: int|
            0 <= i < utxo_addresses@.len() ==> (#[trigger] utxo_addresses@[i])@ == address@),
{
    let n = utxo_addresses.len();
    let mut i: usize = 0;
    while i < n
        invariant
            n == utxo_addresses@.len(),
            i <= n,
            forall|k: int| 0 <= k < i ==> (#[trigger] utxo_addresses@[k])@ == address@,
        decreases n - i,
    {
        if !str_eq(utxo_addresses[i].as_str(), address) {
            return false;
        }
        i += 1;
    }
    true
}

} // verus!
