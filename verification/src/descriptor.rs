//! Extraction of a master extended private key from a wallet's output-script
//! descriptor listing.
//!
//! A descriptor is selected by a script-type marker substring: `pkh` for
//! legacy, `wpkh` for segwit — where a taproot descriptor (prefix `tr(`) is
//! excluded even when it contains the segwit marker. The key material is the
//! first `/`-delimited segment of the substring enclosed by the script type's
//! opening token and its closing parenthesis. A segwit key lacking the
//! regtest extended-private-key prefix gets it prepended, since node
//! descriptor strings may report a dropped-leading-version form.

use vstd::prelude::*;
use vstd::string::*;
use crate::errors::DescriptorError;
use crate::strutil::contains_seq;
use crate::strutil::find_from;
use crate::strutil::find_str;
use crate::strutil::lemma_find_from_is_match;
use crate::strutil::starts_with;
use crate::strutil::starts_with_str;

verus! {

/// The script-type lineage a master key is requested for.
#[derive(Debug, Clone, Copy, PartialEq, Eq, Structural)]
pub enum ScriptType {
    /// Legacy pay-to-pubkey-hash.
    Legacy,
    /// Segwit pay-to-witness-pubkey-hash.
    Segwit,
}

/// Whether a string parses as a BIP32 extended private key.
pub uninterp spec fn xpriv_valid(s: Seq<char>) -> bool;

/// Relies on `bitcoin::bip32::Xpriv::from_str`: whether a string parses as an
/// extended private key is a function of the string alone.
#[verifier::external_body]
fn xpriv_parses(s: &str) -> (r: bool)
    ensures
        r == xpriv_valid(s@),
{
    <bitcoin::bip32::Xpriv as std::str::FromStr>::from_str(s).is_ok()
}

/// A master extended private key, scoped to one script-type lineage. Its view
/// is the key string it was parsed from, which always parses as an extended
/// private key.
#[derive(Debug, PartialEq, Eq)]
pub struct MasterKey {
    text: String,
}

impl View for MasterKey {
    type V = Seq<char>;

    closed spec fn view(&self) -> Seq<char> {
        self.text@
    }
}

impl MasterKey {
    /// The extended-private-key string this master key was parsed from.
    pub fn key_text(&self) -> (r: &String)
        ensures
            r@ == self@,
    {
        &self.text
    }
}

/// The views of a sequence of strings.
pub open spec fn string_views(s: Seq<String>) -> Seq<Seq<char>> {
    s.map_values(|x: String| x@)
}

/// The marker substring whose presence selects a descriptor for the script
/// type.
pub open spec fn script_marker(st: ScriptType) -> Seq<char> {
    match st {
        ScriptType::Legacy => "pkh"@,
        ScriptType::Segwit => "wpkh"@,
    }
}

/// The opening token that encloses the script type's key material.
pub open spec fn script_token(st: ScriptType) -> Seq<char> {
    match st {
        ScriptType::Legacy => "pkh("@,
        ScriptType::Segwit => "wpkh("@,
    }
}

/// Whether a descriptor is selected for the script type: it contains the
/// marker, and for segwit it does not denote a taproot output.
pub open spec fn desc_matches(d: Seq<char>, st: ScriptType) -> bool {
    match st {
        ScriptType::Legacy => contains_seq(d, "pkh"@),
        ScriptType::Segwit => contains_seq(d, "wpkh"@) && !starts_with(d, "tr("@),
    }
}

/// Index of the first descriptor at or after `from` that matches the script
/// type.
pub open spec fn selected_index(ds: Seq<Seq<char>>, st: ScriptType, from: int) -> Option<int>
    decreases ds.len() - from + 1,
{
    if from < 0 || from >= ds.len() {
        None
    } else if desc_matches(ds[from], st) {
        Some(from)
    } else {
        selected_index(ds, st, from + 1)
    }
}

/// The prefix of `s` up to (not including) the first occurrence of `stop`;
/// all of `s` when `stop` does not occur.
pub open spec fn upto(s: Seq<char>, stop: Seq<char>) -> Seq<char> {
    match find_from(s, stop, 0) {
        Some(j) => s.take(j),
        None => s,
    }
}

/// The raw key material of a descriptor: the first `/`-delimited segment of
/// what stands between the opening token and the next closing parenthesis.
/// `None` when the opening token does not occur.
pub open spec fn raw_key_of(d: Seq<char>, st: ScriptType) -> Option<Seq<char>> {
    match find_from(d, script_token(st), 0) {
        Some(i) => Some(upto(upto(d.skip(i + script_token(st).len()), ")"@), "/"@)),
        None => None,
    }
}

/// The extracted key string after segwit normalization: a segwit key lacking
/// the `tprv` prefix gets it prepended.
pub open spec fn normalized_key(k: Seq<char>, st: ScriptType) -> Seq<char> {
    if st is Segwit && !starts_with(k, "tprv"@) {
        "tprv"@ + k
    } else {
        k
    }
}

/// Whether the descriptor matches the script type's selection rule.
fn desc_matches_exec(d: &str, st: ScriptType) -> (r: bool)
    ensures
        r == desc_matches(d@, st),
{
    match st {
        ScriptType::Legacy => find_str(d, "pkh").is_some(),
        ScriptType::Segwit => find_str(d, "wpkh").is_some() && !starts_with_str(d, "tr("),
    }
}

/// The prefix of `s` up to the first occurrence of `stop`.
fn upto_exec<'a>(s: &'a str, stop: &str) -> (r: &'a str)
    ensures
        r@ == upto(s@, stop@),
{
    match find_str(s, stop) {
        Some(j) => {
            proof {
                lemma_find_from_is_match(s@, stop@, 0, j as int);
            }
            let cut = s.substring_char(0, j);
            proof {
                assert(cut@ =~= s@.take(j as int));
            }
            cut
        },
        None => s,
    }
}

/// Scans the wallet's descriptor listing for the first descriptor matching
/// the script type, extracts the enclosed key material, normalizes it, and
/// parses it as a master extended private key.
pub fn find_master_key(descriptors: &Vec<String>, script_type: ScriptType) -> (r: Result<
    MasterKey,
    DescriptorError,
>)
    ensures
        match selected_index(string_views(descriptors@), script_type, 0) {
            None => r == Err::<MasterKey, _>(DescriptorError::DescriptorNotFound),
            Some(i) => match raw_key_of(string_views(descriptors@)[i], script_type) {
                None => r == Err::<MasterKey, _>(DescriptorError::MalformedKey),
                Some(k) => {
                    if xpriv_valid(normalized_key(k, script_type)) {
                        r matches Ok(m) && m@ == normalized_key(k, script_type)
                    } else {
                        r == Err::<MasterKey, _>(DescriptorError::MalformedKey)
                    }
                },
            },
        },
{
    let ghost ds = string_views(descriptors@);
    let n = descriptors.len();
    let mut i: usize = 0;
    while i < n
        invariant
            ds == string_views(descriptors@),
            n == descriptors@.len(),
            i <= n,
            selected_index(ds, script_type, 0) == selected_index(ds, script_type, i as int),
        decreases n - i,
    {
        if desc_matches_exec(descriptors[i].as_str(), script_type) {
            return extract_key(&descriptors[i], script_type);
        }
        i += 1;
    }
    Err(DescriptorError::DescriptorNotFound)
}

/// Extracts, normalizes and parses the key material of one matching
/// descriptor.
fn extract_key(d: &String, script_type: ScriptType) -> (r: Result<MasterKey, DescriptorError>)
    ensures
        match raw_key_of(d@, script_type) {
            None => r == Err::<MasterKey, _>(DescriptorError::MalformedKey),
            Some(k) => {
                if xpriv_valid(normalized_key(k, script_type)) {
                    r matches Ok(m) && m@ == normalized_key(k, script_type)
                } else {
                    r == Err::<MasterKey, _>(DescriptorError::MalformedKey)
                }
            },
        },
{
    let token: &str = match script_type {
        ScriptType::Legacy => "pkh(",
        ScriptType::Segwit => "wpkh(",
    };
    let pos = match find_str(d.as_str(), token) {
        Some(p) => p,
        None => {
            return Err(DescriptorError::MalformedKey);
        },
    };
    proof {
        lemma_find_from_is_match(d@, token@, 0, pos as int);
    }
    let dlen = d.as_str().unicode_len();
    let tlen = token.unicode_len();
    let after = d.as_str().substring_char(pos + tlen, dlen);
    proof {
        assert(after@ =~= d@.skip(pos + tlen));
    }
    let enclosed = upto_exec(after, ")");
    let segment = upto_exec(enclosed, "/");
    let key: String = if matches!(script_type, ScriptType::Segwit) && !starts_with_str(
        segment,
        "tprv",
    ) {
        String::from_str("tprv").concat(segment)
    } else {
        segment.to_owned()
    };
    if xpriv_parses(key.as_str()) {
        Ok(MasterKey { text: key })
    } else {
        Err(DescriptorError::MalformedKey)
    }
}

/// A selected index marks a matching descriptor, and no earlier descriptor
/// matches.
pub proof fn lemma_selected_is_first_match(ds: Seq<Seq<char>>, st: ScriptType, from: int, i: int)
    requires
        selected_index(ds, st, from) == Some(i),
    ensures
        from <= i < ds.len(),
        desc_matches(ds[i], st),
        forall|j: int| from <= j < i ==> !desc_matches(ds[j], st),
    decreases ds.len() - from + 1,
{
    if !(from < 0 || from >= ds.len()) {
        if desc_matches(ds[from], st) {
        } else {
            lemma_selected_is_first_match(ds, st, from + 1, i);
        }
    }
}

/// Law: taproot exclusion. Whatever the descriptor listing holds, the
/// descriptor selected for segwit contains the segwit marker and never
/// denotes a taproot output, even when a taproot descriptor that contains the
/// marker stands earlier in the listing.
pub proof fn lemma_segwit_selection_excludes_taproot(ds: Seq<Seq<char>>, i: int)
    requires
        selected_index(ds, ScriptType::Segwit, 0) == Some(i),
    ensures
        0 <= i < ds.len(),
        contains_seq(ds[i], "wpkh"@),
        !starts_with(ds[i], "tr("@),
{
    lemma_selected_is_first_match(ds, ScriptType::Segwit, 0, i);
}

} // verus!
