//! Reconstruction of the secret from the held fragments, and derivation of
//! the private key from it.

use std::str::FromStr;

use vstd::prelude::*;

use crate::fragment::text_result;
use crate::hexcode::{decode_hex, encode_hex, hex_bytes, hex_of, is_hex_text};
use crate::network::NetworkKind;
use crate::store::{MyCoordinator, Shares, SHAMIR_THRESHOLD};

verus! {

/// Why a reconstruction that was due produced no key.
#[derive(Debug, Clone, Copy, PartialEq, Eq, Structural)]
pub enum AssemblyError {
    /// A held fragment is not hex text.
    InternalInconsistency,
    /// The fragments do not combine into a secret.
    ReconstructionFailed,
    /// No key could be derived from the secret along the path.
    DerivationFailed,
}

/// What a reconstruction step came to.
#[derive(Debug)]
pub enum Reconstruction {
    /// Fewer fragments than the threshold are held.
    NotYetTriggered,
    /// The derived private key, as hex text.
    Recovered(String),
    /// Reconstruction or derivation failed.
    Failed(AssemblyError),
}

/// The secret that Shamir shares with these indexes combine into, if any.
pub uninterp spec fn shamir_secret(indexes: Seq<usize>, shares: Seq<Seq<u8>>) -> Option<Seq<u8>>;

/// The private key derived from a BIP-32 master seed along a path, if any.
pub uninterp spec fn bip32_key(test_network: bool, seed: Seq<u8>, path: Seq<char>) -> Option<Seq<u8>>;

#[verifier::external_type_specification]
#[verifier::external_body]
pub struct ExShamirError(bc_shamir::Error);

#[verifier::external_type_specification]
#[verifier::external_body]
pub struct ExBip32Error(bitcoin::bip32::Error);

/// Relies on bc_shamir::recover_secret: it combines the shares or fails.
#[verifier::external_body]
fn recover_secret(indexes: &Vec<usize>, shares: &Vec<Vec<u8>>) -> (r: Result<Vec<u8>, bc_shamir::Error>)
    ensures
        r is Ok <==> shamir_secret(indexes@, shares@.map_values(|v: Vec<u8>| v@)) is Some,
        r matches Ok(s) ==> shamir_secret(indexes@, shares@.map_values(|v: Vec<u8>| v@)) == Some(s@),
{
    bc_shamir::recover_secret(indexes.as_slice(), shares.as_slice())
}

/// Relies on bitcoin's Xpriv::new_master, DerivationPath::from_str and
/// Xpriv::derive_priv: the private key of the child along the path, or an
/// error where the path is malformed or derivation fails.
#[verifier::external_body]
fn derive_private_key(network: NetworkKind, seed: &Vec<u8>, path: &str) -> (r: Result<[u8; 32], bitcoin::bip32::Error>)
    ensures
        r is Ok <==> bip32_key(network.is_test(), seed@, path@) is Some,
        r matches Ok(k) ==> bip32_key(network.is_test(), seed@, path@) == Some(k@),
{
    let kind = match network {
        NetworkKind::Main => bitcoin::NetworkKind::Main,
        NetworkKind::Test => bitcoin::NetworkKind::Test,
    };
    let secp = bitcoin::secp256k1::Secp256k1::new();
    let root = bitcoin::bip32::Xpriv::new_master(kind, seed.as_slice())?;
    let path = bitcoin::bip32::DerivationPath::from_str(path)?;
    Ok(root.derive_priv(&secp, &path)?.private_key.secret_bytes())
}

/// Every held fragment is hex text.
pub open spec fn all_hex(s: Shares) -> bool {
    forall|i: int| 0 <= i < s.len() ==> is_hex_text(#[trigger] s[i].0)
}

/// The share indexes of the held fragments.
pub open spec fn share_indexes(s: Shares) -> Seq<usize> {
    s.map_values(|p: (Seq<char>, u32)| p.1 as usize)
}

/// The bytes of the held fragments.
pub open spec fn share_bytes(s: Shares) -> Seq<Seq<u8>> {
    s.map_values(|p: (Seq<char>, u32)| hex_bytes(p.0))
}

/// The hex text of the key that the held fragments lead to, or the first
/// stage that fails.
pub open spec fn reconstruction_spec(s: Shares, network: NetworkKind, path: Seq<char>) -> Result<Seq<char>, AssemblyError> {
    if !all_hex(s) {
        Err(AssemblyError::InternalInconsistency)
    } else {
        match shamir_secret(share_indexes(s), share_bytes(s)) {
            None => Err(AssemblyError::ReconstructionFailed),
            Some(secret) => match bip32_key(network.is_test(), secret, path) {
                None => Err(AssemblyError::DerivationFailed),
                Some(k) => Ok(hex_of(k)),
            },
        }
    }
}

impl MyCoordinator {
    /// The index and the bytes of each held fragment, in order.
    pub fn decode_shares(&self) -> (r: Result<(Vec<usize>, Vec<Vec<u8>>), AssemblyError>)
        ensures
            r is Ok <==> all_hex(self@),
            r matches Err(e) ==> e == AssemblyError::InternalInconsistency,
            r matches Ok((ix, bs)) ==> ix@ == share_indexes(self@) && bs@.map_values(
                |v: Vec<u8>| v@,
            ) == share_bytes(self@),
    {
        proof {
            self.lemma_view();
        }
        let mut indexes: Vec<usize> = Vec::new();
        let mut shares: Vec<Vec<u8>> = Vec::new();
        let mut i: usize = 0;
        while i < self.key_shares.len()
            invariant
                i <= self@.len(),
                self@.len() == self.key_shares@.len(),
                forall|j: int| 0 <= j < self@.len() ==> #[trigger] self@[j] == self.key_shares@[j]@,
                indexes@ == share_indexes(self@).take(i as int),
                shares@.map_values(|v: Vec<u8>| v@) == share_bytes(self@).take(i as int),
                forall|j: int| 0 <= j < i ==> is_hex_text(#[trigger] self@[j].0),
            decreases self@.len() - i,
        {
            let share = &self.key_shares[i];
            proof {
                assert(self@[i as int] == share@);
            }
            match decode_hex(share.key_hex.as_str()) {
                Ok(bytes) => {
                    let ghost before = shares@;
                    indexes.push(share.index as usize);
                    shares.push(bytes);
                    proof {
                        assert(shares@ == before.push(bytes));
                        assert(before.map_values(|v: Vec<u8>| v@).len() == i);
                        assert forall|j: int| 0 <= j < i implies #[trigger] shares@[j]@ == before.map_values(|v: Vec<u8>| v@)[j] by {}
                    }
                    i = i + 1;
                    proof {
                        assert(indexes@ =~= share_indexes(self@).take(i as int));
                        assert(shares@.map_values(|v: Vec<u8>| v@) =~= share_bytes(self@).take(
                            i as int,
                        ));
                    }
                },
                Err(_) => {
                    proof {
                        assert(!is_hex_text(self@[i as int].0));
                    }
                    return Err(AssemblyError::InternalInconsistency);
                },
            }
        }
        proof {
            assert(indexes@ =~= share_indexes(self@));
            assert(shares@.map_values(|v: Vec<u8>| v@) =~= share_bytes(self@));
        }
        Ok((indexes, shares))
    }

    /// Combines the held fragments and derives the private key along the path.
    pub fn reconstruct(&self, network: NetworkKind, derivation_path: &str) -> (r: Result<String, AssemblyError>)
        ensures
            text_result(r) == reconstruction_spec(self@, network, derivation_path@),
    {
        let (indexes, shares) = match self.decode_shares() {
            Ok(decoded) => decoded,
            Err(e) => return Err(e),
        };
        let secret = match recover_secret(&indexes, &shares) {
            Ok(secret) => secret,
            Err(_) => return Err(AssemblyError::ReconstructionFailed),
        };
        match derive_private_key(network, &secret, derivation_path) {
            Ok(key) => Ok(encode_hex(key.as_slice())),
            Err(_) => Err(AssemblyError::DerivationFailed),
        }
    }

    /// Reconstructs once at least `SHAMIR_THRESHOLD` fragments are held.
    pub fn maybe_reconstruct(&self, network: NetworkKind, derivation_path: &str) -> (r: Reconstruction)
        ensures
            r is NotYetTriggered <==> self@.len() < SHAMIR_THRESHOLD,
            r matches Reconstruction::Recovered(k) ==> reconstruction_spec(self@, network, derivation_path@) == Ok::<Seq<char>, AssemblyError>(k@),
            r matches Reconstruction::Failed(e) ==> reconstruction_spec(self@, network, derivation_path@) == Err::<Seq<char>, AssemblyError>(e),
    {
        proof {
            self.lemma_view();
        }
        if self.key_shares.len() < SHAMIR_THRESHOLD {
            return Reconstruction::NotYetTriggered;
        }
        match self.reconstruct(network, derivation_path) {
            Ok(key) => Reconstruction::Recovered(key),
            Err(e) => Reconstruction::Failed(e),
        }
    }
}

} // verus!
