//! Turning a mnemonic and a password into one opaque key fragment.

use vstd::prelude::*;
use vstd::string::{StringExecFns, StringSliceAdditionalSpecFns};
use blake2::Blake2bVar;
use blake2::digest::{Update, VariableOutput};

use crate::hexcode::{encode_hex, hex_of};

verus! {

/// Byte-wise exclusive-or of two sequences of equal length.
pub open spec fn xor_seq(a: Seq<u8>, b: Seq<u8>) -> Seq<u8>
    recommends
        a.len() == b.len(),
{
    Seq::new(a.len(), |i: int| a[i] ^ b[i])
}

/// Masks 32 bytes of mnemonic entropy with a 32-byte password hash.
pub fn xor_buffers(buf: &[u8; 32], mnemonic: &Vec<u8>) -> (r: Result<Vec<u8>, String>)
    ensures
        mnemonic@.len() != 32 <==> r is Err,
        r matches Ok(v) ==> v@ == xor_seq(buf@, mnemonic@),
{
    if mnemonic.len() != 32 {
        return Err(String::from_str("mnemonic must be exactly 32 bytes"));
    }
    let mut result: Vec<u8> = Vec::with_capacity(32);
    let mut i: usize = 0;
    while i < 32
        invariant
            i <= 32,
            mnemonic@.len() == 32,
            result@ == xor_seq(buf@, mnemonic@).take(i as int),
        decreases 32 - i,
    {
        result.push(buf[i] ^ mnemonic[i]);
        i = i + 1;
        assert(result@ =~= xor_seq(buf@, mnemonic@).take(i as int));
    }
    assert(result@ =~= xor_seq(buf@, mnemonic@));
    Ok(result)
}


/// Why a mnemonic and password cannot give a fragment.
#[derive(Debug, Clone, Copy, PartialEq, Eq, Structural)]
pub enum FragmentError {
    /// The phrase is not a valid mnemonic.
    InvalidMnemonic,
    /// The mnemonic's entropy is not 32 bytes long.
    UnsupportedMnemonicLength,
}

/// The 32-byte BLAKE2b digest of some bytes.
pub uninterp spec fn blake2b_256(data: Seq<u8>) -> Seq<u8>;

/// The entropy that a mnemonic phrase encodes, or none where the phrase is
/// not a valid mnemonic.
pub uninterp spec fn mnemonic_entropy(phrase: Seq<char>) -> Option<Seq<u8>>;

/// Relies on blake2::Blake2bVar with a 32-byte output: the digest of the bytes.
#[verifier::external_body]
fn hash_password(password: &[u8]) -> (r: [u8; 32])
    ensures
        r@ == blake2b_256(password@),
{
    let mut hasher = Blake2bVar::new(32).unwrap();
    hasher.update(password);
    let mut buf = [0u8; 32];
    hasher.finalize_variable(&mut buf).unwrap();
    buf
}

#[verifier::external_type_specification]
#[verifier::external_body]
pub struct ExMnemonicError(bip39::Error);

/// Relies on bip39::Mnemonic::parse and Mnemonic::to_entropy: the phrase is
/// accepted or refused, and an accepted one gives its entropy bytes.
#[verifier::external_body]
fn parse_mnemonic_entropy(phrase: &str) -> (r: Result<Vec<u8>, bip39::Error>)
    ensures
        r is Ok <==> mnemonic_entropy(phrase@) is Some,
        r matches Ok(e) ==> mnemonic_entropy(phrase@) == Some(e@),
{
    let m = bip39::Mnemonic::parse(phrase)?;
    Ok(m.to_entropy())
}

/// What a mnemonic phrase and the bytes of a password give: the hex text of
/// the entropy masked with the password's hash.
pub open spec fn fragment_spec(phrase: Seq<char>, password: Seq<u8>) -> Result<Seq<char>, FragmentError> {
    match mnemonic_entropy(phrase) {
        None => Err(FragmentError::InvalidMnemonic),
        Some(e) => if e.len() != 32 {
            Err(FragmentError::UnsupportedMnemonicLength)
        } else {
            Ok(hex_of(xor_seq(blake2b_256(password), e)))
        },
    }
}

/// The text of a successful result, or its error.
pub open spec fn text_result<E>(r: Result<String, E>) -> Result<Seq<char>, E> {
    match r {
        Ok(s) => Ok(s@),
        Err(e) => Err(e),
    }
}

/// Masks mnemonic entropy with a password hash and renders it as hex text.
pub fn fragment_from_entropy(password_hash: &[u8; 32], entropy: &Vec<u8>) -> (r: Result<String, FragmentError>)
    ensures
        entropy@.len() == 32 <==> r is Ok,
        r matches Err(e) ==> e == FragmentError::UnsupportedMnemonicLength,
        r matches Ok(s) ==> s@ == hex_of(xor_seq(password_hash@, entropy@)),
{
    match xor_buffers(password_hash, entropy) {
        Ok(masked) => Ok(encode_hex(masked.as_slice())),
        Err(_) => Err(FragmentError::UnsupportedMnemonicLength),
    }
}

/// Derives the fragment value of a mnemonic under a password.
pub fn derive_fragment(mnemonic: &str, password: &str) -> (r: Result<String, FragmentError>)
    ensures
        text_result(r) == fragment_spec(mnemonic@, password.spec_bytes()),
{
    let password_hash = hash_password(password.as_bytes());
    match parse_mnemonic_entropy(mnemonic) {
        Ok(entropy) => fragment_from_entropy(&password_hash, &entropy),
        Err(_) => Err(FragmentError::InvalidMnemonic),
    }
}

/// A fragment is a function of the mnemonic and the password alone: the same
/// pair always gives the same fragment.
pub proof fn lemma_fragment_deterministic(m1: Seq<char>, p1: Seq<u8>, m2: Seq<char>, p2: Seq<u8>)
    requires
        m1 == m2,
        p1 == p2,
    ensures
        fragment_spec(m1, p1) == fragment_spec(m2, p2),
{
}

/// A mnemonic whose entropy is not 32 bytes long gives no fragment.
pub proof fn lemma_short_entropy_refused(phrase: Seq<char>, password: Seq<u8>)
    requires
        mnemonic_entropy(phrase) matches Some(e) && e.len() != 32,
    ensures
        fragment_spec(phrase, password) == Err::<Seq<char>, FragmentError>(FragmentError::UnsupportedMnemonicLength),
{
}

} // verus!
