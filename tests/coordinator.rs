use std::str::FromStr;

use blake2::digest::{Update, VariableOutput};
use blake2::Blake2bVar;
use key_coordinator::assembler::{AssemblyError, Reconstruction};
use key_coordinator::coordinator::status_message;
use key_coordinator::fragment::{derive_fragment, fragment_from_entropy, xor_buffers, FragmentError};
use key_coordinator::network::{get_network_kind, NetworkKind};
use key_coordinator::store::{MyCoordinator, StoreOutcome};

const PATH: &str = "m/84'/0'/0'/0/0";

fn share_a() -> String {
    hex::encode([
        47u8, 165, 102, 232, 218, 99, 6, 94, 39, 6, 253, 215, 12, 88, 64, 32, 105, 40, 222, 146,
        93, 197, 48, 129,
    ])
}

fn share_b() -> String {
    hex::encode([
        221u8, 174, 116, 201, 90, 99, 136, 33, 64, 215, 60, 84, 207, 28, 74, 10, 111, 243, 43, 224,
        48, 64, 199, 172,
    ])
}

fn expected_key(seed: &[u8], path: &str) -> String {
    let secp = bitcoin::secp256k1::Secp256k1::new();
    let root = bitcoin::bip32::Xpriv::new_master(bitcoin::NetworkKind::Main, seed).unwrap();
    let path = bitcoin::bip32::DerivationPath::from_str(path).unwrap();
    hex::encode(root.derive_priv(&secp, &path).unwrap().private_key.secret_bytes())
}

fn blake2b_32(data: &[u8]) -> [u8; 32] {
    let mut hasher = Blake2bVar::new(32).unwrap();
    hasher.update(data);
    let mut buf = [0u8; 32];
    hasher.finalize_variable(&mut buf).unwrap();
    buf
}

fn mnemonic_of(entropy: &[u8]) -> String {
    bip39::Mnemonic::from_entropy(entropy).unwrap().to_string()
}

#[test]
fn xor_buffers_masks_each_byte() {
    let buf = [0xffu8; 32];
    let entropy: Vec<u8> = (0u8..32).collect();
    let r = xor_buffers(&buf, &entropy).unwrap();
    let expected: Vec<u8> = (0u8..32).map(|b| b ^ 0xff).collect();
    assert_eq!(r, expected);
}

#[test]
fn xor_buffers_refuses_other_lengths() {
    let buf = [1u8; 32];
    assert_eq!(xor_buffers(&buf, &vec![0u8; 16]), Err("mnemonic must be exactly 32 bytes".to_string()));
    assert!(xor_buffers(&buf, &vec![0u8; 33]).is_err());
    assert!(xor_buffers(&buf, &Vec::new()).is_err());
}

#[test]
fn fragment_from_entropy_is_hex_of_masked_bytes() {
    let hash = [0x0fu8; 32];
    let entropy = vec![0xf0u8; 32];
    assert_eq!(fragment_from_entropy(&hash, &entropy), Ok("ff".repeat(32)));
    assert_eq!(fragment_from_entropy(&hash, &vec![0u8; 16]), Err(FragmentError::UnsupportedMnemonicLength));
}

#[test]
fn derive_fragment_matches_hash_xor_entropy() {
    let entropy: Vec<u8> = (100u8..132).collect();
    let phrase = mnemonic_of(&entropy);
    let hash = blake2b_32(b"correct horse");
    let masked: Vec<u8> = hash.iter().zip(entropy.iter()).map(|(a, b)| a ^ b).collect();
    let fragment = derive_fragment(&phrase, "correct horse").unwrap();
    assert_eq!(fragment, hex::encode(masked));
    assert_eq!(fragment.len(), 64);
}

#[test]
fn derive_fragment_is_deterministic() {
    let phrase = mnemonic_of(&[7u8; 32]);
    let first = derive_fragment(&phrase, "pw").unwrap();
    let second = derive_fragment(&phrase, "pw").unwrap();
    assert_eq!(first, second);
    assert_ne!(first, derive_fragment(&phrase, "other").unwrap());
}

#[test]
fn twelve_word_mnemonic_is_refused() {
    let phrase = mnemonic_of(&[3u8; 16]);
    assert_eq!(phrase.split_whitespace().count(), 12);
    assert_eq!(derive_fragment(&phrase, "pw"), Err(FragmentError::UnsupportedMnemonicLength));
    let mut store = MyCoordinator::new();
    let r = store.add_mnemonic(&phrase, 0, "pw", NetworkKind::Main, PATH);
    assert!(matches!(r, Err(FragmentError::UnsupportedMnemonicLength)));
    assert_eq!(store.len(), 0);
}

#[test]
fn malformed_mnemonic_is_refused() {
    assert_eq!(derive_fragment("not a mnemonic at all", "pw"), Err(FragmentError::InvalidMnemonic));
    let mut store = MyCoordinator::new();
    let r = store.add_mnemonic("abandon abandon", 0, "pw", NetworkKind::Main, PATH);
    assert!(matches!(r, Err(FragmentError::InvalidMnemonic)));
    assert!(store.list_keys().is_empty());
}

#[test]
fn add_mnemonic_stores_the_fragment() {
    let phrase = mnemonic_of(&[9u8; 32]);
    let mut store = MyCoordinator::new();
    let r = store.add_mnemonic(&phrase, 4, "secret", NetworkKind::Main, PATH).unwrap();
    assert_eq!(r.stored, StoreOutcome::Accepted(1));
    assert!(matches!(r.reconstruction, Reconstruction::NotYetTriggered));
    assert_eq!(store.list_keys(), vec![derive_fragment(&phrase, "secret").unwrap()]);
}

#[test]
fn duplicate_value_or_index_is_refused() {
    let mut store = MyCoordinator::new();
    assert_eq!(store.add_share("aa".to_string(), 1, NetworkKind::Main, PATH).stored, StoreOutcome::Accepted(1));
    assert_eq!(store.add_share("aa".to_string(), 2, NetworkKind::Main, PATH).stored, StoreOutcome::Duplicate);
    assert_eq!(store.add_share("bb".to_string(), 1, NetworkKind::Main, PATH).stored, StoreOutcome::Duplicate);
    assert_eq!(store.add_share("aa".to_string(), 1, NetworkKind::Main, PATH).stored, StoreOutcome::Duplicate);
    assert_eq!(store.len(), 1);
}

#[test]
fn list_keys_keeps_submission_order() {
    let mut store = MyCoordinator::new();
    store.add_share("0c".to_string(), 5, NetworkKind::Main, PATH);
    store.add_share("0c".to_string(), 6, NetworkKind::Main, PATH);
    store.add_share("0a".to_string(), 2, NetworkKind::Main, PATH);
    store.add_share("0b".to_string(), 9, NetworkKind::Main, PATH);
    assert_eq!(store.list_keys(), vec!["0c".to_string(), "0a".to_string(), "0b".to_string()]);
}

#[test]
fn capacity_is_three() {
    let mut store = MyCoordinator::new();
    for (i, key) in ["01", "02", "03"].iter().enumerate() {
        let r = store.add_share(key.to_string(), i as u32, NetworkKind::Main, PATH);
        assert_eq!(r.stored, StoreOutcome::Accepted(i + 1));
    }
    let r = store.add_share("04".to_string(), 3, NetworkKind::Main, PATH);
    assert_eq!(r.stored, StoreOutcome::CapacityReached);
    assert!(matches!(r.reconstruction, Reconstruction::NotYetTriggered));
    assert_eq!(store.len(), 3);
}

#[test]
fn threshold_pair_recovers_the_key() {
    let mut store = MyCoordinator::new();
    let first = store.add_share(share_a(), 0, NetworkKind::Main, PATH);
    assert!(matches!(first.reconstruction, Reconstruction::NotYetTriggered));
    let second = store.add_share(share_b(), 2, NetworkKind::Main, PATH);
    assert_eq!(second.stored, StoreOutcome::Accepted(2));
    match &second.reconstruction {
        Reconstruction::Recovered(key) => {
            assert_eq!(key, &expected_key(b"my secret belongs to me.", PATH));
            assert_eq!(key.len(), 64);
        }
        other => panic!("unexpected {:?}", other),
    }
}

#[test]
fn network_kind_does_not_change_the_key() {
    let mut store = MyCoordinator::new();
    store.add_share(share_a(), 0, NetworkKind::Test, PATH);
    let r = store.add_share(share_b(), 2, NetworkKind::Test, PATH);
    assert!(matches!(&r.reconstruction, Reconstruction::Recovered(k) if *k == expected_key(b"my secret belongs to me.", PATH)));
}

#[test]
fn malformed_path_fails_derivation() {
    let mut store = MyCoordinator::new();
    store.add_share(share_a(), 0, NetworkKind::Main, "m/x/1");
    let r = store.add_share(share_b(), 2, NetworkKind::Main, "m/x/1");
    assert!(matches!(r.reconstruction, Reconstruction::Failed(AssemblyError::DerivationFailed)));
    assert_eq!(store.len(), 2);
}

#[test]
fn inconsistent_shares_fail_reconstruction() {
    let mut store = MyCoordinator::new();
    store.add_share(share_a(), 0, NetworkKind::Main, PATH);
    let r = store.add_share(share_b(), 1, NetworkKind::Main, PATH);
    assert!(matches!(r.reconstruction, Reconstruction::Failed(AssemblyError::ReconstructionFailed)));
    assert_eq!(store.len(), 2);
}

#[test]
fn non_hex_fragment_is_internal_inconsistency() {
    let mut store = MyCoordinator::new();
    store.add_share("zz".to_string(), 0, NetworkKind::Main, PATH);
    let r = store.add_share(share_b(), 2, NetworkKind::Main, PATH);
    assert!(matches!(r.reconstruction, Reconstruction::Failed(AssemblyError::InternalInconsistency)));
    assert!(store.decode_shares().is_err());
}

#[test]
fn decode_shares_reads_index_and_bytes() {
    let mut store = MyCoordinator::new();
    store.add_share("0aFF".to_string(), 7, NetworkKind::Main, PATH);
    let (indexes, shares) = store.decode_shares().unwrap();
    assert_eq!(indexes, vec![7usize]);
    assert_eq!(shares, vec![vec![0x0au8, 0xff]]);
}

#[test]
fn quorum_scenario() {
    let mut store = MyCoordinator::new();
    let r = store.add_share(share_a(), 0, NetworkKind::Main, PATH);
    assert_eq!(r.stored, StoreOutcome::Accepted(1));
    assert_eq!(status_message(&r, &None), "Key added successfully");

    let r = store.add_share(share_a(), 1, NetworkKind::Main, PATH);
    assert_eq!(r.stored, StoreOutcome::Duplicate);
    assert_eq!(status_message(&r, &None), "Key already exists.");
    assert_eq!(store.len(), 1);

    let r = store.add_share(share_b(), 2, NetworkKind::Main, PATH);
    assert_eq!(r.stored, StoreOutcome::Accepted(2));
    assert!(matches!(r.reconstruction, Reconstruction::Recovered(_)));
    let delivery = Some(Err("connection refused".to_string()));
    assert_eq!(
        status_message(&r, &delivery),
        "Key added successfully and secret recovered. Error sending secret to server: connection refused"
    );
    assert_eq!(
        status_message(&r, &Some(Ok(()))),
        "Key added successfully and secret recovered. Secret sent to server."
    );

    let r = store.add_share("c0ffee".to_string(), 1, NetworkKind::Main, PATH);
    assert_eq!(r.stored, StoreOutcome::Accepted(3));
    assert!(status_message(&r, &None).starts_with("Key added successfully"));

    let r = store.add_share("d00d".to_string(), 5, NetworkKind::Main, PATH);
    assert_eq!(r.stored, StoreOutcome::CapacityReached);
    assert_eq!(status_message(&r, &None), "Enough key shares have already been added.");
    assert_eq!(store.len(), 3);
    assert_eq!(store.list_keys(), vec![share_a(), share_b(), "c0ffee".to_string()]);
}

#[test]
fn failed_recovery_is_reported_in_status() {
    let mut store = MyCoordinator::new();
    store.add_share(share_a(), 0, NetworkKind::Main, PATH);
    let r = store.add_share(share_b(), 1, NetworkKind::Main, PATH);
    assert_eq!(
        status_message(&r, &None),
        "Key added successfully but secret recovery failed: the fragments do not combine into a secret"
    );
}

#[test]
fn network_selector_names() {
    assert_eq!(get_network_kind("signet"), NetworkKind::Test);
    assert_eq!(get_network_kind("testnet"), NetworkKind::Test);
    assert_eq!(get_network_kind("regtest"), NetworkKind::Test);
    assert_eq!(get_network_kind("bitcoin"), NetworkKind::Main);
    assert_eq!(get_network_kind("mainnet?"), NetworkKind::Main);
    assert_eq!(get_network_kind(""), NetworkKind::Main);
}
