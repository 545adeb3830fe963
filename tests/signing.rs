use bitcoin::bip32::{ChildNumber, Xpriv};
use bitcoin::key::TapTweak;
use bitcoin::secp256k1::{self, Message, Secp256k1, XOnlyPublicKey};
use bitcoin::sighash::{Prevouts, SighashCache, TapSighashType};
use bitcoin::{absolute, transaction, Amount, CompressedPublicKey, ScriptBuf, Sequence, Transaction, TxIn, Witness};
use portal_signer::aggregate::TransactionSigner;
use portal_signer::derived::{DerivedSigner, RootKey};
use portal_signer::keys::{xpub_matches, ExtendedKey, KeySource};
use portal_signer::psbt::{Bip32Entry, OutPoint, PsbtInput, SigningPsbt, TapKeyOrigin, TxOut};
use portal_signer::sighash::compute_tap_sighash;
use portal_signer::signer::{PrivateKey, SignerContext, SignerError};

struct Wallet {
    root: RootKey,
    fingerprint: u32,
    child_secret: [u8; 32],
    child_pubkey: [u8; 33],
}

fn wallet(seed: u8) -> Wallet {
    let secp = Secp256k1::new();
    let master = Xpriv::new_master(bitcoin::NetworkKind::Main, &[seed; 32]).unwrap();
    let child = master.derive_priv(&secp, &[ChildNumber::from(0u32)]).unwrap();
    let pk = secp256k1::PublicKey::from_secret_key(&secp, &child.private_key);
    Wallet {
        root: RootKey { chain_code: master.chain_code.to_bytes(), secret: master.private_key.secret_bytes() },
        fingerprint: u32::from_be_bytes(master.fingerprint(&secp).to_bytes()),
        child_secret: child.private_key.secret_bytes(),
        child_pubkey: pk.serialize(),
    }
}

fn xonly(pk: &[u8; 33]) -> [u8; 32] {
    let mut x = [0u8; 32];
    x.copy_from_slice(&pk[1..]);
    x
}

fn empty_input() -> PsbtInput {
    PsbtInput {
        final_script_sig: None,
        final_script_witness: None,
        partial_sigs: Vec::new(),
        bip32_derivation: Vec::new(),
        tap_key_origins: Vec::new(),
        tap_internal_key: None,
        tap_key_sig: None,
        tap_script_sigs: Vec::new(),
        tap_merkle_root: None,
        witness_utxo: None,
        non_witness_utxo: None,
        sighash_type: None,
    }
}

fn raw_psbt(n_inputs: usize, utxos: &[Option<bitcoin::TxOut>]) -> bitcoin::Psbt {
    let tx = Transaction {
        version: transaction::Version::TWO,
        lock_time: absolute::LockTime::ZERO,
        input: (0..n_inputs)
            .map(|i| TxIn {
                previous_output: bitcoin::OutPoint { txid: <bitcoin::Txid as bitcoin::hashes::Hash>::from_byte_array([i as u8 + 1; 32]), vout: 0 },
                script_sig: ScriptBuf::new(),
                sequence: Sequence::MAX,
                witness: Witness::new(),
            })
            .collect(),
        output: vec![bitcoin::TxOut { value: Amount::from_sat(1000), script_pubkey: ScriptBuf::new() }],
    };
    let mut psbt = bitcoin::Psbt::from_unsigned_tx(tx).unwrap();
    for (i, u) in utxos.iter().enumerate() {
        psbt.inputs[i].witness_utxo = u.clone();
    }
    psbt
}

fn model_txout(o: &bitcoin::TxOut) -> TxOut {
    TxOut { value: o.value.to_sat(), script_pubkey: o.script_pubkey.to_bytes() }
}

fn signing_psbt(raw: bitcoin::Psbt, inputs: Vec<PsbtInput>) -> SigningPsbt {
    let prevouts = raw
        .unsigned_tx
        .input
        .iter()
        .map(|i| OutPoint { txid: bitcoin::hashes::Hash::to_byte_array(i.previous_output.txid), vout: i.previous_output.vout })
        .collect();
    SigningPsbt { raw: raw.serialize(), prevouts, inputs }
}

fn p2wpkh_utxo(pk: &[u8; 33]) -> bitcoin::TxOut {
    let cpk = CompressedPublicKey::from_slice(pk).unwrap();
    bitcoin::TxOut { value: Amount::from_sat(5000), script_pubkey: ScriptBuf::new_p2wpkh(&cpk.wpubkey_hash()) }
}

fn p2tr_utxo(x: &[u8; 32]) -> bitcoin::TxOut {
    let secp = Secp256k1::new();
    let key = XOnlyPublicKey::from_slice(x).unwrap();
    bitcoin::TxOut { value: Amount::from_sat(5000), script_pubkey: ScriptBuf::new_p2tr(&secp, key, None) }
}

fn wildcard_key(w: &Wallet) -> ExtendedKey {
    ExtendedKey { key_fingerprint: w.fingerprint, origin: None, path: Vec::new(), wildcard: true }
}

fn segwit_psbt(w: &Wallet, claimed: [u8; 33]) -> SigningPsbt {
    let utxo = p2wpkh_utxo(&w.child_pubkey);
    let raw = raw_psbt(1, &[Some(utxo.clone())]);
    let mut input = empty_input();
    input.witness_utxo = Some(model_txout(&utxo));
    input.bip32_derivation.push(Bip32Entry {
        pubkey: claimed,
        source: KeySource { fingerprint: w.fingerprint, path: vec![0] },
    });
    signing_psbt(raw, vec![input])
}

#[test]
fn matcher_with_origin_and_wildcard() {
    let key = ExtendedKey {
        key_fingerprint: 7,
        origin: Some(KeySource { fingerprint: 0xdeadbeef, path: vec![0x8000_0054, 0x8000_0000] }),
        path: vec![1],
        wildcard: true,
    };
    let good = KeySource { fingerprint: 0xdeadbeef, path: vec![0x8000_0054, 0x8000_0000, 1, 42] };
    assert_eq!(xpub_matches(&key, &good), Some(vec![0x8000_0054, 0x8000_0000, 1]));
    let wrong_fp = KeySource { fingerprint: 7, path: good.path.clone() };
    assert_eq!(xpub_matches(&key, &wrong_fp), None);
    let short = KeySource { fingerprint: 0xdeadbeef, path: vec![0x8000_0054, 0x8000_0000, 1] };
    assert_eq!(xpub_matches(&key, &short), None);
}

#[test]
fn matcher_without_origin_or_wildcard() {
    let key = ExtendedKey { key_fingerprint: 9, origin: None, path: vec![0, 5], wildcard: false };
    assert_eq!(xpub_matches(&key, &KeySource { fingerprint: 9, path: vec![0, 5] }), Some(vec![0, 5]));
    assert_eq!(xpub_matches(&key, &KeySource { fingerprint: 9, path: vec![0, 5, 1] }), None);
    assert_eq!(xpub_matches(&key, &KeySource { fingerprint: 8, path: vec![0, 5] }), None);
}

#[test]
fn segwit_scenario_signs_once() {
    let w = wallet(1);
    let mut psbt = segwit_psbt(&w, w.child_pubkey);
    let mut signer = TransactionSigner::new();
    signer.insert(wildcard_key(&w), w.root);
    assert!(signer.sign_input(&mut psbt, 0, SignerContext::Segwitv0).is_ok());
    assert_eq!(psbt.inputs[0].partial_sigs.len(), 1);
    let entry = psbt.inputs[0].partial_sigs[0];
    assert_eq!(entry.pubkey, w.child_pubkey);
    assert_eq!(entry.sighash_type, 1);

    let secp = Secp256k1::new();
    let raw = bitcoin::Psbt::deserialize(&psbt.raw).unwrap();
    let mut cache = SighashCache::new(raw.unsigned_tx.clone());
    let (msg, ty) = raw.sighash_ecdsa(0, &mut cache).unwrap();
    assert_eq!(ty.to_u32(), entry.sighash_type);
    let sig = secp256k1::ecdsa::Signature::from_compact(&entry.signature).unwrap();
    let pk = secp256k1::PublicKey::from_slice(&w.child_pubkey).unwrap();
    assert!(secp.verify_ecdsa(&msg, &sig, &pk).is_ok());

    let before = psbt.inputs.clone();
    assert!(signer.sign_input(&mut psbt, 0, SignerContext::Segwitv0).is_ok());
    assert_eq!(psbt.inputs, before);
}

#[test]
fn private_key_signs_partial_sig_once() {
    let w = wallet(2);
    let mut psbt = segwit_psbt(&w, w.child_pubkey);
    let key = PrivateKey { secret: w.child_secret };
    assert!(key.sign_input(&mut psbt, 0, SignerContext::Legacy).is_ok());
    assert!(key.sign_input(&mut psbt, 0, SignerContext::Legacy).is_ok());
    assert_eq!(psbt.inputs[0].partial_sigs.len(), 1);
}

#[test]
fn tampered_public_key_is_refused() {
    let w = wallet(3);
    let other = wallet(4);
    let mut psbt = segwit_psbt(&w, other.child_pubkey);
    let signer = DerivedSigner { key: wildcard_key(&w), xpriv: w.root };
    let before = psbt.inputs.clone();
    assert!(matches!(signer.sign_input(&mut psbt, 0, SignerContext::Segwitv0), Err(SignerError::InvalidKey)));
    assert_eq!(psbt.inputs, before);
}

#[test]
fn unmatched_key_is_not_an_error() {
    let w = wallet(5);
    let stranger = wallet(6);
    let mut psbt = segwit_psbt(&w, w.child_pubkey);
    let signer = DerivedSigner { key: wildcard_key(&stranger), xpriv: stranger.root };
    assert!(signer.sign_input(&mut psbt, 0, SignerContext::Segwitv0).is_ok());
    assert!(psbt.inputs[0].partial_sigs.is_empty());
}

#[test]
fn finalized_input_is_left_alone() {
    let w = wallet(7);
    let mut psbt = segwit_psbt(&w, w.child_pubkey);
    psbt.inputs[0].final_script_sig = Some(vec![0x51]);
    let before = psbt.inputs.clone();
    let mut signer = TransactionSigner::new();
    signer.insert(wildcard_key(&w), w.root);
    assert!(signer.sign_input(&mut psbt, 0, SignerContext::Segwitv0).is_ok());
    assert!(PrivateKey { secret: w.child_secret }.sign_input(&mut psbt, 0, SignerContext::Legacy).is_ok());
    assert_eq!(psbt.inputs, before);
}

#[test]
fn index_out_of_range() {
    let w = wallet(8);
    let mut psbt = segwit_psbt(&w, w.child_pubkey);
    let key = PrivateKey { secret: w.child_secret };
    assert!(matches!(key.sign_input(&mut psbt, 1, SignerContext::Legacy), Err(SignerError::InputIndexOutOfRange)));
    let signer = DerivedSigner { key: wildcard_key(&w), xpriv: w.root };
    assert!(matches!(signer.sign_input(&mut psbt, 3, SignerContext::Legacy), Err(SignerError::InputIndexOutOfRange)));
}

fn taproot_psbt(w: &Wallet, leaves: Vec<[u8; 32]>) -> SigningPsbt {
    let x = xonly(&w.child_pubkey);
    let utxo = p2tr_utxo(&x);
    let raw = raw_psbt(1, &[Some(utxo.clone())]);
    let mut input = empty_input();
    input.witness_utxo = Some(model_txout(&utxo));
    input.tap_internal_key = Some(x);
    input.tap_key_origins.push(TapKeyOrigin {
        xonly: x,
        leaf_hashes: leaves,
        source: KeySource { fingerprint: w.fingerprint, path: vec![0] },
    });
    signing_psbt(raw, vec![input])
}

#[test]
fn taproot_key_path_scenario() {
    let w = wallet(9);
    let mut psbt = taproot_psbt(&w, Vec::new());
    let mut signer = TransactionSigner::new();
    signer.insert(wildcard_key(&w), w.root);
    assert!(signer.sign_input(&mut psbt, 0, SignerContext::Tap { is_internal_key: true }).is_ok());
    let sig = psbt.inputs[0].tap_key_sig.expect("key-path signature");
    assert_eq!(sig.sighash_type, 0);
    assert!(psbt.inputs[0].tap_script_sigs.is_empty());

    let secp = Secp256k1::new();
    let x = XOnlyPublicKey::from_slice(&xonly(&w.child_pubkey)).unwrap();
    let (tweaked, _) = x.tap_tweak(&secp, None);
    let raw = bitcoin::Psbt::deserialize(&psbt.raw).unwrap();
    let prevout = raw.inputs[0].witness_utxo.clone().unwrap();
    let mut cache = SighashCache::new(&raw.unsigned_tx);
    let digest = cache
        .taproot_key_spend_signature_hash(0, &Prevouts::All(&[prevout]), TapSighashType::Default)
        .unwrap();
    let msg = Message::from_digest(bitcoin::hashes::Hash::to_byte_array(digest));
    let schnorr = secp256k1::schnorr::Signature::from_slice(&sig.signature).unwrap();
    assert!(secp.verify_schnorr(&schnorr, &msg, &tweaked.to_inner()).is_ok());

    let (own, ty) = compute_tap_sighash(&psbt, 0, None).unwrap();
    assert_eq!(own, bitcoin::hashes::Hash::to_byte_array(digest));
    assert_eq!(ty, 0);
}

#[test]
fn taproot_script_leaves_signed_once_each() {
    let w = wallet(10);
    let leaves = vec![[0x11u8; 32], [0x22u8; 32]];
    let mut psbt = taproot_psbt(&w, leaves.clone());
    let key = PrivateKey { secret: w.child_secret };
    assert!(key.sign_input(&mut psbt, 0, SignerContext::Tap { is_internal_key: false }).is_ok());
    assert!(psbt.inputs[0].tap_key_sig.is_none());
    assert_eq!(psbt.inputs[0].tap_script_sigs.len(), 2);
    assert!(key.sign_input(&mut psbt, 0, SignerContext::Tap { is_internal_key: true }).is_ok());
    assert!(psbt.inputs[0].tap_key_sig.is_some());
    assert_eq!(psbt.inputs[0].tap_script_sigs.len(), 2);
    let got: Vec<[u8; 32]> = psbt.inputs[0].tap_script_sigs.iter().map(|s| s.leaf_hash).collect();
    assert_eq!(got, leaves);
    let key_sig = psbt.inputs[0].tap_key_sig;
    let script_sig = psbt.inputs[0].tap_script_sigs[0].sig.signature;
    assert_ne!(key_sig.unwrap().signature, script_sig);
}

fn two_input_taproot(w: &Wallet, sighash: Option<u32>) -> SigningPsbt {
    let x = xonly(&w.child_pubkey);
    let utxo = p2tr_utxo(&x);
    let raw = raw_psbt(2, &[Some(utxo.clone()), None]);
    let mut first = empty_input();
    first.witness_utxo = Some(model_txout(&utxo));
    first.tap_internal_key = Some(x);
    first.sighash_type = sighash;
    signing_psbt(raw, vec![first, empty_input()])
}

#[test]
fn anyone_can_pay_needs_only_own_prevout() {
    let w = wallet(11);
    let key = PrivateKey { secret: w.child_secret };
    let mut acp = two_input_taproot(&w, Some(0x81));
    assert!(key.sign_input(&mut acp, 0, SignerContext::Tap { is_internal_key: true }).is_ok());
    assert_eq!(acp.inputs[0].tap_key_sig.unwrap().sighash_type, 0x81);

    let mut all = two_input_taproot(&w, Some(0x01));
    assert!(matches!(key.sign_input(&mut all, 0, SignerContext::Tap { is_internal_key: true }), Err(SignerError::MissingWitnessUtxo)));
    assert!(all.inputs[0].tap_key_sig.is_none());

    let mut default = two_input_taproot(&w, None);
    assert!(matches!(compute_tap_sighash(&default, 0, None), Err(SignerError::MissingWitnessUtxo)));
    assert!(matches!(key.sign_input(&mut default, 0, SignerContext::Tap { is_internal_key: true }), Err(SignerError::MissingWitnessUtxo)));
}

#[test]
fn invalid_taproot_sighash_is_refused() {
    let w = wallet(12);
    let psbt = two_input_taproot(&w, Some(0x04));
    assert!(matches!(compute_tap_sighash(&psbt, 0, None), Err(SignerError::InvalidSighash)));
    let big = two_input_taproot(&w, Some(0x101));
    assert!(matches!(compute_tap_sighash(&big, 0, None), Err(SignerError::InvalidSighash)));
    assert!(matches!(compute_tap_sighash(&big, 5, None), Err(SignerError::InputIndexOutOfRange)));
}

fn prev_tx(lock: u32, out: bitcoin::TxOut) -> Transaction {
    Transaction {
        version: transaction::Version::TWO,
        lock_time: absolute::LockTime::from_consensus(lock),
        input: Vec::new(),
        output: vec![out],
    }
}

#[test]
fn non_witness_utxo_resolves_prevout() {
    let w = wallet(13);
    let x = xonly(&w.child_pubkey);
    let utxo = p2tr_utxo(&x);
    let prev = prev_tx(0, utxo.clone());
    let mut raw = raw_psbt(1, &[None]);
    raw.unsigned_tx.input[0].previous_output.txid = prev.compute_txid();
    let mut input = empty_input();
    input.non_witness_utxo = Some(portal_signer::psbt::PrevTx {
        tx: bitcoin::consensus::serialize(&prev),
        output: vec![model_txout(&utxo)],
    });
    let psbt = signing_psbt(raw, vec![input]);
    assert!(compute_tap_sighash(&psbt, 0, None).is_ok());
    let mut wrong = psbt;
    wrong.inputs[0].non_witness_utxo.as_mut().unwrap().tx = bitcoin::consensus::serialize(&prev_tx(7, utxo));
    assert!(matches!(compute_tap_sighash(&wrong, 0, None), Err(SignerError::MissingWitnessUtxo)));
}

#[test]
fn merge_keeps_order_and_stops_at_first_error() {
    let w = wallet(14);
    let other = wallet(15);
    let mut bad = TransactionSigner::new();
    bad.insert(wildcard_key(&w), other.root);
    let mut good = TransactionSigner::new();
    good.insert(wildcard_key(&w), w.root);
    let merged = TransactionSigner::merge(bad, good);
    let mut psbt = segwit_psbt(&w, w.child_pubkey);
    assert!(matches!(merged.sign_input(&mut psbt, 0, SignerContext::Segwitv0), Err(SignerError::InvalidKey)));
    assert!(psbt.inputs[0].partial_sigs.is_empty());
}

#[test]
fn error_messages() {
    assert_eq!(SignerError::MissingKey.message(), "Missing private key");
    assert_eq!(SignerError::InputIndexOutOfRange.message(), "Input index out of range");
    assert_eq!(SignerError::External("backend offline".to_string()).message(), "backend offline");
}

#[test]
fn invalid_secret_is_refused() {
    let w = wallet(16);
    let mut psbt = segwit_psbt(&w, w.child_pubkey);
    let before = psbt.inputs.clone();
    let key = PrivateKey { secret: [0u8; 32] };
    assert!(matches!(key.sign_input(&mut psbt, 0, SignerContext::Legacy), Err(SignerError::InvalidKey)));
    assert_eq!(psbt.inputs, before);
}

#[test]
fn unparseable_psbt_bytes_are_refused() {
    let w = wallet(17);
    let mut psbt = segwit_psbt(&w, w.child_pubkey);
    psbt.raw = vec![1, 2, 3];
    let key = PrivateKey { secret: w.child_secret };
    assert!(matches!(key.sign_input(&mut psbt, 0, SignerContext::Segwitv0), Err(SignerError::External(_))));
    assert!(psbt.inputs[0].partial_sigs.is_empty());
}

#[test]
fn script_path_signature_verifies_against_untweaked_key() {
    let w = wallet(18);
    let leaf = [0x33u8; 32];
    let mut psbt = taproot_psbt(&w, vec![leaf]);
    let key = PrivateKey { secret: w.child_secret };
    assert!(key.sign_input(&mut psbt, 0, SignerContext::Tap { is_internal_key: false }).is_ok());
    let entry = psbt.inputs[0].tap_script_sigs[0];
    let (digest, ty) = compute_tap_sighash(&psbt, 0, Some(leaf)).unwrap();
    assert_eq!(entry.sig.sighash_type, ty);
    let secp = Secp256k1::new();
    let x = XOnlyPublicKey::from_slice(&xonly(&w.child_pubkey)).unwrap();
    let sig = secp256k1::schnorr::Signature::from_slice(&entry.sig.signature).unwrap();
    assert!(secp.verify_schnorr(&sig, &Message::from_digest(digest), &x).is_ok());
}

#[test]
fn previous_transaction_without_spent_output_is_refused() {
    let w = wallet(19);
    let utxo = p2wpkh_utxo(&w.child_pubkey);
    let prev = prev_tx(0, utxo.clone());
    let mut raw = raw_psbt(1, &[None]);
    raw.unsigned_tx.input[0].previous_output = bitcoin::OutPoint { txid: prev.compute_txid(), vout: 5 };
    raw.inputs[0].non_witness_utxo = Some(prev.clone());
    let mut input = empty_input();
    input.non_witness_utxo = Some(portal_signer::psbt::PrevTx {
        tx: bitcoin::consensus::serialize(&prev),
        output: vec![model_txout(&utxo)],
    });
    let mut psbt = signing_psbt(raw, vec![input]);
    let key = PrivateKey { secret: w.child_secret };
    assert!(matches!(key.sign_input(&mut psbt, 0, SignerContext::Legacy), Err(SignerError::InvalidNonWitnessUtxo)));
    assert!(psbt.inputs[0].partial_sigs.is_empty());
}
