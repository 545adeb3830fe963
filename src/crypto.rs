use vstd::prelude::*;
use bitcoin::secp256k1;
use bitcoin::key::TapTweak;
use bitcoin::{bip32, sighash, taproot};
use crate::psbt::TxOut;

verus! {

/// Why the bitcoin crate could not compute a legacy or segwit v0 digest.
#[verifier::external_type_specification]
#[verifier::external_body]
pub struct ExSignError(bitcoin::psbt::SignError);

/// Why the bitcoin crate could not compute a taproot digest.
#[verifier::external_type_specification]
#[verifier::external_body]
pub struct ExTaprootError(bitcoin::sighash::TaprootError);

/// The SHA-256 digest of a byte string.
pub uninterp spec fn sha256_of(data: Seq<u8>) -> Seq<u8>;

/// Relies on bitcoin_hashes `sha256::Hash::hash`.
#[verifier::external_body]
pub(crate) fn sha256(data: &[u8]) -> (r: [u8; 32])
    ensures
        r@ == sha256_of(data@),
{
    let digest = <bitcoin::hashes::sha256::Hash as bitcoin::hashes::Hash>::hash(data);
    bitcoin::hashes::Hash::to_byte_array(digest)
}

/// The compressed public key of a secret key.
pub uninterp spec fn public_key_of(secret: Seq<u8>) -> Seq<u8>;

/// The low-R ECDSA signature (RFC 6979 nonces) of a digest, compact encoding.
pub uninterp spec fn ecdsa_signature_of(secret: Seq<u8>, digest: Seq<u8>) -> Seq<u8>;

/// The BIP340 signature, without auxiliary randomness, of a digest under the
/// untweaked key pair.
pub uninterp spec fn schnorr_signature_of(secret: Seq<u8>, digest: Seq<u8>) -> Seq<u8>;

/// The BIP340 signature, without auxiliary randomness, of a digest under the
/// key pair tweaked by BIP341 with the given merkle root.
pub uninterp spec fn key_path_signature_of(secret: Seq<u8>, merkle_root: Option<Seq<u8>>, digest: Seq<u8>) -> Seq<u8>;

/// The secret key that BIP32 derives from a root chain code and secret along a
/// path of child numbers.
pub uninterp spec fn derived_secret_of(chain_code: Seq<u8>, secret: Seq<u8>, path: Seq<u32>) -> Seq<u8>;

/// The ECDH shared secret (SHA-256 of the compressed shared point) of a secret
/// key and a serialised public key.
pub uninterp spec fn shared_secret_of(secret: Seq<u8>, public: Seq<u8>) -> Seq<u8>;

/// The id of a consensus-serialised transaction; `None` where the bytes do not
/// parse.
pub uninterp spec fn txid_of(tx: Seq<u8>) -> Option<Seq<u8>>;

/// Relies on bitcoin's `consensus::deserialize` for `Transaction` and
/// `Transaction::compute_txid`.
#[verifier::external_body]
pub(crate) fn txid(tx: &Vec<u8>) -> (r: Option<[u8; 32]>)
    ensures
        match r {
            Some(t) => txid_of(tx@) == Some(t@),
            None => txid_of(tx@).is_none(),
        },
{
    let tx: bitcoin::Transaction = bitcoin::consensus::deserialize(tx).ok()?;
    Some(bitcoin::hashes::Hash::to_byte_array(tx.compute_txid()))
}

/// The legacy or segwit v0 digest of an input of a serialised PSBT and its
/// sighash type; `None` where the bytes do not parse or no digest exists.
pub uninterp spec fn ecdsa_sighash_of(psbt: Seq<u8>, idx: int) -> Option<(Seq<u8>, u32)>;

/// The taproot digest of an input of a serialised PSBT over all spent outputs;
/// `None` where the bytes do not parse or no digest exists.
pub uninterp spec fn tap_sighash_all_of(psbt: Seq<u8>, idx: int, prevouts: Seq<(u64, Seq<u8>)>, leaf: Option<Seq<u8>>, code_separator_pos: u32, ty: u8) -> Option<Seq<u8>>;

/// The taproot digest of an input of a serialised PSBT over its own spent
/// output only; `None` where the bytes do not parse or no digest exists.
pub uninterp spec fn tap_sighash_one_of(psbt: Seq<u8>, idx: int, prevout: (u64, Seq<u8>), leaf: Option<Seq<u8>>, code_separator_pos: u32, ty: u8) -> Option<Seq<u8>>;

/// Whether bytes parse as a PSBT.
pub uninterp spec fn parses_as_psbt(psbt: Seq<u8>) -> bool;

/// What the digest routine reads of input `idx` of a serialised PSBT to find
/// the output it spends: whether a `witness_utxo` is recorded, how many outputs
/// the recorded previous transaction has, and the output index the unsigned
/// transaction spends. `None` where the bytes do not parse or `idx` is past
/// either input list.
pub uninterp spec fn spend_info_of(psbt: Seq<u8>, idx: int) -> Option<(bool, Option<usize>, u32)>;

/// Whether the digest routine can look up the output that input `idx` spends
/// without indexing past the previous transaction's outputs.
pub open spec fn spend_lookup_safe(psbt: Seq<u8>, idx: int) -> bool {
    match spend_info_of(psbt, idx) {
        Some((has_witness_utxo, Some(n), vout)) => has_witness_utxo || (vout as int) < n,
        _ => true,
    }
}

/// Relies on bitcoin's `Psbt::deserialize` and on the fields `witness_utxo`,
/// `non_witness_utxo` and `unsigned_tx.input[..].previous_output.vout`.
#[verifier::external_body]
pub(crate) fn spend_info(raw: &Vec<u8>, input_index: usize) -> (r: Option<(bool, Option<usize>, u32)>)
    ensures
        r == spend_info_of(raw@, input_index as int),
        !parses_as_psbt(raw@) ==> r.is_none(),
{
    let psbt = bitcoin::Psbt::deserialize(raw).ok()?;
    let input = psbt.inputs.get(input_index)?;
    let txin = psbt.unsigned_tx.input.get(input_index)?;
    Some((input.witness_utxo.is_some(), input.non_witness_utxo.as_ref().map(|t| t.output.len()), txin.previous_output.vout))
}

/// A 32-byte string read as a big-endian number.
pub open spec fn be_value(s: Seq<u8>) -> nat
    decreases s.len(),
{
    if s.len() == 0 {
        0
    } else {
        be_value(s.drop_last()) * 256 + s.last() as nat
    }
}

/// The order of the secp256k1 group.
pub open spec fn curve_order() -> nat {
    0xFFFFFFFFFFFFFFFFFFFFFFFFFFFFFFFEBAAEDCE6AF48A03BBFD25E8CD0364141nat
}

/// Whether 32 bytes are a secret key: a big-endian number in 1..n-1.
pub open spec fn valid_secret(s: Seq<u8>) -> bool {
    s.len() == 32 && 0 < be_value(s) && be_value(s) < curve_order()
}

/// A transaction output as plain values.
pub open spec fn txout_view(o: TxOut) -> (u64, Seq<u8>) {
    (o.value, o.script_pubkey@)
}

/// Borrowed transaction outputs as plain values.
pub open spec fn txouts_view(s: Seq<&TxOut>) -> Seq<(u64, Seq<u8>)> {
    s.map_values(|o: &TxOut| txout_view(*o))
}

pub open spec fn opt_view(o: Option<[u8; 32]>) -> Option<Seq<u8>> {
    match o {
        Some(v) => Some(v@),
        None => None,
    }
}

/// Relies on secp256k1 `SecretKey::from_slice` and `PublicKey::from_secret_key`:
/// `None` for a byte string that is no valid secret, else the serialised key.
#[verifier::external_body]
pub(crate) fn public_key(secret: &[u8; 32]) -> (r: Option<[u8; 33]>)
    ensures
        r.is_some() == valid_secret(secret@),
        r.is_some() ==> r.unwrap()@ == public_key_of(secret@),
{
    let secp = secp256k1::Secp256k1::new();
    let sk = secp256k1::SecretKey::from_slice(secret).ok()?;
    Some(secp256k1::PublicKey::from_secret_key(&secp, &sk).serialize())
}

/// Relies on secp256k1 `SecretKey::from_slice`, `PublicKey::from_slice` and
/// `ecdh::SharedSecret::new`: `None` where either key does not parse.
#[verifier::external_body]
pub(crate) fn shared_secret(secret: &[u8; 32], public: &[u8; 33]) -> (r: Option<[u8; 32]>)
    ensures
        !valid_secret(secret@) ==> r.is_none(),
        r.is_some() ==> r.unwrap()@ == shared_secret_of(secret@, public@),
{
    let sk = secp256k1::SecretKey::from_slice(secret).ok()?;
    let pk = secp256k1::PublicKey::from_slice(public).ok()?;
    Some(secp256k1::ecdh::SharedSecret::new(&pk, &sk).secret_bytes())
}

/// Relies on secp256k1 `sign_ecdsa_low_r` and `verify_ecdsa`: the signature is
/// returned only when it verifies against the secret's public key.
#[verifier::external_body]
pub(crate) fn sign_ecdsa(secret: &[u8; 32], digest: &[u8; 32]) -> (r: Option<[u8; 64]>)
    ensures
        valid_secret(secret@) ==> r.is_some(),
        r.is_some() ==> r.unwrap()@ == ecdsa_signature_of(secret@, digest@),
{
    let secp = secp256k1::Secp256k1::new();
    let sk = secp256k1::SecretKey::from_slice(secret).ok()?;
    let msg = secp256k1::Message::from_digest(*digest);
    let sig = secp.sign_ecdsa_low_r(&msg, &sk);
    secp.verify_ecdsa(&msg, &sig, &sk.public_key(&secp)).ok()?;
    Some(sig.serialize_compact())
}

/// Relies on secp256k1 `sign_schnorr_no_aux_rand` and `verify_schnorr` with the
/// untweaked key pair: the signature is returned only when it verifies.
#[verifier::external_body]
pub(crate) fn sign_schnorr(secret: &[u8; 32], digest: &[u8; 32]) -> (r: Option<[u8; 64]>)
    ensures
        valid_secret(secret@) ==> r.is_some(),
        r.is_some() ==> r.unwrap()@ == schnorr_signature_of(secret@, digest@),
{
    let secp = secp256k1::Secp256k1::new();
    let kp = secp256k1::Keypair::from_seckey_slice(&secp, secret).ok()?;
    let msg = secp256k1::Message::from_digest(*digest);
    let sig = secp.sign_schnorr_no_aux_rand(&msg, &kp);
    secp.verify_schnorr(&sig, &msg, &kp.x_only_public_key().0).ok()?;
    Some(sig.serialize())
}

/// Relies on bitcoin's `TapTweak::tap_tweak` for key pairs (BIP341 tweak with the
/// merkle root, or the single-key tweak without one) and on secp256k1
/// `sign_schnorr_no_aux_rand` and `verify_schnorr` with the tweaked pair.
#[verifier::external_body]
pub(crate) fn sign_schnorr_tweaked(secret: &[u8; 32], merkle_root: &Option<[u8; 32]>, digest: &[u8; 32]) -> (r: Option<[u8; 64]>)
    ensures
        valid_secret(secret@) ==> r.is_some(),
        r.is_some() ==> r.unwrap()@ == key_path_signature_of(secret@, opt_view(*merkle_root), digest@),
{
    let secp = secp256k1::Secp256k1::new();
    let kp = secp256k1::Keypair::from_seckey_slice(&secp, secret).ok()?;
    let root = merkle_root.map(<taproot::TapNodeHash as bitcoin::hashes::Hash>::from_byte_array);
    let kp = kp.tap_tweak(&secp, root).to_keypair();
    let msg = secp256k1::Message::from_digest(*digest);
    let sig = secp.sign_schnorr_no_aux_rand(&msg, &kp);
    secp.verify_schnorr(&sig, &msg, &kp.x_only_public_key().0).ok()?;
    Some(sig.serialize())
}

/// Relies on bitcoin's `Xpriv::derive_priv`: the secret key at `path` below a
/// master key with this chain code and secret; `None` where the secret is
/// invalid or the path is longer than the 255 levels BIP32 allows.
#[verifier::external_body]
pub(crate) fn derive_secret(chain_code: &[u8; 32], secret: &[u8; 32], path: &Vec<u32>) -> (r: Option<[u8; 32]>)
    ensures
        r.is_some() == (valid_secret(secret@) && path@.len() <= 255),
        r.is_some() ==> valid_secret(r.unwrap()@),
        r.is_some() ==> r.unwrap()@ == derived_secret_of(chain_code@, secret@, path@),
{
    let secp = secp256k1::Secp256k1::new();
    let root = bip32::Xpriv {
        network: bitcoin::NetworkKind::Main,
        depth: 0,
        parent_fingerprint: bip32::Fingerprint::default(),
        child_number: bip32::ChildNumber::from(0u32),
        private_key: secp256k1::SecretKey::from_slice(secret).ok()?,
        chain_code: bip32::ChainCode::from(*chain_code),
    };
    let path: Vec<bip32::ChildNumber> = path.iter().map(|n| bip32::ChildNumber::from(*n)).collect();
    Some(root.derive_priv(&secp, &path).ok()?.private_key.secret_bytes())
}

/// Relies on bitcoin's `Psbt::deserialize` and `Psbt::sighash_ecdsa`: `None`
/// where the bytes do not parse, else the routine's digest and sighash type.
/// The routine indexes the previous transaction's outputs unchecked, so a PSBT
/// whose lookup would go past them is left out.
#[verifier::external_body]
pub(crate) fn ecdsa_sighash(raw: &Vec<u8>, input_index: usize) -> (r: Option<Result<([u8; 32], u32), bitcoin::psbt::SignError>>)
    requires
        spend_lookup_safe(raw@, input_index as int),
    ensures
        r.is_none() == !parses_as_psbt(raw@),
        match r {
            Some(Ok((d, t))) => ecdsa_sighash_of(raw@, input_index as int) == Some((d@, t)),
            _ => ecdsa_sighash_of(raw@, input_index as int).is_none(),
        },
{
    let psbt = bitcoin::Psbt::deserialize(raw).ok()?;
    let mut cache = sighash::SighashCache::new(psbt.unsigned_tx.clone());
    Some(psbt.sighash_ecdsa(input_index, &mut cache).map(|(msg, ty)| (*msg.as_ref(), ty.to_u32())))
}

/// The sighash bytes that `TapSighashType::from_consensus_u8` accepts.
pub open spec fn valid_tap_sighash(t: u8) -> bool {
    t == 0x00 || t == 0x01 || t == 0x02 || t == 0x03 || t == 0x81 || t == 0x82 || t == 0x83
}

/// Relies on bitcoin's `Psbt::deserialize` and
/// `SighashCache::taproot_signature_hash` over the unsigned transaction with
/// `Prevouts::All`, no annex, and the leaf hash with the given code separator
/// position when a leaf is given. `None` where the bytes do not parse.
#[verifier::external_body]
pub(crate) fn tap_sighash_all(raw: &Vec<u8>, input_index: usize, prevouts: &Vec<&TxOut>, leaf_hash: &Option<[u8; 32]>, code_separator_pos: u32, sighash_type: u8) -> (r: Option<Result<[u8; 32], bitcoin::sighash::TaprootError>>)
    requires
        valid_tap_sighash(sighash_type),
    ensures
        r.is_none() == !parses_as_psbt(raw@),
        match r {
            Some(Ok(d)) => tap_sighash_all_of(raw@, input_index as int, txouts_view(prevouts@), opt_view(*leaf_hash), code_separator_pos, sighash_type) == Some(d@),
            _ => tap_sighash_all_of(raw@, input_index as int, txouts_view(prevouts@), opt_view(*leaf_hash), code_separator_pos, sighash_type).is_none(),
        },
{
    let psbt = bitcoin::Psbt::deserialize(raw).ok()?;
    let outs: Vec<bitcoin::TxOut> = prevouts.iter().map(|o| bitcoin::TxOut { value: bitcoin::Amount::from_sat(o.value), script_pubkey: bitcoin::ScriptBuf::from_bytes(o.script_pubkey.clone()) }).collect();
    let ty = sighash::TapSighashType::from_consensus_u8(sighash_type).unwrap();
    let extra = leaf_hash.map(|h| (<taproot::TapLeafHash as bitcoin::hashes::Hash>::from_byte_array(h), code_separator_pos));
    let mut cache = sighash::SighashCache::new(&psbt.unsigned_tx);
    let digest = cache.taproot_signature_hash(input_index, &sighash::Prevouts::All(&outs), None, extra, ty);
    Some(digest.map(bitcoin::hashes::Hash::to_byte_array))
}

/// Relies on bitcoin's `Psbt::deserialize` and
/// `SighashCache::taproot_signature_hash` over the unsigned transaction with
/// `Prevouts::One` for the signed input, no annex, and the leaf hash with the
/// given code separator position when a leaf is given. `None` where the bytes
/// do not parse.
#[verifier::external_body]
pub(crate) fn tap_sighash_one(raw: &Vec<u8>, input_index: usize, prevout: &TxOut, leaf_hash: &Option<[u8; 32]>, code_separator_pos: u32, sighash_type: u8) -> (r: Option<Result<[u8; 32], bitcoin::sighash::TaprootError>>)
    requires
        valid_tap_sighash(sighash_type),
    ensures
        r.is_none() == !parses_as_psbt(raw@),
        match r {
            Some(Ok(d)) => tap_sighash_one_of(raw@, input_index as int, txout_view(*prevout), opt_view(*leaf_hash), code_separator_pos, sighash_type) == Some(d@),
            _ => tap_sighash_one_of(raw@, input_index as int, txout_view(*prevout), opt_view(*leaf_hash), code_separator_pos, sighash_type).is_none(),
        },
{
    let psbt = bitcoin::Psbt::deserialize(raw).ok()?;
    let out = bitcoin::TxOut { value: bitcoin::Amount::from_sat(prevout.value), script_pubkey: bitcoin::ScriptBuf::from_bytes(prevout.script_pubkey.clone()) };
    let ty = sighash::TapSighashType::from_consensus_u8(sighash_type).unwrap();
    let extra = leaf_hash.map(|h| (<taproot::TapLeafHash as bitcoin::hashes::Hash>::from_byte_array(h), code_separator_pos));
    let mut cache = sighash::SighashCache::new(&psbt.unsigned_tx);
    let digest = cache.taproot_signature_hash(input_index, &sighash::Prevouts::One(input_index, &out), None, extra, ty);
    Some(digest.map(bitcoin::hashes::Hash::to_byte_array))
}

} // verus!
