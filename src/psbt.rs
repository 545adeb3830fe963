use vstd::prelude::*;
use crate::keys::KeySource;

verus! {

/// A transaction output: an amount in satoshis and its locking script.
#[derive(Debug, Clone, PartialEq, Eq)]
pub struct TxOut {
    pub value: u64,
    pub script_pubkey: Vec<u8>,
}

/// A previous transaction recorded on an input: its consensus serialisation,
/// from which its id is computed, and its outputs.
#[derive(Debug, Clone, PartialEq, Eq)]
pub struct PrevTx {
    pub tx: Vec<u8>,
    pub output: Vec<TxOut>,
}

/// The output that an input of the unsigned transaction spends.
#[derive(Debug, Clone, Copy, PartialEq, Eq)]
pub struct OutPoint {
    pub txid: [u8; 32],
    pub vout: u32,
}

/// An ECDSA partial signature, keyed by the compressed public key it verifies
/// against.
#[derive(Debug, Clone, Copy, PartialEq, Eq)]
pub struct PartialSig {
    pub pubkey: [u8; 33],
    pub signature: [u8; 64],
    pub sighash_type: u32,
}

/// A BIP32 derivation record: a compressed public key and where it comes from.
#[derive(Debug, Clone, PartialEq, Eq)]
pub struct Bip32Entry {
    pub pubkey: [u8; 33],
    pub source: KeySource,
}

/// A taproot key origin: an x-only public key, the leaves it appears in, and
/// where it comes from.
#[derive(Debug, Clone, PartialEq, Eq)]
pub struct TapKeyOrigin {
    pub xonly: [u8; 32],
    pub leaf_hashes: Vec<[u8; 32]>,
    pub source: KeySource,
}

/// A Schnorr signature with its sighash byte.
#[derive(Debug, Clone, Copy, PartialEq, Eq)]
pub struct TapSig {
    pub signature: [u8; 64],
    pub sighash_type: u8,
}

/// A script-path signature, keyed by an x-only public key and a leaf hash.
#[derive(Debug, Clone, Copy, PartialEq, Eq)]
pub struct TapScriptSig {
    pub xonly: [u8; 32],
    pub leaf_hash: [u8; 32],
    pub sig: TapSig,
}

/// The fields of one PSBT input that signing reads or writes.
#[derive(Debug, Clone, PartialEq, Eq)]
pub struct PsbtInput {
    pub final_script_sig: Option<Vec<u8>>,
    pub final_script_witness: Option<Vec<Vec<u8>>>,
    pub partial_sigs: Vec<PartialSig>,
    pub bip32_derivation: Vec<Bip32Entry>,
    pub tap_key_origins: Vec<TapKeyOrigin>,
    pub tap_internal_key: Option<[u8; 32]>,
    pub tap_key_sig: Option<TapSig>,
    pub tap_script_sigs: Vec<TapScriptSig>,
    pub tap_merkle_root: Option<[u8; 32]>,
    pub witness_utxo: Option<TxOut>,
    pub non_witness_utxo: Option<PrevTx>,
    pub sighash_type: Option<u32>,
}

/// A partially signed transaction as the signer sees it.
///
/// `raw` is the PSBT in its BIP174 serialisation: the digest routines read the
/// unsigned transaction, spent outputs and scripts from it, and signing never
/// writes it.
/// `prevouts` lists what each input of the unsigned transaction spends, and
/// `inputs` the per-input signing fields.
pub struct SigningPsbt {
    pub raw: Vec<u8>,
    pub prevouts: Vec<OutPoint>,
    pub inputs: Vec<PsbtInput>,
}

/// Whether an input already carries a final script, and so must not change.
pub open spec fn is_finalized(i: PsbtInput) -> bool {
    i.final_script_sig.is_some() || i.final_script_witness.is_some()
}

pub fn input_is_finalized(i: &PsbtInput) -> (r: bool)
    ensures
        r == is_finalized(*i),
{
    i.final_script_sig.is_some() || i.final_script_witness.is_some()
}

/// Compares two byte strings.
pub fn bytes_equal(a: &[u8], b: &[u8]) -> (r: bool)
    ensures
        r == (a@ == b@),
{
    if a.len() != b.len() {
        return false;
    }
    let mut i: usize = 0;
    while i < a.len()
        invariant
            a.len() == b.len(),
            i <= a.len(),
            forall|j: int| 0 <= j < i ==> a@[j] == b@[j],
        decreases a.len() - i,
    {
        if a[i] != b[i] {
            return false;
        }
        i = i + 1;
    }
    assert(a@ =~= b@);
    true
}

/// The full public key of an x-only key taken with even parity: the prefix byte
/// 2 followed by the x coordinate.
pub open spec fn even_key(x: Seq<u8>) -> Seq<u8> {
    seq![2u8] + x
}

/// The x-only form of a compressed public key: its x coordinate.
pub open spec fn xonly_of(pk: Seq<u8>) -> Seq<u8> {
    pk.subrange(1, 33)
}

/// Serialises an x-only key as the even-parity compressed key.
pub fn even_public_key(x: &[u8; 32]) -> (r: [u8; 33])
    ensures
        r@ == even_key(x@),
{
    let mut r: [u8; 33] = [2u8; 33];
    let mut i: usize = 0;
    while i < 32
        invariant
            i <= 32,
            r@.len() == 33,
            r@[0] == 2u8,
            forall|j: int| 0 <= j < i ==> r@[j + 1] == x@[j],
        decreases 32 - i,
    {
        r.set(i + 1, x[i]);
        i = i + 1;
    }
    assert(r@ =~= even_key(x@));
    r
}

/// The x coordinate of a compressed public key.
pub fn xonly_public_key(pk: &[u8; 33]) -> (r: [u8; 32])
    ensures
        r@ == xonly_of(pk@),
{
    let mut r: [u8; 32] = [0u8; 32];
    let mut i: usize = 0;
    while i < 32
        invariant
            i <= 32,
            r@.len() == 32,
            forall|j: int| 0 <= j < i ==> r@[j] == pk@[j + 1],
        decreases 32 - i,
    {
        r.set(i, pk[i + 1]);
        i = i + 1;
    }
    assert(r@ =~= xonly_of(pk@));
    r
}

} // verus!
