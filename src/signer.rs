use vstd::prelude::*;
use vstd::string::StringExecFns;
use crate::crypto::{
    ecdsa_sighash, ecdsa_sighash_of, ecdsa_signature_of, parses_as_psbt, spend_info, spend_lookup_safe, key_path_signature_of, opt_view, public_key,
    public_key_of, schnorr_signature_of, sign_ecdsa, sign_schnorr, sign_schnorr_tweaked, valid_secret,
};
use crate::psbt::{
    bytes_equal, input_is_finalized, is_finalized, xonly_of, xonly_public_key, PartialSig,
    PsbtInput, SigningPsbt, TapKeyOrigin, TapScriptSig, TapSig,
};
use crate::sighash::{
    all_prevouts_view, compute_tap_sighash, is_anyone_can_pay, prevout_at, prevouts_available, tap_digest,
    tap_digest_ok, tap_sighash_ok, tap_sighash_value,
};

verus! {

/// The spending context of an input: which digest is signed and where the
/// signature is written.
#[derive(Debug, Clone, Copy, PartialEq, Eq, Structural)]
pub enum SignerContext {
    Legacy,
    Segwitv0,
    Tap { is_internal_key: bool },
}

/// Why signing an input failed.
#[derive(Debug)]
pub enum SignerError {
    /// The private key is missing for the required public key
    MissingKey,
    /// The private key in use has the right fingerprint but derives differently than expected
    InvalidKey,
    /// The user canceled the operation
    UserCanceled,
    /// Input index is out of range
    InputIndexOutOfRange,
    /// The `non_witness_utxo` field of the transaction is required to sign this input
    MissingNonWitnessUtxo,
    /// The `non_witness_utxo` specified is invalid
    InvalidNonWitnessUtxo,
    /// The `witness_utxo` field of the transaction is required to sign this input
    MissingWitnessUtxo,
    /// The `witness_script` field of the transaction is required to sign this input
    MissingWitnessScript,
    /// The fingerprint and derivation path are missing from the psbt input
    MissingHdKeypath,
    /// The psbt contains a non-`SIGHASH_ALL` sighash in one of its inputs
    NonStandardSighash,
    /// Invalid SIGHASH for the signing context in use
    InvalidSighash,
    /// Error while computing the hash to sign a Taproot input
    SighashTaproot(bitcoin::sighash::TaprootError),
    /// Error while computing the hash to sign a legacy or segwit v0 input
    Psbt(bitcoin::psbt::SignError),
    /// A failure of a signer outside this library
    External(String),
}

impl SignerError {
    /// A description of the error for display.
    pub fn message(&self) -> (r: String)
        ensures
            self is MissingKey ==> r@ == "Missing private key"@,
            self is InvalidKey ==> r@ == "The private key in use has the right fingerprint but derives differently than expected"@,
            self is UserCanceled ==> r@ == "The user canceled the operation"@,
            self is InputIndexOutOfRange ==> r@ == "Input index out of range"@,
            self is MissingNonWitnessUtxo ==> r@ == "Missing non-witness UTXO"@,
            self is InvalidNonWitnessUtxo ==> r@ == "Invalid non-witness UTXO"@,
            self is MissingWitnessUtxo ==> r@ == "Missing witness UTXO"@,
            self is MissingWitnessScript ==> r@ == "Missing witness script"@,
            self is MissingHdKeypath ==> r@ == "Missing fingerprint and derivation path"@,
            self is NonStandardSighash ==> r@ == "The psbt contains a non standard sighash"@,
            self is InvalidSighash ==> r@ == "Invalid SIGHASH for the signing context in use"@,
            self is SighashTaproot ==> exists|t: Seq<char>| r@ == "Error while computing the hash to sign a Taproot input: "@ + t,
            self is Psbt ==> exists|t: Seq<char>| r@ == "Error computing the sighash: "@ + t,
            self matches SignerError::External(m) ==> r@ == m@,
    {
        match self {
            SignerError::MissingKey => String::from_str("Missing private key"),
            SignerError::InvalidKey => String::from_str("The private key in use has the right fingerprint but derives differently than expected"),
            SignerError::UserCanceled => String::from_str("The user canceled the operation"),
            SignerError::InputIndexOutOfRange => String::from_str("Input index out of range"),
            SignerError::MissingNonWitnessUtxo => String::from_str("Missing non-witness UTXO"),
            SignerError::InvalidNonWitnessUtxo => String::from_str("Invalid non-witness UTXO"),
            SignerError::MissingWitnessUtxo => String::from_str("Missing witness UTXO"),
            SignerError::MissingWitnessScript => String::from_str("Missing witness script"),
            SignerError::MissingHdKeypath => String::from_str("Missing fingerprint and derivation path"),
            SignerError::NonStandardSighash => String::from_str("The psbt contains a non standard sighash"),
            SignerError::InvalidSighash => String::from_str("Invalid SIGHASH for the signing context in use"),
            SignerError::SighashTaproot(e) => {
                let mut m = String::from_str("Error while computing the hash to sign a Taproot input: ");
                let t = e.to_string();
                m.append(t.as_str());
                m
            },
            SignerError::Psbt(e) => {
                let mut m = String::from_str("Error computing the sighash: ");
                let t = e.to_string();
                m.append(t.as_str());
                m
            },
            SignerError::External(m) => m.clone(),
        }
    }
}

/// Signs one input of a PSBT; implemented by the signers of this library and
/// open to signers kept elsewhere.
pub trait InputSigner {
    fn sign_input(&self, psbt: &mut SigningPsbt, input_index: usize, context: SignerContext) -> Result<(), SignerError>;
}

impl InputSigner for PrivateKey {
    fn sign_input(&self, psbt: &mut SigningPsbt, input_index: usize, context: SignerContext) -> Result<(), SignerError> {
        PrivateKey::sign_input(self, psbt, input_index, context)
    }
}

/// Whether some partial signature is keyed by `pk`.
pub open spec fn has_partial_sig(s: Seq<PartialSig>, pk: Seq<u8>) -> bool {
    exists|i: int| 0 <= i < s.len() && (#[trigger] s[i]).pubkey@ == pk
}

/// Whether exactly one partial signature is keyed by `pk`.
pub open spec fn one_partial_sig(s: Seq<PartialSig>, pk: Seq<u8>) -> bool {
    exists|i: int| 0 <= i < s.len() && (#[trigger] s[i]).pubkey@ == pk
        && forall|j: int| 0 <= j < s.len() && j != i ==> (#[trigger] s[j]).pubkey@ != pk
}

/// Whether some script-path signature is keyed by `(x, leaf)`.
pub open spec fn has_script_sig(s: Seq<TapScriptSig>, x: Seq<u8>, leaf: Seq<u8>) -> bool {
    exists|i: int| 0 <= i < s.len() && (#[trigger] s[i]).xonly@ == x && s[i].leaf_hash@ == leaf
}

/// Whether no two partial signatures share a public key, as in the map the
/// PSBT format keeps them in.
pub open spec fn partial_sigs_distinct(s: Seq<PartialSig>) -> bool {
    forall|i: int, j: int| 0 <= i < j < s.len() ==> (#[trigger] s[i]).pubkey@ != (#[trigger] s[j]).pubkey@
}

/// An input is well formed when its signature lists are keyed as the PSBT
/// format's maps are: by distinct public keys, and by distinct key and leaf
/// pairs.
pub open spec fn input_wf(i: PsbtInput) -> bool {
    partial_sigs_distinct(i.partial_sigs@) && script_sigs_distinct(i.tap_script_sigs@)
}

/// Every input of the PSBT is well formed.
pub open spec fn psbt_wf(p: SigningPsbt) -> bool {
    forall|j: int| 0 <= j < p.inputs@.len() ==> #[trigger] input_wf(p.inputs@[j])
}

/// Whether no two script-path signatures share a key and leaf.
pub open spec fn script_sigs_distinct(s: Seq<TapScriptSig>) -> bool {
    forall|i: int, j: int| 0 <= i < j < s.len() ==> !(#[trigger] s[i].xonly@ == #[trigger] s[j].xonly@ && s[i].leaf_hash@ == s[j].leaf_hash@)
}

/// Whether entry `k` is the first taproot key origin for the x-only key `x`.
pub open spec fn is_first_origin(s: Seq<TapKeyOrigin>, x: Seq<u8>, k: int) -> bool {
    0 <= k < s.len() && s[k].xonly@ == x && forall|j: int| 0 <= j < k ==> (#[trigger] s[j]).xonly@ != x
}

/// The leaves that the key `x` is recorded in, from its first origin entry.
pub open spec fn leaves_of(s: Seq<TapKeyOrigin>, x: Seq<u8>) -> Seq<[u8; 32]> {
    if exists|k: int| is_first_origin(s, x, k) {
        s[choose|k: int| is_first_origin(s, x, k)].leaf_hashes@
    } else {
        Seq::empty()
    }
}

/// Whether the input fields that signing never writes are the same.
pub open spec fn same_unsigned_fields(a: PsbtInput, b: PsbtInput) -> bool {
    &&& a.final_script_sig == b.final_script_sig
    &&& a.final_script_witness == b.final_script_witness
    &&& a.bip32_derivation == b.bip32_derivation
    &&& a.tap_key_origins == b.tap_key_origins
    &&& a.tap_internal_key == b.tap_internal_key
    &&& a.tap_merkle_root == b.tap_merkle_root
    &&& a.witness_utxo == b.witness_utxo
    &&& a.non_witness_utxo == b.non_witness_utxo
    &&& a.sighash_type == b.sighash_type
}

/// What signing an unfinalised input `idx` with an ECDSA key does to it: the
/// partial signature over the input's legacy or segwit v0 digest is added
/// unless one for the key is there. A recorded previous transaction without
/// the output the input spends is refused with `InvalidNonWitnessUtxo`.
pub open spec fn ecdsa_input_outcome(secret: Seq<u8>, old: SigningPsbt, idx: int, new: PsbtInput, r: Result<(), SignerError>) -> bool {
    let o = old.inputs@[idx];
    let pk = public_key_of(secret);
    let dg = ecdsa_sighash_of(old.raw@, idx);
    let safe = spend_lookup_safe(old.raw@, idx);
    &&& new.tap_key_sig == o.tap_key_sig
    &&& new.tap_script_sigs == o.tap_script_sigs
    &&& has_partial_sig(o.partial_sigs@, pk) ==> r is Ok && new.partial_sigs == o.partial_sigs
    &&& !has_partial_sig(o.partial_sigs@, pk) && !safe ==> {
        &&& r matches Err(SignerError::InvalidNonWitnessUtxo)
        &&& new.partial_sigs == o.partial_sigs
    }
    &&& !has_partial_sig(o.partial_sigs@, pk) && safe && dg.is_none() ==> {
        &&& r is Err
        &&& parses_as_psbt(old.raw@) ==> r->Err_0 is Psbt
        &&& !parses_as_psbt(old.raw@) ==> r->Err_0 is External
        &&& new.partial_sigs == o.partial_sigs
    }
    &&& !has_partial_sig(o.partial_sigs@, pk) && safe && dg.is_some() ==> {
        &&& r is Ok
        &&& new.partial_sigs@.len() == o.partial_sigs@.len() + 1
        &&& new.partial_sigs@.drop_last() == o.partial_sigs@
        &&& new.partial_sigs@.last().pubkey@ == pk
        &&& new.partial_sigs@.last().signature@ == ecdsa_signature_of(secret, dg.unwrap().0)
        &&& new.partial_sigs@.last().sighash_type == dg.unwrap().1
    }
}

/// Whether a taproot key signs for the key path of an input: it is the
/// internal key and no key-path signature exists yet.
pub open spec fn signs_key_path(secret: Seq<u8>, is_internal_key: bool, old: PsbtInput) -> bool {
    is_internal_key && old.tap_key_sig.is_none() && old.tap_internal_key.is_some()
        && old.tap_internal_key.unwrap()@ == xonly_of(public_key_of(secret))
}

/// What may become of the key-path signature field of input `idx`.
pub open spec fn key_sig_outcome(secret: Seq<u8>, is_internal_key: bool, old: SigningPsbt, idx: int, key_sig: Option<TapSig>) -> bool {
    let o = old.inputs@[idx];
    let key_path = signs_key_path(secret, is_internal_key, o);
    &&& !key_path ==> key_sig == o.tap_key_sig
    &&& key_path && key_sig.is_some() ==> {
        &&& tap_digest_ok(old, idx, None)
        &&& key_sig.unwrap().signature@ == key_path_signature_of(secret, opt_view(o.tap_merkle_root), tap_digest(old, idx, None).unwrap())
        &&& key_sig.unwrap().sighash_type as u32 == tap_sighash_value(o.sighash_type)
    }
}

/// Entry `k` of `s` is a script-path signature by the key over its leaf's
/// digest, for a recorded leaf that no earlier entry signs.
pub open spec fn new_script_sig(secret: Seq<u8>, old: SigningPsbt, idx: int, s: Seq<TapScriptSig>, k: int) -> bool {
    let o = old.inputs@[idx];
    let x = xonly_of(public_key_of(secret));
    let leaf = s[k].leaf_hash@;
    &&& s[k].xonly@ == x
    &&& leaves_of(o.tap_key_origins@, x).contains(s[k].leaf_hash)
    &&& !has_script_sig(s.subrange(0, k), x, leaf)
    &&& tap_digest_ok(old, idx, Some(leaf))
    &&& s[k].sig.signature@ == schnorr_signature_of(secret, tap_digest(old, idx, Some(leaf)).unwrap())
    &&& s[k].sig.sighash_type as u32 == tap_sighash_value(o.sighash_type)
}

/// Whether a taproot key has a signature to make on input `idx`.
pub open spec fn tap_sig_due(secret: Seq<u8>, is_internal_key: bool, o: PsbtInput) -> bool {
    let x = xonly_of(public_key_of(secret));
    let leaves = leaves_of(o.tap_key_origins@, x);
    signs_key_path(secret, is_internal_key, o)
        || exists|l: int| 0 <= l < leaves.len() && !has_script_sig(o.tap_script_sigs@, x, (#[trigger] leaves[l])@)
}

/// What signing an unfinalised input `idx` with a taproot key does to it.
pub open spec fn tap_input_outcome(secret: Seq<u8>, is_internal_key: bool, old: SigningPsbt, idx: int, new: PsbtInput, r: Result<(), SignerError>) -> bool {
    let o = old.inputs@[idx];
    let x = xonly_of(public_key_of(secret));
    let key_path = signs_key_path(secret, is_internal_key, o);
    let leaves = leaves_of(o.tap_key_origins@, x);
    let n = o.tap_script_sigs@.len();
    let t = tap_sighash_value(o.sighash_type);
    let due = tap_sig_due(secret, is_internal_key, o);
    &&& new.partial_sigs == o.partial_sigs
    &&& key_sig_outcome(secret, is_internal_key, old, idx, new.tap_key_sig)
    &&& key_path && r is Ok ==> new.tap_key_sig.is_some()
    &&& new.tap_script_sigs@.subrange(0, n as int) == o.tap_script_sigs@
    &&& n <= new.tap_script_sigs@.len()
    &&& forall|k: int| n <= k < new.tap_script_sigs@.len() ==> #[trigger] new_script_sig(secret, old, idx, new.tap_script_sigs@, k)
    &&& r is Ok ==> forall|l: int| 0 <= l < leaves.len() ==> has_script_sig(new.tap_script_sigs@, x, (#[trigger] leaves[l])@)
    &&& r is Err ==> (r->Err_0 is InvalidSighash || r->Err_0 is MissingWitnessUtxo || r->Err_0 is SighashTaproot || r->Err_0 is External)
    &&& r is Err && parses_as_psbt(old.raw@) ==> !(r->Err_0 is External)
    &&& (key_path ==> tap_digest_ok(old, idx, None))
        && (forall|l: int| 0 <= l < leaves.len() ==> tap_digest_ok(old, idx, Some((#[trigger] leaves[l])@))) ==> r is Ok
    &&& due && !tap_sighash_ok(o.sighash_type) ==> (r matches Err(SignerError::InvalidSighash)) && new == o
    &&& due && tap_sighash_ok(o.sighash_type) && !prevouts_available(old, idx, is_anyone_can_pay(t))
        ==> (r matches Err(SignerError::MissingWitnessUtxo)) && new == o
}

/// What signing input `idx` with a private key does to the PSBT.
pub open spec fn private_key_outcome(secret: Seq<u8>, old: SigningPsbt, new: SigningPsbt, idx: int, ctx: SignerContext, r: Result<(), SignerError>) -> bool {
    let in_range = 0 <= idx < old.inputs.len() && idx < old.prevouts.len();
    &&& (r matches Err(SignerError::InputIndexOutOfRange)) == !in_range
    &&& (!in_range || is_finalized(old.inputs@[idx])) ==> new == old
    &&& in_range && is_finalized(old.inputs@[idx]) ==> r is Ok
    &&& new.raw == old.raw
    &&& new.prevouts == old.prevouts
    &&& new.inputs@.len() == old.inputs@.len()
    &&& forall|j: int| 0 <= j < old.inputs@.len() && j != idx ==> new.inputs@[j] == old.inputs@[j]
    &&& in_range && !is_finalized(old.inputs@[idx]) && !valid_secret(secret) ==> (r matches Err(SignerError::InvalidKey)) && new == old
    &&& in_range && !is_finalized(old.inputs@[idx]) && valid_secret(secret) ==> {
        &&& same_unsigned_fields(old.inputs@[idx], new.inputs@[idx])
        &&& match ctx {
            SignerContext::Tap { is_internal_key } => tap_input_outcome(secret, is_internal_key, old, idx, new.inputs@[idx], r),
            _ => ecdsa_input_outcome(secret, old, idx, new.inputs@[idx], r),
        }
    }
}

/// The taproot digest of an input depends only on the PSBT bytes, the spent
/// outputs and the input's sighash type, which signing leaves alone.
proof fn lemma_tap_digest_stable(a: SigningPsbt, b: SigningPsbt, idx: int, leaf: Option<Seq<u8>>)
    requires
        a.raw == b.raw,
        a.prevouts == b.prevouts,
        a.inputs@.len() == b.inputs@.len(),
        0 <= idx < a.inputs@.len(),
        forall|j: int| 0 <= j < a.inputs@.len() && j != idx ==> b.inputs@[j] == a.inputs@[j],
        same_unsigned_fields(a.inputs@[idx], b.inputs@[idx]),
    ensures
        tap_digest(a, idx, leaf) == tap_digest(b, idx, leaf),
        tap_digest_ok(a, idx, leaf) == tap_digest_ok(b, idx, leaf),
        prevouts_available(a, idx, true) == prevouts_available(b, idx, true),
        prevouts_available(a, idx, false) == prevouts_available(b, idx, false),
{
    assert forall|j: int| 0 <= j < a.inputs@.len() implies #[trigger] prevout_at(a, j) == prevout_at(b, j) by {
        if j != idx {
            assert(b.inputs@[j] == a.inputs@[j]);
        }
    }
    assert(all_prevouts_view(a) =~= all_prevouts_view(b));
}

/// A concrete secret key (32 bytes) that signs inputs directly.
#[derive(Debug, Clone, Copy, PartialEq, Eq)]
pub struct PrivateKey {
    pub secret: [u8; 32],
}

fn find_partial_sig(s: &Vec<PartialSig>, pk: &[u8; 33]) -> (r: bool)
    ensures
        r == has_partial_sig(s@, pk@),
{
    let mut i: usize = 0;
    while i < s.len()
        invariant
            i <= s.len(),
            forall|j: int| 0 <= j < i ==> (#[trigger] s@[j]).pubkey@ != pk@,
        decreases s.len() - i,
    {
        if bytes_equal(s[i].pubkey.as_slice(), pk.as_slice()) {
            return true;
        }
        i = i + 1;
    }
    false
}

fn find_script_sig(s: &Vec<TapScriptSig>, x: &[u8; 32], leaf: &[u8; 32]) -> (r: bool)
    ensures
        r == has_script_sig(s@, x@, leaf@),
{
    let mut i: usize = 0;
    while i < s.len()
        invariant
            i <= s.len(),
            forall|j: int| 0 <= j < i ==> !((#[trigger] s@[j]).xonly@ == x@ && s@[j].leaf_hash@ == leaf@),
        decreases s.len() - i,
    {
        if bytes_equal(s[i].xonly.as_slice(), x.as_slice()) && bytes_equal(s[i].leaf_hash.as_slice(), leaf.as_slice()) {
            return true;
        }
        i = i + 1;
    }
    false
}

fn first_origin(s: &Vec<TapKeyOrigin>, x: &[u8; 32]) -> (r: Option<usize>)
    ensures
        r.is_some() ==> is_first_origin(s@, x@, r.unwrap() as int),
        r.is_none() ==> forall|k: int| !is_first_origin(s@, x@, k),
{
    let mut i: usize = 0;
    while i < s.len()
        invariant
            i <= s.len(),
            forall|j: int| 0 <= j < i ==> (#[trigger] s@[j]).xonly@ != x@,
        decreases s.len() - i,
    {
        if bytes_equal(s[i].xonly.as_slice(), x.as_slice()) {
            return Some(i);
        }
        i = i + 1;
    }
    proof {
        assert forall|k: int| !is_first_origin(s@, x@, k) by {
            if 0 <= k < s@.len() {
                assert(s@[k].xonly@ != x@);
            }
        }
    }
    None
}

proof fn lemma_first_origin_unique(s: Seq<TapKeyOrigin>, x: Seq<u8>, k: int)
    requires
        is_first_origin(s, x, k),
    ensures
        leaves_of(s, x) == s[k].leaf_hashes@,
{
    let c = choose|c: int| is_first_origin(s, x, c);
    if c < k {
        assert(s[c].xonly@ != x);
    } else if k < c {
        assert(s[k].xonly@ != x);
    }
}

impl PrivateKey {
    /// Signs input `input_index` in the given context: a partial signature for
    /// legacy and segwit v0 inputs; for taproot, the key-path signature when this
    /// is the internal key, and a script-path signature for each recorded leaf.
    /// Finalised inputs and existing signatures are left as they are.
    pub fn sign_input(&self, psbt: &mut SigningPsbt, input_index: usize, context: SignerContext) -> (r: Result<(), SignerError>)
        ensures
            private_key_outcome(self.secret@, *old(psbt), *final(psbt), input_index as int, context, r),
    {
        if input_index >= psbt.inputs.len() || input_index >= psbt.prevouts.len() {
            return Err(SignerError::InputIndexOutOfRange);
        }
        if input_is_finalized(&psbt.inputs[input_index]) {
            return Ok(());
        }
        let pubkey = match public_key(&self.secret) {
            Some(p) => p,
            None => {
                return Err(SignerError::InvalidKey);
            },
        };
        match context {
            SignerContext::Tap { is_internal_key } => self.sign_taproot(psbt, input_index, is_internal_key, &pubkey),
            _ => self.sign_ecdsa_input(psbt, input_index, &pubkey),
        }
    }

    fn sign_ecdsa_input(&self, psbt: &mut SigningPsbt, idx: usize, pubkey: &[u8; 33]) -> (r: Result<(), SignerError>)
        requires
            idx < old(psbt).inputs.len(),
            idx < old(psbt).prevouts.len(),
            valid_secret(self.secret@),
            pubkey@ == public_key_of(self.secret@),
        ensures
            final(psbt).raw == old(psbt).raw,
            final(psbt).prevouts == old(psbt).prevouts,
            final(psbt).inputs@.len() == old(psbt).inputs@.len(),
            forall|j: int| 0 <= j < old(psbt).inputs@.len() && j != idx ==> final(psbt).inputs@[j] == old(psbt).inputs@[j],
            same_unsigned_fields(old(psbt).inputs@[idx as int], final(psbt).inputs@[idx as int]),
            ecdsa_input_outcome(self.secret@, *old(psbt), idx as int, final(psbt).inputs@[idx as int], r),
            !(r matches Err(SignerError::InputIndexOutOfRange)),
    {
        if find_partial_sig(&psbt.inputs[idx].partial_sigs, pubkey) {
            return Ok(());
        }
        match spend_info(&psbt.raw, idx) {
            Some((false, Some(n), vout)) => {
                if vout as usize >= n {
                    return Err(SignerError::InvalidNonWitnessUtxo);
                }
            },
            _ => {},
        }
        let (digest, sighash_type) = match ecdsa_sighash(&psbt.raw, idx) {
            Some(Ok(v)) => v,
            Some(Err(e)) => {
                return Err(SignerError::Psbt(e));
            },
            None => {
                return Err(SignerError::External(String::from_str("the PSBT does not parse")));
            },
        };
        let signature = match sign_ecdsa(&self.secret, &digest) {
            Some(s) => s,
            None => {
                return Err(SignerError::InvalidKey);
            },
        };
        psbt.inputs[idx].partial_sigs.push(PartialSig { pubkey: *pubkey, signature, sighash_type });
        proof {
            let s = psbt.inputs@[idx as int].partial_sigs@;
            assert(s.drop_last() =~= old(psbt).inputs@[idx as int].partial_sigs@);
        }
        Ok(())
    }

    fn sign_taproot(&self, psbt: &mut SigningPsbt, idx: usize, is_internal_key: bool, pubkey: &[u8; 33]) -> (r: Result<(), SignerError>)
        requires
            idx < old(psbt).inputs.len(),
            idx < old(psbt).prevouts.len(),
            valid_secret(self.secret@),
            pubkey@ == public_key_of(self.secret@),
        ensures
            final(psbt).raw == old(psbt).raw,
            final(psbt).prevouts == old(psbt).prevouts,
            final(psbt).inputs@.len() == old(psbt).inputs@.len(),
            forall|j: int| 0 <= j < old(psbt).inputs@.len() && j != idx ==> final(psbt).inputs@[j] == old(psbt).inputs@[j],
            same_unsigned_fields(old(psbt).inputs@[idx as int], final(psbt).inputs@[idx as int]),
            tap_input_outcome(self.secret@, is_internal_key, *old(psbt), idx as int, final(psbt).inputs@[idx as int], r),
            !(r matches Err(SignerError::InputIndexOutOfRange)),
    {
        let ghost start = *psbt;
        let ghost old_in = psbt.inputs@[idx as int];
        let ghost t = tap_sighash_value(old_in.sighash_type);
        let ghost broken = !tap_sighash_ok(old_in.sighash_type) || !prevouts_available(start, idx as int, is_anyone_can_pay(t));
        let x = xonly_public_key(pubkey);
        proof {
            assert(psbt.inputs@[idx as int].tap_script_sigs@.subrange(0, old_in.tap_script_sigs@.len() as int) =~= old_in.tap_script_sigs@);
        }
        let key_path = is_internal_key && psbt.inputs[idx].tap_key_sig.is_none() && match &psbt.inputs[idx].tap_internal_key {
            Some(k) => bytes_equal(k.as_slice(), x.as_slice()),
            None => false,
        };
        if key_path {
            let (digest, sighash_type) = match compute_tap_sighash(psbt, idx, None) {
                Ok(v) => v,
                Err(e) => {
                    return Err(e);
                },
            };
            let root = psbt.inputs[idx].tap_merkle_root;
            let signature = match sign_schnorr_tweaked(&self.secret, &root, &digest) {
                Some(s) => s,
                None => {
                    return Err(SignerError::InvalidKey);
                },
            };
            psbt.inputs[idx].tap_key_sig = Some(TapSig { signature, sighash_type });
        }
        let k = match first_origin(&psbt.inputs[idx].tap_key_origins, &x) {
            Some(k) => k,
            None => {
                assert(leaves_of(old_in.tap_key_origins@, x@) =~= Seq::<[u8; 32]>::empty());
                return Ok(());
            },
        };
        let ghost leaves = old_in.tap_key_origins@[k as int].leaf_hashes@;
        let ghost n = old_in.tap_script_sigs@.len();
        let ghost key_sig = psbt.inputs@[idx as int].tap_key_sig;
        proof {
            lemma_first_origin_unique(old_in.tap_key_origins@, x@, k as int);
        }
        let count = psbt.inputs[idx].tap_key_origins[k].leaf_hashes.len();
        let mut i: usize = 0;
        while i < count
            invariant
                idx < psbt.inputs.len(),
                idx < psbt.prevouts.len(),
                valid_secret(self.secret@),
                start == *old(psbt),
                k < old_in.tap_key_origins@.len(),
                x@ == xonly_of(public_key_of(self.secret@)),
                leaves == old_in.tap_key_origins@[k as int].leaf_hashes@,
                leaves == leaves_of(old_in.tap_key_origins@, x@),
                count == leaves.len(),
                i <= count,
                n == old_in.tap_script_sigs@.len(),
                t == tap_sighash_value(old_in.sighash_type),
                broken == (!tap_sighash_ok(old_in.sighash_type) || !prevouts_available(start, idx as int, is_anyone_can_pay(t))),
                psbt.raw == start.raw,
                psbt.prevouts == start.prevouts,
                psbt.inputs@.len() == start.inputs@.len(),
                old_in == start.inputs@[idx as int],
                forall|j: int| 0 <= j < start.inputs@.len() && j != idx ==> psbt.inputs@[j] == start.inputs@[j],
                same_unsigned_fields(old_in, psbt.inputs@[idx as int]),
                psbt.inputs@[idx as int].partial_sigs == old_in.partial_sigs,
                psbt.inputs@[idx as int].tap_key_sig == key_sig,
                key_sig_outcome(self.secret@, is_internal_key, start, idx as int, key_sig),
                signs_key_path(self.secret@, is_internal_key, old_in) ==> key_sig.is_some(),
                broken ==> psbt.inputs@[idx as int] == old_in,
                n <= psbt.inputs@[idx as int].tap_script_sigs@.len(),
                psbt.inputs@[idx as int].tap_script_sigs@.subrange(0, n as int) == old_in.tap_script_sigs@,
                forall|m: int| n <= m < psbt.inputs@[idx as int].tap_script_sigs@.len()
                    ==> #[trigger] new_script_sig(self.secret@, start, idx as int, psbt.inputs@[idx as int].tap_script_sigs@, m),
                forall|l: int| 0 <= l < i ==> has_script_sig(psbt.inputs@[idx as int].tap_script_sigs@, x@, (#[trigger] leaves[l])@),
            decreases count - i,
        {
            let lh: [u8; 32] = psbt.inputs[idx].tap_key_origins[k].leaf_hashes[i];
            if !find_script_sig(&psbt.inputs[idx].tap_script_sigs, &x, &lh) {
                proof {
                    lemma_tap_digest_stable(start, *psbt, idx as int, Some(lh@));
                    assert(leaves[i as int] == lh);
                }
                let (digest, sighash_type) = match compute_tap_sighash(psbt, idx, Some(lh)) {
                    Ok(v) => v,
                    Err(e) => {
                        return Err(e);
                    },
                };
                let signature = match sign_schnorr(&self.secret, &digest) {
                    Some(s) => s,
                    None => {
                        return Err(SignerError::InvalidKey);
                    },
                };
                let ghost before = psbt.inputs@[idx as int].tap_script_sigs@;
                psbt.inputs[idx].tap_script_sigs.push(TapScriptSig { xonly: x, leaf_hash: lh, sig: TapSig { signature, sighash_type } });
                proof {
                    let after = psbt.inputs@[idx as int].tap_script_sigs@;
                    assert(after.subrange(0, before.len() as int) =~= before);
                    assert(after.subrange(0, n as int) =~= before.subrange(0, n as int));
                    assert forall|l: int| 0 <= l <= i implies has_script_sig(after, x@, (#[trigger] leaves[l])@) by {
                        if l < i {
                            let w = choose|w: int| 0 <= w < before.len() && (#[trigger] before[w]).xonly@ == x@ && before[w].leaf_hash@ == leaves[l]@;
                            assert(after[w] == before[w]);
                        } else {
                            assert(after[before.len() as int].leaf_hash@ == leaves[l]@);
                        }
                    }
                    assert forall|m: int| n <= m < after.len() implies #[trigger] new_script_sig(self.secret@, start, idx as int, after, m) by {
                        if m < before.len() {
                            assert(new_script_sig(self.secret@, start, idx as int, before, m));
                            assert(after[m] == before[m]);
                            assert(after.subrange(0, m) =~= before.subrange(0, m));
                        } else {
                            assert(after.subrange(0, m) =~= before);
                            assert(leaves[i as int] == after[m].leaf_hash);
                        }
                    }
                }
            }
            i = i + 1;
        }
        Ok(())
    }
}

} // verus!
