use vstd::prelude::*;
use crate::aggregate::{aggregate_outcome, is_run};
use crate::crypto::{
    derived_secret_of, ecdsa_sighash_of, ecdsa_signature_of, key_path_signature_of, opt_view, public_key_of,
    spend_lookup_safe, valid_secret,
};
use crate::derived::{candidates, derived_outcome, first_match, DerivedSigner, RootKey};
use crate::keys::ExtendedKey;
use crate::psbt::{is_finalized, xonly_of, SigningPsbt};
use crate::sighash::{paired_len, prevout_at, prevouts_available, tap_digest, tap_digest_ok, tap_sighash_value};
use crate::signer::{
    has_partial_sig, input_wf, leaves_of, partial_sigs_distinct, psbt_wf, new_script_sig, one_partial_sig, signs_key_path, tap_sig_due, private_key_outcome, script_sigs_distinct,
    SignerContext, SignerError,
};

verus! {

/// Signing a finalised input with a private key leaves the PSBT as it was and
/// succeeds.
pub proof fn lemma_finalized_private_key(secret: Seq<u8>, old: SigningPsbt, new: SigningPsbt, idx: int, ctx: SignerContext, r: Result<(), SignerError>)
    requires
        private_key_outcome(secret, old, new, idx, ctx, r),
        0 <= idx < old.inputs.len(),
        idx < old.prevouts.len(),
        is_finalized(old.inputs@[idx]),
    ensures
        new == old,
        r is Ok,
{
}

/// Signing a finalised input with an extended key leaves the PSBT as it was and
/// succeeds.
pub proof fn lemma_finalized_derived(k: ExtendedKey, root: RootKey, old: SigningPsbt, new: SigningPsbt, idx: int, ctx: SignerContext, r: Result<(), SignerError>)
    requires
        derived_outcome(k, root, old, new, idx, ctx, r),
        0 <= idx < old.inputs.len(),
        is_finalized(old.inputs@[idx]),
    ensures
        new == old,
        r is Ok,
{
}

/// Signing a finalised input with any set of keys leaves the PSBT as it was and
/// succeeds.
pub proof fn lemma_finalized_aggregate(keys: Seq<DerivedSigner>, old: SigningPsbt, new: SigningPsbt, idx: int, ctx: SignerContext, r: Result<(), SignerError>)
    requires
        aggregate_outcome(keys, old, new, idx, ctx, r),
        0 <= idx < old.inputs.len(),
        is_finalized(old.inputs@[idx]),
    ensures
        new == old,
        r is Ok,
{
    let (n, states, rs) = choose|n: int, states: Seq<SigningPsbt>, rs: Seq<Result<(), SignerError>>|
        #[trigger] is_run(keys, n, states, rs, idx, ctx) && states[0] == old && states[n] == new
            && (r is Ok <==> (n == keys.len() && (n == 0 || rs[n - 1] is Ok)))
            && (r is Err ==> n > 0 && r == rs[n - 1]);
    lemma_run_stays(keys, n, states, rs, idx, ctx, old, 0);
    if n > 0 {
        assert(rs[n - 1] is Ok);
    }
}

proof fn lemma_run_stays(keys: Seq<DerivedSigner>, n: int, states: Seq<SigningPsbt>, rs: Seq<Result<(), SignerError>>, idx: int, ctx: SignerContext, old: SigningPsbt, j: int)
    requires
        0 <= j <= n,
        is_run(keys, n, states, rs, idx, ctx),
        0 <= idx < old.inputs.len(),
        is_finalized(old.inputs@[idx]),
        states[j] == old,
    ensures
        states[n] == old,
        forall|m: int| j <= m < n ==> (#[trigger] rs[m]) is Ok,
    decreases n - j,
{
    if j < n {
        assert(derived_outcome(keys[j].key, keys[j].xpriv, states[j], states[j + 1], idx, ctx, rs[j]));
        lemma_run_stays(keys, n, states, rs, idx, ctx, old, j + 1);
    }
}

/// Signing a well-formed legacy or segwit v0 input leaves exactly one partial
/// signature for the key when it succeeds, whether or not one was there
/// already (so a second signing changes nothing more).
pub proof fn lemma_one_partial_sig(secret: Seq<u8>, old: SigningPsbt, new: SigningPsbt, idx: int, ctx: SignerContext, r: Result<(), SignerError>)
    requires
        private_key_outcome(secret, old, new, idx, ctx, r),
        ctx == SignerContext::Legacy || ctx == SignerContext::Segwitv0,
        0 <= idx < old.inputs.len(),
        idx < old.prevouts.len(),
        !is_finalized(old.inputs@[idx]),
        r is Ok,
        input_wf(old.inputs@[idx]),
    ensures
        one_partial_sig(new.inputs@[idx].partial_sigs@, public_key_of(secret)),
{
    let pk = public_key_of(secret);
    let s0 = old.inputs@[idx].partial_sigs@;
    let s1 = new.inputs@[idx].partial_sigs@;
    if has_partial_sig(s0, pk) {
        let i = choose|i: int| 0 <= i < s0.len() && (#[trigger] s0[i]).pubkey@ == pk;
        assert forall|j: int| 0 <= j < s0.len() && j != i implies (#[trigger] s0[j]).pubkey@ != pk by {
            if j < i {
                assert(s0[j].pubkey@ != s0[i].pubkey@);
            } else {
                assert(s0[i].pubkey@ != s0[j].pubkey@);
            }
        }
        assert(s1 == s0);
    } else {
        let last = s1.len() - 1;
        assert forall|j: int| 0 <= j < s1.len() && j != last implies (#[trigger] s1[j]).pubkey@ != pk by {
            assert(s1[j] == s1.drop_last()[j]);
            assert(s0[j] == s1[j]);
        }
        assert(s1[last].pubkey@ == pk);
    }
}

/// Signing with a private key keeps the partial signatures keyed by distinct
/// public keys.
pub proof fn lemma_partial_sigs_distinct(secret: Seq<u8>, old: SigningPsbt, new: SigningPsbt, idx: int, ctx: SignerContext, r: Result<(), SignerError>)
    requires
        private_key_outcome(secret, old, new, idx, ctx, r),
        0 <= idx < old.inputs.len(),
        partial_sigs_distinct(old.inputs@[idx].partial_sigs@),
    ensures
        partial_sigs_distinct(new.inputs@[idx].partial_sigs@),
{
    let s0 = old.inputs@[idx].partial_sigs@;
    let s1 = new.inputs@[idx].partial_sigs@;
    if s1.len() == s0.len() + 1 && s1.drop_last() == s0 && !has_partial_sig(s0, public_key_of(secret))
        && s1.last().pubkey@ == public_key_of(secret) {
        assert forall|i: int, j: int| 0 <= i < j < s1.len() implies (#[trigger] s1[i]).pubkey@ != (#[trigger] s1[j]).pubkey@ by {
            assert(s1[i] == s1.drop_last()[i]);
            if j < s1.len() - 1 {
                assert(s1[j] == s1.drop_last()[j]);
            } else {
                assert(s0[i] == s1[i]);
            }
        }
    }
}

/// A key whose root derives, at the path a matched record gives, a public key
/// other than the recorded one is refused with `InvalidKey` and adds nothing.
pub proof fn lemma_tamper_rejected(k: ExtendedKey, root: RootKey, old: SigningPsbt, new: SigningPsbt, idx: int, ctx: SignerContext, r: Result<(), SignerError>)
    requires
        derived_outcome(k, root, old, new, idx, ctx, r),
        0 <= idx < old.inputs.len(),
        !is_finalized(old.inputs@[idx]),
        first_match(k, candidates(old.inputs@[idx])).is_some(),
        public_key_of(derived_secret_of(root.chain_code@, root.secret@, first_match(k, candidates(old.inputs@[idx])).unwrap().1.path@))
            != first_match(k, candidates(old.inputs@[idx])).unwrap().0,
    ensures
        r matches Err(SignerError::InvalidKey),
        new == old,
{
}

/// An aggregate whose first key meets a record that claims a public key its
/// root does not derive stops with `InvalidKey` and adds nothing.
pub proof fn lemma_tamper_rejected_aggregate(keys: Seq<DerivedSigner>, old: SigningPsbt, new: SigningPsbt, idx: int, ctx: SignerContext, r: Result<(), SignerError>)
    requires
        aggregate_outcome(keys, old, new, idx, ctx, r),
        keys.len() > 0,
        0 <= idx < old.inputs.len(),
        !is_finalized(old.inputs@[idx]),
        first_match(keys[0].key, candidates(old.inputs@[idx])).is_some(),
        public_key_of(derived_secret_of(keys[0].xpriv.chain_code@, keys[0].xpriv.secret@, first_match(keys[0].key, candidates(old.inputs@[idx])).unwrap().1.path@))
            != first_match(keys[0].key, candidates(old.inputs@[idx])).unwrap().0,
    ensures
        r matches Err(SignerError::InvalidKey),
        new == old,
{
    let (n, states, rs) = choose|n: int, states: Seq<SigningPsbt>, rs: Seq<Result<(), SignerError>>|
        #[trigger] is_run(keys, n, states, rs, idx, ctx) && states[0] == old && states[n] == new
            && (r is Ok <==> (n == keys.len() && (n == 0 || rs[n - 1] is Ok)))
            && (r is Err ==> n > 0 && r == rs[n - 1]);
    assert(n > 0);
    let j: int = 0;
    assert(derived_outcome(keys[j].key, keys[j].xpriv, states[j], states[j + 1], idx, ctx, rs[j]));
    if n > 1 {
        assert(rs[0] is Ok);
    }
}

/// In any run of an aggregate whose keys before `j` succeed, a key `j` that
/// meets a record claiming a public key its root does not derive is reached,
/// ends the run with `InvalidKey`, adds nothing, and that error is the
/// aggregate's result; later keys are not applied.
pub proof fn lemma_tamper_stops_run(keys: Seq<DerivedSigner>, n: int, states: Seq<SigningPsbt>, rs: Seq<Result<(), SignerError>>, old: SigningPsbt, new: SigningPsbt, idx: int, ctx: SignerContext, r: Result<(), SignerError>, j: int)
    requires
        is_run(keys, n, states, rs, idx, ctx),
        states[0] == old,
        states[n] == new,
        r is Ok <==> (n == keys.len() && (n == 0 || rs[n - 1] is Ok)),
        r is Err ==> n > 0 && r == rs[n - 1],
        0 <= j < keys.len(),
        forall|m: int| 0 <= m < j && m < n ==> (#[trigger] rs[m]) is Ok,
        j <= n ==> 0 <= idx < states[j].inputs.len(),
        j <= n ==> !is_finalized(states[j].inputs@[idx]),
        j <= n ==> first_match(keys[j].key, candidates(states[j].inputs@[idx])).is_some(),
        j <= n ==> public_key_of(derived_secret_of(keys[j].xpriv.chain_code@, keys[j].xpriv.secret@, first_match(keys[j].key, candidates(states[j].inputs@[idx])).unwrap().1.path@))
            != first_match(keys[j].key, candidates(states[j].inputs@[idx])).unwrap().0,
    ensures
        n == j + 1,
        r matches Err(SignerError::InvalidKey),
        new == states[j],
{
    if n <= j {
        if n > 0 {
            assert(rs[n - 1] is Ok);
        }
    }
    assert(j < n);
    assert(derived_outcome(keys[j].key, keys[j].xpriv, states[j], states[j + 1], idx, ctx, rs[j]));
    if j < n - 1 {
        assert(rs[j] is Ok);
    }
}

/// With an extended key whose root derives the recorded key of the first
/// matching record, signing a legacy or segwit v0 input that has the key's
/// digest adds the partial signature over that digest under the derived key.
pub proof fn lemma_derived_ecdsa_signs(k: ExtendedKey, root: RootKey, old: SigningPsbt, new: SigningPsbt, idx: int, ctx: SignerContext, r: Result<(), SignerError>)
    requires
        derived_outcome(k, root, old, new, idx, ctx, r),
        ctx == SignerContext::Legacy || ctx == SignerContext::Segwitv0,
        0 <= idx < old.inputs.len(),
        idx < old.prevouts.len(),
        !is_finalized(old.inputs@[idx]),
        valid_secret(root.secret@),
        first_match(k, candidates(old.inputs@[idx])).is_some(),
        first_match(k, candidates(old.inputs@[idx])).unwrap().1.path@.len() <= 255,
        public_key_of(derived_secret_of(root.chain_code@, root.secret@, first_match(k, candidates(old.inputs@[idx])).unwrap().1.path@))
            == first_match(k, candidates(old.inputs@[idx])).unwrap().0,
        !has_partial_sig(old.inputs@[idx].partial_sigs@, first_match(k, candidates(old.inputs@[idx])).unwrap().0),
        spend_lookup_safe(old.raw@, idx),
        ecdsa_sighash_of(old.raw@, idx).is_some(),
    ensures
        r is Ok,
        new.inputs@[idx].partial_sigs@.drop_last() == old.inputs@[idx].partial_sigs@,
        new.inputs@[idx].partial_sigs@.last().pubkey@ == first_match(k, candidates(old.inputs@[idx])).unwrap().0,
        new.inputs@[idx].partial_sigs@.last().signature@ == ecdsa_signature_of(
            derived_secret_of(root.chain_code@, root.secret@, first_match(k, candidates(old.inputs@[idx])).unwrap().1.path@),
            ecdsa_sighash_of(old.raw@, idx).unwrap().0,
        ),
        new.inputs@[idx].partial_sigs@.last().sighash_type == ecdsa_sighash_of(old.raw@, idx).unwrap().1,
{
}

/// With an extended key whose root derives the internal key of a taproot
/// input, signing sets the key-path signature over the key-path digest under
/// the tweaked derived key, once the digests it needs exist.
pub proof fn lemma_derived_key_path_signs(k: ExtendedKey, root: RootKey, old: SigningPsbt, new: SigningPsbt, idx: int, r: Result<(), SignerError>)
    requires
        derived_outcome(k, root, old, new, idx, SignerContext::Tap { is_internal_key: true }, r),
        0 <= idx < old.inputs.len(),
        idx < old.prevouts.len(),
        !is_finalized(old.inputs@[idx]),
        valid_secret(root.secret@),
        first_match(k, candidates(old.inputs@[idx])).is_some(),
        first_match(k, candidates(old.inputs@[idx])).unwrap().1.path@.len() <= 255,
        public_key_of(derived_secret_of(root.chain_code@, root.secret@, first_match(k, candidates(old.inputs@[idx])).unwrap().1.path@))
            == first_match(k, candidates(old.inputs@[idx])).unwrap().0,
        signs_key_path(derived_secret_of(root.chain_code@, root.secret@, first_match(k, candidates(old.inputs@[idx])).unwrap().1.path@), true, old.inputs@[idx]),
        tap_digest_ok(old, idx, None),
        forall|l: int| 0 <= l < leaves_of(old.inputs@[idx].tap_key_origins@, xonly_of(first_match(k, candidates(old.inputs@[idx])).unwrap().0)).len()
            ==> tap_digest_ok(old, idx, Some((#[trigger] leaves_of(old.inputs@[idx].tap_key_origins@, xonly_of(first_match(k, candidates(old.inputs@[idx])).unwrap().0))[l])@)),
    ensures
        r is Ok,
        new.inputs@[idx].tap_key_sig.is_some(),
        new.inputs@[idx].tap_key_sig.unwrap().signature@ == key_path_signature_of(
            derived_secret_of(root.chain_code@, root.secret@, first_match(k, candidates(old.inputs@[idx])).unwrap().1.path@),
            opt_view(old.inputs@[idx].tap_merkle_root),
            tap_digest(old, idx, None).unwrap(),
        ),
        new.inputs@[idx].tap_key_sig.unwrap().sighash_type as u32 == tap_sighash_value(old.inputs@[idx].sighash_type),
{
}

/// With sighash byte 0x81 the taproot digest of an input needs only its own
/// spent output: it is computed whenever that output is known and the digest
/// routine yields a digest, whatever the other inputs hold.
pub proof fn lemma_anyone_can_pay_digest(p: SigningPsbt, idx: int, leaf: Option<Seq<u8>>)
    requires
        0 <= idx < p.inputs.len(),
        idx < p.prevouts.len(),
        p.inputs@[idx].sighash_type == Some(0x81u32),
        prevout_at(p, idx).is_some(),
        tap_digest(p, idx, leaf).is_some(),
    ensures
        tap_digest_ok(p, idx, leaf),
{
    assert((0x81u32 & 0x80u32) != 0u32) by (bit_vector);
}

/// Taproot signing keeps script-path signatures free of duplicate key and leaf
/// pairs, and each one it adds is for the signing key and one of its recorded
/// leaves.
pub proof fn lemma_script_sigs_distinct(secret: Seq<u8>, old: SigningPsbt, new: SigningPsbt, idx: int, is_internal_key: bool, r: Result<(), SignerError>)
    requires
        private_key_outcome(secret, old, new, idx, SignerContext::Tap { is_internal_key }, r),
        0 <= idx < old.inputs.len(),
        idx < old.prevouts.len(),
        script_sigs_distinct(old.inputs@[idx].tap_script_sigs@),
    ensures
        script_sigs_distinct(new.inputs@[idx].tap_script_sigs@),
        forall|m: int| old.inputs@[idx].tap_script_sigs@.len() <= m < new.inputs@[idx].tap_script_sigs@.len() ==>
            (#[trigger] new.inputs@[idx].tap_script_sigs@[m]).xonly@ == xonly_of(public_key_of(secret))
            && leaves_of(old.inputs@[idx].tap_key_origins@, xonly_of(public_key_of(secret))).contains(new.inputs@[idx].tap_script_sigs@[m].leaf_hash),
{
    if is_finalized(old.inputs@[idx]) || !valid_secret(secret) {
        return;
    }
    let x = xonly_of(public_key_of(secret));
    let s0 = old.inputs@[idx].tap_script_sigs@;
    let s1 = new.inputs@[idx].tap_script_sigs@;
    let n = s0.len();
    assert forall|i: int, j: int| 0 <= i < j < s1.len() implies !(#[trigger] s1[i].xonly@ == #[trigger] s1[j].xonly@ && s1[i].leaf_hash@ == s1[j].leaf_hash@) by {
        if j < n {
            assert(s1.subrange(0, n as int)[i] == s1[i]);
            assert(s1.subrange(0, n as int)[j] == s1[j]);
        } else {
            let pre = s1.subrange(0, j);
            assert(pre[i] == s1[i]);
            assert(new_script_sig(secret, old, idx, s1, j));
            if s1[i].xonly@ == s1[j].xonly@ && s1[i].leaf_hash@ == s1[j].leaf_hash@ {
                assert(s1[j].xonly@ == x);
                assert(exists|w: int| 0 <= w < pre.len() && (#[trigger] pre[w]).xonly@ == x && pre[w].leaf_hash@ == s1[j].leaf_hash@);
            }
        }
    }
    assert forall|m: int| n <= m < s1.len() implies (#[trigger] s1[m]).xonly@ == x && leaves_of(old.inputs@[idx].tap_key_origins@, x).contains(s1[m].leaf_hash) by {
        assert(new_script_sig(secret, old, idx, s1, m));
    }
}

/// Signing with a private key keeps every input well formed.
pub proof fn lemma_private_key_keeps_wf(secret: Seq<u8>, old: SigningPsbt, new: SigningPsbt, idx: int, ctx: SignerContext, r: Result<(), SignerError>)
    requires
        private_key_outcome(secret, old, new, idx, ctx, r),
        psbt_wf(old),
    ensures
        psbt_wf(new),
{
    if 0 <= idx < old.inputs.len() && idx < old.prevouts.len() {
        assert(input_wf(old.inputs@[idx]));
        lemma_partial_sigs_distinct(secret, old, new, idx, ctx, r);
        match ctx {
            SignerContext::Tap { is_internal_key } => {
                lemma_script_sigs_distinct(secret, old, new, idx, is_internal_key, r);
            },
            _ => {},
        }
        assert forall|j: int| 0 <= j < new.inputs@.len() implies #[trigger] input_wf(new.inputs@[j]) by {
            if j != idx {
                assert(new.inputs@[j] == old.inputs@[j]);
            }
        }
    }
}

/// Signing with an extended key keeps every input well formed.
pub proof fn lemma_derived_keeps_wf(k: ExtendedKey, root: RootKey, old: SigningPsbt, new: SigningPsbt, idx: int, ctx: SignerContext, r: Result<(), SignerError>)
    requires
        derived_outcome(k, root, old, new, idx, ctx, r),
        psbt_wf(old),
    ensures
        psbt_wf(new),
{
    if 0 <= idx < old.inputs.len() && !is_finalized(old.inputs@[idx]) {
        if let Some((pk, src)) = first_match(k, candidates(old.inputs@[idx])) {
            let s = derived_secret_of(root.chain_code@, root.secret@, src.path@);
            if valid_secret(root.secret@) && src.path@.len() <= 255 && public_key_of(s) == pk {
                lemma_private_key_keeps_wf(s, old, new, idx, ctx, r);
            }
        }
    }
}

proof fn lemma_run_keeps_wf(keys: Seq<DerivedSigner>, n: int, states: Seq<SigningPsbt>, rs: Seq<Result<(), SignerError>>, idx: int, ctx: SignerContext, j: int)
    requires
        0 <= j <= n,
        is_run(keys, n, states, rs, idx, ctx),
        psbt_wf(states[j]),
    ensures
        psbt_wf(states[n]),
    decreases n - j,
{
    if j < n {
        assert(derived_outcome(keys[j].key, keys[j].xpriv, states[j], states[j + 1], idx, ctx, rs[j]));
        lemma_derived_keeps_wf(keys[j].key, keys[j].xpriv, states[j], states[j + 1], idx, ctx, rs[j]);
        lemma_run_keeps_wf(keys, n, states, rs, idx, ctx, j + 1);
    }
}

/// Signing with any set of keys keeps every input well formed.
pub proof fn lemma_aggregate_keeps_wf(keys: Seq<DerivedSigner>, old: SigningPsbt, new: SigningPsbt, idx: int, ctx: SignerContext, r: Result<(), SignerError>)
    requires
        aggregate_outcome(keys, old, new, idx, ctx, r),
        psbt_wf(old),
    ensures
        psbt_wf(new),
{
    let (n, states, rs) = choose|n: int, states: Seq<SigningPsbt>, rs: Seq<Result<(), SignerError>>|
        #[trigger] is_run(keys, n, states, rs, idx, ctx) && states[0] == old && states[n] == new
            && (r is Ok <==> (n == keys.len() && (n == 0 || rs[n - 1] is Ok)))
            && (r is Err ==> n > 0 && r == rs[n - 1]);
    lemma_run_keeps_wf(keys, n, states, rs, idx, ctx, 0);
}

/// Under ANYONECANPAY a taproot digest needs only the signed input's own spent
/// output; otherwise one unknown spent output of any input is enough to refuse.
pub proof fn lemma_anyone_can_pay_scope(p: SigningPsbt, idx: int, other: int)
    requires
        0 <= idx < paired_len(p),
        prevout_at(p, idx).is_some(),
        0 <= other < paired_len(p),
        prevout_at(p, other).is_none(),
    ensures
        prevouts_available(p, idx, true),
        !prevouts_available(p, idx, false),
{
}

/// A key-path signature with sighash byte 0x81 (ALL|ANYONECANPAY) is made as
/// soon as the signed input's own spent output is known and its digest exists,
/// whatever the other inputs hold; it carries that sighash byte.
pub proof fn lemma_anyone_can_pay_signs(secret: Seq<u8>, old: SigningPsbt, new: SigningPsbt, idx: int, r: Result<(), SignerError>)
    requires
        private_key_outcome(secret, old, new, idx, SignerContext::Tap { is_internal_key: true }, r),
        0 <= idx < old.inputs.len(),
        idx < old.prevouts.len(),
        !is_finalized(old.inputs@[idx]),
        valid_secret(secret),
        signs_key_path(secret, true, old.inputs@[idx]),
        old.inputs@[idx].sighash_type == Some(0x81u32),
        prevout_at(old, idx).is_some(),
        tap_digest(old, idx, None).is_some(),
        forall|l: int| 0 <= l < leaves_of(old.inputs@[idx].tap_key_origins@, xonly_of(public_key_of(secret))).len()
            ==> tap_digest_ok(old, idx, Some((#[trigger] leaves_of(old.inputs@[idx].tap_key_origins@, xonly_of(public_key_of(secret)))[l])@)),
    ensures
        r is Ok,
        new.inputs@[idx].tap_key_sig.is_some(),
        new.inputs@[idx].tap_key_sig.unwrap().sighash_type == 0x81u8,
        new.inputs@[idx].tap_key_sig.unwrap().signature@ == key_path_signature_of(
            secret,
            opt_view(old.inputs@[idx].tap_merkle_root),
            tap_digest(old, idx, None).unwrap(),
        ),
{
    assert((0x81u32 & 0x80u32) != 0u32) by (bit_vector);
    assert(tap_digest_ok(old, idx, None));
}

/// With the default or ALL sighash byte, a taproot signature that is due is
/// refused with `MissingWitnessUtxo`, and nothing is written, as soon as one
/// input's spent output is unknown.
pub proof fn lemma_missing_prevout_refused(secret: Seq<u8>, old: SigningPsbt, new: SigningPsbt, idx: int, is_internal_key: bool, other: int, r: Result<(), SignerError>)
    requires
        private_key_outcome(secret, old, new, idx, SignerContext::Tap { is_internal_key }, r),
        0 <= idx < old.inputs.len(),
        idx < old.prevouts.len(),
        !is_finalized(old.inputs@[idx]),
        valid_secret(secret),
        tap_sig_due(secret, is_internal_key, old.inputs@[idx]),
        old.inputs@[idx].sighash_type == Some(0u32) || old.inputs@[idx].sighash_type == Some(1u32)
            || old.inputs@[idx].sighash_type.is_none(),
        0 <= other < paired_len(old),
        prevout_at(old, other).is_none(),
    ensures
        r matches Err(SignerError::MissingWitnessUtxo),
        new.inputs@ == old.inputs@,
{
    assert((0u32 & 0x80u32) == 0u32) by (bit_vector);
    assert((1u32 & 0x80u32) == 0u32) by (bit_vector);
    assert(!prevouts_available(old, idx, false));
    assert(new.inputs@[idx] == old.inputs@[idx]);
    assert(new.inputs@ =~= old.inputs@);
}

} // verus!
