use vstd::prelude::*;
use crate::crypto::{derive_secret, derived_secret_of, public_key, public_key_of, valid_secret};
use crate::keys::{key_matches, xpub_matches, ExtendedKey, KeySource};
use crate::psbt::{
    bytes_equal, even_key, even_public_key, input_is_finalized, is_finalized, Bip32Entry,
    PsbtInput, SigningPsbt, TapKeyOrigin,
};
use crate::signer::{private_key_outcome, InputSigner, PrivateKey, SignerContext, SignerError};

verus! {

/// A master extended private key: its chain code and secret key.
#[derive(Debug, Clone, Copy, PartialEq, Eq)]
pub struct RootKey {
    pub chain_code: [u8; 32],
    pub secret: [u8; 32],
}

/// The key-origin records of an input in search order: the BIP32 derivations,
/// then the taproot origins with each x-only key taken with even parity.
pub open spec fn candidates(i: PsbtInput) -> Seq<(Seq<u8>, KeySource)> {
    i.bip32_derivation@.map_values(|e: Bip32Entry| (e.pubkey@, e.source))
        + i.tap_key_origins@.map_values(|o: TapKeyOrigin| (even_key(o.xonly@), o.source))
}

/// The first record whose key source matches the extended key.
pub open spec fn first_match(k: ExtendedKey, c: Seq<(Seq<u8>, KeySource)>) -> Option<(Seq<u8>, KeySource)>
    decreases c.len(),
{
    if c.len() == 0 {
        None
    } else if key_matches(k, c[0].1) {
        Some(c[0])
    } else {
        first_match(k, c.drop_first())
    }
}

proof fn lemma_first_match_step(k: ExtendedKey, c: Seq<(Seq<u8>, KeySource)>, i: int)
    requires
        0 <= i < c.len(),
    ensures
        key_matches(k, c[i].1) ==> first_match(k, c.subrange(i, c.len() as int)) == Some(c[i]),
        !key_matches(k, c[i].1) ==> first_match(k, c.subrange(i, c.len() as int)) == first_match(k, c.subrange(i + 1, c.len() as int)),
{
    assert(c.subrange(i, c.len() as int).drop_first() =~= c.subrange(i + 1, c.len() as int));
}

/// Finds the first key-origin record of the input that matches `xpub`: the
/// public key recorded there and its key source.
pub fn find_match<'a>(xpub: &ExtendedKey, input: &'a PsbtInput) -> (r: Option<([u8; 33], &'a KeySource)>)
    ensures
        r.is_none() == first_match(*xpub, candidates(*input)).is_none(),
        r.is_some() ==> r.unwrap().0@ == first_match(*xpub, candidates(*input)).unwrap().0
            && *r.unwrap().1 == first_match(*xpub, candidates(*input)).unwrap().1,
{
    let ghost c = candidates(*input);
    let b = input.bip32_derivation.len();
    let t = input.tap_key_origins.len();
    assert(c.subrange(0, c.len() as int) =~= c);
    let mut i: usize = 0;
    while i < b
        invariant
            c == candidates(*input),
            b == input.bip32_derivation@.len(),
            t == input.tap_key_origins@.len(),
            c.len() == b + t,
            i <= b,
            first_match(*xpub, c) == first_match(*xpub, c.subrange(i as int, c.len() as int)),
        decreases b - i,
    {
        let e = &input.bip32_derivation[i];
        proof {
            lemma_first_match_step(*xpub, c, i as int);
            assert(c[i as int] == (e.pubkey@, e.source));
        }
        if xpub_matches(xpub, &e.source).is_some() {
            return Some((e.pubkey, &e.source));
        }
        i = i + 1;
    }
    let mut j: usize = 0;
    while j < t
        invariant
            c == candidates(*input),
            b == input.bip32_derivation@.len(),
            t == input.tap_key_origins@.len(),
            c.len() == b + t,
            j <= t,
            first_match(*xpub, c) == first_match(*xpub, c.subrange(b + j, c.len() as int)),
        decreases t - j,
    {
        let o = &input.tap_key_origins[j];
        proof {
            lemma_first_match_step(*xpub, c, b + j);
            assert(c[b + j] == (even_key(o.xonly@), o.source));
        }
        if xpub_matches(xpub, &o.source).is_some() {
            return Some((even_public_key(&o.xonly), &o.source));
        }
        j = j + 1;
    }
    None
}

/// What signing input `idx` with an extended key and its master private key
/// does to the PSBT.
pub open spec fn derived_outcome(k: ExtendedKey, root: RootKey, old: SigningPsbt, new: SigningPsbt, idx: int, ctx: SignerContext, r: Result<(), SignerError>) -> bool {
    if !(0 <= idx < old.inputs.len()) {
        r matches Err(SignerError::InputIndexOutOfRange) && new == old
    } else if is_finalized(old.inputs@[idx]) {
        r is Ok && new == old
    } else {
        match first_match(k, candidates(old.inputs@[idx])) {
            None => r is Ok && new == old,
            Some((pk, src)) => {
                let s = derived_secret_of(root.chain_code@, root.secret@, src.path@);
                if !valid_secret(root.secret@) || src.path@.len() > 255 || public_key_of(s) != pk {
                    r matches Err(SignerError::InvalidKey) && new == old
                } else {
                    valid_secret(s) && private_key_outcome(s, old, new, idx, ctx, r)
                }
            },
        }
    }
}

/// An extended public key with the master private key it derives from.
#[derive(Debug, Clone, PartialEq, Eq)]
pub struct DerivedSigner {
    pub key: ExtendedKey,
    pub xpriv: RootKey,
}

impl DerivedSigner {
    /// Signs input `input_index` with the child key that the first matching
    /// key-origin record asks for; no match is no error. A derived key whose
    /// public key differs from the recorded one fails with `InvalidKey`.
    pub fn sign_input(&self, psbt: &mut SigningPsbt, input_index: usize, context: SignerContext) -> (r: Result<(), SignerError>)
        ensures
            derived_outcome(self.key, self.xpriv, *old(psbt), *final(psbt), input_index as int, context, r),
    {
        if input_index >= psbt.inputs.len() {
            return Err(SignerError::InputIndexOutOfRange);
        }
        if input_is_finalized(&psbt.inputs[input_index]) {
            return Ok(());
        }
        let (recorded, derived) = match find_match(&self.key, &psbt.inputs[input_index]) {
            None => {
                return Ok(());
            },
            Some((pk, src)) => (pk, derive_secret(&self.xpriv.chain_code, &self.xpriv.secret, &src.path)),
        };
        let secret = match derived {
            Some(s) => s,
            None => {
                return Err(SignerError::InvalidKey);
            },
        };
        match public_key(&secret) {
            Some(computed) => {
                if !bytes_equal(computed.as_slice(), recorded.as_slice()) {
                    return Err(SignerError::InvalidKey);
                }
            },
            None => {
                return Err(SignerError::InvalidKey);
            },
        }
        let key = PrivateKey { secret };
        key.sign_input(psbt, input_index, context)
    }
}

impl InputSigner for DerivedSigner {
    fn sign_input(&self, psbt: &mut SigningPsbt, input_index: usize, context: SignerContext) -> Result<(), SignerError> {
        DerivedSigner::sign_input(self, psbt, input_index, context)
    }
}

} // verus!
