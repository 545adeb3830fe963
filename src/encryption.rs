use vstd::prelude::*;
use crate::crypto::{public_key, public_key_of, valid_secret, sha256, sha256_of, shared_secret, shared_secret_of};

verus! {

/// Diffie-Hellman over secp256k1 for the secure channel. A public key travels
/// in 64 bytes: the 33-byte compressed key, then zeros.
pub struct SecpDH;

/// A compressed public key padded with zeros to 64 bytes.
pub open spec fn padded_key(pk: Seq<u8>) -> Seq<u8> {
    pk + Seq::new((64 - pk.len()) as nat, |i: int| 0u8)
}

impl SecpDH {
    pub fn name() -> (r: &'static str)
        ensures
            r@ == "Secp256k1 Diffie-Hellman"@,
    {
        "Secp256k1 Diffie-Hellman"
    }

    /// The padded public key of a secret key; `None` for bytes that are no
    /// valid secret key.
    pub fn pubkey(seckey: &[u8; 32]) -> (r: Option<[u8; 64]>)
        ensures
            r.is_some() == valid_secret(seckey@),
            r.is_some() ==> r.unwrap()@ == padded_key(public_key_of(seckey@)),
    {
        let pk = match public_key(seckey) {
            Some(pk) => pk,
            None => {
                return None;
            },
        };
        let mut out: [u8; 64] = [0u8; 64];
        let mut i: usize = 0;
        while i < 33
            invariant
                i <= 33,
                out@.len() == 64,
                forall|j: int| 0 <= j < i ==> out@[j] == pk@[j],
                forall|j: int| 33 <= j < 64 ==> out@[j] == 0u8,
            decreases 33 - i,
        {
            out.set(i, pk[i]);
            i = i + 1;
        }
        assert(out@ =~= padded_key(pk@));
        Some(out)
    }

    /// The shared secret of a secret key and the compressed key in the first 33
    /// bytes of a padded public key; `Err` where either does not parse.
    pub fn dh(seckey: &[u8; 32], pubkey: &[u8; 64]) -> (r: Result<[u8; 32], ()>)
        ensures
            !valid_secret(seckey@) ==> r is Err,
            r is Ok ==> r->Ok_0@ == shared_secret_of(seckey@, pubkey@.subrange(0, 33)),
    {
        let mut compressed: [u8; 33] = [0u8; 33];
        let mut i: usize = 0;
        while i < 33
            invariant
                i <= 33,
                compressed@.len() == 33,
                forall|j: int| 0 <= j < i ==> compressed@[j] == pubkey@[j],
            decreases 33 - i,
        {
            compressed.set(i, pubkey[i]);
            i = i + 1;
        }
        assert(compressed@ =~= pubkey@.subrange(0, 33));
        match shared_secret(seckey, &compressed) {
            Some(s) => Ok(s),
            None => Err(()),
        }
    }
}

/// SHA-256 for the secure channel: collects its input and hashes all of it on
/// request.
pub struct BitcoinHashesSha256 {
    data: Vec<u8>,
}

impl View for BitcoinHashesSha256 {
    type V = Seq<u8>;

    closed spec fn view(&self) -> Seq<u8> {
        self.data@
    }
}

impl BitcoinHashesSha256 {
    /// A hasher that has seen nothing.
    pub fn new() -> (r: Self)
        ensures
            r@ == Seq::<u8>::empty(),
    {
        BitcoinHashesSha256 { data: Vec::new() }
    }

    pub fn name() -> (r: &'static str)
        ensures
            r@ == "bitcoin-hashes SHA256"@,
    {
        "bitcoin-hashes SHA256"
    }

    /// Feeds more bytes.
    pub fn input(&mut self, data: &[u8])
        ensures
            final(self)@ == old(self)@ + data@,
    {
        let ghost start = self.data@;
        let mut i: usize = 0;
        while i < data.len()
            invariant
                i <= data@.len(),
                self.data@ == start + data@.subrange(0, i as int),
            decreases data@.len() - i,
        {
            self.data.push(data[i]);
            i = i + 1;
            assert(self.data@ =~= start + data@.subrange(0, i as int));
        }
        assert(data@.subrange(0, data@.len() as int) =~= data@);
    }

    /// The digest of everything fed so far.
    pub fn result(&mut self) -> (r: [u8; 32])
        ensures
            r@ == sha256_of(old(self)@),
            final(self)@ == old(self)@,
    {
        sha256(self.data.as_slice())
    }
}

} // verus!
