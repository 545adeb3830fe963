use vstd::prelude::*;
use crate::derived::{derived_outcome, DerivedSigner, RootKey};
use crate::keys::ExtendedKey;
use crate::psbt::SigningPsbt;
use crate::signer::{InputSigner, SignerContext, SignerError};

verus! {

/// Whether `states` and `rs` record the first `n` signers of `keys` applied in
/// turn to input `idx`: signer `j` takes `states[j]` to `states[j + 1]` with
/// result `rs[j]`, and every step but the last succeeded.
pub open spec fn is_run(keys: Seq<DerivedSigner>, n: int, states: Seq<SigningPsbt>, rs: Seq<Result<(), SignerError>>, idx: int, ctx: SignerContext) -> bool {
    &&& 0 <= n <= keys.len()
    &&& states.len() == n + 1
    &&& rs.len() == n
    &&& forall|j: int| 0 <= j < n ==> #[trigger] derived_outcome(keys[j].key, keys[j].xpriv, states[j], states[j + 1], idx, ctx, rs[j])
    &&& forall|j: int| 0 <= j < n - 1 ==> (#[trigger] rs[j]) is Ok
}

/// What applying the signers of `keys` in order to input `idx` does: the run
/// goes on while each signer succeeds and stops at the first error, which is
/// the result.
pub open spec fn aggregate_outcome(keys: Seq<DerivedSigner>, old: SigningPsbt, new: SigningPsbt, idx: int, ctx: SignerContext, r: Result<(), SignerError>) -> bool {
    exists|n: int, states: Seq<SigningPsbt>, rs: Seq<Result<(), SignerError>>|
        #[trigger] is_run(keys, n, states, rs, idx, ctx) && states[0] == old && states[n] == new
            && (r is Ok <==> (n == keys.len() && (n == 0 || rs[n - 1] is Ok)))
            && (r is Err ==> n > 0 && r == rs[n - 1])
}

/// The signing material of one session: signers applied in insertion order.
#[derive(Debug)]
pub struct TransactionSigner {
    priv_keys: Vec<DerivedSigner>,
}

impl View for TransactionSigner {
    type V = Seq<DerivedSigner>;

    closed spec fn view(&self) -> Seq<DerivedSigner> {
        self.priv_keys@
    }
}

impl TransactionSigner {
    /// A signer with no keys.
    pub fn new() -> (r: Self)
        ensures
            r@ == Seq::<DerivedSigner>::empty(),
    {
        TransactionSigner { priv_keys: Vec::new() }
    }

    /// Appends an extended key and its master private key.
    pub fn insert(&mut self, key: ExtendedKey, xpriv: RootKey)
        ensures
            final(self)@ == old(self)@.push(DerivedSigner { key, xpriv }),
    {
        self.priv_keys.push(DerivedSigner { key, xpriv });
    }

    /// The keys of `a` followed by those of `b`.
    pub fn merge(a: Self, b: Self) -> (r: Self)
        ensures
            r@ == a@ + b@,
    {
        let mut priv_keys = a.priv_keys;
        let mut rest = b.priv_keys;
        priv_keys.append(&mut rest);
        TransactionSigner { priv_keys }
    }

    /// Applies each signer in order to input `input_index`, stopping at the
    /// first error and returning it.
    pub fn sign_input(&self, psbt: &mut SigningPsbt, input_index: usize, context: SignerContext) -> (r: Result<(), SignerError>)
        ensures
            aggregate_outcome(self@, *old(psbt), *final(psbt), input_index as int, context, r),
    {
        let ghost start = *psbt;
        let ghost mut states: Seq<SigningPsbt> = seq![*psbt];
        let ghost mut rs: Seq<Result<(), SignerError>> = Seq::empty();
        let mut done: Result<(), SignerError> = Ok(());
        let mut i: usize = 0;
        while i < self.priv_keys.len()
            invariant
                i <= self.priv_keys@.len(),
                start == *old(psbt),
                done is Ok,
                is_run(self.priv_keys@, i as int, states, rs, input_index as int, context),
                states[0] == start,
                states[i as int] == *psbt,
                forall|j: int| 0 <= j < i ==> (#[trigger] rs[j]) is Ok,
            decreases self.priv_keys@.len() - i,
        {
            let ghost mid = *psbt;
            let res = self.priv_keys[i].sign_input(psbt, input_index, context);
            proof {
                let keys = self.priv_keys@;
                let states2 = states.push(*psbt);
                let rs2 = rs.push(res);
                assert forall|j: int| 0 <= j < i + 1 implies #[trigger] derived_outcome(keys[j].key, keys[j].xpriv, states2[j], states2[j + 1], input_index as int, context, rs2[j]) by {
                    if j < i {
                        assert(states2[j] == states[j]);
                        assert(states2[j + 1] == states[j + 1]);
                        assert(rs2[j] == rs[j]);
                    }
                }
                assert forall|j: int| 0 <= j < i implies (#[trigger] rs2[j]) is Ok by {
                    assert(rs2[j] == rs[j]);
                }
                assert(is_run(keys, i + 1, states2, rs2, input_index as int, context));
                states = states2;
                rs = rs2;
            }
            if res.is_err() {
                return res;
            }
            done = res;
            i = i + 1;
        }
        done
    }
}

impl InputSigner for TransactionSigner {
    fn sign_input(&self, psbt: &mut SigningPsbt, input_index: usize, context: SignerContext) -> Result<(), SignerError> {
        TransactionSigner::sign_input(self, psbt, input_index, context)
    }
}

} // verus!
