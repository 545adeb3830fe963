use vstd::prelude::*;
use vstd::string::StringExecFns;
use crate::crypto::{
    opt_view, parses_as_psbt, tap_sighash_all, tap_sighash_all_of, tap_sighash_one, tap_sighash_one_of, txout_view,
    txid, txid_of, txouts_view, valid_tap_sighash,
};
use crate::psbt::{bytes_equal, OutPoint, PsbtInput, SigningPsbt, TxOut};
use crate::signer::SignerError;

verus! {

/// The spent output of an input: its `witness_utxo` if present, else the
/// referenced output of its `non_witness_utxo` when that transaction's id is the
/// one the input spends.
pub open spec fn resolved_prevout(input: PsbtInput, op: OutPoint) -> Option<TxOut> {
    match input.witness_utxo {
        Some(o) => Some(o),
        None => match input.non_witness_utxo {
            Some(tx) => if txid_of(tx.tx@) == Some(op.txid@) && (op.vout as int) < tx.output.len() {
                Some(tx.output@[op.vout as int])
            } else {
                None
            },
            None => None,
        },
    }
}

/// The number of inputs that both the PSBT and its unsigned transaction list.
pub open spec fn paired_len(p: SigningPsbt) -> int {
    if p.inputs.len() <= p.prevouts.len() {
        p.inputs.len() as int
    } else {
        p.prevouts.len() as int
    }
}

/// The spent output of input `j`.
pub open spec fn prevout_at(p: SigningPsbt, j: int) -> Option<TxOut> {
    resolved_prevout(p.inputs@[j], p.prevouts@[j])
}

/// Whether the spent outputs that a taproot digest commits to are known: the
/// signed input's own under ANYONECANPAY, else every input's.
pub open spec fn prevouts_available(p: SigningPsbt, idx: int, anyone_can_pay: bool) -> bool {
    if anyone_can_pay {
        prevout_at(p, idx).is_some()
    } else {
        forall|j: int| 0 <= j < paired_len(p) ==> #[trigger] prevout_at(p, j).is_some()
    }
}

/// The sighash byte in force: the recorded one, else the taproot default 0.
pub open spec fn tap_sighash_value(t: Option<u32>) -> u32 {
    match t {
        Some(v) => v,
        None => 0,
    }
}

/// Whether the recorded sighash type is one that taproot accepts.
pub open spec fn tap_sighash_ok(t: Option<u32>) -> bool {
    tap_sighash_value(t) <= 0xff && valid_tap_sighash(tap_sighash_value(t) as u8)
}

pub open spec fn is_anyone_can_pay(t: u32) -> bool {
    t & 0x80u32 != 0u32
}

/// The code separator position that script-path digests commit to: this
/// signer assumes scripts use no `OP_CODESEPARATOR`.
pub const NO_CODE_SEPARATOR: u32 = 0xFFFFFFFF;

/// The spent outputs of all inputs, as plain values.
pub open spec fn all_prevouts_view(p: SigningPsbt) -> Seq<(u64, Seq<u8>)> {
    Seq::new(paired_len(p) as nat, |j: int| txout_view(prevout_at(p, j).unwrap()))
}

/// The taproot digest that input `idx` signs (for the key path when `leaf` is
/// `None`, with no code separator in a leaf's script), where the sighash type
/// and spent outputs allow one.
pub open spec fn tap_digest(p: SigningPsbt, idx: int, leaf: Option<Seq<u8>>) -> Option<Seq<u8>> {
    let t = tap_sighash_value(p.inputs@[idx].sighash_type);
    if is_anyone_can_pay(t) {
        tap_sighash_one_of(p.raw@, idx, txout_view(prevout_at(p, idx).unwrap()), leaf, NO_CODE_SEPARATOR, t as u8)
    } else {
        tap_sighash_all_of(p.raw@, idx, all_prevouts_view(p), leaf, NO_CODE_SEPARATOR, t as u8)
    }
}

/// Whether the taproot digest of input `idx` can be computed.
pub open spec fn tap_digest_ok(p: SigningPsbt, idx: int, leaf: Option<Seq<u8>>) -> bool {
    &&& 0 <= idx < p.inputs.len()
    &&& idx < p.prevouts.len()
    &&& tap_sighash_ok(p.inputs@[idx].sighash_type)
    &&& prevouts_available(p, idx, is_anyone_can_pay(tap_sighash_value(p.inputs@[idx].sighash_type)))
    &&& tap_digest(p, idx, leaf).is_some()
}

/// The spent outputs handed to the taproot digest.
pub enum Prevouts<'a> {
    One(usize, &'a TxOut),
    All(Vec<&'a TxOut>),
}

/// Finds the spent output of an input.
pub fn resolve_prevout<'a>(input: &'a PsbtInput, op: &OutPoint) -> (r: Option<&'a TxOut>)
    ensures
        r.is_some() == resolved_prevout(*input, *op).is_some(),
        r.is_some() ==> *r.unwrap() == resolved_prevout(*input, *op).unwrap(),
{
    match &input.witness_utxo {
        Some(o) => Some(o),
        None => match &input.non_witness_utxo {
            Some(tx) => {
                let same = match txid(&tx.tx) {
                    Some(id) => bytes_equal(id.as_slice(), op.txid.as_slice()),
                    None => false,
                };
                if same && (op.vout as usize) < tx.output.len() {
                    Some(&tx.output[op.vout as usize])
                } else {
                    None
                }
            },
            None => None,
        },
    }
}

/// Gathers the spent outputs for a taproot digest of input `idx`: only its own
/// under ANYONECANPAY, else all of them; `MissingWitnessUtxo` where one that is
/// needed is unknown.
pub fn select_prevouts<'a>(psbt: &'a SigningPsbt, idx: usize, anyone_can_pay: bool) -> (r: Result<Prevouts<'a>, SignerError>)
    requires
        idx < psbt.inputs.len(),
        idx < psbt.prevouts.len(),
    ensures
        r.is_ok() == prevouts_available(*psbt, idx as int, anyone_can_pay),
        r.is_err() ==> r == Err::<Prevouts, SignerError>(SignerError::MissingWitnessUtxo),
        r matches Ok(Prevouts::One(i, o)) ==> anyone_can_pay && i == idx && *o == prevout_at(*psbt, idx as int).unwrap(),
        r matches Ok(Prevouts::All(v)) ==> !anyone_can_pay && v@.len() == paired_len(*psbt)
            && (forall|j: int| 0 <= j < v@.len() ==> *v@[j] == prevout_at(*psbt, j).unwrap())
            && txouts_view(v@) == all_prevouts_view(*psbt),
{
    if anyone_can_pay {
        match resolve_prevout(&psbt.inputs[idx], &psbt.prevouts[idx]) {
            Some(o) => Ok(Prevouts::One(idx, o)),
            None => Err(SignerError::MissingWitnessUtxo),
        }
    } else {
        let n: usize = if psbt.inputs.len() <= psbt.prevouts.len() {
            psbt.inputs.len()
        } else {
            psbt.prevouts.len()
        };
        let mut all: Vec<&'a TxOut> = Vec::new();
        let mut j: usize = 0;
        while j < n
            invariant
                !anyone_can_pay,
                n == paired_len(*psbt),
                n <= psbt.inputs.len(),
                n <= psbt.prevouts.len(),
                j <= n,
                all@.len() == j,
                forall|k: int| 0 <= k < j ==> #[trigger] prevout_at(*psbt, k).is_some(),
                forall|k: int| 0 <= k < j ==> *#[trigger] all@[k] == prevout_at(*psbt, k).unwrap(),
            decreases n - j,
        {
            match resolve_prevout(&psbt.inputs[j], &psbt.prevouts[j]) {
                Some(o) => {
                    all.push(o);
                    assert(*all@[j as int] == prevout_at(*psbt, j as int).unwrap());
                },
                None => {
                    assert(!prevout_at(*psbt, j as int).is_some());
                    return Err(SignerError::MissingWitnessUtxo);
                },
            }
            j = j + 1;
        }
        assert(forall|k: int| 0 <= k < paired_len(*psbt) ==> #[trigger] prevout_at(*psbt, k).is_some());
        assert(txouts_view(all@) =~= all_prevouts_view(*psbt));
        Ok(Prevouts::All(all))
    }
}

/// Computes the taproot digest of input `input_index` (for the key path when
/// `leaf_hash` is `None`, else for that leaf) and the sighash byte in force.
pub fn compute_tap_sighash(psbt: &SigningPsbt, input_index: usize, leaf_hash: Option<[u8; 32]>) -> (r: Result<([u8; 32], u8), SignerError>)
    ensures
        ({
            let idx = input_index as int;
            let in_range = idx < psbt.inputs.len() && idx < psbt.prevouts.len();
            let t = tap_sighash_value(psbt.inputs@[idx].sighash_type);
            &&& !in_range ==> r == Err::<([u8; 32], u8), SignerError>(SignerError::InputIndexOutOfRange)
            &&& in_range && !tap_sighash_ok(psbt.inputs@[idx].sighash_type) ==> r == Err::<([u8; 32], u8), SignerError>(SignerError::InvalidSighash)
            &&& in_range && tap_sighash_ok(psbt.inputs@[idx].sighash_type)
                && !prevouts_available(*psbt, idx, is_anyone_can_pay(t)) ==> r == Err::<([u8; 32], u8), SignerError>(SignerError::MissingWitnessUtxo)
            &&& in_range && tap_sighash_ok(psbt.inputs@[idx].sighash_type)
                && prevouts_available(*psbt, idx, is_anyone_can_pay(t)) ==> match r {
                    Ok((d, ty)) => ty as u32 == t && tap_digest(*psbt, idx, opt_view(leaf_hash)) == Some(d@),
                    Err(e) => tap_digest(*psbt, idx, opt_view(leaf_hash)).is_none()
                        && (parses_as_psbt(psbt.raw@) ==> e is SighashTaproot)
                        && (!parses_as_psbt(psbt.raw@) ==> e is External),
                }
            &&& (r is Ok <==> tap_digest_ok(*psbt, idx, opt_view(leaf_hash)))
        }),
{
    if input_index >= psbt.inputs.len() || input_index >= psbt.prevouts.len() {
        return Err(SignerError::InputIndexOutOfRange);
    }
    let t: u32 = match psbt.inputs[input_index].sighash_type {
        Some(v) => v,
        None => 0,
    };
    if t > 0xff {
        return Err(SignerError::InvalidSighash);
    }
    let ty: u8 = t as u8;
    if !(ty == 0x00 || ty == 0x01 || ty == 0x02 || ty == 0x03 || ty == 0x81 || ty == 0x82 || ty == 0x83) {
        return Err(SignerError::InvalidSighash);
    }
    let anyone_can_pay = t & 0x80 != 0;
    let prevouts = select_prevouts(psbt, input_index, anyone_can_pay)?;
    let digest = match prevouts {
        Prevouts::One(_, o) => tap_sighash_one(&psbt.raw, input_index, o, &leaf_hash, NO_CODE_SEPARATOR, ty),
        Prevouts::All(v) => tap_sighash_all(&psbt.raw, input_index, &v, &leaf_hash, NO_CODE_SEPARATOR, ty),
    };
    match digest {
        Some(Ok(d)) => Ok((d, ty)),
        Some(Err(e)) => Err(SignerError::SighashTaproot(e)),
        None => Err(SignerError::External(String::from_str("the PSBT does not parse"))),
    }
}

} // verus!
