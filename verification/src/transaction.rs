//! Transactions: syntactic acceptance into the pending pool, atomic
//! per-transaction execution against a scratch scope, and the per-block
//! outcome sequence.

use vstd::prelude::*;

use crate::execute::apply_v;
use crate::instruction::{Instruction, RejectionReason};
use crate::policy::{evaluate, evaluate_v, Verdict};
use crate::world::{AccountId, Validator, ValidatorV, World, WorldV};

verus! {

/// A client-submitted unit of intent. The signature is carried as an opaque
/// value; it is checked by the crypto collaborator before submission and its
/// presence is re-checked syntactically here.
#[derive(Debug)]
pub struct SignedTransaction {
    pub authority: AccountId,
    pub instructions: Vec<Instruction>,
    pub created_at_ms: u64,
    pub time_to_live_ms: u64,
    pub nonce: u64,
    pub signature: u64,
}

/// Why a transaction is refused at the door, before any execution.
#[derive(Debug, Clone, Copy, PartialEq, Eq, Structural)]
pub enum AcceptError {
    /// The transaction carries no signature.
    MissingSignature,
    /// The transaction carries no instructions.
    Empty,
    /// The transaction exceeds the configured instruction bound.
    TooManyInstructions,
}

/// Syntactic acceptance: a signature must be present and the instruction
/// count must fall within the configured bound.
pub open spec fn acceptable_v(tx: SignedTransaction, max_instructions: u64) -> Result<
    (),
    AcceptError,
> {
    if tx.signature == 0 {
        Err(AcceptError::MissingSignature)
    } else if tx.instructions@.len() == 0 {
        Err(AcceptError::Empty)
    } else if tx.instructions@.len() > max_instructions {
        Err(AcceptError::TooManyInstructions)
    } else {
        Ok(())
    }
}

/// Check a transaction against the syntactic acceptance rules.
pub fn accept_transaction(tx: &SignedTransaction, max_instructions: u64) -> (r: Result<
    (),
    AcceptError,
>)
    ensures
        r == acceptable_v(*tx, max_instructions),
{
    if tx.signature == 0 {
        Err(AcceptError::MissingSignature)
    } else if tx.instructions.len() == 0 {
        Err(AcceptError::Empty)
    } else if tx.instructions.len() as u64 > max_instructions {
        Err(AcceptError::TooManyInstructions)
    } else {
        Ok(())
    }
}

/// One instruction under the policy: the given policy judges it against the
/// current world, and only a permitted instruction takes effect.
pub open spec fn step_v(
    policy: ValidatorV,
    w: WorldV,
    instr: Instruction,
    authority: (Seq<char>, Seq<char>),
) -> Result<WorldV, RejectionReason> {
    match evaluate_v(policy, w, instr.kind_spec(), authority) {
        Verdict::Allow => apply_v(w, instr),
        Verdict::Deny(d) => Err(RejectionReason::Denied(d)),
    }
}

/// A transaction's instructions in order: the first rejection aborts the
/// whole transaction.
pub open spec fn instructions_result_v(
    policy: ValidatorV,
    w: WorldV,
    instrs: Seq<Instruction>,
    authority: (Seq<char>, Seq<char>),
) -> Result<WorldV, RejectionReason>
    decreases instrs.len(),
{
    if instrs.len() == 0 {
        Ok(w)
    } else {
        match step_v(policy, w, instrs[0], authority) {
            Ok(w2) => instructions_result_v(policy, w2, instrs.drop_first(), authority),
            Err(e) => Err(e),
        }
    }
}

/// A whole transaction: its effect on the world when every instruction is
/// permitted and succeeds, or the reason of its first rejection.
pub open spec fn transaction_result_v(
    policy: ValidatorV,
    w: WorldV,
    tx: SignedTransaction,
) -> Result<WorldV, RejectionReason> {
    instructions_result_v(policy, w, tx.instructions@, tx.authority.key())
}

/// Execute one transaction atomically: its instructions run in order inside
/// an isolated scratch scope; on the first denial or execution error the
/// scope is discarded and the world is untouched, otherwise the scope is
/// committed as a whole.
pub fn execute_transaction(w: &mut World, policy: &Validator, tx: &SignedTransaction) -> (r:
    Result<(), RejectionReason>)
    requires
        old(w)@.wf(),
    ensures
        final(w)@.wf(),
        match r {
            Ok(()) => transaction_result_v(policy.v(), old(w)@, *tx) == Ok::<
                WorldV,
                RejectionReason,
            >(final(w)@),
            Err(e) => transaction_result_v(policy.v(), old(w)@, *tx) == Err::<
                WorldV,
                RejectionReason,
            >(e) && final(w)@ == old(w)@,
        },
{
    let ghost instrs = tx.instructions@;
    let ghost authority = tx.authority.key();
    let mut scratch = w.snapshot();
    proof {
        assert(instrs.skip(0) =~= instrs);
    }
    let mut i: usize = 0;
    while i < tx.instructions.len()
        invariant
            i <= tx.instructions.len(),
            instrs == tx.instructions@,
            authority == tx.authority.key(),
            scratch@.wf(),
            old(w)@.wf(),
            w@ == old(w)@,
            instructions_result_v(policy.v(), old(w)@, instrs, authority)
                == instructions_result_v(policy.v(), scratch@, instrs.skip(i as int), authority),
        decreases tx.instructions.len() - i,
    {
        proof {
            assert(instrs.skip(i as int)[0] == instrs[i as int]);
            assert(instrs.skip(i as int).drop_first() =~= instrs.skip(i as int + 1));
        }
        let verdict = evaluate(policy, &scratch, &tx.instructions[i], &tx.authority);
        match verdict {
            Verdict::Deny(d) => {
                return Err(RejectionReason::Denied(d));
            },
            Verdict::Allow => {
                match scratch.apply_instruction(&tx.instructions[i]) {
                    Err(e) => {
                        return Err(e);
                    },
                    Ok(()) => {},
                }
            },
        }
        i += 1;
    }
    proof {
        assert(instrs.skip(instrs.len() as int).len() == 0);
    }
    *w = scratch;
    Ok(())
}

/// The world after a block's transactions together with each transaction's
/// recorded outcome: a rejected transaction leaves the world unchanged and
/// its reason is recorded; the policy judging every transaction is the one
/// in force when the block began.
pub open spec fn transactions_outcomes_v(
    policy: ValidatorV,
    w: WorldV,
    txs: Seq<SignedTransaction>,
) -> (WorldV, Seq<Option<RejectionReason>>)
    decreases txs.len(),
{
    if txs.len() == 0 {
        (w, Seq::empty())
    } else {
        let prev = transactions_outcomes_v(policy, w, txs.drop_last());
        match transaction_result_v(policy, prev.0, txs.last()) {
            Ok(w2) => (w2, prev.1.push(None)),
            Err(e) => (prev.0, prev.1.push(Some(e))),
        }
    }
}

/// A block's effect: its transactions applied in order under the policy in
/// force at its start.
pub open spec fn apply_block_v(w: WorldV, txs: Seq<SignedTransaction>) -> (
    WorldV,
    Seq<Option<RejectionReason>>,
) {
    transactions_outcomes_v(w.validator, w, txs)
}

/// Apply a block's transactions to the world, returning the outcome recorded
/// for each: `None` for success, the exact rejection reason otherwise.
pub fn apply_transactions(w: &mut World, txs: &Vec<SignedTransaction>) -> (r: Vec<
    Option<RejectionReason>,
>)
    requires
        old(w)@.wf(),
    ensures
        final(w)@.wf(),
        (final(w)@, r@) == apply_block_v(old(w)@, txs@),
        r@.len() == txs@.len(),
{
    let policy = w.validator.duplicate();
    let mut outcomes: Vec<Option<RejectionReason>> = Vec::new();
    let mut i: usize = 0;
    while i < txs.len()
        invariant
            i <= txs.len(),
            w@.wf(),
            outcomes@.len() == i,
            policy.v() == old(w)@.validator,
            (w@, outcomes@) == transactions_outcomes_v(policy.v(), old(w)@, txs@.take(i as int)),
        decreases txs.len() - i,
    {
        match execute_transaction(w, &policy, &txs[i]) {
            Ok(()) => outcomes.push(None),
            Err(e) => outcomes.push(Some(e)),
        }
        proof {
            assert(txs@.take(i as int + 1).drop_last() =~= txs@.take(i as int));
            assert(txs@.take(i as int + 1).last() == txs@[i as int]);
        }
        i += 1;
    }
    proof {
        assert(txs@.take(txs@.len() as int) =~= txs@);
    }
    outcomes
}

} // verus!
