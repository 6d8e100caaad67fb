//! The validator engine: resource-bounded evaluation of the active permission
//! policy against one instruction and its author.
//!
//! The policy reads the world state and never mutates it; exhausting its
//! budget is a denial, never a fault of the host.

use vstd::prelude::*;

use crate::instruction::{DenyReason, Instruction};
use crate::world::{AccountId, InstructionKind, Validator, ValidatorV, World, WorldV};

verus! {

/// Outcome of a policy evaluation.
#[derive(Debug, Clone, Copy, PartialEq, Eq, Structural)]
pub enum Verdict {
    Allow,
    Deny(DenyReason),
}

/// The token the policy demands for a kind: the first matching entry wins.
pub open spec fn requirement_of(
    reqs: Seq<(InstructionKind, Seq<char>)>,
    kind: InstructionKind,
) -> Option<Seq<char>>
    decreases reqs.len(),
{
    if reqs.len() == 0 {
        None
    } else if reqs[0].0 == kind {
        Some(reqs[0].1)
    } else {
        requirement_of(reqs.drop_first(), kind)
    }
}

/// Work the policy performs on one evaluation: it walks its requirement
/// table and the grant store of the world it inspects.
pub open spec fn evaluation_cost(policy: ValidatorV, w: WorldV) -> nat {
    policy.requirements.len() + w.grants.len()
}

/// The policy's verdict on one instruction: denial when the evaluation
/// exceeds the resource budget, denial when a demanded token is not held by
/// the author, and permission otherwise.
pub open spec fn evaluate_v(
    policy: ValidatorV,
    w: WorldV,
    kind: InstructionKind,
    authority: (Seq<char>, Seq<char>),
) -> Verdict {
    if evaluation_cost(policy, w) > policy.fuel_budget {
        Verdict::Deny(DenyReason::ResourceExhausted)
    } else {
        match requirement_of(policy.requirements, kind) {
            None => Verdict::Allow,
            Some(token) => if w.holds_token(token, authority) {
                Verdict::Allow
            } else {
                Verdict::Deny(DenyReason::NotPermitted)
            },
        }
    }
}

impl Validator {
    /// Position of the first requirement entry for a kind, if any.
    fn find_requirement(&self, kind: InstructionKind) -> (r: Option<usize>)
        ensures
            match r {
                Some(i) => i < self.requirements@.len() && self.v().requirements[i as int].0 == kind
                    && requirement_of(self.v().requirements, kind) == Some(
                    self.v().requirements[i as int].1,
                ),
                None => requirement_of(self.v().requirements, kind) is None,
            },
    {
        let ghost reqs = self.v().requirements;
        proof {
            assert(reqs.skip(0) =~= reqs);
        }
        let mut i: usize = 0;
        while i < self.requirements.len()
            invariant
                i <= self.requirements.len(),
                reqs == self.v().requirements,
                requirement_of(reqs, kind) == requirement_of(reqs.skip(i as int), kind),
            decreases self.requirements.len() - i,
        {
            if self.requirements[i].0 == kind {
                proof {
                    assert(reqs.skip(i as int)[0] == reqs[i as int]);
                }
                return Some(i);
            }
            proof {
                assert(reqs.skip(i as int).drop_first() =~= reqs.skip(i as int + 1));
            }
            i += 1;
        }
        proof {
            assert(reqs.skip(reqs.len() as int).len() == 0);
        }
        None
    }
}

/// Evaluate the given policy over a snapshot of the world: the policy in
/// force at the start of a block judges every instruction of that block,
/// while grants and entities are read from the current snapshot.
pub fn evaluate(
    policy: &Validator,
    w: &World,
    instruction: &Instruction,
    authority: &AccountId,
) -> (r: Verdict)
    ensures
        r == evaluate_v(policy.v(), w@, instruction.kind_spec(), authority.key()),
{
    let cost: u128 = policy.requirements.len() as u128 + w.grants.len() as u128;
    if cost > policy.fuel_budget as u128 {
        return Verdict::Deny(DenyReason::ResourceExhausted);
    }
    match policy.find_requirement(instruction.kind()) {
        None => Verdict::Allow,
        Some(i) => {
            if w.holds_token(&policy.requirements[i].1, authority) {
                Verdict::Allow
            } else {
                Verdict::Deny(DenyReason::NotPermitted)
            }
        },
    }
}

} // verus!
