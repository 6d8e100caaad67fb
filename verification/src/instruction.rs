//! The closed instruction set interpreted against the world state, and the
//! reasons an instruction or transaction can be rejected.

use vstd::prelude::*;

use crate::world::{AccountId, AssetDefinitionId, AssetId, InstructionKind, Validator};

verus! {

/// One unit of intent: every state mutation is expressed as an instruction,
/// policy-checked before it takes effect.
#[derive(Debug)]
pub enum Instruction {
    RegisterDomain { id: String },
    UnregisterDomain { id: String },
    RegisterAccount { id: AccountId, key: u64 },
    UnregisterAccount { id: AccountId },
    RegisterAssetDefinition { id: AssetDefinitionId },
    UnregisterAssetDefinition { id: AssetDefinitionId },
    RegisterPeer { peer: u64 },
    UnregisterPeer { peer: u64 },
    Mint { asset: AssetId, amount: u64 },
    Burn { asset: AssetId, amount: u64 },
    Transfer {
        source: AccountId,
        destination: AccountId,
        definition: AssetDefinitionId,
        amount: u64,
    },
    Grant { token: String, payload: String, to: AccountId },
    Revoke { token: String, payload: String, from: AccountId },
    SetKeyValue { account: AccountId, key: String, value: String },
    SetParameter { name: String, value: u64 },
    Upgrade { validator: Validator },
}

impl Instruction {
    pub open spec fn kind_spec(self) -> InstructionKind {
        match self {
            Instruction::RegisterDomain { .. } => InstructionKind::RegisterDomain,
            Instruction::UnregisterDomain { .. } => InstructionKind::UnregisterDomain,
            Instruction::RegisterAccount { .. } => InstructionKind::RegisterAccount,
            Instruction::UnregisterAccount { .. } => InstructionKind::UnregisterAccount,
            Instruction::RegisterAssetDefinition { .. } => InstructionKind::RegisterAssetDefinition,
            Instruction::UnregisterAssetDefinition { .. } => InstructionKind::UnregisterAssetDefinition,
            Instruction::RegisterPeer { .. } => InstructionKind::RegisterPeer,
            Instruction::UnregisterPeer { .. } => InstructionKind::UnregisterPeer,
            Instruction::Mint { .. } => InstructionKind::Mint,
            Instruction::Burn { .. } => InstructionKind::Burn,
            Instruction::Transfer { .. } => InstructionKind::Transfer,
            Instruction::Grant { .. } => InstructionKind::Grant,
            Instruction::Revoke { .. } => InstructionKind::Revoke,
            Instruction::SetKeyValue { .. } => InstructionKind::SetKeyValue,
            Instruction::SetParameter { .. } => InstructionKind::SetParameter,
            Instruction::Upgrade { .. } => InstructionKind::Upgrade,
        }
    }

    /// The kind an instruction belongs to, used for policy matching.
    pub fn kind(&self) -> (r: InstructionKind)
        ensures
            r == self.kind_spec(),
    {
        match self {
            Instruction::RegisterDomain { .. } => InstructionKind::RegisterDomain,
            Instruction::UnregisterDomain { .. } => InstructionKind::UnregisterDomain,
            Instruction::RegisterAccount { .. } => InstructionKind::RegisterAccount,
            Instruction::UnregisterAccount { .. } => InstructionKind::UnregisterAccount,
            Instruction::RegisterAssetDefinition { .. } => InstructionKind::RegisterAssetDefinition,
            Instruction::UnregisterAssetDefinition { .. } => InstructionKind::UnregisterAssetDefinition,
            Instruction::RegisterPeer { .. } => InstructionKind::RegisterPeer,
            Instruction::UnregisterPeer { .. } => InstructionKind::UnregisterPeer,
            Instruction::Mint { .. } => InstructionKind::Mint,
            Instruction::Burn { .. } => InstructionKind::Burn,
            Instruction::Transfer { .. } => InstructionKind::Transfer,
            Instruction::Grant { .. } => InstructionKind::Grant,
            Instruction::Revoke { .. } => InstructionKind::Revoke,
            Instruction::SetKeyValue { .. } => InstructionKind::SetKeyValue,
            Instruction::SetParameter { .. } => InstructionKind::SetParameter,
            Instruction::Upgrade { .. } => InstructionKind::Upgrade,
        }
    }
}

/// Why the policy refused an instruction.
#[derive(Debug, Clone, Copy, PartialEq, Eq, Structural)]
pub enum DenyReason {
    /// The author lacks the permission token the policy demands.
    NotPermitted,
    /// Evaluating the instruction would exceed the policy's resource budget.
    ResourceExhausted,
}

/// Why an instruction, and with it its transaction, was rejected. The reason
/// is recorded permanently in the committed block.
#[derive(Debug, Clone, Copy, PartialEq, Eq, Structural)]
pub enum RejectionReason {
    /// The policy returned a denial.
    Denied(DenyReason),
    DomainNotFound,
    DomainAlreadyExists,
    AccountNotFound,
    AccountAlreadyExists,
    AssetDefinitionNotFound,
    AssetDefinitionAlreadyExists,
    AssetNotFound,
    /// A transfer or burn asked for more than the held quantity.
    InsufficientBalance,
    /// A mint or transfer would push a quantity past its representable bound.
    Overflow,
    PeerAlreadyRegistered,
    PeerNotFound,
    /// The last peer cannot be removed from the topology.
    LastPeer,
    GrantAlreadyExists,
    GrantNotFound,
}

} // verus!
