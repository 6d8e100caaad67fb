//! Blocks: the candidate built by a leader, the committed block persisted
//! forever, their byte encoding, and the digest that chains heights
//! together.

use vstd::prelude::*;
use vstd::bytes::{spec_u64_to_le_bytes, u64_to_le_bytes};
use vstd::utf8::encode_utf8;

use crate::instruction::{DenyReason, Instruction, RejectionReason};
use crate::transaction::SignedTransaction;
use crate::world::{InstructionKind, Validator};

verus! {

/// Fixed part of a block: where it stands in the chain and when it was
/// proposed.
#[derive(Debug, Clone, Copy, PartialEq, Eq, Structural)]
pub struct BlockHeader {
    pub height: u64,
    /// Digest of the previous committed block's encoding; zero at height 0,
    /// which has no predecessor.
    pub previous_hash: u64,
    pub timestamp_ms: u64,
    /// The view under which the block was proposed.
    pub view: u64,
}

/// An immutable, quorum-signed block: the batch, the outcome recorded for
/// each transaction, the topology snapshot it was validated under, and the
/// distinct co-signers forming its quorum proof.
#[derive(Debug)]
pub struct CommittedBlock {
    pub header: BlockHeader,
    pub transactions: Vec<SignedTransaction>,
    pub outcomes: Vec<Option<RejectionReason>>,
    pub topology: Vec<u64>,
    pub signatures: Vec<u64>,
}

/// Offset basis of the folding digest.
pub const DIGEST_SEED: u64 = 0xcbf29ce484222325;

/// Multiplier of the folding digest.
pub const DIGEST_PRIME: u64 = 0x100000001b3;

/// One byte folded into the running digest.
pub open spec fn digest_step(h: u64, byte: u8) -> u64 {
    ((((h ^ (byte as u64)) as int) * (DIGEST_PRIME as int)) % 0x10000000000000000) as u64
}

/// The digest of a byte sequence: a deterministic 64-bit fold. It chains
/// blocks together; it is no cryptographic commitment.
pub open spec fn digest_seq(bytes: Seq<u8>) -> u64
    decreases bytes.len(),
{
    if bytes.len() == 0 {
        DIGEST_SEED
    } else {
        digest_step(digest_seq(bytes.drop_last()), bytes.last())
    }
}

/// Compute the digest of a byte string.
pub fn digest(bytes: &Vec<u8>) -> (r: u64)
    ensures
        r == digest_seq(bytes@),
{
    let mut h: u64 = DIGEST_SEED;
    let mut i: usize = 0;
    while i < bytes.len()
        invariant
            i <= bytes.len(),
            h == digest_seq(bytes@.take(i as int)),
        decreases bytes.len() - i,
    {
        let x: u64 = h ^ (bytes[i] as u64);
        let wide: u128 = (x as u128) * (DIGEST_PRIME as u128);
        h = (wide % 0x10000000000000000u128) as u64;
        proof {
            assert(bytes@.take(i as int + 1).drop_last() =~= bytes@.take(i as int));
            assert(bytes@.take(i as int + 1).last() == bytes@[i as int]);
        }
        i += 1;
    }
    proof {
        assert(bytes@.take(bytes@.len() as int) =~= bytes@);
    }
    h
}

/// Encoding of one unsigned 64-bit value: eight little-endian bytes.
pub open spec fn enc_u64(x: u64) -> Seq<u8> {
    spec_u64_to_le_bytes(x)
}

/// Encoding of a string: its byte length, then its bytes.
pub open spec fn enc_str(s: Seq<char>) -> Seq<u8> {
    enc_u64(encode_utf8(s).len() as u64) + encode_utf8(s)
}

/// Encoding of a length-prefixed list of 64-bit values.
pub open spec fn enc_u64_seq(s: Seq<u64>) -> Seq<u8>
    decreases s.len(),
{
    if s.len() == 0 {
        Seq::empty()
    } else {
        enc_u64_seq(s.drop_last()) + enc_u64(s.last())
    }
}

/// The byte tag of an instruction kind.
pub open spec fn kind_code(kind: InstructionKind) -> u8 {
    match kind {
        InstructionKind::RegisterDomain => 0,
        InstructionKind::UnregisterDomain => 1,
        InstructionKind::RegisterAccount => 2,
        InstructionKind::UnregisterAccount => 3,
        InstructionKind::RegisterAssetDefinition => 4,
        InstructionKind::UnregisterAssetDefinition => 5,
        InstructionKind::RegisterPeer => 6,
        InstructionKind::UnregisterPeer => 7,
        InstructionKind::Mint => 8,
        InstructionKind::Burn => 9,
        InstructionKind::Transfer => 10,
        InstructionKind::Grant => 11,
        InstructionKind::Revoke => 12,
        InstructionKind::SetKeyValue => 13,
        InstructionKind::SetParameter => 14,
        InstructionKind::Upgrade => 15,
    }
}

/// The byte tag of a rejection reason.
pub open spec fn reason_code(reason: RejectionReason) -> u8 {
    match reason {
        RejectionReason::Denied(DenyReason::NotPermitted) => 0,
        RejectionReason::Denied(DenyReason::ResourceExhausted) => 1,
        RejectionReason::DomainNotFound => 2,
        RejectionReason::DomainAlreadyExists => 3,
        RejectionReason::AccountNotFound => 4,
        RejectionReason::AccountAlreadyExists => 5,
        RejectionReason::AssetDefinitionNotFound => 6,
        RejectionReason::AssetDefinitionAlreadyExists => 7,
        RejectionReason::AssetNotFound => 8,
        RejectionReason::InsufficientBalance => 9,
        RejectionReason::Overflow => 10,
        RejectionReason::PeerAlreadyRegistered => 11,
        RejectionReason::PeerNotFound => 12,
        RejectionReason::LastPeer => 13,
        RejectionReason::GrantAlreadyExists => 14,
        RejectionReason::GrantNotFound => 15,
    }
}

/// Encoding of one recorded outcome.
pub open spec fn enc_outcome(o: Option<RejectionReason>) -> Seq<u8> {
    match o {
        None => seq![0u8],
        Some(reason) => seq![1u8, reason_code(reason)],
    }
}

/// Encoding of a qualified name.
pub open spec fn enc_qualified(name: Seq<char>, domain: Seq<char>) -> Seq<u8> {
    enc_str(name) + enc_str(domain)
}

/// Encoding of the policy table.
pub open spec fn enc_requirements(reqs: Seq<(InstructionKind, Seq<char>)>) -> Seq<u8>
    decreases reqs.len(),
{
    if reqs.len() == 0 {
        Seq::empty()
    } else {
        enc_requirements(reqs.drop_last()) + seq![kind_code(reqs.last().0)] + enc_str(
            reqs.last().1,
        )
    }
}

/// Encoding of a policy.
pub open spec fn enc_validator(v: crate::world::ValidatorV) -> Seq<u8> {
    enc_u64(v.version) + enc_u64(v.fuel_budget) + enc_u64(v.requirements.len() as u64)
        + enc_requirements(v.requirements)
}

/// Encoding of one instruction: its kind tag, then its payload.
pub open spec fn enc_instruction(instr: Instruction) -> Seq<u8> {
    seq![kind_code(instr.kind_spec())] + match instr {
        Instruction::RegisterDomain { id } => enc_str(id@),
        Instruction::UnregisterDomain { id } => enc_str(id@),
        Instruction::RegisterAccount { id, key } => enc_qualified(id.name@, id.domain@) + enc_u64(
            key,
        ),
        Instruction::UnregisterAccount { id } => enc_qualified(id.name@, id.domain@),
        Instruction::RegisterAssetDefinition { id } => enc_qualified(id.name@, id.domain@),
        Instruction::UnregisterAssetDefinition { id } => enc_qualified(id.name@, id.domain@),
        Instruction::RegisterPeer { peer } => enc_u64(peer),
        Instruction::UnregisterPeer { peer } => enc_u64(peer),
        Instruction::Mint { asset, amount } => enc_qualified(
            asset.definition.name@,
            asset.definition.domain@,
        ) + enc_qualified(asset.account.name@, asset.account.domain@) + enc_u64(amount),
        Instruction::Burn { asset, amount } => enc_qualified(
            asset.definition.name@,
            asset.definition.domain@,
        ) + enc_qualified(asset.account.name@, asset.account.domain@) + enc_u64(amount),
        Instruction::Transfer { source, destination, definition, amount } => enc_qualified(
            source.name@,
            source.domain@,
        ) + enc_qualified(destination.name@, destination.domain@) + enc_qualified(
            definition.name@,
            definition.domain@,
        ) + enc_u64(amount),
        Instruction::Grant { token, payload, to } => enc_str(token@) + enc_str(payload@)
            + enc_qualified(to.name@, to.domain@),
        Instruction::Revoke { token, payload, from } => enc_str(token@) + enc_str(payload@)
            + enc_qualified(from.name@, from.domain@),
        Instruction::SetKeyValue { account, key, value } => enc_qualified(
            account.name@,
            account.domain@,
        ) + enc_str(key@) + enc_str(value@),
        Instruction::SetParameter { name, value } => enc_str(name@) + enc_u64(value),
        Instruction::Upgrade { validator } => enc_validator(validator.v()),
    }
}

/// Encoding of a list of instructions.
pub open spec fn enc_instructions(instrs: Seq<Instruction>) -> Seq<u8>
    decreases instrs.len(),
{
    if instrs.len() == 0 {
        Seq::empty()
    } else {
        enc_instructions(instrs.drop_last()) + enc_instruction(instrs.last())
    }
}

/// Encoding of one signed transaction.
pub open spec fn enc_transaction(tx: SignedTransaction) -> Seq<u8> {
    enc_qualified(tx.authority.name@, tx.authority.domain@) + enc_u64(tx.created_at_ms) + enc_u64(
        tx.time_to_live_ms,
    ) + enc_u64(tx.nonce) + enc_u64(tx.signature) + enc_u64(tx.instructions@.len() as u64)
        + enc_instructions(tx.instructions@)
}

/// Encoding of a list of transactions.
pub open spec fn enc_transactions(txs: Seq<SignedTransaction>) -> Seq<u8>
    decreases txs.len(),
{
    if txs.len() == 0 {
        Seq::empty()
    } else {
        enc_transactions(txs.drop_last()) + enc_transaction(txs.last())
    }
}

/// Encoding of the recorded outcomes.
pub open spec fn enc_outcomes(outcomes: Seq<Option<RejectionReason>>) -> Seq<u8>
    decreases outcomes.len(),
{
    if outcomes.len() == 0 {
        Seq::empty()
    } else {
        enc_outcomes(outcomes.drop_last()) + enc_outcome(outcomes.last())
    }
}

/// Encoding of a whole committed block: header, batch, outcomes, topology
/// snapshot and quorum proof, each list length-prefixed.
pub open spec fn enc_block(b: CommittedBlock) -> Seq<u8> {
    enc_u64(b.header.height) + enc_u64(b.header.previous_hash) + enc_u64(b.header.timestamp_ms)
        + enc_u64(b.header.view) + enc_u64(b.transactions@.len() as u64) + enc_transactions(
        b.transactions@,
    ) + enc_u64(b.outcomes@.len() as u64) + enc_outcomes(b.outcomes@) + enc_u64(
        b.topology@.len() as u64,
    ) + enc_u64_seq(b.topology@) + enc_u64(b.signatures@.len() as u64) + enc_u64_seq(b.signatures@)
}

/// The digest chaining a block to its successor.
pub open spec fn block_digest(b: CommittedBlock) -> u64 {
    digest_seq(enc_block(b))
}

pub(crate) fn push_u64(out: &mut Vec<u8>, x: u64)
    ensures
        final(out)@ == old(out)@ + enc_u64(x),
{
    let mut bytes = u64_to_le_bytes(x);
    out.append(&mut bytes);
}

pub(crate) fn push_byte(out: &mut Vec<u8>, b: u8)
    ensures
        final(out)@ == old(out)@ + seq![b],
{
    out.push(b);
    proof {
        assert(out@ =~= old(out)@ + seq![b]);
    }
}

pub(crate) fn push_str(out: &mut Vec<u8>, s: &String)
    ensures
        final(out)@ == old(out)@ + enc_str(s@),
{
    let bytes = s.as_str().as_bytes();
    push_u64(out, bytes.len() as u64);
    let ghost mid = out@;
    let mut i: usize = 0;
    while i < bytes.len()
        invariant
            i <= bytes.len(),
            bytes@ == encode_utf8(s@),
            out@ == mid + bytes@.take(i as int),
        decreases bytes.len() - i,
    {
        out.push(bytes[i]);
        proof {
            assert(out@ =~= mid + bytes@.take(i as int + 1));
        }
        i += 1;
    }
    proof {
        assert(bytes@.take(bytes@.len() as int) =~= bytes@);
        assert(out@ =~= old(out)@ + enc_str(s@));
    }
}

pub(crate) fn push_qualified(out: &mut Vec<u8>, name: &String, domain: &String)
    ensures
        final(out)@ == old(out)@ + enc_qualified(name@, domain@),
{
    push_str(out, name);
    push_str(out, domain);
    proof {
        assert(out@ =~= old(out)@ + enc_qualified(name@, domain@));
    }
}

pub(crate) fn push_u64_list(out: &mut Vec<u8>, values: &Vec<u64>)
    ensures
        final(out)@ == old(out)@ + enc_u64(values@.len() as u64) + enc_u64_seq(values@),
{
    push_u64(out, values.len() as u64);
    let ghost mid = out@;
    let mut i: usize = 0;
    while i < values.len()
        invariant
            i <= values.len(),
            out@ == mid + enc_u64_seq(values@.take(i as int)),
        decreases values.len() - i,
    {
        push_u64(out, values[i]);
        proof {
            assert(values@.take(i as int + 1).drop_last() =~= values@.take(i as int));
            assert(values@.take(i as int + 1).last() == values@[i as int]);
            assert(out@ =~= mid + enc_u64_seq(values@.take(i as int + 1)));
        }
        i += 1;
    }
    proof {
        assert(values@.take(values@.len() as int) =~= values@);
        assert(out@ =~= old(out)@ + enc_u64(values@.len() as u64) + enc_u64_seq(values@));
    }
}

/// The kind tag written before an instruction's payload.
fn kind_byte(kind: InstructionKind) -> (r: u8)
    ensures
        r == kind_code(kind),
{
    match kind {
        InstructionKind::RegisterDomain => 0,
        InstructionKind::UnregisterDomain => 1,
        InstructionKind::RegisterAccount => 2,
        InstructionKind::UnregisterAccount => 3,
        InstructionKind::RegisterAssetDefinition => 4,
        InstructionKind::UnregisterAssetDefinition => 5,
        InstructionKind::RegisterPeer => 6,
        InstructionKind::UnregisterPeer => 7,
        InstructionKind::Mint => 8,
        InstructionKind::Burn => 9,
        InstructionKind::Transfer => 10,
        InstructionKind::Grant => 11,
        InstructionKind::Revoke => 12,
        InstructionKind::SetKeyValue => 13,
        InstructionKind::SetParameter => 14,
        InstructionKind::Upgrade => 15,
    }
}

/// The byte written for a rejection reason.
pub fn reason_byte(reason: &RejectionReason) -> (r: u8)
    ensures
        r == reason_code(*reason),
{
    match reason {
        RejectionReason::Denied(DenyReason::NotPermitted) => 0,
        RejectionReason::Denied(DenyReason::ResourceExhausted) => 1,
        RejectionReason::DomainNotFound => 2,
        RejectionReason::DomainAlreadyExists => 3,
        RejectionReason::AccountNotFound => 4,
        RejectionReason::AccountAlreadyExists => 5,
        RejectionReason::AssetDefinitionNotFound => 6,
        RejectionReason::AssetDefinitionAlreadyExists => 7,
        RejectionReason::AssetNotFound => 8,
        RejectionReason::InsufficientBalance => 9,
        RejectionReason::Overflow => 10,
        RejectionReason::PeerAlreadyRegistered => 11,
        RejectionReason::PeerNotFound => 12,
        RejectionReason::LastPeer => 13,
        RejectionReason::GrantAlreadyExists => 14,
        RejectionReason::GrantNotFound => 15,
    }
}

pub(crate) fn push_validator(out: &mut Vec<u8>, v: &Validator)
    ensures
        final(out)@ == old(out)@ + enc_validator(v.v()),
{
    push_u64(out, v.version);
    push_u64(out, v.fuel_budget);
    push_u64(out, v.requirements.len() as u64);
    let ghost reqsv = v.requirements@.map_values(|p: (InstructionKind, String)| (p.0, p.1@));
    let ghost mid = out@;
    let mut i: usize = 0;
    while i < v.requirements.len()
        invariant
            i <= v.requirements.len(),
            reqsv == v.requirements@.map_values(|p: (InstructionKind, String)| (p.0, p.1@)),
            out@ == mid + enc_requirements(reqsv.take(i as int)),
        decreases v.requirements.len() - i,
    {
        push_byte(out, kind_byte(v.requirements[i].0));
        push_str(out, &v.requirements[i].1);
        proof {
            assert(reqsv.take(i as int + 1).drop_last() =~= reqsv.take(i as int));
            assert(reqsv.take(i as int + 1).last() == reqsv[i as int]);
            assert(out@ =~= mid + enc_requirements(reqsv.take(i as int + 1)));
        }
        i += 1;
    }
    proof {
        assert(reqsv.take(reqsv.len() as int) =~= reqsv);
        assert(out@ =~= old(out)@ + enc_validator(v.v()));
    }
}

fn push_instruction(out: &mut Vec<u8>, instr: &Instruction)
    ensures
        final(out)@ == old(out)@ + enc_instruction(*instr),
{
    push_byte(out, kind_byte(instr.kind()));
    match instr {
        Instruction::RegisterDomain { id } => push_str(out, id),
        Instruction::UnregisterDomain { id } => push_str(out, id),
        Instruction::RegisterAccount { id, key } => {
            push_qualified(out, &id.name, &id.domain);
            push_u64(out, *key);
        },
        Instruction::UnregisterAccount { id } => push_qualified(out, &id.name, &id.domain),
        Instruction::RegisterAssetDefinition { id } => push_qualified(out, &id.name, &id.domain),
        Instruction::UnregisterAssetDefinition { id } => push_qualified(out, &id.name, &id.domain),
        Instruction::RegisterPeer { peer } => push_u64(out, *peer),
        Instruction::UnregisterPeer { peer } => push_u64(out, *peer),
        Instruction::Mint { asset, amount } => {
            push_qualified(out, &asset.definition.name, &asset.definition.domain);
            push_qualified(out, &asset.account.name, &asset.account.domain);
            push_u64(out, *amount);
        },
        Instruction::Burn { asset, amount } => {
            push_qualified(out, &asset.definition.name, &asset.definition.domain);
            push_qualified(out, &asset.account.name, &asset.account.domain);
            push_u64(out, *amount);
        },
        Instruction::Transfer { source, destination, definition, amount } => {
            push_qualified(out, &source.name, &source.domain);
            push_qualified(out, &destination.name, &destination.domain);
            push_qualified(out, &definition.name, &definition.domain);
            push_u64(out, *amount);
        },
        Instruction::Grant { token, payload, to } => {
            push_str(out, token);
            push_str(out, payload);
            push_qualified(out, &to.name, &to.domain);
        },
        Instruction::Revoke { token, payload, from } => {
            push_str(out, token);
            push_str(out, payload);
            push_qualified(out, &from.name, &from.domain);
        },
        Instruction::SetKeyValue { account, key, value } => {
            push_qualified(out, &account.name, &account.domain);
            push_str(out, key);
            push_str(out, value);
        },
        Instruction::SetParameter { name, value } => {
            push_str(out, name);
            push_u64(out, *value);
        },
        Instruction::Upgrade { validator } => push_validator(out, validator),
    }
    proof {
        assert(out@ =~= old(out)@ + enc_instruction(*instr));
    }
}

fn push_transaction(out: &mut Vec<u8>, tx: &SignedTransaction)
    ensures
        final(out)@ == old(out)@ + enc_transaction(*tx),
{
    push_qualified(out, &tx.authority.name, &tx.authority.domain);
    push_u64(out, tx.created_at_ms);
    push_u64(out, tx.time_to_live_ms);
    push_u64(out, tx.nonce);
    push_u64(out, tx.signature);
    push_u64(out, tx.instructions.len() as u64);
    let ghost mid = out@;
    let mut i: usize = 0;
    while i < tx.instructions.len()
        invariant
            i <= tx.instructions.len(),
            out@ == mid + enc_instructions(tx.instructions@.take(i as int)),
        decreases tx.instructions.len() - i,
    {
        push_instruction(out, &tx.instructions[i]);
        proof {
            assert(tx.instructions@.take(i as int + 1).drop_last() =~= tx.instructions@.take(
                i as int,
            ));
            assert(tx.instructions@.take(i as int + 1).last() == tx.instructions@[i as int]);
            assert(out@ =~= mid + enc_instructions(tx.instructions@.take(i as int + 1)));
        }
        i += 1;
    }
    proof {
        assert(tx.instructions@.take(tx.instructions@.len() as int) =~= tx.instructions@);
        assert(out@ =~= old(out)@ + enc_transaction(*tx));
    }
}

fn push_outcome(out: &mut Vec<u8>, o: &Option<RejectionReason>)
    ensures
        final(out)@ == old(out)@ + enc_outcome(*o),
{
    match o {
        None => push_byte(out, 0),
        Some(reason) => {
            push_byte(out, 1);
            push_byte(out, reason_byte(reason));
            proof {
                assert(out@ =~= old(out)@ + enc_outcome(*o));
            }
        },
    }
}

/// Encode a committed block into its persisted byte form.
pub fn encode_block(b: &CommittedBlock) -> (r: Vec<u8>)
    ensures
        r@ == enc_block(*b),
{
    let mut out: Vec<u8> = Vec::new();
    push_u64(&mut out, b.header.height);
    push_u64(&mut out, b.header.previous_hash);
    push_u64(&mut out, b.header.timestamp_ms);
    push_u64(&mut out, b.header.view);
    push_u64(&mut out, b.transactions.len() as u64);
    let ghost mid_txs = out@;
    let mut i: usize = 0;
    while i < b.transactions.len()
        invariant
            i <= b.transactions.len(),
            out@ == mid_txs + enc_transactions(b.transactions@.take(i as int)),
        decreases b.transactions.len() - i,
    {
        push_transaction(&mut out, &b.transactions[i]);
        proof {
            assert(b.transactions@.take(i as int + 1).drop_last() =~= b.transactions@.take(
                i as int,
            ));
            assert(b.transactions@.take(i as int + 1).last() == b.transactions@[i as int]);
            assert(out@ =~= mid_txs + enc_transactions(b.transactions@.take(i as int + 1)));
        }
        i += 1;
    }
    proof {
        assert(b.transactions@.take(b.transactions@.len() as int) =~= b.transactions@);
    }
    push_u64(&mut out, b.outcomes.len() as u64);
    let ghost mid_outcomes = out@;
    let mut i: usize = 0;
    while i < b.outcomes.len()
        invariant
            i <= b.outcomes.len(),
            out@ == mid_outcomes + enc_outcomes(b.outcomes@.take(i as int)),
        decreases b.outcomes.len() - i,
    {
        push_outcome(&mut out, &b.outcomes[i]);
        proof {
            assert(b.outcomes@.take(i as int + 1).drop_last() =~= b.outcomes@.take(i as int));
            assert(b.outcomes@.take(i as int + 1).last() == b.outcomes@[i as int]);
            assert(out@ =~= mid_outcomes + enc_outcomes(b.outcomes@.take(i as int + 1)));
        }
        i += 1;
    }
    proof {
        assert(b.outcomes@.take(b.outcomes@.len() as int) =~= b.outcomes@);
    }
    push_u64_list(&mut out, &b.topology);
    push_u64_list(&mut out, &b.signatures);
    proof {
        assert(out@ =~= enc_block(*b));
    }
    out
}

/// The digest of a committed block's encoding.
pub fn compute_block_digest(b: &CommittedBlock) -> (r: u64)
    ensures
        r == block_digest(*b),
{
    let bytes = encode_block(b);
    digest(&bytes)
}

} // verus!
