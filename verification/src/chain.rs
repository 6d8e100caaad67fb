//! The committed chain: what it means for a block sequence to be a valid
//! ledger history, replay of that history into a world state, and the laws
//! every committed chain satisfies.

use vstd::prelude::*;

use crate::block::{block_digest, CommittedBlock};
use crate::instruction::RejectionReason;
use crate::store::LedgerStore;
use crate::topology::required_signatures_spec;
use crate::transaction::{
    apply_block_v, transaction_result_v, transactions_outcomes_v, SignedTransaction,
};
use crate::world::{ValidatorV, World, WorldV};

verus! {

/// The world state a block sequence rebuilds from a genesis state: every
/// block's transactions applied in height order.
pub open spec fn replay_v(genesis: WorldV, blocks: Seq<CommittedBlock>) -> WorldV
    decreases blocks.len(),
{
    if blocks.len() == 0 {
        genesis
    } else {
        apply_block_v(replay_v(genesis, blocks.drop_last()), blocks.last().transactions@).0
    }
}

/// A block's quorum proof is sound: its co-signers are distinct members of
/// its topology snapshot and reach the required count.
pub open spec fn quorum_ok(b: CommittedBlock) -> bool {
    &&& b.topology@.len() > 0
    &&& forall|p: int, q: int|
        0 <= p < q < b.signatures@.len() ==> b.signatures@[p] != b.signatures@[q]
    &&& forall|p: int| 0 <= p < b.signatures@.len() ==> b.topology@.contains(b.signatures@[p])
    &&& b.signatures@.len() >= required_signatures_spec(b.topology@.len())
}

/// A valid ledger history over a genesis state: heights increase one by one
/// from zero, every block's previous-hash field is the digest of its
/// predecessor, every recorded outcome is exactly what executing the batch
/// against the replayed prior state yields, and every block carries a sound
/// quorum proof.
pub open spec fn chain_wf(genesis: WorldV, blocks: Seq<CommittedBlock>) -> bool {
    &&& forall|i: int| 0 <= i < blocks.len() ==> #[trigger] blocks[i].header.height == i
    &&& forall|i: int|
        1 <= i < blocks.len() ==> #[trigger] blocks[i].header.previous_hash == block_digest(
            blocks[i - 1],
        )
    &&& forall|i: int|
        0 <= i < blocks.len() ==> #[trigger] blocks[i].outcomes@ == apply_block_v(
            replay_v(genesis, blocks.take(i)),
            blocks[i].transactions@,
        ).1
    &&& forall|i: int| 0 <= i < blocks.len() ==> #[trigger] quorum_ok(blocks[i])
}

/// Chain integrity: at every committed height after the first, the block
/// records the digest of the block one height below it.
pub proof fn lemma_chain_integrity(genesis: WorldV, blocks: Seq<CommittedBlock>, h: int)
    requires
        chain_wf(genesis, blocks),
        1 <= h < blocks.len(),
    ensures
        blocks[h].header.previous_hash == block_digest(blocks[h - 1]),
        blocks[h].header.height == h,
{
}

/// Quorum soundness: every committed block carries at least the required
/// number of signatures, from distinct peers of its topology snapshot.
pub proof fn lemma_committed_quorum(genesis: WorldV, blocks: Seq<CommittedBlock>, h: int)
    requires
        chain_wf(genesis, blocks),
        0 <= h < blocks.len(),
    ensures
        blocks[h].signatures@.len() >= required_signatures_spec(blocks[h].topology@.len()),
        forall|p: int, q: int|
            0 <= p < q < blocks[h].signatures@.len() ==> blocks[h].signatures@[p]
                != blocks[h].signatures@[q],
        forall|p: int|
            0 <= p < blocks[h].signatures@.len() ==> blocks[h].topology@.contains(
                blocks[h].signatures@[p],
            ),
{
    assert(quorum_ok(blocks[h]));
}

/// Replay is a function of the history alone: two replays of equal stores
/// from equal genesis states yield the same world state, and hence
/// byte-identical snapshot encodings.
pub proof fn lemma_replay_deterministic(
    genesis_a: WorldV,
    genesis_b: WorldV,
    blocks_a: Seq<CommittedBlock>,
    blocks_b: Seq<CommittedBlock>,
)
    requires
        genesis_a == genesis_b,
        blocks_a == blocks_b,
    ensures
        replay_v(genesis_a, blocks_a) == replay_v(genesis_b, blocks_b),
        crate::snapshot::enc_world(replay_v(genesis_a, blocks_a)) == crate::snapshot::enc_world(
            replay_v(genesis_b, blocks_b),
        ),
{
}

/// A block's outcome list pairs one outcome with each transaction.
pub proof fn lemma_outcomes_len(policy: ValidatorV, w: WorldV, txs: Seq<SignedTransaction>)
    ensures
        transactions_outcomes_v(policy, w, txs).1.len() == txs.len(),
    decreases txs.len(),
{
    if txs.len() > 0 {
        lemma_outcomes_len(policy, w, txs.drop_last());
    }
}

/// The outcome recorded for a transaction is the result of executing it
/// against the state its in-block predecessors left behind.
pub proof fn lemma_outcome_at(
    policy: ValidatorV,
    w: WorldV,
    txs: Seq<SignedTransaction>,
    t: int,
)
    requires
        0 <= t < txs.len(),
    ensures
        transactions_outcomes_v(policy, w, txs).1[t] == (match transaction_result_v(
            policy,
            transactions_outcomes_v(policy, w, txs.take(t)).0,
            txs[t],
        ) {
            Ok(_) => None::<RejectionReason>,
            Err(e) => Some(e),
        }),
    decreases txs.len(),
{
    lemma_outcomes_len(policy, w, txs.drop_last());
    if t == txs.len() - 1 {
        assert(txs.take(t) =~= txs.drop_last());
    } else {
        lemma_outcome_at(policy, w, txs.drop_last(), t);
        assert(txs.drop_last().take(t) =~= txs.take(t));
        assert(txs.drop_last()[t] == txs[t]);
    }
}

/// Outcome reproducibility: for any transaction of a committed block whose
/// in-block predecessors left the world unchanged — the first of a block in
/// particular — re-executing it against the state immediately prior to the
/// block reproduces exactly the recorded outcome, rejection reason included.
pub proof fn lemma_outcome_reproducible(
    genesis: WorldV,
    blocks: Seq<CommittedBlock>,
    h: int,
    t: int,
)
    requires
        chain_wf(genesis, blocks),
        0 <= h < blocks.len(),
        0 <= t < blocks[h].transactions@.len(),
        transactions_outcomes_v(
            replay_v(genesis, blocks.take(h)).validator,
            replay_v(genesis, blocks.take(h)),
            blocks[h].transactions@.take(t),
        ).0 == replay_v(genesis, blocks.take(h)),
    ensures
        blocks[h].outcomes@[t] == (match transaction_result_v(
            replay_v(genesis, blocks.take(h)).validator,
            replay_v(genesis, blocks.take(h)),
            blocks[h].transactions@[t],
        ) {
            Ok(_) => None::<RejectionReason>,
            Err(e) => Some(e),
        }),
{
    let w = replay_v(genesis, blocks.take(h));
    lemma_outcome_at(w.validator, w, blocks[h].transactions@, t);
}

/// The first transaction of a committed block is always reproducible: its
/// recorded outcome is the result of executing it against the state
/// immediately prior to the block.
pub proof fn lemma_first_outcome_reproducible(
    genesis: WorldV,
    blocks: Seq<CommittedBlock>,
    h: int,
)
    requires
        chain_wf(genesis, blocks),
        0 <= h < blocks.len(),
        blocks[h].transactions@.len() > 0,
    ensures
        blocks[h].outcomes@[0] == (match transaction_result_v(
            replay_v(genesis, blocks.take(h)).validator,
            replay_v(genesis, blocks.take(h)),
            blocks[h].transactions@[0],
        ) {
            Ok(_) => None::<RejectionReason>,
            Err(e) => Some(e),
        }),
{
    let w = replay_v(genesis, blocks.take(h));
    assert(blocks[h].transactions@.take(0) =~= Seq::<SignedTransaction>::empty());
    lemma_outcome_reproducible(genesis, blocks, h, 0);
}

/// Asset quantities are non-negative in the world state replayed at every
/// committed height.
pub proof fn lemma_asset_quantities_nonnegative(
    genesis: WorldV,
    blocks: Seq<CommittedBlock>,
    h: int,
)
    requires
        chain_wf(genesis, blocks),
        0 <= h <= blocks.len(),
    ensures
        forall|j: int|
            0 <= j < replay_v(genesis, blocks.take(h)).assets.len() ==> replay_v(
                genesis,
                blocks.take(h),
            ).assets[j].quantity >= 0,
{
}

/// Rebuild a world state from the whole store by replay: how a new or
/// recovering peer catches up from durable storage alone.
pub fn replay(genesis: World, store: &LedgerStore) -> (r: World)
    requires
        genesis@.wf(),
    ensures
        r@ == replay_v(genesis@, store.blocks@),
        r@.wf(),
{
    let mut w = genesis;
    let ghost genesis_view = w@;
    let mut i: usize = 0;
    while i < store.blocks.len()
        invariant
            i <= store.blocks.len(),
            genesis_view.wf(),
            w@.wf(),
            w@ == replay_v(genesis_view, store.blocks@.take(i as int)),
        decreases store.blocks.len() - i,
    {
        crate::transaction::apply_transactions(&mut w, &store.blocks[i].transactions);
        proof {
            assert(store.blocks@.take(i as int + 1).drop_last() =~= store.blocks@.take(i as int));
            assert(store.blocks@.take(i as int + 1).last() == store.blocks@[i as int]);
        }
        i += 1;
    }
    proof {
        assert(store.blocks@.take(store.blocks@.len() as int) =~= store.blocks@);
    }
    w
}

} // verus!
