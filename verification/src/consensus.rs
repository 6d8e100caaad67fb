//! The consensus engine: transaction intake, block proposal, vote
//! aggregation, commitment and view-change, one height at a time.
//!
//! Transport and cryptography are outside collaborators: votes and proposals
//! arrive as already-authenticated events, and the engine decides what every
//! event does to its state.

use vstd::prelude::*;

use crate::block::{block_digest, compute_block_digest, BlockHeader, CommittedBlock};
use crate::chain::{chain_wf, quorum_ok, replay_v};
use crate::instruction::RejectionReason;
use crate::store::LedgerStore;
use crate::topology::{required_signatures_spec, Topology};
use crate::transaction::{
    accept_transaction, acceptable_v, apply_block_v, apply_transactions, AcceptError,
    SignedTransaction,
};
use crate::world::{
    max_transactions_name, max_instructions_name, Validator, World, WorldV,
    DEFAULT_MAX_INSTRUCTIONS, DEFAULT_MAX_TRANSACTIONS,
};

verus! {

/// Where the engine stands within the current height.
#[derive(Debug, Clone, Copy, PartialEq, Eq, Structural)]
pub enum Phase {
    /// Waiting for a new height to begin.
    Idle,
    /// A round has begun: the leader builds a candidate, the others await it.
    ProposingBlock,
    /// A candidate circulates; signatures are being collected.
    AwaitingSignatures,
    /// Quorum reached: the candidate is frozen and ready to commit.
    Committing,
    /// The round stalled; the leader is about to be rotated out.
    ViewChange,
}

/// Whether a pooled transaction has outlived its time-to-live.
pub open spec fn expired_v(tx: SignedTransaction, now_ms: u64) -> bool {
    tx.created_at_ms + tx.time_to_live_ms < now_ms
}

/// The batch drained from the pool for one proposal: expired transactions
/// are dropped, live ones are taken in input order up to the bound, and the
/// rest stay pooled.
pub open spec fn drain_batch_v(
    pool: Seq<SignedTransaction>,
    now_ms: u64,
    max: int,
) -> (Seq<SignedTransaction>, Seq<SignedTransaction>)
    decreases pool.len(),
{
    if pool.len() == 0 {
        (Seq::empty(), pool)
    } else if max <= 0 {
        (Seq::empty(), pool)
    } else if expired_v(pool[0], now_ms) {
        drain_batch_v(pool.drop_first(), now_ms, max)
    } else {
        let rest = drain_batch_v(pool.drop_first(), now_ms, max - 1);
        (seq![pool[0]] + rest.0, rest.1)
    }
}

/// One peer's consensus engine for one ledger.
pub struct ConsensusEngine {
    /// This peer's identity.
    pub peer_id: u64,
    /// The durable, append-only block store.
    pub store: LedgerStore,
    /// The authoritative world state at the committed height.
    pub world: World,
    /// The ordering of the peer set for the current height and view.
    pub topology: Topology,
    /// Accepted transactions awaiting inclusion.
    pub pending: Vec<SignedTransaction>,
    pub phase: Phase,
    /// The in-flight candidate for the current height, if any.
    pub candidate: Option<CommittedBlock>,
    /// The world the chain started from; replaying the store reproduces the
    /// current world from it.
    pub genesis: Ghost<WorldV>,
}

impl ConsensusEngine {
    /// The in-flight candidate extends the committed chain at the current
    /// height: its outcomes are exactly what executing its batch against the
    /// current world yields, and its signatures are distinct topology
    /// members.
    pub open spec fn candidate_wf(self, c: CommittedBlock) -> bool {
        &&& c.header.height == self.store.blocks@.len()
        &&& self.store.blocks@.len() > 0 ==> c.header.previous_hash == block_digest(
            self.store.blocks@.last(),
        )
        &&& c.outcomes@ == apply_block_v(self.world@, c.transactions@).1
        &&& c.topology@ == self.topology.peers@
        &&& forall|p: int, q: int|
            0 <= p < q < c.signatures@.len() ==> c.signatures@[p] != c.signatures@[q]
        &&& forall|p: int| 0 <= p < c.signatures@.len() ==> c.topology@.contains(c.signatures@[p])
    }

    /// The engine's whole-state invariant: the store is a valid chain, the
    /// world is its replay, the topology is well-formed, and whatever phase
    /// the engine is in, its candidate extends the chain correctly.
    pub open spec fn wf(self) -> bool {
        &&& self.store.wf()
        &&& self.genesis@.wf()
        &&& chain_wf(self.genesis@, self.store.blocks@)
        &&& self.world@ == replay_v(self.genesis@, self.store.blocks@)
        &&& self.world@.wf()
        &&& self.topology.wf()
        &&& (self.phase == Phase::AwaitingSignatures || self.phase == Phase::Committing)
            ==> match self.candidate {
            Some(c) => self.candidate_wf(c),
            None => self.phase == Phase::AwaitingSignatures,
        }
        &&& self.phase == Phase::Committing ==> match self.candidate {
            Some(c) => c.signatures@.len() >= required_signatures_spec(c.topology@.len()),
            None => false,
        }
    }

    /// The committed height.
    pub open spec fn height(self) -> nat {
        self.store.blocks@.len()
    }

    /// A fresh engine at height zero over a genesis peer set and policy.
    pub fn new(peer_id: u64, peers: Vec<u64>, validator: Validator) -> (r: ConsensusEngine)
        requires
            peers@.len() > 0,
            forall|i: int, j: int| 0 <= i < j < peers@.len() ==> peers@[i] != peers@[j],
        ensures
            r.wf(),
            r.height() == 0,
            r.phase == Phase::Idle,
            r.pending@.len() == 0,
            r.world@ == replay_v(r.genesis@, Seq::empty()),
            r.topology.peers@ == peers@,
    {
        let topology = Topology::derive_next(&peers);
        let world = World::new(peers, validator);
        let ghost genesis = world@;
        let r = ConsensusEngine {
            peer_id,
            store: LedgerStore::new(),
            world,
            topology,
            pending: Vec::new(),
            phase: Phase::Idle,
            candidate: None,
            genesis: Ghost(genesis),
        };
        proof {
            assert(r.store.blocks@.take(0) =~= Seq::<CommittedBlock>::empty());
        }
        r
    }

    /// Syntactic intake: an acceptable transaction joins the pending pool,
    /// and a refused one reports exactly why.
    pub fn submit(&mut self, tx: SignedTransaction) -> (r: Result<(), AcceptError>)
        requires
            old(self).wf(),
        ensures
            final(self).wf(),
            r == acceptable_v(tx, old(self).world@.parameter_or(
                max_instructions_name(),
                DEFAULT_MAX_INSTRUCTIONS,
            )),
            match r {
                Ok(()) => final(self).pending@ == old(self).pending@.push(tx),
                Err(_) => *final(self) == *old(self),
            },
    {
        let max_name = String::from_str("max_instructions_per_transaction");
        proof {
            assert(max_name@ == max_instructions_name());
        }
        let max = self.world.parameter_or(&max_name, DEFAULT_MAX_INSTRUCTIONS);
        match accept_transaction(&tx, max) {
            Ok(()) => {
                self.pending.push(tx);
                Ok(())
            },
            Err(e) => Err(e),
        }
    }

    /// Enter a new round for the next height.
    pub fn start_round(&mut self)
        requires
            old(self).wf(),
            old(self).phase == Phase::Idle,
        ensures
            final(self).wf(),
            final(self).phase == Phase::ProposingBlock,
            final(self).store.blocks@ == old(self).store.blocks@,
            final(self).pending@ == old(self).pending@,
            final(self).topology.peers@ == old(self).topology.peers@,
            final(self).candidate == old(self).candidate,
    {
        self.phase = Phase::ProposingBlock;
    }

    /// Whether this peer leads the current view.
    pub fn is_leader(&self) -> (r: bool)
        requires
            self.wf(),
        ensures
            r == (self.peer_id == self.topology.leader_spec()),
    {
        self.peer_id == self.topology.leader()
    }

    /// Drain a batch for a proposal: expired transactions are dropped, live
    /// ones are taken in input order up to the bound.
    fn drain_batch(&mut self, now_ms: u64, max: u64) -> (batch: Vec<SignedTransaction>)
        ensures
            batch@ == drain_batch_v(old(self).pending@, now_ms, max as int).0,
            final(self).pending@ == drain_batch_v(old(self).pending@, now_ms, max as int).1,
            final(self).store == old(self).store,
            final(self).world == old(self).world,
            final(self).topology == old(self).topology,
            final(self).phase == old(self).phase,
            final(self).candidate == old(self).candidate,
            final(self).peer_id == old(self).peer_id,
            final(self).genesis == old(self).genesis,
    {
        let ghost orig = self.pending@;
        let mut batch: Vec<SignedTransaction> = Vec::new();
        proof {
            assert(Seq::<SignedTransaction>::empty() + drain_batch_v(orig, now_ms, max as int).0
                =~= drain_batch_v(orig, now_ms, max as int).0);
        }
        while self.pending.len() > 0 && (batch.len() as u64) < max
            invariant
                batch@.len() <= max,
                drain_batch_v(orig, now_ms, max as int).0 == batch@ + drain_batch_v(
                    self.pending@,
                    now_ms,
                    max as int - batch@.len(),
                ).0,
                drain_batch_v(orig, now_ms, max as int).1 == drain_batch_v(
                    self.pending@,
                    now_ms,
                    max as int - batch@.len(),
                ).1,
                self.store == old(self).store,
                self.world == old(self).world,
                self.topology == old(self).topology,
                self.phase == old(self).phase,
                self.candidate == old(self).candidate,
                self.peer_id == old(self).peer_id,
                self.genesis == old(self).genesis,
            decreases self.pending.len(),
        {
            let ghost pool_before = self.pending@;
            let ghost batch_before = batch@;
            let ghost rem = max as int - batch@.len();
            let tx = self.pending.remove(0);
            proof {
                assert(pool_before.drop_first() =~= self.pending@);
            }
            let live: bool = (tx.created_at_ms as u128) + (tx.time_to_live_ms as u128)
                >= (now_ms as u128);
            if live {
                batch.push(tx);
                proof {
                    assert(!expired_v(pool_before[0], now_ms));
                    assert(drain_batch_v(pool_before, now_ms, rem).0 == seq![pool_before[0]]
                        + drain_batch_v(self.pending@, now_ms, rem - 1).0);
                    assert(batch@ =~= batch_before + seq![pool_before[0]]);
                    assert(batch_before + (seq![pool_before[0]] + drain_batch_v(
                        self.pending@,
                        now_ms,
                        rem - 1,
                    ).0) =~= batch@ + drain_batch_v(self.pending@, now_ms, rem - 1).0);
                }
            } else {
                proof {
                    assert(expired_v(pool_before[0], now_ms));
                    assert(drain_batch_v(pool_before, now_ms, rem) == drain_batch_v(
                        self.pending@,
                        now_ms,
                        rem,
                    ));
                }
            }
        }
        proof {
            if self.pending.len() == 0 {
                assert(drain_batch_v(self.pending@, now_ms, max as int - batch@.len()).0
                    =~= Seq::<SignedTransaction>::empty());
            }
            assert(batch@ + Seq::<SignedTransaction>::empty() =~= batch@);
        }
        batch
    }

    /// The leader's side of a round: drain a bounded batch, trial-execute it
    /// against a scratch copy of the world, tag each transaction with its
    /// outcome, reference the previous block, and stand the self-signed
    /// candidate for counter-signing.
    pub fn build_proposal(&mut self, now_ms: u64)
        requires
            old(self).wf(),
            old(self).phase == Phase::ProposingBlock,
            old(self).peer_id == old(self).topology.leader_spec(),
            old(self).store.blocks@.len() < u64::MAX,
        ensures
            final(self).wf(),
            final(self).phase == Phase::AwaitingSignatures,
            final(self).candidate is Some,
            final(self).store.blocks@ == old(self).store.blocks@,
            match final(self).candidate {
                Some(c) => {
                    &&& final(self).candidate_wf(c)
                    &&& c.transactions@ == drain_batch_v(
                        old(self).pending@,
                        now_ms,
                        old(self).world@.parameter_or(
                            max_transactions_name(),
                            DEFAULT_MAX_TRANSACTIONS,
                        ) as int,
                    ).0
                    &&& final(self).pending@ == drain_batch_v(
                        old(self).pending@,
                        now_ms,
                        old(self).world@.parameter_or(
                            max_transactions_name(),
                            DEFAULT_MAX_TRANSACTIONS,
                        ) as int,
                    ).1
                    &&& c.signatures@ == seq![old(self).peer_id]
                    &&& c.header.timestamp_ms == now_ms
                },
                None => false,
            },
    {
        let max_name = String::from_str("max_transactions_in_block");
        proof {
            assert(max_name@ == max_transactions_name());
        }
        let max = self.world.parameter_or(&max_name, DEFAULT_MAX_TRANSACTIONS);
        let batch = self.drain_batch(now_ms, max);
        let mut scratch = self.world.snapshot();
        let outcomes = apply_transactions(&mut scratch, &batch);
        let previous_hash: u64 = if self.store.blocks.len() == 0 {
            0
        } else {
            let last = self.store.blocks.len() - 1;
            compute_block_digest(&self.store.blocks[last])
        };
        proof {
            if self.store.blocks@.len() > 0 {
                assert(self.store.blocks@[self.store.blocks@.len() - 1]
                    == self.store.blocks@.last());
            }
        }
        let mut signatures: Vec<u64> = Vec::new();
        signatures.push(self.peer_id);
        let candidate = CommittedBlock {
            header: BlockHeader {
                height: self.store.blocks.len() as u64,
                previous_hash,
                timestamp_ms: now_ms,
                view: self.topology.view,
            },
            transactions: batch,
            outcomes,
            topology: self.topology.peers.clone(),
            signatures,
        };
        proof {
            assert(candidate.signatures@ =~= seq![self.peer_id]);
            assert(candidate.topology@.contains(candidate.signatures@[0])) by {
                assert(self.topology.peers@[0] == self.topology.leader_spec());
            }
        }
        self.candidate = Some(candidate);
        self.phase = Phase::AwaitingSignatures;
    }

    /// A peer's independent re-validation of a received candidate: whether
    /// the claimed outcomes are exactly what executing the batch against its
    /// own world yields. A peer that disagrees withholds its signature.
    pub fn validate_proposal(
        &self,
        transactions: &Vec<SignedTransaction>,
        claimed: &Vec<Option<RejectionReason>>,
    ) -> (r: bool)
        requires
            self.wf(),
        ensures
            r == (claimed@ == apply_block_v(self.world@, transactions@).1),
    {
        let mut scratch = self.world.snapshot();
        let outcomes = apply_transactions(&mut scratch, transactions);
        if outcomes.len() != claimed.len() {
            proof {
                assert(outcomes@.len() != claimed@.len());
            }
            return false;
        }
        let mut i: usize = 0;
        while i < outcomes.len()
            invariant
                i <= outcomes.len(),
                outcomes@.len() == claimed@.len(),
                outcomes@ == apply_block_v(self.world@, transactions@).1,
                forall|j: int| 0 <= j < i ==> outcomes@[j] == claimed@[j],
            decreases outcomes.len() - i,
        {
            let same = match (&outcomes[i], &claimed[i]) {
                (None, None) => true,
                (Some(a), Some(b)) => *a == *b,
                _ => false,
            };
            if !same {
                return false;
            }
            i += 1;
        }
        proof {
            assert(outcomes@ =~= claimed@);
        }
        true
    }

    /// Record one authenticated counter-signature. A vote from a peer
    /// outside the topology, or a repeated vote, changes nothing. Once the
    /// distinct signatures reach the required count the candidate is frozen
    /// for commitment.
    pub fn on_vote(&mut self, peer: u64) -> (quorum: bool)
        requires
            old(self).wf(),
            old(self).phase == Phase::AwaitingSignatures,
            old(self).candidate is Some,
        ensures
            final(self).wf(),
            final(self).store.blocks@ == old(self).store.blocks@,
            final(self).pending@ == old(self).pending@,
            final(self).topology == old(self).topology,
            quorum ==> final(self).phase == Phase::Committing,
            !quorum ==> final(self).phase == Phase::AwaitingSignatures,
            match (old(self).candidate, final(self).candidate) {
                (Some(c0), Some(c1)) => {
                    &&& c1.header == c0.header
                    &&& c1.transactions@ == c0.transactions@
                    &&& c1.outcomes@ == c0.outcomes@
                    &&& c1.topology@ == c0.topology@
                    &&& c1.signatures@ == if c0.topology@.contains(peer)
                        && !c0.signatures@.contains(peer) {
                        c0.signatures@.push(peer)
                    } else {
                        c0.signatures@
                    }
                    &&& quorum == (c1.signatures@.len() >= required_signatures_spec(
                        c1.topology@.len(),
                    ))
                },
                _ => false,
            },
    {
        let candidate = self.candidate.take();
        let mut c = match candidate {
            Some(c) => c,
            None => {
                proof {
                    assert(false);
                }
                return false;
            },
        };
        let mut member: bool = false;
        let mut k: usize = 0;
        while k < c.topology.len()
            invariant
                k <= c.topology@.len(),
                member == exists|j: int| 0 <= j < k && c.topology@[j] == peer,
            decreases c.topology@.len() - k,
        {
            if c.topology[k] == peer {
                member = true;
            }
            k += 1;
        }
        let mut already: bool = false;
        let mut k: usize = 0;
        while k < c.signatures.len()
            invariant
                k <= c.signatures@.len(),
                already == exists|j: int| 0 <= j < k && c.signatures@[j] == peer,
            decreases c.signatures@.len() - k,
        {
            if c.signatures[k] == peer {
                already = true;
            }
            k += 1;
        }
        if member && !already {
            c.signatures.push(peer);
            proof {
                assert(c.topology@.contains(peer));
            }
        }
        let required = Topology::new(c.topology.clone(), 0).required_signatures();
        let reached = c.signatures.len() >= required;
        self.candidate = Some(c);
        if reached {
            self.phase = Phase::Committing;
            true
        } else {
            false
        }
    }

    /// Commit the frozen candidate: it becomes immutable, is applied to the
    /// authoritative world, appended to the store, and the topology for the
    /// next height is derived. The engine returns to rest, one height
    /// further.
    pub fn commit(&mut self)
        requires
            old(self).wf(),
            old(self).phase == Phase::Committing,
        ensures
            final(self).wf(),
            final(self).phase == Phase::Idle,
            final(self).candidate is None,
            final(self).height() == old(self).height() + 1,
            match old(self).candidate {
                Some(c) => final(self).store.blocks@ == old(self).store.blocks@.push(c),
                None => false,
            },
            final(self).pending@ == old(self).pending@,
    {
        let candidate = self.candidate.take();
        let c = match candidate {
            Some(c) => c,
            None => {
                proof {
                    assert(false);
                }
                return ;
            },
        };
        let ghost old_blocks = self.store.blocks@;
        let ghost old_world = self.world@;
        let _outcomes = apply_transactions(&mut self.world, &c.transactions);
        proof {
            assert(self.world@ == apply_block_v(old_world, c.transactions@).0);
        }
        let ghost cg = c;
        self.store.append(c);
        proof {
            let blocks = self.store.blocks@;
            assert(blocks.drop_last() =~= old_blocks);
            assert(blocks.last() == cg);
            assert(self.world@ == replay_v(self.genesis@, blocks));
            assert forall|i: int| 0 <= i <= old_blocks.len() implies blocks.take(i)
                == old_blocks.take(i) by {
                assert(blocks.take(i) =~= old_blocks.take(i));
            }
            assert(old_blocks.take(old_blocks.len() as int) =~= old_blocks);
            assert(quorum_ok(cg));
            assert forall|i: int| 0 <= i < blocks.len() implies #[trigger] blocks[i].outcomes@
                == apply_block_v(
                replay_v(self.genesis@, blocks.take(i)),
                blocks[i].transactions@,
            ).1 by {
                if i < old_blocks.len() {
                    assert(blocks[i] == old_blocks[i]);
                } else {
                    assert(blocks[i] == cg);
                    assert(blocks.take(i) == old_blocks);
                }
            }
            assert(chain_wf(self.genesis@, blocks));
        }
        let next_topology = Topology::derive_next(&self.world.peers);
        self.topology = next_topology;
        self.phase = Phase::Idle;
    }

    /// The round stalled: no quorum arrived within the block time.
    pub fn on_timeout(&mut self)
        requires
            old(self).wf(),
            old(self).phase == Phase::ProposingBlock || old(self).phase
                == Phase::AwaitingSignatures,
        ensures
            final(self).wf(),
            final(self).phase == Phase::ViewChange,
            final(self).store.blocks@ == old(self).store.blocks@,
            final(self).candidate == old(self).candidate,
            final(self).pending@ == old(self).pending@,
    {
        self.phase = Phase::ViewChange;
    }

    /// Complete a view-change: the stalled candidate is discarded, its
    /// transactions return to the front of the pending pool unchanged, the
    /// next peer is promoted to leader, and the height does not advance.
    pub fn complete_view_change(&mut self)
        requires
            old(self).wf(),
            old(self).phase == Phase::ViewChange,
            old(self).topology.view < u64::MAX,
        ensures
            final(self).wf(),
            final(self).phase == Phase::Idle,
            final(self).height() == old(self).height(),
            final(self).store.blocks@ == old(self).store.blocks@,
            final(self).candidate is None,
            final(self).topology.peers@ == old(self).topology.peers@.skip(1).push(
                old(self).topology.peers@[0],
            ),
            old(self).topology.peers@.len() > 1 ==> final(self).topology.leader_spec()
                == old(self).topology.peers@[1],
            match old(self).candidate {
                Some(c) => final(self).pending@ == c.transactions@ + old(self).pending@,
                None => final(self).pending@ == old(self).pending@,
            },
    {
        let candidate = self.candidate.take();
        match candidate {
            Some(c) => {
                let mut restored = c.transactions;
                restored.append(&mut self.pending);
                self.pending = restored;
            },
            None => {},
        }
        let rotated = self.topology.rotate_on_timeout();
        self.topology = rotated;
        self.phase = Phase::Idle;
    }
}

} // verus!
