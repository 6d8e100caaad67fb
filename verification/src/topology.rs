//! Deterministic, versioned ordering of the current peer set: the leader and
//! the co-signer quorum for one height, and the rotation performed by a
//! view-change.

use vstd::prelude::*;

verus! {

/// Ordered view of the peer set for one height and view number. The first
/// peer of the ordering is the leader.
#[derive(Debug)]
pub struct Topology {
    pub peers: Vec<u64>,
    pub view: u64,
}

/// Smallest signature count giving Byzantine safety among `n` peers: with
/// `f` the number of tolerated faulty peers, two `f` plus one.
pub open spec fn required_signatures_spec(n: nat) -> nat
    recommends
        n > 0,
{
    2 * ((n - 1) as nat / 3) + 1
}

/// The required count always lies between one and the peer count.
pub proof fn lemma_required_signatures_bounds(n: nat)
    requires
        n > 0,
    ensures
        1 <= required_signatures_spec(n) <= n,
{
    let f = (n - 1) as nat / 3;
    vstd::arithmetic::div_mod::lemma_fundamental_div_mod((n - 1) as int, 3);
    assert((n - 1) as int == 3 * ((n - 1) as int / 3) + (n - 1) as int % 3);
    vstd::arithmetic::div_mod::lemma_mod_bound((n - 1) as int, 3);
    assert(3 * (f as int) <= (n - 1) as int);
}

impl Topology {
    /// A topology is a non-empty list of distinct peers.
    pub open spec fn wf(self) -> bool {
        &&& self.peers@.len() > 0
        &&& forall|i: int, j: int|
            0 <= i < j < self.peers@.len() ==> self.peers@[i] != self.peers@[j]
    }

    /// The leader for this height and view: the first peer of the ordering.
    pub open spec fn leader_spec(self) -> u64 {
        self.peers@[0]
    }

    pub fn new(peers: Vec<u64>, view: u64) -> (r: Topology)
        requires
            peers@.len() > 0,
            forall|i: int, j: int| 0 <= i < j < peers@.len() ==> peers@[i] != peers@[j],
        ensures
            r.wf(),
            r.peers@ == peers@,
            r.view == view,
    {
        Topology { peers, view }
    }

    pub fn leader(&self) -> (r: u64)
        requires
            self.wf(),
        ensures
            r == self.leader_spec(),
    {
        self.peers[0]
    }

    /// The number of distinct peer signatures a candidate block needs before
    /// it may commit.
    pub fn required_signatures(&self) -> (r: usize)
        requires
            self.wf(),
        ensures
            r == required_signatures_spec(self.peers@.len()),
            0 < r <= self.peers@.len(),
    {
        let n = self.peers.len();
        let f = (n - 1) / 3;
        proof {
            lemma_required_signatures_bounds(self.peers@.len());
        }
        2 * f + 1
    }

    /// The view-change successor: the next peer is promoted to leader, the
    /// stalled one moves to the back, and the view number advances. Height
    /// is untouched by construction.
    pub fn rotate_on_timeout(&self) -> (r: Topology)
        requires
            self.wf(),
            self.view < u64::MAX,
        ensures
            r.wf(),
            r.view == self.view + 1,
            r.peers@ == self.peers@.skip(1).push(self.peers@[0]),
            r.peers@.len() == self.peers@.len(),
            self.peers@.len() > 1 ==> r.leader_spec() == self.peers@[1],
    {
        let mut rotated: Vec<u64> = Vec::new();
        let mut i: usize = 1;
        while i < self.peers.len()
            invariant
                1 <= i <= self.peers.len(),
                rotated@ == self.peers@.subrange(1, i as int),
            decreases self.peers.len() - i,
        {
            rotated.push(self.peers[i]);
            proof {
                assert(rotated@ =~= self.peers@.subrange(1, i as int + 1));
            }
            i += 1;
        }
        rotated.push(self.peers[0]);
        proof {
            assert(rotated@ =~= self.peers@.skip(1).push(self.peers@[0]));
        }
        Topology { peers: rotated, view: self.view + 1 }
    }

    /// The topology for the next height: the ordering of the peer set after
    /// the committed block, with the view reset. A block without
    /// reconfiguration carries the previous ordering forward unchanged.
    pub fn derive_next(peers_after: &Vec<u64>) -> (r: Topology)
        requires
            peers_after@.len() > 0,
            forall|i: int, j: int|
                0 <= i < j < peers_after@.len() ==> peers_after@[i] != peers_after@[j],
        ensures
            r.wf(),
            r.peers@ == peers_after@,
            r.view == 0,
    {
        let mut peers: Vec<u64> = Vec::new();
        let mut i: usize = 0;
        while i < peers_after.len()
            invariant
                i <= peers_after.len(),
                peers@ == peers_after@.take(i as int),
            decreases peers_after.len() - i,
        {
            peers.push(peers_after[i]);
            proof {
                assert(peers@ =~= peers_after@.take(i as int + 1));
            }
            i += 1;
        }
        proof {
            assert(peers_after@.take(peers_after@.len() as int) =~= peers_after@);
        }
        Topology { peers, view: 0 }
    }

    pub fn duplicate(&self) -> (r: Topology)
        ensures
            r.peers@ == self.peers@,
            r.view == self.view,
    {
        Topology { peers: self.peers.clone(), view: self.view }
    }
}

} // verus!
