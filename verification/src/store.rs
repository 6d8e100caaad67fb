//! The ledger store: an append-only, height-indexed log of committed blocks.
//! Each persisted record prefixes its own length, so a restart can discard an
//! incomplete trailing write and recover exactly the fully-written blocks.

use vstd::prelude::*;
use vstd::bytes::{
    lemma_auto_spec_u64_to_from_le_bytes, spec_u64_from_le_bytes, u64_from_le_bytes,
};
use vstd::slice::slice_subrange;

use crate::block::{enc_block, enc_u64, CommittedBlock};

verus! {

/// One persisted record: the body's length, then the body.
pub open spec fn enc_record(body: Seq<u8>) -> Seq<u8> {
    enc_u64(body.len() as u64) + body
}

/// The persisted image of a block sequence: its records in height order.
pub open spec fn enc_log(blocks: Seq<CommittedBlock>) -> Seq<u8>
    decreases blocks.len(),
{
    if blocks.len() == 0 {
        Seq::empty()
    } else {
        enc_log(blocks.drop_last()) + enc_record(enc_block(blocks.last()))
    }
}

/// A trailing write that never completed: too short for its length prefix,
/// or shorter than the length it promises.
pub open spec fn incomplete_record(tail: Seq<u8>) -> bool {
    ||| tail.len() < 8
    ||| tail.len() - 8 < spec_u64_from_le_bytes(tail.take(8))
}

/// The record bodies recoverable from raw bytes: whole records from the
/// front, stopping at the first incomplete one.
pub open spec fn parse_records(bytes: Seq<u8>) -> Seq<Seq<u8>>
    decreases bytes.len(),
{
    if bytes.len() < 8 {
        Seq::empty()
    } else {
        let len = spec_u64_from_le_bytes(bytes.take(8)) as int;
        if bytes.len() - 8 < len {
            Seq::empty()
        } else {
            seq![bytes.subrange(8, 8 + len)] + parse_records(bytes.skip(8 + len))
        }
    }
}

/// The log decomposed from the front: the first block's record, then the
/// rest.
pub proof fn lemma_enc_log_front(blocks: Seq<CommittedBlock>)
    requires
        blocks.len() > 0,
    ensures
        enc_log(blocks) == enc_record(enc_block(blocks[0])) + enc_log(blocks.drop_first()),
    decreases blocks.len(),
{
    if blocks.len() == 1 {
        assert(blocks.drop_last() =~= Seq::<CommittedBlock>::empty());
        assert(blocks.drop_first() =~= Seq::<CommittedBlock>::empty());
        assert(blocks.last() == blocks[0]);
        assert(enc_log(blocks) =~= enc_record(enc_block(blocks[0])) + enc_log(
            blocks.drop_first(),
        ));
    } else {
        lemma_enc_log_front(blocks.drop_last());
        assert(blocks.drop_last()[0] == blocks[0]);
        assert(blocks.drop_last().drop_first() =~= blocks.drop_first().drop_last());
        assert(blocks.drop_first().last() == blocks.last());
        assert(blocks.drop_first().len() > 0);
        assert(enc_log(blocks) == enc_log(blocks.drop_last()) + enc_record(
            enc_block(blocks.last()),
        ));
        assert(enc_log(blocks.drop_last()) == enc_record(enc_block(blocks[0])) + enc_log(
            blocks.drop_last().drop_first(),
        ));
        assert(enc_log(blocks.drop_first()) == enc_log(blocks.drop_first().drop_last())
            + enc_record(enc_block(blocks.drop_first().last())));
        assert(enc_log(blocks) =~= enc_record(enc_block(blocks[0])) + enc_log(
            blocks.drop_first(),
        ));
    }
}

/// Crash consistency of the persisted layout: from a log image followed by
/// an incomplete trailing write, recovery yields exactly the fully-written
/// blocks' bodies — the torn tail is discarded.
#[verifier::rlimit(60)]
pub proof fn lemma_recovery(blocks: Seq<CommittedBlock>, tail: Seq<u8>)
    requires
        incomplete_record(tail),
        forall|i: int| 0 <= i < blocks.len() ==> #[trigger] enc_block(blocks[i]).len() <= u64::MAX,
    ensures
        parse_records(enc_log(blocks) + tail) == blocks.map_values(|b: CommittedBlock| enc_block(b)),
    decreases blocks.len(),
{
    lemma_auto_spec_u64_to_from_le_bytes();
    if blocks.len() == 0 {
        assert(enc_log(blocks) + tail =~= tail);
        assert(parse_records(tail) =~= Seq::<Seq<u8>>::empty());
        assert(blocks.map_values(|b: CommittedBlock| enc_block(b)) =~= Seq::<Seq<u8>>::empty());
    } else {
        lemma_enc_log_front(blocks);
        let body = enc_block(blocks[0]);
        let rest = enc_log(blocks.drop_first()) + tail;
        let whole = enc_log(blocks) + tail;
        assert(whole =~= enc_u64(body.len() as u64) + body + rest);
        assert(whole.len() >= 8);
        assert(whole.take(8) =~= enc_u64(body.len() as u64));
        assert(spec_u64_from_le_bytes(whole.take(8)) == body.len() as u64);
        assert(whole.len() - 8 == body.len() + rest.len());
        assert(whole.subrange(8, 8 + body.len() as int) =~= body);
        assert(whole.skip(8 + body.len() as int) =~= rest);
        assert(parse_records(whole) == seq![body] + parse_records(rest));
        assert(forall|i: int|
            0 <= i < blocks.drop_first().len() ==> #[trigger] enc_block(
                blocks.drop_first()[i],
            ).len() <= u64::MAX);
        lemma_recovery(blocks.drop_first(), tail);
        assert(blocks.map_values(|b: CommittedBlock| enc_block(b)) =~= seq![body]
            + blocks.drop_first().map_values(|b: CommittedBlock| enc_block(b)));
    }
}

/// Recover the record bodies from raw log bytes, discarding an incomplete
/// trailing write.
pub fn recover_records(bytes: &Vec<u8>) -> (r: Vec<Vec<u8>>)
    ensures
        r@.map_values(|v: Vec<u8>| v@) == parse_records(bytes@),
{
    let mut out: Vec<Vec<u8>> = Vec::new();
    let mut p: usize = 0;
    proof {
        assert(bytes@.skip(0) =~= bytes@);
        assert(out@.map_values(|v: Vec<u8>| v@) + parse_records(bytes@.skip(0))
            =~= parse_records(bytes@));
    }
    loop
        invariant
            p <= bytes.len(),
            out@.map_values(|v: Vec<u8>| v@) + parse_records(bytes@.skip(p as int))
                == parse_records(bytes@),
        decreases bytes.len() - p,
    {
        if bytes.len() - p < 8 {
            proof {
                assert(bytes@.skip(p as int).len() < 8);
                assert(out@.map_values(|v: Vec<u8>| v@) =~= parse_records(bytes@));
            }
            return out;
        }
        let prefix = slice_subrange(bytes.as_slice(), p, p + 8);
        let len64 = u64_from_le_bytes(prefix);
        proof {
            assert(bytes@.skip(p as int).take(8) =~= bytes@.subrange(p as int, p as int + 8));
        }
        if ((bytes.len() - p - 8) as u64) < len64 {
            proof {
                assert(out@.map_values(|v: Vec<u8>| v@) =~= parse_records(bytes@));
            }
            return out;
        }
        let len = len64 as usize;
        let mut body: Vec<u8> = Vec::new();
        let mut k: usize = 0;
        while k < len
            invariant
                k <= len,
                p + 8 + len <= bytes.len(),
                body@ == bytes@.subrange(p as int + 8, p as int + 8 + k as int),
            decreases len - k,
        {
            body.push(bytes[p + 8 + k]);
            proof {
                assert(body@ =~= bytes@.subrange(p as int + 8, p as int + 8 + k as int + 1));
            }
            k += 1;
        }
        let ghost old_out = out@.map_values(|v: Vec<u8>| v@);
        out.push(body);
        proof {
            assert(bytes@.skip(p as int).subrange(8, 8 + len as int) =~= bytes@.subrange(
                p as int + 8,
                p as int + 8 + len as int,
            ));
            assert(bytes@.skip(p as int).skip(8 + len as int) =~= bytes@.skip(
                p as int + 8 + len as int,
            ));
            assert(parse_records(bytes@.skip(p as int)) == seq![
                bytes@.subrange(p as int + 8, p as int + 8 + len as int),
            ] + parse_records(bytes@.skip(p as int + 8 + len as int)));
            assert(out@.map_values(|v: Vec<u8>| v@) =~= old_out + seq![
                bytes@.subrange(p as int + 8, p as int + 8 + len as int),
            ]);
        }
        p = p + 8 + len;
    }
}

/// The durable block store: the committed blocks and their persisted image.
#[derive(Debug)]
pub struct LedgerStore {
    pub blocks: Vec<CommittedBlock>,
    pub log: Vec<u8>,
}

impl LedgerStore {
    /// The persisted image is exactly the records of the committed blocks.
    pub open spec fn wf(self) -> bool {
        self.log@ == enc_log(self.blocks@)
    }

    pub fn new() -> (r: LedgerStore)
        ensures
            r.wf(),
            r.blocks@.len() == 0,
    {
        let r = LedgerStore { blocks: Vec::new(), log: Vec::new() };
        proof {
            assert(r.log@ =~= enc_log(r.blocks@));
        }
        r
    }

    /// Current height: the number of committed blocks.
    pub fn height(&self) -> (r: usize)
        ensures
            r == self.blocks@.len(),
    {
        self.blocks.len()
    }

    /// Sequential append of one committed block: the block and its record
    /// are added at the tail.
    pub fn append(&mut self, block: CommittedBlock)
        requires
            old(self).wf(),
        ensures
            final(self).wf(),
            final(self).blocks@ == old(self).blocks@.push(block),
    {
        let mut record = crate::block::encode_block(&block);
        let ghost body = record@;
        let mut framed: Vec<u8> = Vec::new();
        let mut len_bytes = vstd::bytes::u64_to_le_bytes(record.len() as u64);
        framed.append(&mut len_bytes);
        framed.append(&mut record);
        proof {
            assert(framed@ =~= enc_record(body));
        }
        self.log.append(&mut framed);
        self.blocks.push(block);
        proof {
            assert(self.blocks@.drop_last() =~= old(self).blocks@);
            assert(self.blocks@.last() == block);
            assert(self.log@ =~= enc_log(self.blocks@));
        }
    }

    /// Sequential read of every block from the given height upward, in
    /// height order: the restartable feed a recovering peer replays.
    pub fn replay_from(&self, height: usize) -> (r: &[CommittedBlock])
        requires
            height <= self.blocks@.len(),
        ensures
            r@ == self.blocks@.skip(height as int),
    {
        let r = vstd::slice::slice_subrange(self.blocks.as_slice(), height, self.blocks.len());
        proof {
            assert(self.blocks@.subrange(height as int, self.blocks@.len() as int)
                =~= self.blocks@.skip(height as int));
        }
        r
    }

    /// Random read by height.
    pub fn get(&self, height: usize) -> (r: Option<&CommittedBlock>)
        ensures
            match r {
                Some(b) => height < self.blocks@.len() && *b == self.blocks@[height as int],
                None => height >= self.blocks@.len(),
            },
    {
        if height < self.blocks.len() {
            Some(&self.blocks[height])
        } else {
            None
        }
    }
}

} // verus!
