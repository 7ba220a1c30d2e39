use crate::acc::{
    batch_verifies, deletion_ok, outputs_of, outputs_of_spends, witness_valid, witnesses_valid,
    AccError, Accumulator,
};
use crate::state::{
    copy_transactions, created_in, elems_from_transactions, spent_in, txs_view, Block, Transaction,
    TxView, Utxo,
};
use vstd::multiset::Multiset;
use vstd::set::Set;
use vstd::prelude::*;

verus! {

broadcast use vstd::multiset::group_multiset_axioms;

/// A miner: the snapshot it holds, the height of the last block it accepted,
/// and its pool of pending transactions.
pub struct Miner {
    acc: Accumulator,
    block_height: u64,
    pending_transactions: Vec<Transaction>,
}

/// What a miner's state stands for.
pub struct MinerView {
    pub acc: Multiset<Utxo>,
    pub block_height: u64,
    pub pool: Seq<TxView>,
}

/// What `validate_block` did with a block.
#[derive(Clone, Copy, Debug, PartialEq, Eq, Structural)]
pub enum BlockOutcome {
    /// The block extended the chain and was applied.
    Accepted,
    /// The block was not at the next height and was ignored.
    Skipped,
    /// The block was at the next height but its proofs did not hold; the
    /// state was left as it was.
    Inconsistent,
}

impl View for Miner {
    type V = MinerView;

    closed spec fn view(&self) -> MinerView {
        MinerView {
            acc: self.acc@,
            block_height: self.block_height,
            pool: txs_view(self.pending_transactions@),
        }
    }
}

/// The pool after `t` is submitted: unchanged where an equal transaction is
/// already pending, else `t` at the end.
pub open spec fn submit(pool: Seq<TxView>, t: TxView) -> Seq<TxView> {
    if pool.contains(t) {
        pool
    } else {
        pool.push(t)
    }
}

/// The pool after each of `ts` is submitted in turn.
pub open spec fn submit_all(pool: Seq<TxView>, ts: Seq<TxView>) -> Seq<TxView>
    decreases ts.len(),
{
    if ts.len() == 0 {
        pool
    } else {
        submit(submit_all(pool, ts.drop_last()), ts.last())
    }
}

/// Forging from state `m` succeeds: every pooled spend carries a witness
/// that verifies against the snapshot, and the snapshot holds all of them.
pub open spec fn forge_ok(m: MinerView) -> bool {
    deletion_ok(m.acc, spent_in(m.pool))
}

/// `b` is the block forged from state `m`.
pub open spec fn forged_from(m: MinerView, b: Block) -> bool {
    let after_delete = m.acc.sub(outputs_of(spent_in(m.pool)).to_multiset());
    &&& b.height == m.block_height + 1
    &&& txs_view(b.transactions@) == m.pool
    &&& b.proof_deleted.witness@ == after_delete
    &&& b.proof_added.witness@ == after_delete
    &&& b.acc_new@ == after_delete.add(created_in(m.pool).to_multiset())
}

/// `b` stands at the height right after `m`'s.
pub open spec fn extends(m: MinerView, b: Block) -> bool {
    m.block_height < u64::MAX && b.height == m.block_height + 1
}

/// The proofs of `b` hold against the snapshot `acc`: the spent outputs were
/// members of `acc`, the created ones are members of the new snapshot, and
/// both proofs start from the same intermediate snapshot.
pub open spec fn block_consistent(acc: Multiset<Utxo>, b: Block) -> bool {
    let txs = txs_view(b.transactions@);
    &&& batch_verifies(acc, outputs_of(spent_in(txs)), b.proof_deleted)
    &&& batch_verifies(b.acc_new@, created_in(txs), b.proof_added)
    &&& b.proof_deleted.witness@ == b.proof_added.witness@
}

/// The state of a miner once it has accepted `b`.
pub open spec fn accepted_state(b: Block) -> MinerView {
    MinerView { acc: b.acc_new@, block_height: b.height, pool: Seq::empty() }
}

impl Miner {
    /// The pool never holds two equal transactions.
    pub closed spec fn wf(&self) -> bool {
        txs_view(self.pending_transactions@).no_duplicates()
    }

    /// A miner at height 0 with the snapshot `acc` and an empty pool.
    pub fn new(acc: Accumulator) -> (r: Miner)
        ensures
            r.wf(),
            r@.acc == acc@,
            r@.block_height == 0,
            r@.pool == Seq::<TxView>::empty(),
    {
        let r = Miner { acc, block_height: 0, pending_transactions: Vec::new() };
        assert(r@.pool =~= Seq::<TxView>::empty());
        r
    }

    /// The height of the last accepted block.
    pub fn block_height(&self) -> (r: u64)
        ensures
            r == self@.block_height,
    {
        self.block_height
    }

    /// The current snapshot.
    pub fn accumulator(&self) -> (r: &Accumulator)
        ensures
            r@ == self@.acc,
    {
        &self.acc
    }

    /// How many transactions are pending.
    pub fn pending_count(&self) -> (r: usize)
        ensures
            r == self@.pool.len(),
    {
        self.pending_transactions.len()
    }

    /// Adds `transaction` to the pool unless an equal one is pending.
    pub fn add_transaction(&mut self, transaction: Transaction)
        requires
            old(self).wf(),
        ensures
            final(self).wf(),
            final(self)@.acc == old(self)@.acc,
            final(self)@.block_height == old(self)@.block_height,
            final(self)@.pool == submit(old(self)@.pool, transaction@),
    {
        let mut i: usize = 0;
        while i < self.pending_transactions.len()
            invariant
                i <= self.pending_transactions@.len(),
                self.wf(),
                forall|j: int|
                    0 <= j < i ==> #[trigger] txs_view(self.pending_transactions@)[j]
                        != transaction@,
            decreases self.pending_transactions@.len() - i,
        {
            if self.pending_transactions[i].same_as(&transaction) {
                assert(txs_view(self.pending_transactions@)[i as int] == transaction@);
                return;
            }
            i += 1;
        }
        let ghost p0 = self.pending_transactions@;
        self.pending_transactions.push(transaction);
        assert(txs_view(self.pending_transactions@) =~= txs_view(p0).push(transaction@));
    }

    /// Forges the block at the next height from every pending transaction:
    /// deletes the spent outputs from the snapshot, then adds the created
    /// ones. Fails, with nothing changed, where a spend witness does not
    /// verify or the snapshot does not hold the spent outputs.
    pub fn forge_block(&self) -> (r: Result<Block, AccError>)
        requires
            self@.block_height < u64::MAX,
        ensures
            r is Ok <==> forge_ok(self@),
            r == Err::<Block, AccError>(AccError::BadWitness) <==> !witnesses_valid(
                self@.acc,
                spent_in(self@.pool),
            ),
            r matches Ok(b) ==> forged_from(self@, b),
    {
        let (elems_added, elems_deleted) = elems_from_transactions(&self.pending_transactions);
        let (witness_deleted, proof_deleted) = match self.acc.delete_with_proof(&elems_deleted) {
            Ok(p) => p,
            Err(e) => {
                return Err(e);
            },
        };
        let (acc_new, proof_added) = witness_deleted.add_with_proof(&elems_added);
        Ok(
            Block {
                height: self.block_height + 1,
                transactions: copy_transactions(&self.pending_transactions),
                acc_new,
                proof_added,
                proof_deleted,
            },
        )
    }

    /// Applies `block` where it stands at the next height and its proofs
    /// hold: the snapshot becomes the block's, the height the block's, and
    /// the pool is emptied. A block at any other height is ignored.
    pub fn validate_block(&mut self, block: Block) -> (r: BlockOutcome)
        requires
            old(self).wf(),
        ensures
            final(self).wf(),
            !extends(old(self)@, block) ==> r == BlockOutcome::Skipped && final(self)@ == old(
                self,
            )@,
            extends(old(self)@, block) && !block_consistent(old(self)@.acc, block) ==> r
                == BlockOutcome::Inconsistent && final(self)@ == old(self)@,
            extends(old(self)@, block) && block_consistent(old(self)@.acc, block) ==> r
                == BlockOutcome::Accepted && final(self)@ == accepted_state(block),
    {
        if self.block_height == u64::MAX || block.height != self.block_height + 1 {
            return BlockOutcome::Skipped;
        }
        let (elems_added, elem_witnesses_deleted) = elems_from_transactions(&block.transactions);
        let elems_deleted = outputs_of_spends(&elem_witnesses_deleted);
        if !self.acc.verify_membership_batch(&elems_deleted, &block.proof_deleted) {
            return BlockOutcome::Inconsistent;
        }
        if !block.acc_new.verify_membership_batch(&elems_added, &block.proof_added) {
            return BlockOutcome::Inconsistent;
        }
        if !block.proof_deleted.witness.same_value(&block.proof_added.witness) {
            return BlockOutcome::Inconsistent;
        }
        self.acc = block.acc_new;
        self.block_height = block.height;
        self.pending_transactions.clear();
        assert(self@.pool =~= Seq::<TxView>::empty());
        BlockOutcome::Accepted
    }
}

/// Submitting transactions one after another to an empty pool leaves no
/// two equal transactions in it, and exactly one for each distinct
/// transaction submitted: resubmissions add nothing.
pub proof fn lemma_pool_holds_distinct_submissions(ts: Seq<TxView>)
    ensures
        submit_all(Seq::empty(), ts).no_duplicates(),
        submit_all(Seq::empty(), ts).to_set() == ts.to_set(),
        submit_all(Seq::empty(), ts).len() == ts.to_set().len(),
    decreases ts.len(),
{
    let p = submit_all(Seq::empty(), ts);
    if ts.len() == 0 {
        assert(ts.to_set() =~= Set::<TxView>::empty());
        assert(p.to_set() =~= Set::<TxView>::empty());
    } else {
        let rest = ts.drop_last();
        let t = ts.last();
        lemma_pool_holds_distinct_submissions(rest);
        let q = submit_all(Seq::empty(), rest);
        assert(ts =~= rest.push(t));
        assert(ts.to_set() =~= rest.to_set().insert(t));
        if q.contains(t) {
            assert(q.to_set().contains(t));
            assert(ts.to_set() =~= rest.to_set());
        } else {
            assert(p == q.push(t));
            assert forall|x: TxView| p.contains(x) <==> (q.contains(x) || x == t) by {
                if q.contains(x) {
                    let k = choose|k: int| 0 <= k < q.len() && q[k] == x;
                    assert(p[k] == x);
                }
                if x == t {
                    assert(p[q.len() as int] == t);
                }
                if p.contains(x) {
                    let k = choose|k: int| 0 <= k < p.len() && p[k] == x;
                    if k < q.len() {
                        assert(q[k] == x);
                    }
                }
            }
            assert(p.to_set() =~= q.to_set().insert(t));
            assert(!q.to_set().contains(t));
            assert(p.no_duplicates()) by {
                assert forall|i: int, j: int|
                    0 <= i < p.len() && 0 <= j < p.len() && i != j implies p[i] != p[j] by {
                    if i == q.len() as int {
                        assert(q.contains(p[j]));
                    } else if j == q.len() as int {
                        assert(q.contains(p[i]));
                    }
                }
            }
        }
    }
}

/// A block forged by one miner is accepted by any miner in the same state,
/// the forging miner included: both then hold the block's snapshot and
/// height.
pub proof fn lemma_forged_block_accepted(a: MinerView, b: MinerView, blk: Block)
    requires
        a.block_height < u64::MAX,
        forge_ok(a),
        forged_from(a, blk),
        b.acc == a.acc,
        b.block_height == a.block_height,
    ensures
        extends(a, blk),
        block_consistent(a.acc, blk),
        extends(b, blk),
        block_consistent(b.acc, blk),
{
    let del = outputs_of(spent_in(a.pool)).to_multiset();
    let after_delete = a.acc.sub(del);
    assert forall|x: Utxo| a.acc.count(x) == after_delete.add(del).count(x) by {
        assert(del.count(x) <= a.acc.count(x));
    }
    assert(a.acc =~= after_delete.add(del));
}

/// Where a pending spend carries a witness made against an earlier snapshot,
/// and the snapshot has changed since, forging fails.
pub proof fn lemma_stale_witness_rejected(m: MinerView, i: int, earlier: Multiset<Utxo>)
    requires
        0 <= i < spent_in(m.pool).len(),
        witness_valid(earlier, spent_in(m.pool)[i].0, spent_in(m.pool)[i].1),
        m.acc != earlier,
    ensures
        !forge_ok(m),
{
    assert(!witness_valid(m.acc, spent_in(m.pool)[i].0, spent_in(m.pool)[i].1));
}

} // verus!
