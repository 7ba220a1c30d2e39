use crate::acc::{copy_utxos, pairs_view, Accumulator, MembershipProof, Witness};
use vstd::multiset::Multiset;
use vstd::prelude::*;

verus! {

/// One spendable output: a unique identifier and the user that owns it.
#[derive(Clone, Copy, Debug, PartialEq, Eq, Hash, Structural)]
pub struct Utxo {
    pub id: u128,
    pub user_id: usize,
}

/// What a transaction states: the outputs it creates, and the outputs it
/// spends, each with the multiset its witness commits to.
pub type TxView = (Seq<Utxo>, Seq<(Utxo, Multiset<Utxo>)>);

/// A transaction: outputs created, and outputs spent with their witnesses.
#[derive(Clone, Debug)]
pub struct Transaction {
    pub utxos_created: Vec<Utxo>,
    pub utxos_spent_with_witnesses: Vec<(Utxo, Witness)>,
}

impl View for Transaction {
    type V = TxView;

    open spec fn view(&self) -> TxView {
        (self.utxos_created@, pairs_view(self.utxos_spent_with_witnesses@))
    }
}

/// A forged block: its height, the transactions it includes, the snapshot
/// after applying them, and the proofs of the outputs added and deleted.
#[derive(Clone, Debug)]
pub struct Block {
    pub height: u64,
    pub transactions: Vec<Transaction>,
    pub acc_new: Accumulator,
    pub proof_added: MembershipProof,
    pub proof_deleted: MembershipProof,
}

/// The views of a sequence of transactions.
pub open spec fn txs_view(txs: Seq<Transaction>) -> Seq<TxView> {
    txs.map_values(|t: Transaction| t@)
}

/// The outputs that the transactions create, in order.
pub open spec fn created_in(txs: Seq<TxView>) -> Seq<Utxo>
    decreases txs.len(),
{
    if txs.len() == 0 {
        Seq::empty()
    } else {
        created_in(txs.drop_last()) + txs.last().0
    }
}

/// The outputs that the transactions spend, with their witnesses, in order.
pub open spec fn spent_in(txs: Seq<TxView>) -> Seq<(Utxo, Multiset<Utxo>)>
    decreases txs.len(),
{
    if txs.len() == 0 {
        Seq::empty()
    } else {
        spent_in(txs.drop_last()) + txs.last().1
    }
}

/// Copies a sequence of (output, witness) pairs.
pub fn copy_spends(v: &Vec<(Utxo, Witness)>) -> (r: Vec<(Utxo, Witness)>)
    ensures
        pairs_view(r@) == pairs_view(v@),
{
    let mut r: Vec<(Utxo, Witness)> = Vec::new();
    let mut i: usize = 0;
    while i < v.len()
        invariant
            i <= v@.len(),
            pairs_view(r@) == pairs_view(v@).take(i as int),
        decreases v@.len() - i,
    {
        let w = v[i].1.copy();
        let ghost r0 = r@;
        r.push((v[i].0, w));
        i += 1;
        proof {
            assert(pairs_view(r@) =~= pairs_view(r0).push(pairs_view(v@)[i - 1]));
            assert(pairs_view(r@) =~= pairs_view(v@).take(i as int));
        }
    }
    assert(pairs_view(v@).take(v@.len() as int) =~= pairs_view(v@));
    r
}

/// Whether two sequences of (output, witness) pairs state the same spends.
pub fn same_spends(a: &Vec<(Utxo, Witness)>, b: &Vec<(Utxo, Witness)>) -> (r: bool)
    ensures
        r == (pairs_view(a@) == pairs_view(b@)),
{
    if a.len() != b.len() {
        assert(pairs_view(a@).len() != pairs_view(b@).len());
        return false;
    }
    let mut i: usize = 0;
    while i < a.len()
        invariant
            i <= a@.len(),
            a@.len() == b@.len(),
            pairs_view(a@).take(i as int) == pairs_view(b@).take(i as int),
        decreases a@.len() - i,
    {
        if a[i].0 != b[i].0 || !a[i].1.same_value(&b[i].1) {
            assert(pairs_view(a@)[i as int] != pairs_view(b@)[i as int]);
            return false;
        }
        i += 1;
        proof {
            assert(pairs_view(a@).take(i as int) =~= pairs_view(b@).take(i as int));
        }
    }
    assert(pairs_view(a@).take(i as int) =~= pairs_view(a@));
    assert(pairs_view(b@).take(i as int) =~= pairs_view(b@));
    true
}

/// Whether two vectors of outputs are equal.
pub fn same_utxos(a: &Vec<Utxo>, b: &Vec<Utxo>) -> (r: bool)
    ensures
        r == (a@ == b@),
{
    if a.len() != b.len() {
        return false;
    }
    let mut i: usize = 0;
    while i < a.len()
        invariant
            i <= a@.len(),
            a@.len() == b@.len(),
            forall|j: int| 0 <= j < i ==> a@[j] == b@[j],
        decreases a@.len() - i,
    {
        if a[i] != b[i] {
            return false;
        }
        i += 1;
    }
    assert(a@ =~= b@);
    true
}

impl Transaction {
    /// A transaction that states the same outputs and spends.
    pub fn copy(&self) -> (r: Transaction)
        ensures
            r@ == self@,
    {
        Transaction {
            utxos_created: copy_utxos(&self.utxos_created),
            utxos_spent_with_witnesses: copy_spends(&self.utxos_spent_with_witnesses),
        }
    }

    /// Whether the two transactions are structurally equal.
    pub fn same_as(&self, other: &Transaction) -> (r: bool)
        ensures
            r == (self@ == other@),
    {
        same_utxos(&self.utxos_created, &other.utxos_created) && same_spends(
            &self.utxos_spent_with_witnesses,
            &other.utxos_spent_with_witnesses,
        )
    }
}

/// Copies a sequence of transactions.
pub fn copy_transactions(v: &Vec<Transaction>) -> (r: Vec<Transaction>)
    ensures
        txs_view(r@) == txs_view(v@),
{
    let mut r: Vec<Transaction> = Vec::new();
    let mut i: usize = 0;
    while i < v.len()
        invariant
            i <= v@.len(),
            txs_view(r@) == txs_view(v@).take(i as int),
        decreases v@.len() - i,
    {
        let ghost r0 = r@;
        r.push(v[i].copy());
        i += 1;
        proof {
            assert(txs_view(r@) =~= txs_view(r0).push(txs_view(v@)[i - 1]));
            assert(txs_view(r@) =~= txs_view(v@).take(i as int));
        }
    }
    assert(txs_view(v@).take(v@.len() as int) =~= txs_view(v@));
    r
}

/// The outputs created and the outputs spent (with their witnesses) across
/// the transactions, each in order.
pub fn elems_from_transactions(txs: &Vec<Transaction>) -> (r: (Vec<Utxo>, Vec<(Utxo, Witness)>))
    ensures
        r.0@ == created_in(txs_view(txs@)),
        pairs_view(r.1@) == spent_in(txs_view(txs@)),
{
    let mut added: Vec<Utxo> = Vec::new();
    let mut deleted: Vec<(Utxo, Witness)> = Vec::new();
    let mut i: usize = 0;
    while i < txs.len()
        invariant
            i <= txs@.len(),
            added@ == created_in(txs_view(txs@).take(i as int)),
            pairs_view(deleted@) == spent_in(txs_view(txs@).take(i as int)),
        decreases txs@.len() - i,
    {
        let mut more = copy_utxos(&txs[i].utxos_created);
        added.append(&mut more);
        let mut spends = copy_spends(&txs[i].utxos_spent_with_witnesses);
        let ghost d0 = deleted@;
        deleted.append(&mut spends);
        i += 1;
        proof {
            let t = txs_view(txs@).take(i as int);
            assert(t.drop_last() =~= txs_view(txs@).take(i - 1));
            assert(pairs_view(deleted@) =~= pairs_view(d0) + pairs_view(txs@[i - 1].utxos_spent_with_witnesses@));
        }
    }
    assert(txs_view(txs@).take(txs@.len() as int) =~= txs_view(txs@));
    (added, deleted)
}

} // verus!
