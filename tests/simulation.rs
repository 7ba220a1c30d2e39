use accsim::acc::{same_multiset, AccError, Accumulator, MembershipProof};
use accsim::bridge::{UserUpdate, WitnessResponse};
use accsim::miner::{BlockOutcome, Miner};
use accsim::state::{elems_from_transactions, Transaction, Utxo};
use accsim::user::{make_transaction, response_matches, User};

fn utxo(id: u128, user_id: usize) -> Utxo {
    Utxo { id, user_id }
}

/// A snapshot holding `elems`, from the empty one.
fn snapshot(elems: &[Utxo]) -> Accumulator {
    Accumulator::empty().add_with_proof(&elems.to_vec()).0
}

fn spend(created: Vec<Utxo>, spent: Utxo, acc: &Accumulator) -> Transaction {
    let witness = acc.prove_membership(spent).expect("member");
    Transaction {
        utxos_created: created,
        utxos_spent_with_witnesses: vec![(spent, witness)],
    }
}

#[test]
fn forged_block_is_accepted_by_fresh_miner() {
    let u1 = utxo(1, 0);
    let u2 = utxo(2, 0);
    let u3 = utxo(3, 0);
    let acc = snapshot(&[u1]);
    let mut a = Miner::new(acc.copy());
    a.add_transaction(spend(vec![u2, u3], u1, &acc));
    let block = a.forge_block().expect("forging succeeds");
    assert_eq!(block.height, 1);
    assert_eq!(block.transactions.len(), 1);

    let mut b = Miner::new(acc.copy());
    assert_eq!(b.validate_block(block.clone()), BlockOutcome::Accepted);
    assert_eq!(b.block_height(), 1);
    assert_eq!(b.pending_count(), 0);
    assert!(b.accumulator().same_value(&snapshot(&[u3, u2])));
    assert!(!b.accumulator().same_value(&acc));

    assert_eq!(a.validate_block(block), BlockOutcome::Accepted);
    assert_eq!(a.block_height(), b.block_height());
    assert!(a.accumulator().same_value(b.accumulator()));
    assert_eq!(a.pending_count(), 0);
}

#[test]
fn pool_keeps_one_copy_of_each_transaction() {
    let u1 = utxo(1, 0);
    let u4 = utxo(4, 1);
    let acc = snapshot(&[u1, u4]);
    let mut m = Miner::new(acc.copy());
    let t1 = spend(vec![utxo(2, 0)], u1, &acc);
    let t2 = spend(vec![utxo(5, 1)], u4, &acc);
    m.add_transaction(t1.clone());
    m.add_transaction(t1.clone());
    m.add_transaction(t2.clone());
    m.add_transaction(t1);
    m.add_transaction(t2);
    assert_eq!(m.pending_count(), 2);
    assert_eq!(m.block_height(), 0);
}

#[test]
fn block_at_wrong_height_is_skipped() {
    let u1 = utxo(1, 0);
    let acc = snapshot(&[u1]);
    let mut a = Miner::new(acc.copy());
    a.add_transaction(spend(vec![utxo(2, 0)], u1, &acc));
    let block = a.forge_block().unwrap();

    let mut b = Miner::new(acc.copy());
    assert_eq!(b.validate_block(block.clone()), BlockOutcome::Accepted);
    b.add_transaction(spend(vec![utxo(9, 0)], utxo(2, 0), b.accumulator()));
    let before = b.accumulator().copy();
    // The same block again: a duplicate broadcast.
    assert_eq!(b.validate_block(block.clone()), BlockOutcome::Skipped);
    // A block from the future.
    let mut far = block;
    far.height = 5;
    assert_eq!(b.validate_block(far), BlockOutcome::Skipped);
    assert_eq!(b.block_height(), 1);
    assert_eq!(b.pending_count(), 1);
    assert!(b.accumulator().same_value(&before));
}

#[test]
fn stale_witness_fails_forging() {
    let u1 = utxo(1, 0);
    let u4 = utxo(4, 1);
    let acc = snapshot(&[u1, u4]);
    let mut a = Miner::new(acc.copy());
    a.add_transaction(spend(vec![utxo(2, 0)], u1, &acc));
    let block = a.forge_block().unwrap();
    assert_eq!(a.validate_block(block), BlockOutcome::Accepted);

    // The witness of u4 was made against the snapshot before the block.
    a.add_transaction(spend(vec![utxo(5, 1)], u4, &acc));
    let before = a.accumulator().copy();
    assert_eq!(a.forge_block().unwrap_err(), AccError::BadWitness);
    assert_eq!(a.block_height(), 1);
    assert_eq!(a.pending_count(), 1);
    assert!(a.accumulator().same_value(&before));
}

#[test]
fn forging_with_empty_pool_keeps_snapshot() {
    let acc = snapshot(&[utxo(1, 0)]);
    let mut a = Miner::new(acc.copy());
    let block = a.forge_block().unwrap();
    assert_eq!(block.height, 1);
    assert!(block.transactions.is_empty());
    assert_eq!(a.validate_block(block), BlockOutcome::Accepted);
    assert!(a.accumulator().same_value(&acc));
}

#[test]
fn tampered_block_is_inconsistent() {
    let u1 = utxo(1, 0);
    let acc = snapshot(&[u1]);
    let mut a = Miner::new(acc.copy());
    a.add_transaction(spend(vec![utxo(2, 0)], u1, &acc));
    let mut block = a.forge_block().unwrap();
    block.acc_new = snapshot(&[utxo(7, 0)]);
    let mut b = Miner::new(acc.copy());
    assert_eq!(b.validate_block(block.clone()), BlockOutcome::Inconsistent);
    assert_eq!(b.block_height(), 0);
    assert!(b.accumulator().same_value(&acc));

    let mut other = a.forge_block().unwrap();
    other.proof_added = MembershipProof { witness: acc.copy() };
    other.acc_new = acc.add_with_proof(&vec![utxo(2, 0)]).0;
    assert_eq!(b.validate_block(other), BlockOutcome::Inconsistent);
    assert_eq!(b.block_height(), 0);
}

#[test]
fn spending_one_output_twice_is_refused() {
    let u1 = utxo(1, 0);
    let acc = snapshot(&[u1]);
    let mut a = Miner::new(acc.copy());
    a.add_transaction(spend(vec![utxo(2, 0)], u1, &acc));
    a.add_transaction(spend(vec![utxo(3, 0)], u1, &acc));
    assert_eq!(a.pending_count(), 2);
    assert_eq!(a.forge_block().unwrap_err(), AccError::BadWitnessUpdate);
}

#[test]
fn accumulator_membership() {
    let a = utxo(1, 0);
    let b = utxo(2, 0);
    let c = utxo(3, 1);
    let base = snapshot(&[a]);
    let (acc, proof) = base.add_with_proof(&vec![b, c]);
    assert!(acc.verify_membership_batch(&vec![c, b], &proof));
    assert!(!acc.verify_membership_batch(&vec![b], &proof));
    assert!(!base.verify_membership_batch(&vec![b, c], &proof));
    assert!(proof.witness.same_value(&base));

    let w = acc.prove_membership(b).unwrap();
    assert!(acc.verify_membership(b, &w));
    assert!(!acc.verify_membership(c, &w));
    assert!(w.same_value(&snapshot(&[c, a])));
    assert!(acc.prove_membership(utxo(9, 0)).is_none());

    let (after, del_proof) = acc.delete_with_proof(&vec![(b, w)]).unwrap();
    assert!(after.same_value(&snapshot(&[a, c])));
    assert!(acc.verify_membership_batch(&vec![b], &del_proof));
    assert!(del_proof.witness.same_value(&after));

    let bad = Accumulator::empty();
    assert_eq!(acc.delete_with_proof(&vec![(a, bad)]).unwrap_err(), AccError::BadWitness);
}

#[test]
fn multiset_comparison() {
    let a = utxo(1, 0);
    let b = utxo(2, 0);
    assert!(same_multiset(&vec![a, b, a], &vec![a, a, b]));
    assert!(!same_multiset(&vec![a, b], &vec![a, a, b]));
    assert!(!same_multiset(&vec![a, b, b], &vec![a, a, b]));
    assert!(same_multiset(&vec![], &vec![]));
}

#[test]
fn elements_gathered_across_transactions() {
    let acc = snapshot(&[utxo(1, 0), utxo(4, 1)]);
    let t1 = spend(vec![utxo(2, 0), utxo(3, 0)], utxo(1, 0), &acc);
    let t2 = spend(vec![utxo(5, 1)], utxo(4, 1), &acc);
    let (added, deleted) = elems_from_transactions(&vec![t1, t2]);
    assert_eq!(added, vec![utxo(2, 0), utxo(3, 0), utxo(5, 1)]);
    let spent: Vec<Utxo> = deleted.iter().map(|p| p.0).collect();
    assert_eq!(spent, vec![utxo(1, 0), utxo(4, 1)]);
}

#[test]
fn user_update_round_trip() {
    let u = utxo(10, 3);
    let v = utxo(11, 3);
    let w = utxo(12, 3);
    let mut user = User::new(3, u);
    assert_eq!(user.get_input_for_transaction(), u);
    assert!(user.handle_update(UserUpdate { utxos_added: vec![v, w], utxos_deleted: vec![u] }));
    assert!(!user.owns(u));
    assert!(user.owns(v));
    assert!(user.owns(w));
    assert_eq!(user.utxo_count(), 2);
    assert_eq!(user.id(), 3);
}

#[test]
fn empty_update_is_skipped() {
    let u = utxo(10, 3);
    let mut user = User::new(3, u);
    let empty = UserUpdate { utxos_added: vec![], utxos_deleted: vec![] };
    assert!(empty.is_empty());
    assert!(!user.handle_update(empty));
    assert!(user.owns(u));
    assert_eq!(user.utxo_count(), 1);
}

#[test]
fn update_removes_then_adds() {
    let u = utxo(10, 3);
    let v = utxo(11, 3);
    let mut user = User::new(3, u);
    user.update(UserUpdate { utxos_added: vec![u, v, v], utxos_deleted: vec![u, utxo(99, 3)] });
    assert!(user.owns(u));
    assert!(user.owns(v));
    assert_eq!(user.utxo_count(), 2);
}

#[test]
fn new_outputs_belong_to_user() {
    let user = User::new(7, utxo(1, 7));
    let outs = user.new_outputs();
    assert!(outs.len() == 1 || outs.len() == 2);
    assert!(outs.iter().all(|o| o.user_id == 7));
    let more = user.new_outputs();
    assert_ne!(outs[0].id, more[0].id);
}

#[test]
fn witness_exchange() {
    let u = utxo(1, 2);
    let acc = snapshot(&[u]);
    let user = User::new(2, u);
    let req = user.witness_request(42, u);
    assert_eq!(req.user_id, 2);
    assert_eq!(req.request_id, 42);
    assert_eq!(req.utxos, vec![u]);
    let resp = WitnessResponse {
        request_id: 42,
        utxos_with_witnesses: vec![(u, acc.prove_membership(u).unwrap())],
    };
    assert!(response_matches(&resp, 42));
    assert!(!response_matches(&resp, 41));
    let tx = make_transaction(vec![utxo(5, 2)], &resp);
    assert_eq!(tx.utxos_created, vec![utxo(5, 2)]);
    assert_eq!(tx.utxos_spent_with_witnesses.len(), 1);
    assert_eq!(tx.utxos_spent_with_witnesses[0].0, u);
    let mut m = Miner::new(acc.copy());
    m.add_transaction(tx);
    let block = m.forge_block().unwrap();
    assert_eq!(m.validate_block(block), BlockOutcome::Accepted);
    assert!(m.accumulator().same_value(&snapshot(&[utxo(5, 2)])));
}
