use crate::state::Utxo;
use vstd::multiset::Multiset;
use vstd::prelude::*;

verus! {

broadcast use {vstd::seq_lib::group_to_multiset_ensures, vstd::multiset::group_multiset_axioms};

/// Copies a vector of outputs element by element.
pub fn copy_utxos(v: &Vec<Utxo>) -> (r: Vec<Utxo>)
    ensures
        r@ == v@,
{
    let mut r: Vec<Utxo> = Vec::new();
    let mut i: usize = 0;
    while i < v.len()
        invariant
            i <= v@.len(),
            r@ == v@.take(i as int),
        decreases v@.len() - i,
    {
        r.push(v[i]);
        i += 1;
        proof {
            assert(v@.take(i as int) =~= v@.take(i - 1).push(v@[i - 1]));
        }
    }
    assert(v@.take(v@.len() as int) =~= v@);
    r
}

/// Index of an occurrence of `x` in `v`, if there is one.
pub fn find_utxo(v: &Vec<Utxo>, x: Utxo) -> (r: Option<usize>)
    ensures
        match r {
            Some(i) => i < v@.len() && v@[i as int] == x,
            None => !v@.contains(x),
        },
{
    let mut i: usize = 0;
    while i < v.len()
        invariant
            i <= v@.len(),
            forall|j: int| 0 <= j < i ==> v@[j] != x,
        decreases v@.len() - i,
    {
        if v[i] == x {
            return Some(i);
        }
        i += 1;
    }
    None
}

/// Removes one occurrence from `v` for each element of `xs`; `None` where
/// `xs` holds an output more often than `v` does.
pub fn remove_all(v: &Vec<Utxo>, xs: &Vec<Utxo>) -> (r: Option<Vec<Utxo>>)
    ensures
        r is Some <==> xs@.to_multiset().subset_of(v@.to_multiset()),
        r matches Some(w) ==> w@.to_multiset() == v@.to_multiset().sub(xs@.to_multiset()),
{
    let mut w = copy_utxos(v);
    let mut i: usize = 0;
    while i < xs.len()
        invariant
            i <= xs@.len(),
            xs@.take(i as int).to_multiset().add(w@.to_multiset()) == v@.to_multiset(),
        decreases xs@.len() - i,
    {
        let x = xs[i];
        assert(xs@.take(i + 1) =~= xs@.take(i as int).push(x));
        match find_utxo(&w, x) {
            None => {
                proof {
                    let t = xs@.take(i + 1);
                    let rest = xs@.skip(i + 1);
                    assert(xs@ =~= t + rest);
                    vstd::seq_lib::lemma_multiset_commutative(t, rest);
                    assert(w@.to_multiset().count(x) == 0);
                    assert(xs@.to_multiset().count(x) >= t.to_multiset().count(x));
                    assert(t.to_multiset().count(x) == xs@.take(i as int).to_multiset().count(x) + 1);
                    assert(xs@.to_multiset().count(x) > v@.to_multiset().count(x));
                }
                return None;
            },
            Some(k) => {
                let ghost w0 = w@;
                w.remove(k);
                proof {
                    assert(w0.remove(k as int) == w@);
                    assert(xs@.take(i + 1).to_multiset().add(w@.to_multiset()) =~= v@.to_multiset());
                }
            },
        }
        i += 1;
    }
    assert(xs@.take(xs@.len() as int) =~= xs@);
    assert(w@.to_multiset() =~= v@.to_multiset().sub(xs@.to_multiset()));
    Some(w)
}

/// Whether two vectors hold the same outputs with the same multiplicities,
/// in whatever order.
pub fn same_multiset(a: &Vec<Utxo>, b: &Vec<Utxo>) -> (r: bool)
    ensures
        r == (a@.to_multiset() == b@.to_multiset()),
{
    match remove_all(b, a) {
        None => false,
        Some(w) => {
            if w.len() == 0 {
                assert(w@.to_multiset() =~= Multiset::empty());
                assert forall|x: Utxo| a@.to_multiset().count(x) == b@.to_multiset().count(x) by {
                    assert(w@.to_multiset().count(x) == 0);
                    assert(a@.to_multiset().count(x) <= b@.to_multiset().count(x));
                }
                assert(a@.to_multiset() =~= b@.to_multiset());
                true
            } else {
                assert(w@.to_multiset().len() > 0);
                false
            }
        },
    }
}

/// The outputs of a sequence of (output, witness) pairs, in order.
pub fn outputs_of_spends(v: &Vec<(Utxo, Witness)>) -> (r: Vec<Utxo>)
    ensures
        r@ == outputs_of(pairs_view(v@)),
{
    let mut r: Vec<Utxo> = Vec::new();
    let mut i: usize = 0;
    while i < v.len()
        invariant
            i <= v@.len(),
            r@ == outputs_of(pairs_view(v@)).take(i as int),
        decreases v@.len() - i,
    {
        r.push(v[i].0);
        i += 1;
        proof {
            assert(r@ =~= outputs_of(pairs_view(v@)).take(i as int));
        }
    }
    assert(outputs_of(pairs_view(v@)).take(v@.len() as int) =~= outputs_of(pairs_view(v@)));
    r
}

/// A commitment to a multiset of outputs. Two snapshots are the same
/// commitment when they commit to the same multiset.
#[derive(Clone, Debug)]
pub struct Accumulator {
    elems: Vec<Utxo>,
}

/// Membership witness of an output against a snapshot: the snapshot without
/// that output.
pub type Witness = Accumulator;

/// Batch membership proof: the snapshot from which the proved outputs were
/// added.
#[derive(Clone, Debug)]
pub struct MembershipProof {
    pub witness: Witness,
}

/// Why a deletion was refused.
#[derive(Clone, Copy, Debug, PartialEq, Eq, Structural)]
pub enum AccError {
    /// A supplied witness does not verify against the snapshot.
    BadWitness,
    /// The outputs to delete are not all held by the snapshot.
    BadWitnessUpdate,
}

impl View for Accumulator {
    type V = Multiset<Utxo>;

    closed spec fn view(&self) -> Multiset<Utxo> {
        self.elems@.to_multiset()
    }
}

/// What a sequence of (output, witness) pairs commits to: each witness
/// taken as its multiset.
pub open spec fn pairs_view(s: Seq<(Utxo, Witness)>) -> Seq<(Utxo, Multiset<Utxo>)> {
    s.map_values(|p: (Utxo, Witness)| (p.0, p.1@))
}

/// The outputs of a sequence of (output, witness) pairs.
pub open spec fn outputs_of(s: Seq<(Utxo, Multiset<Utxo>)>) -> Seq<Utxo> {
    s.map_values(|p: (Utxo, Multiset<Utxo>)| p.0)
}

/// A witness `w` attests that `x` is a member of `acc`.
pub open spec fn witness_valid(acc: Multiset<Utxo>, x: Utxo, w: Multiset<Utxo>) -> bool {
    w.insert(x) == acc
}

/// Every pair in `s` carries a witness that verifies against `acc`.
pub open spec fn witnesses_valid(acc: Multiset<Utxo>, s: Seq<(Utxo, Multiset<Utxo>)>) -> bool {
    forall|i: int| 0 <= i < s.len() ==> witness_valid(acc, #[trigger] s[i].0, s[i].1)
}

/// A deletion of the pairs in `s` from `acc` succeeds.
pub open spec fn deletion_ok(acc: Multiset<Utxo>, s: Seq<(Utxo, Multiset<Utxo>)>) -> bool {
    witnesses_valid(acc, s) && outputs_of(s).to_multiset().subset_of(acc)
}

/// `proof` attests, against `acc`, the membership of every output in `elems`.
pub open spec fn batch_verifies(acc: Multiset<Utxo>, elems: Seq<Utxo>, proof: MembershipProof) -> bool {
    acc == proof.witness@.add(elems.to_multiset())
}

impl Accumulator {
    /// The snapshot of the empty multiset.
    pub fn empty() -> (r: Accumulator)
        ensures
            r@ == Multiset::<Utxo>::empty(),
    {
        Accumulator { elems: Vec::new() }
    }

    /// A snapshot that commits to the same multiset.
    pub fn copy(&self) -> (r: Accumulator)
        ensures
            r@ == self@,
    {
        Accumulator { elems: copy_utxos(&self.elems) }
    }

    /// Whether the two snapshots commit to the same multiset.
    pub fn same_value(&self, other: &Accumulator) -> (r: bool)
        ensures
            r == (self@ == other@),
    {
        same_multiset(&self.elems, &other.elems)
    }

    /// Adds every output of `elems`; returns the new snapshot and a proof of
    /// their membership in it.
    pub fn add_with_proof(&self, elems: &Vec<Utxo>) -> (r: (Accumulator, MembershipProof))
        ensures
            r.0@ == self@.add(elems@.to_multiset()),
            r.1.witness@ == self@,
            batch_verifies(r.0@, elems@, r.1),
    {
        let mut all = copy_utxos(&self.elems);
        let mut more = copy_utxos(elems);
        all.append(&mut more);
        proof {
            vstd::seq_lib::lemma_multiset_commutative(self.elems@, elems@);
        }
        (Accumulator { elems: all }, MembershipProof { witness: self.copy() })
    }

    /// Whether `w` attests that `x` is a member of this snapshot.
    pub fn verify_membership(&self, x: Utxo, w: &Witness) -> (r: bool)
        ensures
            r == witness_valid(self@, x, w@),
    {
        let mut with_x = copy_utxos(&w.elems);
        with_x.push(x);
        same_multiset(&with_x, &self.elems)
    }

    /// Whether `proof` attests, against this snapshot, the membership of every
    /// output in `elems`.
    pub fn verify_membership_batch(&self, elems: &Vec<Utxo>, proof: &MembershipProof) -> (r: bool)
        ensures
            r == batch_verifies(self@, elems@, *proof),
    {
        let mut all = copy_utxos(&proof.witness.elems);
        let mut more = copy_utxos(elems);
        all.append(&mut more);
        proof {
            vstd::seq_lib::lemma_multiset_commutative(proof.witness.elems@, elems@);
        }
        same_multiset(&self.elems, &all)
    }

    /// A witness of `x` against this snapshot, where `x` is a member.
    pub fn prove_membership(&self, x: Utxo) -> (r: Option<Witness>)
        ensures
            r is Some <==> self@.contains(x),
            r matches Some(w) ==> witness_valid(self@, x, w@),
    {
        let single = vec![x];
        proof {
            assert(single@ =~= Seq::<Utxo>::empty().push(x));
            assert(self@.contains(x) <==> single@.to_multiset().subset_of(self@));
        }
        match remove_all(&self.elems, &single) {
            None => None,
            Some(rest) => {
                let w = Accumulator { elems: rest };
                assert(w@.insert(x) =~= self@);
                Some(w)
            },
        }
    }

    /// Removes every output of `elems`, each given with its witness against
    /// this snapshot; returns the new snapshot and a proof of the removed
    /// outputs' membership in this one.
    pub fn delete_with_proof(&self, elems: &Vec<(Utxo, Witness)>) -> (r: Result<
        (Accumulator, MembershipProof),
        AccError,
    >)
        ensures
            r is Ok <==> deletion_ok(self@, pairs_view(elems@)),
            r == Err::<(Accumulator, MembershipProof), AccError>(AccError::BadWitness)
                <==> !witnesses_valid(self@, pairs_view(elems@)),
            r matches Ok(p) ==> {
                &&& p.0@ == self@.sub(outputs_of(pairs_view(elems@)).to_multiset())
                &&& p.1.witness@ == p.0@
                &&& batch_verifies(self@, outputs_of(pairs_view(elems@)), p.1)
            },
    {
        let mut xs: Vec<Utxo> = Vec::new();
        let mut i: usize = 0;
        while i < elems.len()
            invariant
                i <= elems@.len(),
                xs@ == outputs_of(pairs_view(elems@)).take(i as int),
                witnesses_valid(self@, pairs_view(elems@).take(i as int)),
            decreases elems@.len() - i,
        {
            let x = elems[i].0;
            assert(pairs_view(elems@)[i as int] == (x, elems@[i as int].1@));
            if !self.verify_membership(x, &elems[i].1) {
                assert(!witness_valid(
                    self@,
                    pairs_view(elems@)[i as int].0,
                    pairs_view(elems@)[i as int].1,
                ));
                return Err(AccError::BadWitness);
            }
            xs.push(x);
            i += 1;
            proof {
                assert(xs@ =~= outputs_of(pairs_view(elems@)).take(i as int));
            }
        }
        assert(pairs_view(elems@).take(i as int) =~= pairs_view(elems@));
        assert(xs@ =~= outputs_of(pairs_view(elems@)));
        match remove_all(&self.elems, &xs) {
            None => Err(AccError::BadWitnessUpdate),
            Some(rest) => {
                let after = Accumulator { elems: rest };
                proof {
                    assert forall|x: Utxo| self@.count(x) == after@.add(xs@.to_multiset()).count(x) by {
                        assert(xs@.to_multiset().count(x) <= self@.count(x));
                    }
                    assert(self@ =~= after@.add(xs@.to_multiset()));
                }
                let proof_value = MembershipProof { witness: after.copy() };
                Ok((after, proof_value))
            },
        }
    }
}

} // verus!
