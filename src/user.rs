use crate::acc::{find_utxo, pairs_view};
use crate::bridge::{UserUpdate, WitnessRequest, WitnessResponse};
use crate::state::{copy_spends, Transaction, Utxo};
use vstd::prelude::*;
use vstd::set::Set;

verus! {

/// An end user: its identifier and the outputs it owns.
pub struct User {
    id: usize,
    utxo_set: Vec<Utxo>,
}

/// The owned outputs once `deleted` are removed and then `added` inserted.
pub open spec fn updated(owned: Set<Utxo>, added: Seq<Utxo>, deleted: Seq<Utxo>) -> Set<Utxo> {
    owned.difference(deleted.to_set()).union(added.to_set())
}

/// Relies on uuid::Uuid::new_v4: a random identifier, taken as its 128-bit
/// value.
#[verifier::external_body]
fn fresh_id() -> (r: u128) {
    uuid::Uuid::new_v4().as_u128()
}

/// Relies on rand::random_range over `1..3`: a value of that half-open range.
#[verifier::external_body]
fn pick_output_count() -> (r: usize)
    ensures
        1 <= r <= 2,
{
    rand::random_range(1..3)
}

impl User {
    /// The user's identifier.
    pub closed spec fn spec_id(&self) -> usize {
        self.id
    }

    /// The outputs the user owns.
    pub closed spec fn owned(&self) -> Set<Utxo> {
        self.utxo_set@.to_set()
    }

    /// No output is held twice.
    pub closed spec fn wf(&self) -> bool {
        self.utxo_set@.no_duplicates()
    }

    /// A user that owns `init_utxo` alone.
    pub fn new(id: usize, init_utxo: Utxo) -> (r: User)
        ensures
            r.wf(),
            r.spec_id() == id,
            r.owned() == Set::<Utxo>::empty().insert(init_utxo),
    {
        let r = User { id, utxo_set: vec![init_utxo] };
        assert(r.utxo_set@ =~= seq![init_utxo]);
        assert(r.owned() =~= Set::<Utxo>::empty().insert(init_utxo)) by {
            assert(r.utxo_set@[0] == init_utxo);
        }
        r
    }

    /// The user's identifier.
    pub fn id(&self) -> (r: usize)
        ensures
            r == self.spec_id(),
    {
        self.id
    }

    /// Whether the user owns `u`.
    pub fn owns(&self, u: Utxo) -> (r: bool)
        ensures
            r == self.owned().contains(u),
    {
        find_utxo(&self.utxo_set, u).is_some()
    }

    /// How many outputs the user owns.
    pub fn utxo_count(&self) -> (r: usize)
        requires
            self.wf(),
        ensures
            r == self.owned().len(),
    {
        proof {
            self.utxo_set@.unique_seq_to_set();
        }
        self.utxo_set.len()
    }

    /// An output the user owns, to spend next.
    pub fn get_input_for_transaction(&self) -> (r: Utxo)
        requires
            self.owned().len() > 0,
        ensures
            self.owned().contains(r),
    {
        if self.utxo_set.len() == 0 {
            assert(self.owned() =~= Set::<Utxo>::empty());
        }
        let r = self.utxo_set[0];
        assert(self.utxo_set@[0] == r);
        r
    }

    /// Removes every output of `update.utxos_deleted` that the user owns, then
    /// inserts every output of `update.utxos_added`.
    pub fn update(&mut self, update: UserUpdate)
        requires
            old(self).wf(),
        ensures
            final(self).wf(),
            final(self).spec_id() == old(self).spec_id(),
            final(self).owned() == updated(
                old(self).owned(),
                update.utxos_added@,
                update.utxos_deleted@,
            ),
    {
        let ghost before = self.owned();
        let mut i: usize = 0;
        while i < update.utxos_deleted.len()
            invariant
                self.wf(),
                self.id == old(self).id,
                i <= update.utxos_deleted@.len(),
                self.owned() == before.difference(update.utxos_deleted@.take(i as int).to_set()),
            decreases update.utxos_deleted@.len() - i,
        {
            let u = update.utxos_deleted[i];
            self.remove_utxo(u);
            i += 1;
            proof {
                assert(update.utxos_deleted@.take(i as int) =~= update.utxos_deleted@.take(i - 1).push(u));
                lemma_push_to_set(update.utxos_deleted@.take(i - 1), u);
                assert(self.owned() =~= before.difference(update.utxos_deleted@.take(i as int).to_set()));
            }
        }
        assert(update.utxos_deleted@.take(i as int) =~= update.utxos_deleted@);
        let ghost middle = self.owned();
        let mut j: usize = 0;
        while j < update.utxos_added.len()
            invariant
                self.wf(),
                self.id == old(self).id,
                j <= update.utxos_added@.len(),
                self.owned() == middle.union(update.utxos_added@.take(j as int).to_set()),
            decreases update.utxos_added@.len() - j,
        {
            let u = update.utxos_added[j];
            self.insert_utxo(u);
            j += 1;
            proof {
                assert(update.utxos_added@.take(j as int) =~= update.utxos_added@.take(j - 1).push(u));
                lemma_push_to_set(update.utxos_added@.take(j - 1), u);
                assert(self.owned() =~= middle.union(update.utxos_added@.take(j as int).to_set()));
            }
        }
        assert(update.utxos_added@.take(j as int) =~= update.utxos_added@);
    }

    /// Removes `u` where the user owns it.
    fn remove_utxo(&mut self, u: Utxo)
        requires
            old(self).wf(),
        ensures
            final(self).wf(),
            final(self).id == old(self).id,
            final(self).owned() == old(self).owned().remove(u),
    {
        match find_utxo(&self.utxo_set, u) {
            None => {
                assert(self.owned() =~= self.owned().remove(u));
            },
            Some(k) => {
                let ghost s0 = self.utxo_set@;
                self.utxo_set.remove(k);
                proof {
                    let s1 = self.utxo_set@;
                    assert(s1 =~= s0.remove(k as int));
                    assert forall|x: Utxo| s1.contains(x) <==> (s0.contains(x) && x != u) by {
                        if s1.contains(x) {
                            let m = choose|m: int| 0 <= m < s1.len() && s1[m] == x;
                            if m < k {
                                assert(s0[m] == x);
                            } else {
                                assert(s0[m + 1] == x);
                            }
                        }
                        if s0.contains(x) && x != u {
                            let m = choose|m: int| 0 <= m < s0.len() && s0[m] == x;
                            if m < k {
                                assert(s1[m] == x);
                            } else {
                                assert(s1[m - 1] == x);
                            }
                        }
                    }
                    assert(self.owned() =~= s0.to_set().remove(u));
                }
            },
        }
    }

    /// Inserts `u` where the user does not own it yet.
    fn insert_utxo(&mut self, u: Utxo)
        requires
            old(self).wf(),
        ensures
            final(self).wf(),
            final(self).id == old(self).id,
            final(self).owned() == old(self).owned().insert(u),
    {
        match find_utxo(&self.utxo_set, u) {
            Some(k) => {
                assert(self.utxo_set@[k as int] == u);
                assert(self.owned() =~= self.owned().insert(u));
            },
            None => {
                let ghost s0 = self.utxo_set@;
                self.utxo_set.push(u);
                proof {
                    lemma_push_to_set(s0, u);
                }
            },
        }
    }

    /// The request for a witness of `utxo`, under the correlation identifier
    /// `request_id`.
    pub fn witness_request(&self, request_id: u128, utxo: Utxo) -> (r: WitnessRequest)
        ensures
            r.user_id == self.spec_id(),
            r.request_id == request_id,
            r.utxos@ == seq![utxo],
    {
        WitnessRequest { user_id: self.id, request_id, utxos: vec![utxo] }
    }

    /// Fresh outputs owned by this user, one or two of them.
    pub fn new_outputs(&self) -> (r: Vec<Utxo>)
        ensures
            1 <= r@.len() <= 2,
            forall|i: int| 0 <= i < r@.len() ==> (#[trigger] r@[i]).user_id == self.spec_id(),
    {
        let num = pick_output_count();
        let mut out: Vec<Utxo> = Vec::new();
        let mut i: usize = 0;
        while i < num
            invariant
                i <= num,
                out@.len() == i,
                forall|k: int| 0 <= k < out@.len() ==> (#[trigger] out@[k]).user_id == self.id,
            decreases num - i,
        {
            out.push(Utxo { id: fresh_id(), user_id: self.id });
            i += 1;
        }
        out
    }

    /// Applies `update` where it is not empty; an empty one is addressed to
    /// someone else and is skipped. Returns whether it was applied.
    pub fn handle_update(&mut self, update: UserUpdate) -> (r: bool)
        requires
            old(self).wf(),
        ensures
            final(self).wf(),
            final(self).spec_id() == old(self).spec_id(),
            r == (update.utxos_added@.len() > 0 || update.utxos_deleted@.len() > 0),
            r ==> final(self).owned() == updated(
                old(self).owned(),
                update.utxos_added@,
                update.utxos_deleted@,
            ),
            !r ==> final(self).owned() == old(self).owned(),
    {
        if update.is_empty() {
            false
        } else {
            self.update(update);
            true
        }
    }
}

/// Whether `response` answers the request made under `request_id`; any other
/// response is stale and is dropped.
pub fn response_matches(response: &WitnessResponse, request_id: u128) -> (r: bool)
    ensures
        r == (response.request_id == request_id),
{
    response.request_id == request_id
}

/// The transaction that creates `created` and spends the outputs of
/// `response` with their witnesses.
pub fn make_transaction(created: Vec<Utxo>, response: &WitnessResponse) -> (r: Transaction)
    ensures
        r.utxos_created@ == created@,
        pairs_view(r.utxos_spent_with_witnesses@) == pairs_view(response.utxos_with_witnesses@),
{
    Transaction {
        utxos_created: created,
        utxos_spent_with_witnesses: copy_spends(&response.utxos_with_witnesses),
    }
}

/// Pushing `x` onto `s` adds `x` to its set.
pub proof fn lemma_push_to_set(s: Seq<Utxo>, x: Utxo)
    ensures
        s.push(x).to_set() == s.to_set().insert(x),
        !s.contains(x) && s.no_duplicates() ==> s.push(x).no_duplicates(),
{
    let p = s.push(x);
    assert forall|y: Utxo| p.contains(y) <==> (s.contains(y) || y == x) by {
        if s.contains(y) {
            let k = choose|k: int| 0 <= k < s.len() && s[k] == y;
            assert(p[k] == y);
        }
        if y == x {
            assert(p[s.len() as int] == x);
        }
        if p.contains(y) {
            let k = choose|k: int| 0 <= k < p.len() && p[k] == y;
            if k < s.len() {
                assert(s[k] == y);
            }
        }
    }
    assert(p.to_set() =~= s.to_set().insert(x));
    if !s.contains(x) && s.no_duplicates() {
        assert forall|i: int, j: int|
            0 <= i < p.len() && 0 <= j < p.len() && i != j implies p[i] != p[j] by {
            if i == s.len() as int {
                assert(s.contains(p[j]));
            } else if j == s.len() as int {
                assert(s.contains(p[i]));
            }
        }
    }
}

/// A user that spends `u` and creates `v` and `w`, once the update of the
/// block that includes its transaction is applied, no longer owns `u` and
/// owns both `v` and `w`.
pub proof fn lemma_spend_round_trip(owned: Set<Utxo>, u: Utxo, v: Utxo, w: Utxo)
    requires
        u != v,
        u != w,
    ensures
        !updated(owned, seq![v, w], seq![u]).contains(u),
        updated(owned, seq![v, w], seq![u]).contains(v),
        updated(owned, seq![v, w], seq![u]).contains(w),
{
    let added = seq![v, w];
    let deleted = seq![u];
    assert(deleted[0] == u);
    assert(deleted.to_set().contains(u));
    assert(added[0] == v && added[1] == w);
    assert(added.to_set().contains(v));
    assert(added.to_set().contains(w));
    assert(!added.contains(u)) by {
        if added.contains(u) {
            let k = choose|k: int| 0 <= k < added.len() && added[k] == u;
        }
    }
}

} // verus!
