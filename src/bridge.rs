use crate::acc::Witness;
use crate::state::Utxo;
use vstd::prelude::*;

verus! {

/// A user's request for witnesses of the outputs it is about to spend.
#[derive(Clone, Debug)]
pub struct WitnessRequest {
    pub user_id: usize,
    pub request_id: u128,
    pub utxos: Vec<Utxo>,
}

/// The answer to a witness request: the outputs, each with its witness.
#[derive(Clone, Debug)]
pub struct WitnessResponse {
    pub request_id: u128,
    pub utxos_with_witnesses: Vec<(Utxo, Witness)>,
}

/// The outputs that a confirmed block added to and removed from one user.
#[derive(Clone, Debug)]
pub struct UserUpdate {
    pub utxos_added: Vec<Utxo>,
    pub utxos_deleted: Vec<Utxo>,
}

impl UserUpdate {
    /// Whether the update neither adds nor removes anything.
    pub fn is_empty(&self) -> (r: bool)
        ensures
            r == (self.utxos_added@.len() == 0 && self.utxos_deleted@.len() == 0),
    {
        self.utxos_added.len() == 0 && self.utxos_deleted.len() == 0
    }
}

} // verus!
