//! What a run keeps in memory: the ids that later records cite, the
//! movements stored under those ids, and the accounts.

use crate::engine::client::{AccountState, Client};
use crate::engine::transaction::Movement;
use std::collections::hash_map::Entry;
use std::collections::{HashMap, HashSet};
use vstd::prelude::*;

verus! {

broadcast use vstd::std_specs::hash::group_hash_axioms;

/// A movement kept for the records that cite it, with the account that made
/// it.
#[derive(Debug, Clone, Copy, PartialEq, Eq)]
pub struct Transaction {
    pub parsed_tx: crate::engine::Transaction,
    pub client_id: u16,
}

/// A kept movement in numbers.
pub struct StoredMovement {
    pub movement: Movement,
    pub client_id: u16,
}

impl View for Transaction {
    type V = StoredMovement;

    open spec fn view(&self) -> StoredMovement {
        StoredMovement { movement: self.parsed_tx@, client_id: self.client_id }
    }
}

/// The state of a run in numbers.
pub struct Ledger {
    /// The ids that a dispute, a resolve or a chargeback cites.
    pub referenced: Set<u32>,
    /// The movements kept, by id.
    pub stored: Map<u32, StoredMovement>,
    /// The accounts touched so far, by id.
    pub accounts: Map<u16, AccountState>,
}

impl Ledger {
    /// The state before the first record.
    pub open spec fn empty() -> Ledger {
        Ledger { referenced: Set::empty(), stored: Map::empty(), accounts: Map::empty() }
    }

    /// Whether every account and every kept movement holds numbers within
    /// their bounds.
    pub open spec fn wf(self) -> bool {
        &&& forall|id: u16| self.accounts.contains_key(id) ==> (#[trigger] self.accounts[id]).wf()
        &&& forall|id: u32|
            self.stored.contains_key(id) ==> (#[trigger] self.stored[id]).movement.wf()
    }

    /// The account `id` as the next movement finds it: as it was left, or
    /// fresh where nothing has touched it.
    pub open spec fn account(self, id: u16) -> AccountState {
        if self.accounts.contains_key(id) {
            self.accounts[id]
        } else {
            AccountState::fresh()
        }
    }

    /// The state after the movement `m` was handed to the account `id`.
    /// The account exists from then on, whatever became of the movement.
    pub open spec fn dispatch(self, id: u16, m: Movement) -> Ledger {
        Ledger { accounts: self.accounts.insert(id, self.account(id).apply(m)), ..self }
    }

    /// The state after the id `id` was marked as cited.
    pub open spec fn mark(self, id: u32) -> Ledger {
        Ledger { referenced: self.referenced.insert(id), ..self }
    }

    /// The state after the movement `m` of the account `client_id` was kept
    /// under `id`.
    pub open spec fn store(self, id: u32, m: Movement, client_id: u16) -> Ledger {
        Ledger { stored: self.stored.insert(id, StoredMovement { movement: m, client_id }), ..self }
    }
}

/// The accounts of a map of clients, each in numbers.
pub open spec fn accounts_of(clients: Map<u16, Client>) -> Map<u16, AccountState> {
    clients.map_values(|c: Client| c@)
}

/// The kept movements of a map, each in numbers.
pub open spec fn stored_of(kept: Map<u32, Transaction>) -> Map<u32, StoredMovement> {
    kept.map_values(|t: Transaction| t@)
}

/// The memory of a run. Movements are kept only under ids that the first
/// pass found cited, so what is kept grows with the cited ids and not with
/// the records.
pub struct Db {
    referenced_id: HashSet<u32>,
    referenced_tx: HashMap<u32, Transaction>,
    clients: HashMap<u16, Client>,
}

impl View for Db {
    type V = Ledger;

    closed spec fn view(&self) -> Ledger {
        Ledger {
            referenced: self.referenced_id@,
            stored: stored_of(self.referenced_tx@),
            accounts: accounts_of(self.clients@),
        }
    }
}

impl Db {
    /// The clients by id, as the map holds them.
    pub closed spec fn clients(&self) -> Map<u16, Client> {
        self.clients@
    }

    /// A run that has seen no record.
    pub fn new() -> (db: Self)
        ensures
            db@ == Ledger::empty(),
    {
        let db = Db {
            referenced_id: HashSet::new(),
            referenced_tx: HashMap::new(),
            clients: HashMap::new(),
        };
        assert(stored_of(db.referenced_tx@) =~= Map::empty());
        assert(accounts_of(db.clients@) =~= Map::empty());
        db
    }

    /// Whether a later record cites the id.
    pub fn has_id(&self, id: u32) -> (r: bool)
        ensures
            r == self@.referenced.contains(id),
    {
        self.referenced_id.contains(&id)
    }

    /// Marks the id as cited.
    pub fn add_id(&mut self, id: u32)
        ensures
            final(self)@ == old(self)@.mark(id),
    {
        self.referenced_id.insert(id);
    }

    /// Keeps a movement under its id, in place of any kept there before.
    pub fn add_tx(&mut self, id: u32, tx: crate::engine::Transaction, client_id: u16)
        ensures
            final(self)@ == old(self)@.store(id, tx@, client_id),
    {
        let tx = Transaction { parsed_tx: tx, client_id };
        self.referenced_tx.insert(id, tx);
        assert(stored_of(self.referenced_tx@) =~= stored_of(old(self).referenced_tx@).insert(
            id,
            tx@,
        ));
    }

    /// Puts an account under its id, in place of any there before.
    pub fn add_client(&mut self, id: u16, client: Client)
        ensures
            final(self)@ == (Ledger {
                accounts: old(self)@.accounts.insert(id, client@),
                ..old(self)@
            }),
    {
        self.clients.insert(id, client);
        assert(accounts_of(self.clients@) =~= accounts_of(old(self).clients@).insert(id, client@));
    }

    /// The movement kept under the id, if there is one.
    pub fn get_tx(&self, id: u32) -> (r: Option<&Transaction>)
        ensures
            r is Some <==> self@.stored.contains_key(id),
            r matches Some(tx) ==> tx@ == self@.stored[id],
    {
        self.referenced_tx.get(&id)
    }

    /// The account under the id, if there is one, to be changed in place.
    pub fn get_client(&mut self, id: u16) -> (r: Option<&mut Client>)
        ensures
            r is Some <==> old(self)@.accounts.contains_key(id),
            r matches Some(client) ==> {
                &&& client@ == old(self)@.accounts[id]
                &&& final(self)@ == (Ledger {
                    accounts: old(self)@.accounts.insert(id, final(client)@),
                    ..old(self)@
                })
            },
            r is None ==> final(self)@ == old(self)@,
    {
        match self.clients.entry(id) {
            Entry::Occupied(slot) => {
                let client = slot.into_mut();
                assert(accounts_of(old(self).clients@.insert(id, *final(client))) =~= accounts_of(
                    old(self).clients@,
                ).insert(id, final(client)@));
                Some(client)
            },
            Entry::Vacant(_) => {
                assert(old(self).clients@.remove(id) =~= old(self).clients@);
                None
            },
        }
    }

    /// All accounts, by id.
    pub fn get_clients(&self) -> (r: &HashMap<u16, Client>)
        ensures
            r@ == self.clients(),
            accounts_of(r@) == self@.accounts,
    {
        &self.clients
    }
}

} // verus!
