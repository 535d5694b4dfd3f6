//! The accounts of all clients seen so far.
use crate::account_state::{AccountModel, AccountState};
use std::collections::HashMap;
use vstd::prelude::*;

verus! {

broadcast use vstd::std_specs::hash::group_hash_axioms;

/// What a map of account states says of each account.
pub open spec fn models_of(states: Map<u16, AccountState>) -> Map<u16, AccountModel> {
    Map::new(|c: u16| states.contains_key(c), |c: u16| states[c]@)
}

/// The account of a client: the one recorded, else a fresh one.
pub open spec fn account_or_fresh(accounts: Map<u16, AccountModel>, client: u16) -> AccountModel {
    if accounts.contains_key(client) {
        accounts[client]
    } else {
        AccountModel::fresh(client)
    }
}

/// Every account is well formed and filed under its own client, and
/// `clients` names each account once.
spec fn wf_parts(accounts: Map<u16, AccountState>, clients: Seq<u16>) -> bool {
    &&& clients.no_duplicates()
    &&& forall|c: u16| accounts.contains_key(c) <==> clients.contains(c)
    &&& forall|c: u16| #[trigger]
        accounts.contains_key(c) ==> accounts[c].wf() && accounts[c].client == c
}

/// Accounts by client, with the clients in the order they first came.
#[derive(Debug)]
pub struct AccountStore {
    accounts: HashMap<u16, AccountState>,
    clients: Vec<u16>,
}

impl View for AccountStore {
    type V = Map<u16, AccountModel>;

    open spec fn view(&self) -> Map<u16, AccountModel> {
        models_of(self.states())
    }
}

impl Default for AccountStore {
    fn default() -> (r: Self)
        ensures
            r@ == Map::<u16, AccountModel>::empty(),
            r.wf(),
    {
        let r = AccountStore { accounts: HashMap::new(), clients: Vec::new() };
        assert(r@ =~= Map::<u16, AccountModel>::empty());
        r
    }
}

impl AccountStore {
    pub closed spec fn states(self) -> Map<u16, AccountState> {
        self.accounts@
    }

    /// Every account is well formed and filed under its own client, and the
    /// list of clients names each account once.
    pub closed spec fn wf(self) -> bool {
        wf_parts(self.accounts@, self.clients@)
    }

    /// Every account of a well-formed store is well formed and filed under
    /// its own client.
    pub proof fn lemma_accounts_wf(self)
        requires
            self.wf(),
        ensures
            forall|c: u16| #[trigger]
                self@.contains_key(c) ==> self@[c].wf() && self@[c].client == c,
    {
    }

    /// The account of `client_id`, created fresh if there is none yet.
    pub fn get_or_create(&mut self, client_id: u16) -> (r: &mut AccountState)
        requires
            old(self).wf(),
        ensures
            r@ == account_or_fresh(old(self)@, client_id),
            r.wf(),
            r.client == client_id,
            final(self).states() == old(self).states().insert(client_id, *final(r)),
            final(r).wf() && final(r).client == client_id ==> final(self).wf(),
    {
        if !self.accounts.contains_key(&client_id) {
            self.clients.push(client_id);
            proof {
                let q = old(self).clients@;
                assert(self.clients@ == q.push(client_id));
                assert(self.clients@[q.len() as int] == client_id);
                assert(!q.contains(client_id));
                assert forall|i: int, j: int|
                    0 <= i < j < self.clients@.len() implies self.clients@[i]
                    != self.clients@[j] by {
                    if j == q.len() {
                        assert(q[i] == self.clients@[i]);
                    }
                }
                assert forall|c: u16| c != client_id implies (self.clients@.contains(c)
                    <==> #[trigger] q.contains(c)) by {
                    if q.contains(c) {
                        let i = choose|i: int| 0 <= i < q.len() && q[i] == c;
                        assert(self.clients@[i] == c);
                    }
                }
            }
        }
        let fresh = AccountState::new(client_id);
        proof {
            assert(self.clients@.contains(client_id)) by {
                if old(self).accounts@.contains_key(client_id) {
                    assert(old(self).clients@.contains(client_id));
                } else {
                    assert(self.clients@[old(self).clients@.len() as int] == client_id);
                }
            }
            assert(self.clients@.no_duplicates());
            assert forall|c: u16| c != client_id implies (self.clients@.contains(c)
                <==> #[trigger] old(self).accounts@.contains_key(c)) by {
                assert(old(self).accounts@.contains_key(c) <==> old(self).clients@.contains(c));
            }
            assert forall|a: AccountState| a.wf() && a.client == client_id implies wf_parts(
                #[trigger] self.accounts@.insert(client_id, a),
                self.clients@,
            ) by {
                let m = self.accounts@.insert(client_id, a);
                assert forall|c: u16| m.contains_key(c) <==> self.clients@.contains(c) by {
                    if c != client_id {
                        assert(m.contains_key(c) == old(self).accounts@.contains_key(c));
                    }
                }
            }
        }
        self.accounts.entry(client_id).or_insert(fresh)
    }

    /// The account of `client_id`, if there is one.
    pub fn get(&self, client_id: u16) -> (r: Option<&AccountState>)
        requires
            self.wf(),
        ensures
            r is Some <==> self@.contains_key(client_id),
            r matches Some(a) ==> a@ == self@[client_id] && a.wf(),
    {
        self.accounts.get(&client_id)
    }

    /// The accounts, each once.
    pub fn iter(&self) -> (r: Vec<&AccountState>)
        requires
            self.wf(),
        ensures
            forall|i: int| 0 <= i < r@.len() ==> self@.contains_key(#[trigger] r@[i].client)
                && self@[r@[i].client] == r@[i]@,
            forall|c: u16| self@.contains_key(c) ==> exists|i: int| 0 <= i < r@.len() && #[trigger] r@[i].client == c,
            forall|i: int, j: int| 0 <= i < j < r@.len() ==> r@[i].client != r@[j].client,
    {
        let mut r: Vec<&AccountState> = Vec::new();
        let mut k: usize = 0;
        while k < self.clients.len()
            invariant
                self.wf(),
                k <= self.clients@.len(),
                r@.len() == k,
                forall|i: int| 0 <= i < k ==> #[trigger] r@[i].client == self.clients@[i],
                forall|i: int| 0 <= i < k ==> self@.contains_key(#[trigger] r@[i].client)
                    && self@[r@[i].client] == r@[i]@,
            decreases self.clients@.len() - k,
        {
            let c = self.clients[k];
            assert(self.clients@.contains(c));
            match self.accounts.get(&c) {
                Some(a) => {
                    r.push(a);
                },
                None => {},
            }
            k = k + 1;
        }
        proof {
            assert forall|c: u16| self@.contains_key(c) implies exists|i: int|
                0 <= i < r@.len() && #[trigger] r@[i].client == c by {
                assert(self.accounts@.contains_key(c));
                assert(self.clients@.contains(c));
                let i = choose|i: int| 0 <= i < self.clients@.len() && self.clients@[i] == c;
                assert(r@[i].client == c);
            }
        }
        r
    }
}

} // verus!
