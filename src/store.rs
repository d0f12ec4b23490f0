//! The pluggable account store and its in-memory reference implementation.

use crate::account::{default_account_view, Account, AccountView};
use crate::address::Address;
use crate::keyed::{addresses_unique, find_slot, insert_entry, lemma_map_of_len, map_of};
use vstd::prelude::*;

verus! {

/// A keyed table of accounts. Addresses are unique; insertion order is
/// irrelevant.
pub trait AccountStore {
    /// The accounts held, by address.
    spec fn stored(&self) -> Map<Address, AccountView>;

    /// What the store hands out for an address it does not hold.
    spec fn default_for(&self, pubkey: Address) -> AccountView;

    fn get_account(&self, pubkey: &Address) -> (r: Option<Account>)
        ensures
            match r {
                Some(a) => self.stored().contains_key(*pubkey) && a@ == self.stored()[*pubkey],
                None => !self.stored().contains_key(*pubkey),
            },
    ;

    fn default_account(&self, pubkey: &Address) -> (r: Account)
        ensures
            r@ == self.default_for(*pubkey),
    ;

    fn store_account(&mut self, pubkey: Address, account: Account)
        ensures
            final(self).stored() == old(self).stored().insert(pubkey, account@),
            forall|k: Address| final(self).default_for(k) == old(self).default_for(k),
    ;
}

/// The reference store: a list of accounts with unique addresses, kept in
/// memory. Addresses it does not hold get the zero account.
pub struct InMemoryAccountStore {
    entries: Vec<(Address, Account)>,
}

impl InMemoryAccountStore {
    #[verifier::type_invariant]
    spec fn inv(&self) -> bool {
        addresses_unique(self.entries@)
    }

    pub fn new() -> (r: InMemoryAccountStore)
        ensures
            r.stored() == Map::<Address, AccountView>::empty(),
    {
        let r = InMemoryAccountStore { entries: Vec::new() };
        proof {
            assert(r.stored() =~= Map::<Address, AccountView>::empty());
        }
        r
    }


    /// Number of accounts held.
    pub fn len(&self) -> (r: usize)
        ensures
            r == self.stored().dom().len(),
    {
        proof {
            use_type_invariant(&*self);
            lemma_map_of_len(self.entries@);
        }
        self.entries.len()
    }

    /// The account held at `pubkey`, if any.
    pub fn get(&self, pubkey: &Address) -> (r: Option<Account>)
        ensures
            match r {
                Some(a) => self.stored().contains_key(*pubkey) && a@ == self.stored()[*pubkey],
                None => !self.stored().contains_key(*pubkey),
            },
    {
        proof {
            use_type_invariant(&*self);
        }
        match find_slot(&self.entries, pubkey) {
            Some(i) => Some(self.entries[i].1.duplicate()),
            None => None,
        }
    }

    /// Stores `account` at `pubkey`, replacing what was there.
    pub fn insert(&mut self, pubkey: Address, account: Account)
        ensures
            final(self).stored() == old(self).stored().insert(pubkey, account@),
    {
        proof {
            use_type_invariant(&*self);
        }
        let mut entries: Vec<(Address, Account)> = Vec::new();
        std::mem::swap(&mut entries, &mut self.entries);
        insert_entry(&mut entries, pubkey, account);
        self.entries = entries;
    }
}

impl AccountStore for InMemoryAccountStore {
    closed spec fn stored(&self) -> Map<Address, AccountView> {
        map_of(self.entries@)
    }

    open spec fn default_for(&self, pubkey: Address) -> AccountView {
        default_account_view()
    }

    fn get_account(&self, pubkey: &Address) -> (r: Option<Account>) {
        self.get(pubkey)
    }

    fn default_account(&self, pubkey: &Address) -> (r: Account) {
        Account::new_default()
    }

    fn store_account(&mut self, pubkey: Address, account: Account) {
        self.insert(pubkey, account)
    }
}

} // verus!
