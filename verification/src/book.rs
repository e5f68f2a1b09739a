//! The account book: one balance per client, created lazily on first
//! sight and never removed, together with the order in which clients
//! first appeared.

use std::collections::HashMap;

use vstd::map::*;
use vstd::prelude::*;

use crate::balance::{Balance, BalanceView, empty_balance};

verus! {

broadcast use vstd::std_specs::hash::group_hash_axioms;

/// Mathematical model of the account book: the balances by client, and
/// the clients in order of first appearance.
#[verifier::ext_equal]
pub struct BookView {
    pub accounts: Map<u16, BalanceView>,
    pub order: Seq<u16>,
}

impl BookView {
    /// Structural soundness: each balance is filed under its own client,
    /// and the appearance order lists exactly the known clients, once each.
    pub open spec fn wf(self) -> bool {
        &&& forall|c: u16| self.accounts.contains_key(c)
            ==> (#[trigger] self.accounts[c]).client == c
        &&& forall|i: int| 0 <= i < self.order.len()
            ==> self.accounts.contains_key(#[trigger] self.order[i])
        &&& forall|c: u16| #[trigger] self.accounts.contains_key(c) ==> self.order.contains(c)
        &&& forall|i: int, j: int| 0 <= i < j < self.order.len()
            ==> #[trigger] self.order[i] != #[trigger] self.order[j]
    }
}

/// An empty book: no clients yet.
pub open spec fn empty_book() -> BookView {
    BookView { accounts: Map::empty(), order: Seq::empty() }
}

/// The book after making sure `client` has an account: unchanged if one
/// exists, extended with a fresh empty balance otherwise.
pub open spec fn create_if_absent(v: BookView, client: u16) -> BookView {
    if v.accounts.contains_key(client) {
        v
    } else {
        BookView {
            accounts: v.accounts.insert(client, empty_balance(client)),
            order: v.order.push(client),
        }
    }
}

/// The book after replacing the balance of a known client.
pub open spec fn with_balance(v: BookView, b: BalanceView) -> BookView {
    BookView { accounts: v.accounts.insert(b.client, b), order: v.order }
}

/// Creating a missing account preserves the book's structural soundness.
pub proof fn lemma_create_if_absent_wf(v: BookView, client: u16)
    requires
        v.wf(),
    ensures
        create_if_absent(v, client).wf(),
{
    if !v.accounts.contains_key(client) {
        let v2 = create_if_absent(v, client);
        assert forall|c: u16| #[trigger] v2.accounts.contains_key(c)
            implies v2.order.contains(c) by {
            if c == client {
                assert(v2.order[v2.order.len() - 1] == client);
            } else {
                assert(v.order.contains(c));
                let i = choose|i: int| 0 <= i < v.order.len() && v.order[i] == c;
                assert(v2.order[i] == c);
            }
        }
        assert forall|i: int, j: int| 0 <= i < j < v2.order.len()
            implies #[trigger] v2.order[i] != #[trigger] v2.order[j] by {
            if j == v2.order.len() - 1 {
                assert(v.accounts.contains_key(v.order[i]));
            }
        }
    }
}

/// Replacing the balance of a known client preserves the book's
/// structural soundness.
pub proof fn lemma_with_balance_wf(v: BookView, b: BalanceView)
    requires
        v.wf(),
        v.accounts.contains_key(b.client),
    ensures
        with_balance(v, b).wf(),
{
    let v2 = with_balance(v, b);
    assert forall|c: u16| #[trigger] v2.accounts.contains_key(c)
        implies v2.order.contains(c) by {
        assert(v.accounts.contains_key(c));
    }
}

/// Per-client balances, created lazily and owned by the ledger engine.
pub struct AccountBook {
    accounts: HashMap<u16, Balance>,
    clients: Vec<u16>,
}

impl View for AccountBook {
    type V = BookView;

    closed spec fn view(&self) -> BookView {
        BookView {
            accounts: self.accounts@.map_values(|b: Balance| b@),
            order: self.clients@,
        }
    }
}

impl AccountBook {
    /// Create an empty book.
    pub fn new() -> (r: Self)
        ensures
            r@ == empty_book(),
            r@.wf(),
    {
        let book = AccountBook { accounts: HashMap::new(), clients: Vec::new() };
        proof {
            assert(book@.accounts =~= empty_book().accounts);
            assert(book@ =~= empty_book());
        }
        book
    }

    /// Read the balance of `client`, if that client has appeared.
    pub fn get(&self, client: u16) -> (r: Option<Balance>)
        ensures
            match r {
                Some(b) => self@.accounts.contains_key(client) && b@ == self@.accounts[client],
                None => !self@.accounts.contains_key(client),
            },
    {
        match self.accounts.get(&client) {
            Some(b) => Some(*b),
            None => None,
        }
    }

    /// Fetch the balance of `client`, creating a fresh empty one on first
    /// sight, and return a copy of it.
    pub fn ensure_account(&mut self, client: u16) -> (b: Balance)
        requires
            old(self)@.wf(),
        ensures
            final(self)@ == create_if_absent(old(self)@, client),
            final(self)@.wf(),
            final(self)@.accounts.contains_key(client),
            b@ == final(self)@.accounts[client],
            b.client == client,
    {
        match self.accounts.get(&client) {
            Some(b) => {
                let bal = *b;
                proof {
                    assert(final(self)@ =~= create_if_absent(old(self)@, client));
                    assert(self.accounts@.contains_key(client) && self.accounts@[client] == bal);
                    assert(self@.accounts.contains_key(client));
                    assert(self@.accounts[client] == bal@);
                    assert(bal@.client == client);
                }
                bal
            },
            None => {
                let bal = Balance::new(client);
                self.accounts.insert(client, bal);
                self.clients.push(client);
                proof {
                    assert(self@.accounts =~= create_if_absent(old(self)@, client).accounts);
                    assert(self@ =~= create_if_absent(old(self)@, client));
                    assert forall|c: u16| #[trigger] self@.accounts.contains_key(c)
                        implies self@.order.contains(c) by {
                        if c == client {
                            assert(self@.order[self@.order.len() - 1] == client);
                        } else {
                            let i = choose|i: int|
                                0 <= i < old(self)@.order.len() && old(self)@.order[i] == c;
                            assert(self@.order[i] == c);
                        }
                    }
                    assert(self@.wf());
                }
                bal
            },
        }
    }

    /// Write back the balance of a client that already has an account.
    pub fn put(&mut self, b: Balance)
        requires
            old(self)@.wf(),
            old(self)@.accounts.contains_key(b.client),
        ensures
            final(self)@ == with_balance(old(self)@, b@),
            final(self)@.wf(),
    {
        self.accounts.insert(b.client, b);
        proof {
            assert(self@.accounts =~= with_balance(old(self)@, b@).accounts);
            assert(self@ =~= with_balance(old(self)@, b@));
            assert forall|c: u16| #[trigger] self@.accounts.contains_key(c)
                implies self@.order.contains(c) by {
                assert(old(self)@.accounts.contains_key(c));
            }
            assert(self@.wf());
        }
    }

    /// The clients that have appeared, in order of first appearance.
    pub fn clients(&self) -> (r: &Vec<u16>)
        ensures
            r@ == self@.order,
    {
        &self.clients
    }
}

} // verus!
