//! The balance book: holding accounts kept at derived addresses, with the
//! ledger-mutation primitives (create, credit, debit) that the transfer
//! executor invokes.

use vstd::prelude::*;

verus! {

/// Canonical address of a holding account: a deterministic function of
/// (owner, mint). Keeping the pair itself as the address makes the
/// derivation injective by construction, so distinct owner/mint pairs can
/// never collide on one address.
#[derive(Clone, Copy, PartialEq, Eq, Structural, Debug)]
pub struct Address {
    pub owner: u64,
    pub mint: u64,
}

/// The canonical holding-account address for an owner and a mint.
pub open spec fn derived_address(owner: u64, mint: u64) -> Address {
    Address { owner, mint }
}

/// Derives the canonical holding-account address for (owner, mint).
pub fn derive_address(owner: u64, mint: u64) -> (a: Address)
    ensures
        a == derived_address(owner, mint),
{
    Address { owner, mint }
}

/// One per-owner, per-mint balance record. A record always lives at its
/// derived address; it is never stored under an independently chosen key.
#[derive(Clone, Copy, PartialEq, Eq, Structural, Debug)]
pub struct HoldingAccount {
    pub owner: u64,
    pub mint: u64,
    pub balance: u64,
}

impl HoldingAccount {
    /// The derived address this record lives at.
    pub open spec fn address(self) -> Address {
        derived_address(self.owner, self.mint)
    }
}

/// The balances recorded by a sequence of holding accounts, as a map from
/// derived address to balance.
spec fn map_of(s: Seq<HoldingAccount>) -> Map<Address, u64>
    decreases s.len(),
{
    if s.len() == 0 {
        Map::empty()
    } else {
        map_of(s.drop_last()).insert(s.last().address(), s.last().balance)
    }
}

/// No two records occupy one address.
spec fn distinct_addresses(s: Seq<HoldingAccount>) -> bool {
    forall|i: int, j: int|
        #![trigger s[i], s[j]]
        0 <= i < j < s.len() ==> s[i].address() != s[j].address()
}

/// The balance at an address: zero where no account exists.
pub open spec fn spec_balance(m: Map<Address, u64>, a: Address) -> u64 {
    if m.contains_key(a) {
        m[a]
    } else {
        0u64
    }
}

/// Every record's address is a key of the balance map.
proof fn lemma_map_of_index(s: Seq<HoldingAccount>, i: int)
    requires
        0 <= i < s.len(),
    ensures
        map_of(s).contains_key(s[i].address()),
    decreases s.len(),
{
    if i < s.len() - 1 {
        lemma_map_of_index(s.drop_last(), i);
        assert(s.drop_last()[i] == s[i]);
    }
}

/// Every key of the balance map names some record.
proof fn lemma_map_of_contains(s: Seq<HoldingAccount>, a: Address)
    requires
        map_of(s).contains_key(a),
    ensures
        exists|i: int| #![trigger s[i]] 0 <= i < s.len() && s[i].address() == a,
    decreases s.len(),
{
    if s.len() > 0 {
        if s.last().address() == a {
            assert(s[s.len() - 1].address() == a);
        } else {
            lemma_map_of_contains(s.drop_last(), a);
            let i: int = choose|i: int|
                #![trigger s.drop_last()[i]]
                0 <= i < s.drop_last().len() && s.drop_last()[i].address() == a;
            assert(s.drop_last()[i] == s[i]);
            assert(s[i].address() == a);
        }
    }
}

/// Dropping the last record keeps the remaining addresses distinct.
proof fn lemma_distinct_drop_last(s: Seq<HoldingAccount>)
    requires
        distinct_addresses(s),
        s.len() > 0,
    ensures
        distinct_addresses(s.drop_last()),
{
    assert forall|p: int, q: int|
        #![trigger s.drop_last()[p], s.drop_last()[q]]
        0 <= p < q < s.drop_last().len() implies s.drop_last()[p].address()
        != s.drop_last()[q].address() by {
        assert(s.drop_last()[p] == s[p]);
        assert(s.drop_last()[q] == s[q]);
    }
}

/// With distinct addresses, the balance map holds exactly each record's
/// balance at its address.
proof fn lemma_map_of_at(s: Seq<HoldingAccount>, i: int)
    requires
        0 <= i < s.len(),
        distinct_addresses(s),
    ensures
        map_of(s).contains_key(s[i].address()),
        map_of(s)[s[i].address()] == s[i].balance,
    decreases s.len(),
{
    if i == s.len() - 1 {
    } else {
        lemma_distinct_drop_last(s);
        lemma_map_of_at(s.drop_last(), i);
        assert(s.drop_last()[i] == s[i]);
        assert(s.last() == s[s.len() - 1]);
        assert(s[i].address() != s[s.len() - 1].address());
    }
}

/// Appending a record whose address is fresh keeps the addresses distinct.
proof fn lemma_distinct_push(s: Seq<HoldingAccount>, e: HoldingAccount)
    requires
        distinct_addresses(s),
        !map_of(s).contains_key(e.address()),
    ensures
        distinct_addresses(s.push(e)),
{
    let t = s.push(e);
    assert forall|p: int, q: int|
        #![trigger t[p], t[q]]
        0 <= p < q < t.len() implies t[p].address() != t[q].address() by {
        if q == s.len() {
            assert(t[p] == s[p]);
            assert(t[q] == e);
            if s[p].address() == e.address() {
                lemma_map_of_index(s, p);
            }
        } else {
            assert(t[p] == s[p]);
            assert(t[q] == s[q]);
        }
    }
}

/// Appending a record adds exactly its entry to the balance map.
proof fn lemma_map_of_push(s: Seq<HoldingAccount>, e: HoldingAccount)
    ensures
        map_of(s.push(e)) == map_of(s).insert(e.address(), e.balance),
{
    assert(s.push(e).drop_last() =~= s);
    assert(s.push(e).last() == e);
}

/// Replacing one record with another at the same address updates exactly
/// that entry of the balance map.
proof fn lemma_map_of_update(s: Seq<HoldingAccount>, i: int, e: HoldingAccount)
    requires
        0 <= i < s.len(),
        distinct_addresses(s),
        e.address() == s[i].address(),
    ensures
        map_of(s.update(i, e)) == map_of(s).insert(e.address(), e.balance),
        distinct_addresses(s.update(i, e)),
    decreases s.len(),
{
    let t = s.update(i, e);
    assert forall|p: int, q: int|
        #![trigger t[p], t[q]]
        0 <= p < q < t.len() implies t[p].address() != t[q].address() by {
        assert(t[p] == if p == i { e } else { s[p] });
        assert(t[q] == if q == i { e } else { s[q] });
    }
    if i == s.len() - 1 {
        assert(t.drop_last() =~= s.drop_last());
        assert(t.last() == e);
        assert(map_of(t) =~= map_of(s).insert(e.address(), e.balance));
    } else {
        lemma_distinct_drop_last(s);
        lemma_map_of_update(s.drop_last(), i, e);
        assert(t.drop_last() =~= s.drop_last().update(i, e));
        assert(t.last() == s.last());
        assert(s.last() == s[s.len() - 1]);
        assert(s[i].address() != s[s.len() - 1].address());
        assert(map_of(t) =~= map_of(s).insert(e.address(), e.balance));
    }
}

/// The balance book of all existing holding accounts, each at its derived
/// address. It stands for the external ledger's storage: the primitives
/// below are the only operations that mutate it.
pub struct Ledger {
    accounts: Vec<HoldingAccount>,
}

impl View for Ledger {
    type V = Map<Address, u64>;

    closed spec fn view(&self) -> Map<Address, u64> {
        map_of(self.accounts@)
    }
}

impl Ledger {
    /// Well-formedness: no two records occupy one address.
    pub closed spec fn wf(self) -> bool {
        distinct_addresses(self.accounts@)
    }

    /// An empty book: no holding account exists yet.
    pub fn new() -> (l: Ledger)
        ensures
            l.wf(),
            l@ == Map::<Address, u64>::empty(),
    {
        Ledger { accounts: Vec::new() }
    }

    fn find_index(&self, a: Address) -> (r: Option<usize>)
        ensures
            match r {
                Some(i) => i < self.accounts@.len() && self.accounts@[i as int].address() == a,
                None => !self@.contains_key(a),
            },
    {
        let n: usize = self.accounts.len();
        let mut k: usize = 0;
        while k < n
            invariant
                k <= n,
                n == self.accounts@.len(),
                forall|j: int|
                    #![trigger self.accounts@[j]]
                    0 <= j < k ==> self.accounts@[j].address() != a,
            decreases n - k,
        {
            let rec = self.accounts[k];
            let rec_addr = derive_address(rec.owner, rec.mint);
            if rec_addr == a {
                return Some(k);
            }
            k = k + 1;
        }
        proof {
            if self@.contains_key(a) {
                lemma_map_of_contains(self.accounts@, a);
            }
        }
        None
    }

    /// Does a holding account exist at this address?
    pub fn has_account(&self, a: Address) -> (r: bool)
        ensures
            r == self@.contains_key(a),
    {
        match self.find_index(a) {
            Some(i) => {
                proof {
                    lemma_map_of_index(self.accounts@, i as int);
                }
                true
            },
            None => false,
        }
    }

    /// The recorded balance at an address; zero where no account exists.
    pub fn balance_of(&self, a: Address) -> (r: u64)
        requires
            self.wf(),
        ensures
            r == spec_balance(self@, a),
    {
        match self.find_index(a) {
            Some(i) => {
                proof {
                    lemma_map_of_at(self.accounts@, i as int);
                }
                self.accounts[i].balance
            },
            None => 0,
        }
    }

    /// Ledger primitive: record a new holding account for (owner, mint)
    /// with an empty balance.
    pub fn create_account(&mut self, owner: u64, mint: u64)
        requires
            old(self).wf(),
            !old(self)@.contains_key(derived_address(owner, mint)),
        ensures
            final(self).wf(),
            final(self)@ == old(self)@.insert(derived_address(owner, mint), 0u64),
    {
        let rec = HoldingAccount { owner, mint, balance: 0 };
        proof {
            lemma_distinct_push(self.accounts@, rec);
            lemma_map_of_push(self.accounts@, rec);
        }
        self.accounts.push(rec);
    }

    /// Ledger primitive: credit `amount` to the existing account at `a`.
    pub fn credit(&mut self, a: Address, amount: u64)
        requires
            old(self).wf(),
            old(self)@.contains_key(a),
            old(self)@[a] + amount <= u64::MAX,
        ensures
            final(self).wf(),
            final(self)@ == old(self)@.insert(a, (old(self)@[a] + amount) as u64),
    {
        let idx = self.find_index(a);
        let i: usize = idx.unwrap();
        proof {
            lemma_map_of_at(self.accounts@, i as int);
        }
        let rec = self.accounts[i];
        let updated = HoldingAccount { owner: rec.owner, mint: rec.mint, balance: rec.balance + amount };
        proof {
            lemma_map_of_update(self.accounts@, i as int, updated);
        }
        self.accounts[i] = updated;
    }

    /// Ledger primitive: debit `amount` from the existing account at `a`.
    pub fn debit(&mut self, a: Address, amount: u64)
        requires
            old(self).wf(),
            old(self)@.contains_key(a),
            amount <= old(self)@[a],
        ensures
            final(self).wf(),
            final(self)@ == old(self)@.insert(a, (old(self)@[a] - amount) as u64),
    {
        let idx = self.find_index(a);
        let i: usize = idx.unwrap();
        proof {
            lemma_map_of_at(self.accounts@, i as int);
        }
        let rec = self.accounts[i];
        let updated = HoldingAccount { owner: rec.owner, mint: rec.mint, balance: rec.balance - amount };
        proof {
            lemma_map_of_update(self.accounts@, i as int, updated);
        }
        self.accounts[i] = updated;
    }
}

} // verus!
