//! The USDB ledger: total supply and per-principal balances, with mint and burn.
use vstd::prelude::*;
use vstd::string::*;
use crate::assoc::{assoc_map, distinct_keys, lemma_assoc_contains, lemma_assoc_index, lemma_assoc_push_distinct, lemma_assoc_update};
use crate::bytes::{bytes_eq, slice_to_bytes};

verus! {

/// A principal's USDB balance.
pub struct UserBalance {
    /// The principal's bytes.
    pub principal: Vec<u8>,
    pub amount: u64,
}

/// Total supply and balances.
pub struct UsdbLedger {
    total_supply: u64,
    balances: Vec<UserBalance>,
}

/// What the ledger holds: its total supply and the balance of each principal that has
/// ever minted (a balance burnt down to zero stays listed).
pub struct LedgerView {
    pub supply: int,
    pub balances: Map<Seq<u8>, u64>,
}

/// Why a burn was refused.
#[derive(Clone, Copy, Debug, PartialEq, Eq, Structural)]
pub enum LedgerError {
    /// The caller holds less than the amount to burn.
    InsufficientBalance,
    /// The caller never minted.
    NoBalance,
}

impl LedgerError {
    /// The message the canister rejects the call with.
    pub open spec fn spec_message(self) -> Seq<char> {
        match self {
            LedgerError::InsufficientBalance => "Insufficient USDB balance to burn."@,
            LedgerError::NoBalance => "No USDB balance found for caller."@,
        }
    }

    /// The message the canister rejects the call with.
    pub fn message(&self) -> (r: String)
        ensures
            r@ == self.spec_message(),
    {
        match self {
            LedgerError::InsufficientBalance => String::from_str(
                "Insufficient USDB balance to burn.",
            ),
            LedgerError::NoBalance => String::from_str("No USDB balance found for caller."),
        }
    }
}

/// A balance entry as a (principal, amount) pair.
pub open spec fn balance_entry(b: UserBalance) -> (Seq<u8>, u64) {
    (b.principal@, b.amount)
}

/// Sum of the amounts of a list of entries.
pub open spec fn amounts_sum(s: Seq<(Seq<u8>, u64)>) -> int
    decreases s.len(),
{
    if s.len() == 0 {
        0
    } else {
        amounts_sum(s.drop_last()) + s.last().1
    }
}

/// The balance of `p` in a balance map (zero when it is not listed).
pub open spec fn balance_of(balances: Map<Seq<u8>, u64>, p: Seq<u8>) -> int {
    if balances.contains_key(p) {
        balances[p] as int
    } else {
        0
    }
}

/// The ledger after `p` mints `amount`.
pub open spec fn spec_mint(l: LedgerView, p: Seq<u8>, amount: u64) -> LedgerView {
    LedgerView {
        supply: l.supply + amount,
        balances: l.balances.insert(p, (balance_of(l.balances, p) + amount) as u64),
    }
}

/// The ledger after `p` burns `amount`, or why the burn is refused.
pub open spec fn spec_burn(l: LedgerView, p: Seq<u8>, amount: u64) -> Result<LedgerView, LedgerError> {
    if !l.balances.contains_key(p) {
        Err(LedgerError::NoBalance)
    } else if l.balances[p] < amount {
        Err(LedgerError::InsufficientBalance)
    } else {
        Ok(
            LedgerView {
                supply: l.supply - amount,
                balances: l.balances.insert(p, (l.balances[p] - amount) as u64),
            },
        )
    }
}

proof fn lemma_amounts_sum_update(s: Seq<(Seq<u8>, u64)>, j: int, v: u64)
    requires
        0 <= j < s.len(),
    ensures
        amounts_sum(s.update(j, (s[j].0, v))) == amounts_sum(s) - s[j].1 + v,
    decreases s.len(),
{
    let t = s.update(j, (s[j].0, v));
    if j == s.len() - 1 {
        assert(t.drop_last() =~= s.drop_last());
    } else {
        lemma_amounts_sum_update(s.drop_last(), j, v);
        assert(t.drop_last() =~= s.drop_last().update(j, (s[j].0, v)));
    }
}

proof fn lemma_amount_le_sum(s: Seq<(Seq<u8>, u64)>, j: int)
    requires
        0 <= j < s.len(),
    ensures
        s[j].1 <= amounts_sum(s),
    decreases s.len(),
{
    if j < s.len() - 1 {
        lemma_amount_le_sum(s.drop_last(), j);
        lemma_amounts_sum_nonneg(s.drop_last());
        assert(s.drop_last()[j] == s[j]);
    } else {
        lemma_amounts_sum_nonneg(s.drop_last());
    }
}

proof fn lemma_amounts_sum_nonneg(s: Seq<(Seq<u8>, u64)>)
    ensures
        amounts_sum(s) >= 0,
    decreases s.len(),
{
    if s.len() > 0 {
        lemma_amounts_sum_nonneg(s.drop_last());
    }
}

/// The balances of a list of entries as (principal, amount) pairs.
spec fn balance_pairs(balances: Seq<UserBalance>) -> Seq<(Seq<u8>, u64)> {
    balances.map_values(|b: UserBalance| balance_entry(b))
}

/// The listed balances give the view's balance map, each principal once, and they sum
/// to the total supply.
pub open spec fn supply_is_sum_of(l: LedgerView, entries: Seq<(Seq<u8>, u64)>) -> bool {
    &&& distinct_keys(entries)
    &&& assoc_map(entries) == l.balances
    &&& l.supply == amounts_sum(entries)
}

impl View for UsdbLedger {
    type V = LedgerView;

    closed spec fn view(&self) -> LedgerView {
        LedgerView { supply: self.total_supply as int, balances: assoc_map(self.entries()) }
    }
}

impl UsdbLedger {
    /// The balances as (principal, amount) pairs, in the order the principals first
    /// minted.
    pub closed spec fn entries(self) -> Seq<(Seq<u8>, u64)> {
        balance_pairs(self.balances@)
    }

    /// Each principal is listed once, and the total supply is the sum of all balances.
    #[verifier::type_invariant]
    spec fn wf(self) -> bool {
        &&& distinct_keys(self.entries())
        &&& self.total_supply == amounts_sum(self.entries())
    }

    /// An empty ledger.
    pub fn new() -> (r: Self)
        ensures
            r@.supply == 0,
            r@.balances == Map::<Seq<u8>, u64>::empty(),
            supply_is_sum_of(r@, r.entries()),
    {
        assert(balance_pairs(Seq::<UserBalance>::empty()) =~= Seq::<(Seq<u8>, u64)>::empty());
        let r = UsdbLedger { total_supply: 0, balances: Vec::new() };
        assert(r.entries() =~= Seq::<(Seq<u8>, u64)>::empty());
        r
    }

    /// The current total supply of USDB, which is the sum of all balances.
    pub fn get_total_supply(&self) -> (r: u64)
        ensures
            r == self@.supply,
            supply_is_sum_of(self@, self.entries()),
    {
        proof {
            use_type_invariant(self);
        }
        self.total_supply
    }

    fn find(&self, principal: &[u8]) -> (r: Option<usize>)
        ensures
            match r {
                Some(j) => j < self.balances@.len() && self.balances@[j as int].principal@
                    == principal@,
                None => !self@.balances.contains_key(principal@),
            },
    {
        proof {
            use_type_invariant(self);
        }
        let n = self.balances.len();
        let mut i: usize = 0;
        while i < n
            invariant
                n == self.balances@.len(),
                i <= n,
                forall|j: int| 0 <= j < i ==> self.balances@[j].principal@ != principal@,
            decreases n - i,
        {
            if bytes_eq(self.balances[i].principal.as_slice(), principal) {
                return Some(i);
            }
            i = i + 1;
        }
        proof {
            lemma_assoc_contains(self.entries(), principal@);
            if self@.balances.contains_key(principal@) {
                let j = choose|j: int|
                    0 <= j < self.entries().len() && self.entries()[j].0 == principal@;
                assert(self.balances@[j].principal@ == principal@);
            }
        }
        None
    }

    /// The balance of `principal` (zero if it never minted).
    pub fn get_my_balance(&self, principal: &[u8]) -> (r: u64)
        ensures
            r == balance_of(self@.balances, principal@),
    {
        proof {
            use_type_invariant(self);
        }
        match self.find(principal) {
            Some(j) => {
                proof {
                    lemma_assoc_index(self.entries(), j as int);
                }
                self.balances[j].amount
            },
            None => 0,
        }
    }

    /// Takes the ledger's contents out, leaving it empty.
    fn take(&mut self) -> (r: (u64, Vec<UserBalance>))
        ensures
            final(self)@.supply == 0,
            r.0 == old(self)@.supply,
            balance_pairs(r.1@) == old(self).entries(),
            distinct_keys(old(self).entries()),
            r.0 == amounts_sum(old(self).entries()),
    {
        proof {
            use_type_invariant(&*self);
        }
        let mut taken = UsdbLedger::new();
        std::mem::swap(&mut taken, self);
        proof {
            use_type_invariant(&taken);
        }
        let UsdbLedger { total_supply, balances } = taken;
        (total_supply, balances)
    }

    /// Credits `amount` to `minter` and to the total supply; returns the new total supply.
    pub fn mint_usdb(&mut self, minter: &[u8], amount: u64) -> (r: u64)
        requires
            old(self)@.supply + amount <= u64::MAX,
        ensures
            final(self)@ == spec_mint(old(self)@, minter@, amount),
            supply_is_sum_of(final(self)@, final(self).entries()),
            r == final(self)@.supply,
    {
        let found = self.find(minter);
        let ghost old_entries = self.entries();
        let (total_supply, mut balances) = self.take();
        let new_supply = total_supply + amount;
        match found {
            Some(j) => {
                proof {
                    lemma_assoc_index(old_entries, j as int);
                    lemma_amount_le_sum(old_entries, j as int);
                    lemma_assoc_update(old_entries, j as int, (old_entries[j as int].1 + amount) as u64);
                    lemma_amounts_sum_update(old_entries, j as int, (old_entries[j as int].1 + amount) as u64);
                }
                let new_amount = balances[j].amount + amount;
                let principal = slice_to_bytes(minter);
                balances.set(j, UserBalance { principal, amount: new_amount });
                assert(balance_pairs(balances@) =~= old_entries.update(j as int, (minter@, new_amount)));
            },
            None => {
                proof {
                    lemma_assoc_push_distinct(old_entries, minter@, amount);
                }
                balances.push(UserBalance { principal: slice_to_bytes(minter), amount });
                assert(balance_pairs(balances@) =~= old_entries.push((minter@, amount)));
                assert(balance_pairs(balances@).drop_last() =~= old_entries);
            },
        }
        *self = UsdbLedger { total_supply: new_supply, balances };
        assert(self@.balances =~= spec_mint(old(self)@, minter@, amount).balances);
        new_supply
    }

    /// Debits `amount` from `burner` and from the total supply and returns the new total
    /// supply; refuses, leaving the ledger as it was, when `burner` never minted or holds
    /// less than `amount`.
    pub fn burn_usdb(&mut self, burner: &[u8], amount: u64) -> (r: Result<u64, LedgerError>)
        ensures
            supply_is_sum_of(final(self)@, final(self).entries()),
            match spec_burn(old(self)@, burner@, amount) {
                Ok(l) => final(self)@ == l && r == Ok::<u64, LedgerError>(l.supply as u64),
                Err(e) => final(self)@ == old(self)@ && r == Err::<u64, LedgerError>(e),
            },
    {
        proof {
            use_type_invariant(&*self);
        }
        let ghost old_entries = self.entries();
        match self.find(burner) {
            None => Err(LedgerError::NoBalance),
            Some(j) => {
                proof {
                    lemma_assoc_index(old_entries, j as int);
                }
                let current = self.balances[j].amount;
                if current >= amount {
                    proof {
                        lemma_amount_le_sum(old_entries, j as int);
                        lemma_assoc_update(old_entries, j as int, (current - amount) as u64);
                        lemma_amounts_sum_update(old_entries, j as int, (current - amount) as u64);
                    }
                    let (total_supply, mut balances) = self.take();
                    let principal = slice_to_bytes(burner);
                    balances.set(j, UserBalance { principal, amount: current - amount });
                    let new_supply = total_supply - amount;
                    assert(balance_pairs(balances@) =~= old_entries.update(
                        j as int,
                        (burner@, (current - amount) as u64),
                    ));
                    *self = UsdbLedger { total_supply: new_supply, balances };
                    assert(self@.balances =~= old(self)@.balances.insert(
                        burner@,
                        (current - amount) as u64,
                    ));
                    Ok(new_supply)
                } else {
                    Err(LedgerError::InsufficientBalance)
                }
            },
        }
    }
}

/// Burning what was just minted restores the caller's balance and the total supply.
pub proof fn lemma_mint_then_burn_restores(l: LedgerView, p: Seq<u8>, amount: u64)
    requires
        balance_of(l.balances, p) + amount <= u64::MAX,
    ensures
        spec_burn(spec_mint(l, p, amount), p, amount) is Ok,
        balance_of(spec_burn(spec_mint(l, p, amount), p, amount)->Ok_0.balances, p)
            == balance_of(l.balances, p),
        spec_burn(spec_mint(l, p, amount), p, amount)->Ok_0.supply == l.supply,
        forall|q: Seq<u8>|
            q != p ==> balance_of(spec_burn(spec_mint(l, p, amount), p, amount)->Ok_0.balances, q)
                == balance_of(l.balances, q),
{
}

/// A refused burn names the reason: never minted, or holding less than the amount.
pub proof fn lemma_burn_refusal(l: LedgerView, p: Seq<u8>, amount: u64)
    ensures
        spec_burn(l, p, amount) is Err <==> balance_of(l.balances, p) < amount || !l.balances.contains_key(p),
{
}

/// Minting only changes the minter's balance, which grows by the amount minted.
pub proof fn lemma_mint_credits_only_minter(l: LedgerView, p: Seq<u8>, amount: u64)
    requires
        balance_of(l.balances, p) + amount <= u64::MAX,
    ensures
        balance_of(spec_mint(l, p, amount).balances, p) == balance_of(l.balances, p) + amount,
        forall|q: Seq<u8>|
            q != p ==> balance_of(spec_mint(l, p, amount).balances, q) == balance_of(l.balances, q),
        spec_mint(l, p, amount).supply == l.supply + amount,
{
}

/// The greeting the backend answers with: `Hello, <name>!`.
pub fn greet(name: &str) -> (r: String)
    ensures
        r@ == "Hello, "@ + name@ + "!"@,
{
    let mut s = String::from_str("Hello, ");
    s.append(name);
    s.append("!");
    s
}

} // verus!
