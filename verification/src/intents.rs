//! Deposit intents: the address and amount each principal says it will deposit.
use vstd::prelude::*;
use crate::assoc::{assoc_map, distinct_keys, lemma_assoc_contains, lemma_assoc_index, lemma_assoc_push_distinct, lemma_assoc_update};
use crate::bytes::{bytes_eq, slice_to_bytes};

verus! {

/// One principal's intent.
pub struct Intent {
    pub principal: Vec<u8>,
    pub address: String,
    pub amount: u64,
}

/// The latest intent of each principal.
pub struct IntentStore {
    entries: Vec<Intent>,
}

/// An intent as a (principal, (address, amount)) pair.
pub open spec fn intent_entry(i: Intent) -> (Seq<u8>, (Seq<char>, u64)) {
    (i.principal@, (i.address@, i.amount))
}

/// The entries of an intent list as (principal, (address, amount)) pairs.
spec fn intent_pairs(entries: Seq<Intent>) -> Seq<(Seq<u8>, (Seq<char>, u64))> {
    entries.map_values(|i: Intent| intent_entry(i))
}

impl View for IntentStore {
    type V = Map<Seq<u8>, (Seq<char>, u64)>;

    /// The address and amount each principal last declared.
    closed spec fn view(&self) -> Map<Seq<u8>, (Seq<char>, u64)> {
        assoc_map(self.pairs())
    }
}

impl IntentStore {
    spec fn pairs(self) -> Seq<(Seq<u8>, (Seq<char>, u64))> {
        intent_pairs(self.entries@)
    }

    /// Each principal is listed once.
    #[verifier::type_invariant]
    spec fn wf(self) -> bool {
        distinct_keys(self.pairs())
    }

    /// An empty store.
    pub fn new() -> (r: Self)
        ensures
            r@ == Map::<Seq<u8>, (Seq<char>, u64)>::empty(),
    {
        assert(intent_pairs(Seq::<Intent>::empty()) =~= Seq::<(Seq<u8>, (Seq<char>, u64))>::empty());
        let r = IntentStore { entries: Vec::new() };
        assert(r.pairs() =~= Seq::<(Seq<u8>, (Seq<char>, u64))>::empty());
        r
    }

    fn find(&self, principal: &[u8]) -> (r: Option<usize>)
        ensures
            match r {
                Some(j) => j < self.entries@.len() && self.entries@[j as int].principal@
                    == principal@,
                None => !self@.contains_key(principal@),
            },
    {
        proof {
            use_type_invariant(self);
        }
        let n = self.entries.len();
        let mut i: usize = 0;
        while i < n
            invariant
                n == self.entries@.len(),
                i <= n,
                forall|j: int| 0 <= j < i ==> self.entries@[j].principal@ != principal@,
            decreases n - i,
        {
            if bytes_eq(self.entries[i].principal.as_slice(), principal) {
                return Some(i);
            }
            i = i + 1;
        }
        proof {
            lemma_assoc_contains(self.pairs(), principal@);
            if self@.contains_key(principal@) {
                let j = choose|j: int|
                    0 <= j < self.pairs().len() && self.pairs()[j].0 == principal@;
                assert(self.entries@[j].principal@ == principal@);
            }
        }
        None
    }

    /// Records `principal`'s intent to deposit `amount` to `address`, replacing its
    /// earlier intent.
    pub fn store_intent(&mut self, principal: &[u8], address: String, amount: u64)
        ensures
            final(self)@ == old(self)@.insert(principal@, (address@, amount)),
    {
        proof {
            use_type_invariant(&*self);
        }
        let ghost old_pairs = self.pairs();
        let ghost v = (address@, amount);
        let found = self.find(principal);
        let mut entries: Vec<Intent> = Vec::new();
        assert(intent_pairs(entries@) =~= Seq::<(Seq<u8>, (Seq<char>, u64))>::empty());
        std::mem::swap(&mut entries, &mut self.entries);
        match found {
            Some(j) => {
                proof {
                    lemma_assoc_update(old_pairs, j as int, v);
                }
                entries.set(j, Intent { principal: slice_to_bytes(principal), address, amount });
                assert(intent_pairs(entries@) =~= old_pairs.update(j as int, (old_pairs[j as int].0, v)));
            },
            None => {
                proof {
                    lemma_assoc_push_distinct(old_pairs, principal@, v);
                }
                entries.push(Intent { principal: slice_to_bytes(principal), address, amount });
                assert(intent_pairs(entries@) =~= old_pairs.push((principal@, v)));
            },
        }
        self.entries = entries;
    }

    /// The intent `principal` recorded last, if any.
    pub fn get_user_intent(&self, principal: &[u8]) -> (r: Option<(String, u64)>)
        ensures
            match r {
                Some((address, amount)) => self@.contains_key(principal@) && self@[principal@] == (
                address@,
                amount,
                ),
                None => !self@.contains_key(principal@),
            },
    {
        proof {
            use_type_invariant(self);
        }
        match self.find(principal) {
            Some(j) => {
                proof {
                    lemma_assoc_index(self.pairs(), j as int);
                }
                Some((self.entries[j].address.clone(), self.entries[j].amount))
            },
            None => None,
        }
    }
}

/// The intent read back for a principal is the one it stored last; other principals'
/// intents are untouched by the store.
pub proof fn lemma_intent_read_after_write(
    store: Map<Seq<u8>, (Seq<char>, u64)>,
    principal: Seq<u8>,
    address: Seq<char>,
    amount: u64,
)
    ensures
        store.insert(principal, (address, amount)).contains_key(principal),
        store.insert(principal, (address, amount))[principal] == (address, amount),
        forall|other: Seq<u8>|
            other != principal ==> (store.insert(principal, (address, amount)).contains_key(other)
                == store.contains_key(other) && (store.contains_key(other) ==> store.insert(
                principal,
                (address, amount),
            )[other] == store[other])),
{
}

} // verus!
