//! Choosing which unspent outputs pay for a transaction.
use vstd::prelude::*;
use vstd::string::*;
use crate::decimal::{decimal, push_decimal};

verus! {

/// Reference to an output of an earlier transaction.
#[derive(Debug, PartialEq, Eq)]
pub struct Outpoint {
    /// Transaction id (32 bytes, internal byte order).
    pub txid: Vec<u8>,
    /// Index of the output within that transaction.
    pub vout: u32,
}

/// An unspent transaction output.
#[derive(Debug, PartialEq, Eq)]
pub struct Utxo {
    pub outpoint: Outpoint,
    /// Value in satoshi.
    pub value: u64,
    /// Height of the block that holds it.
    pub height: u32,
}

/// Sum of the values of the last `k` outputs of `utxos`.
pub open spec fn rev_sum(utxos: Seq<Utxo>, k: nat) -> int
    decreases k,
{
    if k == 0 || k > utxos.len() {
        0
    } else {
        rev_sum(utxos, (k - 1) as nat) + utxos[utxos.len() - k].value
    }
}

/// Greedy scan from the newest output backwards, starting at `k` taken outputs: the number
/// taken when the running total first reaches `target`, or all of them.
pub open spec fn greedy_from(utxos: Seq<Utxo>, target: int, k: nat) -> nat
    decreases utxos.len() - k,
{
    if k >= utxos.len() {
        utxos.len()
    } else if rev_sum(utxos, k) >= target {
        k
    } else {
        greedy_from(utxos, target, k + 1)
    }
}

/// How many outputs the greedy selection takes: at least one (when there is one), and
/// no more than needed for their total to reach `target`.
pub open spec fn greedy_len(utxos: Seq<Utxo>, target: int) -> nat {
    greedy_from(utxos, target, 1)
}

/// The last `k` outputs, newest first.
pub open spec fn newest_first(utxos: Seq<Utxo>, k: nat) -> Seq<Utxo> {
    Seq::new(k, |i: int| utxos[utxos.len() - 1 - i])
}

/// The message for a balance too small for greedy selection.
pub open spec fn insufficient_balance_message(total: int, amount: u64, fee: u64) -> Seq<char> {
    "Insufficient balance: "@ + decimal(total as nat) + ", trying to transfer "@ + decimal(
        amount as nat,
    ) + " satoshi with fee "@ + decimal(fee as nat)
}

/// The message when no single output is large enough.
pub open spec fn no_large_utxo_message(amount: u64, fee: u64) -> Seq<char> {
    "No sufficiently large utxo found: amount "@ + decimal(amount as nat) + " satoshi, fee "@
        + decimal(fee as nat)
}

/// Taking more outputs never lowers the total.
pub proof fn lemma_rev_sum_monotonic(utxos: Seq<Utxo>, a: nat, b: nat)
    requires
        a <= b <= utxos.len(),
    ensures
        rev_sum(utxos, a) <= rev_sum(utxos, b),
    decreases b,
{
    if a < b {
        lemma_rev_sum_monotonic(utxos, a, (b - 1) as nat);
    }
}

proof fn lemma_greedy_from_bounds(utxos: Seq<Utxo>, target: int, k: nat)
    requires
        k <= utxos.len(),
    ensures
        k <= greedy_from(utxos, target, k) <= utxos.len(),
        rev_sum(utxos, greedy_from(utxos, target, k)) < target ==> greedy_from(utxos, target, k)
            == utxos.len(),
    decreases utxos.len() - k,
{
    if k < utxos.len() && rev_sum(utxos, k) < target {
        lemma_greedy_from_bounds(utxos, target, k + 1);
    }
}

/// The greedy selection stops as soon as it can: every shorter run of newest outputs
/// falls short of the target.
pub proof fn lemma_greedy_minimal(utxos: Seq<Utxo>, target: int, k: nat, j: nat)
    requires
        1 <= k <= j,
        j < greedy_from(utxos, target, k),
    ensures
        rev_sum(utxos, j) < target,
    decreases utxos.len() - k,
{
    if k < utxos.len() && rev_sum(utxos, k) < target && k < j {
        lemma_greedy_minimal(utxos, target, k + 1, j);
    }
}

/// The output `select_one_utxo` looks for covers the target, and every newer output
/// falls short of it.
pub proof fn lemma_newest_covering(utxos: Seq<Utxo>, target: int, k: int)
    requires
        0 <= k <= utxos.len(),
    ensures
        match newest_covering(utxos, target, k) {
            Some(j) => 0 <= j < k && utxos[j].value >= target && forall|i: int|
                j < i < k ==> #[trigger] utxos[i].value < target,
            None => forall|i: int| 0 <= i < k ==> #[trigger] utxos[i].value < target,
        },
    decreases k,
{
    if k > 0 && utxos[k - 1].value < target {
        lemma_newest_covering(utxos, target, k - 1);
    }
}

/// Greedy selection: walking from the newest output to the oldest, takes outputs until
/// their total covers `amount + fee`. Fails, with the total found, when all outputs
/// together do not cover it.
pub fn select_utxos_greedy<'a>(own_utxos: &'a [Utxo], amount: u64, fee: u64) -> (r: Result<
    Vec<&'a Utxo>,
    String,
>)
    requires
        amount + fee <= u64::MAX,
        rev_sum(own_utxos@, greedy_len(own_utxos@, amount + fee)) <= u64::MAX,
    ensures
        r is Ok <==> rev_sum(own_utxos@, own_utxos@.len()) >= amount + fee,
        r is Ok ==> {
            let k = greedy_len(own_utxos@, amount + fee);
            &&& r->Ok_0@.len() == k
            &&& forall|i: int| 0 <= i < k ==> *#[trigger] r->Ok_0@[i] == newest_first(own_utxos@, k)[i]
            &&& rev_sum(own_utxos@, k) >= amount + fee
        },
        r is Err ==> r->Err_0@ == insufficient_balance_message(
            rev_sum(own_utxos@, own_utxos@.len()),
            amount,
            fee,
        ),
{
    let ghost u = own_utxos@;
    let target = amount + fee;
    let n = own_utxos.len();
    let mut utxos_to_spend: Vec<&'a Utxo> = Vec::new();
    let mut total_spent: u64 = 0;
    let mut i: usize = 0;
    proof {
        if n > 0 {
            lemma_greedy_from_bounds(u, target as int, 1);
        }
    }
    while i < n
        invariant
            u == own_utxos@,
            n == u.len(),
            target == amount + fee,
            i <= n,
            utxos_to_spend@.len() == i,
            forall|j: int| 0 <= j < i ==> *#[trigger] utxos_to_spend@[j] == u[n - 1 - j],
            total_spent == rev_sum(u, i as nat),
            i > 0 ==> total_spent < target,
            i > 0 ==> greedy_len(u, target as int) == greedy_from(u, target as int, i as nat),
            rev_sum(u, greedy_len(u, target as int)) <= u64::MAX,
            n > 0 ==> 1 <= greedy_len(u, target as int) <= n,
        decreases n - i,
    {
        let utxo = &own_utxos[n - 1 - i];
        proof {
            if i > 0 {
                lemma_greedy_from_bounds(u, target as int, (i + 1) as nat);
                assert(greedy_from(u, target as int, i as nat) == greedy_from(
                    u,
                    target as int,
                    (i + 1) as nat,
                ));
            }
            lemma_rev_sum_monotonic(u, (i + 1) as nat, greedy_len(u, target as int));
        }
        total_spent = total_spent + utxo.value;
        utxos_to_spend.push(utxo);
        i = i + 1;
        if total_spent >= target {
            proof {
                let k = greedy_len(u, target as int);
                assert(k == i);
                assert(utxos_to_spend@.len() == k);
                lemma_rev_sum_monotonic(u, k, n as nat);
            }
            return Ok(utxos_to_spend);
        }
    }
    if total_spent < target {
        proof {
            if n == 0 {
                assert(rev_sum(u, 0) == 0);
            }
        }
        return Err(insufficient_balance(total_spent, amount, fee));
    }
    proof {
        assert(n == 0);
        assert(greedy_len(u, target as int) == 0);
    }
    Ok(utxos_to_spend)
}

fn insufficient_balance(total: u64, amount: u64, fee: u64) -> (r: String)
    ensures
        r@ == insufficient_balance_message(total as int, amount, fee),
{
    let mut s = String::from_str("Insufficient balance: ");
    push_decimal(&mut s, total);
    s.append(", trying to transfer ");
    push_decimal(&mut s, amount);
    s.append(" satoshi with fee ");
    push_decimal(&mut s, fee);
    s
}

/// Index of the newest output worth at least `target`, scanning from index `k - 1` down.
pub open spec fn newest_covering(utxos: Seq<Utxo>, target: int, k: int) -> Option<int>
    decreases k,
{
    if k <= 0 {
        None
    } else if utxos[k - 1].value >= target {
        Some(k - 1)
    } else {
        newest_covering(utxos, target, k - 1)
    }
}

/// Picks one output worth at least `amount + fee`: the newest such output.
pub fn select_one_utxo<'a>(own_utxos: &'a [Utxo], amount: u64, fee: u64) -> (r: Result<
    Vec<&'a Utxo>,
    String,
>)
    requires
        amount + fee <= u64::MAX,
    ensures
        match newest_covering(own_utxos@, amount + fee, own_utxos@.len() as int) {
            Some(j) => r is Ok && r->Ok_0@.len() == 1 && *r->Ok_0@[0] == own_utxos@[j],
            None => r is Err && r->Err_0@ == no_large_utxo_message(amount, fee),
        },
{
    let target = amount + fee;
    let n = own_utxos.len();
    let mut k: usize = n;
    while k > 0
        invariant
            k <= n,
            n == own_utxos@.len(),
            target == amount + fee,
            newest_covering(own_utxos@, target as int, n as int) == newest_covering(
                own_utxos@,
                target as int,
                k as int,
            ),
        decreases k,
    {
        let utxo = &own_utxos[k - 1];
        if utxo.value >= target {
            return Ok(vec![utxo]);
        }
        k = k - 1;
    }
    let mut s = String::from_str("No sufficiently large utxo found: amount ");
    push_decimal(&mut s, amount);
    s.append(" satoshi, fee ");
    push_decimal(&mut s, fee);
    Err(s)
}

/// Fee rate (millisatoshi per byte) from the network's fee percentiles: the median
/// (50th percentile), or 2000 when the list is empty (as on a fresh regtest).
pub fn fee_per_byte_from_percentiles(fee_percentiles: &[u64]) -> (r: u64)
    requires
        fee_percentiles@.len() == 0 || fee_percentiles@.len() > 50,
    ensures
        r == if fee_percentiles@.len() == 0 {
            2000
        } else {
            fee_percentiles@[50]
        },
{
    if fee_percentiles.len() == 0 {
        2000
    } else {
        fee_percentiles[50]
    }
}

} // verus!
