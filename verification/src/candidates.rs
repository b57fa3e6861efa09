//! The candidate addresses of a run: which of them hold enough to be looked at, and in
//! which order they are looked at.
//!
//! A balance is a single-precision floating-point number and is held as its IEEE 754 bit
//! pattern. Balances are compared by `rank`, an integer that orders the bit patterns as the
//! numbers that they stand for are ordered.

use vstd::prelude::*;

verus! {

/// The bit pattern of positive infinity. Its sign bit is clear, and every pattern whose
/// other bits make a larger number stands for no number at all.
pub const INFINITY_BITS: u32 = 0x7f80_0000;

/// The bit pattern in which the sign bit alone is set.
pub const SIGN_BIT: u32 = 0x8000_0000;

/// An address and its balance, as a bit pattern.
#[derive(Debug, Clone, PartialEq, Eq)]
pub struct Entry {
    pub address: String,
    pub balance: u32,
}

/// The bits of `bits` without the sign bit.
pub open spec fn magnitude(bits: u32) -> int {
    bits as int % (SIGN_BIT as int)
}

/// Whether `bits` stands for no number.
pub open spec fn is_nan(bits: u32) -> bool {
    magnitude(bits) > INFINITY_BITS
}

/// The rank of a balance: for two bit patterns that stand for numbers, the one that stands
/// for the larger number has the larger rank, and positive and negative zero have the same
/// rank.
pub open spec fn rank(bits: u32) -> int {
    if bits >= SIGN_BIT {
        -magnitude(bits)
    } else {
        magnitude(bits)
    }
}

/// Whether `balance` is a number larger than the number `minimum`. Where either stands
/// for no number, it is not.
pub open spec fn exceeds(balance: u32, minimum: u32) -> bool {
    !is_nan(balance) && !is_nan(minimum) && rank(balance) > rank(minimum)
}

/// Whether the balances of `entries` never rise from one entry to the next.
pub open spec fn is_descending(entries: Seq<Entry>) -> bool {
    forall|i: int, j: int|
        0 <= i <= j < entries.len() ==> rank(entries[i].balance) >= rank(entries[j].balance)
}

/// The entries of `entries` whose balance has the rank `r`, in their order.
pub open spec fn with_rank(entries: Seq<Entry>, r: int) -> Seq<Entry> {
    entries.filter(|entry: Entry| rank(entry.balance) == r)
}

/// The entries of `entries` whose balance exceeds `min_balance`, in their order.
pub open spec fn above(entries: Seq<Entry>, min_balance: u32) -> Seq<Entry> {
    entries.filter(|entry: Entry| exceeds(entry.balance, min_balance))
}

/// Whether `bits` stands for no number.
pub fn balance_is_nan(bits: u32) -> (nan: bool)
    ensures
        nan == is_nan(bits),
{
    bits % SIGN_BIT > INFINITY_BITS
}

/// The rank of a balance.
pub fn balance_rank(bits: u32) -> (r: i64)
    ensures
        r == rank(bits),
{
    let magnitude = (bits % SIGN_BIT) as i64;
    if bits >= SIGN_BIT {
        -magnitude
    } else {
        magnitude
    }
}

/// Whether `balance` is a number larger than the number `minimum`.
pub fn balance_exceeds(balance: u32, minimum: u32) -> (more: bool)
    ensures
        more == exceeds(balance, minimum),
{
    !balance_is_nan(balance) && !balance_is_nan(minimum) && balance_rank(balance) > balance_rank(
        minimum,
    )
}

proof fn lemma_filter_push<A>(s: Seq<A>, last: A, pred: spec_fn(A) -> bool)
    ensures
        s.push(last).filter(pred) == if pred(last) {
            s.filter(pred).push(last)
        } else {
            s.filter(pred)
        },
{
    reveal(Seq::filter);
    assert(s.push(last).drop_last() =~= s);
}

proof fn lemma_filter_nothing<A>(s: Seq<A>, pred: spec_fn(A) -> bool)
    requires
        forall|i: int| 0 <= i < s.len() ==> !pred(#[trigger] s[i]),
    ensures
        s.filter(pred) == Seq::<A>::empty(),
    decreases s.len(),
{
    reveal(Seq::filter);
    if s.len() > 0 {
        lemma_filter_nothing(s.drop_last(), pred);
    }
}

/// The candidates: the entries of `entries` whose balance exceeds `min_balance`, in the
/// order in which `entries` holds them.
pub fn above_minimum(entries: &Vec<Entry>, min_balance: u32) -> (kept: Vec<Entry>)
    ensures
        kept@ == above(entries@, min_balance),
{
    let mut kept: Vec<Entry> = Vec::new();
    let mut i: usize = 0;
    while i < entries.len()
        invariant
            i <= entries.len(),
            kept@ == above(entries@.take(i as int), min_balance),
        decreases entries.len() - i,
    {
        let entry = &entries[i];
        proof {
            assert(entries@.take(i + 1) =~= entries@.take(i as int).push(*entry));
            lemma_filter_push(
                entries@.take(i as int),
                *entry,
                |entry: Entry| exceeds(entry.balance, min_balance),
            );
        }
        if balance_exceeds(entry.balance, min_balance) {
            kept.push(Entry { address: entry.address.clone(), balance: entry.balance });
        }
        i = i + 1;
    }
    assert(entries@.take(i as int) =~= entries@);
    kept
}

/// Puts `entry` into `sorted`, which is in descending order, in front of the first entry
/// whose balance is not larger than its own.
fn insert_descending(sorted: &mut Vec<Entry>, entry: Entry)
    requires
        is_descending(old(sorted)@),
    ensures
        is_descending(final(sorted)@),
        final(sorted)@.to_multiset() == old(sorted)@.to_multiset().insert(entry),
        forall|r: int|
            #[trigger] with_rank(final(sorted)@, r) == if r == rank(entry.balance) {
                seq![entry] + with_rank(old(sorted)@, r)
            } else {
                with_rank(old(sorted)@, r)
            },
{
    let own = balance_rank(entry.balance);
    let mut at: usize = 0;
    while at < sorted.len() && balance_rank(sorted[at].balance) > own
        invariant
            at <= sorted.len(),
            *sorted == *old(sorted),
            forall|i: int| 0 <= i < at ==> rank(sorted@[i].balance) > own,
        decreases sorted.len() - at,
    {
        at = at + 1;
    }
    let ghost before = sorted@;
    let ghost front = before.subrange(0, at as int);
    let ghost back = before.subrange(at as int, before.len() as int);
    sorted.insert(at, entry);
    proof {
        assert(before =~= front + back);
        assert(sorted@ =~= front + seq![entry] + back);
        vstd::seq_lib::to_multiset_insert(before, at as int, entry);
        assert forall|r: int| #[trigger]
            with_rank(sorted@, r) == if r == rank(entry.balance) {
                seq![entry] + with_rank(before, r)
            } else {
                with_rank(before, r)
            } by {
            let pred = |entry: Entry| rank(entry.balance) == r;
            lemma_filter_push(Seq::<Entry>::empty(), entry, pred);
            if r == own {
                lemma_filter_nothing(front, pred);
            }
        }
    }
}

/// Orders `entries` by balance, the largest first. Entries with balances of the same
/// rank stay in the order in which they came. A balance that stands for no number is
/// ordered by its rank like any other.
pub fn sort_by_balance(entries: Vec<Entry>) -> (sorted: Vec<Entry>)
    ensures
        is_descending(sorted@),
        sorted@.to_multiset() == entries@.to_multiset(),
        forall|r: int| #[trigger] with_rank(sorted@, r) == with_rank(entries@, r),
{
    let ghost all = entries@;
    let mut rest = entries;
    let mut sorted: Vec<Entry> = Vec::new();
    assert(all.subrange(all.len() as int, all.len() as int) =~= Seq::<Entry>::empty());
    while rest.len() > 0
        invariant
            rest@ == all.take(rest@.len() as int),
            rest@.len() <= all.len(),
            is_descending(sorted@),
            sorted@.to_multiset() == all.subrange(
                rest@.len() as int,
                all.len() as int,
            ).to_multiset(),
            forall|r: int| #[trigger]
                with_rank(sorted@, r) == with_rank(
                    all.subrange(rest@.len() as int, all.len() as int),
                    r,
                ),
        decreases rest.len(),
    {
        let ghost n = rest@.len() as int;
        let ghost done = all.subrange(n, all.len() as int);
        let entry = rest.pop().unwrap();
        insert_descending(&mut sorted, entry);
        proof {
            let next = all.subrange(n - 1, all.len() as int);
            assert(next =~= seq![entry] + done);
            assert(next =~= done.insert(0, entry));
            vstd::seq_lib::to_multiset_insert(done, 0, entry);
            assert forall|r: int| #[trigger] with_rank(sorted@, r) == with_rank(next, r) by {
                let pred = |entry: Entry| rank(entry.balance) == r;
                lemma_filter_push(Seq::<Entry>::empty(), entry, pred);
            }
        }
    }
    assert(all.subrange(0, all.len() as int) =~= all);
    sorted
}

} // verus!
