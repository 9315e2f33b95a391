//! The content digest behind a store's version: one hash for each pair of a
//! key and its timestamp, folded with exclusive or, so that the order in which
//! the entries are walked does not matter.

use crate::state::default::Entry;
use crate::state::storage::{entries_of, lists, live, map_items};
use std::hash::{Hash, Hasher};
use vstd::prelude::*;
use vstd::set::fold::{is_fun_commutative, lemma_fold_empty, lemma_fold_insert};

verus! {

/// The XxHash64 digest, seed 0, of a key followed by a timestamp.
pub uninterp spec fn stamp_hash(key: Seq<char>, ts: u64) -> u64;

/// Feeds `key` and then `ts` to a `twox_hash::XxHash64` made by `default()`,
/// through their `Hash` impls, and takes `finish()`. The hasher starts from
/// seed 0 and reads nothing but what it is fed, so the digest depends on the
/// key and the timestamp alone. (The `Hash` impl of `u64` feeds the integer
/// in the byte order of the machine: peers compute equal digests where they
/// share a byte order.)
#[verifier::external_body]
fn hash_stamp(key: &String, ts: u64) -> (h: u64)
    ensures
        h == stamp_hash(key@, ts),
{
    let mut hasher = twox_hash::XxHash64::default();
    key.hash(&mut hasher);
    ts.hash(&mut hasher);
    hasher.finish()
}

/// The pairs of key and timestamp of the given entries.
pub open spec fn stamps(entries: Map<Seq<char>, Entry>) -> Set<(Seq<char>, u64)> {
    Set::new(|p: (Seq<char>, u64)| entries.contains_key(p.0) && entries[p.0].ts == p.1)
}

/// One step of the fold: the hash of a pair joins the digest by exclusive or.
pub open spec fn xor_in() -> spec_fn(u64, (Seq<char>, u64)) -> u64 {
    |acc: u64, p: (Seq<char>, u64)| acc ^ stamp_hash(p.0, p.1)
}

/// The digest of a set of pairs: the exclusive or of their hashes, 0 for the
/// empty set.
pub open spec fn digest(pairs: Set<(Seq<char>, u64)>) -> u64 {
    pairs.fold(0u64, xor_in())
}

/// Exclusive or may take its operands in any order.
pub proof fn lemma_xor_in_commutes()
    ensures
        is_fun_commutative(xor_in()),
{
    assert forall|a1: (Seq<char>, u64), a2: (Seq<char>, u64), b: u64| #[trigger]
        xor_in()(xor_in()(b, a2), a1) == xor_in()(xor_in()(b, a1), a2) by {
        let x = stamp_hash(a1.0, a1.1);
        let y = stamp_hash(a2.0, a2.1);
        assert((b ^ y) ^ x == (b ^ x) ^ y) by (bit_vector);
    }
}

/// The pairs of the first `n` items that are not expired at `now`.
pub open spec fn stamps_seen(items: Seq<(String, Entry)>, n: int, now: u64) -> Set<
    (Seq<char>, u64),
> {
    Set::new(
        |p: (Seq<char>, u64)|
            exists|j: int|
                0 <= j < n && !items[j].1.expired_at(now) && p == (#[trigger] items[j].0@, items[j].1.ts),
    )
}

proof fn lemma_stamps_seen_finite(items: Seq<(String, Entry)>, n: int, now: u64)
    requires
        0 <= n <= items.len(),
    ensures
        stamps_seen(items, n, now).finite(),
    decreases n,
{
    if n == 0 {
        assert(stamps_seen(items, n, now) =~= Set::empty());
    } else {
        lemma_stamps_seen_finite(items, n - 1, now);
        let p = (items[n - 1].0@, items[n - 1].1.ts);
        if items[n - 1].1.expired_at(now) {
            assert(stamps_seen(items, n, now) =~= stamps_seen(items, n - 1, now));
        } else {
            assert(stamps_seen(items, n, now) =~= stamps_seen(items, n - 1, now).insert(p)) by {
                assert(items[n - 1].0@ == p.0);
            }
        }
    }
}

/// The digest of the entries of `map` that are not expired at `now`.
pub fn hash(map: &im::HashMap<String, Entry>, now: u64) -> (h: u64)
    ensures
        h == digest(stamps(live(entries_of(*map), now))),
{
    let items = map_items(map);
    let ghost entries = entries_of(*map);
    let mut h: u64 = 0;
    let mut i: usize = 0;
    proof {
        assert(stamps_seen(items@, 0, now) =~= Set::empty());
        lemma_fold_empty::<(Seq<char>, u64), u64>(0u64, xor_in());
    }
    while i < items.len()
        invariant
            i <= items.len(),
            lists(items@, entries),
            h == digest(stamps_seen(items@, i as int, now)),
        decreases items.len() - i,
    {
        let ghost before = stamps_seen(items@, i as int, now);
        let ghost after = stamps_seen(items@, i as int + 1, now);
        let ghost p = (items@[i as int].0@, items@[i as int].1.ts);
        if items[i].1.is_live_at(now) {
            let one = hash_stamp(&items[i].0, items[i].1.ts);
            proof {
                lemma_stamps_seen_finite(items@, i as int, now);
                lemma_xor_in_commutes();
                assert(!before.contains(p));
                assert(after =~= before.insert(p)) by {
                    assert(items@[i as int].0@ == p.0);
                }
                lemma_fold_insert(before, 0u64, xor_in(), p);
            }
            h = h ^ one;
        } else {
            proof {
                assert(after =~= before);
            }
        }
        i += 1;
    }
    proof {
        let all = stamps_seen(items@, items@.len() as int, now);
        let want = stamps(live(entries, now));
        assert forall|p: (Seq<char>, u64)| want.contains(p) implies all.contains(p) by {
            let j = choose|j: int| 0 <= j < items@.len() && #[trigger] items@[j].0@ == p.0;
            assert(p == (items@[j].0@, items@[j].1.ts));
        }
        assert forall|p: (Seq<char>, u64)| all.contains(p) implies want.contains(p) by {
            let j = choose|j: int|
                0 <= j < items@.len() && !items@[j].1.expired_at(now) && p == (
                    #[trigger] items@[j].0@,
                    items@[j].1.ts,
                );
            assert(entries.contains_key(items@[j].0@));
        }
        assert(all =~= want);
    }
    h
}

} // verus!
