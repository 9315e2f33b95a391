//! The backing map of the default state: a persistent hash map, a clone of
//! which shares its structure, reached through a handful of calls. Verus does
//! not see inside the map; what each call does to its entries is stated here
//! and believed.

use crate::state::default::Entry;
use vstd::prelude::*;

verus! {

#[verifier::external_type_specification]
#[verifier::external_body]
#[verifier::reject_recursive_types(K)]
#[verifier::reject_recursive_types(V)]
#[verifier::reject_recursive_types(S)]
pub struct ExHashMap<K, V, S>(im::HashMap<K, V, S>);

/// What a map holds: its entries by key.
pub uninterp spec fn entries_of(m: im::HashMap<String, Entry>) -> Map<Seq<char>, Entry>;

/// The entries of `entries` that are not expired at `now`.
pub open spec fn live(entries: Map<Seq<char>, Entry>, now: u64) -> Map<Seq<char>, Entry> {
    entries.restrict(Set::new(|k: Seq<char>| !entries[k].expired_at(now)))
}

/// Which of two entries under one key a difference keeps: neither when their
/// timestamps agree, else the one with the smaller timestamp.
pub open spec fn behind(left: Entry, right: Entry) -> Option<Entry> {
    if left.ts == right.ts {
        None
    } else if left.ts < right.ts {
        Some(left)
    } else {
        Some(right)
    }
}

/// The difference of two maps: a key held by one side only keeps its entry, a
/// key held by both keeps what `behind` picks, if anything.
pub open spec fn difference(left: Map<Seq<char>, Entry>, right: Map<Seq<char>, Entry>) -> Map<
    Seq<char>,
    Entry,
> {
    Map::new(
        |k: Seq<char>|
            if left.contains_key(k) && right.contains_key(k) {
                behind(left[k], right[k]) is Some
            } else {
                left.contains_key(k) || right.contains_key(k)
            },
        |k: Seq<char>|
            if left.contains_key(k) && right.contains_key(k) {
                behind(left[k], right[k])->0
            } else if left.contains_key(k) {
                left[k]
            } else {
                right[k]
            },
    )
}

/// `items` lists `entries`: every item is a pair of the map, every key of the
/// map has its item, and no key comes twice.
pub open spec fn lists(items: Seq<(String, Entry)>, entries: Map<Seq<char>, Entry>) -> bool {
    &&& forall|i: int|
        0 <= i < items.len() ==> entries.contains_key(#[trigger] items[i].0@) && entries[items[i].0@]
            == items[i].1
    &&& forall|k: Seq<char>| #[trigger]
        entries.contains_key(k) ==> exists|i: int| 0 <= i < items.len() && #[trigger] items[i].0@ == k
    &&& forall|i: int, j: int|
        0 <= i < j < items.len() ==> #[trigger] items[i].0@ != #[trigger] items[j].0@
}

/// `n` is the number of keys of `entries`, of which there are finitely many.
pub open spec fn counts(n: usize, entries: Map<Seq<char>, Entry>) -> bool {
    entries.dom().finite() && entries.dom().len() == n
}

/// Picks the entry that lags behind, as `behind` states it.
pub fn pick_behind(left: Entry, right: Entry) -> (r: Option<Entry>)
    ensures
        r == behind(left, right),
{
    if left.ts == right.ts {
        None
    } else if left.ts < right.ts {
        Some(left)
    } else {
        Some(right)
    }
}

/// `im::HashMap::new`: a map without entries.
#[verifier::external_body]
pub(crate) fn map_new() -> (m: im::HashMap<String, Entry>)
    ensures
        entries_of(m) =~= Map::empty(),
{
    im::HashMap::new()
}

/// `im::HashMap::len`: the number of keys, which is finite.
#[verifier::external_body]
pub(crate) fn map_len(m: &im::HashMap<String, Entry>) -> (n: usize)
    ensures
        counts(n, entries_of(*m)),
{
    m.len()
}

/// `im::HashMap::get`: the entry under `key`, if the map has one.
#[verifier::external_body]
pub(crate) fn map_get<'a>(m: &'a im::HashMap<String, Entry>, key: &str) -> (r: Option<&'a Entry>)
    ensures
        match r {
            Some(e) => entries_of(*m).contains_key(key@) && *e == entries_of(*m)[key@],
            None => !entries_of(*m).contains_key(key@),
        },
{
    m.get(key)
}

/// `im::HashMap::insert`: puts `entry` under `key`, in place of what stood
/// there, and hands back what stood there.
#[verifier::external_body]
pub(crate) fn map_insert(m: &mut im::HashMap<String, Entry>, key: String, entry: Entry) -> (r:
    Option<Entry>)
    ensures
        entries_of(*final(m)) == entries_of(*old(m)).insert(key@, entry),
        r == entries_of(*old(m)).get(key@),
{
    m.insert(key, entry)
}

/// `im::HashMap::retain` with the test "is valid at `now`": the entries for
/// which the test holds stay, the others leave.
#[verifier::external_body]
pub(crate) fn map_retain_live(m: &mut im::HashMap<String, Entry>, now: u64)
    ensures
        entries_of(*final(m)) == live(entries_of(*old(m)), now),
{
    m.retain(|_, e| e.is_live_at(now))
}

/// `Clone` of `im::HashMap`: a second handle on the same entries.
#[verifier::external_body]
pub(crate) fn map_clone(m: &im::HashMap<String, Entry>) -> (r: im::HashMap<String, Entry>)
    ensures
        entries_of(r) == entries_of(*m),
{
    m.clone()
}

/// `im::HashMap::iter`, each pair copied out: the entries in the order in
/// which the map walks them, of which nothing is claimed.
#[verifier::external_body]
pub(crate) fn map_items(m: &im::HashMap<String, Entry>) -> (items: Vec<(String, Entry)>)
    ensures
        lists(items@, entries_of(*m)),
{
    m.iter().map(|(k, e)| (k.clone(), e.clone())).collect()
}

/// `im::HashMap::difference_with`, with `pick_behind` to settle a key that
/// both sides hold: the symmetric difference as `difference` states it.
#[verifier::external_body]
pub(crate) fn map_difference(
    left: im::HashMap<String, Entry>,
    right: im::HashMap<String, Entry>,
) -> (r: im::HashMap<String, Entry>)
    ensures
        entries_of(r) == difference(entries_of(left), entries_of(right)),
{
    left.difference_with(right, |l, r| pick_behind(l, r))
}

} // verus!
