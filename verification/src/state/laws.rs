//! Laws of the default state, stated over the functions that its contracts
//! use and proved once for all stores.

use crate::state::default::{alters, merged, offer, takes, with_default_ttl, Entry};
use crate::state::digest::stamps;
use crate::state::storage::{difference, live};
use vstd::prelude::*;

verus! {

/// What a key holds after a sequence of offers, each made at its own instant,
/// taken in order.
pub open spec fn offer_all(slot: Option<Entry>, offers: Seq<(Entry, u64)>, default_ttl: Option<u64>)
    -> Option<Entry>
    decreases offers.len(),
{
    if offers.len() == 0 {
        slot
    } else {
        offer(
            offer_all(slot, offers.drop_last(), default_ttl),
            offers.last().0,
            default_ttl,
            offers.last().1,
        )
    }
}

/// The entries of a store after a sequence of payloads, each merged at its own
/// instant, taken in order.
pub open spec fn merged_all(
    entries: Map<Seq<char>, Entry>,
    payloads: Seq<(Map<Seq<char>, Entry>, u64)>,
    default_ttl: Option<u64>,
) -> Map<Seq<char>, Entry>
    decreases payloads.len(),
{
    if payloads.len() == 0 {
        entries
    } else {
        merged(
            merged_all(entries, payloads.drop_last(), default_ttl),
            payloads.last().0,
            default_ttl,
            payloads.last().1,
        )
    }
}

/// The newest timestamp wins, and among equals the first. After any number of
/// offers for one key, none of them expired when it was made, the key holds an
/// entry whose timestamp is the greatest of all that were offered or held
/// before. That entry is the one held before where nothing newer came, and
/// else the first offer that carried the greatest timestamp, with the default
/// time to live filled in.
pub proof fn lemma_newest_offer_wins(
    slot: Option<Entry>,
    offers: Seq<(Entry, u64)>,
    default_ttl: Option<u64>,
)
    requires
        slot is Some || offers.len() > 0,
        forall|i: int| 0 <= i < offers.len() ==> !(#[trigger] offers[i]).0.expired_at(offers[i].1),
    ensures
        offer_all(slot, offers, default_ttl) is Some,
        forall|i: int|
            0 <= i < offers.len() ==> (#[trigger] offers[i]).0.ts <= offer_all(
                slot,
                offers,
                default_ttl,
            )->0.ts,
        slot is Some ==> slot->0.ts <= offer_all(slot, offers, default_ttl)->0.ts,
        (slot is Some && offer_all(slot, offers, default_ttl) == slot) || (exists|i: int|
            0 <= i < offers.len() && offer_all(slot, offers, default_ttl) == Some(
                with_default_ttl((#[trigger] offers[i]).0, default_ttl),
            ) && (slot is Some ==> slot->0.ts < offers[i].0.ts) && (forall|j: int|
                0 <= j < i ==> (#[trigger] offers[j]).0.ts < offers[i].0.ts)),
    decreases offers.len(),
{
    if offers.len() == 0 {
    } else {
        let front = offers.drop_last();
        let last = offers.last();
        let held = offer_all(slot, front, default_ttl);
        assert forall|i: int| 0 <= i < front.len() implies !(#[trigger] front[i]).0.expired_at(
            front[i].1,
        ) by {
            assert(front[i] == offers[i]);
        }
        if slot is Some || front.len() > 0 {
            lemma_newest_offer_wins(slot, front, default_ttl);
            assert forall|i: int| 0 <= i < offers.len() implies (#[trigger] offers[i]).0.ts
                <= offer_all(slot, offers, default_ttl)->0.ts by {
                if i < front.len() {
                    assert(front[i] == offers[i]);
                }
            }
            if takes(held, last.0, last.1) {
                let n = offers.len() - 1;
                assert(offers[n] == last);
                assert forall|j: int| 0 <= j < n implies (#[trigger] offers[j]).0.ts
                    < offers[n].0.ts by {
                    assert(front[j] == offers[j]);
                }
            } else if !(slot is Some && held == slot) {
                let i = choose|i: int|
                    0 <= i < front.len() && held == Some(
                        with_default_ttl((#[trigger] front[i]).0, default_ttl),
                    ) && (slot is Some ==> slot->0.ts < front[i].0.ts) && (forall|j: int|
                        0 <= j < i ==> (#[trigger] front[j]).0.ts < front[i].0.ts);
                assert(front[i] == offers[i]);
                assert forall|j: int| 0 <= j < i implies (#[trigger] offers[j]).0.ts
                    < offers[i].0.ts by {
                    assert(front[j] == offers[j]);
                }
            }
        } else {
            assert(held is None);
            assert(offers[0] == last);
        }
    }
}

/// A key of a store goes through a sequence of merges as through the offers
/// that the payloads hold for it.
pub proof fn lemma_merges_offer_per_key(
    entries: Map<Seq<char>, Entry>,
    payloads: Seq<(Map<Seq<char>, Entry>, u64)>,
    default_ttl: Option<u64>,
    key: Seq<char>,
)
    requires
        forall|i: int| 0 <= i < payloads.len() ==> (#[trigger] payloads[i]).0.contains_key(key),
    ensures
        merged_all(entries, payloads, default_ttl).get(key) == offer_all(
            entries.get(key),
            Seq::new(payloads.len(), |i: int| (payloads[i].0[key], payloads[i].1)),
            default_ttl,
        ),
    decreases payloads.len(),
{
    let offers = Seq::new(payloads.len(), |i: int| (payloads[i].0[key], payloads[i].1));
    if payloads.len() > 0 {
        let front = payloads.drop_last();
        assert forall|i: int| 0 <= i < front.len() implies (#[trigger] front[i]).0.contains_key(
            key,
        ) by {
            assert(front[i] == payloads[i]);
        }
        lemma_merges_offer_per_key(entries, front, default_ttl, key);
        assert(offers.drop_last() =~= Seq::new(front.len(), |i: int| (front[i].0[key], front[i].1)));
        assert(offers.last() == (payloads.last().0[key], payloads.last().1));
    }
}

/// After any number of merges that each offered an unexpired entry for `key`,
/// the store holds under `key` the greatest timestamp offered, with the value
/// that first came with it.
pub proof fn lemma_newest_set_wins(
    payloads: Seq<(Map<Seq<char>, Entry>, u64)>,
    default_ttl: Option<u64>,
    key: Seq<char>,
)
    requires
        payloads.len() > 0,
        forall|i: int|
            0 <= i < payloads.len() ==> (#[trigger] payloads[i]).0.contains_key(key)
                && !payloads[i].0[key].expired_at(payloads[i].1),
    ensures
        merged_all(Map::empty(), payloads, default_ttl).contains_key(key),
        forall|i: int|
            0 <= i < payloads.len() ==> (#[trigger] payloads[i]).0[key].ts <= merged_all(
                Map::empty(),
                payloads,
                default_ttl,
            )[key].ts,
        exists|i: int|
            0 <= i < payloads.len() && merged_all(Map::empty(), payloads, default_ttl)[key]
                == with_default_ttl((#[trigger] payloads[i]).0[key], default_ttl) && (forall|j: int|
                0 <= j < i ==> (#[trigger] payloads[j]).0[key].ts < payloads[i].0[key].ts),
{
    let start = Map::<Seq<char>, Entry>::empty();
    let offers = Seq::new(payloads.len(), |i: int| (payloads[i].0[key], payloads[i].1));
    lemma_merges_offer_per_key(start, payloads, default_ttl, key);
    lemma_newest_offer_wins(None, offers, default_ttl);
    let end = offer_all(None, offers, default_ttl);
    assert forall|i: int| 0 <= i < payloads.len() implies (#[trigger] payloads[i]).0[key].ts
        <= end->0.ts by {
        assert(offers[i].0 == payloads[i].0[key]);
    }
    let i = choose|i: int|
        0 <= i < offers.len() && end == Some(with_default_ttl((#[trigger] offers[i]).0, default_ttl))
            && (forall|j: int| 0 <= j < i ==> (#[trigger] offers[j]).0.ts < offers[i].0.ts);
    assert(offers[i].0 == payloads[i].0[key]);
    assert forall|j: int| 0 <= j < i implies (#[trigger] payloads[j]).0[key].ts
        < payloads[i].0[key].ts by {
        assert(offers[j].0 == payloads[j].0[key]);
    }
}

/// Merging a payload a second time, then or later, changes nothing.
pub proof fn lemma_merge_is_idempotent(
    entries: Map<Seq<char>, Entry>,
    payload: Map<Seq<char>, Entry>,
    default_ttl: Option<u64>,
    first: u64,
    second: u64,
)
    requires
        first <= second,
    ensures
        merged(merged(entries, payload, default_ttl, first), payload, default_ttl, second)
            == merged(entries, payload, default_ttl, first),
        !alters(merged(entries, payload, default_ttl, first), payload, second),
{
    let once = merged(entries, payload, default_ttl, first);
    let twice = merged(once, payload, default_ttl, second);
    assert forall|k: Seq<char>| payload.contains_key(k) implies !takes(
        once.get(k),
        payload[k],
        second,
    ) by {
        assert(payload[k].expired_at(first) ==> payload[k].expired_at(second));
    }
    assert(twice =~= once);
}

/// Two payloads may be merged in either order, where no key has two
/// different entries of one timestamp to choose from.
pub proof fn lemma_merge_commutes(
    entries: Map<Seq<char>, Entry>,
    left: Map<Seq<char>, Entry>,
    right: Map<Seq<char>, Entry>,
    default_ttl: Option<u64>,
    now: u64,
)
    requires
        forall|k: Seq<char>|
            left.contains_key(k) && right.contains_key(k) ==> left[k].ts != right[k].ts || left[k]
                == right[k],
    ensures
        merged(merged(entries, left, default_ttl, now), right, default_ttl, now) == merged(
            merged(entries, right, default_ttl, now),
            left,
            default_ttl,
            now,
        ),
{
    let one = merged(merged(entries, left, default_ttl, now), right, default_ttl, now);
    let other = merged(merged(entries, right, default_ttl, now), left, default_ttl, now);
    assert(one =~= other);
}

/// An entry with a time to live is handed out up to and including the instant
/// `ts + ttl` and never after it; one without is always handed out.
pub proof fn lemma_read_window(entries: Map<Seq<char>, Entry>, key: Seq<char>, now: u64)
    requires
        entries.contains_key(key),
    ensures
        live(entries, now).get(key) == match entries[key].ttl {
            Some(ttl) => if now <= entries[key].ts + ttl {
                Some(entries[key])
            } else {
                None
            },
            None => Some(entries[key]),
        },
{
}

/// The version depends on nothing but the pairs of key and timestamp of the
/// entries that are not expired: two stores that agree on these compute the
/// same version.
pub proof fn lemma_version_reads_stamps_only(
    a: Map<Seq<char>, Entry>,
    now_a: u64,
    b: Map<Seq<char>, Entry>,
    now_b: u64,
)
    requires
        stamps(live(a, now_a)) == stamps(live(b, now_b)),
    ensures
        crate::state::default::Default::version_of(a, now_a) == crate::state::default::Default::version_of(b, now_b),
{
}

/// A state does not differ from its own root.
pub proof fn lemma_diff_with_self_is_empty(entries: Map<Seq<char>, Entry>, now: u64)
    ensures
        difference(live(entries, now), live(entries, now)) == Map::<Seq<char>, Entry>::empty(),
{
    assert(difference(live(entries, now), live(entries, now)) =~= Map::<Seq<char>, Entry>::empty());
}

/// A key that only one side holds comes with that side's entry, as it is.
pub proof fn lemma_diff_keeps_what_one_side_holds(
    entries: Map<Seq<char>, Entry>,
    other: Map<Seq<char>, Entry>,
    now: u64,
    key: Seq<char>,
)
    requires
        live(entries, now).contains_key(key) != other.contains_key(key),
    ensures
        difference(live(entries, now), other).get(key) == if other.contains_key(key) {
            Some(other[key])
        } else {
            Some(entries[key])
        },
{
}

/// Where both sides hold a key with one timestamp, the difference leaves the
/// key out, whatever else the two entries say.
pub proof fn lemma_diff_omits_equal_timestamps(
    entries: Map<Seq<char>, Entry>,
    other: Map<Seq<char>, Entry>,
    now: u64,
    key: Seq<char>,
)
    requires
        live(entries, now).contains_key(key),
        other.contains_key(key),
        entries[key].ts == other[key].ts,
    ensures
        !difference(live(entries, now), other).contains_key(key),
{
}

/// Where both sides hold a key with different timestamps, the difference
/// holds the entry of the smaller one.
pub proof fn lemma_diff_keeps_the_older(
    entries: Map<Seq<char>, Entry>,
    other: Map<Seq<char>, Entry>,
    now: u64,
    key: Seq<char>,
)
    requires
        live(entries, now).contains_key(key),
        other.contains_key(key),
        entries[key].ts != other[key].ts,
    ensures
        difference(live(entries, now), other).get(key) == if entries[key].ts < other[key].ts {
            Some(entries[key])
        } else {
            Some(other[key])
        },
{
}

/// No entry of the store that is expired comes out of a difference: what
/// comes out under a key is the store's live entry or the other side's.
pub proof fn lemma_diff_hands_out_no_lingering_entry(
    entries: Map<Seq<char>, Entry>,
    other: Map<Seq<char>, Entry>,
    now: u64,
    key: Seq<char>,
)
    requires
        difference(live(entries, now), other).contains_key(key),
    ensures
        (other.contains_key(key) && difference(live(entries, now), other)[key] == other[key]) || (
        entries.contains_key(key) && !entries[key].expired_at(now) && difference(
            live(entries, now),
            other,
        )[key] == entries[key]),
{
}

/// After a sweep the store holds exactly the keys whose entries were not
/// expired, as many as there were, and none of what it holds is expired.
pub proof fn lemma_sweep_keeps_the_live(entries: Map<Seq<char>, Entry>, now: u64)
    requires
        entries.dom().finite(),
    ensures
        live(entries, now).dom() == entries.dom().filter(|k: Seq<char>| !entries[k].expired_at(now)),
        live(entries, now).dom().finite(),
        live(entries, now).dom().len() == entries.dom().filter(
            |k: Seq<char>| !entries[k].expired_at(now),
        ).len(),
        forall|k: Seq<char>| #[trigger]
            live(entries, now).contains_key(k) ==> !live(entries, now)[k].expired_at(now),
        live(live(entries, now), now) == live(entries, now),
{
    let kept = entries.dom().filter(|k: Seq<char>| !entries[k].expired_at(now));
    assert(live(entries, now).dom() =~= kept);
    entries.dom().lemma_len_filter(|k: Seq<char>| !entries[k].expired_at(now));
    assert(live(live(entries, now), now) =~= live(entries, now));
}

} // verus!
