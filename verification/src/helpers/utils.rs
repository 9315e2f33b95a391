//! Clock and sampling utilities.

use std::time::{Duration, SystemTime, UNIX_EPOCH};
use vstd::prelude::*;

verus! {

#[verifier::external_type_specification]
#[verifier::external_body]
pub struct ExSystemTime(SystemTime);

/// Reads the wall clock through `SystemTime::now`. Nothing is claimed of the
/// instant that comes back.
#[verifier::external_body]
fn wall_clock() -> SystemTime {
    SystemTime::now()
}

/// Calls `SystemTime::duration_since` against the Unix epoch and maps a clock
/// that stands before the epoch to `None`. Nothing is claimed of the span.
#[verifier::external_body]
fn since_unix_epoch(t: &SystemTime) -> Option<Duration> {
    t.duration_since(UNIX_EPOCH).ok()
}

/// Calls `Duration::as_millis`: the whole milliseconds of a span. Nothing is
/// claimed of the count.
#[verifier::external_body]
fn span_millis(d: &Duration) -> u128 {
    d.as_millis()
}

/// A millisecond count narrowed to 64 bits: itself where it fits, else 0.
pub open spec fn clamp_millis(ms: u128) -> u64 {
    if ms <= u64::MAX {
        ms as u64
    } else {
        0
    }
}

/// Narrows a millisecond count to 64 bits; a count that does not fit yields 0.
pub fn millis_to_u64(ms: u128) -> (r: u64)
    ensures
        r == clamp_millis(ms),
{
    if ms <= u64::MAX as u128 {
        ms as u64
    } else {
        0
    }
}

/// What `epoch` makes of a reading of the clock: the milliseconds of the span
/// since the Unix epoch, or 0 where the clock stood before the epoch or the
/// count does not fit.
pub open spec fn epoch_of(elapsed: Option<u128>) -> u64 {
    match elapsed {
        Some(ms) => clamp_millis(ms),
        None => 0,
    }
}

/// Turns a reading of the clock into epoch milliseconds.
pub fn epoch_from(elapsed: Option<u128>) -> (r: u64)
    ensures
        r == epoch_of(elapsed),
{
    match elapsed {
        Some(ms) => millis_to_u64(ms),
        None => 0,
    }
}

/// Returns the current time in milliseconds since the Unix epoch, or 0 when
/// the clock cannot be read as such.
pub fn epoch() -> (r: u64)
    ensures
        exists|elapsed: Option<u128>| r == epoch_of(elapsed),
{
    let now = wall_clock();
    let elapsed = match since_unix_epoch(&now) {
        Some(span) => Some(span_millis(&span)),
        None => None,
    };
    epoch_from(elapsed)
}

/// `picked` is a sample of `n` from `pool`: as many items as asked for, or the
/// whole pool in its order where it has no more than that, each item of the
/// sample taken from a place of its own in the pool.
pub open spec fn is_sample<T>(picked: Seq<T>, pool: Seq<T>, n: usize) -> bool {
    &&& picked.len() == if n <= pool.len() {
        n as nat
    } else {
        pool.len()
    }
    &&& pool.len() <= n ==> picked == pool
    &&& exists|places: Seq<int>|
        {
            &&& #[trigger] places.len() == picked.len()
            &&& places.no_duplicates()
            &&& forall|i: int|
                0 <= i < places.len() ==> 0 <= #[trigger] places[i] < pool.len() && picked[i]
                    == pool[places[i]]
        }
}

/// Draws with `rand`'s `IteratorRandom::choose_multiple`, from a `SmallRng`
/// seeded by `from_entropy`: a reservoir of the first `n` items, in which any
/// later item may take the place of one drawn before. So `n` items come back,
/// each from a place of its own in the pool; which ones is left to chance.
/// (Seeding stops the program where the operating system has no entropy to
/// give; nothing that a caller passes in can bring that about.)
#[verifier::external_body]
fn choose_multiple<T>(pool: Vec<T>, n: usize) -> (picked: Vec<T>)
    requires
        n < pool.len(),
    ensures
        is_sample(picked@, pool@, n),
{
    let mut rng = <rand::rngs::SmallRng as rand::SeedableRng>::from_entropy();
    rand::seq::IteratorRandom::choose_multiple(pool.into_iter(), &mut rng, n)
}

/// Sampling a number of items at random.
pub trait Sample: Sized {
    type Item;

    /// The items to draw from, in their order.
    spec fn pool(self) -> Seq<Self::Item>;

    /// Returns a sample of `n` items, or all of them where there are no more
    /// than `n`.
    fn sample(self, n: usize) -> (picked: Vec<Self::Item>)
        ensures
            is_sample(picked@, self.pool(), n),
    ;
}

impl<T> Sample for Vec<T> {
    type Item = T;

    open spec fn pool(self) -> Seq<T> {
        self@
    }

    fn sample(self, n: usize) -> (picked: Vec<T>) {
        if n < self.len() {
            choose_multiple(self, n)
        } else {
            proof {
                let places = Seq::new(self@.len(), |i: int| i);
                assert(places.len() == self@.len());
                assert(places.no_duplicates());
            }
            self
        }
    }
}

} // verus!
