//! The host effects that Roc calls: reading the shared data counter and the
//! random delay of a simulated read.

use vstd::prelude::*;
use rand::rngs::{OsRng, StdRng};
use rand::Rng;
use rand::SeedableRng;

verus! {

/// The random number generator of the `rand` crate that seeds itself
/// from the operating system.
#[verifier::external_type_specification]
#[verifier::external_body]
pub struct ExStdRng(StdRng);

/// `SeedableRng::from_rng` on the operating system's generator `OsRng`:
/// a generator seeded from the operating system, or nothing when the
/// operating system cannot provide the seed (the source returns that
/// error instead of panicking). Nothing is promised of the state or of
/// which of the two comes back.
#[verifier::external_body]
fn seeded_rng() -> (rng: Option<StdRng>) {
    match StdRng::from_rng(OsRng) {
        Ok(rng) => Some(rng),
        Err(_) => None,
    }
}

/// `Rng::gen_range` on `low..high`: the source asserts that the range is
/// not empty and samples a value in it, so the result is at least `low`
/// and below `high`; which one it is depends on chance.
#[verifier::external_body]
fn sample_range(rng: &mut StdRng, low: i32, high: i32) -> (v: i32)
    requires
        low < high,
    ensures
        low <= v < high,
{
    rng.gen_range(low..high)
}

/// The nominal delay of a simulated read, in milliseconds.
pub const READ_DELAY_MS: i32 = 1000;

/// The spread of the delay on either side of the nominal one.
pub const READ_JITTER_MS: i32 = 50;

/// The delay of a simulated read that drew `jitter`: the nominal delay
/// shifted by it, as a `u64` (a negative sum wraps around as a cast does).
pub fn read_delay_ms(jitter: i32) -> (ms: u64)
    requires
        jitter <= i32::MAX - READ_DELAY_MS,
    ensures
        ms == (READ_DELAY_MS + jitter) as u64,
        READ_DELAY_MS + jitter >= 0 ==> ms == READ_DELAY_MS + jitter,
{
    (READ_DELAY_MS + jitter) as u64
}

/// Draws the delay of a simulated read: the nominal delay plus a jitter
/// drawn from `-50..50`, so between 950 ms and 1049 ms. `None` when the
/// operating system gives no seed for the draw.
pub fn sample_read_delay_ms() -> (ms: Option<u64>)
    ensures
        ms matches Some(d) ==> READ_DELAY_MS - READ_JITTER_MS <= d < READ_DELAY_MS + READ_JITTER_MS,
{
    match seeded_rng() {
        Some(mut rng) => {
            let jitter = sample_range(&mut rng, -READ_JITTER_MS, READ_JITTER_MS);
            Some(read_delay_ms(jitter))
        },
        None => None,
    }
}

/// The counter behind the data that Roc reads: each read gets the current
/// value and advances it by one.
pub struct ReadCounter {
    next: i32,
}

impl ReadCounter {
    /// The value the next read gets.
    pub closed spec fn value(&self) -> i32 {
        self.next
    }

    /// A counter whose first read gets 0.
    pub fn new() -> (c: Self)
        ensures
            c.value() == 0,
    {
        ReadCounter { next: 0 }
    }

    /// The value the next read gets.
    pub fn peek(&self) -> (v: i32)
        ensures
            v == self.value(),
    {
        self.next
    }

    /// Reads the current value and advances the counter.
    pub fn read(&mut self) -> (v: i32)
        requires
            old(self).value() < i32::MAX,
        ensures
            v == old(self).value(),
            final(self).value() == old(self).value() + 1,
            (v as int, final(self).value() as int) == read_step(old(self).value() as int),
    {
        let v = self.next;
        self.next = v + 1;
        v
    }
}

/// One read from a counter at `v`: the value it gets and the counter
/// after it.
pub open spec fn read_step(v: int) -> (int, int) {
    (v, v + 1)
}

/// The values that `n` reads in a row get from a counter at `start`.
pub open spec fn reads_from(start: int, n: nat) -> Seq<int>
    decreases n,
{
    if n == 0 {
        Seq::empty()
    } else {
        let (got, next) = read_step(start);
        seq![got] + reads_from(next, (n - 1) as nat)
    }
}

/// The counter after `n` reads in a row from a counter at `start`.
pub open spec fn counter_after(start: int, n: nat) -> int
    decreases n,
{
    if n == 0 {
        start
    } else {
        let (_, next) = read_step(start);
        counter_after(next, (n - 1) as nat)
    }
}

/// Reads in a row from a fresh counter get 0, 1, …, n−1, each value once,
/// and leave the counter at n: the counter always holds how many reads
/// have started.
pub proof fn lemma_reads_count_up(n: nat)
    ensures
        reads_from(0, n).len() == n,
        forall|k: int| 0 <= k < n ==> #[trigger] reads_from(0, n)[k] == k,
        counter_after(0, n) == n,
{
    lemma_reads_from(0, n);
    lemma_counter_after(0, n);
}

proof fn lemma_counter_after(start: int, n: nat)
    ensures
        counter_after(start, n) == start + n,
    decreases n,
{
    if n > 0 {
        lemma_counter_after(start + 1, (n - 1) as nat);
    }
}

proof fn lemma_reads_from(start: int, n: nat)
    ensures
        reads_from(start, n).len() == n,
        forall|k: int| 0 <= k < n ==> #[trigger] reads_from(start, n)[k] == start + k,
    decreases n,
{
    if n > 0 {
        lemma_reads_from(start + 1, (n - 1) as nat);
        let rest = reads_from(start + 1, (n - 1) as nat);
        assert forall|k: int| 0 <= k < n implies #[trigger] reads_from(start, n)[k] == start + k by {
            if k > 0 {
                assert(reads_from(start, n)[k] == rest[k - 1]);
            }
        }
    }
}

} // verus!
