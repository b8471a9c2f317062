//! The coordinating side of a scan on several workers: the check of the
//! configuration before any work starts, and the reduction of the workers'
//! consumers when they are done.

use vstd::prelude::*;
use crate::scanner::consumer::{CouplingRanges, GridPoint, ScanConsumer};
use crate::scanner::scanner::{scan_keeps_valid, scanned, split_scan_merges_to_whole};
use crate::simulation::{IntegrationParameters, IntegrationResult};
use crate::util::scalar::Scalar;

verus! {

/// A configuration that no scan can run with.
#[derive(Clone, Copy, Debug, PartialEq, Eq, Structural)]
pub enum ConfigurationError {
    /// No worker was asked for.
    NoThreads,
    /// There is no coupling axis to scan.
    NoRanges,
    /// The range of the axis with this index holds no number: its upper
    /// bound lies below its lower bound, or a bound is no number.
    EmptyRange(usize),
    /// The number of samples of all workers together does not fit in 64 bits.
    TooManySamples,
}

/// The range holds no number. A range whose bounds agree holds one.
pub open spec fn empty_range(range: (Scalar, Scalar)) -> bool {
    !range.0.at_most(range.1)
}

/// The index of the first empty range from `from` on, or the number of
/// ranges where there is none.
pub open spec fn first_empty_range(ranges: Seq<(Scalar, Scalar)>, from: int) -> int
    decreases ranges.len() - from,
{
    if from >= ranges.len() {
        ranges.len() as int
    } else if empty_range(ranges[from]) {
        from
    } else {
        first_empty_range(ranges, from + 1)
    }
}

/// The verdict on a configuration: the total number of samples, or what is
/// wrong with it. The thread count is checked first, then the axes and
/// their ranges, then the total.
pub open spec fn planned(ranges: Seq<(Scalar, Scalar)>, num_threads: int, num_samples: int)
    -> Result<u64, ConfigurationError> {
    if num_threads == 0 {
        Err(ConfigurationError::NoThreads)
    } else if ranges.len() == 0 {
        Err(ConfigurationError::NoRanges)
    } else if first_empty_range(ranges, 0) < ranges.len() {
        Err(ConfigurationError::EmptyRange(first_empty_range(ranges, 0) as usize))
    } else if num_threads * num_samples > u64::MAX {
        Err(ConfigurationError::TooManySamples)
    } else {
        Ok((num_threads * num_samples) as u64)
    }
}

/// The state of the total after the states `parts` were merged into `total`
/// one after the other.
pub open spec fn reduced<T: ScanConsumer<N>, const N: usize>(total: T::State, parts: Seq<T::State>)
    -> T::State
    decreases parts.len(),
{
    if parts.len() == 0 {
        total
    } else {
        T::combined(reduced::<T, N>(total, parts.drop_last()), parts.last())
    }
}

/// Whether the states `parts` can be merged into `total` one after the other.
pub open spec fn reducible<T: ScanConsumer<N>, const N: usize>(total: T::State, parts: Seq<T::State>)
    -> bool
    decreases parts.len(),
{
    parts.len() == 0 || (reducible::<T, N>(total, parts.drop_last()) && T::takes(
        reduced::<T, N>(total, parts.drop_last()),
        parts.last(),
    ))
}

/// The consumer's state `after` is its state `before` with the states of
/// `merged` consumers merged into it one after the other.
pub open spec fn reduced_by<T: ScanConsumer<N>, const N: usize>(
    before: T::State,
    after: T::State,
    merged: int,
) -> bool {
    exists|parts: Seq<T::State>|
        {
            &&& #[trigger] reduced::<T, N>(before, parts) == after
            &&& reducible::<T, N>(before, parts)
            &&& parts.len() == merged
        }
}

/// The workers of a scan: each runs a scan of its own on a consumer of its
/// own, apart from all the others.
pub trait Workers<T> {
    /// Starts one more worker on a scan of `num_samples` valid samples, with
    /// `consumer` to hand its results to.
    fn start(&mut self, consumer: T, num_samples: u64);

    /// Waits until one of the workers is done and hands back its consumer,
    /// or `None` where no worker is left.
    fn finish(&mut self) -> Option<T>;
}

/// What a scan on several workers came to.
#[derive(Clone, Copy, Debug, PartialEq, Eq, Structural)]
pub struct ScanReport {
    /// The number of valid samples that all workers together were asked for.
    pub total_samples: u64,
    /// The number of workers whose consumers were merged into the consumer
    /// of the scan: all of them if nothing went wrong.
    pub merged: usize,
    /// Whether the merging stopped at a consumer that could not be merged.
    pub refused: bool,
}

/// Holds what every worker of a scan starts from, and the consumer that
/// collects what the workers hand back.
pub struct MultiThreadedScanner<T, const N: usize> {
    pub coupling_ranges: CouplingRanges<N>,
    pub params: IntegrationParameters,
    pub consumer: T,
}

impl<T: ScanConsumer<N>, const N: usize> MultiThreadedScanner<T, N> {
    pub fn new(coupling_ranges: CouplingRanges<N>, params: IntegrationParameters, consumer: T) -> (scanner:
        Self)
        ensures
            scanner.coupling_ranges == coupling_ranges,
            scanner.params == params,
            scanner.consumer == consumer,
    {
        MultiThreadedScanner { coupling_ranges, params, consumer }
    }

    /// Checks the configuration of a scan before any worker starts, and
    /// gives the number of samples of all workers together.
    pub fn plan(&self, num_threads: usize, num_samples: u64) -> (total: Result<
        u64,
        ConfigurationError,
    >)
        ensures
            total == planned(self.coupling_ranges@, num_threads as int, num_samples as int),
    {
        if num_threads == 0 {
            return Err(ConfigurationError::NoThreads);
        }
        if N == 0 {
            return Err(ConfigurationError::NoRanges);
        }
        let mut k: usize = 0;
        while k < N
            invariant
                k <= N,
                num_threads != 0,
                self.coupling_ranges@.len() == N,
                first_empty_range(self.coupling_ranges@, 0) == first_empty_range(
                    self.coupling_ranges@,
                    k as int,
                ),
            decreases N - k,
        {
            let (lower, upper) = self.coupling_ranges[k];
            assert(self.coupling_ranges@[k as int] == (lower, upper));
            if !lower.le(upper) {
                return Err(ConfigurationError::EmptyRange(k));
            }
            k += 1;
        }
        match (num_threads as u64).checked_mul(num_samples) {
            Some(total) => Ok(total),
            None => Err(ConfigurationError::TooManySamples),
        }
    }

    /// Merges the consumer that a finished worker handed back into the
    /// consumer of the scan. Where a cell cannot hold the merged value,
    /// nothing is merged and `false` comes back.
    pub fn absorb(&mut self, finished: T) -> (merged: bool)
        ensures
            merged == T::takes(old(self).consumer.state(), finished.state()),
            final(self).consumer.state() == if merged {
                T::combined(old(self).consumer.state(), finished.state())
            } else {
                old(self).consumer.state()
            },
            final(self).coupling_ranges == old(self).coupling_ranges,
            final(self).params == old(self).params,
    {
        if self.consumer.can_merge(&finished) {
            self.consumer.merge(finished);
            true
        } else {
            false
        }
    }

    /// The consumers that the workers of a scan start with: one for each
    /// worker, each a copy of the consumer of the scan as it is now.
    pub fn worker_consumers(&self, num_threads: usize) -> (copies: Vec<T>)
        ensures
            copies@.len() == num_threads,
            forall|k: int|
                0 <= k < num_threads ==> (#[trigger] copies@[k]).state() == self.consumer.state()
                    && copies@[k].setup() == self.consumer.setup(),
    {
        let mut copies: Vec<T> = Vec::new();
        let mut k: usize = 0;
        while k < num_threads
            invariant
                k <= num_threads,
                copies@.len() == k,
                forall|i: int|
                    0 <= i < k ==> (#[trigger] copies@[i]).state() == self.consumer.state()
                        && copies@[i].setup() == self.consumer.setup(),
            decreases num_threads - k,
        {
            copies.push(self.consumer.duplicate());
            k += 1;
        }
        copies
    }

    /// Runs a scan on `num_threads` workers: checks the configuration,
    /// starts each worker with one of the [`Self::worker_consumers`] and the
    /// number of samples, and merges the consumers of the workers as they
    /// finish.
    ///
    /// A configuration that cannot run is refused before any worker starts.
    /// The merging stops short where a worker's consumer cannot be merged,
    /// and where no worker is left before all were heard of.
    pub fn scan<W: Workers<T>>(&mut self, num_threads: usize, num_samples: u64, workers: &mut W) -> (report:
        Result<ScanReport, ConfigurationError>)
        ensures
            final(self).coupling_ranges == old(self).coupling_ranges,
            final(self).params == old(self).params,
            match planned(old(self).coupling_ranges@, num_threads as int, num_samples as int) {
                Err(error) => report == Err::<ScanReport, ConfigurationError>(error)
                    && final(self).consumer.state() == old(self).consumer.state(),
                Ok(total) => {
                    &&& report matches Ok(done)
                    &&& done.total_samples == total
                    &&& done.merged <= num_threads
                    &&& done.refused ==> done.merged < num_threads && exists|other: T::State|
                        !#[trigger] T::takes(final(self).consumer.state(), other)
                    &&& reduced_by::<T, N>(
                        old(self).consumer.state(),
                        final(self).consumer.state(),
                        done.merged as int,
                    )
                },
            },
    {
        let total_samples = match self.plan(num_threads, num_samples) {
            Ok(total) => total,
            Err(error) => {
                return Err(error);
            },
        };
        let mut copies = self.worker_consumers(num_threads);
        while copies.len() > 0
            invariant
                *self == *old(self),
                forall|k: int|
                    0 <= k < copies@.len() ==> (#[trigger] copies@[k]).state()
                        == self.consumer.state() && copies@[k].setup() == self.consumer.setup(),
            decreases copies@.len(),
        {
            let copy = copies.remove(0);
            assert(copy.state() == self.consumer.state());
            workers.start(copy, num_samples);
        }
        let ghost mut parts: Seq<T::State> = Seq::empty();
        let mut merged: usize = 0;
        while merged < num_threads
            invariant
                merged <= num_threads,
                planned(old(self).coupling_ranges@, num_threads as int, num_samples as int) == Ok::<
                    u64,
                    ConfigurationError,
                >(total_samples),
                self.coupling_ranges == old(self).coupling_ranges,
                self.params == old(self).params,
                parts.len() == merged,
                reducible::<T, N>(old(self).consumer.state(), parts),
                self.consumer.state() == reduced::<T, N>(old(self).consumer.state(), parts),
            decreases num_threads - merged,
        {
            let finished = match workers.finish() {
                Some(consumer) => consumer,
                None => {
                    return Ok(ScanReport { total_samples, merged, refused: false });
                },
            };
            let ghost state = finished.state();
            if !self.absorb(finished) {
                assert(!T::takes(self.consumer.state(), state));
                return Ok(ScanReport { total_samples, merged, refused: true });
            }
            proof {
                assert(parts.push(state).drop_last() =~= parts);
                parts = parts.push(state);
            }
            merged += 1;
        }
        Ok(ScanReport { total_samples, merged, refused: false })
    }
}

/// The samples of all workers, one worker after the other.
pub open spec fn all_samples<const N: usize>(parts: Seq<Seq<(GridPoint<N>, IntegrationResult)>>)
    -> Seq<(GridPoint<N>, IntegrationResult)>
    decreases parts.len(),
{
    if parts.len() == 0 {
        Seq::empty()
    } else {
        all_samples(parts.drop_last()) + parts.last()
    }
}

/// The states of the workers' consumers after their scans, each started
/// fresh.
pub open spec fn worker_states<T: ScanConsumer<N>, const N: usize>(
    setup: T::Setup,
    parts: Seq<Seq<(GridPoint<N>, IntegrationResult)>>,
) -> Seq<T::State> {
    Seq::new(parts.len(), |k: int| scanned::<T, N>(setup, T::fresh(), parts[k]))
}

/// A scan split among any number of workers comes to what one scan over all
/// the samples comes to: the consumers of the workers, merged one after the
/// other into a fresh consumer, hold what one consumer holds that took the
/// samples of all workers.
pub proof fn scan_on_workers_is_one_scan<T: ScanConsumer<N>, const N: usize>(
    setup: T::Setup,
    parts: Seq<Seq<(GridPoint<N>, IntegrationResult)>>,
)
    ensures
        reduced::<T, N>(T::fresh(), worker_states::<T, N>(setup, parts)) == scanned::<T, N>(
            setup,
            T::fresh(),
            all_samples(parts),
        ),
    decreases parts.len(),
{
    let states = worker_states::<T, N>(setup, parts);
    if parts.len() > 0 {
        let earlier = parts.drop_last();
        scan_on_workers_is_one_scan::<T, N>(setup, earlier);
        assert(states.drop_last() =~= worker_states::<T, N>(setup, earlier));
        assert(states.last() == scanned::<T, N>(setup, T::fresh(), parts.last()));
        split_scan_merges_to_whole::<T, N>(setup, all_samples(earlier), parts.last());
    }
}

/// The order in which two workers are heard of does not matter to the
/// consumer of the scan.
pub proof fn order_of_workers_does_not_matter<T: ScanConsumer<N>, const N: usize>(
    setup: T::Setup,
    total: Seq<(GridPoint<N>, IntegrationResult)>,
    first: Seq<(GridPoint<N>, IntegrationResult)>,
    second: Seq<(GridPoint<N>, IntegrationResult)>,
)
    ensures
        ({
            let state = scanned::<T, N>(setup, T::fresh(), total);
            let a = scanned::<T, N>(setup, T::fresh(), first);
            let b = scanned::<T, N>(setup, T::fresh(), second);
            T::combined(T::combined(state, a), b) == T::combined(T::combined(state, b), a)
        }),
{
    let state = scanned::<T, N>(setup, T::fresh(), total);
    let a = scanned::<T, N>(setup, T::fresh(), first);
    let b = scanned::<T, N>(setup, T::fresh(), second);
    scan_keeps_valid::<T, N>(setup, total);
    scan_keeps_valid::<T, N>(setup, first);
    scan_keeps_valid::<T, N>(setup, second);
    T::merge_laws(state, a, b);
    T::merge_laws(state, b, a);
    T::merge_laws(a, b, state);
}

} // verus!
