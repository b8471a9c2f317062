//! A scan on one worker: which samples count, what reaches the consumer, and
//! when progress is reported.
//!
//! A [`Scanner`] draws its samples from a [`SampleSource`], runs the
//! trajectory of each to its end, and decides what becomes of the result.

use vstd::prelude::*;
use crate::scanner::consumer::{CouplingRanges, GridPoint, ScanConsumer};
use crate::util::scalar::Scalar;
use crate::simulation::{
    reachable, start, within, Flow, IntegrationParameters, IntegrationResult, Integrator,
    Trajectory,
};

verus! {

/// Progress is reported each time this many more valid samples were taken.
pub const PROGRESS_BATCH: u64 = 1000;

/// The counters of a scan.
pub struct ScanCount {
    /// The number of valid samples the scan is to take.
    pub wanted: int,
    /// The number of valid samples taken so far.
    pub taken: int,
    /// The number of samples discarded so far; the count stops at the largest
    /// 64-bit number.
    pub discarded: int,
    /// The number of valid samples reported as progress so far.
    pub reported: int,
}

/// What became of a sample handed to [`Scanner::record`].
#[derive(Clone, Copy, Debug, PartialEq, Eq, Structural)]
pub enum Recorded {
    /// The scan already has all its samples; nothing changed.
    Finished,
    /// The sample was invalid: discarded, and not counted as a sample.
    Discarded,
    /// The consumer cannot take the sample; nothing changed.
    Refused,
    /// The consumer took the sample. Where it completed a batch, the size of
    /// the batch is to be reported as progress.
    Counted(Option<u64>),
}

/// The counters after an invalid sample.
pub open spec fn after_discard(count: ScanCount) -> ScanCount {
    ScanCount {
        discarded: if count.discarded < u64::MAX {
            count.discarded + 1
        } else {
            count.discarded
        },
        ..count
    }
}

/// The counters after a sample that the consumer took.
pub open spec fn after_sample(count: ScanCount) -> ScanCount {
    ScanCount { taken: count.taken + 1, ..count }
}

/// The progress to report after the `taken`-th valid sample.
pub open spec fn progress_after(taken: int) -> Option<u64> {
    if taken % (PROGRESS_BATCH as int) == 0 {
        Some(PROGRESS_BATCH)
    } else {
        None
    }
}

/// The progress to report when the scan is over: the samples of the last,
/// partial batch.
pub open spec fn final_progress(wanted: int) -> int {
    wanted % (PROGRESS_BATCH as int)
}

/// The range holds one number only: its bounds are the same number.
pub open spec fn collapsed(range: (Scalar, Scalar)) -> bool {
    !range.0.nan() && !range.1.nan() && range.0.rank() == range.1.rank()
}

/// The coupling that a draw gives on an axis: the one number of a collapsed
/// range, whatever was drawn, else the number the draw was scaled to.
pub open spec fn coupling_drawn(range: (Scalar, Scalar), scaled: Scalar) -> Scalar {
    if collapsed(range) {
        range.0
    } else {
        scaled
    }
}

/// The position of a coupling on an axis in units of cells: zero on a
/// collapsed range, else the position the coupling was scaled to.
pub open spec fn position_drawn(range: (Scalar, Scalar), scaled: Scalar) -> Scalar {
    if collapsed(range) {
        Scalar::zero_value()
    } else {
        scaled
    }
}

/// Whether the range holds one number only.
pub fn is_collapsed(range: (Scalar, Scalar)) -> (b: bool)
    ensures
        b == collapsed(range),
{
    range.0.le(range.1) && range.1.le(range.0)
}

/// The coupling of a sample on an axis. `scaled` is what the caller scaled a
/// random draw to, `draw (upper - lower) + lower`; on a range collapsed to
/// one number it is not read.
pub fn coupling_on(range: (Scalar, Scalar), scaled: Scalar) -> (coupling: Scalar)
    ensures
        coupling == coupling_drawn(range, scaled),
{
    if is_collapsed(range) {
        range.0
    } else {
        scaled
    }
}

/// The position of a sample on an axis in units of cells. `scaled` is what
/// the caller scaled the coupling to, `(coupling - lower) / (upper - lower)`
/// times the number of cells; on a range collapsed to one number it is not
/// read.
pub fn position_on(range: (Scalar, Scalar), scaled: Scalar) -> (position: Scalar)
    ensures
        position == position_drawn(range, scaled),
{
    if is_collapsed(range) {
        Scalar::zero()
    } else {
        scaled
    }
}

/// On a range collapsed to one number every draw gives the same coupling,
/// the one number of the range, and the same cell, the first.
pub proof fn collapsed_range_gives_one_point(
    range: (Scalar, Scalar),
    first: Scalar,
    second: Scalar,
    first_position: Scalar,
    second_position: Scalar,
)
    requires
        collapsed(range),
    ensures
        coupling_drawn(range, first) == coupling_drawn(range, second),
        coupling_drawn(range, first) == range.0,
        coupling_drawn(range, first).value() == range.1.value(),
        position_drawn(range, first_position) == position_drawn(range, second_position),
        position_drawn(range, first_position).index() == 0,
{
    Scalar::comparisons_are_numeric(range.0, range.1);
    Scalar::pattern_order_is_numeric(range.0, range.1);
    vstd::arithmetic::power2::lemma_pow2_pos(1075);
}

/// How a scan ended.
#[derive(Clone, Copy, Debug, PartialEq, Eq, Structural)]
pub enum ScanEnd {
    /// The scan has all its samples.
    Complete,
    /// The consumer could not take a sample; the scan stopped short.
    Refused,
    /// So many samples were discarded that their count stands at the largest
    /// 64-bit number; the scan stopped short.
    GaveUp,
}

/// Where a scan gets its samples from, and where it reports its progress.
pub trait SampleSource<const N: usize>: Flow {
    /// Draws the next sample, puts the flow at its start on the sample, and
    /// says where the sample falls in the layers.
    fn draw(&mut self) -> GridPoint<N>;

    /// Takes note that this many more valid samples were taken.
    fn progress(&mut self, samples: u64);
}

/// Every sample is a valid one.
pub open spec fn all_valid<const N: usize>(samples: Seq<(GridPoint<N>, IntegrationResult)>) -> bool {
    forall|k: int| 0 <= k < samples.len() ==> !((#[trigger] samples[k]).1 is Invalid)
}

/// Runs a scan over the coupling ranges it was made with.
pub struct Scanner<const N: usize> {
    coupling_ranges: CouplingRanges<N>,
    integrator: Integrator,
    wanted: u64,
    taken: u64,
    discarded: u64,
    reported: u64,
}

impl<const N: usize> Scanner<N> {
    pub closed spec fn ranges(self) -> CouplingRanges<N> {
        self.coupling_ranges
    }

    pub closed spec fn parameters(self) -> IntegrationParameters {
        self.integrator.parameters()
    }

    /// The state of the trajectory of the current sample.
    pub closed spec fn trajectory(self) -> Trajectory {
        self.integrator@
    }

    pub closed spec fn count(self) -> ScanCount {
        ScanCount {
            wanted: self.wanted as int,
            taken: self.taken as int,
            discarded: self.discarded as int,
            reported: self.reported as int,
        }
    }

    /// A scanner that is to take no sample yet, with a trajectory at its start.
    pub fn new(coupling_ranges: CouplingRanges<N>, params: IntegrationParameters) -> (scanner: Self)
        ensures
            scanner.ranges() == coupling_ranges,
            scanner.parameters() == params,
            scanner.trajectory() == start(params.num_steps as int),
            scanner.count() == (ScanCount { wanted: 0, taken: 0, discarded: 0, reported: 0 }),
    {
        Scanner {
            coupling_ranges,
            integrator: Integrator::new(params),
            wanted: 0,
            taken: 0,
            discarded: 0,
            reported: 0,
        }
    }

    pub fn coupling_ranges(&self) -> (ranges: CouplingRanges<N>)
        ensures
            ranges == self.ranges(),
    {
        self.coupling_ranges
    }

    pub fn params(&self) -> (params: IntegrationParameters)
        ensures
            params == self.parameters(),
    {
        self.integrator.params()
    }

    /// Starts a scan that is to take `num_samples` valid samples.
    pub fn begin(&mut self, num_samples: u64)
        ensures
            final(self).count() == (ScanCount {
                wanted: num_samples as int,
                taken: 0,
                discarded: 0,
                reported: 0,
            }),
            final(self).ranges() == old(self).ranges(),
            final(self).parameters() == old(self).parameters(),
            final(self).trajectory() == old(self).trajectory(),
    {
        self.taken = 0;
        self.wanted = num_samples;
        self.discarded = 0;
        self.reported = 0;
    }

    /// How the trajectory of the last sample ended, or `None` before the
    /// first sample.
    pub fn outcome(&self) -> (outcome: Option<IntegrationResult>)
        ensures
            outcome == self.trajectory().outcome,
            within(self.trajectory(), self.parameters().num_steps as int),
    {
        self.integrator.outcome()
    }

    /// Whether the scan has all its samples.
    pub fn is_done(&self) -> (done: bool)
        ensures
            done == (self.count().taken >= self.count().wanted),
    {
        self.taken >= self.wanted
    }

    /// The number of valid samples taken so far.
    pub fn taken(&self) -> (taken: u64)
        ensures
            taken == self.count().taken,
    {
        self.taken
    }

    /// The number of samples discarded so far.
    pub fn invalids(&self) -> (discarded: u64)
        ensures
            discarded == self.count().discarded,
    {
        self.discarded
    }

    /// The number of valid samples reported as progress so far.
    pub fn reported(&self) -> (reported: u64)
        ensures
            reported == self.count().reported,
    {
        self.reported
    }

    /// The progress to report once the scan is done: the size of the last,
    /// partial batch.
    pub fn final_progress(&self) -> (progress: u64)
        ensures
            progress == final_progress(self.count().wanted),
    {
        self.wanted % PROGRESS_BATCH
    }

    /// Decides what becomes of the result of one sample.
    ///
    /// While the scan lacks samples: an invalid result is discarded and does
    /// not count; any other goes to the consumer and counts, and each time
    /// the count reaches a multiple of the batch size, progress is due. A
    /// sample that the consumer cannot take changes nothing.
    pub fn record<T: ScanConsumer<N>>(
        &mut self,
        consumer: &mut T,
        point: GridPoint<N>,
        result: IntegrationResult,
    ) -> (recorded: Recorded)
        ensures
            final(self).ranges() == old(self).ranges(),
            final(self).parameters() == old(self).parameters(),
            final(self).trajectory() == old(self).trajectory(),
            recorded == recorded_as::<T, N>(
                old(self).count(),
                old(consumer).setup(),
                old(consumer).state(),
                point,
                result,
            ),
            final(consumer).setup() == old(consumer).setup(),
            final(self).count() == match recorded {
                Recorded::Discarded => after_discard(old(self).count()),
                Recorded::Counted(_) => after_sample(old(self).count()),
                _ => old(self).count(),
            },
            final(consumer).state() == match recorded {
                Recorded::Counted(_) => T::consumed(
                    old(consumer).setup(),
                    old(consumer).state(),
                    point,
                    result,
                ),
                _ => old(consumer).state(),
            },
    {
        if self.taken >= self.wanted {
            return Recorded::Finished;
        }
        match result {
            IntegrationResult::Invalid => {
                if self.discarded < u64::MAX {
                    self.discarded += 1;
                }
                return Recorded::Discarded;
            },
            _ => {},
        }
        if !consumer.can_consume(point, result) {
            return Recorded::Refused;
        }
        consumer.consume(point, result);
        self.taken += 1;
        if self.taken % PROGRESS_BATCH == 0 {
            Recorded::Counted(Some(PROGRESS_BATCH))
        } else {
            Recorded::Counted(None)
        }
    }

    /// Takes one sample: draws it from `source`, runs its trajectory from
    /// the start to the end, and decides what becomes of the result as
    /// [`Scanner::record`] does. Gives the cell of the sample, the end of its
    /// trajectory, and what became of it. A scan that has all its samples
    /// takes no more: it asks the source for nothing and gives `None`.
    pub fn sample<T: ScanConsumer<N>, S: SampleSource<N>>(
        &mut self,
        consumer: &mut T,
        source: &mut S,
    ) -> (taken: Option<(GridPoint<N>, IntegrationResult, Recorded)>)
        ensures
            final(self).ranges() == old(self).ranges(),
            final(self).parameters() == old(self).parameters(),
            final(consumer).setup() == old(consumer).setup(),
            old(self).count().taken >= old(self).count().wanted ==> {
                &&& taken is None
                &&& final(self).trajectory() == old(self).trajectory()
                &&& final(self).count() == old(self).count()
                &&& final(consumer).state() == old(consumer).state()
            },
            old(self).count().taken < old(self).count().wanted ==> {
                &&& taken matches Some((point, outcome, recorded))
                &&& final(self).trajectory().outcome == Some(outcome)
                &&& within(final(self).trajectory(), old(self).parameters().num_steps as int)
                &&& reachable(
                    start(old(self).parameters().num_steps as int),
                    final(self).trajectory(),
                    old(self).parameters().num_steps as int,
                )
                &&& recorded == recorded_as::<T, N>(
                    old(self).count(),
                    old(consumer).setup(),
                    old(consumer).state(),
                    point,
                    outcome,
                )
                &&& final(self).count() == match recorded {
                    Recorded::Discarded => after_discard(old(self).count()),
                    Recorded::Counted(_) => after_sample(old(self).count()),
                    _ => old(self).count(),
                }
                &&& final(consumer).state() == match recorded {
                    Recorded::Counted(_) => T::consumed(
                        old(consumer).setup(),
                        old(consumer).state(),
                        point,
                        outcome,
                    ),
                    _ => old(consumer).state(),
                }
            },
    {
        if self.taken >= self.wanted {
            return None;
        }
        let point = source.draw();
        self.integrator.reset();
        let outcome = self.integrator.perform_full_integration(source);
        let recorded = self.record(consumer, point, outcome);
        Some((point, outcome, recorded))
    }

    /// Runs a scan of `num_samples` valid samples: draws sample after sample
    /// from `source`, runs the trajectory of each, and hands every valid
    /// result to `consumer`. Progress goes to the source, a batch at a time,
    /// and the rest when the scan is complete: the progress reported of a
    /// complete scan adds up to its samples.
    ///
    /// The scan stops short where the consumer cannot take a sample, and
    /// where the count of discarded samples has reached the largest 64-bit
    /// number.
    pub fn scan<T: ScanConsumer<N>, S: SampleSource<N>>(
        &mut self,
        num_samples: u64,
        consumer: &mut T,
        source: &mut S,
    ) -> (end: ScanEnd)
        ensures
            final(self).ranges() == old(self).ranges(),
            final(self).parameters() == old(self).parameters(),
            final(consumer).setup() == old(consumer).setup(),
            final(self).count().wanted == num_samples,
            0 <= final(self).count().taken <= num_samples,
            end == ScanEnd::Complete <==> final(self).count().taken == num_samples,
            end == ScanEnd::Complete ==> final(self).count().reported == num_samples,
            end != ScanEnd::Complete ==> final(self).count().reported == final(self).count().taken
                - final(self).count().taken % (PROGRESS_BATCH as int),
            end == ScanEnd::GaveUp ==> final(self).count().discarded == u64::MAX,
            end == ScanEnd::Refused ==> refuses::<T, N>(
                old(consumer).setup(),
                final(consumer).state(),
            ),
            collected::<T, N>(
                old(consumer).setup(),
                old(consumer).state(),
                final(consumer).state(),
                final(self).count().taken,
            ),
    {
        self.begin(num_samples);
        let ghost mut samples: Seq<(GridPoint<N>, IntegrationResult)> = Seq::empty();
        loop
            invariant
                self.ranges() == old(self).ranges(),
                self.parameters() == old(self).parameters(),
                consumer.setup() == old(consumer).setup(),
                self.wanted == num_samples,
                self.taken <= self.wanted,
                self.reported == self.taken - self.taken % PROGRESS_BATCH,
                samples.len() == self.taken,
                all_valid(samples),
                consumer.state() == scanned::<T, N>(
                    old(consumer).setup(),
                    old(consumer).state(),
                    samples,
                ),
            decreases (self.wanted - self.taken) + (u64::MAX - self.discarded),
        {
            if self.taken >= self.wanted {
                let rest = self.wanted % PROGRESS_BATCH;
                source.progress(rest);
                self.reported = self.reported + rest;
                return ScanEnd::Complete;
            }
            if self.discarded == u64::MAX {
                return ScanEnd::GaveUp;
            }
            match self.sample(consumer, source) {
                Some((point, outcome, Recorded::Counted(progress))) => {
                    proof {
                        assert(samples.push((point, outcome)).drop_last() =~= samples);
                        samples = samples.push((point, outcome));
                    }
                    match progress {
                        Some(batch) => {
                            source.progress(batch);
                            self.reported = self.reported + batch;
                        },
                        None => {},
                    }
                },
                Some((_, _, Recorded::Discarded)) => {},
                Some((point, outcome, _)) => {
                    assert(!T::accepts(old(consumer).setup(), consumer.state(), point, outcome));
                    return ScanEnd::Refused;
                },
                None => {
                    return ScanEnd::Complete;
                },
            }
        }
    }
}

/// There is a sample that a consumer in this state cannot take.
pub open spec fn refuses<T: ScanConsumer<N>, const N: usize>(setup: T::Setup, state: T::State)
    -> bool {
    exists|point: GridPoint<N>, result: IntegrationResult| !#[trigger] T::accepts(
        setup,
        state,
        point,
        result,
    )
}

/// The consumer's state `after` is its state `before` with `taken` valid
/// samples consumed in turn.
pub open spec fn collected<T: ScanConsumer<N>, const N: usize>(
    setup: T::Setup,
    before: T::State,
    after: T::State,
    taken: int,
) -> bool {
    exists|samples: Seq<(GridPoint<N>, IntegrationResult)>|
        {
            &&& #[trigger] scanned::<T, N>(setup, before, samples) == after
            &&& samples.len() == taken
            &&& all_valid(samples)
        }
}

/// What [`Scanner::record`] answers for a sample, from the counters and the
/// consumer's state before.
pub open spec fn recorded_as<T: ScanConsumer<N>, const N: usize>(
    count: ScanCount,
    setup: T::Setup,
    state: T::State,
    point: GridPoint<N>,
    result: IntegrationResult,
) -> Recorded {
    if count.taken >= count.wanted {
        Recorded::Finished
    } else if result is Invalid {
        Recorded::Discarded
    } else if !T::accepts(setup, state, point, result) {
        Recorded::Refused
    } else {
        Recorded::Counted(progress_after(count.taken + 1))
    }
}

/// The state of a consumer after it took the samples in turn.
pub open spec fn scanned<T: ScanConsumer<N>, const N: usize>(
    setup: T::Setup,
    state: T::State,
    samples: Seq<(GridPoint<N>, IntegrationResult)>,
) -> T::State
    decreases samples.len(),
{
    if samples.len() == 0 {
        state
    } else {
        T::consumed(
            setup,
            scanned::<T, N>(setup, state, samples.drop_last()),
            samples.last().0,
            samples.last().1,
        )
    }
}

/// A consumer that started fresh is valid after any samples.
pub proof fn scan_keeps_valid<T: ScanConsumer<N>, const N: usize>(
    setup: T::Setup,
    samples: Seq<(GridPoint<N>, IntegrationResult)>,
)
    ensures
        T::valid(scanned::<T, N>(setup, T::fresh(), samples)),
    decreases samples.len(),
{
    if samples.len() == 0 {
        T::fresh_is_valid();
    } else {
        scan_keeps_valid::<T, N>(setup, samples.drop_last());
        T::validity_is_kept(
            setup,
            scanned::<T, N>(setup, T::fresh(), samples.drop_last()),
            T::fresh(),
            samples.last().0,
            samples.last().1,
        );
    }
}

/// A scan may be split between two workers with consumers of one setup: the
/// consumers of the two parts, merged, hold what one consumer holds after all
/// the samples.
pub proof fn split_scan_merges_to_whole<T: ScanConsumer<N>, const N: usize>(
    setup: T::Setup,
    first: Seq<(GridPoint<N>, IntegrationResult)>,
    second: Seq<(GridPoint<N>, IntegrationResult)>,
)
    ensures
        scanned::<T, N>(setup, T::fresh(), first + second) == T::combined(
            scanned::<T, N>(setup, T::fresh(), first),
            scanned::<T, N>(setup, T::fresh(), second),
        ),
    decreases second.len(),
{
    scan_keeps_valid::<T, N>(setup, first);
    scan_keeps_valid::<T, N>(setup, second);
    let left = scanned::<T, N>(setup, T::fresh(), first);
    if second.len() == 0 {
        assert(first + second =~= first);
        T::merge_laws(left, left, left);
    } else {
        let earlier = second.drop_last();
        let (point, result) = second.last();
        split_scan_merges_to_whole::<T, N>(setup, first, earlier);
        scan_keeps_valid::<T, N>(setup, earlier);
        assert((first + second).drop_last() =~= first + earlier);
        assert((first + second).last() == second.last());
        T::consume_commutes_with_merge(
            setup,
            left,
            scanned::<T, N>(setup, T::fresh(), earlier),
            point,
            result,
        );
    }
}

} // verus!
