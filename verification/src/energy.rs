//! Averaged GPU power from the cumulative energy counters of the operating
//! system's energy model.
//!
//! The sampler is a state machine. It never touches the reporting service
//! itself: it says how long to sleep before the next capture, takes the
//! channel deltas that the capture produced, and decides what follows. The
//! power of a channel is kept as an exact quotient, so that nothing about it
//! depends on rounding.

use vstd::prelude::*;
use crate::error::Error;
use crate::text::{ends_with, same_text, trim, trimmed};

verus! {

/// One channel of a delta between two captures.
#[derive(Clone, Debug)]
pub struct Channel {
    /// The channel's name, e.g. `"GPU Energy"`.
    pub name: String,
    /// The unit label of `value`, e.g. `"mJ"`.
    pub unit: String,
    /// The energy consumed between the two captures, in `unit`.
    pub value: i64,
}

/// The scales in which a channel counts energy.
#[derive(Clone, Copy, Debug, PartialEq, Eq, Structural)]
pub enum EnergyUnit {
    MilliJoule,
    MicroJoule,
    NanoJoule,
}

/// A power in watts, as the exact quotient `num / den`.
#[derive(Clone, Copy, Debug, PartialEq, Eq, Structural)]
pub struct Watts {
    pub num: i128,
    pub den: u128,
}

/// What one slice of the window produced.
#[derive(Clone, Debug)]
pub struct SliceReport {
    /// Wall-clock milliseconds between the baseline capture and the new one.
    pub elapsed_ms: u64,
    /// The channels of the delta; `None` where the delta could not be had.
    pub channels: Option<Vec<Channel>>,
}

/// The contributions gathered over a window. The average power is their sum
/// divided by `slices`: see [`Gathered::average`].
#[derive(Clone, Debug)]
pub struct PowerSample {
    /// One exact power per GPU energy channel and slice, in the order met.
    pub terms: Vec<Watts>,
    /// The number of slices the window was cut into.
    pub slices: u32,
}

/// A sampling session: it remembers whether a capture is cached to serve as
/// the baseline of the next delta.
#[derive(Debug)]
pub struct EnergyModelSampler {
    baseline: bool,
}

/// A window that is being sampled.
#[derive(Debug)]
pub struct PowerSampling {
    slices: u32,
    step_ms: u64,
    taken: u32,
    terms: Vec<Watts>,
}

/// What the sampler wants next.
#[derive(Debug)]
pub enum SamplerStep {
    /// Sleep `sleep_ms`, capture, take the delta against the baseline, let
    /// the new capture be the baseline, and hand the delta's channels to
    /// [`PowerSampling::resume`]. Where `capture_baseline` is set no
    /// baseline is cached: capture one before sleeping.
    Slice { pending: PowerSampling, sleep_ms: u64, capture_baseline: bool },
    /// The window is over.
    Done(Result<Option<PowerSample>, Error>),
}

/// The mathematical content of a [`PowerSampling`].
pub struct Sampling {
    pub slices: u32,
    pub step_ms: u64,
    pub taken: u32,
    pub terms: Seq<Watts>,
}

/// The mathematical content of a [`PowerSample`].
pub struct Gathered {
    pub terms: Seq<Watts>,
    pub slices: u32,
}

/// The mathematical content of a [`SamplerStep`].
pub enum Outlook {
    Slice { pending: Sampling, sleep_ms: u64, capture_baseline: bool },
    Done(Result<Option<Gathered>, Error>),
}

/// The name of the channel group the sampler subscribes to.
pub const ENERGY_GROUP: &'static str = "Energy Model";

/// The suffix by which a channel is recognised as the GPU's energy counter.
pub const GPU_ENERGY: &'static str = "GPU Energy";

/// The largest number of slices a window is cut into.
pub const MAX_SLICES: usize = 32;

/// The number of slices used where the caller names none.
pub const DEFAULT_SLICES: usize = 4;

/// Whether a channel of this name counts the GPU's energy: the name is
/// `"GPU Energy"`, with or without a model's prefix before it.
pub open spec fn is_gpu_energy(name: Seq<char>) -> bool {
    "GPU Energy"@.is_suffix_of(name)
}

/// The unit that a label names, white space around it set aside.
pub open spec fn unit_of(label: Seq<char>) -> Option<EnergyUnit> {
    let t = trimmed(label);
    if t == "mJ"@ {
        Some(EnergyUnit::MilliJoule)
    } else if t == "uJ"@ {
        Some(EnergyUnit::MicroJoule)
    } else if t == "nJ"@ {
        Some(EnergyUnit::NanoJoule)
    } else {
        None
    }
}

/// The power of `raw` units of energy spent in `dt_ms` milliseconds:
/// `(raw / per_joule) / (dt_ms / 1000)` watts.
pub open spec fn watts(raw: int, unit: EnergyUnit, dt_ms: int) -> (int, int) {
    (raw * 1000, unit.per_joule() * dt_ms)
}

/// Whether two quotients are the same number, their denominators not zero.
pub open spec fn same_quotient(a: (int, int), b: (int, int)) -> bool {
    a.0 * b.1 == b.0 * a.1
}

/// The time over which a delta is spread: the elapsed time, but never zero.
pub open spec fn dt_of(elapsed_ms: u64) -> u64 {
    if elapsed_ms < 1 {
        1
    } else {
        elapsed_ms
    }
}

/// The number of slices for a request of `slices`: at least 1, at most 32.
pub open spec fn clamp_slices(slices: int) -> int {
    if slices < 1 {
        1
    } else if slices > 32 {
        32
    } else {
        slices
    }
}

/// What a channel adds to the sum: nothing unless it counts the GPU's
/// energy in a recognised unit.
pub open spec fn term_of(c: Channel, dt_ms: u64) -> Option<Watts> {
    if is_gpu_energy(c.name@) {
        match unit_of(c.unit@) {
            Some(u) => Some(Watts::of(c.value, u, dt_ms)),
            None => None,
        }
    } else {
        None
    }
}

/// Whether a channel counts the GPU's energy in a unit that is not
/// recognised.
pub open spec fn unreadable(c: Channel) -> bool {
    is_gpu_energy(c.name@) && unit_of(c.unit@) is None
}

/// Whether any of the channels is unreadable.
pub open spec fn any_unreadable(channels: Seq<Channel>) -> bool {
    exists|i: int| 0 <= i < channels.len() && unreadable(#[trigger] channels[i])
}

/// What the channels of one delta add to the sum, in their order.
pub open spec fn slice_terms(channels: Seq<Channel>, dt_ms: u64) -> Seq<Watts> {
    channels.filter_map(|c: Channel| term_of(c, dt_ms))
}

/// The channels of a report; none where the delta could not be had.
pub open spec fn channels_of(report: SliceReport) -> Seq<Channel> {
    match report.channels {
        Some(v) => v@,
        None => Seq::empty(),
    }
}

/// The state in which a window of `window_ms` cut into `slices` begins.
pub open spec fn started(window_ms: u64, slices: int) -> Sampling {
    Sampling {
        slices: clamp_slices(slices) as u32,
        step_ms: (window_ms as int / clamp_slices(slices)) as u64,
        taken: 0,
        terms: Seq::empty(),
    }
}

/// What follows when `report` arrives in state `m`: an unreadable channel
/// ends the window with an error; otherwise the slice is counted, its
/// terms are added, and the window ends once every slice was taken, with
/// no result where no term was ever found.
pub open spec fn after_slice(m: Sampling, report: SliceReport) -> Outlook {
    let channels = channels_of(report);
    if any_unreadable(channels) {
        Outlook::Done(Err(Error::UnknownEncoding))
    } else {
        let terms = m.terms + slice_terms(channels, dt_of(report.elapsed_ms));
        if m.taken + 1 >= m.slices {
            Outlook::Done(
                Ok(
                    if terms.len() > 0 {
                        Some(Gathered { terms, slices: m.slices })
                    } else {
                        None
                    },
                ),
            )
        } else {
            Outlook::Slice {
                pending: Sampling {
                    slices: m.slices,
                    step_ms: m.step_ms,
                    taken: (m.taken + 1) as u32,
                    terms,
                },
                sleep_ms: m.step_ms,
                capture_baseline: false,
            }
        }
    }
}

/// How a window went that was fed some reports.
pub struct Run {
    /// The number of reports that were taken, one per delta.
    pub deltas: nat,
    /// The milliseconds of sleep that were asked for before those reports.
    pub slept_ms: int,
    /// The result, once the window is over.
    pub result: Option<Result<Option<Gathered>, Error>>,
}

/// Feeds `reports` to a window in state `m` that has asked for a sleep of
/// `sleep_ms`, one report after the other, until the window is over or the
/// reports run out.
pub open spec fn run(m: Sampling, sleep_ms: u64, reports: Seq<SliceReport>) -> Run
    decreases reports.len(),
{
    if reports.len() == 0 {
        Run { deltas: 0, slept_ms: 0, result: None }
    } else {
        match after_slice(m, reports[0]) {
            Outlook::Done(r) => Run { deltas: 1, slept_ms: sleep_ms as int, result: Some(r) },
            Outlook::Slice { pending, sleep_ms: next_sleep, .. } => {
                let rest = run(pending, next_sleep, reports.drop_first());
                Run {
                    deltas: 1 + rest.deltas,
                    slept_ms: sleep_ms + rest.slept_ms,
                    result: rest.result,
                }
            },
        }
    }
}

/// The sum of powers, as one quotient.
pub open spec fn total(terms: Seq<Watts>) -> (int, int)
    decreases terms.len(),
{
    if terms.len() == 0 {
        (0, 1)
    } else {
        let (n, d) = total(terms.drop_last());
        (n * terms.last().den + terms.last().num * d, d * terms.last().den)
    }
}

impl Gathered {
    /// The average power over the window: the sum of the terms divided by
    /// the number of slices, as one quotient.
    pub open spec fn average(self) -> (int, int) {
        (total(self.terms).0, total(self.terms).1 * self.slices)
    }
}

/// Whether none of the channels counts the GPU's energy.
pub open spec fn none_gpu_energy(channels: Seq<Channel>) -> bool {
    forall|j: int| 0 <= j < channels.len() ==> !is_gpu_energy((#[trigger] channels[j]).name@)
}

impl EnergyUnit {
    /// How many of this unit make one joule.
    pub open spec fn per_joule(self) -> int {
        match self {
            EnergyUnit::MilliJoule => 1_000,
            EnergyUnit::MicroJoule => 1_000_000,
            EnergyUnit::NanoJoule => 1_000_000_000,
        }
    }

    /// How many of this unit make one joule.
    pub fn time_scale(self) -> (scale: u64)
        ensures
            scale == self.per_joule(),
    {
        match self {
            EnergyUnit::MilliJoule => 1_000,
            EnergyUnit::MicroJoule => 1_000_000,
            EnergyUnit::NanoJoule => 1_000_000_000,
        }
    }

    /// Reads a unit label. White space around the label is ignored.
    pub fn parse(label: &str) -> (unit: Option<EnergyUnit>)
        ensures
            unit == unit_of(label@),
    {
        let t = trim(label);
        if same_text(t, "mJ") {
            Some(EnergyUnit::MilliJoule)
        } else if same_text(t, "uJ") {
            Some(EnergyUnit::MicroJoule)
        } else if same_text(t, "nJ") {
            Some(EnergyUnit::NanoJoule)
        } else {
            None
        }
    }
}

impl Watts {
    /// The quotient as a pair of integers.
    pub open spec fn quotient(self) -> (int, int) {
        (self.num as int, self.den as int)
    }

    /// The power of `raw` units of energy spent in `dt_ms` milliseconds.
    pub open spec fn of(raw: i64, unit: EnergyUnit, dt_ms: u64) -> Watts {
        Watts { num: (raw * 1000) as i128, den: (unit.per_joule() * dt_ms) as u128 }
    }

    /// The power of `raw` units of energy spent in `dt_ms` milliseconds.
    pub fn from_delta(raw: i64, unit: EnergyUnit, dt_ms: u64) -> (w: Watts)
        ensures
            w == Watts::of(raw, unit, dt_ms),
            w.quotient() == watts(raw as int, unit, dt_ms as int),
    {
        let wide: i128 = raw as i128;
        let dt: u128 = dt_ms as u128;
        let den: u128 = match unit {
            EnergyUnit::MilliJoule => 1_000 * dt,
            EnergyUnit::MicroJoule => 1_000_000 * dt,
            EnergyUnit::NanoJoule => 1_000_000_000 * dt,
        };
        Watts { num: wide * 1000, den }
    }
}

impl View for PowerSampling {
    type V = Sampling;

    closed spec fn view(&self) -> Sampling {
        Sampling {
            slices: self.slices,
            step_ms: self.step_ms,
            taken: self.taken,
            terms: self.terms@,
        }
    }
}

impl View for PowerSample {
    type V = Gathered;

    open spec fn view(&self) -> Gathered {
        Gathered { terms: self.terms@, slices: self.slices }
    }
}

impl View for SamplerStep {
    type V = Outlook;

    open spec fn view(&self) -> Outlook {
        match self {
            SamplerStep::Slice { pending, sleep_ms, capture_baseline } => Outlook::Slice {
                pending: pending@,
                sleep_ms: *sleep_ms,
                capture_baseline: *capture_baseline,
            },
            SamplerStep::Done(Ok(Some(sample))) => Outlook::Done(Ok(Some(sample@))),
            SamplerStep::Done(Ok(None)) => Outlook::Done(Ok(None)),
            SamplerStep::Done(Err(e)) => Outlook::Done(Err(*e)),
        }
    }
}

/// Converts an energy delta to watts: `(energy_delta / per_joule) /
/// (dt_ms / 1000)`, as an exact quotient. A unit label other than `mJ`,
/// `uJ` and `nJ` is an error.
pub fn energy_delta_to_watts(energy_delta: i64, unit: &str, dt_ms: u64) -> (r: Result<Watts, Error>)
    ensures
        r == match unit_of(unit@) {
            Some(u) => Ok::<Watts, Error>(Watts::of(energy_delta, u, dt_ms)),
            None => Err(Error::UnknownEncoding),
        },
{
    match EnergyUnit::parse(unit) {
        Some(u) => Ok(Watts::from_delta(energy_delta, u, dt_ms)),
        None => Err(Error::UnknownEncoding),
    }
}

/// Tests whether a channel of this name counts the GPU's energy.
pub fn names_gpu_energy(name: &str) -> (r: bool)
    ensures
        r == is_gpu_energy(name@),
{
    ends_with(name, GPU_ENERGY)
}

/// Adds to `terms` what the channels of one delta contribute, or reports
/// the first unreadable channel.
fn gather(terms: &mut Vec<Watts>, channels: &Vec<Channel>, dt_ms: u64) -> (r: Result<(), Error>)
    ensures
        match r {
            Ok(_) => !any_unreadable(channels@) && final(terms)@ == old(terms)@ + slice_terms(
                channels@,
                dt_ms,
            ),
            Err(e) => any_unreadable(channels@) && e == Error::UnknownEncoding,
        },
{
    let ghost f = |c: Channel| term_of(c, dt_ms);
    let mut i: usize = 0;
    while i < channels.len()
        invariant
            i <= channels@.len(),
            f == (|c: Channel| term_of(c, dt_ms)),
            forall|j: int| 0 <= j < i ==> !unreadable(#[trigger] channels@[j]),
            terms@ == old(terms)@ + channels@.take(i as int).filter_map(f),
        decreases channels@.len() - i,
    {
        let c = &channels[i];
        proof {
            channels@.lemma_filter_map_take_succ(f, i as int);
        }
        if names_gpu_energy(c.name.as_str()) {
            match energy_delta_to_watts(c.value, c.unit.as_str(), dt_ms) {
                Ok(w) => {
                    terms.push(w);
                },
                Err(e) => {
                    assert(unreadable(channels@[i as int]));
                    return Err(e);
                },
            }
        }
        assert(terms@ =~= old(terms)@ + channels@.take(i as int + 1).filter_map(f));
        i += 1;
    }
    proof {
        assert(channels@.take(i as int) =~= channels@);
    }
    Ok(())
}

impl EnergyModelSampler {
    /// Whether a capture is cached to serve as the next baseline.
    pub closed spec fn has_baseline(&self) -> bool {
        self.baseline
    }

    /// Opens a session, given whether the channel group [`ENERGY_GROUP`]
    /// could be resolved and whether the subscription to it was made. Both
    /// are needed; the session begins without a baseline.
    pub fn new(group_resolved: bool, subscribed: bool) -> (r: Result<Self, Error>)
        ensures
            match r {
                Ok(s) => group_resolved && subscribed && !s.has_baseline(),
                Err(e) => !(group_resolved && subscribed) && e == Error::SetupFailure,
            },
    {
        if group_resolved && subscribed {
            Ok(EnergyModelSampler { baseline: false })
        } else {
            Err(Error::SetupFailure)
        }
    }

    /// Begins to sample the GPU's power over `window_ms`, cut into `slices`
    /// slices (at least 1, at most 32) of `window_ms / slices` each. The
    /// cached baseline, if there is one, passes to the window, which gives
    /// the session its last capture back when it is over.
    pub fn sample_gpu_power_w(&mut self, window_ms: u64, slices: usize) -> (step: SamplerStep)
        ensures
            step@ == (Outlook::Slice {
                pending: started(window_ms, slices as int),
                sleep_ms: started(window_ms, slices as int).step_ms,
                capture_baseline: !old(self).has_baseline(),
            }),
            !final(self).has_baseline(),
    {
        let n: usize = if slices < 1 {
            1
        } else if slices > MAX_SLICES {
            MAX_SLICES
        } else {
            slices
        };
        let step_ms: u64 = window_ms / (n as u64);
        let capture_baseline = !self.baseline;
        self.baseline = false;
        let pending = PowerSampling { slices: n as u32, step_ms, taken: 0, terms: Vec::new() };
        SamplerStep::Slice { pending, sleep_ms: step_ms, capture_baseline }
    }

    /// Begins to sample over `window_ms` with the default of 4 slices.
    pub fn sample_gpu_power_w_default(&mut self, window_ms: u64) -> (step: SamplerStep)
        ensures
            step@ == (Outlook::Slice {
                pending: started(window_ms, 4),
                sleep_ms: started(window_ms, 4).step_ms,
                capture_baseline: !old(self).has_baseline(),
            }),
            !final(self).has_baseline(),
    {
        self.sample_gpu_power_w(window_ms, DEFAULT_SLICES)
    }
}

impl PowerSampling {
    /// Takes the report of one slice and says what follows: see
    /// [`after_slice`]. When the window ends, with a result or with an error,
    /// the capture that this report came from stays cached in `sampler` as
    /// the baseline of the next window, so that the deltas go on from it.
    pub fn resume(self, sampler: &mut EnergyModelSampler, report: &SliceReport) -> (step:
        SamplerStep)
        ensures
            step@ == after_slice(self@, *report),
            final(sampler).has_baseline() == (step@ is Done),
    {
        let mut this = self;
        let dt_ms: u64 = if report.elapsed_ms < 1 {
            1
        } else {
            report.elapsed_ms
        };
        sampler.baseline = false;
        match &report.channels {
            Some(channels) => {
                match gather(&mut this.terms, channels, dt_ms) {
                    Ok(_) => {},
                    Err(e) => {
                        sampler.baseline = true;
                        return SamplerStep::Done(Err(e));
                    },
                }
            },
            None => {
                proof {
                    assert(this.terms@ =~= self.terms@ + slice_terms(Seq::empty(), dt_ms));
                }
            },
        }
        if this.taken as u64 + 1 >= this.slices as u64 {
            sampler.baseline = true;
            if this.terms.len() > 0 {
                SamplerStep::Done(Ok(Some(PowerSample { terms: this.terms, slices: this.slices })))
            } else {
                SamplerStep::Done(Ok(None))
            }
        } else {
            this.taken = this.taken + 1;
            let sleep_ms = this.step_ms;
            SamplerStep::Slice { pending: this, sleep_ms, capture_baseline: false }
        }
    }
}

/// Opens a session and begins to sample over `window_ms` with the default
/// number of slices.
pub fn sample_gpu_power_once(group_resolved: bool, subscribed: bool, window_ms: u64) -> (r: Result<
    (EnergyModelSampler, SamplerStep),
    Error,
>)
    ensures
        match r {
            Ok((sampler, step)) => group_resolved && subscribed && !sampler.has_baseline()
                && step@ == (Outlook::Slice {
                pending: started(window_ms, 4),
                sleep_ms: started(window_ms, 4).step_ms,
                capture_baseline: true,
            }),
            Err(e) => !(group_resolved && subscribed) && e == Error::SetupFailure,
        },
{
    match EnergyModelSampler::new(group_resolved, subscribed) {
        Ok(mut sampler) => {
            let step = sampler.sample_gpu_power_w_default(window_ms);
            Ok((sampler, step))
        },
        Err(e) => Err(e),
    }
}

proof fn lemma_no_terms(channels: Seq<Channel>, dt_ms: u64)
    requires
        none_gpu_energy(channels),
    ensures
        slice_terms(channels, dt_ms) == Seq::<Watts>::empty(),
        !any_unreadable(channels),
    decreases channels.len(),
{
    if channels.len() > 0 {
        let rest = channels.drop_last();
        assert forall|j: int| 0 <= j < rest.len() implies !is_gpu_energy(
            (#[trigger] rest[j]).name@,
        ) by {
            assert(rest[j] == channels[j]);
        }
        lemma_no_terms(rest, dt_ms);
        assert(!is_gpu_energy(channels[channels.len() - 1].name@));
    }
}

proof fn lemma_run_to_end(m: Sampling, reports: Seq<SliceReport>)
    requires
        m.taken < m.slices,
        reports.len() >= m.slices - m.taken,
        forall|i: int|
            0 <= i < m.slices - m.taken ==> !any_unreadable(channels_of(#[trigger] reports[i])),
    ensures
        run(m, m.step_ms, reports).deltas == m.slices - m.taken,
        run(m, m.step_ms, reports).slept_ms == (m.slices - m.taken) * m.step_ms,
        run(m, m.step_ms, reports).result matches Some(Ok(_)),
        m.terms.len() == 0 && (forall|i: int|
            0 <= i < m.slices - m.taken ==> none_gpu_energy(channels_of(#[trigger] reports[i])))
            ==> run(m, m.step_ms, reports).result == Some(
            Ok::<Option<Gathered>, Error>(None),
        ),
    decreases reports.len(),
{
    let quiet = m.terms.len() == 0 && (forall|i: int|
        0 <= i < m.slices - m.taken ==> none_gpu_energy(channels_of(#[trigger] reports[i])));
    assert(!any_unreadable(channels_of(reports[0])));
    if quiet {
        assert(none_gpu_energy(channels_of(reports[0])));
        lemma_no_terms(channels_of(reports[0]), dt_of(reports[0].elapsed_ms));
    }
    match after_slice(m, reports[0]) {
        Outlook::Done(_) => {
            assert((m.slices - m.taken) * m.step_ms == m.step_ms) by (nonlinear_arith)
                requires
                    m.slices - m.taken == 1,
            ;
        },
        Outlook::Slice { pending, sleep_ms, .. } => {
            let rest = reports.drop_first();
            assert forall|i: int| 0 <= i < pending.slices - pending.taken implies !any_unreadable(
                channels_of(#[trigger] rest[i]),
            ) by {
                assert(rest[i] == reports[i + 1]);
            }
            if quiet {
                assert forall|i: int|
                    0 <= i < pending.slices - pending.taken implies none_gpu_energy(
                    channels_of(#[trigger] rest[i]),
                ) by {
                    assert(rest[i] == reports[i + 1]);
                }
            }
            lemma_run_to_end(pending, rest);
            assert((m.slices - m.taken) * m.step_ms == m.step_ms + (pending.slices - pending.taken)
                * m.step_ms) by (nonlinear_arith)
                requires
                    pending.slices - pending.taken == m.slices - m.taken - 1,
            ;
        },
    }
}

proof fn lemma_run_stops(m: Sampling, sleep_ms: u64, reports: Seq<SliceReport>, bad: int)
    requires
        m.taken < m.slices,
        0 <= bad < m.slices - m.taken,
        bad < reports.len(),
        any_unreadable(channels_of(reports[bad])),
    ensures
        run(m, sleep_ms, reports).result == Some(
            Err::<Option<Gathered>, Error>(Error::UnknownEncoding),
        ),
        run(m, sleep_ms, reports).deltas <= bad + 1,
    decreases reports.len(),
{
    match after_slice(m, reports[0]) {
        Outlook::Done(_) => {},
        Outlook::Slice { pending, sleep_ms: next_sleep, .. } => {
            let rest = reports.drop_first();
            assert(rest[bad - 1] == reports[bad]);
            lemma_run_stops(pending, next_sleep, rest, bad - 1);
        },
    }
}

/// A window takes one delta per slice: where no channel is unreadable, a
/// window begun for `slices` slices takes exactly as many reports as it has
/// slices (`slices`, where that lies between 1 and 32) and then ends with a
/// result. The sleeps it asks for are equal and add up to `window_ms`, short
/// of less than one millisecond per slice.
pub proof fn law_one_delta_per_slice(window_ms: u64, slices: int, reports: Seq<SliceReport>)
    requires
        reports.len() >= clamp_slices(slices),
        forall|i: int|
            0 <= i < clamp_slices(slices) ==> !any_unreadable(channels_of(#[trigger] reports[i])),
    ensures
        1 <= clamp_slices(slices) <= 32,
        1 <= slices <= 32 ==> clamp_slices(slices) == slices,
        ({
            let m = started(window_ms, slices);
            let r = run(m, m.step_ms, reports);
            &&& r.deltas == clamp_slices(slices)
            &&& r.result matches Some(Ok(_))
            &&& r.slept_ms == clamp_slices(slices) * m.step_ms
            &&& window_ms - clamp_slices(slices) < r.slept_ms <= window_ms
        }),
{
    let m = started(window_ms, slices);
    let n = clamp_slices(slices);
    lemma_run_to_end(m, reports);
    assert(window_ms - n < n * (window_ms as int / n) <= window_ms) by (nonlinear_arith)
        requires
            1 <= n <= 32,
            0 <= window_ms,
    ;
}

/// Power is linear in energy: for one unit and one duration, the power of
/// `factor` times an energy is `factor` times the power of that energy. With
/// a factor of 2: doubling the energy doubles the power.
pub proof fn law_power_is_linear(raw: i64, factor: int, unit: EnergyUnit, dt_ms: u64)
    ensures
        watts(factor * raw, unit, dt_ms as int).0 == factor * watts(raw as int, unit, dt_ms as int).0,
        watts(factor * raw, unit, dt_ms as int).1 == watts(raw as int, unit, dt_ms as int).1,
        i64::MIN <= factor * raw <= i64::MAX ==> {
            &&& Watts::of((factor * raw) as i64, unit, dt_ms).num == factor * Watts::of(
                raw,
                unit,
                dt_ms,
            ).num
            &&& Watts::of((factor * raw) as i64, unit, dt_ms).den == Watts::of(raw, unit, dt_ms).den
        },
{
    assert((factor * raw) * 1000 == factor * (raw * 1000)) by (nonlinear_arith);
}

/// The units agree: an energy counted in millijoules, the same energy
/// counted in microjoules (a thousand times the number) and in nanojoules (a
/// million times the number) give the same power over the same duration;
/// and 1000 mJ spent in 1000 ms are exactly one watt.
pub proof fn law_units_agree(raw: i64, dt_ms: u64)
    ensures
        same_quotient(
            watts(raw as int, EnergyUnit::MilliJoule, dt_ms as int),
            watts(1_000 * raw, EnergyUnit::MicroJoule, dt_ms as int),
        ),
        same_quotient(
            watts(raw as int, EnergyUnit::MilliJoule, dt_ms as int),
            watts(1_000_000 * raw, EnergyUnit::NanoJoule, dt_ms as int),
        ),
        same_quotient(watts(1_000, EnergyUnit::MilliJoule, 1_000), (1, 1)),
        same_quotient(watts(1_000_000, EnergyUnit::MicroJoule, 1_000), (1, 1)),
        same_quotient(watts(1_000_000_000, EnergyUnit::NanoJoule, 1_000), (1, 1)),
{
    let r = raw as int;
    let d = dt_ms as int;
    assert((r * 1000) * (1_000_000 * d) == ((1_000 * r) * 1000) * (1_000 * d))
        by (nonlinear_arith);
    assert((r * 1000) * (1_000_000_000 * d) == ((1_000_000 * r) * 1000) * (1_000 * d))
        by (nonlinear_arith);
}

/// A machine without a GPU energy channel has no power to report: where no
/// channel of any slice counts the GPU's energy, the window ends with
/// `Ok(None)`, neither an error nor a zero.
pub proof fn law_no_channel_no_power(window_ms: u64, slices: int, reports: Seq<SliceReport>)
    requires
        reports.len() >= clamp_slices(slices),
        forall|i: int|
            0 <= i < clamp_slices(slices) ==> none_gpu_energy(channels_of(#[trigger] reports[i])),
    ensures
        ({
            let m = started(window_ms, slices);
            run(m, m.step_ms, reports).result == Some(Ok::<Option<Gathered>, Error>(None))
        }),
{
    let m = started(window_ms, slices);
    assert forall|i: int| 0 <= i < clamp_slices(slices) implies !any_unreadable(
        channels_of(#[trigger] reports[i]),
    ) by {
        lemma_no_terms(channels_of(reports[i]), 1);
    }
    lemma_run_to_end(m, reports);
}

/// An unrecognised unit is never guessed at: where a GPU energy channel of
/// some slice of the window reports a unit other than `mJ`, `uJ` and `nJ`,
/// the window ends at once with `UnknownEncoding`.
pub proof fn law_unknown_unit_fails(
    window_ms: u64,
    slices: int,
    reports: Seq<SliceReport>,
    bad: int,
)
    requires
        0 <= bad < clamp_slices(slices),
        bad < reports.len(),
        any_unreadable(channels_of(reports[bad])),
    ensures
        ({
            let m = started(window_ms, slices);
            let r = run(m, m.step_ms, reports);
            &&& r.result == Some(Err::<Option<Gathered>, Error>(Error::UnknownEncoding))
            &&& r.deltas <= bad + 1
        }),
{
    let m = started(window_ms, slices);
    lemma_run_stops(m, m.step_ms, reports, bad);
}

/// The average is linear in the energies: where every term of one window
/// is `factor` times the term of another, over the same durations, its
/// average is `factor` times the other's. With a factor of 2: doubling
/// every energy doubles the average power.
pub proof fn law_average_is_linear(a: Gathered, b: Gathered, factor: int)
    requires
        a.slices == b.slices,
        a.terms.len() == b.terms.len(),
        forall|i: int|
            0 <= i < a.terms.len() ==> (#[trigger] b.terms[i]).num == factor * a.terms[i].num
                && b.terms[i].den == a.terms[i].den,
    ensures
        b.average().0 == factor * a.average().0,
        b.average().1 == a.average().1,
{
    lemma_total_is_linear(a.terms, b.terms, factor);
}

proof fn lemma_total_is_linear(a: Seq<Watts>, b: Seq<Watts>, factor: int)
    requires
        a.len() == b.len(),
        forall|i: int|
            0 <= i < a.len() ==> (#[trigger] b[i]).num == factor * a[i].num && b[i].den == a[i].den,
    ensures
        total(b).0 == factor * total(a).0,
        total(b).1 == total(a).1,
    decreases a.len(),
{
    if a.len() > 0 {
        let ra = a.drop_last();
        let rb = b.drop_last();
        assert forall|i: int| 0 <= i < ra.len() implies (#[trigger] rb[i]).num == factor * ra[i].num
            && rb[i].den == ra[i].den by {
            assert(rb[i] == b[i]);
            assert(ra[i] == a[i]);
        }
        lemma_total_is_linear(ra, rb, factor);
        let (n, d) = total(ra);
        let x = a.last().num as int;
        let y = a.last().den as int;
        assert(b.last() == b[b.len() - 1]);
        assert(a.last() == a[a.len() - 1]);
        assert((factor * n) * y + (factor * x) * d == factor * (n * y + x * d))
            by (nonlinear_arith);
    }
}

} // verus!
