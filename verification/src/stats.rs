//! What a frame cost, how the render is progressing, and where the memory
//! went.
//!
//! [`Recorder`] owns the running state; [`Stats`] is the plain snapshot it
//! produces, and [`Report`] the summary of a whole run. Nothing here reads a
//! clock: whoever drives the render loop says what time it is.

use std::collections::VecDeque;

use vstd::prelude::*;
use vstd::string::*;


verus! {

/// Samples after which an image is treated as readable.
pub const READABLE_SAMPLES: u32 = 16;

/// Frames the rolling window keeps for the smoothed read.
pub const WINDOW: usize = 120;

/// The longest span of time that can be stated, in nanoseconds: 64 bits of
/// seconds, and the fraction of one more.
pub const LONGEST: u128 = 18_446_744_073_709_551_615_999_999_999;

/// A span of time.
#[derive(Clone, Copy, Debug, PartialEq, Eq, PartialOrd, Ord, Hash, Structural)]
pub struct Span {
    /// Nanoseconds.
    pub nanos: u128,
}

impl Span {
    /// No time at all.
    #[verifier::allow_in_spec]
    pub fn zero() -> (r: Span)
        returns
            (Span { nanos: 0 }),
    {
        Span { nanos: 0 }
    }

    /// A span of `micros` microseconds.
    pub fn from_micros(micros: u64) -> (r: Span)
        ensures
            r.nanos == micros * 1000,
            r.nanos <= LONGEST,
    {
        Span { nanos: micros as u128 * 1000 }
    }

    /// A span of `millis` milliseconds.
    pub fn from_millis(millis: u64) -> (r: Span)
        ensures
            r.nanos == millis * 1_000_000,
            r.nanos <= LONGEST,
    {
        Span { nanos: millis as u128 * 1_000_000 }
    }

    /// Both spans, one after the other.
    pub fn plus(&self, other: Span) -> (r: Span)
        requires
            self.nanos + other.nanos <= LONGEST,
        ensures
            r.nanos == self.nanos + other.nanos,
    {
        Span { nanos: self.nanos + other.nanos }
    }
}

/// A moment, on a clock that only runs forward.
#[derive(Clone, Copy, Debug, PartialEq, Eq, PartialOrd, Ord, Hash, Structural)]
pub struct Moment {
    /// Nanoseconds from some moment that is the same throughout a run.
    pub nanos: u128,
}

impl Moment {
    /// The time from this moment to a later one; none, where the other is not
    /// later.
    pub open spec fn until(self, later: Moment) -> Span {
        Span {
            nanos: if later.nanos > self.nanos {
                (later.nanos - self.nanos) as u128
            } else {
                0
            },
        }
    }

    /// The time from this moment to `now`.
    pub fn elapsed(&self, now: Moment) -> (r: Span)
        ensures
            r == self.until(now),
    {
        if now.nanos > self.nanos {
            Span { nanos: now.nanos - self.nanos }
        } else {
            Span { nanos: 0 }
        }
    }
}

/// Mark the start of the process: the first mark stands, and later ones say
/// nothing.
pub fn mark_startup(marked: &mut Option<Moment>, now: Moment)
    ensures
        *final(marked) == (match *old(marked) {
            Some(earlier) => Some(earlier),
            None => Some(now),
        }),
{
    if marked.is_none() {
        *marked = Some(now);
    }
}

/// The start of the process if it was marked, else now; and now becomes the
/// mark for everyone after, so one run never mixes two origins.
pub fn startup(marked: &mut Option<Moment>, now: Moment) -> (r: Moment)
    ensures
        *final(marked) == Some(r),
        r == (match *old(marked) {
            Some(earlier) => earlier,
            None => now,
        }),
{
    mark_startup(marked, now);
    match *marked {
        Some(moment) => moment,
        None => now,
    }
}

/// One kernel's contribution to a frame, summed over however many times the
/// frame dispatched it.
#[derive(Clone, Debug)]
pub struct PassTiming {
    /// The kernel's entry-point name.
    pub label: String,
    /// Total device time across the dispatches.
    pub gpu: Span,
    /// How many times it was dispatched.
    pub calls: u32,
}

/// A kernel's contribution.
#[verifier::ext_equal]
pub struct Kernel {
    /// The kernel.
    pub label: Seq<char>,
    /// Device time, nanoseconds.
    pub gpu: int,
    /// Dispatches.
    pub calls: int,
}

/// A measurement: the time it covers, and where that went.
#[verifier::ext_equal]
pub struct Timings {
    /// Device time, nanoseconds.
    pub total: int,
    /// The kernels, in the order they first ran.
    pub kernels: Seq<Kernel>,
}

impl View for PassTiming {
    type V = Kernel;

    open spec fn view(&self) -> Kernel {
        Kernel { label: self.label@, gpu: self.gpu.nanos as int, calls: self.calls as int }
    }
}

/// How long the device was busy and, when it was asked, which kernels it was
/// busy in, in the order they first ran.
///
/// The total is measured at the outer boundaries, never added up from the
/// parts; most frames carry it alone.
#[derive(Clone, Debug)]
pub struct PassTimings {
    total: Span,
    entries: Vec<PassTiming>,
}

impl View for PassTimings {
    type V = Timings;

    closed spec fn view(&self) -> Timings {
        Timings {
            total: self.total.nanos as int,
            kernels: self.entries@.map_values(|entry: PassTiming| entry@),
        }
    }
}

/// The first kernel from `at` on with that label, or the end.
pub open spec fn find_label(kernels: Seq<Kernel>, label: Seq<char>, at: int) -> int
    decreases kernels.len() - at,
{
    if at >= kernels.len() || kernels[at].label == label {
        at
    } else {
        find_label(kernels, label, at + 1)
    }
}

/// What is found is the first of its label.
pub proof fn find_label_finds(kernels: Seq<Kernel>, label: Seq<char>, at: int)
    requires
        0 <= at <= kernels.len(),
    ensures
        at <= find_label(kernels, label, at) <= kernels.len(),
        find_label(kernels, label, at) < kernels.len() ==> kernels[find_label(
            kernels,
            label,
            at,
        )].label == label,
        forall|i: int| at <= i < find_label(kernels, label, at) ==> kernels[i].label != label,
    decreases kernels.len() - at,
{
    if at < kernels.len() && kernels[at].label != label {
        find_label_finds(kernels, label, at + 1);
    }
}

/// The kernels with one more span attributed: to the label's entry, or to a
/// new one at the end.
pub open spec fn attributed(
    kernels: Seq<Kernel>,
    label: Seq<char>,
    gpu: int,
    calls: int,
) -> Seq<Kernel> {
    let at = find_label(kernels, label, 0);
    if at < kernels.len() {
        kernels.update(
            at,
            Kernel { label, gpu: kernels[at].gpu + gpu, calls: kernels[at].calls + calls },
        )
    } else {
        kernels.push(Kernel { label, gpu, calls })
    }
}

/// One more span can be attributed without leaving what can be stated.
pub open spec fn attributable(
    kernels: Seq<Kernel>,
    label: Seq<char>,
    gpu: int,
    calls: int,
) -> bool {
    let at = find_label(kernels, label, 0);
    at < kernels.len() ==> kernels[at].gpu + gpu <= LONGEST && kernels[at].calls + calls
        <= u32::MAX
}

/// The kernels with the first `n` of another measurement's folded in.
pub open spec fn kernels_with(kernels: Seq<Kernel>, others: Seq<Kernel>, n: int) -> Seq<Kernel>
    decreases n,
{
    if n <= 0 {
        kernels
    } else {
        attributed(
            kernels_with(kernels, others, n - 1),
            others[n - 1].label,
            others[n - 1].gpu,
            others[n - 1].calls,
        )
    }
}

/// Another measurement's kernels can be folded in.
pub open spec fn foldable(kernels: Seq<Kernel>, others: Seq<Kernel>) -> bool {
    forall|n: int|
        0 <= n < others.len() ==> attributable(
            #[trigger] kernels_with(kernels, others, n),
            others[n].label,
            others[n].gpu,
            others[n].calls,
        )
}

impl PassTimings {
    /// No measurement.
    pub fn new() -> (r: PassTimings)
        ensures
            r@ == (Timings { total: 0, kernels: Seq::empty() }),
    {
        let r = PassTimings { total: Span::zero(), entries: Vec::new() };
        assert(r@.kernels =~= Seq::empty());
        r
    }

    /// A submission that took `total` on the device, not yet attributed.
    pub fn measured(total: Span) -> (r: PassTimings)
        ensures
            r@ == (Timings { total: total.nanos as int, kernels: Seq::empty() }),
    {
        let r = PassTimings { total, entries: Vec::new() };
        assert(r@.kernels =~= Seq::empty());
        r
    }

    /// Attribute one span's time to `label`'s entry, starting the entry if
    /// the kernel has not run yet. This says where the total went, so it
    /// leaves the total alone.
    pub fn add(&mut self, label: &str, gpu: Span, calls: u32)
        requires
            attributable(old(self)@.kernels, label@, gpu.nanos as int, calls as int),
        ensures
            final(self)@.total == old(self)@.total,
            final(self)@.kernels == attributed(
                old(self)@.kernels,
                label@,
                gpu.nanos as int,
                calls as int,
            ),
    {
        let ghost before = self@.kernels;
        let name = label.to_owned();
        let mut at: usize = 0;
        while at < self.entries.len() && self.entries[at].label != name
            invariant
                at <= self.entries@.len(),
                before == self@.kernels,
                before.len() == self.entries@.len(),
                *self == *old(self),
                name@ == label@,
                find_label(before, label@, 0) == find_label(before, label@, at as int),
            decreases self.entries@.len() - at,
        {
            assert(before[at as int].label == self.entries@[at as int].label@);
            at = at + 1;
        }
        if at < self.entries.len() {
            assert(before[at as int] == self.entries@[at as int]@);
            let entry = PassTiming {
                label: name,
                gpu: self.entries[at].gpu.plus(gpu),
                calls: self.entries[at].calls + calls,
            };
            self.entries.set(at, entry);
            assert(self@.kernels =~= attributed(before, label@, gpu.nanos as int, calls as int));
        } else {
            self.entries.push(PassTiming { label: name, gpu, calls });
            assert(self@.kernels =~= attributed(before, label@, gpu.nanos as int, calls as int));
        }
    }

    /// Fold another frame's measurement into this one.
    pub fn merge(&mut self, other: &PassTimings)
        requires
            old(self)@.total + other@.total <= LONGEST,
            foldable(old(self)@.kernels, other@.kernels),
        ensures
            final(self)@.total == old(self)@.total + other@.total,
            final(self)@.kernels == kernels_with(
                old(self)@.kernels,
                other@.kernels,
                other@.kernels.len() as int,
            ),
    {
        self.total = self.total.plus(other.total);
        assert(self@.kernels =~= old(self)@.kernels);
        let mut at: usize = 0;
        while at < other.entries.len()
            invariant
                at <= other.entries@.len() == other@.kernels.len(),
                foldable(old(self)@.kernels, other@.kernels),
                self@.total == old(self)@.total + other@.total,
                self@.kernels == kernels_with(old(self)@.kernels, other@.kernels, at as int),
            decreases other.entries@.len() - at,
        {
            let entry = &other.entries[at];
            assert(other@.kernels[at as int] == entry@);
            self.add(entry.label.as_str(), entry.gpu, entry.calls);
            at = at + 1;
        }
    }

    /// The kernels, in the order they first ran.
    pub fn iter(&self) -> (r: &Vec<PassTiming>)
        ensures
            r@.map_values(|entry: PassTiming| entry@) == self@.kernels,
    {
        &self.entries
    }

    /// Device time this measurement covers.
    pub fn total(&self) -> (r: Span)
        ensures
            r.nanos == self@.total,
    {
        self.total
    }

    /// Whether the time is attributed to kernels. Most frames carry only the
    /// outer boundaries: the common case, not a failure.
    pub fn has_breakdown(&self) -> (r: bool)
        ensures
            r == (self@.kernels.len() > 0),
    {
        self.entries.len() > 0
    }

    /// A copy of the measurement.
    pub fn duplicate(&self) -> (r: PassTimings)
        ensures
            r@ == self@,
    {
        let mut entries: Vec<PassTiming> = Vec::new();
        let mut at: usize = 0;
        while at < self.entries.len()
            invariant
                at <= self.entries@.len(),
                entries@ == self.entries@.take(at as int),
            decreases self.entries@.len() - at,
        {
            let entry = &self.entries[at];
            entries.push(
                PassTiming { label: entry.label.clone(), gpu: entry.gpu, calls: entry.calls },
            );
            assert(entries@ =~= self.entries@.take(at + 1));
            at = at + 1;
        }
        assert(entries@ =~= self.entries@);
        PassTimings { total: self.total, entries }
    }
}

/// The device time that kernels account for together.
pub open spec fn attributed_time(kernels: Seq<Kernel>) -> int
    decreases kernels.len(),
{
    if kernels.len() == 0 {
        0
    } else {
        attributed_time(kernels.drop_last()) + kernels.last().gpu
    }
}

proof fn updating_one_entry(kernels: Seq<Kernel>, at: int, entry: Kernel)
    requires
        0 <= at < kernels.len(),
    ensures
        attributed_time(kernels.update(at, entry)) == attributed_time(kernels) - kernels[at].gpu
            + entry.gpu,
    decreases kernels.len(),
{
    let after = kernels.update(at, entry);
    if at == kernels.len() - 1 {
        assert(after.drop_last() =~= kernels.drop_last());
    } else {
        assert(after.drop_last() =~= kernels.drop_last().update(at, entry));
        updating_one_entry(kernels.drop_last(), at, entry);
    }
}

/// Attributing a span adds its time to what the kernels account for, and
/// nothing else.
pub proof fn attribution_adds_up(kernels: Seq<Kernel>, label: Seq<char>, gpu: int, calls: int)
    ensures
        attributed_time(attributed(kernels, label, gpu, calls)) == attributed_time(kernels) + gpu,
{
    find_label_finds(kernels, label, 0);
    let at = find_label(kernels, label, 0);
    if at < kernels.len() {
        updating_one_entry(
            kernels,
            at,
            Kernel { label, gpu: kernels[at].gpu + gpu, calls: kernels[at].calls + calls },
        );
    } else {
        let after = attributed(kernels, label, gpu, calls);
        assert(after.drop_last() =~= kernels);
    }
}

/// Folding a measurement in adds what its kernels account for.
pub proof fn merging_adds_up(kernels: Seq<Kernel>, others: Seq<Kernel>, n: int)
    requires
        0 <= n <= others.len(),
    ensures
        attributed_time(kernels_with(kernels, others, n)) == attributed_time(kernels)
            + attributed_time(others.take(n)),
    decreases n,
{
    if n > 0 {
        merging_adds_up(kernels, others, n - 1);
        let other = others[n - 1];
        attribution_adds_up(
            kernels_with(kernels, others, n - 1),
            other.label,
            other.gpu,
            other.calls,
        );
        assert(others.take(n).drop_last() =~= others.take(n - 1));
    } else {
        assert(others.take(n) =~= Seq::empty());
    }
}

/// No two entries have the same label.
pub open spec fn one_entry_each(kernels: Seq<Kernel>) -> bool {
    forall|i: int, j: int|
        #![trigger kernels[i], kernels[j]]
        0 <= i < j < kernels.len() ==> kernels[i].label != kernels[j].label
}

/// Repeated dispatches of a kernel fold into one entry, and the entries that
/// were there keep their labels and their order.
pub proof fn dispatches_fold_into_one_entry(
    kernels: Seq<Kernel>,
    label: Seq<char>,
    gpu: int,
    calls: int,
)
    requires
        one_entry_each(kernels),
    ensures
        one_entry_each(attributed(kernels, label, gpu, calls)),
        kernels.len() <= attributed(kernels, label, gpu, calls).len(),
        forall|i: int|
            0 <= i < kernels.len() ==> #[trigger] attributed(kernels, label, gpu, calls)[i].label
                == kernels[i].label,
{
    find_label_finds(kernels, label, 0);
}

/// Which side of the loop a frame spent its time on.
#[derive(Clone, Copy, Debug, PartialEq, Eq, Structural)]
pub enum Bound {
    /// The dispatches account for the frame: the kernels are the cost.
    Gpu,
    /// They do not: the gap went to recording, submission or the host.
    Cpu,
    /// Nothing was measured, so the question has no answer.
    Unknown,
}

impl Default for Bound {
    /// Nothing measured: such a frame must never read as a measured one.
    fn default() -> (r: Bound)
        ensures
            r == Bound::Unknown,
    {
        Bound::Unknown
    }
}

/// The verdict for a device time against the wall-clock of the same frames:
/// the device must be busy for nine tenths of it.
pub open spec fn verdict(cpu: int, gpu: int) -> Bound {
    if cpu == 0 || gpu == 0 {
        Bound::Unknown
    } else if gpu * 10 >= cpu * 9 {
        Bound::Gpu
    } else {
        Bound::Cpu
    }
}

impl Bound {
    /// The verdict for a device time against the wall-clock of the frames
    /// that it was spent in. Both must cover the same frames.
    pub fn of(cpu: Span, gpu: Span) -> (r: Bound)
        requires
            cpu.nanos <= LONGEST,
            gpu.nanos <= LONGEST,
        ensures
            r == verdict(cpu.nanos as int, gpu.nanos as int),
    {
        if cpu.nanos == 0 || gpu.nanos == 0 {
            Bound::Unknown
        } else if gpu.nanos * 10 >= cpu.nanos * 9 {
            Bound::Gpu
        } else {
            Bound::Cpu
        }
    }

    /// The verdict as a word.
    pub open spec fn text(self) -> Seq<char> {
        match self {
            Bound::Gpu => "gpu-bound"@,
            Bound::Cpu => "cpu-bound"@,
            Bound::Unknown => "not measured"@,
        }
    }

    /// The verdict as a word.
    pub fn word(&self) -> (r: &'static str)
        ensures
            r@ == self.text(),
    {
        match self {
            Bound::Gpu => "gpu-bound",
            Bound::Cpu => "cpu-bound",
            Bound::Unknown => "not measured",
        }
    }
}

/// What one sample cost.
#[derive(Debug)]
pub struct Frame {
    /// Wall-clock on the render thread, the whole round trip.
    pub cpu: Span,
    /// Per-kernel device time inside that.
    pub passes: PassTimings,
    /// What it rendered at.
    pub size: (u32, u32),
    /// Samples in the film's average after it.
    pub samples: u32,
    /// The candidate count this sample was drawn with, where it has one.
    pub candidates: Option<u32>,
}

/// A sample's cost.
#[verifier::ext_equal]
pub struct FrameCost {
    /// Wall-clock.
    pub cpu: Span,
    /// Device time.
    pub passes: Timings,
    /// What it rendered at.
    pub size: (u32, u32),
    /// Samples in the film's average after it.
    pub samples: u32,
    /// The candidate count, where it has one.
    pub candidates: Option<u32>,
}

impl View for Frame {
    type V = FrameCost;

    open spec fn view(&self) -> FrameCost {
        FrameCost {
            cpu: self.cpu,
            passes: self.passes@,
            size: self.size,
            samples: self.samples,
            candidates: self.candidates,
        }
    }
}

/// A sample of nothing.
pub open spec fn no_frame() -> FrameCost {
    FrameCost {
        cpu: Span::zero(),
        passes: Timings { total: 0, kernels: Seq::empty() },
        size: (0, 0),
        samples: 0,
        candidates: None,
    }
}

impl Frame {
    /// A sample of nothing.
    pub fn new() -> (r: Frame)
        ensures
            r@ == no_frame(),
    {
        Frame {
            cpu: Span::zero(),
            passes: PassTimings::new(),
            size: (0, 0),
            samples: 0,
            candidates: None,
        }
    }

    /// Device time across the frame's dispatches.
    pub fn gpu(&self) -> (r: Span)
        ensures
            r.nanos == self@.passes.total,
    {
        self.passes.total()
    }

    /// Whether the dispatches account for the frame.
    pub fn bound(&self) -> (r: Bound)
        requires
            self.cpu.nanos <= LONGEST,
            self@.passes.total <= LONGEST,
        ensures
            r == verdict(self.cpu.nanos as int, self@.passes.total),
    {
        Bound::of(self.cpu, self.gpu())
    }

    /// A copy of the frame.
    pub fn duplicate(&self) -> (r: Frame)
        ensures
            r@ == self@,
    {
        Frame {
            cpu: self.cpu,
            passes: self.passes.duplicate(),
            size: self.size,
            samples: self.samples,
            candidates: self.candidates,
        }
    }
}

/// How long the renderer took to become useful.
#[derive(Clone, Copy, Debug, PartialEq, Eq, Structural)]
pub struct Interactivity {
    /// Process start to the first ray traced; measured once.
    pub to_first_ray: Option<Span>,
    /// The last restart to the first frame after it.
    pub to_first_pixel: Option<Span>,
    /// That same restart to [`READABLE_SAMPLES`] samples.
    pub to_readable: Option<Span>,
}

/// Where the device memory went, in the buckets worth naming.
#[derive(Clone, Copy, Debug, PartialEq, Eq, Structural)]
pub struct Memory {
    /// Geometry, materials, and the acceleration structures over them.
    pub scene: u64,
    /// The film.
    pub film: u64,
    /// Reuse state.
    pub reservoirs: u64,
    /// Material textures.
    pub textures: u64,
    /// The path pool and queues, and host staging.
    pub scratch: u64,
    /// The device-local heap, when the driver reports one.
    pub budget: Option<u64>,
}

impl Default for Memory {
    /// Nothing held, and no budget known.
    fn default() -> (r: Memory)
        ensures
            r == (Memory {
                scene: 0,
                film: 0,
                reservoirs: 0,
                textures: 0,
                scratch: 0,
                budget: None,
            }),
    {
        Memory { scene: 0, film: 0, reservoirs: 0, textures: 0, scratch: 0, budget: None }
    }
}

/// The greater of two sizes.
pub open spec fn greater(a: u64, b: u64) -> u64 {
    if a >= b {
        a
    } else {
        b
    }
}

fn greater_of(a: u64, b: u64) -> (r: u64)
    ensures
        r == greater(a, b),
{
    if a >= b {
        a
    } else {
        b
    }
}

impl Memory {
    /// Everything the buckets hold.
    pub open spec fn held(self) -> int {
        self.scene + self.film + self.reservoirs + self.textures + self.scratch
    }

    /// Everything the renderer is holding.
    pub fn total(&self) -> (r: u64)
        requires
            self.held() <= u64::MAX,
        ensures
            r == self.held(),
    {
        self.scene + self.film + self.reservoirs + self.textures + self.scratch
    }

    /// The named buckets, for display.
    pub fn buckets(&self) -> (r: [(&'static str, u64); 5])
        ensures
            r@[0].0@ == "scene"@ && r@[0].1 == self.scene,
            r@[1].0@ == "film"@ && r@[1].1 == self.film,
            r@[2].0@ == "reservoirs"@ && r@[2].1 == self.reservoirs,
            r@[3].0@ == "textures"@ && r@[3].1 == self.textures,
            r@[4].0@ == "scratch"@ && r@[4].1 == self.scratch,
    {
        [
            ("scene", self.scene),
            ("film", self.film),
            ("reservoirs", self.reservoirs),
            ("textures", self.textures),
            ("scratch", self.scratch),
        ]
    }

    /// The peaks after a reading: each bucket's own, and the latest budget
    /// that was reported.
    pub open spec fn raised_to(self, reading: Memory) -> Memory {
        Memory {
            scene: greater(self.scene, reading.scene),
            film: greater(self.film, reading.film),
            reservoirs: greater(self.reservoirs, reading.reservoirs),
            textures: greater(self.textures, reading.textures),
            scratch: greater(self.scratch, reading.scratch),
            budget: if reading.budget is Some {
                reading.budget
            } else {
                self.budget
            },
        }
    }
}

/// A peak never falls, and no reading rises above it.
pub proof fn peaks_never_fall(peak: Memory, reading: Memory)
    ensures
        ({
            let after = peak.raised_to(reading);
            &&& after.scene >= peak.scene && after.scene >= reading.scene
            &&& after.film >= peak.film && after.film >= reading.film
            &&& after.reservoirs >= peak.reservoirs && after.reservoirs >= reading.reservoirs
            &&& after.textures >= peak.textures && after.textures >= reading.textures
            &&& after.scratch >= peak.scratch && after.scratch >= reading.scratch
            &&& after.held() <= peak.held() + reading.held()
        }),
{
}

/// The rolling read of recent frame times.
#[derive(Clone, Copy, Debug, PartialEq, Eq, Structural)]
pub struct Smoothed {
    /// Median frame time over the window.
    pub median: Span,
    /// 95th percentile over the window: the hitch, not the average.
    pub p95: Span,
}

/// One snapshot of everything.
#[derive(Debug)]
pub struct Stats {
    /// The most recent sample.
    pub frame: Frame,
    /// Recent frame times, smoothed for display.
    pub smoothed: Smoothed,
    /// How long it took to become useful.
    pub interactivity: Interactivity,
    /// Where the memory went.
    pub memory: Memory,
}

/// The end-of-render summary: what the whole run cost.
#[derive(Debug)]
pub struct Report {
    /// The device that rendered it.
    pub device: String,
    /// The scene, as named on the command line.
    pub scene: String,
    /// What it rendered at.
    pub size: (u32, u32),
    /// Samples reached.
    pub samples: u32,
    /// Wall-clock from process start to the end of the render.
    pub wall: Span,
    /// Summed wall-clock of the samples alone.
    pub sampling: Span,
    /// Summed device time over those same samples.
    pub gpu: Span,
    /// Samples rendered.
    pub frames: u64,
    /// How many of them also carried the per-kernel attribution.
    pub breakdown_frames: u64,
    /// Summed device time per kernel across those frames.
    pub passes: PassTimings,
    /// Frame-time distribution over the run.
    pub smoothed: Smoothed,
    /// Mean wall-clock per sample that carried no attribution.
    pub mean_frame: Span,
    /// Whether the dispatches accounted for the run.
    pub bound: Bound,
    /// The interactivity marks.
    pub interactivity: Interactivity,
    /// Peak memory per bucket over the run.
    pub peak_memory: Memory,
    /// The candidate count of the run's last sample.
    pub candidates: Option<u32>,
}

/// The running state behind [`Stats`].
///
/// Frames with and without an attribution are accounted apart: attributing
/// costs the frame it is taken on, so the frame-time distribution comes from
/// the plain frames alone, while the totals are over both.
pub struct Recorder {
    origin: Moment,
    reset: Moment,
    interactivity: Interactivity,
    awaiting_first_pixel: bool,
    awaiting_readable: bool,
    memory: Memory,
    peak_memory: Memory,
    window: VecDeque<Span>,
    plain_frames: u64,
    plain_cpu: Span,
    plain_gpu: Span,
    breakdown_frames: u64,
    breakdown_cpu: Span,
    totals: PassTimings,
    latest: Frame,
    last_candidates: Option<u32>,
}

/// What a recorder holds.
#[verifier::ext_equal]
pub struct Ledger {
    /// When recording started.
    pub origin: Moment,
    /// When accumulation last restarted.
    pub reset: Moment,
    /// The marks.
    pub interactivity: Interactivity,
    /// The first frame after the restart is still to come.
    pub awaiting_first_pixel: bool,
    /// The first readable image after the restart is still to come.
    pub awaiting_readable: bool,
    /// The last reading.
    pub memory: Memory,
    /// The peaks.
    pub peak_memory: Memory,
    /// Recent plain frame times.
    pub window: Seq<Span>,
    /// How many plain frames.
    pub plain_frames: int,
    /// Their wall-clock.
    pub plain_cpu: int,
    /// Their device time.
    pub plain_gpu: int,
    /// How many attributed frames.
    pub breakdown_frames: int,
    /// Their wall-clock.
    pub breakdown_cpu: int,
    /// Their device time, by kernel.
    pub totals: Timings,
    /// The last attributed frame, at the latest size and sample count.
    pub latest: FrameCost,
    /// The last frame's candidate count.
    pub last_candidates: Option<u32>,
}

impl View for Recorder {
    type V = Ledger;

    closed spec fn view(&self) -> Ledger {
        Ledger {
            origin: self.origin,
            reset: self.reset,
            interactivity: self.interactivity,
            awaiting_first_pixel: self.awaiting_first_pixel,
            awaiting_readable: self.awaiting_readable,
            memory: self.memory,
            peak_memory: self.peak_memory,
            window: self.window@,
            plain_frames: self.plain_frames as int,
            plain_cpu: self.plain_cpu.nanos as int,
            plain_gpu: self.plain_gpu.nanos as int,
            breakdown_frames: self.breakdown_frames as int,
            breakdown_cpu: self.breakdown_cpu.nanos as int,
            totals: self.totals@,
            latest: self.latest@,
            last_candidates: self.last_candidates,
        }
    }
}

/// What a recorder that started at `origin` holds before the first frame.
pub open spec fn blank_ledger(origin: Moment) -> Ledger {
    let nothing = Memory {
        scene: 0,
        film: 0,
        reservoirs: 0,
        textures: 0,
        scratch: 0,
        budget: None,
    };
    Ledger {
        origin,
        reset: origin,
        interactivity: Interactivity {
            to_first_ray: None,
            to_first_pixel: None,
            to_readable: None,
        },
        awaiting_first_pixel: true,
        awaiting_readable: true,
        memory: nothing,
        peak_memory: nothing,
        window: Seq::empty(),
        plain_frames: 0,
        plain_cpu: 0,
        plain_gpu: 0,
        breakdown_frames: 0,
        breakdown_cpu: 0,
        totals: Timings { total: 0, kernels: Seq::empty() },
        latest: no_frame(),
        last_candidates: None,
    }
}

impl Ledger {
    /// The marks after a frame that finished now.
    pub open spec fn marked(self, samples: u32, now: Moment) -> Interactivity {
        Interactivity {
            to_first_ray: match self.interactivity.to_first_ray {
                Some(span) => Some(span),
                None => Some(self.origin.until(now)),
            },
            to_first_pixel: if self.awaiting_first_pixel {
                Some(self.reset.until(now))
            } else {
                self.interactivity.to_first_pixel
            },
            to_readable: if self.awaiting_readable && samples >= READABLE_SAMPLES {
                Some(self.reset.until(now))
            } else {
                self.interactivity.to_readable
            },
        }
    }

    /// The window with one more frame time: the oldest leaves a full one.
    pub open spec fn windowed(self, cpu: Span) -> Seq<Span> {
        (if self.window.len() == WINDOW {
            self.window.drop_first()
        } else {
            self.window
        }).push(cpu)
    }

    /// The state after a frame that finished now.
    pub open spec fn recorded(self, frame: FrameCost, now: Moment) -> Ledger {
        let marked = Ledger {
            interactivity: self.marked(frame.samples, now),
            awaiting_first_pixel: false,
            awaiting_readable: self.awaiting_readable && frame.samples < READABLE_SAMPLES,
            last_candidates: frame.candidates,
            ..self
        };
        if frame.passes.kernels.len() > 0 {
            Ledger {
                breakdown_frames: self.breakdown_frames + 1,
                breakdown_cpu: self.breakdown_cpu + frame.cpu.nanos,
                totals: Timings {
                    total: self.totals.total + frame.passes.total,
                    kernels: kernels_with(
                        self.totals.kernels,
                        frame.passes.kernels,
                        frame.passes.kernels.len() as int,
                    ),
                },
                latest: frame,
                ..marked
            }
        } else {
            Ledger {
                plain_frames: self.plain_frames + 1,
                plain_cpu: self.plain_cpu + frame.cpu.nanos,
                plain_gpu: self.plain_gpu + frame.passes.total,
                window: self.windowed(frame.cpu),
                latest: FrameCost { size: frame.size, samples: frame.samples, ..self.latest },
                ..marked
            }
        }
    }

    /// The state after a restart: the marks of an interaction arm again.
    pub open spec fn restarted(self, now: Moment) -> Ledger {
        Ledger { reset: now, awaiting_first_pixel: true, awaiting_readable: true, ..self }
    }

    /// The state after a memory reading.
    pub open spec fn informed(self, memory: Memory) -> Ledger {
        Ledger { memory, peak_memory: self.peak_memory.raised_to(memory), ..self }
    }

    /// The frame's cost can be added without leaving what can be stated.
    pub open spec fn has_room_for(self, frame: FrameCost) -> bool {
        if frame.passes.kernels.len() > 0 {
            &&& self.breakdown_frames < u64::MAX
            &&& self.breakdown_cpu + frame.cpu.nanos <= LONGEST
            &&& self.totals.total + frame.passes.total <= LONGEST
            &&& foldable(self.totals.kernels, frame.passes.kernels)
        } else {
            &&& self.plain_frames < u64::MAX
            &&& self.plain_cpu + frame.cpu.nanos <= LONGEST
            &&& self.plain_gpu + frame.passes.total <= LONGEST
        }
    }

    /// Wall-clock of every frame.
    pub open spec fn sampling(self) -> int {
        self.plain_cpu + self.breakdown_cpu
    }

    /// Device time of every frame.
    pub open spec fn device(self) -> int {
        self.plain_gpu + self.totals.total
    }

    /// How many frames.
    pub open spec fn frames(self) -> int {
        self.plain_frames + self.breakdown_frames
    }

    /// A snapshot shows what the recorder holds.
    pub open spec fn shown(self, stats: Stats) -> bool {
        &&& stats.frame@ == self.latest
        &&& stats.smoothed == smoothed_of(self.window)
        &&& stats.interactivity == self.interactivity
        &&& stats.memory == self.memory
    }

    /// A report made now sums up what the recorder holds.
    pub open spec fn reported(self, report: Report, now: Moment) -> bool {
        &&& report.size == self.latest.size
        &&& report.samples == self.latest.samples
        &&& report.wall == self.origin.until(now)
        &&& report.sampling.nanos == self.sampling()
        &&& report.gpu.nanos == self.device()
        &&& report.frames == self.frames()
        &&& report.breakdown_frames == self.breakdown_frames
        &&& report.passes@ == self.totals
        &&& report.smoothed == smoothed_of(self.window)
        &&& report.mean_frame.nanos == self.mean()
        &&& report.bound == verdict(self.sampling(), self.device())
        &&& report.interactivity == self.interactivity
        &&& report.peak_memory == self.peak_memory
        &&& report.candidates == self.last_candidates
    }

    /// The mean wall-clock of a plain frame, rounded down.
    pub open spec fn mean(self) -> int {
        let counted = if self.plain_frames > u32::MAX {
            u32::MAX as int
        } else if self.plain_frames < 1 {
            1
        } else {
            self.plain_frames
        };
        self.plain_cpu / counted
    }
}

/// The shorter span comes first.
pub open spec fn by_length() -> spec_fn(Span, Span) -> bool {
    |a: Span, b: Span| a.nanos <= b.nanos
}

/// Entry `at` of the spans in ascending order.
pub open spec fn in_order(spans: Seq<Span>, at: int) -> Span {
    spans.sort_by(by_length())[at]
}

/// The smoothed read of a window: the middle of it, and the 95th hundredth.
pub open spec fn smoothed_of(window: Seq<Span>) -> Smoothed {
    if window.len() == 0 {
        Smoothed { median: Span::zero(), p95: Span::zero() }
    } else {
        Smoothed {
            median: in_order(window, (window.len() - 1) / 2),
            p95: in_order(window, (window.len() - 1) * 95 / 100),
        }
    }
}

/// Length is a total order.
pub proof fn lengths_are_ordered()
    ensures
        vstd::relations::total_ordering(by_length()),
{
}

/// The spans in ascending order.
fn sorted(spans: &VecDeque<Span>) -> (r: Vec<Span>)
    ensures
        r@ == spans@.sort_by(by_length()),
{
    let mut found: Vec<Span> = Vec::new();
    let mut i: usize = 0;
    assert(found@ =~= spans@.take(0));
    while i < spans.len()
        invariant
            i <= spans@.len(),
            found@.len() == i,
            found@.to_multiset() == spans@.take(i as int).to_multiset(),
            vstd::relations::sorted_by(found@, by_length()),
        decreases spans@.len() - i,
    {
        let span = spans[i];
        let mut at: usize = found.len();
        while at > 0 && found[at - 1].nanos > span.nanos
            invariant
                at <= found@.len(),
                vstd::relations::sorted_by(found@, by_length()),
                forall|j: int| at <= j < found@.len() ==> found@[j].nanos > span.nanos,
            decreases at,
        {
            at = at - 1;
        }
        let ghost before = found@;
        found.insert(at, span);
        proof {
            let after = found@;
            assert(after =~= before.insert(at as int, span));
            assert forall|a: int, b: int| 0 <= a < b < after.len() implies #[trigger] by_length()(
                after[a],
                after[b],
            ) by {
                let from = if a < at { a } else { a - 1 };
                let to = if b < at { b } else { b - 1 };
                if a != at && b != at {
                    assert(by_length()(before[from], before[to]));
                } else if b == at {
                    if at > 0 && a < at - 1 {
                        assert(by_length()(before[a], before[at - 1]));
                    }
                }
            }
            assert(spans@.take(i + 1) =~= spans@.take(i as int).push(span));
            vstd::seq_lib::to_multiset_insert(before, at as int, span);
            vstd::seq_lib::to_multiset_build(spans@.take(i as int), span);
        }
        i = i + 1;
    }
    proof {
        assert(spans@.take(spans@.len() as int) =~= spans@);
        lengths_are_ordered();
        spans@.lemma_sort_by_ensures(by_length());
        vstd::seq_lib::lemma_sorted_unique(found@, spans@.sort_by(by_length()), by_length());
    }
    found
}

/// The smoothed read lies within the window, and the hitch is no shorter than
/// the median.
pub proof fn the_hitch_is_no_shorter(window: Seq<Span>)
    requires
        window.len() > 0,
    ensures
        smoothed_of(window).median.nanos <= smoothed_of(window).p95.nanos,
        window.contains(smoothed_of(window).median),
        window.contains(smoothed_of(window).p95),
{
    lengths_are_ordered();
    window.lemma_sort_by_ensures(by_length());
    let list = window.sort_by(by_length());
    window.to_multiset_ensures();
    list.to_multiset_ensures();
    assert(list.len() == window.len());
    let low = (window.len() - 1) / 2;
    let high = (window.len() - 1) * 95 / 100;
    assert(list.contains(list[low]));
    assert(list.contains(list[high]));
    if low < high {
        assert(by_length()(list[low], list[high]));
    }
}

impl Recorder {
    /// Start recording from the marked start of the process, or from now if
    /// nothing marked it.
    pub fn new(marked: &mut Option<Moment>, now: Moment) -> (r: Recorder)
        ensures
            *final(marked) == Some(r@.origin),
            r@ == blank_ledger(
                match *old(marked) {
                    Some(earlier) => earlier,
                    None => now,
                },
            ),
    {
        Recorder::since(startup(marked, now))
    }

    /// Start recording from an explicit origin, for a render whose startup is
    /// not the process's.
    pub fn since(origin: Moment) -> (r: Recorder)
        ensures
            r@ == blank_ledger(origin),
    {
        let r = Recorder {
            origin,
            reset: origin,
            interactivity: Interactivity {
                to_first_ray: None,
                to_first_pixel: None,
                to_readable: None,
            },
            awaiting_first_pixel: true,
            awaiting_readable: true,
            memory: Memory::default(),
            peak_memory: Memory::default(),
            window: VecDeque::with_capacity(WINDOW),
            plain_frames: 0,
            plain_cpu: Span::zero(),
            plain_gpu: Span::zero(),
            breakdown_frames: 0,
            breakdown_cpu: Span::zero(),
            totals: PassTimings::new(),
            latest: Frame::new(),
            last_candidates: None,
        };
        assert(r@ =~= blank_ledger(origin));
        r
    }

    /// Note that accumulation restarted: a camera move, an edit, a resize.
    /// The marks of an interaction arm again from here.
    pub fn restart(&mut self, now: Moment)
        ensures
            final(self)@ == old(self)@.restarted(now),
    {
        self.reset = now;
        self.awaiting_first_pixel = true;
        self.awaiting_readable = true;
    }

    /// Record one finished sample. A frame with no attribution is one that
    /// was only bracketed, which is the common case.
    pub fn record(&mut self, frame: Frame, now: Moment)
        requires
            old(self)@.has_room_for(frame@),
        ensures
            final(self)@ == old(self)@.recorded(frame@, now),
    {
        if self.interactivity.to_first_ray.is_none() {
            self.interactivity.to_first_ray = Some(self.origin.elapsed(now));
        }
        self.last_candidates = frame.candidates;
        if self.awaiting_first_pixel {
            self.interactivity.to_first_pixel = Some(self.reset.elapsed(now));
            self.awaiting_first_pixel = false;
        }
        if self.awaiting_readable && frame.samples >= READABLE_SAMPLES {
            self.interactivity.to_readable = Some(self.reset.elapsed(now));
            self.awaiting_readable = false;
        }
        if frame.passes.has_breakdown() {
            self.breakdown_frames = self.breakdown_frames + 1;
            self.breakdown_cpu = self.breakdown_cpu.plus(frame.cpu);
            self.totals.merge(&frame.passes);
            self.latest = frame;
        } else {
            self.plain_frames = self.plain_frames + 1;
            self.plain_cpu = self.plain_cpu.plus(frame.cpu);
            self.plain_gpu = self.plain_gpu.plus(frame.passes.total());
            if self.window.len() == WINDOW {
                let _ = self.window.pop_front();
            }
            self.window.push_back(frame.cpu);
            self.latest.size = frame.size;
            self.latest.samples = frame.samples;
        }
        assert(self@ =~= old(self)@.recorded(frame@, now));
    }

    /// Adopt a fresh memory reading.
    pub fn memory(&mut self, memory: Memory)
        ensures
            final(self)@ == old(self)@.informed(memory),
    {
        self.memory = memory;
        let peak = self.peak_memory;
        self.peak_memory = Memory {
            scene: greater_of(peak.scene, memory.scene),
            film: greater_of(peak.film, memory.film),
            reservoirs: greater_of(peak.reservoirs, memory.reservoirs),
            textures: greater_of(peak.textures, memory.textures),
            scratch: greater_of(peak.scratch, memory.scratch),
            budget: match memory.budget {
                Some(budget) => Some(budget),
                None => peak.budget,
            },
        };
    }

    /// A snapshot for a consumer.
    pub fn stats(&self) -> (r: Stats)
        ensures
            self@.shown(r),
    {
        Stats {
            frame: self.latest.duplicate(),
            smoothed: self.smoothed(),
            interactivity: self.interactivity,
            memory: self.memory,
        }
    }

    /// The end-of-render summary.
    pub fn report(&self, device: String, scene: String, now: Moment) -> (r: Report)
        requires
            self@.sampling() <= LONGEST,
            self@.device() <= LONGEST,
            self@.frames() <= u64::MAX,
        ensures
            r.device == device,
            r.scene == scene,
            self@.reported(r, now),
    {
        let sampling = self.plain_cpu.plus(self.breakdown_cpu);
        let gpu = self.plain_gpu.plus(self.totals.total());
        let counted: u128 = if self.plain_frames > u32::MAX as u64 {
            u32::MAX as u128
        } else if self.plain_frames < 1 {
            1
        } else {
            self.plain_frames as u128
        };
        Report {
            device,
            scene,
            size: self.latest.size,
            samples: self.latest.samples,
            wall: self.origin.elapsed(now),
            sampling,
            gpu,
            frames: self.plain_frames + self.breakdown_frames,
            breakdown_frames: self.breakdown_frames,
            passes: self.totals.duplicate(),
            smoothed: self.smoothed(),
            mean_frame: Span { nanos: self.plain_cpu.nanos / counted },
            bound: Bound::of(sampling, gpu),
            interactivity: self.interactivity,
            peak_memory: self.peak_memory,
            candidates: self.last_candidates,
        }
    }

    fn smoothed(&self) -> (r: Smoothed)
        ensures
            r == smoothed_of(self@.window),
    {
        if self.window.len() == 0 {
            return Smoothed { median: Span::zero(), p95: Span::zero() };
        }
        let spans = sorted(&self.window);
        proof {
            self.window@.lemma_sort_by_ensures(by_length());
            self.window@.to_multiset_ensures();
            spans@.to_multiset_ensures();
            lengths_are_ordered();
        }
        let last: usize = spans.len() - 1;
        let hitch: usize = (last as u128 * 95 / 100) as usize;
        Smoothed { median: spans[last / 2], p95: spans[hitch] }
    }
}

/// Startup is measured once: from the first frame on, no frame and no restart
/// moves the mark.
pub proof fn startup_is_measured_once(ledger: Ledger, frame: FrameCost, now: Moment, later: Moment)
    ensures
        ledger.recorded(frame, now).interactivity.to_first_ray is Some,
        ledger.interactivity.to_first_ray is Some ==> ledger.recorded(
            frame,
            now,
        ).interactivity.to_first_ray == ledger.interactivity.to_first_ray,
        ledger.restarted(later).interactivity == ledger.interactivity,
{
}

/// The four phases that a build spends its time in, and what went before.
#[derive(Clone, Copy, Debug, PartialEq, Eq, Structural)]
pub struct Phases {
    /// Process start to the build.
    pub before: Span,
    /// Lowering the description.
    pub lower: Span,
    /// Uploading geometry, textures and the environment.
    pub upload: Span,
    /// Building the acceleration structure over the instances.
    pub tlas: Span,
    /// Building the tables.
    pub tables: Span,
}

/// The phases of a build, from the moments at their shared boundaries: each
/// ends where the next begins.
pub fn phases(
    lowering: Moment,
    uploading: Moment,
    building: Moment,
    tabling: Moment,
    now: Moment,
) -> (r: Phases)
    ensures
        r == (Phases {
            before: Span::zero(),
            lower: lowering.until(uploading),
            upload: uploading.until(building),
            tlas: building.until(tabling),
            tables: tabling.until(now),
        }),
        lowering.nanos <= uploading.nanos <= building.nanos <= tabling.nanos <= now.nanos
            ==> r.lower.nanos + r.upload.nanos + r.tlas.nanos + r.tables.nanos == now.nanos
            - lowering.nanos,
{
    Phases {
        before: Span::zero(),
        lower: lowering.elapsed(uploading),
        upload: uploading.elapsed(building),
        tlas: building.elapsed(tabling),
        tables: tabling.elapsed(now),
    }
}

} // verus!
