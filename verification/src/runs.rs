//! What holds of a whole run of measuring: of every span that was attributed,
//! and of every frame, restart and memory reading that was recorded.

use vstd::prelude::*;

use crate::stats;
use crate::stats::{
    FrameCost, Kernel, Ledger, Memory, Moment, Report, Smoothed, Span, Stats, Timings,
    READABLE_SAMPLES, WINDOW,
};

verus! {

// -- Attribution ---------------------------------------------------------------------

/// A measurement after the first `n` spans were attributed.
pub open spec fn after_adds(start: Timings, adds: Seq<Kernel>, n: int) -> Timings
    decreases n,
{
    if n <= 0 {
        start
    } else {
        let before = after_adds(start, adds, n - 1);
        let add = adds[n - 1];
        Timings {
            total: before.total,
            kernels: stats::attributed(before.kernels, add.label, add.gpu, add.calls),
        }
    }
}

/// The labels of the first `n` spans, each once, in the order they first came.
pub open spec fn first_labels(adds: Seq<Kernel>, n: int) -> Seq<Seq<char>>
    decreases n,
{
    if n <= 0 {
        Seq::empty()
    } else {
        let before = first_labels(adds, n - 1);
        if before.contains(adds[n - 1].label) {
            before
        } else {
            before.push(adds[n - 1].label)
        }
    }
}

/// The time of the first `n` spans, as far as it is the label's.
pub open spec fn time_under(adds: Seq<Kernel>, label: Seq<char>, n: int) -> int
    decreases n,
{
    if n <= 0 {
        0
    } else if adds[n - 1].label == label {
        time_under(adds, label, n - 1) + adds[n - 1].gpu
    } else {
        time_under(adds, label, n - 1)
    }
}

/// The calls of the first `n` spans, as far as they are the label's.
pub open spec fn calls_under(adds: Seq<Kernel>, label: Seq<char>, n: int) -> int
    decreases n,
{
    if n <= 0 {
        0
    } else if adds[n - 1].label == label {
        calls_under(adds, label, n - 1) + adds[n - 1].calls
    } else {
        calls_under(adds, label, n - 1)
    }
}

/// A label that did not come has no time and no calls.
proof fn strangers_have_nothing(adds: Seq<Kernel>, label: Seq<char>, n: int)
    requires
        0 <= n <= adds.len(),
        !first_labels(adds, n).contains(label),
    ensures
        time_under(adds, label, n) == 0,
        calls_under(adds, label, n) == 0,
    decreases n,
{
    if n > 0 {
        let before = first_labels(adds, n - 1);
        let last = adds[n - 1].label;
        if before.contains(label) {
            let i = before.index_of(label);
            assert(first_labels(adds, n)[i] == label);
        }
        if last == label && !before.contains(last) {
            assert(first_labels(adds, n)[before.len() as int] == label);
        }
        strangers_have_nothing(adds, label, n - 1);
    }
}

/// However many spans are attributed to a measurement, its total stays; each
/// label has one entry, in the order the labels first came, with the sums of
/// the label's own spans; and there is a breakdown as soon as there is a span.
pub proof fn spans_add_up_by_label(total: int, adds: Seq<Kernel>, n: int)
    requires
        0 <= n <= adds.len(),
    ensures
        ({
            let after = after_adds(Timings { total, kernels: Seq::empty() }, adds, n);
            &&& after.total == total
            &&& stats::one_entry_each(after.kernels)
            &&& after.kernels.map_values(|entry: Kernel| entry.label) == first_labels(adds, n)
            &&& forall|i: int|
                0 <= i < after.kernels.len() ==> {
                    let entry = #[trigger] after.kernels[i];
                    entry.gpu == time_under(adds, entry.label, n) && entry.calls == calls_under(
                        adds,
                        entry.label,
                        n,
                    )
                }
            &&& forall|k: int|
                0 <= k < n ==> first_labels(adds, n).contains((#[trigger] adds[k]).label)
            &&& after.kernels.len() > 0 <==> n > 0
        }),
    decreases n,
{
    let start = Timings { total, kernels: Seq::empty() };
    let after = after_adds(start, adds, n);
    if n > 0 {
        spans_add_up_by_label(total, adds, n - 1);
        let before = after_adds(start, adds, n - 1);
        let labels = first_labels(adds, n - 1);
        let add = adds[n - 1];
        let at = stats::find_label(before.kernels, add.label, 0);
        stats::find_label_finds(before.kernels, add.label, 0);
        stats::dispatches_fold_into_one_entry(before.kernels, add.label, add.gpu, add.calls);
        assert(labels.len() == before.kernels.len());
        assert forall|i: int| 0 <= i < labels.len() implies labels[i] == (
        #[trigger] before.kernels[i]).label by {
            assert(before.kernels.map_values(|entry: Kernel| entry.label)[i]
                == before.kernels[i].label);
        }
        if at < before.kernels.len() {
            assert(labels[at] == add.label);
            assert(labels.contains(add.label));
        } else {
            if labels.contains(add.label) {
                let i = labels.index_of(add.label);
                assert(before.kernels[i].label == add.label);
            }
            strangers_have_nothing(adds, add.label, n - 1);
        }
        assert(after.kernels.map_values(|entry: Kernel| entry.label) =~= first_labels(adds, n));
        assert forall|i: int| 0 <= i < after.kernels.len() implies ({
            let entry = #[trigger] after.kernels[i];
            entry.gpu == time_under(adds, entry.label, n) && entry.calls == calls_under(
                adds,
                entry.label,
                n,
            )
        }) by {
            if i < before.kernels.len() {
                assert(before.kernels[i].label == after.kernels[i].label);
                if i != at && at < before.kernels.len() {
                    assert(before.kernels[at].label != before.kernels[i].label);
                }
            }
        }
        assert forall|k: int| 0 <= k < n implies first_labels(adds, n).contains(
            (#[trigger] adds[k]).label,
        ) by {
            if k < n - 1 {
                assert(labels.contains(adds[k].label));
                let i = labels.index_of(adds[k].label);
                assert(first_labels(adds, n)[i] == adds[k].label);
            } else if !labels.contains(add.label) {
                assert(first_labels(adds, n)[labels.len() as int] == add.label);
            }
        }
    } else {
        assert(after.kernels.map_values(|entry: Kernel| entry.label) =~= first_labels(adds, n));
    }
}

// -- Recording -----------------------------------------------------------------------

/// One thing that a recorder is told.
pub enum Event {
    /// A sample finished at this moment.
    Recorded(FrameCost, Moment),
    /// Accumulation restarted at this moment.
    Restarted(Moment),
    /// Memory was read.
    Informed(Memory),
}

/// What a recorder holds once it was told.
pub open spec fn told(ledger: Ledger, event: Event) -> Ledger {
    match event {
        Event::Recorded(frame, now) => ledger.recorded(frame, now),
        Event::Restarted(now) => ledger.restarted(now),
        Event::Informed(memory) => ledger.informed(memory),
    }
}

/// What a recorder that started at `origin` holds after the first `n` events.
pub open spec fn ledger_after(origin: Moment, events: Seq<Event>, n: int) -> Ledger
    decreases n,
{
    if n <= 0 {
        stats::blank_ledger(origin)
    } else {
        told(ledger_after(origin, events, n - 1), events[n - 1])
    }
}

/// The frames among the first `n` events.
pub open spec fn frames_in(events: Seq<Event>, n: int) -> Seq<FrameCost>
    decreases n,
{
    if n <= 0 {
        Seq::empty()
    } else {
        match events[n - 1] {
            Event::Recorded(frame, _) => frames_in(events, n - 1).push(frame),
            _ => frames_in(events, n - 1),
        }
    }
}

/// The memory readings among the first `n` events.
pub open spec fn readings_in(events: Seq<Event>, n: int) -> Seq<Memory>
    decreases n,
{
    if n <= 0 {
        Seq::empty()
    } else {
        match events[n - 1] {
            Event::Informed(memory) => readings_in(events, n - 1).push(memory),
            _ => readings_in(events, n - 1),
        }
    }
}

/// The frame has an attribution.
pub open spec fn broken_down(frame: FrameCost) -> bool {
    frame.passes.kernels.len() > 0
}

/// The wall-clock of frames.
pub open spec fn wall_of(frames: Seq<FrameCost>) -> int
    decreases frames.len(),
{
    if frames.len() == 0 {
        0
    } else {
        wall_of(frames.drop_last()) + frames.last().cpu.nanos
    }
}

/// The device time of frames.
pub open spec fn device_of(frames: Seq<FrameCost>) -> int
    decreases frames.len(),
{
    if frames.len() == 0 {
        0
    } else {
        device_of(frames.drop_last()) + frames.last().passes.total
    }
}

/// The frames that have an attribution, or those that have none.
pub open spec fn apart(frames: Seq<FrameCost>, attributed: bool) -> Seq<FrameCost>
    decreases frames.len(),
{
    if frames.len() == 0 {
        Seq::empty()
    } else if broken_down(frames.last()) == attributed {
        apart(frames.drop_last(), attributed).push(frames.last())
    } else {
        apart(frames.drop_last(), attributed)
    }
}

/// The kernels of frames, folded together in order.
pub open spec fn kernels_of(frames: Seq<FrameCost>) -> Seq<Kernel>
    decreases frames.len(),
{
    if frames.len() == 0 {
        Seq::empty()
    } else {
        let kernels = frames.last().passes.kernels;
        stats::kernels_with(kernels_of(frames.drop_last()), kernels, kernels.len() as int)
    }
}

/// A report covers the whole run, whatever restarts and memory readings came
/// between: every frame with its wall-clock and device time, the frames with an
/// attribution with theirs, and the mean of the frames without. Size, samples
/// and candidates are those of the last frame.
pub proof fn reports_cover_the_run(
    origin: Moment,
    events: Seq<Event>,
    n: int,
    report: Report,
    now: Moment,
)
    requires
        0 <= n <= events.len(),
        ledger_after(origin, events, n).reported(report, now),
    ensures
        ({
            let frames = frames_in(events, n);
            let attributed = apart(frames, true);
            let plain = apart(frames, false);
            &&& report.frames == frames.len()
            &&& attributed.len() + plain.len() == frames.len()
            &&& report.breakdown_frames == attributed.len()
            &&& report.sampling.nanos == wall_of(frames)
            &&& report.gpu.nanos == device_of(frames)
            &&& report.passes@.total == device_of(attributed)
            &&& report.passes@.kernels == kernels_of(attributed)
            &&& report.bound == stats::verdict(wall_of(frames), device_of(frames))
            &&& frames.len() <= u32::MAX ==> report.mean_frame.nanos == wall_of(plain) / (
            if plain.len() > 0 {
                plain.len() as int
            } else {
                1
            })
            &&& frames.len() > 0 ==> report.size == frames.last().size && report.samples
                == frames.last().samples && report.candidates == frames.last().candidates
            &&& report.wall == origin.until(now)
        }),
{
    accounts_are_kept_apart(origin, events, n);
}

/// Frames with and without an attribution are accounted apart.
proof fn accounts_are_kept_apart(origin: Moment, events: Seq<Event>, n: int)
    requires
        0 <= n <= events.len(),
    ensures
        ({
            let ledger = ledger_after(origin, events, n);
            let frames = frames_in(events, n);
            let attributed = apart(frames, true);
            let plain = apart(frames, false);
            &&& attributed.len() + plain.len() == frames.len()
            &&& ledger.breakdown_frames == attributed.len()
            &&& ledger.plain_frames == plain.len()
            &&& ledger.plain_cpu == wall_of(plain)
            &&& ledger.plain_gpu == device_of(plain)
            &&& ledger.breakdown_cpu == wall_of(attributed)
            &&& ledger.totals.total == device_of(attributed)
            &&& ledger.totals.kernels == kernels_of(attributed)
            &&& wall_of(plain) + wall_of(attributed) == wall_of(frames)
            &&& device_of(plain) + device_of(attributed) == device_of(frames)
            &&& frames.len() > 0 ==> ledger.latest.size == frames.last().size
                && ledger.latest.samples == frames.last().samples && ledger.last_candidates
                == frames.last().candidates
            &&& ledger.origin == origin
        }),
    decreases n,
{
    if n > 0 {
        accounts_are_kept_apart(origin, events, n - 1);
        let earlier = frames_in(events, n - 1);
        if let Event::Recorded(frame, _) = events[n - 1] {
            let frames = frames_in(events, n);
            assert(frames.drop_last() =~= earlier);
            assert(frames.last() == frame);
            assert(apart(earlier, true).push(frame).drop_last() =~= apart(earlier, true));
            assert(apart(earlier, false).push(frame).drop_last() =~= apart(earlier, false));
        }
    }
}

/// The wall-clock times of frames.
pub open spec fn times_of(frames: Seq<FrameCost>) -> Seq<Span> {
    frames.map_values(|frame: FrameCost| frame.cpu)
}

/// The last of some times, as many as a window keeps.
pub open spec fn last_times(times: Seq<Span>) -> Seq<Span> {
    if times.len() <= WINDOW {
        times
    } else {
        times.skip(times.len() - WINDOW)
    }
}

/// The smoothed read ranks the last frames without an attribution, as many as
/// a window keeps: with them in ascending order, the median is the one in the
/// middle and the hitch the one at ninety-five hundredths. Both are times that
/// were recorded, and the hitch is no shorter.
pub proof fn the_smoothed_read_ranks_recent_frames(
    origin: Moment,
    events: Seq<Event>,
    n: int,
    shown: Stats,
)
    requires
        0 <= n <= events.len(),
        ledger_after(origin, events, n).shown(shown),
    ensures
        ({
            let window = last_times(times_of(apart(frames_in(events, n), false)));
            let read = shown.smoothed;
            let ranked = window.sort_by(stats::by_length());
            &&& window.len() == 0 ==> read == (Smoothed { median: Span::zero(), p95: Span::zero() })
            &&& window.len() > 0 ==> {
                &&& ranked.len() == window.len()
                &&& ranked.to_multiset() == window.to_multiset()
                &&& forall|i: int, j: int|
                    0 <= i <= j < ranked.len() ==> ranked[i].nanos <= ranked[j].nanos
                &&& read.median == ranked[(window.len() - 1) / 2]
                &&& read.p95 == ranked[(window.len() - 1) * 95 / 100]
                &&& read.median.nanos <= read.p95.nanos
                &&& window.contains(read.median)
                &&& window.contains(read.p95)
            }
        }),
{
    the_window_holds_recent_frames(origin, events, n);
    let window = last_times(times_of(apart(frames_in(events, n), false)));
    if window.len() > 0 {
        stats::the_hitch_is_no_shorter(window);
        stats::lengths_are_ordered();
        window.lemma_sort_by_ensures(stats::by_length());
        let ranked = window.sort_by(stats::by_length());
        window.to_multiset_ensures();
        ranked.to_multiset_ensures();
        assert forall|i: int, j: int| 0 <= i <= j < ranked.len() implies ranked[i].nanos
            <= ranked[j].nanos by {
            if i < j {
                assert(stats::by_length()(ranked[i], ranked[j]));
            }
        }
    }
}

/// The window holds the times of the last frames without an attribution.
proof fn the_window_holds_recent_frames(origin: Moment, events: Seq<Event>, n: int)
    requires
        0 <= n <= events.len(),
    ensures
        ledger_after(origin, events, n).window == last_times(
            times_of(apart(frames_in(events, n), false)),
        ),
    decreases n,
{
    let after = ledger_after(origin, events, n).window;
    let times = times_of(apart(frames_in(events, n), false));
    if n > 0 {
        the_window_holds_recent_frames(origin, events, n - 1);
        let earlier = frames_in(events, n - 1);
        let before = times_of(apart(earlier, false));
        if let Event::Recorded(frame, _) = events[n - 1] {
            let frames = frames_in(events, n);
            assert(frames.drop_last() =~= earlier);
            assert(frames.last() == frame);
            if !broken_down(frame) {
                assert(times =~= before.push(frame.cpu));
            }
        }
    }
    assert(after =~= last_times(times));
}

// -- Memory --------------------------------------------------------------------------

/// The size is the greatest of some, and none where there are none.
pub open spec fn greatest(size: u64, sizes: Seq<u64>) -> bool {
    &&& forall|i: int| 0 <= i < sizes.len() ==> #[trigger] sizes[i] <= size
    &&& if sizes.len() == 0 {
        size == 0
    } else {
        sizes.contains(size)
    }
}

/// The last budget that was known.
pub open spec fn last_budget(readings: Seq<Memory>) -> Option<u64>
    decreases readings.len(),
{
    if readings.len() == 0 {
        None
    } else if readings.last().budget is Some {
        readings.last().budget
    } else {
        last_budget(readings.drop_last())
    }
}

proof fn a_peak_is_raised(peak: u64, sizes: Seq<u64>, size: u64)
    requires
        greatest(peak, sizes),
    ensures
        greatest(stats::greater(peak, size), sizes.push(size)),
{
    let after = sizes.push(size);
    assert(after[sizes.len() as int] == size);
    if peak > size || sizes.len() > 0 {
        if sizes.contains(peak) {
            let i = sizes.index_of(peak);
            assert(after[i] == peak);
        }
    }
}

/// Every reading is kept in the peaks.
proof fn readings_are_kept(origin: Moment, events: Seq<Event>, n: int)
    requires
        0 <= n <= events.len(),
    ensures
        ({
            let ledger = ledger_after(origin, events, n);
            let readings = readings_in(events, n);
            let peak = ledger.peak_memory;
            &&& readings.len() > 0 ==> ledger.memory == readings.last()
            &&& greatest(peak.scene, readings.map_values(|reading: Memory| reading.scene))
            &&& greatest(peak.film, readings.map_values(|reading: Memory| reading.film))
            &&& greatest(
                peak.reservoirs,
                readings.map_values(|reading: Memory| reading.reservoirs),
            )
            &&& greatest(peak.textures, readings.map_values(|reading: Memory| reading.textures))
            &&& greatest(peak.scratch, readings.map_values(|reading: Memory| reading.scratch))
            &&& peak.budget == last_budget(readings)
        }),
    decreases n,
{
    if n > 0 {
        readings_are_kept(origin, events, n - 1);
        let before = readings_in(events, n - 1);
        let peak = ledger_after(origin, events, n - 1).peak_memory;
        if let Event::Informed(memory) = events[n - 1] {
            let after = readings_in(events, n);
            assert(after.drop_last() =~= before);
            let scene = |reading: Memory| reading.scene;
            let film = |reading: Memory| reading.film;
            let reservoirs = |reading: Memory| reading.reservoirs;
            let textures = |reading: Memory| reading.textures;
            let scratch = |reading: Memory| reading.scratch;
            a_peak_is_raised(peak.scene, before.map_values(scene), memory.scene);
            a_peak_is_raised(peak.film, before.map_values(film), memory.film);
            a_peak_is_raised(peak.reservoirs, before.map_values(reservoirs), memory.reservoirs);
            a_peak_is_raised(peak.textures, before.map_values(textures), memory.textures);
            a_peak_is_raised(peak.scratch, before.map_values(scratch), memory.scratch);
            assert(after.map_values(scene) =~= before.map_values(scene).push(memory.scene));
            assert(after.map_values(film) =~= before.map_values(film).push(memory.film));
            assert(after.map_values(reservoirs) =~= before.map_values(reservoirs).push(
                memory.reservoirs,
            ));
            assert(after.map_values(textures) =~= before.map_values(textures).push(
                memory.textures,
            ));
            assert(after.map_values(scratch) =~= before.map_values(scratch).push(memory.scratch));
        }
    }
}

/// After any number of memory readings, whatever was recorded between them, the
/// reading that is shown is the last one; each bucket's peak in a report is the
/// greatest that was read of that bucket, and the budget the last one that was
/// known.
pub proof fn peaks_are_the_greatest_readings(
    origin: Moment,
    events: Seq<Event>,
    n: int,
    shown: Stats,
    report: Report,
    now: Moment,
)
    requires
        0 <= n <= events.len(),
        ledger_after(origin, events, n).shown(shown),
        ledger_after(origin, events, n).reported(report, now),
    ensures
        ({
            let readings = readings_in(events, n);
            let peak = report.peak_memory;
            &&& readings.len() > 0 ==> shown.memory == readings.last()
            &&& greatest(peak.scene, readings.map_values(|reading: Memory| reading.scene))
            &&& greatest(peak.film, readings.map_values(|reading: Memory| reading.film))
            &&& greatest(
                peak.reservoirs,
                readings.map_values(|reading: Memory| reading.reservoirs),
            )
            &&& greatest(peak.textures, readings.map_values(|reading: Memory| reading.textures))
            &&& greatest(peak.scratch, readings.map_values(|reading: Memory| reading.scratch))
            &&& peak.budget == last_budget(readings)
        }),
{
    readings_are_kept(origin, events, n);
}

// -- Marks ---------------------------------------------------------------------------

/// Since recording started or accumulation last restarted, no frame among the
/// first `n` events reached this many samples.
pub open spec fn none_yet(events: Seq<Event>, n: int, samples: u32) -> bool
    decreases n,
{
    if n <= 0 {
        true
    } else {
        match events[n - 1] {
            Event::Restarted(_) => true,
            Event::Recorded(frame, _) => frame.samples < samples && none_yet(
                events,
                n - 1,
                samples,
            ),
            Event::Informed(_) => none_yet(events, n - 1, samples),
        }
    }
}

/// When accumulation last restarted, or recording started.
pub open spec fn last_restart(origin: Moment, events: Seq<Event>, n: int) -> Moment
    decreases n,
{
    if n <= 0 {
        origin
    } else {
        match events[n - 1] {
            Event::Restarted(now) => now,
            _ => last_restart(origin, events, n - 1),
        }
    }
}

/// Since recording started or accumulation last restarted, there is no frame
/// among the first `n` events.
pub open spec fn no_frame_yet(events: Seq<Event>, n: int) -> bool
    decreases n,
{
    if n <= 0 {
        true
    } else {
        match events[n - 1] {
            Event::Restarted(_) => true,
            Event::Recorded(_, _) => false,
            Event::Informed(_) => no_frame_yet(events, n - 1),
        }
    }
}

/// What a recorder waits for.
proof fn marks_are_armed(origin: Moment, events: Seq<Event>, n: int)
    requires
        0 <= n <= events.len(),
    ensures
        ({
            let ledger = ledger_after(origin, events, n);
            &&& ledger.origin == origin
            &&& ledger.reset == last_restart(origin, events, n)
            &&& ledger.awaiting_first_pixel == no_frame_yet(events, n)
            &&& ledger.awaiting_readable == none_yet(events, n, READABLE_SAMPLES)
            &&& ledger.interactivity.to_first_ray is Some == (frames_in(events, n).len() > 0)
        }),
    decreases n,
{
    if n > 0 {
        marks_are_armed(origin, events, n - 1);
    }
}

/// At event `n` of a run: the mark of the first ray is set by the first frame,
/// from the start, and by nothing else; the mark of the first pixel is set by
/// the first frame after the start or a restart, and the mark of the readable
/// image by the first frame with enough samples, from there; nothing else
/// changes them. So a mark that was set is never lost.
pub proof fn marks_change_only_where_they_are_due(origin: Moment, events: Seq<Event>, n: int)
    requires
        0 <= n < events.len(),
    ensures
        ({
            let before = ledger_after(origin, events, n).interactivity;
            let after = ledger_after(origin, events, n + 1).interactivity;
            let since = last_restart(origin, events, n);
            &&& before.to_first_ray is Some == (frames_in(events, n).len() > 0)
            &&& match events[n] {
                Event::Recorded(frame, now) => {
                    &&& after.to_first_ray == (if frames_in(events, n).len() == 0 {
                        Some(origin.until(now))
                    } else {
                        before.to_first_ray
                    })
                    &&& after.to_first_pixel == (if no_frame_yet(events, n) {
                        Some(since.until(now))
                    } else {
                        before.to_first_pixel
                    })
                    &&& after.to_readable == (if frame.samples >= READABLE_SAMPLES && none_yet(
                        events,
                        n,
                        READABLE_SAMPLES,
                    ) {
                        Some(since.until(now))
                    } else {
                        before.to_readable
                    })
                },
                _ => after == before,
            }
            &&& before.to_first_ray is Some ==> after.to_first_ray == before.to_first_ray
            &&& before.to_first_pixel is Some ==> after.to_first_pixel is Some
            &&& before.to_readable is Some ==> after.to_readable is Some
        }),
{
    marks_are_armed(origin, events, n);
}

} // verus!
