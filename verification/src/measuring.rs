//! What the smoothed read of a window of frames says of the frames in it.

use vstd::multiset::Multiset;
use vstd::prelude::*;

use crate::stats;
use crate::stats::{Ledger, Moment, Report, Span, Stats};

verus! {

/// How many spans are shorter.
pub open spec fn shorter(window: Seq<Span>, than: Span) -> nat {
    window.to_multiset().filter(|span: Span| span.nanos < than.nanos).len()
}

/// How many spans are longer.
pub open spec fn longer(window: Seq<Span>, than: Span) -> nat {
    window.to_multiset().filter(|span: Span| span.nanos > than.nanos).len()
}

/// The median has no more than half of the frames on either side. At most a twentieth of
/// them, to the frame, is longer than the 95th hundredth, and at most nineteen
/// twentieths are shorter. Both are frames of the window.
pub proof fn smoothed_reads_part_the_window(window: Seq<Span>)
    requires
        window.len() > 0,
    ensures
        ({
            let n = window.len() as int;
            let median = stats::smoothed_of(window).median;
            let high = stats::smoothed_of(window).p95;
            &&& window.contains(median) && window.contains(high)
            &&& 2 * shorter(window, median) <= n - 1
            &&& 2 * longer(window, median) <= n
            &&& 100 * shorter(window, high) <= 95 * (n - 1)
            &&& 100 * longer(window, high) <= 5 * (n - 1) + 99
        }),
{
    stats::the_hitch_is_no_shorter(window);
    let n = window.len() as int;
    entries_part_the_window(window, (n - 1) / 2);
    entries_part_the_window(window, (n - 1) * 95 / 100);
}

/// The mean of the frames without an attribution is what they took, shared among them, and
/// rounded down; and what none took is nothing.
pub proof fn means_share_what_frames_took(ledger: Ledger)
    requires
        0 <= ledger.plain_frames <= u32::MAX,
        0 <= ledger.plain_cpu,
        ledger.plain_frames == 0 ==> ledger.plain_cpu == 0,
    ensures
        ledger.plain_frames > 0 ==> ledger.mean() * ledger.plain_frames <= ledger.plain_cpu < (
        ledger.mean() + 1) * ledger.plain_frames,
        ledger.plain_frames == 0 ==> ledger.mean() == 0,
{
    if ledger.plain_frames > 0 {
        let (n, d) = (ledger.plain_cpu, ledger.plain_frames);
        vstd::arithmetic::div_mod::lemma_fundamental_div_mod(n, d);
        assert((n / d) * d <= n < (n / d + 1) * d) by (nonlinear_arith)
            requires
                n == d * (n / d) + n % d,
                0 <= n % d < d,
        ;
    }
}

/// A snapshot shows the frame that the ledger shows, its marks and its last reading, and
/// its smoothed read parts the ledger's whole window.
pub proof fn snapshots_show_the_ledger(ledger: Ledger, stats: Stats)
    requires
        ledger.shown(stats),
        ledger.window.len() > 0,
    ensures
        stats.frame@ == ledger.latest,
        stats.interactivity == ledger.interactivity,
        stats.memory == ledger.memory,
        ledger.window.contains(stats.smoothed.median),
        2 * shorter(ledger.window, stats.smoothed.median) <= ledger.window.len() - 1,
        2 * longer(ledger.window, stats.smoothed.median) <= ledger.window.len(),
        100 * shorter(ledger.window, stats.smoothed.p95) <= 95 * (ledger.window.len() - 1),
        100 * longer(ledger.window, stats.smoothed.p95) <= 5 * (ledger.window.len() - 1) + 99,
{
    smoothed_reads_part_the_window(ledger.window);
}

/// A report sums up every frame, those with an attribution and those without: how many there
/// were, what they took of the host and of the device, and who held them up. It says
/// how long ago the ledger was opened.
pub proof fn reports_sum_up_every_frame(ledger: Ledger, report: Report, now: Moment)
    requires
        ledger.reported(report, now),
        0 <= ledger.plain_cpu && 0 <= ledger.breakdown_cpu,
        0 <= ledger.plain_gpu && 0 <= ledger.totals.total,
    ensures
        report.frames == ledger.plain_frames + ledger.breakdown_frames,
        report.breakdown_frames == ledger.breakdown_frames,
        report.sampling.nanos == ledger.plain_cpu + ledger.breakdown_cpu,
        report.gpu.nanos == ledger.plain_gpu + ledger.totals.total,
        report.passes@ == ledger.totals,
        report.bound is Gpu == (report.sampling.nanos > 0 && report.gpu.nanos > 0 && 10
            * report.gpu.nanos >= 9 * report.sampling.nanos),
        report.bound is Cpu == (report.sampling.nanos > 0 && report.gpu.nanos > 0 && 10
            * report.gpu.nanos < 9 * report.sampling.nanos),
        ledger.origin.nanos <= now.nanos ==> report.wall.nanos == now.nanos - ledger.origin.nanos,
        report.size == ledger.latest.size && report.samples == ledger.latest.samples,
        report.mean_frame.nanos == ledger.mean(),
        report.interactivity == ledger.interactivity,
        report.peak_memory == ledger.peak_memory,
        report.candidates == ledger.last_candidates,
        ledger.window.len() > 0 ==> ledger.window.contains(report.smoothed.median) && 2 * shorter(
            ledger.window,
            report.smoothed.median,
        ) <= ledger.window.len() - 1 && 100 * longer(ledger.window, report.smoothed.p95) <= 5 * (
        ledger.window.len() - 1) + 99,
{
    if ledger.window.len() > 0 {
        smoothed_reads_part_the_window(ledger.window);
    }
}

/// An entry in ascending order has no more shorter ones than go before it, and no more
/// longer ones than come behind.
proof fn entries_part_the_window(window: Seq<Span>, at: int)
    requires
        0 <= at < window.len(),
    ensures
        shorter(window, stats::in_order(window, at)) <= at,
        longer(window, stats::in_order(window, at)) <= window.len() - 1 - at,
{
    broadcast use vstd::multiset::group_multiset_axioms;

    stats::lengths_are_ordered();
    window.lemma_sort_by_ensures(stats::by_length());
    let list = window.sort_by(stats::by_length());
    window.to_multiset_ensures();
    list.to_multiset_ensures();
    assert(list.len() == window.len());
    let one = list[at];
    let all = list.to_multiset();
    let front = list.take(at);
    let rest = list.skip(at);
    let head = list.take(at + 1);
    let tail = list.skip(at + 1);
    assert(list == front + rest);
    assert(list == head + tail);
    vstd::seq_lib::lemma_multiset_commutative(front, rest);
    vstd::seq_lib::lemma_multiset_commutative(head, tail);
    front.to_multiset_ensures();
    rest.to_multiset_ensures();
    head.to_multiset_ensures();
    tail.to_multiset_ensures();
    let less = all.filter(|span: Span| span.nanos < one.nanos);
    let more = all.filter(|span: Span| span.nanos > one.nanos);
    assert forall|span: Span| less.count(span) <= #[trigger] front.to_multiset().count(span) by {
        if span.nanos < one.nanos && rest.contains(span) {
            let k = rest.index_of(span);
            assert(list[at + k] == span);
            if k > 0 {
                assert(stats::by_length()(list[at], list[at + k]));
            }
        }
    }
    assert forall|span: Span| more.count(span) <= #[trigger] tail.to_multiset().count(span) by {
        if span.nanos > one.nanos && head.contains(span) {
            let k = head.index_of(span);
            assert(list[k] == span);
            if k < at {
                assert(stats::by_length()(list[k], list[at]));
            }
        }
    }
    parts_are_no_larger(less, front.to_multiset());
    parts_are_no_larger(more, tail.to_multiset());
}

/// What is in another as often or more is no larger.
proof fn parts_are_no_larger(part: Multiset<Span>, whole: Multiset<Span>)
    requires
        forall|span: Span| part.count(span) <= #[trigger] whole.count(span),
    ensures
        part.len() <= whole.len(),
{
    broadcast use vstd::multiset::group_multiset_axioms;

    assert(part.add(whole.sub(part)) =~= whole);
}

} // verus!
