use cenote::stats::{
    Bound, Frame, Memory, Moment, PassTimings, READABLE_SAMPLES, Recorder, Span, mark_startup,
    phases, startup,
};

/// A breakdown as the timer builds one: the outer boundaries give the total,
/// the spans attribute it.
fn breakdown(spans: &[(&str, u64)]) -> PassTimings {
    let total = spans.iter().map(|&(_, micros)| micros).sum();
    let mut timings = PassTimings::measured(Span::from_micros(total));
    for &(label, micros) in spans {
        timings.add(label, Span::from_micros(micros), 1);
    }
    timings
}

fn sample(millis: u64, passes: PassTimings, samples: u32) -> Frame {
    Frame {
        cpu: Span::from_millis(millis),
        passes,
        size: (8, 8),
        samples,
        candidates: None,
    }
}

fn at(millis: u64) -> Moment {
    Moment { nanos: u128::from(millis) * 1_000_000 }
}

fn recorder() -> Recorder {
    Recorder::new(&mut None, at(0))
}

#[test]
fn repeated_dispatches_fold_into_one_entry() {
    let timings = breakdown(&[("intersect", 100), ("shade_surface", 300), ("intersect", 50)]);
    let entries: Vec<_> = timings.iter().iter().collect();
    assert_eq!(entries.len(), 2, "two distinct kernels, two entries");
    assert_eq!(entries[0].label, "intersect", "first-run order is kept");
    assert_eq!(entries[0].gpu, Span::from_micros(150));
    assert_eq!(entries[0].calls, 2);
    assert_eq!(timings.total(), Span::from_micros(450));
}

#[test]
fn a_total_without_a_breakdown_is_still_a_measurement() {
    let timings = PassTimings::measured(Span::from_micros(1500));
    assert_eq!(timings.total(), Span::from_micros(1500));
    assert!(!timings.has_breakdown());
    assert_eq!(timings.iter().iter().count(), 0);

    let mut totals = breakdown(&[("intersect", 500)]);
    totals.merge(&timings);
    assert_eq!(totals.total(), Span::from_millis(2));
    assert_eq!(totals.iter().iter().count(), 1, "an unattributed total names nothing");
}

#[test]
fn a_frame_the_dispatches_do_not_account_for_is_cpu_bound() {
    let frame = Frame {
        cpu: Span::from_millis(10),
        passes: breakdown(&[("intersect", 1000)]),
        size: (64, 64),
        samples: 1,
        candidates: None,
    };
    assert_eq!(frame.bound(), Bound::Cpu);
    assert_eq!(frame.gpu(), Span::from_millis(1));

    let frame = Frame {
        cpu: Span::from_millis(10),
        passes: breakdown(&[("intersect", 9800)]),
        ..frame
    };
    assert_eq!(frame.bound(), Bound::Gpu);

    let frame = Frame {
        cpu: Span::from_millis(10),
        passes: PassTimings::new(),
        size: (64, 64),
        samples: 1,
        candidates: None,
    };
    assert_eq!(frame.bound(), Bound::Unknown);
}

#[test]
fn nine_tenths_of_the_frame_is_the_line() {
    let ten = Span::from_millis(10);
    assert_eq!(Bound::of(ten, Span::from_millis(9)), Bound::Gpu);
    assert_eq!(Bound::of(ten, Span { nanos: 8_999_999 }), Bound::Cpu);
    assert_eq!(Bound::of(Span::zero(), ten), Bound::Unknown);
    assert_eq!(Bound::Gpu.word(), "gpu-bound");
    assert_eq!(Bound::Cpu.word(), "cpu-bound");
    assert_eq!(Bound::default().word(), "not measured");
}

#[test]
fn startup_is_measured_once_and_interaction_marks_re_arm() {
    let mut recorder = recorder();
    recorder.record(sample(5, PassTimings::new(), 1), at(7));
    let first = recorder.stats().interactivity;
    assert!(first.to_first_ray.is_some());
    assert!(first.to_first_pixel.is_some());
    assert!(first.to_readable.is_none(), "one sample is not yet readable");

    recorder.restart(at(20));
    recorder.record(sample(5, PassTimings::new(), READABLE_SAMPLES), at(26));
    let second = recorder.stats().interactivity;
    assert_eq!(second.to_first_ray, first.to_first_ray, "startup is not re-measured");
    assert_eq!(second.to_first_ray, Some(Span::from_millis(7)));
    assert_eq!(second.to_first_pixel, Some(Span::from_millis(6)));
    assert!(second.to_readable.is_some(), "the readable mark landed");
}

#[test]
fn the_first_mark_of_startup_stands() {
    let mut marked = None;
    mark_startup(&mut marked, at(3));
    mark_startup(&mut marked, at(9));
    assert_eq!(startup(&mut marked, at(12)), at(3));
    let recorder = Recorder::new(&mut marked, at(20));
    let report = recorder.report(String::new(), String::new(), at(23));
    assert_eq!(report.wall, Span::from_millis(20));
    let mut unmarked = None;
    assert_eq!(startup(&mut unmarked, at(5)), at(5));
    assert_eq!(startup(&mut unmarked, at(6)), at(5));
}

#[test]
fn the_distribution_and_the_breakdown_come_from_different_frames() {
    let mut recorder = recorder();
    recorder.record(sample(10, breakdown(&[("intersect", 9500)]), 1), at(1));
    for samples in 2..=8 {
        let plain = PassTimings::measured(Span::from_micros(5800));
        recorder.record(sample(6, plain, samples), at(2));
    }

    let stats = recorder.stats();
    assert_eq!(stats.smoothed.median, Span::from_millis(6));
    assert_eq!(stats.frame.gpu(), Span::from_micros(9500));
    assert_eq!(stats.frame.cpu, Span::from_millis(10));
    assert_eq!(stats.frame.bound(), Bound::Gpu);
    assert_eq!(stats.frame.samples, 8);

    let report = recorder.report(String::new(), String::new(), at(3));
    assert_eq!(report.frames, 8);
    assert_eq!(report.breakdown_frames, 1, "the sampling rate is stated");
    assert_eq!(report.mean_frame, Span::from_millis(6));
    assert_eq!(report.sampling, Span::from_millis(52));
    assert_eq!(report.gpu, Span::from_micros(50_100));
    assert_eq!(report.passes.total(), Span::from_micros(9500));
    assert_eq!(report.bound, Bound::Gpu);
}

#[test]
fn memory_peaks_are_kept_per_bucket() {
    let mut recorder = recorder();
    recorder.memory(Memory { scene: 100, reservoirs: 900, ..Memory::default() });
    recorder.memory(Memory { scene: 500, reservoirs: 0, ..Memory::default() });
    let peak = recorder.report(String::new(), String::new(), at(1)).peak_memory;
    assert_eq!(peak.scene, 500);
    assert_eq!(peak.reservoirs, 900, "a freed bucket keeps its peak");
    assert_eq!(recorder.stats().memory.reservoirs, 0, "live is live");
}

#[test]
fn memory_adds_up_and_names_its_buckets() {
    let memory = Memory {
        scene: 1,
        film: 20,
        reservoirs: 300,
        textures: 4000,
        scratch: 50_000,
        budget: Some(9),
    };
    assert_eq!(memory.total(), 54_321);
    assert_eq!(
        memory.buckets(),
        [
            ("scene", 1),
            ("film", 20),
            ("reservoirs", 300),
            ("textures", 4000),
            ("scratch", 50_000)
        ]
    );
}

#[test]
fn the_window_keeps_the_last_frames_and_the_hitch() {
    let mut recorder = recorder();
    recorder.record(sample(1000, PassTimings::new(), 1), at(1));
    for frame in 1..=120u64 {
        recorder.record(sample(frame, PassTimings::new(), 1), at(1));
    }
    let smoothed = recorder.stats().smoothed;
    assert_eq!(smoothed.median, Span::from_millis(60));
    assert_eq!(smoothed.p95, Span::from_millis(114));
}

#[test]
fn phases_meet_at_their_boundaries() {
    let phases = phases(at(1), at(4), at(9), at(11), at(18));
    assert_eq!(phases.lower, Span::from_millis(3));
    assert_eq!(phases.upload, Span::from_millis(5));
    assert_eq!(phases.tlas, Span::from_millis(2));
    assert_eq!(phases.tables, Span::from_millis(7));
    assert_eq!(phases.before, Span::zero());
}

#[test]
fn spans_add_up_under_their_labels() {
    let mut timings = PassTimings::measured(Span::from_millis(9));
    assert!(!timings.has_breakdown());
    for (label, micros, calls) in
        [("shade", 5, 2), ("sort", 7, 1), ("shade", 11, 3), ("trace", 13, 1), ("sort", 0, 4)]
    {
        timings.add(label, Span::from_micros(micros), calls);
        assert!(timings.has_breakdown());
    }
    let entries: Vec<_> = timings
        .iter()
        .iter()
        .map(|entry| (entry.label.as_str(), entry.gpu.nanos / 1000, entry.calls))
        .collect();
    assert_eq!(entries, [("shade", 16, 5), ("sort", 7, 5), ("trace", 13, 1)]);
    assert_eq!(timings.total(), Span::from_millis(9), "the total is measured, not added up");
}

#[test]
fn a_report_covers_the_run_through_restarts_and_readings() {
    let mut recorder = Recorder::since(at(0));
    recorder.record(sample(4, PassTimings::measured(Span::from_millis(1)), 1), at(4));
    recorder.restart(at(5));
    recorder.memory(Memory { film: 7, budget: Some(70), ..Memory::default() });
    recorder.record(sample(20, breakdown(&[("shade", 9000)]), 2), at(25));
    recorder.memory(Memory { film: 3, budget: None, ..Memory::default() });
    recorder.restart(at(26));
    recorder.record(
        Frame {
            size: (16, 9),
            candidates: Some(32),
            ..sample(7, PassTimings::measured(Span::from_millis(2)), 3)
        },
        at(33),
    );
    let report = recorder.report("gpu".to_string(), "demo".to_string(), at(40));
    assert_eq!((report.device.as_str(), report.scene.as_str()), ("gpu", "demo"));
    assert_eq!((report.frames, report.breakdown_frames), (3, 1));
    assert_eq!(report.sampling, Span::from_millis(31));
    assert_eq!(report.gpu, Span::from_millis(12));
    assert_eq!(report.passes.total(), Span::from_millis(9));
    assert_eq!(report.mean_frame, Span::from_micros(5500));
    assert_eq!(report.bound, Bound::of(report.sampling, report.gpu));
    assert_eq!((report.size, report.samples, report.candidates), ((16, 9), 3, Some(32)));
    assert_eq!((report.peak_memory.film, report.peak_memory.budget), (7, Some(70)));
    assert_eq!(recorder.stats().memory.film, 3);
    assert_eq!(report.smoothed.median, Span::from_millis(4));
    assert_eq!(report.smoothed.p95, Span::from_millis(4));
}

#[test]
fn marks_move_only_with_the_frames_they_wait_for() {
    let mut recorder = Recorder::since(at(10));
    let marks = |recorder: &Recorder| {
        let marks = recorder.stats().interactivity;
        [marks.to_first_ray, marks.to_first_pixel, marks.to_readable]
            .map(|mark| mark.map(|span| span.nanos / 1_000_000))
    };
    recorder.restart(at(11));
    recorder.memory(Memory::default());
    assert_eq!(marks(&recorder), [None, None, None]);
    recorder.record(sample(1, PassTimings::new(), 3), at(15));
    assert_eq!(marks(&recorder), [Some(5), Some(4), None]);
    recorder.record(sample(1, PassTimings::new(), READABLE_SAMPLES), at(18));
    assert_eq!(marks(&recorder), [Some(5), Some(4), Some(7)]);
    recorder.record(sample(1, PassTimings::new(), READABLE_SAMPLES + 1), at(20));
    assert_eq!(marks(&recorder), [Some(5), Some(4), Some(7)]);
    recorder.restart(at(30));
    assert_eq!(marks(&recorder), [Some(5), Some(4), Some(7)], "a mark stands until its next");
    recorder.record(sample(1, PassTimings::new(), 1), at(31));
    assert_eq!(marks(&recorder), [Some(5), Some(1), Some(7)]);
}
