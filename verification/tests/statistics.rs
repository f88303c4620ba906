use lxmonitor::trackers::{
    elapsed, FpsCounter, LatencyTracker, PacketLoss, SequenceTracker, FPS_WINDOW_NS,
    LATENCY_WINDOW, LOSS_WINDOW_NS,
};

const SECOND: u64 = 1_000_000_000;

#[test]
fn elapsed_never_runs_backwards() {
    assert_eq!(elapsed(10, 4), 6);
    assert_eq!(elapsed(4, 10), 0);
    assert_eq!(elapsed(7, 7), 0);
}

#[test]
fn fps_counts_the_last_second() {
    let mut c = FpsCounter::new();
    assert_eq!(c.fps(0), 0);
    for i in 0..10u64 {
        c.record_packet(i * SECOND / 10);
    }
    assert_eq!(c.fps(SECOND * 9 / 10), 10);
    assert_eq!(c.fps(SECOND), 9);
    assert_eq!(c.fps(SECOND + SECOND / 2), 4);
    assert_eq!(c.fps(3 * SECOND), 0);
    assert_eq!(FPS_WINDOW_NS, SECOND);
}

#[test]
fn fps_counter_forgets_old_arrivals() {
    let mut c = FpsCounter::new();
    c.record_packet(0);
    c.record_packet(SECOND / 2);
    c.record_packet(SECOND);
    assert_eq!(c.packet_times, vec![SECOND / 2, SECOND]);
    c.record_packet(5 * SECOND);
    assert_eq!(c.packet_times, vec![5 * SECOND]);
    assert_eq!(FpsCounter::default().packet_times.len(), 0);
}

#[test]
fn loss_after_a_baseline_packet() {
    let mut t = SequenceTracker::new(0);
    let opened = t.record_packet(0, LOSS_WINDOW_NS + 1);
    assert_eq!(opened, PacketLoss { lost: 0, expected: 0 });
    assert_eq!(t.last_sequence, Some(0));
    let mut loss = PacketLoss::none();
    for s in [0u8, 1, 2, 5] {
        loss = t.record_packet(s, LOSS_WINDOW_NS + 2);
    }
    assert_eq!(t.expected_packets, 5);
    assert_eq!(t.received_packets, 4);
    assert_eq!(loss, PacketLoss { lost: 1, expected: 5 });
    assert_eq!(loss.percent(), 20);
}

#[test]
fn loss_of_a_new_tracker_counts_the_first_packet_as_expected() {
    let mut t = SequenceTracker::new(0);
    let mut loss = PacketLoss::none();
    for s in [0u8, 1, 2, 5] {
        loss = t.record_packet(s, SECOND);
    }
    assert_eq!(t.expected_packets, 6);
    assert_eq!(t.received_packets, 4);
    assert_eq!(loss, PacketLoss { lost: 2, expected: 6 });
    assert_eq!(loss.percent(), 33);
}

#[test]
fn sequence_numbers_wrap_around() {
    let mut t = SequenceTracker::new(0);
    t.record_packet(254, 1);
    t.record_packet(255, 2);
    let loss = t.record_packet(0, 3);
    assert_eq!(t.expected_packets, 3);
    assert_eq!(t.received_packets, 3);
    assert_eq!(loss.percent(), 0);
    let loss = t.record_packet(2, 4);
    assert_eq!(t.expected_packets, 5);
    assert_eq!(loss, PacketLoss { lost: 1, expected: 5 });
    let mut w = SequenceTracker::new(0);
    w.record_packet(250, 1);
    w.record_packet(4, 2);
    assert_eq!(w.expected_packets, 11);
}

#[test]
fn repeated_numbers_never_give_negative_loss() {
    let mut t = SequenceTracker::new(0);
    t.record_packet(7, 1);
    t.record_packet(7, 2);
    let loss = t.record_packet(7, 3);
    assert_eq!(t.expected_packets, 1);
    assert_eq!(t.received_packets, 3);
    assert_eq!(loss, PacketLoss { lost: 0, expected: 1 });
    assert_eq!(loss.percent(), 0);
}

#[test]
fn a_new_window_resets_the_counters() {
    let mut t = SequenceTracker::new(100);
    t.record_packet(1, 200);
    t.record_packet(9, 300);
    assert_eq!(t.expected_packets, 9);
    let at = 100 + LOSS_WINDOW_NS;
    t.record_packet(10, at);
    assert_eq!(t.received_packets, 3);
    assert_eq!(t.window_start, 100);
    let loss = t.record_packet(50, at + 1);
    assert_eq!(loss, PacketLoss { lost: 0, expected: 0 });
    assert_eq!(t.expected_packets, 0);
    assert_eq!(t.received_packets, 0);
    assert_eq!(t.window_start, at + 1);
    assert_eq!(t.last_sequence, Some(50));
}

#[test]
fn default_sequence_tracker() {
    let t = SequenceTracker::default();
    assert_eq!(t.last_sequence, None);
    assert_eq!(t.expected_packets, 0);
    assert_eq!(t.received_packets, 0);
    assert_eq!(t.window_start, 0);
}

#[test]
fn loss_in_percent() {
    assert_eq!(PacketLoss { lost: 0, expected: 0 }.percent(), 0);
    assert_eq!(PacketLoss { lost: 1, expected: 3 }.percent(), 33);
    assert_eq!(PacketLoss { lost: 3, expected: 3 }.percent(), 100);
    assert_eq!(PacketLoss { lost: 9, expected: 3 }.percent(), 100);
    assert_eq!(PacketLoss { lost: u64::MAX - 1, expected: u64::MAX }.percent(), 99);
}

#[test]
fn intervals_between_arrivals() {
    let mut t = LatencyTracker::new();
    t.record_packet(1_000);
    assert!(t.intervals.is_empty());
    assert_eq!(t.last_packet_time, Some(1_000));
    t.record_packet(1_500);
    t.record_packet(2_700);
    t.record_packet(2_600);
    assert_eq!(t.intervals, vec![500, 1_200, 0]);
    assert_eq!(LatencyTracker::default().intervals.len(), 0);
}

#[test]
fn only_the_newest_hundred_intervals_are_kept() {
    let mut t = LatencyTracker::new();
    let mut now = 0u64;
    t.record_packet(now);
    for i in 1..=150u64 {
        now += i;
        t.record_packet(now);
    }
    assert_eq!(t.intervals.len(), LATENCY_WINDOW);
    assert_eq!(t.intervals[0], 51);
    assert_eq!(t.intervals[99], 150);
}
