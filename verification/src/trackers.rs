//! Per-source statistics: arrival rate, packet loss and the intervals from
//! which jitter is computed. Time is a reading of a monotonic clock in
//! nanoseconds.
use vstd::prelude::*;

verus! {

/// One second, the window over which arrivals count towards the frame rate.
pub const FPS_WINDOW_NS: u64 = 1_000_000_000;

/// Five seconds, the window after which loss counting starts afresh.
pub const LOSS_WINDOW_NS: u64 = 5_000_000_000;

/// Number of inter-arrival intervals kept for jitter.
pub const LATENCY_WINDOW: usize = 100;

/// Time from `then` to `now`; zero if `then` is not in the past.
pub open spec fn elapsed_since(now: u64, then: u64) -> u64 {
    if now >= then {
        (now - then) as u64
    } else {
        0
    }
}

/// Time that has passed from `then` to `now`, zero if the clock reads less.
pub fn elapsed(now: u64, then: u64) -> (span: u64)
    ensures
        span == elapsed_since(now, then),
{
    if now >= then {
        now - then
    } else {
        0
    }
}

/// The arrivals among `times` that lie less than `window` before `now`, in
/// their order.
pub open spec fn arrivals_within(times: Seq<u64>, now: u64, window: u64) -> Seq<u64> {
    times.filter(|t: u64| elapsed_since(now, t) < window)
}

/// Appending an arrival appends it to the recent ones if it is recent itself.
pub proof fn lemma_arrivals_push(times: Seq<u64>, t: u64, now: u64, window: u64)
    ensures
        arrivals_within(times.push(t), now, window) == if elapsed_since(now, t) < window {
            arrivals_within(times, now, window).push(t)
        } else {
            arrivals_within(times, now, window)
        },
{
    reveal(Seq::filter);
    assert(times.push(t).drop_last() =~= times);
}

/// Counts packets per second for one source.
#[derive(Debug, Clone)]
pub struct FpsCounter {
    pub packet_times: Vec<u64>,
    pub window_size: u64,
}

impl FpsCounter {
    /// The window is one second.
    pub open spec fn wf(&self) -> bool {
        self.window_size == FPS_WINDOW_NS
    }

    /// The arrival times held after a packet at `now`: the recent ones among
    /// `times`, then `now`.
    pub open spec fn times_after(times: Seq<u64>, now: u64) -> Seq<u64> {
        arrivals_within(times, now, FPS_WINDOW_NS).push(now)
    }

    /// The rate at `now`: the number of arrivals within the last second.
    pub open spec fn rate(times: Seq<u64>, now: u64) -> nat {
        arrivals_within(times, now, FPS_WINDOW_NS).len()
    }

    /// A counter that has seen nothing.
    pub fn new() -> (counter: Self)
        ensures
            counter.wf(),
            counter.packet_times@ == Seq::<u64>::empty(),
    {
        FpsCounter { packet_times: Vec::new(), window_size: FPS_WINDOW_NS }
    }

    /// Notes a packet that arrived at `now` and forgets the arrivals that
    /// have left the window.
    pub fn record_packet(&mut self, now: u64)
        requires
            old(self).wf(),
        ensures
            final(self).wf(),
            final(self).packet_times@ == Self::times_after(old(self).packet_times@, now),
    {
        let mut kept: Vec<u64> = Vec::new();
        let mut i: usize = 0;
        while i < self.packet_times.len()
            invariant
                i <= self.packet_times.len(),
                self.wf(),
                self.packet_times@ == old(self).packet_times@,
                kept@ == arrivals_within(self.packet_times@.take(i as int), now, FPS_WINDOW_NS),
            decreases self.packet_times.len() - i,
        {
            let t = self.packet_times[i];
            proof {
                lemma_arrivals_push(self.packet_times@.take(i as int), t, now, FPS_WINDOW_NS);
                assert(self.packet_times@.take(i + 1) =~= self.packet_times@.take(i as int).push(
                    t,
                ));
            }
            if elapsed(now, t) < self.window_size {
                kept.push(t);
            }
            i += 1;
        }
        assert(self.packet_times@.take(i as int) =~= self.packet_times@);
        kept.push(now);
        self.packet_times = kept;
    }

    /// The number of packets that arrived within the last second before
    /// `now`.
    pub fn fps(&self, now: u64) -> (count: u64)
        requires
            self.wf(),
        ensures
            count == Self::rate(self.packet_times@, now),
    {
        let mut count: u64 = 0;
        let mut i: usize = 0;
        while i < self.packet_times.len()
            invariant
                i <= self.packet_times.len(),
                self.wf(),
                count <= i,
                count == arrivals_within(self.packet_times@.take(i as int), now, FPS_WINDOW_NS).len(),
            decreases self.packet_times.len() - i,
        {
            let t = self.packet_times[i];
            proof {
                lemma_arrivals_push(self.packet_times@.take(i as int), t, now, FPS_WINDOW_NS);
                assert(self.packet_times@.take(i + 1) =~= self.packet_times@.take(i as int).push(
                    t,
                ));
            }
            if elapsed(now, t) < self.window_size {
                count += 1;
            }
            i += 1;
        }
        assert(self.packet_times@.take(i as int) =~= self.packet_times@);
        count
    }
}

impl Default for FpsCounter {
    fn default() -> (counter: Self)
        ensures
            counter.wf(),
            counter.packet_times@ == Seq::<u64>::empty(),
    {
        FpsCounter::new()
    }
}

/// Packets lost out of packets expected. The loss in percent is
/// `lost * 100 / expected`, and zero where nothing was expected.
#[derive(Debug, Clone, Copy, PartialEq, Eq, Structural)]
pub struct PacketLoss {
    pub lost: u64,
    pub expected: u64,
}

impl PacketLoss {
    /// The loss in whole percent, rounded down, between 0 and 100.
    pub open spec fn percent_floor(self) -> int {
        if self.expected == 0 {
            0
        } else if self.lost >= self.expected {
            100
        } else {
            self.lost * 100 / self.expected as int
        }
    }

    /// No loss.
    pub fn none() -> (loss: Self)
        ensures
            loss == (PacketLoss { lost: 0, expected: 0 }),
    {
        PacketLoss { lost: 0, expected: 0 }
    }

    /// The loss in whole percent, rounded down.
    pub fn percent(&self) -> (p: u64)
        ensures
            p == self.percent_floor(),
            p <= 100,
    {
        if self.expected == 0 {
            0
        } else if self.lost >= self.expected {
            100
        } else {
            let scaled: u128 = (self.lost as u128) * 100;
            let p: u128 = scaled / (self.expected as u128);
            assert(p <= 100) by (nonlinear_arith)
                requires
                    p == (self.lost * 100) / self.expected as int,
                    self.lost < self.expected,
                    self.expected > 0,
            ;
            p as u64
        }
    }
}

/// Follows the 8-bit sequence numbers of one source to tell how many packets
/// went missing.
#[derive(Debug, Clone, Copy, PartialEq, Eq, Structural)]
pub struct SequenceTracker {
    pub last_sequence: Option<u8>,
    pub expected_packets: u64,
    pub received_packets: u64,
    pub window_start: u64,
}

/// Steps from sequence number `last` to `sequence`, counted modulo 256.
pub open spec fn sequence_gap(last: u8, sequence: u8) -> u64 {
    ((sequence - last) % 256) as u64
}

impl SequenceTracker {
    /// Whether a packet at `now` opens a new window.
    pub open spec fn window_over(self, now: u64) -> bool {
        elapsed_since(now, self.window_start) > LOSS_WINDOW_NS
    }

    /// The counters can take `n` more packets without overflow.
    pub open spec fn room_for(self, n: nat) -> bool {
        self.received_packets + n <= u64::MAX && self.expected_packets + 255 * n <= u64::MAX
    }

    /// The tracker after a packet with number `sequence` at `now`. A packet
    /// that opens a new window becomes the baseline and resets the counters;
    /// any other counts as received, and as many are expected as its number
    /// lies past the last one (one if there was none).
    pub open spec fn after_packet(self, sequence: u8, now: u64) -> SequenceTracker {
        if self.window_over(now) {
            SequenceTracker {
                last_sequence: Some(sequence),
                expected_packets: 0,
                received_packets: 0,
                window_start: now,
            }
        } else {
            SequenceTracker {
                last_sequence: Some(sequence),
                expected_packets: (self.expected_packets + match self.last_sequence {
                    Some(last) => sequence_gap(last, sequence),
                    None => 1,
                }) as u64,
                received_packets: (self.received_packets + 1) as u64,
                window_start: self.window_start,
            }
        }
    }

    /// The loss that the counters show: what was expected and did not come,
    /// never less than nothing.
    pub open spec fn loss(self) -> PacketLoss {
        if self.expected_packets >= self.received_packets {
            PacketLoss {
                lost: (self.expected_packets - self.received_packets) as u64,
                expected: self.expected_packets,
            }
        } else {
            PacketLoss { lost: 0, expected: self.expected_packets }
        }
    }

    /// A tracker whose first window opens at `now`.
    pub fn new(now: u64) -> (tracker: Self)
        ensures
            tracker == (SequenceTracker {
                last_sequence: None,
                expected_packets: 0,
                received_packets: 0,
                window_start: now,
            }),
    {
        SequenceTracker {
            last_sequence: None,
            expected_packets: 0,
            received_packets: 0,
            window_start: now,
        }
    }

    /// Notes a packet and returns the loss in the current window.
    pub fn record_packet(&mut self, sequence: u8, now: u64) -> (loss: PacketLoss)
        requires
            old(self).room_for(1),
        ensures
            *final(self) == old(self).after_packet(sequence, now),
            loss == final(self).loss(),
    {
        if elapsed(now, self.window_start) > LOSS_WINDOW_NS {
            self.expected_packets = 0;
            self.received_packets = 0;
            self.window_start = now;
            self.last_sequence = Some(sequence);
            return PacketLoss { lost: 0, expected: 0 };
        }
        self.received_packets += 1;
        match self.last_sequence {
            Some(last) => {
                let gap: u8 = if sequence >= last {
                    sequence - last
                } else {
                    255 - last + sequence + 1
                };
                assert(gap == sequence_gap(last, sequence));
                self.expected_packets += gap as u64;
            },
            None => {
                self.expected_packets += 1;
            },
        }
        self.last_sequence = Some(sequence);
        if self.expected_packets >= self.received_packets {
            PacketLoss {
                lost: self.expected_packets - self.received_packets,
                expected: self.expected_packets,
            }
        } else {
            PacketLoss { lost: 0, expected: self.expected_packets }
        }
    }
}

impl Default for SequenceTracker {
    /// A tracker whose first window opens when the clock reads zero.
    fn default() -> (tracker: Self)
        ensures
            tracker == (SequenceTracker {
                last_sequence: None,
                expected_packets: 0,
                received_packets: 0,
                window_start: 0,
            }),
    {
        SequenceTracker::new(0)
    }
}

/// The intervals held after one more, `interval`, has been measured: the
/// newest hundred.
pub open spec fn intervals_after(intervals: Seq<u64>, interval: u64) -> Seq<u64> {
    if intervals.len() + 1 > LATENCY_WINDOW {
        intervals.push(interval).drop_first()
    } else {
        intervals.push(interval)
    }
}

/// Keeps the most recent inter-arrival intervals of one source.
#[derive(Debug, Clone)]
pub struct LatencyTracker {
    pub last_packet_time: Option<u64>,
    pub intervals: Vec<u64>,
    pub window_size: usize,
}

impl LatencyTracker {
    /// The window is a hundred intervals.
    pub open spec fn wf(&self) -> bool {
        self.window_size == LATENCY_WINDOW
    }

    /// The intervals held after a packet at `now`: unchanged by a first
    /// packet, otherwise extended by the time since the last one.
    pub open spec fn window_after(last: Option<u64>, intervals: Seq<u64>, now: u64) -> Seq<u64> {
        match last {
            Some(then) => intervals_after(intervals, elapsed_since(now, then)),
            None => intervals,
        }
    }

    /// A tracker that has seen nothing.
    pub fn new() -> (tracker: Self)
        ensures
            tracker.wf(),
            tracker.last_packet_time is None,
            tracker.intervals@ == Seq::<u64>::empty(),
    {
        LatencyTracker { last_packet_time: None, intervals: Vec::new(), window_size: LATENCY_WINDOW }
    }

    /// Notes a packet that arrived at `now`.
    pub fn record_packet(&mut self, now: u64)
        requires
            old(self).wf(),
        ensures
            final(self).wf(),
            final(self).last_packet_time == Some(now),
            final(self).intervals@ == Self::window_after(
                old(self).last_packet_time,
                old(self).intervals@,
                now,
            ),
    {
        match self.last_packet_time {
            Some(last) => {
                let interval = elapsed(now, last);
                self.intervals.push(interval);
                if self.intervals.len() > self.window_size {
                    self.intervals.remove(0);
                }
            },
            None => {},
        }
        self.last_packet_time = Some(now);
    }
}

impl Default for LatencyTracker {
    fn default() -> (tracker: Self)
        ensures
            tracker.wf(),
            tracker.last_packet_time is None,
            tracker.intervals@ == Seq::<u64>::empty(),
    {
        LatencyTracker::new()
    }
}

} // verus!
