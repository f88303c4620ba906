//! The registry of discovered sources: one entry per device, found by its
//! key, with the statistics that are kept for it.
use crate::source::{
    artnet_id, fps_warning, fps_warning_of, make_artnet_id, make_sacn_key, merge_direction,
    merged_direction, new_artnet_source, new_sacn_source, sacn_key, status_after, text_of,
    NetworkSource, SourceDirection, SourceModel, SourceStatus,
};
use crate::trackers::{
    elapsed, elapsed_since, FpsCounter, LatencyTracker, SequenceTracker,
};
use std::collections::HashMap;
use vstd::prelude::*;
use vstd::slice::slice_to_vec;
use vstd::string::*;

verus! {

/// Silence after which a source is forgotten: sixty seconds.
pub const EVICTION_NS: u64 = 60_000_000_000;

/// Each universe once, in rising order.
pub open spec fn strictly_sorted(universes: Seq<u16>) -> bool {
    forall|i: int, j: int| 0 <= i < j < universes.len() ==> universes[i] < universes[j]
}

/// Index of the first universe at or after `from` that is not below `u`, or
/// the length if all are below.
pub open spec fn first_not_below(universes: Seq<u16>, u: u16, from: int) -> int
    decreases universes.len() - from,
{
    if from < 0 || from >= universes.len() || universes[from] >= u {
        from
    } else {
        first_not_below(universes, u, from + 1)
    }
}

/// The sorted list with `u` in it: unchanged if it holds `u`, otherwise with
/// `u` at its place.
pub open spec fn with_universe(universes: Seq<u16>, u: u16) -> Seq<u16> {
    let k = first_not_below(universes, u, 0);
    if k < universes.len() && universes[k] == u {
        universes
    } else {
        universes.insert(k, u)
    }
}

/// The sorted list with each of `more` in it.
pub open spec fn with_universes(universes: Seq<u16>, more: Seq<u16>) -> Seq<u16>
    decreases more.len(),
{
    if more.len() == 0 {
        universes
    } else {
        with_universe(with_universes(universes, more.drop_last()), more.last())
    }
}

/// Puts `u` into a sorted list of universes unless it is there.
pub fn insert_universe(universes: &mut Vec<u16>, u: u16)
    requires
        strictly_sorted(old(universes)@),
    ensures
        final(universes)@ == with_universe(old(universes)@, u),
        strictly_sorted(final(universes)@),
        final(universes)@.contains(u),
        forall|v: u16| final(universes)@.contains(v) <==> (v == u || old(universes)@.contains(v)),
{
    let mut k: usize = 0;
    while k < universes.len() && universes[k] < u
        invariant
            k <= universes.len(),
            universes@ == old(universes)@,
            first_not_below(universes@, u, 0) == first_not_below(universes@, u, k as int),
            forall|i: int| 0 <= i < k ==> universes@[i] < u,
        decreases universes.len() - k,
    {
        k += 1;
    }
    let ghost before = universes@;
    if k < universes.len() && universes[k] == u {
        assert(before[k as int] == u);
    } else {
        universes.insert(k, u);
        let ghost after = universes@;
        assert(after[k as int] == u);
        assert(forall|i: int| 0 <= i < k ==> after[i] == before[i]);
        assert(forall|i: int| k < i < after.len() ==> after[i] == before[i - 1]);
        assert forall|v: u16| after.contains(v) <==> (v == u || before.contains(v)) by {
            if after.contains(v) {
                let i = choose|i: int| 0 <= i < after.len() && after[i] == v;
                if i < k {
                    assert(before[i] == v);
                } else if i > k {
                    assert(before[i - 1] == v);
                }
            }
            if before.contains(v) {
                let i = choose|i: int| 0 <= i < before.len() && before[i] == v;
                if i < k {
                    assert(after[i] == v);
                } else {
                    assert(after[i + 1] == v);
                }
            }
        }
    }
}

/// Puts each of `more` into a sorted list of universes.
pub fn insert_universes(universes: &mut Vec<u16>, more: &Vec<u16>)
    requires
        strictly_sorted(old(universes)@),
    ensures
        final(universes)@ == with_universes(old(universes)@, more@),
        strictly_sorted(final(universes)@),
{
    let mut i: usize = 0;
    while i < more.len()
        invariant
            i <= more.len(),
            strictly_sorted(universes@),
            universes@ == with_universes(old(universes)@, more@.take(i as int)),
        decreases more.len() - i,
    {
        assert(more@.take(i + 1).drop_last() =~= more@.take(i as int));
        insert_universe(universes, more[i]);
        i += 1;
    }
    assert(more@.take(i as int) =~= more@);
}

/// A source with what the registry keeps beside it.
#[derive(Debug, Clone)]
pub struct SourceEntry {
    /// The key under which the registry finds this entry.
    pub key: String,
    pub source: NetworkSource,
    /// Monotonic time of the last packet.
    pub last_packet: u64,
    pub fps_counter: FpsCounter,
    pub sequence_tracker: SequenceTracker,
    pub latency_tracker: LatencyTracker,
}

/// What a registry entry holds, as plain mathematical values.
pub struct EntryModel {
    pub key: Seq<char>,
    pub source: SourceModel,
    pub last_packet: u64,
    /// Arrival times that the frame-rate counter holds.
    pub arrivals: Seq<u64>,
    pub sequence: SequenceTracker,
    pub last_arrival: Option<u64>,
    /// Inter-arrival intervals kept for jitter, oldest first.
    pub intervals: Seq<u64>,
}

impl View for SourceEntry {
    type V = EntryModel;

    open spec fn view(&self) -> EntryModel {
        EntryModel {
            key: self.key@,
            source: self.source@,
            last_packet: self.last_packet,
            arrivals: self.fps_counter.packet_times@,
            sequence: self.sequence_tracker,
            last_arrival: self.latency_tracker.last_packet_time,
            intervals: self.latency_tracker.intervals@,
        }
    }
}

/// The entry of a source that has just been discovered, before its first
/// packet is counted.
pub open spec fn fresh_entry(key: Seq<char>, source: SourceModel, now: u64) -> EntryModel {
    EntryModel {
        key,
        source,
        last_packet: now,
        arrivals: Seq::empty(),
        sequence: SequenceTracker {
            last_sequence: None,
            expected_packets: 0,
            received_packets: 0,
            window_start: now,
        },
        last_arrival: None,
        intervals: Seq::empty(),
    }
}

/// The entry after a packet has arrived at monotonic time `now` and
/// wall-clock time `wall_ms`, with the sequence number it carried, if any.
pub open spec fn arrival(
    e: EntryModel,
    now: u64,
    wall_ms: u64,
    sequence: Option<u8>,
) -> EntryModel {
    let arrivals = FpsCounter::times_after(e.arrivals, now);
    let tracker = match sequence {
        Some(s) => e.sequence.after_packet(s, now),
        None => e.sequence,
    };
    EntryModel {
        key: e.key,
        source: SourceModel {
            packet_loss: match sequence {
                Some(_) => tracker.loss(),
                None => e.source.packet_loss,
            },
            packet_count: (e.source.packet_count + 1) as u64,
            fps: FpsCounter::rate(arrivals, now) as u64,
            last_seen: wall_ms,
            status: SourceStatus::Active,
            ..e.source
        },
        last_packet: now,
        arrivals,
        sequence: tracker,
        last_arrival: Some(now),
        intervals: LatencyTracker::window_after(e.last_arrival, e.intervals, now),
    }
}

/// The entry after what a packet told has been noted: the direction it was
/// seen in, the priority it declared, the universes it named.
pub open spec fn observed(
    e: EntryModel,
    direction: Option<SourceDirection>,
    priority: Option<u8>,
    universes: Seq<u16>,
) -> EntryModel {
    EntryModel {
        source: SourceModel {
            direction: match direction {
                Some(d) => merge_direction(e.source.direction, d),
                None => e.source.direction,
            },
            sacn_priority: match priority {
                Some(p) => Some(p),
                None => e.source.sacn_priority,
            },
            universes: with_universes(e.source.universes, universes),
            ..e.source
        },
        ..e
    }
}

/// The counters of an entry can take `n` more packets.
pub open spec fn entry_room(e: EntryModel, n: nat) -> bool {
    e.source.packet_count + n <= u64::MAX && e.sequence.room_for(n)
}

impl SourceEntry {
    /// The universes are sorted and the trackers have their windows.
    pub open spec fn wf(&self) -> bool {
        &&& strictly_sorted(self.source.universes@)
        &&& self.fps_counter.wf()
        &&& self.latency_tracker.wf()
    }

    /// The entry of a source that has just been discovered.
    pub fn new(key: String, source: NetworkSource, now: u64) -> (entry: Self)
        requires
            strictly_sorted(source.universes@),
        ensures
            entry.wf(),
            entry@ == fresh_entry(key@, source@, now),
    {
        SourceEntry {
            key,
            source,
            last_packet: now,
            fps_counter: FpsCounter::new(),
            sequence_tracker: SequenceTracker::new(now),
            latency_tracker: LatencyTracker::new(),
        }
    }

    /// Counts a packet and notes what it told.
    pub fn record(
        &mut self,
        now: u64,
        wall_ms: u64,
        sequence: Option<u8>,
        direction: Option<SourceDirection>,
        priority: Option<u8>,
        universes: &Vec<u16>,
    )
        requires
            old(self).wf(),
            entry_room(old(self)@, 1),
        ensures
            final(self).wf(),
            final(self)@ == observed(
                arrival(old(self)@, now, wall_ms, sequence),
                direction,
                priority,
                universes@,
            ),
    {
        self.last_packet = now;
        self.fps_counter.record_packet(now);
        match sequence {
            Some(s) => {
                self.source.packet_loss = self.sequence_tracker.record_packet(s, now);
            },
            None => {},
        }
        self.latency_tracker.record_packet(now);
        self.source.packet_count += 1;
        self.source.fps = self.fps_counter.fps(now);
        self.source.last_seen = wall_ms;
        self.source.update_status(now, now);
        match priority {
            Some(p) => {
                self.source.sacn_priority = Some(p);
            },
            None => {},
        }
        match direction {
            Some(d) => {
                self.source.direction = merged_direction(self.source.direction, d);
            },
            None => {},
        }
        insert_universes(&mut self.source.universes, universes);
    }
}

/// Index of the first entry at or after `from` with the key `key`, or the
/// length if there is none.
pub open spec fn find_key(entries: Seq<EntryModel>, key: Seq<char>, from: int) -> int
    decreases entries.len() - from,
{
    if from < 0 || from >= entries.len() || entries[from].key == key {
        from
    } else {
        find_key(entries, key, from + 1)
    }
}

/// `find_key` returns the length exactly when no entry has the key, and
/// otherwise the first index that has it.
pub proof fn lemma_find_key(entries: Seq<EntryModel>, key: Seq<char>, from: int)
    requires
        0 <= from <= entries.len(),
    ensures
        from <= find_key(entries, key, from) <= entries.len(),
        forall|i: int| from <= i < find_key(entries, key, from) ==> entries[i].key != key,
        find_key(entries, key, from) < entries.len() ==> entries[find_key(entries, key, from)].key
            == key,
    decreases entries.len() - from,
{
    if from < entries.len() && entries[from].key != key {
        lemma_find_key(entries, key, from + 1);
    }
}

/// The registry after a packet of the source with key `key`: its entry,
/// made from `fresh` if there was none, has counted the packet and noted
/// what it told; a new entry stands last.
pub open spec fn upsert(
    entries: Seq<EntryModel>,
    key: Seq<char>,
    fresh: SourceModel,
    now: u64,
    wall_ms: u64,
    sequence: Option<u8>,
    direction: Option<SourceDirection>,
    priority: Option<u8>,
    universes: Seq<u16>,
) -> Seq<EntryModel> {
    let i = find_key(entries, key, 0);
    if i < entries.len() {
        entries.update(
            i,
            observed(arrival(entries[i], now, wall_ms, sequence), direction, priority, universes),
        )
    } else {
        entries.push(
            observed(
                arrival(fresh_entry(key, fresh, now), now, wall_ms, sequence),
                direction,
                priority,
                universes,
            ),
        )
    }
}

/// No key occurs twice, the id of every source is the key of its entry,
/// and every list of universes is sorted.
pub open spec fn registry_wf(entries: Seq<EntryModel>) -> bool {
    &&& forall|i: int, j: int|
        0 <= i < j < entries.len() ==> (#[trigger] entries[i]).key != (#[trigger] entries[j]).key
    &&& forall|i: int| 0 <= i < entries.len() ==> (#[trigger] entries[i]).source.id == entries[i].key
    &&& forall|i: int| 0 <= i < entries.len() ==> strictly_sorted(#[trigger] entries[i].source.universes)
}

/// In a registry in order no two sources have the same id.
pub proof fn lemma_ids_are_distinct(entries: Seq<EntryModel>, i: int, j: int)
    requires
        registry_wf(entries),
        0 <= i < entries.len(),
        0 <= j < entries.len(),
        i != j,
    ensures
        entries[i].source.id != entries[j].source.id,
{
    if i < j {
        assert(entries[i].key != entries[j].key);
    } else {
        assert(entries[j].key != entries[i].key);
    }
}

/// The counters of every entry, and of any that may be added, can take `n`
/// more packets.
pub open spec fn room_for(entries: Seq<EntryModel>, n: nat) -> bool {
    &&& 255 * n <= u64::MAX
    &&& forall|i: int| 0 <= i < entries.len() ==> entry_room(#[trigger] entries[i], n)
}

/// The keys of the entries that claim universe `u`, in the order of the
/// entries.
pub open spec fn claimants(entries: Seq<EntryModel>, u: u16) -> Seq<Seq<char>>
    decreases entries.len(),
{
    if entries.len() == 0 {
        Seq::empty()
    } else if entries.last().source.universes.contains(u) {
        claimants(entries.drop_last(), u).push(entries.last().key)
    } else {
        claimants(entries.drop_last(), u)
    }
}

/// Those of `universes` that two or more entries claim.
pub open spec fn shared_among(universes: Seq<u16>, entries: Seq<EntryModel>) -> Seq<u16> {
    universes.filter(|u: u16| claimants(entries, u).len() >= 2)
}

/// The ids that a table of universes lists for `u`; none if it has no
/// line for `u`.
pub open spec fn ids_of(table: Map<u16, Vec<String>>, u: u16) -> Seq<Seq<char>> {
    if table.contains_key(u) {
        Seq::new(table[u]@.len(), |k: int| table[u]@[k]@)
    } else {
        Seq::empty()
    }
}

/// Those of `universes` for which a table lists two or more ids.
pub open spec fn listed_twice(universes: Seq<u16>, table: Map<u16, Vec<String>>) -> Seq<u16> {
    universes.filter(|u: u16| ids_of(table, u).len() >= 2)
}

/// Appending a universe appends it to those listed twice if it is.
pub proof fn lemma_listed_twice_push(universes: Seq<u16>, u: u16, table: Map<u16, Vec<String>>)
    ensures
        listed_twice(universes.push(u), table) == if ids_of(table, u).len() >= 2 {
            listed_twice(universes, table).push(u)
        } else {
            listed_twice(universes, table)
        },
{
    reveal(Seq::filter);
    assert(universes.push(u).drop_last() =~= universes);
}

/// A table that lists for every universe the keys of its claimants lists
/// twice exactly the shared universes.
pub proof fn lemma_listed_twice_is_shared(
    universes: Seq<u16>,
    table: Map<u16, Vec<String>>,
    entries: Seq<EntryModel>,
)
    requires
        forall|u: u16| ids_of(table, u) == claimants(entries, u),
    ensures
        listed_twice(universes, table) == shared_among(universes, entries),
    decreases universes.len(),
{
    reveal(Seq::filter);
    if universes.len() > 0 {
        lemma_listed_twice_is_shared(universes.drop_last(), table, entries);
    }
}

/// The entry at `i` after a maintenance sweep at `now`: status and frame
/// rate are brought up to date, the warning follows the rate, and those of
/// its universes that two or more entries claim are listed as duplicates.
pub open spec fn swept_entry(entries: Seq<EntryModel>, i: int, now: u64) -> EntryModel {
    let e = entries[i];
    let fps = FpsCounter::rate(e.arrivals, now) as u64;
    EntryModel {
        source: SourceModel {
            status: status_after(elapsed_since(now, e.last_packet)),
            fps,
            fps_warning: fps_warning_of(fps),
            duplicate_universes: shared_among(e.source.universes, entries),
            ..e.source
        },
        ..e
    }
}

/// The registry after a maintenance sweep at `now`.
pub open spec fn swept(entries: Seq<EntryModel>, now: u64) -> Seq<EntryModel> {
    Seq::new(entries.len(), |i: int| swept_entry(entries, i, now))
}

/// The entries that were heard less than sixty seconds before `now`, in
/// their order.
pub open spec fn surviving(entries: Seq<EntryModel>, now: u64) -> Seq<EntryModel> {
    entries.filter(|e: EntryModel| elapsed_since(now, e.last_packet) < EVICTION_NS)
}

/// Appending an entry appends it to the survivors if it was heard lately.
pub proof fn lemma_surviving_push(entries: Seq<EntryModel>, e: EntryModel, now: u64)
    ensures
        surviving(entries.push(e), now) == if elapsed_since(now, e.last_packet) < EVICTION_NS {
            surviving(entries, now).push(e)
        } else {
            surviving(entries, now)
        },
{
    reveal(Seq::filter);
    assert(entries.push(e).drop_last() =~= entries);
}

/// Every survivor was heard less than sixty seconds ago, and every entry
/// heard less than sixty seconds ago survives.
pub proof fn lemma_surviving(entries: Seq<EntryModel>, now: u64)
    ensures
        forall|i: int|
            0 <= i < surviving(entries, now).len() ==> elapsed_since(
                now,
                (#[trigger] surviving(entries, now)[i]).last_packet,
            ) < EVICTION_NS,
        forall|i: int|
            0 <= i < entries.len() && elapsed_since(now, (#[trigger] entries[i]).last_packet)
                < EVICTION_NS ==> surviving(entries, now).contains(entries[i]),
        forall|i: int|
            0 <= i < surviving(entries, now).len() ==> entries.contains(
                #[trigger] surviving(entries, now)[i],
            ),
{
    let pred = |e: EntryModel| elapsed_since(now, e.last_packet) < EVICTION_NS;
    let kept = entries.filter(pred);
    assert(surviving(entries, now) == kept);
    assert forall|i: int| 0 <= i < kept.len() implies pred(#[trigger] kept[i]) && entries.contains(
        kept[i],
    ) by {
        entries.lemma_filter_pred(pred, i);
        entries.lemma_filter_contains_rev(pred, kept[i]);
    }
    assert forall|i: int| 0 <= i < entries.len() && pred(#[trigger] entries[i]) implies kept.contains(
        entries[i],
    ) by {
        entries.lemma_filter_contains(pred, i);
    }
}

/// Copies a source.
pub fn copy_source(source: &NetworkSource) -> (copy: NetworkSource)
    ensures
        copy@ == source@,
{
    NetworkSource {
        id: source.id.clone(),
        ip: source.ip.clone(),
        hostname: copy_text(&source.hostname),
        name: source.name.clone(),
        protocol: source.protocol,
        universes: slice_to_vec(source.universes.as_slice()),
        status: source.status,
        direction: source.direction,
        fps: source.fps,
        packet_count: source.packet_count,
        first_seen: source.first_seen,
        last_seen: source.last_seen,
        packet_loss: source.packet_loss,
        fps_warning: copy_text(&source.fps_warning),
        duplicate_universes: slice_to_vec(source.duplicate_universes.as_slice()),
        artnet_short_name: copy_text(&source.artnet_short_name),
        artnet_long_name: copy_text(&source.artnet_long_name),
        mac_address: copy_text(&source.mac_address),
        sacn_cid: copy_text(&source.sacn_cid),
        sacn_priority: source.sacn_priority,
    }
}

fn copy_text(text: &Option<String>) -> (copy: Option<String>)
    ensures
        text_of(copy) == text_of(*text),
{
    match text {
        Some(t) => Some(t.clone()),
        None => None,
    }
}

fn holds_universe(universes: &Vec<u16>, u: u16) -> (found: bool)
    ensures
        found == universes@.contains(u),
{
    let mut i: usize = 0;
    while i < universes.len()
        invariant
            i <= universes.len(),
            forall|k: int| 0 <= k < i ==> universes@[k] != u,
        decreases universes.len() - i,
    {
        if universes[i] == u {
            return true;
        }
        i += 1;
    }
    false
}

/// The table of every source that has been seen and not yet forgotten.
pub struct SourceManager {
    entries: Vec<SourceEntry>,
    /// For each universe the keys of the sources that claimed it at the last
    /// sweep.
    universe_sources: HashMap<u16, Vec<String>>,
}

impl View for SourceManager {
    type V = Seq<EntryModel>;

    closed spec fn view(&self) -> Seq<EntryModel> {
        Seq::new(self.entries@.len(), |i: int| self.entries@[i]@)
    }
}

impl SourceManager {
    /// The table of universes as the last sweep left it.
    pub closed spec fn index(&self) -> Map<u16, Vec<String>> {
        self.universe_sources@
    }

    /// Every tracker has its window.
    pub closed spec fn windows_wf(&self) -> bool {
        forall|i: int| 0 <= i < self.entries@.len() ==> (#[trigger] self.entries@[i]).wf()
    }

    /// The registry is in order: no key twice, universes sorted, trackers
    /// sound.
    pub open spec fn wf(&self) -> bool {
        self.windows_wf() && registry_wf(self@)
    }

    /// An empty registry.
    pub fn new() -> (manager: Self)
        ensures
            manager.wf(),
            manager@ == Seq::<EntryModel>::empty(),
            manager.index() == Map::<u16, Vec<String>>::empty(),
    {
        let manager = SourceManager { entries: Vec::new(), universe_sources: HashMap::new() };
        assert(manager@ =~= Seq::<EntryModel>::empty());
        manager
    }

    /// The number of sources.
    pub fn len(&self) -> (n: usize)
        ensures
            n == self@.len(),
    {
        self.entries.len()
    }

    /// Whether the counters of every source can take `n` more packets.
    pub fn has_room_for(&self, n: u64) -> (yes: bool)
        ensures
            yes == room_for(self@, n as nat),
    {
        if n > u64::MAX / 255 {
            return false;
        }
        let mut i: usize = 0;
        while i < self.entries.len()
            invariant
                i <= self.entries.len(),
                255 * n <= u64::MAX,
                forall|k: int| 0 <= k < i ==> entry_room(#[trigger] self@[k], n as nat),
            decreases self.entries.len() - i,
        {
            let e = &self.entries[i];
            assert(self@[i as int] == e@);
            let fits = e.source.packet_count <= u64::MAX - n && e.sequence_tracker.received_packets
                <= u64::MAX - n && e.sequence_tracker.expected_packets <= u64::MAX - 255 * n;
            if !fits {
                assert(!entry_room(self@[i as int], n as nat));
                return false;
            }
            i += 1;
        }
        true
    }

    fn find(&self, key: &String) -> (i: usize)
        ensures
            i == find_key(self@, key@, 0),
            i <= self@.len(),
    {
        let mut i: usize = 0;
        while i < self.entries.len()
            invariant
                i <= self.entries.len(),
                find_key(self@, key@, 0) == find_key(self@, key@, i as int),
            decreases self.entries.len() - i,
        {
            assert(self@[i as int] == self.entries@[i as int]@);
            if self.entries[i].key == *key {
                return i;
            }
            i += 1;
        }
        i
    }

    fn touch(
        &mut self,
        i: usize,
        now: u64,
        wall_ms: u64,
        sequence: Option<u8>,
        direction: Option<SourceDirection>,
        priority: Option<u8>,
        universes: &Vec<u16>,
    )
        requires
            old(self).windows_wf(),
            i < old(self)@.len(),
            entry_room(old(self)@[i as int], 1),
        ensures
            final(self).windows_wf(),
            final(self).index() == old(self).index(),
            final(self)@ == old(self)@.update(
                i as int,
                observed(
                    arrival(old(self)@[i as int], now, wall_ms, sequence),
                    direction,
                    priority,
                    universes@,
                ),
            ),
    {
        assert(old(self)@[i as int] == old(self).entries@[i as int]@);
        let entry = &mut self.entries[i];
        entry.record(now, wall_ms, sequence, direction, priority, universes);
        assert(self@ =~= old(self)@.update(
            i as int,
            observed(
                arrival(old(self)@[i as int], now, wall_ms, sequence),
                direction,
                priority,
                universes@,
            ),
        ));
    }

    fn upsert_at(
        &mut self,
        i: usize,
        key: String,
        fresh: Option<NetworkSource>,
        now: u64,
        wall_ms: u64,
        sequence: Option<u8>,
        direction: Option<SourceDirection>,
        priority: Option<u8>,
        universes: &Vec<u16>,
    )
        requires
            old(self).wf(),
            room_for(old(self)@, 1),
            i == find_key(old(self)@, key@, 0),
            i >= old(self)@.len() ==> (fresh matches Some(s) && s.universes@.len() == 0
                && s.packet_count == 0 && s.id@ == key@),
        ensures
            final(self).wf(),
            final(self).index() == old(self).index(),
            forall|s: SourceModel|
                (fresh matches Some(f) ==> f@ == s) ==> final(self)@ == #[trigger] upsert(
                    old(self)@,
                    key@,
                    s,
                    now,
                    wall_ms,
                    sequence,
                    direction,
                    priority,
                    universes@,
                ),
    {
        let ghost before = self@;
        let ghost k = key@;
        proof {
            lemma_find_key(before, k, 0);
        }
        if i == self.entries.len() {
            match fresh {
                Some(source) => {
                    let entry = SourceEntry::new(key, source, now);
                    self.entries.push(entry);
                    assert(self@ =~= before.push(fresh_entry(k, source@, now)));
                },
                None => {},
            }
        }
        self.touch(i, now, wall_ms, sequence, direction, priority, universes);
        proof {
            let after = self@;
            assert(after.len() >= before.len());
            assert forall|a: int, b: int| 0 <= a < b < after.len() implies (#[trigger] after[a]).key
                != (#[trigger] after[b]).key by {
                if b < before.len() {
                    assert(after[a].key == before[a].key);
                    assert(after[b].key == before[b].key);
                } else {
                    assert(after[b].key == k);
                    assert(after[a].key == before[a].key);
                }
            }
            assert forall|a: int| 0 <= a < after.len() implies strictly_sorted(
                #[trigger] after[a].source.universes,
            ) by {
                assert(after[a] == self.entries@[a]@);
                assert(self.entries@[a].wf());
            }
            assert forall|a: int| 0 <= a < after.len() implies (#[trigger] after[a]).source.id
                == after[a].key by {
                if a < before.len() {
                    assert(before[a].source.id == before[a].key);
                }
            }
            assert forall|s: SourceModel| (fresh matches Some(f) ==> f@ == s) implies after
                == #[trigger] upsert(
                before,
                k,
                s,
                now,
                wall_ms,
                sequence,
                direction,
                priority,
                universes@,
            ) by {
                assert(after =~= upsert(
                    before,
                    k,
                    s,
                    now,
                    wall_ms,
                    sequence,
                    direction,
                    priority,
                    universes@,
                ));
            }
        }
    }

    /// Counts a packet of the Art-Net device at `ip`, which is entered if it
    /// is new, and adds the universes it named.
    pub fn update_artnet_source(
        &mut self,
        ip: &[u8; 4],
        short_name: &str,
        long_name: &str,
        mac: Option<[u8; 6]>,
        universes: Option<Vec<u16>>,
        sequence: Option<u8>,
        now: u64,
        wall_ms: u64,
    )
        requires
            old(self).wf(),
            room_for(old(self)@, 1),
        ensures
            final(self).wf(),
            final(self).index() == old(self).index(),
            final(self)@ == artnet_update(
                old(self)@,
                ip@,
                short_name@,
                long_name@,
                mac,
                listed(universes),
                None,
                sequence,
                now,
                wall_ms,
            ),
    {
        self.record_artnet(ip, short_name, long_name, mac, universes, None, sequence, now, wall_ms);
    }

    /// As `update_artnet_source`, and notes the direction in which the
    /// device was seen.
    pub fn update_artnet_source_with_direction(
        &mut self,
        ip: &[u8; 4],
        short_name: &str,
        long_name: &str,
        mac: Option<[u8; 6]>,
        universes: Option<Vec<u16>>,
        direction: SourceDirection,
        sequence: Option<u8>,
        now: u64,
        wall_ms: u64,
    )
        requires
            old(self).wf(),
            room_for(old(self)@, 1),
        ensures
            final(self).wf(),
            final(self).index() == old(self).index(),
            final(self)@ == artnet_update(
                old(self)@,
                ip@,
                short_name@,
                long_name@,
                mac,
                listed(universes),
                Some(direction),
                sequence,
                now,
                wall_ms,
            ),
    {
        self.record_artnet(
            ip,
            short_name,
            long_name,
            mac,
            universes,
            Some(direction),
            sequence,
            now,
            wall_ms,
        );
    }

    fn record_artnet(
        &mut self,
        ip: &[u8; 4],
        short_name: &str,
        long_name: &str,
        mac: Option<[u8; 6]>,
        universes: Option<Vec<u16>>,
        direction: Option<SourceDirection>,
        sequence: Option<u8>,
        now: u64,
        wall_ms: u64,
    )
        requires
            old(self).wf(),
            room_for(old(self)@, 1),
        ensures
            final(self).wf(),
            final(self).index() == old(self).index(),
            final(self)@ == artnet_update(
                old(self)@,
                ip@,
                short_name@,
                long_name@,
                mac,
                listed(universes),
                direction,
                sequence,
                now,
                wall_ms,
            ),
    {
        let key = make_artnet_id(ip);
        let i = self.find(&key);
        let fresh = if i == self.entries.len() {
            Some(NetworkSource::from_artnet(ip, short_name, long_name, mac, wall_ms))
        } else {
            None
        };
        let list = match universes {
            Some(v) => v,
            None => Vec::new(),
        };
        self.upsert_at(i, key, fresh, now, wall_ms, sequence, direction, None, &list);
    }

    /// Counts a packet of the streaming-ACN source with identifier `cid`,
    /// which is entered if it is new, and adds the universe it named. A
    /// device with an all-zero identifier never told its own and is found by
    /// its address.
    pub fn update_sacn_source(
        &mut self,
        ip: &[u8; 4],
        source_name: &str,
        cid: &[u8; 16],
        priority: u8,
        universe: u16,
        sequence: Option<u8>,
        now: u64,
        wall_ms: u64,
    )
        requires
            old(self).wf(),
            room_for(old(self)@, 1),
        ensures
            final(self).wf(),
            final(self).index() == old(self).index(),
            final(self)@ == sacn_update(
                old(self)@,
                ip@,
                source_name@,
                cid@,
                priority,
                universe,
                None,
                sequence,
                now,
                wall_ms,
            ),
    {
        self.record_sacn(ip, source_name, cid, priority, universe, None, sequence, now, wall_ms);
    }

    /// As `update_sacn_source`, and notes the direction in which the device
    /// was seen.
    pub fn update_sacn_source_with_direction(
        &mut self,
        ip: &[u8; 4],
        source_name: &str,
        cid: &[u8; 16],
        priority: u8,
        universe: u16,
        direction: SourceDirection,
        sequence: Option<u8>,
        now: u64,
        wall_ms: u64,
    )
        requires
            old(self).wf(),
            room_for(old(self)@, 1),
        ensures
            final(self).wf(),
            final(self).index() == old(self).index(),
            final(self)@ == sacn_update(
                old(self)@,
                ip@,
                source_name@,
                cid@,
                priority,
                universe,
                Some(direction),
                sequence,
                now,
                wall_ms,
            ),
    {
        self.record_sacn(
            ip,
            source_name,
            cid,
            priority,
            universe,
            Some(direction),
            sequence,
            now,
            wall_ms,
        );
    }

    fn record_sacn(
        &mut self,
        ip: &[u8; 4],
        source_name: &str,
        cid: &[u8; 16],
        priority: u8,
        universe: u16,
        direction: Option<SourceDirection>,
        sequence: Option<u8>,
        now: u64,
        wall_ms: u64,
    )
        requires
            old(self).wf(),
            room_for(old(self)@, 1),
        ensures
            final(self).wf(),
            final(self).index() == old(self).index(),
            final(self)@ == sacn_update(
                old(self)@,
                ip@,
                source_name@,
                cid@,
                priority,
                universe,
                direction,
                sequence,
                now,
                wall_ms,
            ),
    {
        let key = make_sacn_key(ip, cid);
        let i = self.find(&key);
        let fresh = if i == self.entries.len() {
            Some(NetworkSource::from_sacn(ip, source_name, cid, priority, wall_ms))
        } else {
            None
        };
        let mut list: Vec<u16> = Vec::new();
        list.push(universe);
        assert(list@ =~= seq![universe]);
        self.upsert_at(i, key, fresh, now, wall_ms, sequence, direction, Some(priority), &list);
    }

    /// A copy of every source, in the order in which they were discovered.
    pub fn get_all_sources(&self) -> (sources: Vec<NetworkSource>)
        ensures
            sources@.len() == self@.len(),
            forall|i: int| 0 <= i < self@.len() ==> (#[trigger] sources@[i])@ == self@[i].source,
    {
        let mut sources: Vec<NetworkSource> = Vec::new();
        let mut i: usize = 0;
        while i < self.entries.len()
            invariant
                i <= self.entries.len(),
                sources@.len() == i,
                forall|k: int| 0 <= k < i ==> (#[trigger] sources@[k])@ == self@[k].source,
            decreases self.entries.len() - i,
        {
            assert(self@[i as int] == self.entries@[i as int]@);
            sources.push(copy_source(&self.entries[i].source));
            i += 1;
        }
        sources
    }

    /// The inter-arrival intervals, in nanoseconds and oldest first, that
    /// are held for each source, in the order of `get_all_sources`.
    pub fn get_latency_intervals(&self) -> (windows: Vec<Vec<u64>>)
        ensures
            windows@.len() == self@.len(),
            forall|i: int| 0 <= i < self@.len() ==> (#[trigger] windows@[i])@ == self@[i].intervals,
    {
        let mut windows: Vec<Vec<u64>> = Vec::new();
        let mut i: usize = 0;
        while i < self.entries.len()
            invariant
                i <= self.entries.len(),
                windows@.len() == i,
                forall|k: int| 0 <= k < i ==> (#[trigger] windows@[k])@ == self@[k].intervals,
            decreases self.entries.len() - i,
        {
            assert(self@[i as int] == self.entries@[i as int]@);
            windows.push(slice_to_vec(self.entries[i].latency_tracker.intervals.as_slice()));
            i += 1;
        }
        windows
    }

    fn build_index(&self) -> (index: HashMap<u16, Vec<String>>)
        requires
            self.windows_wf(),
        ensures
            forall|u: u16| ids_of(index@, u) == claimants(self@, u),
    {
        broadcast use vstd::std_specs::hash::group_hash_axioms;

        let mut index: HashMap<u16, Vec<String>> = HashMap::new();
        let mut i: usize = 0;
        assert(self@.take(0) =~= Seq::<EntryModel>::empty());
        while i < self.entries.len()
            invariant
                i <= self.entries.len(),
                self.windows_wf(),
                forall|u: u16| ids_of(index@, u) == claimants(self@.take(i as int), u),
            decreases self.entries.len() - i,
        {
            let n = self.entries[i].source.universes.len();
            let ghost all = self.entries@[i as int].source.universes@;
            let ghost key = self.entries@[i as int].key@;
            let ghost seen = self@.take(i as int);
            assert(self@[i as int] == self.entries@[i as int]@);
            assert(self.entries@[i as int].wf());
            let mut k: usize = 0;
            while k < n
                invariant
                    i < self.entries.len(),
                    n == all.len(),
                    k <= n,
                    all == self.entries@[i as int].source.universes@,
                    key == self.entries@[i as int].key@,
                    strictly_sorted(all),
                    forall|u: u16|
                        ids_of(index@, u) == if all.take(k as int).contains(u) {
                            claimants(seen, u).push(key)
                        } else {
                            claimants(seen, u)
                        },
                decreases n - k,
            {
                let u0 = self.entries[i].source.universes[k];
                let ghost table = index@;
                let mut ids = match index.remove(&u0) {
                    Some(listed) => listed,
                    None => Vec::new(),
                };
                let ghost had = ids@;
                ids.push(self.entries[i].key.clone());
                let ghost has = ids@;
                index.insert(u0, ids);
                proof {
                    let narrow = all.take(k as int);
                    let wide = all.take(k + 1);
                    assert(!narrow.contains(u0)) by {
                        if narrow.contains(u0) {
                            let j = choose|j: int| 0 <= j < narrow.len() && narrow[j] == u0;
                            assert(all[j] < all[k as int]);
                        }
                    }
                    assert(wide =~= narrow.push(u0));
                    assert forall|u: u16|
                        ids_of(index@, u) == if wide.contains(u) {
                            claimants(seen, u).push(key)
                        } else {
                            claimants(seen, u)
                        } by {
                        if u == u0 {
                            assert(wide[k as int] == u0);
                            assert(ids_of(table, u0) == claimants(seen, u0));
                            assert(Seq::new(had.len(), |j: int| had[j]@) =~= ids_of(table, u0));
                            assert(ids_of(index@, u0) =~= claimants(seen, u0).push(key));
                        } else {
                            assert(ids_of(index@, u) =~= ids_of(table, u));
                            if wide.contains(u) {
                                let j = choose|j: int| 0 <= j < wide.len() && wide[j] == u;
                                assert(narrow[j] == u);
                            }
                            if narrow.contains(u) {
                                let j = choose|j: int| 0 <= j < narrow.len() && narrow[j] == u;
                                assert(wide[j] == u);
                            }
                        }
                    }
                }
                k += 1;
            }
            proof {
                assert(all.take(k as int) =~= all);
                assert(self@.take(i + 1).drop_last() =~= seen);
                assert(self@.take(i + 1).last() == self@[i as int]);
            }
            i += 1;
        }
        assert(self@.take(i as int) =~= self@);
        index
    }

    /// The keys of the sources that claimed `universe` at the last sweep.
    pub fn sources_on_universe(&self, universe: u16) -> (ids: Vec<String>)
        ensures
            Seq::new(ids@.len(), |k: int| ids@[k]@) == ids_of(self.index(), universe),
    {
        broadcast use vstd::std_specs::hash::group_hash_axioms;

        let mut ids: Vec<String> = Vec::new();
        match self.universe_sources.get(&universe) {
            Some(listed) => {
                let mut k: usize = 0;
                while k < listed.len()
                    invariant
                        k <= listed.len(),
                        ids@.len() == k,
                        forall|j: int| 0 <= j < k ==> (#[trigger] ids@[j])@ == listed@[j]@,
                    decreases listed.len() - k,
                {
                    ids.push(listed[k].clone());
                    k += 1;
                }
                assert(Seq::new(ids@.len(), |k: int| ids@[k]@) =~= ids_of(
                    self.index(),
                    universe,
                ));
            },
            None => {
                assert(Seq::new(ids@.len(), |k: int| ids@[k]@) =~= ids_of(
                    self.index(),
                    universe,
                ));
            },
        }
        ids
    }

    /// The maintenance sweep: brings status, frame rate and its warning up
    /// to date for every source, rebuilds the table of universes, and lists
    /// for each source those of its universes that two or more sources
    /// claim.
    pub fn update_statuses(&mut self, now: u64)
        requires
            old(self).wf(),
        ensures
            final(self).wf(),
            final(self)@ == swept(old(self)@, now),
            forall|u: u16| ids_of(final(self).index(), u) == claimants(old(self)@, u),
    {
        let ghost before = self@;
        let index = self.build_index();
        let n = self.entries.len();
        let mut i: usize = 0;
        while i < n
            invariant
                n == self.entries.len(),
                n == before.len(),
                i <= n,
                self.windows_wf(),
                forall|u: u16| ids_of(index@, u) == claimants(before, u),
                forall|k: int|
                    0 <= k < n ==> (#[trigger] self@[k]).source.universes
                        == before[k].source.universes && self@[k].key == before[k].key,
                forall|k: int| i <= k < n ==> #[trigger] self@[k] == before[k],
                forall|k: int| 0 <= k < i ==> #[trigger] self@[k] == swept_entry(before, k, now),
            decreases n - i,
        {
            let ghost mid = self@;
            assert(mid[i as int] == self.entries@[i as int]@);
            let shared = listed_in(&self.entries[i].source.universes, &index);
            proof {
                lemma_listed_twice_is_shared(mid[i as int].source.universes, index@, before);
            }
            let entry = &mut self.entries[i];
            entry.source.update_status(now, entry.last_packet);
            entry.source.fps = entry.fps_counter.fps(now);
            entry.source.fps_warning = fps_warning(entry.source.fps);
            entry.source.duplicate_universes = shared;
            proof {
                let after = self@;
                assert(after[i as int] == self.entries@[i as int]@);
                assert(after[i as int] == swept_entry(before, i as int, now));
                assert forall|k: int| 0 <= k < n && k != i implies #[trigger] after[k] == mid[k] by {
                    assert(after[k] == self.entries@[k]@);
                }
            }
            i += 1;
        }
        let ghost done = self@;
        assert(done =~= swept(before, now));
        self.universe_sources = index;
        assert(self@ =~= done);
    }

    /// Forgets every source that has been silent for sixty seconds or more.
    pub fn cleanup_stale_sources(&mut self, now: u64)
        requires
            old(self).wf(),
        ensures
            final(self).wf(),
            final(self).index() == old(self).index(),
            final(self)@ == surviving(old(self)@, now),
            forall|i: int|
                0 <= i < final(self)@.len() ==> elapsed_since(
                    now,
                    (#[trigger] final(self)@[i]).last_packet,
                ) < EVICTION_NS,
    {
        let ghost before = self@;
        let ghost mut origin: Seq<int> = Seq::new(before.len(), |k: int| k);
        let ghost mut seen: int = 0;
        let mut i: usize = 0;
        assert(before.take(0) =~= Seq::<EntryModel>::empty());
        assert(surviving(Seq::<EntryModel>::empty(), now) =~= Seq::<EntryModel>::empty()) by {
            reveal(Seq::filter);
        }
        while i < self.entries.len()
            invariant
                i <= self.entries.len(),
                self.windows_wf(),
                self.index() == old(self).index(),
                0 <= seen <= before.len(),
                seen - i == before.len() - self.entries.len(),
                origin.len() == self.entries.len(),
                forall|k: int|
                    0 <= k < origin.len() ==> 0 <= #[trigger] origin[k] < before.len() && self@[k]
                        == before[origin[k]],
                forall|a: int, b: int|
                    0 <= a < b < origin.len() ==> #[trigger] origin[a] < #[trigger] origin[b],
                forall|k: int| i <= k < origin.len() ==> #[trigger] origin[k] == k - i + seen,
                self@.take(i as int) == surviving(before.take(seen), now),
            decreases self.entries.len() - i,
        {
            let ghost mid = self@;
            let ghost e = before[seen];
            assert(mid[i as int] == self.entries@[i as int]@);
            assert(origin[i as int] == seen);
            assert(mid[i as int] == e);
            proof {
                lemma_surviving_push(before.take(seen), e, now);
                assert(before.take(seen + 1) =~= before.take(seen).push(e));
            }
            if elapsed(now, self.entries[i].last_packet) < EVICTION_NS {
                assert(mid.take(i + 1) =~= mid.take(i as int).push(e));
                i += 1;
            } else {
                self.entries.remove(i);
                proof {
                    origin = origin.remove(i as int);
                    assert(self@ =~= mid.remove(i as int));
                    assert(self@.take(i as int) =~= mid.take(i as int));
                }
            }
            proof {
                seen = seen + 1;
            }
        }
        proof {
            assert(seen == before.len());
            assert(before.take(seen) =~= before);
            assert(self@.take(i as int) =~= self@);
            let after = self@;
            assert forall|a: int, b: int| 0 <= a < b < after.len() implies (#[trigger] after[a]).key
                != (#[trigger] after[b]).key by {
                assert(origin[a] < origin[b]);
                assert(after[a] == before[origin[a]]);
                assert(after[b] == before[origin[b]]);
            }
            assert forall|a: int| 0 <= a < after.len() implies strictly_sorted(
                #[trigger] after[a].source.universes,
            ) by {
                assert(after[a] == before[origin[a]]);
            }
            lemma_surviving(before, now);
        }
    }
}

impl Default for SourceManager {
    fn default() -> (manager: Self)
        ensures
            manager.wf(),
            manager@ == Seq::<EntryModel>::empty(),
    {
        SourceManager::new()
    }
}

/// The universes of an optional list; none if there is no list.
pub open spec fn listed(universes: Option<Vec<u16>>) -> Seq<u16> {
    match universes {
        Some(v) => v@,
        None => Seq::empty(),
    }
}

/// The registry after a packet of the Art-Net device at `ip`.
pub open spec fn artnet_update(
    entries: Seq<EntryModel>,
    ip: Seq<u8>,
    short_name: Seq<char>,
    long_name: Seq<char>,
    mac: Option<[u8; 6]>,
    universes: Seq<u16>,
    direction: Option<SourceDirection>,
    sequence: Option<u8>,
    now: u64,
    wall_ms: u64,
) -> Seq<EntryModel> {
    upsert(
        entries,
        artnet_id(ip),
        new_artnet_source(ip, short_name, long_name, mac, wall_ms),
        now,
        wall_ms,
        sequence,
        direction,
        None,
        universes,
    )
}

/// The registry after a packet of the streaming-ACN device at `ip` with
/// the identifier `cid`.
pub open spec fn sacn_update(
    entries: Seq<EntryModel>,
    ip: Seq<u8>,
    source_name: Seq<char>,
    cid: Seq<u8>,
    priority: u8,
    universe: u16,
    direction: Option<SourceDirection>,
    sequence: Option<u8>,
    now: u64,
    wall_ms: u64,
) -> Seq<EntryModel> {
    upsert(
        entries,
        sacn_key(ip, cid),
        new_sacn_source(ip, source_name, cid, priority, wall_ms),
        now,
        wall_ms,
        sequence,
        direction,
        Some(priority),
        seq![universe],
    )
}

fn listed_in(universes: &Vec<u16>, index: &HashMap<u16, Vec<String>>) -> (shared: Vec<u16>)
    ensures
        shared@ == listed_twice(universes@, index@),
{
    broadcast use vstd::std_specs::hash::group_hash_axioms;

    let mut shared: Vec<u16> = Vec::new();
    let mut k: usize = 0;
    assert(universes@.take(0) =~= Seq::<u16>::empty());
    assert(listed_twice(Seq::<u16>::empty(), index@) =~= Seq::<u16>::empty()) by {
        reveal(Seq::filter);
    }
    while k < universes.len()
        invariant
            k <= universes.len(),
            shared@ == listed_twice(universes@.take(k as int), index@),
        decreases universes.len() - k,
    {
        let u = universes[k];
        proof {
            lemma_listed_twice_push(universes@.take(k as int), u, index@);
            assert(universes@.take(k + 1) =~= universes@.take(k as int).push(u));
        }
        let twice = match index.get(&u) {
            Some(ids) => ids.len() >= 2,
            None => false,
        };
        if twice {
            shared.push(u);
        }
        k += 1;
    }
    assert(universes@.take(k as int) =~= universes@);
    shared
}

/// The claimants among the first entries are claimants among more of them.
pub proof fn lemma_claimants_grow(entries: Seq<EntryModel>, u: u16, a: int, b: int)
    requires
        0 <= a <= b <= entries.len(),
    ensures
        claimants(entries.take(a), u).len() <= claimants(entries.take(b), u).len(),
    decreases b - a,
{
    if a < b {
        lemma_claimants_grow(entries, u, a, b - 1);
        assert(entries.take(b).drop_last() =~= entries.take(b - 1));
    }
}

/// An entry that claims a universe is counted among its claimants.
pub proof fn lemma_claimant_counts(entries: Seq<EntryModel>, u: u16, j: int)
    requires
        0 <= j < entries.len(),
        entries[j].source.universes.contains(u),
    ensures
        claimants(entries.take(j + 1), u).len() == claimants(entries.take(j), u).len() + 1,
{
    assert(entries.take(j + 1).drop_last() =~= entries.take(j));
    assert(entries.take(j + 1).last() == entries[j]);
}

/// A universe that two different entries claim has at least two claimants.
pub proof fn lemma_two_claimants(entries: Seq<EntryModel>, u: u16, i: int, j: int)
    requires
        0 <= i < j < entries.len(),
        entries[i].source.universes.contains(u),
        entries[j].source.universes.contains(u),
    ensures
        claimants(entries, u).len() >= 2,
{
    lemma_claimant_counts(entries, u, i);
    lemma_claimant_counts(entries, u, j);
    lemma_claimants_grow(entries, u, i + 1, j);
    lemma_claimants_grow(entries, u, j + 1, entries.len() as int);
    assert(entries.take(entries.len() as int) =~= entries);
}

/// A universe with a claimant is claimed by some entry, and one with two
/// claimants by two different entries.
pub proof fn lemma_claimants_are_entries(entries: Seq<EntryModel>, u: u16)
    ensures
        claimants(entries, u).len() >= 1 ==> exists|j: int|
            0 <= j < entries.len() && (#[trigger] entries[j]).source.universes.contains(u),
        claimants(entries, u).len() >= 2 ==> exists|i: int, j: int|
            0 <= i < j < entries.len() && (#[trigger] entries[i]).source.universes.contains(u) && (
            #[trigger] entries[j]).source.universes.contains(u),
    decreases entries.len(),
{
    if entries.len() > 0 {
        let rest = entries.drop_last();
        let last = entries.len() - 1;
        lemma_claimants_are_entries(rest, u);
        if claimants(rest, u).len() >= 1 {
            let j = choose|j: int|
                0 <= j < rest.len() && (#[trigger] rest[j]).source.universes.contains(u);
            assert(entries[j] == rest[j]);
            if entries[last].source.universes.contains(u) {
                assert(entries[j].source.universes.contains(u) && entries[last].source.universes.contains(
                    u,
                ));
            }
        }
        if claimants(rest, u).len() >= 2 {
            let (i, j) = choose|i: int, j: int|
                0 <= i < j < rest.len() && (#[trigger] rest[i]).source.universes.contains(u) && (
                #[trigger] rest[j]).source.universes.contains(u);
            assert(entries[i] == rest[i]);
            assert(entries[j] == rest[j]);
        }
        if claimants(entries, u).len() >= 1 && claimants(rest, u).len() == 0 {
            assert(entries[last].source.universes.contains(u));
        }
    }
}

/// A shared universe of a list stands among the shared ones, and only
/// universes of the list that are shared do.
pub proof fn lemma_shared_members(universes: Seq<u16>, entries: Seq<EntryModel>, u: u16)
    ensures
        shared_among(universes, entries).contains(u) <==> (universes.contains(u) && claimants(
            entries,
            u,
        ).len() >= 2),
    decreases universes.len(),
{
    reveal(Seq::filter);
    let shared = shared_among(universes, entries);
    if universes.len() > 0 {
        let rest = universes.drop_last();
        let last = universes.last();
        lemma_shared_members(rest, entries, u);
        let inner = shared_among(rest, entries);
        if universes.contains(u) {
            let k = choose|k: int| 0 <= k < universes.len() && universes[k] == u;
            if k < universes.len() - 1 {
                assert(rest[k] == u);
            }
        }
        if rest.contains(u) {
            let k = choose|k: int| 0 <= k < rest.len() && rest[k] == u;
            assert(universes[k] == u);
        }
        if claimants(entries, last).len() >= 2 {
            assert(shared == inner.push(last));
            assert(shared[shared.len() - 1] == last);
            if inner.contains(u) {
                let k = choose|k: int| 0 <= k < inner.len() && inner[k] == u;
                assert(shared[k] == u);
            }
            if shared.contains(u) {
                let k = choose|k: int| 0 <= k < shared.len() && shared[k] == u;
                if k < inner.len() {
                    assert(inner[k] == u);
                }
            }
        } else {
            assert(shared == inner);
        }
        assert(universes[universes.len() - 1] == last);
    } else {
        assert(shared =~= Seq::<u16>::empty());
    }
}

/// A source that has been silent for sixty seconds or more is not among the
/// survivors: no survivor has its key.
pub proof fn lemma_silent_sources_are_forgotten(entries: Seq<EntryModel>, now: u64, i: int)
    requires
        registry_wf(entries),
        0 <= i < entries.len(),
        elapsed_since(now, entries[i].last_packet) >= EVICTION_NS,
    ensures
        forall|k: int|
            0 <= k < surviving(entries, now).len() ==> (#[trigger] surviving(entries, now)[k]).key
                != entries[i].key,
{
    lemma_surviving(entries, now);
    let kept = surviving(entries, now);
    assert forall|k: int| 0 <= k < kept.len() implies (#[trigger] kept[k]).key
        != entries[i].key by {
        assert(entries.contains(kept[k]));
        let j = choose|j: int| 0 <= j < entries.len() && entries[j] == kept[k];
        if j < i {
            assert(entries[j].key != entries[i].key);
        } else if j > i {
            assert(entries[i].key != entries[j].key);
        }
    }
}

/// The entry at `k` claims universe `u`.
pub open spec fn claims(entries: Seq<EntryModel>, k: int, u: u16) -> bool {
    entries[k].source.universes.contains(u)
}

/// After a sweep, a universe that two different sources claim is listed as
/// a duplicate of both.
pub proof fn lemma_sweep_flags_duplicates(entries: Seq<EntryModel>, now: u64, i: int, j: int, u: u16)
    requires
        0 <= i < entries.len(),
        0 <= j < entries.len(),
        i != j,
        claims(entries, i, u),
        claims(entries, j, u),
    ensures
        swept(entries, now)[i].source.duplicate_universes.contains(u),
        swept(entries, now)[j].source.duplicate_universes.contains(u),
{
    if i < j {
        lemma_two_claimants(entries, u, i, j);
    } else {
        lemma_two_claimants(entries, u, j, i);
    }
    lemma_shared_members(entries[i].source.universes, entries, u);
    lemma_shared_members(entries[j].source.universes, entries, u);
}

/// After a sweep, a source none of whose universes another source claims
/// has no duplicates.
pub proof fn lemma_sweep_clears_unshared(entries: Seq<EntryModel>, now: u64, i: int)
    requires
        0 <= i < entries.len(),
        forall|v: u16, k: int|
            0 <= k < entries.len() && k != i && claims(entries, i, v) ==> !#[trigger] claims(
                entries,
                k,
                v,
            ),
    ensures
        swept(entries, now)[i].source.duplicate_universes.len() == 0,
{
    let dups = swept(entries, now)[i].source.duplicate_universes;
    if dups.len() > 0 {
        let v = dups[0];
        assert(dups.contains(v));
        lemma_shared_members(entries[i].source.universes, entries, v);
        lemma_claimants_are_entries(entries, v);
        let (a, b) = choose|a: int, b: int|
            0 <= a < b < entries.len() && (#[trigger] entries[a]).source.universes.contains(v) && (
            #[trigger] entries[b]).source.universes.contains(v);
        assert(claims(entries, i, v));
        if a != i {
            assert(!claims(entries, a, v));
        } else {
            assert(!claims(entries, b, v));
        }
    }
}

/// Room for many packets is room for fewer.
pub proof fn lemma_room_for_fewer(entries: Seq<EntryModel>, n: nat, m: nat)
    requires
        room_for(entries, n),
        m <= n,
    ensures
        room_for(entries, m),
{
    assert forall|i: int| 0 <= i < entries.len() implies entry_room(
        #[trigger] entries[i],
        m,
    ) by {
        assert(entry_room(entries[i], n));
    }
}

/// A registry whose counters have room for `n` packets has room for one
/// less after it has counted one.
pub proof fn lemma_upsert_keeps_room(
    entries: Seq<EntryModel>,
    key: Seq<char>,
    fresh: SourceModel,
    now: u64,
    wall_ms: u64,
    sequence: Option<u8>,
    direction: Option<SourceDirection>,
    priority: Option<u8>,
    universes: Seq<u16>,
    n: nat,
)
    requires
        n >= 1,
        room_for(entries, n),
        fresh.packet_count == 0,
    ensures
        room_for(
            upsert(entries, key, fresh, now, wall_ms, sequence, direction, priority, universes),
            (n - 1) as nat,
        ),
{
    let after = upsert(
        entries,
        key,
        fresh,
        now,
        wall_ms,
        sequence,
        direction,
        priority,
        universes,
    );
    lemma_find_key(entries, key, 0);
    let i = find_key(entries, key, 0);
    assert forall|k: int| 0 <= k < after.len() implies entry_room(
        #[trigger] after[k],
        (n - 1) as nat,
    ) by {
        let base = if i < entries.len() {
            entries[i]
        } else {
            fresh_entry(key, fresh, now)
        };
        if k != i {
            assert(after[k] == entries[k]);
            assert(entry_room(entries[k], n));
        } else {
            assert(entry_room(base, n));
            let seen = arrival(base, now, wall_ms, sequence);
            assert(after[k] == observed(seen, direction, priority, universes));
            match sequence {
                Some(s) => {
                    match base.sequence.last_sequence {
                        Some(last) => {
                            assert(crate::trackers::sequence_gap(last, s) <= 255);
                        },
                        None => {},
                    }
                    assert(base.sequence.after_packet(s, now).room_for((n - 1) as nat));
                },
                None => {},
            }
            assert(entry_room(seen, (n - 1) as nat));
        }
    }
}

} // verus!
