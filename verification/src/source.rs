//! A discovered device and what is known of it.
use crate::sacn::{
    cid_text, cid_to_string, lemma_cid_prefix_opens, lemma_cid_text_injective,
    lemma_cid_text_unfolds,
};
use crate::text::{
    hex_byte, ipv4_text, ipv4_to_string, lemma_hex_digit_injective, lemma_ipv4_text_injective,
    lemma_same_opening, push_char, push_hex_byte,
};
use crate::trackers::{elapsed, elapsed_since, PacketLoss};
use vstd::prelude::*;
use vstd::string::*;

verus! {

/// Silence after which an active source counts as idle: three seconds.
pub const ACTIVE_WINDOW_NS: u64 = 3_000_000_000;

/// Silence after which a source counts as stale: ten seconds.
pub const IDLE_WINDOW_NS: u64 = 10_000_000_000;

/// Below this many frames per second a sending source is slow.
pub const FPS_LOW_THRESHOLD: u64 = 20;

/// Above this many frames per second a source is faster than DMX allows.
pub const FPS_HIGH_THRESHOLD: u64 = 44;

/// The protocol a source speaks.
#[derive(Debug, Clone, Copy, PartialEq, Eq, Structural)]
pub enum Protocol {
    ArtNet,
    Sacn,
}

/// How recently a source was heard.
#[derive(Debug, Clone, Copy, PartialEq, Eq, Structural)]
pub enum SourceStatus {
    /// Heard within the last three seconds.
    Active,
    /// Silent for three to ten seconds.
    Idle,
    /// Silent for ten seconds or more.
    Stale,
}

/// Whether a device sends DMX data, receives it, or both.
#[derive(Debug, Clone, Copy, PartialEq, Eq, Structural)]
pub enum SourceDirection {
    Sending,
    Receiving,
    Both,
    Unknown,
}

/// The status of a source that has been silent for `silence` nanoseconds.
pub open spec fn status_after(silence: u64) -> SourceStatus {
    if silence < ACTIVE_WINDOW_NS {
        SourceStatus::Active
    } else if silence < IDLE_WINDOW_NS {
        SourceStatus::Idle
    } else {
        SourceStatus::Stale
    }
}

/// The direction known after `observed` has been seen of a source whose
/// direction was `current`: the first observation is taken as it is, the
/// opposite of a known direction makes `Both`, and nothing else changes it.
pub open spec fn merge_direction(
    current: SourceDirection,
    observed: SourceDirection,
) -> SourceDirection {
    match (current, observed) {
        (SourceDirection::Unknown, d) => d,
        (SourceDirection::Sending, SourceDirection::Receiving) => SourceDirection::Both,
        (SourceDirection::Receiving, SourceDirection::Sending) => SourceDirection::Both,
        (c, _) => c,
    }
}

/// How much is known of a direction: nothing, one side, or both.
pub open spec fn direction_rank(d: SourceDirection) -> int {
    match d {
        SourceDirection::Unknown => 0,
        SourceDirection::Sending => 1,
        SourceDirection::Receiving => 1,
        SourceDirection::Both => 2,
    }
}

/// Combines the known direction of a source with a new observation.
pub fn merged_direction(current: SourceDirection, observed: SourceDirection) -> (d:
    SourceDirection)
    ensures
        d == merge_direction(current, observed),
{
    match (current, observed) {
        (SourceDirection::Unknown, d) => d,
        (SourceDirection::Sending, SourceDirection::Receiving) => SourceDirection::Both,
        (SourceDirection::Receiving, SourceDirection::Sending) => SourceDirection::Both,
        (c, _) => c,
    }
}

/// `Both` is final, a repeated observation changes nothing, and the two
/// opposite observations make `Both` in either order.
pub proof fn lemma_direction_lattice(current: SourceDirection, observed: SourceDirection)
    ensures
        merge_direction(SourceDirection::Both, observed) == SourceDirection::Both,
        merge_direction(merge_direction(current, observed), observed) == merge_direction(
            current,
            observed,
        ),
        merge_direction(
            merge_direction(SourceDirection::Unknown, SourceDirection::Sending),
            SourceDirection::Receiving,
        ) == SourceDirection::Both,
        merge_direction(
            merge_direction(SourceDirection::Unknown, SourceDirection::Receiving),
            SourceDirection::Sending,
        ) == SourceDirection::Both,
{
}

/// An observation of sending or receiving never lessens what is known: the
/// direction keeps its rank or rises, and a known side is never dropped.
pub proof fn lemma_direction_never_regresses(
    current: SourceDirection,
    observed: SourceDirection,
)
    requires
        observed == SourceDirection::Sending || observed == SourceDirection::Receiving,
    ensures
        direction_rank(merge_direction(current, observed)) >= direction_rank(current),
        direction_rank(merge_direction(current, observed)) >= direction_rank(observed),
        current != SourceDirection::Unknown && merge_direction(current, observed) != current
            ==> merge_direction(current, observed) == SourceDirection::Both,
{
}

/// The warning that a frame rate calls for: `low` for a source that sends
/// fewer than twenty frames a second, `high` above forty-four.
pub open spec fn fps_warning_of(fps: u64) -> Option<Seq<char>> {
    if fps > 0 && fps < FPS_LOW_THRESHOLD {
        Some("low"@)
    } else if fps > FPS_HIGH_THRESHOLD {
        Some("high"@)
    } else {
        None
    }
}

/// The warning, if any, that a frame rate calls for.
pub fn fps_warning(fps: u64) -> (warning: Option<String>)
    ensures
        text_of(warning) == fps_warning_of(fps),
{
    if fps > 0 && fps < FPS_LOW_THRESHOLD {
        Some(String::from_str("low"))
    } else if fps > FPS_HIGH_THRESHOLD {
        Some(String::from_str("high"))
    } else {
        None
    }
}

/// The characters of an optional string.
pub open spec fn text_of(s: Option<String>) -> Option<Seq<char>> {
    match s {
        Some(t) => Some(t@),
        None => None,
    }
}

/// A hardware address as six upper-case hexadecimal pairs with colons
/// between.
pub open spec fn mac_text(mac: Seq<u8>) -> Seq<char>
    recommends
        mac.len() == 6,
{
    let a = (Seq::<char>::empty() + hex_byte(mac[0], true)).push(':') + hex_byte(mac[1], true);
    let b = a.push(':') + hex_byte(mac[2], true);
    let c = b.push(':') + hex_byte(mac[3], true);
    let d = c.push(':') + hex_byte(mac[4], true);
    d.push(':') + hex_byte(mac[5], true)
}

/// Renders a hardware address as text.
pub fn mac_to_string(mac: &[u8; 6]) -> (text: String)
    ensures
        text@ == mac_text(mac@),
{
    let mut text = String::new();
    push_hex_byte(&mut text, mac[0], true);
    push_char(&mut text, ':');
    push_hex_byte(&mut text, mac[1], true);
    push_char(&mut text, ':');
    push_hex_byte(&mut text, mac[2], true);
    push_char(&mut text, ':');
    push_hex_byte(&mut text, mac[3], true);
    push_char(&mut text, ':');
    push_hex_byte(&mut text, mac[4], true);
    push_char(&mut text, ':');
    push_hex_byte(&mut text, mac[5], true);
    text
}

/// The registry key, and id, of the Art-Net device at an address.
pub open spec fn artnet_id(ip: Seq<u8>) -> Seq<char> {
    "artnet-"@ + ipv4_text(ip)
}

/// The registry key, and id, of the streaming-ACN source with a component
/// identifier.
pub open spec fn sacn_id(cid: Seq<u8>) -> Seq<char> {
    "sacn-"@ + cid_text(cid)
}

/// The registry key of a streaming-ACN receiver that was only ever seen as
/// the destination of traffic, and so never told its identifier.
pub open spec fn sacn_receiver_id(ip: Seq<u8>) -> Seq<char> {
    "sacn-recv-"@ + ipv4_text(ip)
}

/// The all-zero component identifier of a device that never told its own.
pub open spec fn zero_cid() -> Seq<u8> {
    Seq::new(16, |i: int| 0u8)
}

/// The registry key, and id, of a streaming-ACN device: made from its
/// address if its identifier is all zeros, otherwise from its identifier.
pub open spec fn sacn_key(ip: Seq<u8>, cid: Seq<u8>) -> Seq<char> {
    if cid == zero_cid() {
        sacn_receiver_id(ip)
    } else {
        sacn_id(cid)
    }
}

/// Art-Net devices with the same id have the same address.
pub proof fn lemma_artnet_id_injective(a: Seq<u8>, b: Seq<u8>)
    requires
        a.len() == 4,
        b.len() == 4,
        artnet_id(a) == artnet_id(b),
    ensures
        a == b,
{
    lemma_same_opening("artnet-"@, ipv4_text(a), ipv4_text(b));
    lemma_ipv4_text_injective(a, b);
}

/// Streaming-ACN devices that never told their identifier and have the
/// same id have the same address: each such device has an id of its own.
pub proof fn lemma_receiver_id_injective(a: Seq<u8>, b: Seq<u8>)
    requires
        a.len() == 4,
        b.len() == 4,
        sacn_key(a, zero_cid()) == sacn_key(b, zero_cid()),
    ensures
        a == b,
{
    lemma_same_opening("sacn-recv-"@, ipv4_text(a), ipv4_text(b));
    lemma_ipv4_text_injective(a, b);
}

/// Streaming-ACN devices with the same key have the same identifier, and
/// where that is all zeros the same address.
pub proof fn lemma_sacn_key_injective(ip1: Seq<u8>, cid1: Seq<u8>, ip2: Seq<u8>, cid2: Seq<u8>)
    requires
        ip1.len() == 4,
        ip2.len() == 4,
        cid1.len() == 16,
        cid2.len() == 16,
        sacn_key(ip1, cid1) == sacn_key(ip2, cid2),
    ensures
        cid1 == cid2,
        cid1 == zero_cid() ==> ip1 == ip2,
{
    reveal_strlit("sacn-recv-");
    reveal_strlit("sacn-");
    if cid1 == zero_cid() && cid2 == zero_cid() {
        lemma_receiver_id_injective(ip1, ip2);
    } else if cid1 != zero_cid() && cid2 != zero_cid() {
        lemma_same_opening("sacn-"@, cid_text(cid1), cid_text(cid2));
        lemma_cid_text_injective(cid1, cid2);
    } else {
        let named = if cid1 == zero_cid() {
            cid2
        } else {
            cid1
        };
        let by_address = if cid1 == zero_cid() {
            sacn_receiver_id(ip1)
        } else {
            sacn_receiver_id(ip2)
        };
        lemma_cid_text_unfolds(named);
        lemma_cid_prefix_opens(named, 16);
        lemma_hex_digit_injective(named[0] / 16, 0, false);
        assert(by_address[5] == 'r');
        assert(sacn_id(named)[5] == cid_text(named)[0]);
    }
}

/// No Art-Net device has the key of a streaming-ACN device.
pub proof fn lemma_protocol_keys_differ(artnet_ip: Seq<u8>, sacn_ip: Seq<u8>, cid: Seq<u8>)
    ensures
        artnet_id(artnet_ip) != sacn_key(sacn_ip, cid),
{
    reveal_strlit("artnet-");
    reveal_strlit("sacn-recv-");
    reveal_strlit("sacn-");
    assert(artnet_id(artnet_ip)[0] == 'a');
    assert(sacn_key(sacn_ip, cid)[0] == 's');
}

/// Whether a component identifier is all zeros, as that of a device which
/// never told its own.
pub fn is_zero_cid(cid: &[u8; 16]) -> (zero: bool)
    ensures
        zero == (cid@ == zero_cid()),
{
    let mut i: usize = 0;
    while i < 16
        invariant
            i <= 16,
            forall|k: int| 0 <= k < i ==> cid@[k] == 0,
        decreases 16 - i,
    {
        if cid[i] != 0 {
            assert(zero_cid()[i as int] == 0);
            return false;
        }
        i += 1;
    }
    assert(cid@ =~= zero_cid());
    true
}

/// Builds the key of the streaming-ACN device at `ip` with identifier
/// `cid`.
pub fn make_sacn_key(ip: &[u8; 4], cid: &[u8; 16]) -> (id: String)
    ensures
        id@ == sacn_key(ip@, cid@),
{
    if is_zero_cid(cid) {
        make_sacn_receiver_id(ip)
    } else {
        make_sacn_id(cid)
    }
}

/// Builds the key of the Art-Net device at `ip`.
pub fn make_artnet_id(ip: &[u8; 4]) -> (id: String)
    ensures
        id@ == artnet_id(ip@),
{
    let mut id = String::from_str("artnet-");
    let ip_text = ipv4_to_string(ip);
    id.append(ip_text.as_str());
    id
}

/// Builds the key of the streaming-ACN source with identifier `cid`.
pub fn make_sacn_id(cid: &[u8; 16]) -> (id: String)
    ensures
        id@ == sacn_id(cid@),
{
    let mut id = String::from_str("sacn-");
    let cid_string = cid_to_string(cid);
    id.append(cid_string.as_str());
    id
}

/// Builds the key of the inferred streaming-ACN receiver at `ip`.
pub fn make_sacn_receiver_id(ip: &[u8; 4]) -> (id: String)
    ensures
        id@ == sacn_receiver_id(ip@),
{
    let mut id = String::from_str("sacn-recv-");
    let ip_text = ipv4_to_string(ip);
    id.append(ip_text.as_str());
    id
}

/// A device seen on the network.
#[derive(Debug, Clone)]
pub struct NetworkSource {
    pub id: String,
    pub ip: String,
    pub hostname: Option<String>,
    pub name: String,
    pub protocol: Protocol,
    /// Sorted, each universe once.
    pub universes: Vec<u16>,
    pub status: SourceStatus,
    pub direction: SourceDirection,
    /// Packets within the last second.
    pub fps: u64,
    pub packet_count: u64,
    /// Wall-clock milliseconds since the Unix epoch.
    pub first_seen: u64,
    /// Wall-clock milliseconds since the Unix epoch.
    pub last_seen: u64,
    pub packet_loss: PacketLoss,
    /// `low`, `high` or nothing.
    pub fps_warning: Option<String>,
    /// The universes of this source that another source claims too.
    pub duplicate_universes: Vec<u16>,
    pub artnet_short_name: Option<String>,
    pub artnet_long_name: Option<String>,
    pub mac_address: Option<String>,
    pub sacn_cid: Option<String>,
    pub sacn_priority: Option<u8>,
}

/// What a `NetworkSource` holds, as plain mathematical values.
pub struct SourceModel {
    pub id: Seq<char>,
    pub ip: Seq<char>,
    pub hostname: Option<Seq<char>>,
    pub name: Seq<char>,
    pub protocol: Protocol,
    pub universes: Seq<u16>,
    pub status: SourceStatus,
    pub direction: SourceDirection,
    pub fps: u64,
    pub packet_count: u64,
    pub first_seen: u64,
    pub last_seen: u64,
    pub packet_loss: PacketLoss,
    pub fps_warning: Option<Seq<char>>,
    pub duplicate_universes: Seq<u16>,
    pub artnet_short_name: Option<Seq<char>>,
    pub artnet_long_name: Option<Seq<char>>,
    pub mac_address: Option<Seq<char>>,
    pub sacn_cid: Option<Seq<char>>,
    pub sacn_priority: Option<u8>,
}

impl View for NetworkSource {
    type V = SourceModel;

    open spec fn view(&self) -> SourceModel {
        SourceModel {
            id: self.id@,
            ip: self.ip@,
            hostname: text_of(self.hostname),
            name: self.name@,
            protocol: self.protocol,
            universes: self.universes@,
            status: self.status,
            direction: self.direction,
            fps: self.fps,
            packet_count: self.packet_count,
            first_seen: self.first_seen,
            last_seen: self.last_seen,
            packet_loss: self.packet_loss,
            fps_warning: text_of(self.fps_warning),
            duplicate_universes: self.duplicate_universes@,
            artnet_short_name: text_of(self.artnet_short_name),
            artnet_long_name: text_of(self.artnet_long_name),
            mac_address: text_of(self.mac_address),
            sacn_cid: text_of(self.sacn_cid),
            sacn_priority: self.sacn_priority,
        }
    }
}

/// The display name of an Art-Net device: its long name, else its short
/// name, else its address.
pub open spec fn artnet_display_name(ip: Seq<u8>, short_name: Seq<char>, long_name: Seq<char>) -> Seq<
    char,
> {
    if long_name.len() > 0 {
        long_name
    } else if short_name.len() > 0 {
        short_name
    } else {
        "ArtNet @ "@ + ipv4_text(ip)
    }
}

/// The display name of a streaming-ACN source: its name, else its address.
pub open spec fn sacn_display_name(ip: Seq<u8>, source_name: Seq<char>) -> Seq<char> {
    if source_name.len() > 0 {
        source_name
    } else {
        "sACN @ "@ + ipv4_text(ip)
    }
}

/// An Art-Net device as it stands when it is first seen, at wall-clock time
/// `now_ms`.
pub open spec fn new_artnet_source(
    ip: Seq<u8>,
    short_name: Seq<char>,
    long_name: Seq<char>,
    mac: Option<[u8; 6]>,
    now_ms: u64,
) -> SourceModel {
    SourceModel {
        id: artnet_id(ip),
        ip: ipv4_text(ip),
        hostname: None,
        name: artnet_display_name(ip, short_name, long_name),
        protocol: Protocol::ArtNet,
        universes: Seq::empty(),
        status: SourceStatus::Active,
        direction: SourceDirection::Unknown,
        fps: 0,
        packet_count: 0,
        first_seen: now_ms,
        last_seen: now_ms,
        packet_loss: PacketLoss { lost: 0, expected: 0 },
        fps_warning: None,
        duplicate_universes: Seq::empty(),
        artnet_short_name: Some(short_name),
        artnet_long_name: Some(long_name),
        mac_address: match mac {
            Some(m) => Some(mac_text(m@)),
            None => None,
        },
        sacn_cid: None,
        sacn_priority: None,
    }
}

/// A streaming-ACN source as it stands when it is first seen, at wall-clock
/// time `now_ms`.
pub open spec fn new_sacn_source(
    ip: Seq<u8>,
    source_name: Seq<char>,
    cid: Seq<u8>,
    priority: u8,
    now_ms: u64,
) -> SourceModel {
    SourceModel {
        id: sacn_key(ip, cid),
        ip: ipv4_text(ip),
        hostname: None,
        name: sacn_display_name(ip, source_name),
        protocol: Protocol::Sacn,
        universes: Seq::empty(),
        status: SourceStatus::Active,
        direction: SourceDirection::Unknown,
        fps: 0,
        packet_count: 0,
        first_seen: now_ms,
        last_seen: now_ms,
        packet_loss: PacketLoss { lost: 0, expected: 0 },
        fps_warning: None,
        duplicate_universes: Seq::empty(),
        artnet_short_name: None,
        artnet_long_name: None,
        mac_address: None,
        sacn_cid: Some(cid_text(cid)),
        sacn_priority: Some(priority),
    }
}

impl NetworkSource {
    /// A newly discovered Art-Net device.
    pub fn from_artnet(
        ip: &[u8; 4],
        short_name: &str,
        long_name: &str,
        mac: Option<[u8; 6]>,
        now_ms: u64,
    ) -> (source: Self)
        ensures
            source@ == new_artnet_source(ip@, short_name@, long_name@, mac, now_ms),
    {
        let mac_string = match mac {
            Some(m) => Some(mac_to_string(&m)),
            None => None,
        };
        let name = if !long_name.is_empty() {
            String::from_str(long_name)
        } else if !short_name.is_empty() {
            String::from_str(short_name)
        } else {
            let mut name = String::from_str("ArtNet @ ");
            let ip_text = ipv4_to_string(ip);
            name.append(ip_text.as_str());
            name
        };
        NetworkSource {
            id: make_artnet_id(ip),
            ip: ipv4_to_string(ip),
            hostname: None,
            name,
            protocol: Protocol::ArtNet,
            universes: Vec::new(),
            status: SourceStatus::Active,
            direction: SourceDirection::Unknown,
            fps: 0,
            packet_count: 0,
            first_seen: now_ms,
            last_seen: now_ms,
            packet_loss: PacketLoss { lost: 0, expected: 0 },
            fps_warning: None,
            duplicate_universes: Vec::new(),
            artnet_short_name: Some(String::from_str(short_name)),
            artnet_long_name: Some(String::from_str(long_name)),
            mac_address: mac_string,
            sacn_cid: None,
            sacn_priority: None,
        }
    }

    /// A newly discovered streaming-ACN source.
    pub fn from_sacn(ip: &[u8; 4], source_name: &str, cid: &[u8; 16], priority: u8, now_ms: u64) -> (source:
        Self)
        ensures
            source@ == new_sacn_source(ip@, source_name@, cid@, priority, now_ms),
    {
        let cid_string = cid_to_string(cid);
        let name = if !source_name.is_empty() {
            String::from_str(source_name)
        } else {
            let mut name = String::from_str("sACN @ ");
            let ip_text = ipv4_to_string(ip);
            name.append(ip_text.as_str());
            name
        };
        NetworkSource {
            id: make_sacn_key(ip, cid),
            ip: ipv4_to_string(ip),
            hostname: None,
            name,
            protocol: Protocol::Sacn,
            universes: Vec::new(),
            status: SourceStatus::Active,
            direction: SourceDirection::Unknown,
            fps: 0,
            packet_count: 0,
            first_seen: now_ms,
            last_seen: now_ms,
            packet_loss: PacketLoss { lost: 0, expected: 0 },
            fps_warning: None,
            duplicate_universes: Vec::new(),
            artnet_short_name: None,
            artnet_long_name: None,
            mac_address: None,
            sacn_cid: Some(cid_string),
            sacn_priority: Some(priority),
        }
    }

    /// Sets the status from the time that has passed between the last
    /// packet and `now`.
    pub fn update_status(&mut self, now: u64, last_packet: u64)
        ensures
            final(self)@ == (SourceModel {
                status: status_after(elapsed_since(now, last_packet)),
                ..old(self)@
            }),
    {
        let silence = elapsed(now, last_packet);
        self.status = if silence < ACTIVE_WINDOW_NS {
            SourceStatus::Active
        } else if silence < IDLE_WINDOW_NS {
            SourceStatus::Idle
        } else {
            SourceStatus::Stale
        };
    }
}

} // verus!
