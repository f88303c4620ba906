//! What a received datagram or a captured frame does to the registry and to
//! the frame store, and the event that tells of it.
use crate::artnet::{
    artnet_decoding, artnet_universe, be16, calculate_artnet_universe, parse_artnet_packet,
    ArtNetPacket, ArtPollReply, ARTNET_PORT,
};
use crate::frame::{
    is_broadcast, is_broadcast_address, is_multicast, is_multicast_address, is_udp_frame,
    parse_ip_udp_packet, udp_start,
};
use crate::registry::{
    artnet_update, claimants, ids_of, lemma_room_for_fewer, lemma_upsert_keeps_room, room_for,
    sacn_update, surviving, swept, EntryModel, SourceManager,
};
use crate::sacn::{
    lemma_universe_words, parse_sacn_packet, sacn_decoding, SacnPacket, SACN_PORT,
};
use crate::source::{new_sacn_source, sacn_key, zero_cid, SourceDirection};
use crate::store::DmxStore;
use vstd::prelude::*;
use vstd::slice::slice_to_vec;

verus! {

/// The priority taken for a source that is known from universe discovery
/// only.
pub const DISCOVERY_PRIORITY: u8 = 100;

/// A frame of DMX data with where and when it was seen.
#[derive(Debug, Clone)]
pub struct DmxData {
    pub universe: u16,
    pub data: Vec<u8>,
    pub source_ip: [u8; 4],
    /// Wall-clock milliseconds since the Unix epoch.
    pub timestamp: u64,
}

/// What observers are told.
#[derive(Debug, Clone)]
pub enum ListenerEvent {
    /// The set of sources, or what is known of one, has changed.
    SourcesUpdated,
    /// A universe has a new frame.
    DmxData(DmxData),
}

/// Which protocols to listen for, and on which local address.
#[derive(Debug, Clone)]
pub struct ListenerConfig {
    pub listen_artnet: bool,
    pub listen_sacn: bool,
    pub bind_address: [u8; 4],
}

impl Default for ListenerConfig {
    /// Both protocols, on every local address.
    fn default() -> (config: Self)
        ensures
            config.listen_artnet,
            config.listen_sacn,
            config.bind_address@ == seq![0u8, 0u8, 0u8, 0u8],
    {
        let config = ListenerConfig {
            listen_artnet: true,
            listen_sacn: true,
            bind_address: [0, 0, 0, 0],
        };
        assert(config.bind_address@ =~= seq![0u8, 0u8, 0u8, 0u8]);
        config
    }
}

/// `event` tells of the frame `data` of `universe`, sent from `ip` and seen
/// at wall-clock time `wall_ms`.
pub open spec fn is_frame_event(
    event: Option<ListenerEvent>,
    universe: u16,
    data: Seq<u8>,
    ip: Seq<u8>,
    wall_ms: u64,
) -> bool {
    &&& event matches Some(ListenerEvent::DmxData(frame))
    &&& frame.universe == universe
    &&& frame.data@ == data
    &&& frame.source_ip@ == ip
    &&& frame.timestamp == wall_ms
}

/// The universes of the first `n` ports of a node that are outputs.
pub open spec fn port_universes(reply: ArtPollReply, n: int) -> Seq<u16>
    decreases n,
{
    if n <= 0 || n > 4 {
        Seq::empty()
    } else if reply.port_types@[n - 1] & 0x80 != 0 {
        port_universes(reply, n - 1).push(
            artnet_universe(reply.net_switch, reply.sub_switch, reply.sw_out@[n - 1]),
        )
    } else {
        port_universes(reply, n - 1)
    }
}

/// The universes that a node announces: those of its output ports, of which
/// a reply describes at most four.
pub open spec fn announced_universes(reply: ArtPollReply) -> Seq<u16> {
    port_universes(
        reply,
        if reply.num_ports <= 4 {
            reply.num_ports as int
        } else {
            4
        },
    )
}

/// Collects the universes of a node's output ports.
pub fn poll_reply_universes(reply: &ArtPollReply) -> (universes: Vec<u16>)
    ensures
        universes@ == announced_universes(*reply),
{
    let ports: usize = if reply.num_ports <= 4 {
        reply.num_ports as usize
    } else {
        4
    };
    let mut universes: Vec<u16> = Vec::new();
    let mut i: usize = 0;
    while i < ports
        invariant
            i <= ports <= 4,
            universes@ == port_universes(*reply, i as int),
        decreases ports - i,
    {
        if reply.port_types[i] & 0x80 != 0 {
            universes.push(
                calculate_artnet_universe(reply.net_switch, reply.sub_switch, reply.sw_out[i]),
            );
        }
        i += 1;
    }
    universes
}

fn single(universe: u16) -> (list: Vec<u16>)
    ensures
        list@ == seq![universe],
{
    let mut list: Vec<u16> = Vec::new();
    list.push(universe);
    assert(list@ =~= seq![universe]);
    list
}

/// What an Art-Net packet that a socket received from `src_ip` does: a
/// reply enters or refreshes the node it describes, a frame enters or
/// refreshes its sender and is stored, anything else does nothing.
pub open spec fn artnet_outcome(
    packet: Option<ArtNetPacket>,
    src_ip: Seq<u8>,
    now: u64,
    wall_ms: u64,
    sources: Seq<EntryModel>,
    frames: Map<u16, Seq<u8>>,
    sources_after: Seq<EntryModel>,
    frames_after: Map<u16, Seq<u8>>,
    event: Option<ListenerEvent>,
) -> bool {
    match packet {
        Some(ArtNetPacket::PollReply(reply)) => {
            &&& sources_after == artnet_update(
                sources,
                reply.ip_address@,
                reply.short_name@,
                reply.long_name@,
                Some(reply.mac_address),
                announced_universes(reply),
                None,
                None,
                now,
                wall_ms,
            )
            &&& frames_after == frames
            &&& event == Some(ListenerEvent::SourcesUpdated)
        },
        Some(ArtNetPacket::Dmx(dmx)) => {
            &&& sources_after == artnet_update(
                sources,
                src_ip,
                ""@,
                ""@,
                None,
                seq![dmx.universe],
                Some(SourceDirection::Sending),
                Some(dmx.sequence),
                now,
                wall_ms,
            )
            &&& frames_after == frames.insert(dmx.universe, dmx.data@)
            &&& is_frame_event(event, dmx.universe, dmx.data@, src_ip, wall_ms)
        },
        _ => sources_after == sources && frames_after == frames && event is None,
    }
}

/// Applies a decoded Art-Net packet that a socket received from `src_ip`.
pub fn apply_artnet_packet(
    manager: &mut SourceManager,
    store: &mut DmxStore,
    packet: ArtNetPacket,
    src_ip: &[u8; 4],
    now: u64,
    wall_ms: u64,
) -> (event: Option<ListenerEvent>)
    requires
        old(manager).wf(),
        room_for(old(manager)@, 1),
    ensures
        final(manager).wf(),
        artnet_outcome(
            Some(packet),
            src_ip@,
            now,
            wall_ms,
            old(manager)@,
            old(store)@,
            final(manager)@,
            final(store)@,
            event,
        ),
{
    match packet {
        ArtNetPacket::PollReply(reply) => {
            let universes = poll_reply_universes(&reply);
            manager.update_artnet_source(
                &reply.ip_address,
                reply.short_name.as_str(),
                reply.long_name.as_str(),
                Some(reply.mac_address),
                Some(universes),
                None,
                now,
                wall_ms,
            );
            Some(ListenerEvent::SourcesUpdated)
        },
        ArtNetPacket::Dmx(dmx) => {
            manager.update_artnet_source_with_direction(
                src_ip,
                "",
                "",
                None,
                Some(single(dmx.universe)),
                SourceDirection::Sending,
                Some(dmx.sequence),
                now,
                wall_ms,
            );
            store.update(dmx.universe, slice_to_vec(dmx.data.as_slice()));
            Some(
                ListenerEvent::DmxData(
                    DmxData {
                        universe: dmx.universe,
                        data: dmx.data,
                        source_ip: *src_ip,
                        timestamp: wall_ms,
                    },
                ),
            )
        },
        _ => None,
    }
}

/// Decodes a datagram that arrived on the Art-Net socket from `src_ip` and
/// applies it. Foreign and malformed datagrams change nothing.
pub fn handle_artnet_datagram(
    manager: &mut SourceManager,
    store: &mut DmxStore,
    data: &[u8],
    src_ip: &[u8; 4],
    now: u64,
    wall_ms: u64,
) -> (event: Option<ListenerEvent>)
    requires
        old(manager).wf(),
        room_for(old(manager)@, 1),
    ensures
        final(manager).wf(),
        exists|packet: Option<ArtNetPacket>|
            artnet_decoding(data@, packet) && #[trigger] artnet_outcome(
                packet,
                src_ip@,
                now,
                wall_ms,
                old(manager)@,
                old(store)@,
                final(manager)@,
                final(store)@,
                event,
            ),
{
    let parsed = parse_artnet_packet(data);
    let ghost witness = parsed;
    let event = match parsed {
        Some(packet) => apply_artnet_packet(manager, store, packet, src_ip, now, wall_ms),
        None => None,
    };
    assert(artnet_outcome(
        witness,
        src_ip@,
        now,
        wall_ms,
        old(manager)@,
        old(store)@,
        manager@,
        store@,
        event,
    ));
    event
}

/// The registry after a source has announced `universes`: one packet is
/// counted for each of them, in their order.
pub open spec fn discovery_update(
    entries: Seq<EntryModel>,
    ip: Seq<u8>,
    source_name: Seq<char>,
    cid: Seq<u8>,
    universes: Seq<u16>,
    now: u64,
    wall_ms: u64,
) -> Seq<EntryModel>
    decreases universes.len(),
{
    if universes.len() == 0 {
        entries
    } else {
        sacn_update(
            discovery_update(entries, ip, source_name, cid, universes.drop_last(), now, wall_ms),
            ip,
            source_name,
            cid,
            DISCOVERY_PRIORITY,
            universes.last(),
            None,
            None,
            now,
            wall_ms,
        )
    }
}

/// Number of registry updates that a streaming-ACN packet causes.
pub open spec fn sacn_updates(packet: SacnPacket) -> nat {
    match packet {
        SacnPacket::Dmx(_) => 1,
        SacnPacket::Discovery(found) => found.universes@.len(),
        _ => 0,
    }
}

/// What a streaming-ACN packet that a socket received from `src_ip` does:
/// a frame enters or refreshes its sender and is stored, a discovery packet
/// enters or refreshes its source once for each universe, anything else
/// does nothing.
pub open spec fn sacn_outcome(
    packet: Option<SacnPacket>,
    src_ip: Seq<u8>,
    now: u64,
    wall_ms: u64,
    sources: Seq<EntryModel>,
    frames: Map<u16, Seq<u8>>,
    sources_after: Seq<EntryModel>,
    frames_after: Map<u16, Seq<u8>>,
    event: Option<ListenerEvent>,
) -> bool {
    match packet {
        Some(SacnPacket::Dmx(dmx)) => {
            &&& sources_after == sacn_update(
                sources,
                src_ip,
                dmx.source.source_name@,
                dmx.source.cid@,
                dmx.source.priority,
                dmx.source.universe,
                Some(SourceDirection::Sending),
                Some(dmx.source.sequence),
                now,
                wall_ms,
            )
            &&& frames_after == frames.insert(dmx.source.universe, dmx.data@)
            &&& is_frame_event(event, dmx.source.universe, dmx.data@, src_ip, wall_ms)
        },
        Some(SacnPacket::Discovery(found)) => {
            &&& sources_after == discovery_update(
                sources,
                src_ip,
                found.source_name@,
                found.cid@,
                found.universes@,
                now,
                wall_ms,
            )
            &&& frames_after == frames
            &&& event == Some(ListenerEvent::SourcesUpdated)
        },
        _ => sources_after == sources && frames_after == frames && event is None,
    }
}

/// Applies a decoded streaming-ACN packet that a socket received from
/// `src_ip`.
pub fn apply_sacn_packet(
    manager: &mut SourceManager,
    store: &mut DmxStore,
    packet: SacnPacket,
    src_ip: &[u8; 4],
    now: u64,
    wall_ms: u64,
) -> (event: Option<ListenerEvent>)
    requires
        old(manager).wf(),
        room_for(old(manager)@, sacn_updates(packet)),
    ensures
        final(manager).wf(),
        sacn_outcome(
            Some(packet),
            src_ip@,
            now,
            wall_ms,
            old(manager)@,
            old(store)@,
            final(manager)@,
            final(store)@,
            event,
        ),
{
    match packet {
        SacnPacket::Dmx(dmx) => {
            manager.update_sacn_source_with_direction(
                src_ip,
                dmx.source.source_name.as_str(),
                &dmx.source.cid,
                dmx.source.priority,
                dmx.source.universe,
                SourceDirection::Sending,
                Some(dmx.source.sequence),
                now,
                wall_ms,
            );
            store.update(dmx.source.universe, slice_to_vec(dmx.data.as_slice()));
            Some(
                ListenerEvent::DmxData(
                    DmxData {
                        universe: dmx.source.universe,
                        data: dmx.data,
                        source_ip: *src_ip,
                        timestamp: wall_ms,
                    },
                ),
            )
        },
        SacnPacket::Discovery(found) => {
            let ghost before = manager@;
            let ghost all = found.universes@;
            let n = found.universes.len();
            let mut i: usize = 0;
            while i < n
                invariant
                    n == all.len(),
                    all == found.universes@,
                    i <= n,
                    manager.wf(),
                    room_for(manager@, (n - i) as nat),
                    manager@ == discovery_update(
                        before,
                        src_ip@,
                        found.source_name@,
                        found.cid@,
                        all.take(i as int),
                        now,
                        wall_ms,
                    ),
                decreases n - i,
            {
                let ghost mid = manager@;
                proof {
                    lemma_room_for_fewer(mid, (n - i) as nat, 1);
                    lemma_upsert_keeps_room(
                        mid,
                        sacn_key(src_ip@, found.cid@),
                        new_sacn_source(
                            src_ip@,
                            found.source_name@,
                            found.cid@,
                            DISCOVERY_PRIORITY,
                            wall_ms,
                        ),
                        now,
                        wall_ms,
                        None,
                        None,
                        Some(DISCOVERY_PRIORITY),
                        seq![all[i as int]],
                        (n - i) as nat,
                    );
                    assert(all.take(i + 1).drop_last() =~= all.take(i as int));
                }
                manager.update_sacn_source(
                    src_ip,
                    found.source_name.as_str(),
                    &found.cid,
                    DISCOVERY_PRIORITY,
                    found.universes[i],
                    None,
                    now,
                    wall_ms,
                );
                i += 1;
            }
            assert(all.take(i as int) =~= all);
            Some(ListenerEvent::SourcesUpdated)
        },
        _ => None,
    }
}

/// Decodes a datagram that arrived on the streaming-ACN socket from
/// `src_ip` and applies it. Foreign and malformed datagrams change nothing.
pub fn handle_sacn_datagram(
    manager: &mut SourceManager,
    store: &mut DmxStore,
    data: &[u8],
    src_ip: &[u8; 4],
    now: u64,
    wall_ms: u64,
) -> (event: Option<ListenerEvent>)
    requires
        old(manager).wf(),
        room_for(old(manager)@, data@.len()),
    ensures
        final(manager).wf(),
        exists|packet: Option<SacnPacket>|
            sacn_decoding(data@, packet) && #[trigger] sacn_outcome(
                packet,
                src_ip@,
                now,
                wall_ms,
                old(manager)@,
                old(store)@,
                final(manager)@,
                final(store)@,
                event,
            ),
{
    let parsed = parse_sacn_packet(data);
    let ghost witness = parsed;
    let event = match parsed {
        Some(packet) => {
            proof {
                lemma_universe_words(data@, 120);
                lemma_room_for_fewer(manager@, data@.len(), sacn_updates(packet));
            }
            apply_sacn_packet(manager, store, packet, src_ip, now, wall_ms)
        },
        None => None,
    };
    assert(sacn_outcome(
        witness,
        src_ip@,
        now,
        wall_ms,
        old(manager)@,
        old(store)@,
        manager@,
        store@,
        event,
    ));
    event
}

/// What a captured Art-Net packet on its way from `src_ip` to `dst_ip`
/// does: a frame enters or refreshes its sender and, if it was sent to a
/// single host and not to a broadcast or multicast address, its receiver,
/// and is stored; a reply enters or refreshes the node it describes as a
/// receiver; anything else does nothing.
pub open spec fn captured_artnet_outcome(
    packet: Option<ArtNetPacket>,
    src_ip: Seq<u8>,
    dst_ip: Seq<u8>,
    now: u64,
    wall_ms: u64,
    sources: Seq<EntryModel>,
    frames: Map<u16, Seq<u8>>,
    sources_after: Seq<EntryModel>,
    frames_after: Map<u16, Seq<u8>>,
    event: Option<ListenerEvent>,
) -> bool {
    match packet {
        Some(ArtNetPacket::PollReply(reply)) => {
            &&& sources_after == artnet_update(
                sources,
                reply.ip_address@,
                reply.short_name@,
                reply.long_name@,
                Some(reply.mac_address),
                announced_universes(reply),
                Some(SourceDirection::Receiving),
                None,
                now,
                wall_ms,
            )
            &&& frames_after == frames
            &&& event == Some(ListenerEvent::SourcesUpdated)
        },
        Some(ArtNetPacket::Dmx(dmx)) => {
            let sent = artnet_update(
                sources,
                src_ip,
                ""@,
                ""@,
                None,
                seq![dmx.universe],
                Some(SourceDirection::Sending),
                Some(dmx.sequence),
                now,
                wall_ms,
            );
            &&& sources_after == if is_multicast(dst_ip) || is_broadcast(dst_ip) {
                sent
            } else {
                artnet_update(
                    sent,
                    dst_ip,
                    ""@,
                    ""@,
                    None,
                    seq![dmx.universe],
                    Some(SourceDirection::Receiving),
                    None,
                    now,
                    wall_ms,
                )
            }
            &&& frames_after == frames.insert(dmx.universe, dmx.data@)
            &&& is_frame_event(event, dmx.universe, dmx.data@, src_ip, wall_ms)
        },
        _ => sources_after == sources && frames_after == frames && event is None,
    }
}

/// Applies a decoded Art-Net packet that was captured on its way from
/// `src_ip` to `dst_ip`.
pub fn apply_captured_artnet(
    manager: &mut SourceManager,
    store: &mut DmxStore,
    packet: ArtNetPacket,
    src_ip: &[u8; 4],
    dst_ip: &[u8; 4],
    now: u64,
    wall_ms: u64,
) -> (event: Option<ListenerEvent>)
    requires
        old(manager).wf(),
        room_for(old(manager)@, 2),
    ensures
        final(manager).wf(),
        captured_artnet_outcome(
            Some(packet),
            src_ip@,
            dst_ip@,
            now,
            wall_ms,
            old(manager)@,
            old(store)@,
            final(manager)@,
            final(store)@,
            event,
        ),
{
    match packet {
        ArtNetPacket::PollReply(reply) => {
            let universes = poll_reply_universes(&reply);
            proof {
                lemma_room_for_fewer(manager@, 2, 1);
            }
            manager.update_artnet_source_with_direction(
                &reply.ip_address,
                reply.short_name.as_str(),
                reply.long_name.as_str(),
                Some(reply.mac_address),
                Some(universes),
                SourceDirection::Receiving,
                None,
                now,
                wall_ms,
            );
            Some(ListenerEvent::SourcesUpdated)
        },
        ArtNetPacket::Dmx(dmx) => {
            proof {
                lemma_room_for_fewer(manager@, 2, 1);
                lemma_upsert_keeps_room(
                    manager@,
                    crate::source::artnet_id(src_ip@),
                    crate::source::new_artnet_source(src_ip@, ""@, ""@, None, wall_ms),
                    now,
                    wall_ms,
                    Some(dmx.sequence),
                    Some(SourceDirection::Sending),
                    None,
                    seq![dmx.universe],
                    2,
                );
            }
            manager.update_artnet_source_with_direction(
                src_ip,
                "",
                "",
                None,
                Some(single(dmx.universe)),
                SourceDirection::Sending,
                Some(dmx.sequence),
                now,
                wall_ms,
            );
            if !is_multicast_address(dst_ip) && !is_broadcast_address(dst_ip) {
                manager.update_artnet_source_with_direction(
                    dst_ip,
                    "",
                    "",
                    None,
                    Some(single(dmx.universe)),
                    SourceDirection::Receiving,
                    None,
                    now,
                    wall_ms,
                );
            }
            store.update(dmx.universe, slice_to_vec(dmx.data.as_slice()));
            Some(
                ListenerEvent::DmxData(
                    DmxData {
                        universe: dmx.universe,
                        data: dmx.data,
                        source_ip: *src_ip,
                        timestamp: wall_ms,
                    },
                ),
            )
        },
        _ => None,
    }
}

/// What a captured streaming-ACN packet on its way from `src_ip` to
/// `dst_ip` does: a frame enters or refreshes its sender and, if it was
/// sent to a single host, that host as a receiver without identifier, and
/// is stored; anything else does nothing.
pub open spec fn captured_sacn_outcome(
    packet: Option<SacnPacket>,
    src_ip: Seq<u8>,
    dst_ip: Seq<u8>,
    now: u64,
    wall_ms: u64,
    sources: Seq<EntryModel>,
    frames: Map<u16, Seq<u8>>,
    sources_after: Seq<EntryModel>,
    frames_after: Map<u16, Seq<u8>>,
    event: Option<ListenerEvent>,
) -> bool {
    match packet {
        Some(SacnPacket::Dmx(dmx)) => {
            let sent = sacn_update(
                sources,
                src_ip,
                dmx.source.source_name@,
                dmx.source.cid@,
                dmx.source.priority,
                dmx.source.universe,
                Some(SourceDirection::Sending),
                Some(dmx.source.sequence),
                now,
                wall_ms,
            );
            &&& sources_after == if is_multicast(dst_ip) || is_broadcast(dst_ip) {
                sent
            } else {
                sacn_update(
                    sent,
                    dst_ip,
                    ""@,
                    zero_cid(),
                    0,
                    dmx.source.universe,
                    Some(SourceDirection::Receiving),
                    None,
                    now,
                    wall_ms,
                )
            }
            &&& frames_after == frames.insert(dmx.source.universe, dmx.data@)
            &&& is_frame_event(event, dmx.source.universe, dmx.data@, src_ip, wall_ms)
        },
        _ => sources_after == sources && frames_after == frames && event is None,
    }
}

/// Applies a decoded streaming-ACN packet that was captured on its way from
/// `src_ip` to `dst_ip`.
pub fn apply_captured_sacn(
    manager: &mut SourceManager,
    store: &mut DmxStore,
    packet: SacnPacket,
    src_ip: &[u8; 4],
    dst_ip: &[u8; 4],
    now: u64,
    wall_ms: u64,
) -> (event: Option<ListenerEvent>)
    requires
        old(manager).wf(),
        room_for(old(manager)@, 2),
    ensures
        final(manager).wf(),
        captured_sacn_outcome(
            Some(packet),
            src_ip@,
            dst_ip@,
            now,
            wall_ms,
            old(manager)@,
            old(store)@,
            final(manager)@,
            final(store)@,
            event,
        ),
{
    match packet {
        SacnPacket::Dmx(dmx) => {
            proof {
                lemma_room_for_fewer(manager@, 2, 1);
                lemma_upsert_keeps_room(
                    manager@,
                    sacn_key(src_ip@, dmx.source.cid@),
                    new_sacn_source(
                        src_ip@,
                        dmx.source.source_name@,
                        dmx.source.cid@,
                        dmx.source.priority,
                        wall_ms,
                    ),
                    now,
                    wall_ms,
                    Some(dmx.source.sequence),
                    Some(SourceDirection::Sending),
                    Some(dmx.source.priority),
                    seq![dmx.source.universe],
                    2,
                );
            }
            manager.update_sacn_source_with_direction(
                src_ip,
                dmx.source.source_name.as_str(),
                &dmx.source.cid,
                dmx.source.priority,
                dmx.source.universe,
                SourceDirection::Sending,
                Some(dmx.source.sequence),
                now,
                wall_ms,
            );
            if !is_multicast_address(dst_ip) && !is_broadcast_address(dst_ip) {
                let unknown: [u8; 16] = [0, 0, 0, 0, 0, 0, 0, 0, 0, 0, 0, 0, 0, 0, 0, 0];
                assert(unknown@ =~= zero_cid());
                manager.update_sacn_source_with_direction(
                    dst_ip,
                    "",
                    &unknown,
                    0,
                    dmx.source.universe,
                    SourceDirection::Receiving,
                    None,
                    now,
                    wall_ms,
                );
            }
            store.update(dmx.source.universe, slice_to_vec(dmx.data.as_slice()));
            Some(
                ListenerEvent::DmxData(
                    DmxData {
                        universe: dmx.source.universe,
                        data: dmx.data,
                        source_ip: *src_ip,
                        timestamp: wall_ms,
                    },
                ),
            )
        },
        _ => None,
    }
}

/// What a captured Ethernet frame does: nothing unless it carries UDP over
/// IPv4 to or from one of the two protocol ports; otherwise what the packet
/// in its payload does, Art-Net taking precedence where both ports occur.
pub open spec fn capture_outcome(
    frame: Seq<u8>,
    now: u64,
    wall_ms: u64,
    sources: Seq<EntryModel>,
    frames: Map<u16, Seq<u8>>,
    sources_after: Seq<EntryModel>,
    frames_after: Map<u16, Seq<u8>>,
    event: Option<ListenerEvent>,
) -> bool {
    let src_ip = frame.subrange(26, 30);
    let dst_ip = frame.subrange(30, 34);
    let src_port = be16(frame[udp_start(frame)], frame[udp_start(frame) + 1]);
    let dst_port = be16(frame[udp_start(frame) + 2], frame[udp_start(frame) + 3]);
    let payload = frame.subrange(udp_start(frame) + 8, frame.len() as int);
    if !is_udp_frame(frame) {
        sources_after == sources && frames_after == frames && event is None
    } else if src_port == ARTNET_PORT || dst_port == ARTNET_PORT {
        exists|packet: Option<ArtNetPacket>|
            artnet_decoding(payload, packet) && #[trigger] captured_artnet_outcome(
                packet,
                src_ip,
                dst_ip,
                now,
                wall_ms,
                sources,
                frames,
                sources_after,
                frames_after,
                event,
            )
    } else if src_port == SACN_PORT || dst_port == SACN_PORT {
        exists|packet: Option<SacnPacket>|
            sacn_decoding(payload, packet) && #[trigger] captured_sacn_outcome(
                packet,
                src_ip,
                dst_ip,
                now,
                wall_ms,
                sources,
                frames,
                sources_after,
                frames_after,
                event,
            )
    } else {
        sources_after == sources && frames_after == frames && event is None
    }
}

/// Takes a captured Ethernet frame apart, decodes the packet in it and
/// applies it.
pub fn handle_captured_frame(
    manager: &mut SourceManager,
    store: &mut DmxStore,
    frame: &[u8],
    now: u64,
    wall_ms: u64,
) -> (event: Option<ListenerEvent>)
    requires
        old(manager).wf(),
        room_for(old(manager)@, 2),
    ensures
        final(manager).wf(),
        capture_outcome(
            frame@,
            now,
            wall_ms,
            old(manager)@,
            old(store)@,
            final(manager)@,
            final(store)@,
            event,
        ),
{
    match parse_ip_udp_packet(frame) {
        Some((src_ip, dst_ip, src_port, dst_port, payload)) => {
            if src_port == ARTNET_PORT || dst_port == ARTNET_PORT {
                let parsed = parse_artnet_packet(payload);
                let ghost witness = parsed;
                let event = match parsed {
                    Some(packet) => apply_captured_artnet(
                        manager,
                        store,
                        packet,
                        &src_ip,
                        &dst_ip,
                        now,
                        wall_ms,
                    ),
                    None => None,
                };
                assert(captured_artnet_outcome(
                    witness,
                    src_ip@,
                    dst_ip@,
                    now,
                    wall_ms,
                    old(manager)@,
                    old(store)@,
                    manager@,
                    store@,
                    event,
                ));
                event
            } else if src_port == SACN_PORT || dst_port == SACN_PORT {
                let parsed = parse_sacn_packet(payload);
                let ghost witness = parsed;
                let event = match parsed {
                    Some(packet) => apply_captured_sacn(
                        manager,
                        store,
                        packet,
                        &src_ip,
                        &dst_ip,
                        now,
                        wall_ms,
                    ),
                    None => None,
                };
                assert(captured_sacn_outcome(
                    witness,
                    src_ip@,
                    dst_ip@,
                    now,
                    wall_ms,
                    old(manager)@,
                    old(store)@,
                    manager@,
                    store@,
                    event,
                ));
                event
            } else {
                None
            }
        },
        None => None,
    }
}

/// The periodic maintenance: brings every source up to date, then forgets
/// those that have been silent for sixty seconds or more.
pub fn run_maintenance(manager: &mut SourceManager, now: u64) -> (event: ListenerEvent)
    requires
        old(manager).wf(),
    ensures
        final(manager).wf(),
        final(manager)@ == surviving(swept(old(manager)@, now), now),
        forall|u: u16| ids_of(final(manager).index(), u) == claimants(old(manager)@, u),
        event == ListenerEvent::SourcesUpdated,
{
    manager.update_statuses(now);
    manager.cleanup_stale_sources(now);
    ListenerEvent::SourcesUpdated
}

} // verus!
