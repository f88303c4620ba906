use lxmonitor::registry::{
    copy_source, insert_universe, insert_universes, SourceEntry, SourceManager,
    EVICTION_NS,
};
use lxmonitor::source::{
    fps_warning, is_zero_cid, mac_to_string, make_artnet_id, make_sacn_id, make_sacn_key,
    make_sacn_receiver_id,
    merged_direction, NetworkSource, Protocol, SourceDirection, SourceStatus, ACTIVE_WINDOW_NS,
    IDLE_WINDOW_NS,
};
use lxmonitor::store::DmxStore;
use lxmonitor::trackers::PacketLoss;

const SECOND: u64 = 1_000_000_000;
const CID_A: [u8; 16] = [1, 2, 3, 4, 5, 6, 7, 8, 9, 10, 11, 12, 13, 14, 15, 16];
const CID_B: [u8; 16] = [0xAA; 16];

fn by_id<'a>(sources: &'a [NetworkSource], id: &str) -> &'a NetworkSource {
    sources.iter().find(|s| s.id == id).unwrap()
}

#[test]
fn direction_escalates_to_both() {
    let unknown = SourceDirection::Unknown;
    let sending = SourceDirection::Sending;
    let receiving = SourceDirection::Receiving;
    let both = SourceDirection::Both;
    assert_eq!(merged_direction(unknown, sending), sending);
    assert_eq!(merged_direction(unknown, receiving), receiving);
    assert_eq!(merged_direction(sending, receiving), both);
    assert_eq!(merged_direction(receiving, sending), both);
    assert_eq!(merged_direction(both, sending), both);
    assert_eq!(merged_direction(both, receiving), both);
    assert_eq!(merged_direction(sending, sending), sending);
    assert_eq!(merged_direction(receiving, receiving), receiving);
    assert_eq!(merged_direction(sending, unknown), sending);
}

#[test]
fn sending_then_receiving_on_one_source_is_both() {
    let mut m = SourceManager::new();
    let ip = [10, 0, 0, 5];
    m.update_artnet_source_with_direction(
        &ip,
        "",
        "",
        None,
        Some(vec![1]),
        SourceDirection::Sending,
        Some(0),
        0,
        1_000,
    );
    assert_eq!(m.get_all_sources()[0].direction, SourceDirection::Sending);
    m.update_artnet_source_with_direction(
        &ip,
        "",
        "",
        None,
        Some(vec![1]),
        SourceDirection::Receiving,
        None,
        1,
        1_001,
    );
    assert_eq!(m.len(), 1);
    assert_eq!(m.get_all_sources()[0].direction, SourceDirection::Both);
    m.update_artnet_source_with_direction(
        &ip,
        "",
        "",
        None,
        None,
        SourceDirection::Sending,
        None,
        2,
        1_002,
    );
    assert_eq!(m.get_all_sources()[0].direction, SourceDirection::Both);
    assert_eq!(m.get_all_sources()[0].id, "artnet-10.0.0.5");
}

#[test]
fn update_without_direction_keeps_it() {
    let mut m = SourceManager::new();
    let ip = [10, 0, 0, 5];
    m.update_artnet_source(&ip, "a", "b", None, None, None, 0, 0);
    assert_eq!(m.get_all_sources()[0].direction, SourceDirection::Unknown);
    m.update_artnet_source_with_direction(
        &ip,
        "",
        "",
        None,
        None,
        SourceDirection::Receiving,
        None,
        1,
        1,
    );
    m.update_artnet_source(&ip, "a", "b", None, None, None, 2, 2);
    assert_eq!(m.get_all_sources()[0].direction, SourceDirection::Receiving);
}

#[test]
fn status_follows_silence() {
    let mut s = NetworkSource::from_artnet(&[1, 2, 3, 4], "", "", None, 0);
    s.update_status(2 * SECOND, 0);
    assert_eq!(s.status, SourceStatus::Active);
    s.update_status(ACTIVE_WINDOW_NS - 1, 0);
    assert_eq!(s.status, SourceStatus::Active);
    s.update_status(ACTIVE_WINDOW_NS, 0);
    assert_eq!(s.status, SourceStatus::Idle);
    s.update_status(4 * SECOND, 0);
    assert_eq!(s.status, SourceStatus::Idle);
    s.update_status(IDLE_WINDOW_NS - 1, 0);
    assert_eq!(s.status, SourceStatus::Idle);
    s.update_status(IDLE_WINDOW_NS, 0);
    assert_eq!(s.status, SourceStatus::Stale);
    s.update_status(11 * SECOND, 0);
    assert_eq!(s.status, SourceStatus::Stale);
    s.update_status(5, 10);
    assert_eq!(s.status, SourceStatus::Active);
}

#[test]
fn silent_sources_go_idle_stale_and_away() {
    let mut m = SourceManager::new();
    m.update_sacn_source(&[10, 0, 0, 9], "Desk", &CID_A, 100, 1, Some(0), 0, 0);
    assert_eq!(m.get_all_sources()[0].status, SourceStatus::Active);
    m.update_statuses(4 * SECOND);
    assert_eq!(m.get_all_sources()[0].status, SourceStatus::Idle);
    m.cleanup_stale_sources(4 * SECOND);
    assert_eq!(m.len(), 1);
    m.update_statuses(11 * SECOND);
    assert_eq!(m.get_all_sources()[0].status, SourceStatus::Stale);
    m.cleanup_stale_sources(EVICTION_NS - 1);
    assert_eq!(m.len(), 1);
    m.update_statuses(61 * SECOND);
    m.cleanup_stale_sources(61 * SECOND);
    assert_eq!(m.len(), 0);
    assert!(m.get_all_sources().is_empty());
}

#[test]
fn eviction_at_exactly_sixty_seconds() {
    let mut m = SourceManager::new();
    m.update_artnet_source(&[10, 0, 0, 1], "", "", None, None, None, 0, 0);
    m.update_artnet_source(&[10, 0, 0, 2], "", "", None, None, None, 30 * SECOND, 0);
    m.update_artnet_source(&[10, 0, 0, 3], "", "", None, None, None, 1, 0);
    m.cleanup_stale_sources(EVICTION_NS);
    let left = m.get_all_sources();
    assert_eq!(left.len(), 2);
    assert_eq!(left[0].ip, "10.0.0.2");
    assert_eq!(left[1].ip, "10.0.0.3");
}

#[test]
fn a_packet_brings_a_stale_source_back() {
    let mut m = SourceManager::new();
    m.update_artnet_source(&[10, 0, 0, 1], "", "", None, None, None, 0, 0);
    m.update_statuses(20 * SECOND);
    assert_eq!(m.get_all_sources()[0].status, SourceStatus::Stale);
    m.update_artnet_source(&[10, 0, 0, 1], "", "", None, None, None, 21 * SECOND, 21_000);
    let s = &m.get_all_sources()[0];
    assert_eq!(s.status, SourceStatus::Active);
    assert_eq!(s.packet_count, 2);
    assert_eq!(s.first_seen, 0);
    assert_eq!(s.last_seen, 21_000);
}

#[test]
fn universes_claimed_twice_are_flagged() {
    let mut m = SourceManager::new();
    m.update_sacn_source(&[10, 0, 0, 1], "A", &CID_A, 100, 7, None, 0, 0);
    m.update_sacn_source(&[10, 0, 0, 2], "B", &CID_B, 100, 7, None, 0, 0);
    m.update_sacn_source(&[10, 0, 0, 2], "B", &CID_B, 100, 8, None, 0, 0);
    m.update_artnet_source(&[10, 0, 0, 3], "", "", None, Some(vec![9]), None, 0, 0);
    m.update_statuses(SECOND / 2);
    let all = m.get_all_sources();
    assert_eq!(all.len(), 3);
    assert_eq!(by_id(&all, &make_sacn_id(&CID_A)).duplicate_universes, vec![7]);
    assert_eq!(by_id(&all, &make_sacn_id(&CID_B)).duplicate_universes, vec![7]);
    assert_eq!(by_id(&all, &make_sacn_id(&CID_B)).universes, vec![7, 8]);
    assert!(by_id(&all, "artnet-10.0.0.3").duplicate_universes.is_empty());
}

#[test]
fn the_sweep_lists_the_sources_of_each_universe() {
    let mut m = SourceManager::new();
    m.update_sacn_source(&[10, 0, 0, 1], "A", &CID_A, 100, 7, None, 0, 0);
    m.update_artnet_source(&[10, 0, 0, 3], "", "", None, Some(vec![9, 7]), None, 0, 0);
    assert!(m.sources_on_universe(7).is_empty());
    m.update_statuses(1);
    assert_eq!(
        m.sources_on_universe(7),
        vec!["sacn-01020304-0506-0708-090a-0b0c0d0e0f10".to_string(), "artnet-10.0.0.3".to_string()]
    );
    assert_eq!(m.sources_on_universe(9), vec!["artnet-10.0.0.3".to_string()]);
    assert!(m.sources_on_universe(8).is_empty());
    m.update_artnet_source(&[10, 0, 0, 4], "", "", None, Some(vec![9]), None, 2, 0);
    assert_eq!(m.sources_on_universe(9).len(), 1);
    m.update_statuses(3);
    assert_eq!(m.sources_on_universe(9).len(), 2);
    assert_eq!(m.get_all_sources()[1].duplicate_universes, vec![7, 9]);
}

#[test]
fn duplicates_are_recomputed_each_sweep() {
    let mut m = SourceManager::new();
    m.update_sacn_source(&[10, 0, 0, 1], "A", &CID_A, 100, 7, None, 0, 0);
    m.update_sacn_source(&[10, 0, 0, 2], "B", &CID_B, 100, 7, None, 59 * SECOND, 0);
    m.update_statuses(59 * SECOND);
    assert_eq!(m.get_all_sources()[1].duplicate_universes, vec![7]);
    m.cleanup_stale_sources(60 * SECOND);
    m.update_statuses(60 * SECOND);
    let all = m.get_all_sources();
    assert_eq!(all.len(), 1);
    assert!(all[0].duplicate_universes.is_empty());
}

#[test]
fn universes_stay_sorted_and_unique() {
    let mut m = SourceManager::new();
    let ip = [10, 0, 0, 1];
    m.update_artnet_source(&ip, "", "", None, Some(vec![5, 1, 5, 300, 2]), None, 0, 0);
    assert_eq!(m.get_all_sources()[0].universes, vec![1, 2, 5, 300]);
    m.update_artnet_source(&ip, "", "", None, Some(vec![0, 2, 65535]), None, 1, 0);
    assert_eq!(m.get_all_sources()[0].universes, vec![0, 1, 2, 5, 300, 65535]);
    m.update_artnet_source(&ip, "", "", None, None, None, 2, 0);
    assert_eq!(m.get_all_sources()[0].universes, vec![0, 1, 2, 5, 300, 65535]);
}

#[test]
fn inserting_universes() {
    let mut v = vec![2u16, 4, 6];
    insert_universe(&mut v, 4);
    assert_eq!(v, vec![2, 4, 6]);
    insert_universe(&mut v, 1);
    insert_universe(&mut v, 5);
    insert_universe(&mut v, 9);
    assert_eq!(v, vec![1, 2, 4, 5, 6, 9]);
    let mut w: Vec<u16> = Vec::new();
    insert_universes(&mut w, &vec![3, 3, 1]);
    assert_eq!(w, vec![1, 3]);
}

#[test]
fn frame_rate_warnings() {
    assert_eq!(fps_warning(0), None);
    assert_eq!(fps_warning(1), Some("low".to_string()));
    assert_eq!(fps_warning(19), Some("low".to_string()));
    assert_eq!(fps_warning(20), None);
    assert_eq!(fps_warning(44), None);
    assert_eq!(fps_warning(45), Some("high".to_string()));
}

#[test]
fn sweep_sets_rate_and_warning() {
    let mut m = SourceManager::new();
    let ip = [10, 0, 0, 1];
    for i in 0..50u64 {
        m.update_artnet_source(&ip, "", "", None, None, Some(i as u8), i * 1_000_000, i);
    }
    assert_eq!(m.get_all_sources()[0].fps, 50);
    assert_eq!(m.get_all_sources()[0].fps_warning, None);
    m.update_statuses(60_000_000);
    assert_eq!(m.get_all_sources()[0].fps, 50);
    assert_eq!(m.get_all_sources()[0].fps_warning, Some("high".to_string()));
    m.update_statuses(SECOND + 40_000_000);
    assert_eq!(m.get_all_sources()[0].fps, 9);
    assert_eq!(m.get_all_sources()[0].fps_warning, Some("low".to_string()));
    m.update_statuses(3 * SECOND + 49_000_000);
    assert_eq!(m.get_all_sources()[0].fps, 0);
    assert_eq!(m.get_all_sources()[0].fps_warning, None);
    assert_eq!(m.get_all_sources()[0].status, SourceStatus::Idle);
}

#[test]
fn loss_is_tracked_per_source() {
    let mut m = SourceManager::new();
    let ip = [10, 0, 0, 1];
    for (i, s) in [10u8, 11, 13, 14].iter().enumerate() {
        m.update_artnet_source(&ip, "", "", None, None, Some(*s), i as u64, 0);
    }
    let s = &m.get_all_sources()[0];
    assert_eq!(s.packet_loss, PacketLoss { lost: 1, expected: 5 });
    assert_eq!(s.packet_loss.percent(), 20);
    assert_eq!(s.packet_count, 4);
    m.update_artnet_source(&ip, "", "", None, None, None, 9, 0);
    assert_eq!(m.get_all_sources()[0].packet_loss, PacketLoss { lost: 1, expected: 5 });
}

#[test]
fn intervals_are_kept_per_source() {
    let mut m = SourceManager::new();
    m.update_artnet_source(&[10, 0, 0, 1], "", "", None, None, None, 100, 0);
    m.update_artnet_source(&[10, 0, 0, 2], "", "", None, None, None, 150, 0);
    m.update_artnet_source(&[10, 0, 0, 1], "", "", None, None, None, 400, 0);
    m.update_artnet_source(&[10, 0, 0, 1], "", "", None, None, None, 450, 0);
    let windows = m.get_latency_intervals();
    assert_eq!(windows, vec![vec![300, 50], vec![]]);
}

#[test]
fn new_artnet_source() {
    let s = NetworkSource::from_artnet(
        &[192, 168, 1, 20],
        "Short",
        "Long name",
        Some([0xDE, 0xAD, 0xBE, 0xEF, 0x00, 0x1a]),
        1234,
    );
    assert_eq!(s.id, "artnet-192.168.1.20");
    assert_eq!(s.ip, "192.168.1.20");
    assert_eq!(s.hostname, None);
    assert_eq!(s.name, "Long name");
    assert_eq!(s.protocol, Protocol::ArtNet);
    assert!(s.universes.is_empty());
    assert_eq!(s.status, SourceStatus::Active);
    assert_eq!(s.direction, SourceDirection::Unknown);
    assert_eq!(s.fps, 0);
    assert_eq!(s.packet_count, 0);
    assert_eq!(s.first_seen, 1234);
    assert_eq!(s.last_seen, 1234);
    assert_eq!(s.packet_loss, PacketLoss { lost: 0, expected: 0 });
    assert_eq!(s.fps_warning, None);
    assert_eq!(s.artnet_short_name, Some("Short".to_string()));
    assert_eq!(s.artnet_long_name, Some("Long name".to_string()));
    assert_eq!(s.mac_address, Some("DE:AD:BE:EF:00:1A".to_string()));
    assert_eq!(s.sacn_cid, None);
    assert_eq!(s.sacn_priority, None);
    let copy = copy_source(&s);
    assert_eq!(copy.id, s.id);
    assert_eq!(copy.mac_address, s.mac_address);
    assert_eq!(copy.first_seen, 1234);
}

#[test]
fn artnet_display_name_falls_back() {
    let s = NetworkSource::from_artnet(&[10, 1, 2, 3], "Short", "", None, 0);
    assert_eq!(s.name, "Short");
    assert_eq!(s.mac_address, None);
    let t = NetworkSource::from_artnet(&[10, 1, 2, 3], "", "", None, 0);
    assert_eq!(t.name, "ArtNet @ 10.1.2.3");
    assert_eq!(t.artnet_short_name, Some(String::new()));
}

#[test]
fn new_sacn_source() {
    let s = NetworkSource::from_sacn(&[10, 0, 0, 7], "Desk", &CID_A, 120, 99);
    assert_eq!(s.id, "sacn-01020304-0506-0708-090a-0b0c0d0e0f10");
    assert_eq!(s.ip, "10.0.0.7");
    assert_eq!(s.name, "Desk");
    assert_eq!(s.protocol, Protocol::Sacn);
    assert_eq!(s.sacn_cid, Some("01020304-0506-0708-090a-0b0c0d0e0f10".to_string()));
    assert_eq!(s.sacn_priority, Some(120));
    assert_eq!(s.artnet_short_name, None);
    assert_eq!(s.first_seen, 99);
    let t = NetworkSource::from_sacn(&[10, 0, 0, 7], "", &CID_A, 120, 99);
    assert_eq!(t.name, "sACN @ 10.0.0.7");
    let silent = NetworkSource::from_sacn(&[10, 0, 0, 7], "", &[0; 16], 0, 99);
    assert_eq!(silent.id, "sacn-recv-10.0.0.7");
    assert_eq!(silent.sacn_cid, Some("00000000-0000-0000-0000-000000000000".to_string()));
}

#[test]
fn keys_and_hardware_addresses() {
    assert_eq!(make_artnet_id(&[2, 0, 0, 1]), "artnet-2.0.0.1");
    assert_eq!(make_sacn_id(&CID_B), "sacn-aaaaaaaa-aaaa-aaaa-aaaa-aaaaaaaaaaaa");
    assert_eq!(make_sacn_receiver_id(&[2, 0, 0, 1]), "sacn-recv-2.0.0.1");
    assert_eq!(mac_to_string(&[0, 1, 0x0a, 0xb0, 0xff, 0x9c]), "00:01:0A:B0:FF:9C");
    assert_eq!(make_sacn_key(&[2, 0, 0, 1], &CID_B), "sacn-aaaaaaaa-aaaa-aaaa-aaaa-aaaaaaaaaaaa");
    assert_eq!(make_sacn_key(&[2, 0, 0, 1], &[0; 16]), "sacn-recv-2.0.0.1");
    assert!(is_zero_cid(&[0; 16]));
    let mut almost = [0u8; 16];
    almost[15] = 1;
    assert!(!is_zero_cid(&almost));
}

#[test]
fn receivers_without_identifier_are_found_by_address() {
    let mut m = SourceManager::new();
    let zero = [0u8; 16];
    m.update_sacn_source_with_direction(
        &[10, 0, 0, 1],
        "",
        &zero,
        0,
        1,
        SourceDirection::Receiving,
        None,
        0,
        0,
    );
    m.update_sacn_source_with_direction(
        &[10, 0, 0, 2],
        "",
        &zero,
        0,
        1,
        SourceDirection::Receiving,
        None,
        1,
        0,
    );
    m.update_sacn_source_with_direction(
        &[10, 0, 0, 1],
        "",
        &zero,
        0,
        2,
        SourceDirection::Receiving,
        None,
        2,
        0,
    );
    let all = m.get_all_sources();
    assert_eq!(all.len(), 2);
    assert_eq!(all[0].ip, "10.0.0.1");
    assert_eq!(all[0].universes, vec![1, 2]);
    assert_eq!(all[0].packet_count, 2);
    assert_eq!(all[0].direction, SourceDirection::Receiving);
    assert_eq!(all[0].name, "sACN @ 10.0.0.1");
    assert_eq!(all[0].id, "sacn-recv-10.0.0.1");
    assert_eq!(all[1].ip, "10.0.0.2");
    assert_eq!(all[1].id, "sacn-recv-10.0.0.2");
    assert_ne!(all[0].id, all[1].id);
}

#[test]
fn two_silent_receivers_have_their_own_ids() {
    let mut m = SourceManager::new();
    let zero = [0u8; 16];
    let receiving = SourceDirection::Receiving;
    m.update_sacn_source_with_direction(&[10, 0, 0, 5], "", &zero, 0, 1, receiving, None, 0, 0);
    m.update_sacn_source_with_direction(&[10, 0, 0, 6], "", &zero, 0, 1, receiving, None, 0, 0);
    let all = m.get_all_sources();
    assert_eq!(all.len(), 2);
    assert_eq!(all[0].id, "sacn-recv-10.0.0.5");
    assert_eq!(all[1].id, "sacn-recv-10.0.0.6");
    m.update_statuses(1);
    assert_eq!(m.sources_on_universe(1), vec![all[0].id.clone(), all[1].id.clone()]);
    m.update_sacn_source(&[10, 0, 0, 6], "", &zero, 100, 2, None, 2, 0);
    let all = m.get_all_sources();
    assert_eq!(all.len(), 2);
    assert_eq!(all[1].universes, vec![1, 2]);
}

#[test]
fn every_id_is_the_key_of_its_entry() {
    let mut m = SourceManager::new();
    m.update_artnet_source(&[10, 0, 0, 1], "n", "", None, Some(vec![3]), None, 0, 0);
    m.update_sacn_source(&[10, 0, 0, 2], "Desk", &CID_A, 100, 3, None, 0, 0);
    m.update_sacn_source(&[10, 0, 0, 3], "", &[0; 16], 100, 3, None, 0, 0);
    m.update_statuses(1);
    let ids: Vec<String> = m.get_all_sources().into_iter().map(|s| s.id).collect();
    assert_eq!(
        ids,
        vec![
            "artnet-10.0.0.1".to_string(),
            "sacn-01020304-0506-0708-090a-0b0c0d0e0f10".to_string(),
            "sacn-recv-10.0.0.3".to_string(),
        ]
    );
    assert_eq!(m.sources_on_universe(3), ids);
}

#[test]
fn sacn_sources_are_found_by_identifier() {
    let mut m = SourceManager::new();
    m.update_sacn_source(&[10, 0, 0, 1], "Desk", &CID_A, 100, 1, Some(1), 0, 10);
    m.update_sacn_source(&[10, 0, 0, 99], "Desk", &CID_A, 150, 2, Some(2), 1, 20);
    m.update_sacn_source_with_direction(
        &[10, 0, 0, 1],
        "Other",
        &CID_B,
        100,
        1,
        SourceDirection::Sending,
        Some(1),
        2,
        30,
    );
    let all = m.get_all_sources();
    assert_eq!(all.len(), 2);
    assert_eq!(all[0].ip, "10.0.0.1");
    assert_eq!(all[0].sacn_priority, Some(150));
    assert_eq!(all[0].universes, vec![1, 2]);
    assert_eq!(all[0].packet_count, 2);
    assert_eq!(all[0].last_seen, 20);
    assert_eq!(all[1].name, "Other");
    assert_eq!(all[1].direction, SourceDirection::Sending);
}

#[test]
fn room_for_more_packets() {
    let mut m = SourceManager::default();
    assert!(m.has_room_for(1));
    assert!(m.has_room_for(u64::MAX / 255));
    assert!(!m.has_room_for(u64::MAX / 255 + 1));
    m.update_artnet_source(&[10, 0, 0, 1], "", "", None, None, Some(1), 0, 0);
    assert!(m.has_room_for(1_000_000));
}

#[test]
fn a_new_entry() {
    let source = NetworkSource::from_artnet(&[1, 1, 1, 1], "", "", None, 5);
    let mut e = SourceEntry::new("artnet-1.1.1.1".to_string(), source, 77);
    assert_eq!(e.last_packet, 77);
    assert_eq!(e.sequence_tracker.window_start, 77);
    assert!(e.fps_counter.packet_times.is_empty());
    e.record(100, 6, Some(4), Some(SourceDirection::Sending), Some(9), &vec![3, 1]);
    assert_eq!(e.last_packet, 100);
    assert_eq!(e.source.packet_count, 1);
    assert_eq!(e.source.fps, 1);
    assert_eq!(e.source.last_seen, 6);
    assert_eq!(e.source.sacn_priority, Some(9));
    assert_eq!(e.source.universes, vec![1, 3]);
    assert_eq!(e.source.direction, SourceDirection::Sending);
    assert_eq!(e.key, "artnet-1.1.1.1");
}

#[test]
fn store_keeps_the_last_frame() {
    let mut s = DmxStore::new();
    assert_eq!(s.get(1), None);
    s.update(1, vec![1, 2, 3]);
    s.update(2, vec![9]);
    s.update(1, vec![4, 5]);
    assert_eq!(s.get(1), Some(vec![4, 5]));
    assert_eq!(s.get(2), Some(vec![9]));
    assert_eq!(s.get(3), None);
    let all = s.get_all();
    assert_eq!(all.len(), 2);
    assert_eq!(all[&1], vec![4, 5]);
    assert_eq!(all[&2], vec![9]);
    assert!(DmxStore::default().get_all().is_empty());
}
