use lxmonitor::artnet::{
    calculate_artnet_universe, create_artpoll_packet, parse_artnet_packet, parse_dmx,
    parse_poll_reply, read_be16, read_le16, ArtNetOpCode, ArtNetPacket, ArtPollReply,
    ARTNET_HEADER, ARTNET_PORT,
};
use lxmonitor::frame::{is_broadcast_address, is_multicast_address, parse_ip_udp_packet};
use lxmonitor::sacn::{
    cid_to_string, parse_data_packet, parse_extended_packet, parse_sacn_packet, read_be32,
    sacn_multicast_address, startup_multicast_groups, RootVector, SacnPacket, SacnSource,
    ACN_PACKET_IDENTIFIER, FRAMING_VECTOR_DMP, FRAMING_VECTOR_SYNC, LAST_JOINED_UNIVERSE,
    SACN_PORT,
};
use lxmonitor::text::{extract_string, ipv4_to_string};

fn artnet_packet(opcode: u16, len: usize) -> Vec<u8> {
    let mut p = vec![0u8; len];
    p[..8].copy_from_slice(b"Art-Net\0");
    p[8] = (opcode & 0xFF) as u8;
    p[9] = (opcode >> 8) as u8;
    p
}

fn artdmx(universe_lo: u8, net: u8, sequence: u8, payload: &[u8]) -> Vec<u8> {
    let mut p = artnet_packet(0x5000, 18);
    p[11] = 14;
    p[12] = sequence;
    p[13] = 1;
    p[14] = universe_lo;
    p[15] = net;
    p[16] = (payload.len() >> 8) as u8;
    p[17] = (payload.len() & 0xFF) as u8;
    p.extend_from_slice(payload);
    p
}

fn sacn_root(vector: u32, len: usize) -> Vec<u8> {
    let mut p = vec![0u8; len];
    p[0] = 0x00;
    p[1] = 0x10;
    p[4..16].copy_from_slice(&[
        0x41, 0x53, 0x43, 0x2d, 0x45, 0x31, 0x2e, 0x31, 0x37, 0x00, 0x00, 0x00,
    ]);
    p[18..22].copy_from_slice(&vector.to_be_bytes());
    for i in 0..16 {
        p[22 + i] = (i as u8) + 1;
    }
    p
}

fn sacn_data(universe: u16, start_code: u8, slots: &[u8]) -> Vec<u8> {
    let mut p = sacn_root(4, 126);
    p[40..44].copy_from_slice(&2u32.to_be_bytes());
    p[44..48].copy_from_slice(b"Desk");
    p[108] = 150;
    p[109] = 0x01;
    p[110] = 0x02;
    p[111] = 9;
    p[112] = 0x40;
    p[113..115].copy_from_slice(&universe.to_be_bytes());
    p[117] = 0x02;
    let count = (slots.len() + 1) as u16;
    p[123..125].copy_from_slice(&count.to_be_bytes());
    p[125] = start_code;
    p.extend_from_slice(slots);
    p
}

#[test]
fn protocol_constants() {
    assert_eq!(&ARTNET_HEADER, b"Art-Net\0");
    assert_eq!(&ACN_PACKET_IDENTIFIER, b"ASC-E1.17\0\0\0");
    assert_eq!(ARTNET_PORT, 6454);
    assert_eq!(SACN_PORT, 5568);
    assert_eq!(FRAMING_VECTOR_DMP, 2);
    assert_eq!(FRAMING_VECTOR_SYNC, 1);
}

#[test]
fn byte_order() {
    assert_eq!(read_le16(0x34, 0x12), 0x1234);
    assert_eq!(read_be16(0x12, 0x34), 0x1234);
    assert_eq!(read_be32(0x12, 0x34, 0x56, 0x78), 0x1234_5678);
    assert_eq!(read_be32(0xFF, 0xFF, 0xFF, 0xFF), u32::MAX);
}

#[test]
fn poll_round_trip() {
    let poll = create_artpoll_packet();
    assert_eq!(
        poll,
        vec![0x41, 0x72, 0x74, 0x2d, 0x4e, 0x65, 0x74, 0x00, 0x00, 0x20, 0x00, 0x0e, 0x02, 0x10]
    );
    assert!(matches!(parse_artnet_packet(&poll), Some(ArtNetPacket::Poll)));
}

#[test]
fn poll_needs_only_twelve_bytes() {
    let p = artnet_packet(0x2000, 12);
    assert!(matches!(parse_artnet_packet(&p), Some(ArtNetPacket::Poll)));
}

#[test]
fn artnet_rejects_short_input() {
    let p = artnet_packet(0x2000, 12);
    assert!(parse_artnet_packet(&p[..11]).is_none());
    assert!(parse_artnet_packet(&[]).is_none());
}

#[test]
fn artnet_rejects_foreign_header() {
    let mut p = artnet_packet(0x2000, 14);
    p[3] = b'_';
    assert!(parse_artnet_packet(&p).is_none());
    let mut q = artnet_packet(0x2000, 14);
    q[7] = 1;
    assert!(parse_artnet_packet(&q).is_none());
}

#[test]
fn artnet_other_keeps_the_opcode() {
    let p = artnet_packet(0x5200, 14);
    match parse_artnet_packet(&p) {
        Some(ArtNetPacket::Other(code)) => assert_eq!(code, 0x5200),
        other => panic!("unexpected {:?}", other),
    }
    let q = artnet_packet(0x1234, 12);
    match parse_artnet_packet(&q) {
        Some(ArtNetPacket::Other(code)) => assert_eq!(code, 0x1234),
        other => panic!("unexpected {:?}", other),
    }
}

#[test]
fn opcode_values() {
    assert_eq!(ArtNetOpCode::from(0x2000), ArtNetOpCode::OpPoll);
    assert_eq!(ArtNetOpCode::from(0x2100), ArtNetOpCode::OpPollReply);
    assert_eq!(ArtNetOpCode::from(0x5000), ArtNetOpCode::OpDmx);
    assert_eq!(ArtNetOpCode::from(0xf900), ArtNetOpCode::OpIpProgReply);
    assert_eq!(ArtNetOpCode::from(0x0001), ArtNetOpCode::Unknown);
    assert_eq!(ArtNetOpCode::OpRdm.code(), 0x8300);
    assert_eq!(ArtNetOpCode::Unknown.code(), 0xFFFF);
}

#[test]
fn dmx_payload_matches_declared_length() {
    let payload: Vec<u8> = (0..100u16).map(|v| (v * 2) as u8).collect();
    let p = artdmx(0x23, 0x01, 7, &payload);
    match parse_artnet_packet(&p) {
        Some(ArtNetPacket::Dmx(dmx)) => {
            assert_eq!(dmx.sequence, 7);
            assert_eq!(dmx.physical, 1);
            assert_eq!(dmx.universe, 0x0123);
            assert_eq!(dmx.length, 100);
            assert_eq!(dmx.data.len(), 100);
            assert_eq!(dmx.data, payload);
        }
        other => panic!("unexpected {:?}", other),
    }
}

#[test]
fn dmx_full_universe_and_trailing_bytes() {
    let payload = vec![0xAAu8; 512];
    let mut p = artdmx(0, 0, 0, &payload);
    p.extend_from_slice(&[1, 2, 3]);
    match parse_artnet_packet(&p) {
        Some(ArtNetPacket::Dmx(dmx)) => {
            assert_eq!(dmx.length, 512);
            assert_eq!(dmx.data, payload);
        }
        other => panic!("unexpected {:?}", other),
    }
}

#[test]
fn dmx_length_above_a_universe_is_capped() {
    let mut p = artdmx(0, 0, 0, &vec![5u8; 600]);
    p[16] = 0x02;
    p[17] = 0x58;
    match parse_dmx(&p) {
        Some(ArtNetPacket::Dmx(dmx)) => {
            assert_eq!(dmx.length, 600);
            assert_eq!(dmx.data.len(), 512);
        }
        other => panic!("unexpected {:?}", other),
    }
}

#[test]
fn dmx_truncated_payload_is_dropped() {
    let p = artdmx(0, 0, 0, &[1, 2, 3, 4]);
    assert!(parse_artnet_packet(&p[..21]).is_none());
    assert!(parse_artnet_packet(&p[..17]).is_none());
    assert!(parse_dmx(&p[..17]).is_none());
}

#[test]
fn dmx_empty_payload() {
    let p = artdmx(1, 0, 0, &[]);
    match parse_artnet_packet(&p) {
        Some(ArtNetPacket::Dmx(dmx)) => assert!(dmx.data.is_empty()),
        other => panic!("unexpected {:?}", other),
    }
}

fn poll_reply(len: usize) -> Vec<u8> {
    let mut p = artnet_packet(0x2100, len);
    p[10..14].copy_from_slice(&[192, 168, 1, 50]);
    p[14] = 0x36;
    p[15] = 0x19;
    p[16] = 0x01;
    p[17] = 0x02;
    p[18] = 3;
    p[19] = 4;
    p[20] = 0xAB;
    p[21] = 0xCD;
    p[22] = 5;
    p[23] = 6;
    p[24] = 0x34;
    p[25] = 0x12;
    p[26..30].copy_from_slice(b"Node");
    p[44..53].copy_from_slice(b"Long Node");
    p[108..110].copy_from_slice(b"OK");
    p[172] = 0;
    p[173] = 2;
    p[174..178].copy_from_slice(&[0x80, 0x40, 0, 0]);
    p[178..182].copy_from_slice(&[1, 2, 3, 4]);
    p[182..186].copy_from_slice(&[5, 6, 7, 8]);
    p[186..190].copy_from_slice(&[9, 10, 11, 12]);
    p[190..194].copy_from_slice(&[1, 2, 3, 4]);
    p[200] = 7;
    p[201..207].copy_from_slice(&[0xDE, 0xAD, 0xBE, 0xEF, 0x00, 0x01]);
    p
}

#[test]
fn poll_reply_fields_at_fixed_offsets() {
    let mut p = poll_reply(213);
    p[207..211].copy_from_slice(&[10, 0, 0, 1]);
    p[211] = 2;
    p[212] = 0x0F;
    match parse_artnet_packet(&p) {
        Some(ArtNetPacket::PollReply(r)) => {
            assert_eq!(r.ip_address, [192, 168, 1, 50]);
            assert_eq!(r.port, 0x1936);
            assert_eq!(r.port, ARTNET_PORT);
            assert_eq!(r.version_info, 0x0102);
            assert_eq!(r.net_switch, 3);
            assert_eq!(r.sub_switch, 4);
            assert_eq!(r.oem, 0xABCD);
            assert_eq!(r.ubea_version, 5);
            assert_eq!(r.status1, 6);
            assert_eq!(r.esta_manufacturer, 0x1234);
            assert_eq!(r.short_name, "Node");
            assert_eq!(r.long_name, "Long Node");
            assert_eq!(r.node_report, "OK");
            assert_eq!(r.num_ports, 2);
            assert_eq!(r.port_types, [0x80, 0x40, 0, 0]);
            assert_eq!(r.good_input, [1, 2, 3, 4]);
            assert_eq!(r.good_output, [5, 6, 7, 8]);
            assert_eq!(r.sw_in, [9, 10, 11, 12]);
            assert_eq!(r.sw_out, [1, 2, 3, 4]);
            assert_eq!(r.style, 7);
            assert_eq!(r.mac_address, [0xDE, 0xAD, 0xBE, 0xEF, 0x00, 0x01]);
            assert_eq!(r.bind_ip, [10, 0, 0, 1]);
            assert_eq!(r.bind_index, 2);
            assert_eq!(r.status2, 0x0F);
        }
        other => panic!("unexpected {:?}", other),
    }
}

#[test]
fn poll_reply_without_trailing_fields() {
    let p = poll_reply(207);
    match parse_poll_reply(&p) {
        Some(ArtNetPacket::PollReply(r)) => {
            assert_eq!(r.style, 7);
            assert_eq!(r.mac_address, [0xDE, 0xAD, 0xBE, 0xEF, 0x00, 0x01]);
            assert_eq!(r.bind_ip, [0, 0, 0, 0]);
            assert_eq!(r.bind_index, 0);
            assert_eq!(r.status2, 0);
        }
        other => panic!("unexpected {:?}", other),
    }
    let q = poll_reply(211);
    match parse_poll_reply(&q) {
        Some(ArtNetPacket::PollReply(r)) => {
            assert_eq!(r.bind_index, 0);
            assert_eq!(r.status2, 0);
        }
        other => panic!("unexpected {:?}", other),
    }
}

#[test]
fn poll_reply_too_short_is_dropped() {
    let p = poll_reply(207);
    assert!(parse_artnet_packet(&p[..206]).is_none());
}

#[test]
fn default_poll_reply() {
    let r = ArtPollReply::default();
    assert_eq!(r.port, 6454);
    assert_eq!(r.ip_address, [0; 4]);
    assert_eq!(r.short_name, "");
    assert_eq!(r.mac_address, [0; 6]);
    assert_eq!(r.num_ports, 0);
}

#[test]
fn universe_is_packed_from_net_sub_uni() {
    assert_eq!(calculate_artnet_universe(1, 2, 3), 0x123);
    assert_eq!(calculate_artnet_universe(1, 2, 3), 291);
    assert_eq!(calculate_artnet_universe(0xFF, 0xFF, 0xFF), 0x7FFF);
    assert_eq!(calculate_artnet_universe(0x80, 0x10, 0x10), 0);
    assert_eq!(calculate_artnet_universe(0, 0, 0), 0);
}

#[test]
fn name_fields_end_at_the_first_nul() {
    assert_eq!(extract_string(b"Node\0junk"), "Node");
    assert_eq!(extract_string(b"full"), "full");
    assert_eq!(extract_string(b"\0abc"), "");
    assert_eq!(extract_string(b""), "");
}

#[test]
fn name_fields_are_decoded_lossily() {
    assert_eq!(extract_string(&[b'a', 0xFF, b'b', 0]), "a\u{FFFD}b");
    assert_eq!(extract_string(&[0xC3, 0xA9, 0]), "\u{e9}");
}

#[test]
fn addresses_are_rendered_in_dotted_decimal() {
    assert_eq!(ipv4_to_string(&[192, 168, 1, 50]), "192.168.1.50");
    assert_eq!(ipv4_to_string(&[0, 0, 0, 0]), "0.0.0.0");
    assert_eq!(ipv4_to_string(&[255, 100, 10, 9]), "255.100.10.9");
    assert_eq!(ipv4_to_string(&[101, 110, 200, 99]), "101.110.200.99");
}

#[test]
fn multicast_address_of_a_universe() {
    assert_eq!(sacn_multicast_address(1), [239, 255, 0, 1]);
    assert_eq!(sacn_multicast_address(300), [239, 255, 1, 44]);
    assert_eq!(sacn_multicast_address(63999), [239, 255, 249, 255]);
    assert_eq!(sacn_multicast_address(0), [239, 255, 0, 0]);
}

#[test]
fn groups_joined_at_startup() {
    let groups = startup_multicast_groups();
    assert_eq!(LAST_JOINED_UNIVERSE, 100);
    assert_eq!(groups.len(), 100);
    assert_eq!(groups[0], [239, 255, 0, 1]);
    assert_eq!(groups[19], [239, 255, 0, 20]);
    assert_eq!(groups[99], [239, 255, 0, 100]);
    for (i, group) in groups.iter().enumerate() {
        assert_eq!(*group, sacn_multicast_address((i + 1) as u16));
    }
}

#[test]
fn cid_is_rendered_as_a_uuid() {
    let cid = [
        0x01, 0x23, 0x45, 0x67, 0x89, 0xab, 0xcd, 0xef, 0x00, 0x11, 0x22, 0x33, 0x44, 0x55, 0xfe,
        0xff,
    ];
    assert_eq!(cid_to_string(&cid), "01234567-89ab-cdef-0011-22334455feff");
    assert_eq!(cid_to_string(&[0; 16]), "00000000-0000-0000-0000-000000000000");
}

#[test]
fn root_vector_values() {
    assert_eq!(RootVector::from(4), RootVector::Data);
    assert_eq!(RootVector::from(8), RootVector::Extended);
    assert_eq!(RootVector::from(0), RootVector::Unknown);
    assert_eq!(RootVector::from(0xFFFF_FFFF), RootVector::Unknown);
}

#[test]
fn default_sacn_source() {
    let s = SacnSource::default();
    assert_eq!(s.cid, [0; 16]);
    assert_eq!(s.source_name, "");
    assert_eq!(s.priority, 100);
    assert_eq!(s.universe, 1);
    assert_eq!(s.sequence, 0);
    assert_eq!(SACN_PORT, 5568);
}

#[test]
fn sacn_rejects_short_input() {
    let p = sacn_root(4, 38);
    assert!(parse_sacn_packet(&p[..37]).is_none());
    assert!(parse_sacn_packet(&[]).is_none());
}

#[test]
fn sacn_rejects_missing_identifier() {
    let mut p = sacn_data(1, 0, &[1, 2, 3]);
    p[4] = 0x42;
    assert!(parse_sacn_packet(&p).is_none());
    let mut q = sacn_data(1, 0, &[1, 2, 3]);
    q[15] = 1;
    assert!(parse_sacn_packet(&q).is_none());
}

#[test]
fn sacn_rejects_wrong_preamble_or_postamble() {
    let mut p = sacn_data(1, 0, &[1, 2, 3]);
    p[1] = 0x11;
    assert!(parse_sacn_packet(&p).is_none());
    let mut q = sacn_data(1, 0, &[1, 2, 3]);
    q[3] = 1;
    assert!(parse_sacn_packet(&q).is_none());
}

#[test]
fn sacn_unknown_root_vector() {
    let p = sacn_root(5, 38);
    assert!(matches!(parse_sacn_packet(&p), Some(SacnPacket::Unknown)));
}

#[test]
fn sacn_data_packet() {
    let slots: Vec<u8> = (1..=24).collect();
    let p = sacn_data(300, 0, &slots);
    match parse_sacn_packet(&p) {
        Some(SacnPacket::Dmx(dmx)) => {
            let mut cid = [0u8; 16];
            for i in 0..16 {
                cid[i] = (i as u8) + 1;
            }
            assert_eq!(dmx.source.cid, cid);
            assert_eq!(dmx.source.source_name, "Desk");
            assert_eq!(dmx.source.priority, 150);
            assert_eq!(dmx.source.sync_address, 0x0102);
            assert_eq!(dmx.source.sequence, 9);
            assert_eq!(dmx.source.options, 0x40);
            assert_eq!(dmx.source.universe, 300);
            assert_eq!(dmx.start_code, 0);
            assert_eq!(dmx.data, slots);
        }
        other => panic!("unexpected {:?}", other),
    }
}

#[test]
fn sacn_nonzero_start_code_is_unknown() {
    for code in [1u8, 0x17, 0xCC, 0xFF] {
        let p = sacn_data(1, code, &[1, 2, 3]);
        assert!(matches!(parse_sacn_packet(&p), Some(SacnPacket::Unknown)));
    }
}

#[test]
fn sacn_wrong_dmp_vector_is_unknown() {
    let mut p = sacn_data(1, 0, &[1, 2, 3]);
    p[117] = 0x03;
    assert!(matches!(parse_sacn_packet(&p), Some(SacnPacket::Unknown)));
}

#[test]
fn sacn_payload_is_bounded_by_count_universe_and_buffer() {
    let mut p = sacn_data(1, 0, &[1, 2, 3, 4, 5]);
    p[123] = 0;
    p[124] = 3;
    match parse_sacn_packet(&p) {
        Some(SacnPacket::Dmx(dmx)) => assert_eq!(dmx.data, vec![1, 2]),
        other => panic!("unexpected {:?}", other),
    }
    p[123] = 0x03;
    p[124] = 0xE8;
    match parse_sacn_packet(&p) {
        Some(SacnPacket::Dmx(dmx)) => assert_eq!(dmx.data, vec![1, 2, 3, 4, 5]),
        other => panic!("unexpected {:?}", other),
    }
    p[123] = 0;
    p[124] = 0;
    match parse_sacn_packet(&p) {
        Some(SacnPacket::Dmx(dmx)) => assert!(dmx.data.is_empty()),
        other => panic!("unexpected {:?}", other),
    }
    let mut big = sacn_data(1, 0, &vec![9u8; 600]);
    big[123] = 0x02;
    big[124] = 0x59;
    match parse_sacn_packet(&big) {
        Some(SacnPacket::Dmx(dmx)) => assert_eq!(dmx.data.len(), 512),
        other => panic!("unexpected {:?}", other),
    }
}

#[test]
fn sacn_truncated_data_packet_is_dropped() {
    let p = sacn_data(1, 0, &[]);
    assert!(parse_sacn_packet(&p[..125]).is_none());
    assert!(parse_sacn_packet(&p[..114]).is_none());
}

#[test]
fn sacn_sync_packet() {
    let mut p = sacn_data(1, 0, &[]);
    p[40..44].copy_from_slice(&1u32.to_be_bytes());
    match parse_sacn_packet(&p[..115]) {
        Some(SacnPacket::Sync { sync_address }) => assert_eq!(sync_address, 0x0102),
        other => panic!("unexpected {:?}", other),
    }
}

fn sacn_discovery(words: &[u16]) -> Vec<u8> {
    let mut p = sacn_root(8, 120);
    p[40..44].copy_from_slice(&2u32.to_be_bytes());
    p[44..51].copy_from_slice(b"Console");
    for w in words {
        p.extend_from_slice(&w.to_be_bytes());
    }
    p
}

#[test]
fn sacn_discovery_lists_nonzero_universes() {
    let p = sacn_discovery(&[1, 0, 300, 0, 63999]);
    match parse_sacn_packet(&p) {
        Some(SacnPacket::Discovery(d)) => {
            assert_eq!(d.source_name, "Console");
            assert_eq!(d.cid[0], 1);
            assert_eq!(d.universes, vec![1, 300, 63999]);
        }
        other => panic!("unexpected {:?}", other),
    }
}

#[test]
fn sacn_discovery_ignores_a_lone_last_byte() {
    let mut p = sacn_discovery(&[7]);
    p.push(0x01);
    match parse_sacn_packet(&p) {
        Some(SacnPacket::Discovery(d)) => assert_eq!(d.universes, vec![7]),
        other => panic!("unexpected {:?}", other),
    }
    let q = sacn_discovery(&[]);
    match parse_sacn_packet(&q) {
        Some(SacnPacket::Discovery(d)) => assert!(d.universes.is_empty()),
        other => panic!("unexpected {:?}", other),
    }
}

#[test]
fn layers_are_decoded_for_the_identifier_given() {
    let mut data = vec![0u8; 126];
    data[43] = 0x02;
    data[121] = 0x01;
    data[124] = 0x01;
    data[125] = 0x2C;
    match parse_extended_packet(&data, [7u8; 16]) {
        Some(SacnPacket::Discovery(d)) => {
            assert_eq!(d.cid, [7u8; 16]);
            assert_eq!(d.source_name, "");
            assert_eq!(d.universes, vec![1, 300]);
        }
        other => panic!("unexpected {:?}", other),
    }
    assert!(parse_extended_packet(&data[..119], [7u8; 16]).is_none());
    assert!(parse_extended_packet(&[], [7u8; 16]).is_none());
    data[43] = 0x03;
    assert!(matches!(parse_extended_packet(&data, [7u8; 16]), Some(SacnPacket::Unknown)));

    let mut frame = vec![0u8; 130];
    frame[43] = 0x02;
    frame[108] = 77;
    frame[111] = 5;
    frame[113] = 0x01;
    frame[114] = 0x02;
    frame[117] = 0x02;
    frame[124] = 3;
    frame[126] = 11;
    frame[127] = 12;
    frame[128] = 13;
    match parse_data_packet(&frame, [9u8; 16]) {
        Some(SacnPacket::Dmx(dmx)) => {
            assert_eq!(dmx.source.cid, [9u8; 16]);
            assert_eq!(dmx.source.priority, 77);
            assert_eq!(dmx.source.sequence, 5);
            assert_eq!(dmx.source.universe, 0x0102);
            assert_eq!(dmx.data, vec![11, 12]);
        }
        other => panic!("unexpected {:?}", other),
    }
    assert!(parse_data_packet(&frame[..114], [9u8; 16]).is_none());
    assert!(parse_data_packet(&[1, 2, 3], [9u8; 16]).is_none());
    assert!(parse_data_packet(&frame[..125], [9u8; 16]).is_none());
    frame[117] = 0x01;
    frame[125] = 0x55;
    assert!(matches!(parse_data_packet(&frame, [9u8; 16]), Some(SacnPacket::Unknown)));
    frame[43] = 0x01;
    frame[109] = 0x12;
    frame[110] = 0x34;
    match parse_data_packet(&frame[..115], [9u8; 16]) {
        Some(SacnPacket::Sync { sync_address }) => assert_eq!(sync_address, 0x1234),
        other => panic!("unexpected {:?}", other),
    }
}

#[test]
fn sacn_extended_without_discovery_is_unknown() {
    let mut p = sacn_discovery(&[1]);
    p[43] = 1;
    assert!(matches!(parse_sacn_packet(&p), Some(SacnPacket::Unknown)));
    let q = sacn_discovery(&[]);
    assert!(parse_sacn_packet(&q[..119]).is_none());
}

fn udp_frame(src: [u8; 4], dst: [u8; 4], sport: u16, dport: u16, payload: &[u8]) -> Vec<u8> {
    let mut f = vec![0u8; 42];
    f[12] = 0x08;
    f[13] = 0x00;
    f[14] = 0x45;
    f[23] = 17;
    f[26..30].copy_from_slice(&src);
    f[30..34].copy_from_slice(&dst);
    f[34..36].copy_from_slice(&sport.to_be_bytes());
    f[36..38].copy_from_slice(&dport.to_be_bytes());
    f.extend_from_slice(payload);
    f
}

#[test]
fn frame_yields_addresses_ports_and_payload() {
    let f = udp_frame([10, 0, 0, 1], [10, 0, 0, 2], 6454, 1234, &[1, 2, 3]);
    let (src, dst, sport, dport, payload) = parse_ip_udp_packet(&f).unwrap();
    assert_eq!(src, [10, 0, 0, 1]);
    assert_eq!(dst, [10, 0, 0, 2]);
    assert_eq!(sport, 6454);
    assert_eq!(dport, 1234);
    assert_eq!(payload, &[1, 2, 3]);
}

#[test]
fn frame_with_ip_options() {
    let mut f = vec![0u8; 14 + 24 + 8];
    f[12] = 0x08;
    f[14] = 0x46;
    f[23] = 17;
    f[26..30].copy_from_slice(&[1, 2, 3, 4]);
    f[30..34].copy_from_slice(&[5, 6, 7, 8]);
    f[38..40].copy_from_slice(&5568u16.to_be_bytes());
    f[40..42].copy_from_slice(&5568u16.to_be_bytes());
    f.push(0xEE);
    let (src, dst, sport, dport, payload) = parse_ip_udp_packet(&f).unwrap();
    assert_eq!(src, [1, 2, 3, 4]);
    assert_eq!(dst, [5, 6, 7, 8]);
    assert_eq!(sport, 5568);
    assert_eq!(dport, 5568);
    assert_eq!(payload, &[0xEE]);
}

#[test]
fn frame_mismatches_are_dropped() {
    let good = udp_frame([10, 0, 0, 1], [10, 0, 0, 2], 6454, 6454, &[]);
    assert!(parse_ip_udp_packet(&good).is_some());
    assert!(parse_ip_udp_packet(&good[..41]).is_none());
    let mut not_ip = good.clone();
    not_ip[12] = 0x86;
    not_ip[13] = 0xDD;
    assert!(parse_ip_udp_packet(&not_ip).is_none());
    let mut v6 = good.clone();
    v6[14] = 0x65;
    assert!(parse_ip_udp_packet(&v6).is_none());
    let mut short_header = good.clone();
    short_header[14] = 0x44;
    assert!(parse_ip_udp_packet(&short_header).is_none());
    let mut tcp = good.clone();
    tcp[23] = 6;
    assert!(parse_ip_udp_packet(&tcp).is_none());
    let mut long_header = good.clone();
    long_header[14] = 0x4F;
    assert!(parse_ip_udp_packet(&long_header).is_none());
}

#[test]
fn broadcast_and_multicast_addresses() {
    assert!(is_broadcast_address(&[255, 255, 255, 255]));
    assert!(!is_broadcast_address(&[255, 255, 255, 254]));
    assert!(is_multicast_address(&[239, 255, 0, 1]));
    assert!(is_multicast_address(&[224, 0, 0, 1]));
    assert!(!is_multicast_address(&[223, 255, 255, 255]));
    assert!(!is_multicast_address(&[240, 0, 0, 0]));
}
