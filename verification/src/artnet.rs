//! Art-Net: classification and decoding of datagrams, and the discovery poll.
use crate::text::{extract_string, field_text};
use vstd::prelude::*;
use vstd::slice::{slice_subrange, slice_to_vec};

verus! {

/// UDP port on which Art-Net nodes listen.
pub const ARTNET_PORT: u16 = 6454;

/// The eight bytes that open every Art-Net datagram: `Art-Net` and a NUL.
pub const ARTNET_HEADER: [u8; 8] = [0x41, 0x72, 0x74, 0x2d, 0x4e, 0x65, 0x74, 0x00];

/// The header as a sequence of bytes.
pub open spec fn artnet_header() -> Seq<u8> {
    seq![0x41u8, 0x72u8, 0x74u8, 0x2du8, 0x4eu8, 0x65u8, 0x74u8, 0x00u8]
}

/// The constant holds the header.
pub proof fn lemma_header_constant()
    ensures
        ARTNET_HEADER@ == artnet_header(),
{
    assert(ARTNET_HEADER@ =~= artnet_header());
}

/// The 16-bit value of two bytes, least significant first.
pub open spec fn le16(lo: u8, hi: u8) -> u16 {
    (hi as u16 * 256 + lo as u16) as u16
}

/// The 16-bit value of two bytes, most significant first.
pub open spec fn be16(hi: u8, lo: u8) -> u16 {
    (hi as u16 * 256 + lo as u16) as u16
}

/// Reads two bytes as a little-endian 16-bit value.
pub fn read_le16(lo: u8, hi: u8) -> (v: u16)
    ensures
        v == le16(lo, hi),
{
    (hi as u16) * 256 + (lo as u16)
}

/// Reads two bytes as a big-endian 16-bit value.
pub fn read_be16(hi: u8, lo: u8) -> (v: u16)
    ensures
        v == be16(hi, lo),
{
    (hi as u16) * 256 + (lo as u16)
}

/// The operation codes that Art-Net defines; `Unknown` stands for every other
/// value.
#[derive(Debug, Clone, Copy, PartialEq, Eq, Structural)]
pub enum ArtNetOpCode {
    OpPoll,
    OpPollReply,
    OpDmx,
    OpNzs,
    OpSync,
    OpAddress,
    OpInput,
    OpTodRequest,
    OpTodData,
    OpTodControl,
    OpRdm,
    OpRdmSub,
    OpIpProg,
    OpIpProgReply,
    Unknown,
}

/// The operation code that a 16-bit wire value names.
pub open spec fn opcode_of(value: u16) -> ArtNetOpCode {
    if value == 0x2000 {
        ArtNetOpCode::OpPoll
    } else if value == 0x2100 {
        ArtNetOpCode::OpPollReply
    } else if value == 0x5000 {
        ArtNetOpCode::OpDmx
    } else if value == 0x5100 {
        ArtNetOpCode::OpNzs
    } else if value == 0x5200 {
        ArtNetOpCode::OpSync
    } else if value == 0x6000 {
        ArtNetOpCode::OpAddress
    } else if value == 0x7000 {
        ArtNetOpCode::OpInput
    } else if value == 0x8000 {
        ArtNetOpCode::OpTodRequest
    } else if value == 0x8100 {
        ArtNetOpCode::OpTodData
    } else if value == 0x8200 {
        ArtNetOpCode::OpTodControl
    } else if value == 0x8300 {
        ArtNetOpCode::OpRdm
    } else if value == 0x8400 {
        ArtNetOpCode::OpRdmSub
    } else if value == 0xf800 {
        ArtNetOpCode::OpIpProg
    } else if value == 0xf900 {
        ArtNetOpCode::OpIpProgReply
    } else {
        ArtNetOpCode::Unknown
    }
}

impl From<u16> for ArtNetOpCode {
    fn from(value: u16) -> (code: Self) {
        match value {
            0x2000 => ArtNetOpCode::OpPoll,
            0x2100 => ArtNetOpCode::OpPollReply,
            0x5000 => ArtNetOpCode::OpDmx,
            0x5100 => ArtNetOpCode::OpNzs,
            0x5200 => ArtNetOpCode::OpSync,
            0x6000 => ArtNetOpCode::OpAddress,
            0x7000 => ArtNetOpCode::OpInput,
            0x8000 => ArtNetOpCode::OpTodRequest,
            0x8100 => ArtNetOpCode::OpTodData,
            0x8200 => ArtNetOpCode::OpTodControl,
            0x8300 => ArtNetOpCode::OpRdm,
            0x8400 => ArtNetOpCode::OpRdmSub,
            0xf800 => ArtNetOpCode::OpIpProg,
            0xf900 => ArtNetOpCode::OpIpProgReply,
            _ => ArtNetOpCode::Unknown,
        }
    }
}

impl vstd::std_specs::convert::FromSpecImpl<u16> for ArtNetOpCode {
    open spec fn obeys_from_spec() -> bool {
        true
    }

    open spec fn from_spec(value: u16) -> Self {
        opcode_of(value)
    }
}

impl ArtNetOpCode {
    /// The wire value of a defined operation code; `0xFFFF` for `Unknown`.
    pub open spec fn wire_value(self) -> u16 {
        match self {
            ArtNetOpCode::OpPoll => 0x2000,
            ArtNetOpCode::OpPollReply => 0x2100,
            ArtNetOpCode::OpDmx => 0x5000,
            ArtNetOpCode::OpNzs => 0x5100,
            ArtNetOpCode::OpSync => 0x5200,
            ArtNetOpCode::OpAddress => 0x6000,
            ArtNetOpCode::OpInput => 0x7000,
            ArtNetOpCode::OpTodRequest => 0x8000,
            ArtNetOpCode::OpTodData => 0x8100,
            ArtNetOpCode::OpTodControl => 0x8200,
            ArtNetOpCode::OpRdm => 0x8300,
            ArtNetOpCode::OpRdmSub => 0x8400,
            ArtNetOpCode::OpIpProg => 0xf800,
            ArtNetOpCode::OpIpProgReply => 0xf900,
            ArtNetOpCode::Unknown => 0xFFFF,
        }
    }

    /// The value that stands for this operation code on the wire.
    pub fn code(self) -> (value: u16)
        ensures
            value == self.wire_value(),
    {
        match self {
            ArtNetOpCode::OpPoll => 0x2000,
            ArtNetOpCode::OpPollReply => 0x2100,
            ArtNetOpCode::OpDmx => 0x5000,
            ArtNetOpCode::OpNzs => 0x5100,
            ArtNetOpCode::OpSync => 0x5200,
            ArtNetOpCode::OpAddress => 0x6000,
            ArtNetOpCode::OpInput => 0x7000,
            ArtNetOpCode::OpTodRequest => 0x8000,
            ArtNetOpCode::OpTodData => 0x8100,
            ArtNetOpCode::OpTodControl => 0x8200,
            ArtNetOpCode::OpRdm => 0x8300,
            ArtNetOpCode::OpRdmSub => 0x8400,
            ArtNetOpCode::OpIpProg => 0xf800,
            ArtNetOpCode::OpIpProgReply => 0xf900,
            ArtNetOpCode::Unknown => 0xFFFF,
        }
    }
}

/// What a node says of itself in an ArtPollReply.
#[derive(Debug, Clone)]
pub struct ArtPollReply {
    pub ip_address: [u8; 4],
    pub port: u16,
    pub version_info: u16,
    pub net_switch: u8,
    pub sub_switch: u8,
    pub oem: u16,
    pub ubea_version: u8,
    pub status1: u8,
    pub esta_manufacturer: u16,
    pub short_name: String,
    pub long_name: String,
    pub node_report: String,
    pub num_ports: u16,
    pub port_types: [u8; 4],
    pub good_input: [u8; 4],
    pub good_output: [u8; 4],
    pub sw_in: [u8; 4],
    pub sw_out: [u8; 4],
    pub style: u8,
    pub mac_address: [u8; 6],
    pub bind_ip: [u8; 4],
    pub bind_index: u8,
    pub status2: u8,
}

impl ArtPollReply {
    /// The reply with every field at rest: the standard port, empty names and
    /// zeros elsewhere.
    pub open spec fn is_blank(self) -> bool {
        &&& self.ip_address@ == seq![0u8, 0u8, 0u8, 0u8]
        &&& self.port == ARTNET_PORT
        &&& self.version_info == 0
        &&& self.net_switch == 0
        &&& self.sub_switch == 0
        &&& self.oem == 0
        &&& self.ubea_version == 0
        &&& self.status1 == 0
        &&& self.esta_manufacturer == 0
        &&& self.short_name@ == Seq::<char>::empty()
        &&& self.long_name@ == Seq::<char>::empty()
        &&& self.node_report@ == Seq::<char>::empty()
        &&& self.num_ports == 0
        &&& self.port_types@ == seq![0u8, 0u8, 0u8, 0u8]
        &&& self.good_input@ == seq![0u8, 0u8, 0u8, 0u8]
        &&& self.good_output@ == seq![0u8, 0u8, 0u8, 0u8]
        &&& self.sw_in@ == seq![0u8, 0u8, 0u8, 0u8]
        &&& self.sw_out@ == seq![0u8, 0u8, 0u8, 0u8]
        &&& self.style == 0
        &&& self.mac_address@ == seq![0u8, 0u8, 0u8, 0u8, 0u8, 0u8]
        &&& self.bind_ip@ == seq![0u8, 0u8, 0u8, 0u8]
        &&& self.bind_index == 0
        &&& self.status2 == 0
    }
}

impl Default for ArtPollReply {
    fn default() -> (reply: Self)
        ensures
            reply.is_blank(),
    {
        let reply = ArtPollReply {
            ip_address: [0, 0, 0, 0],
            port: ARTNET_PORT,
            version_info: 0,
            net_switch: 0,
            sub_switch: 0,
            oem: 0,
            ubea_version: 0,
            status1: 0,
            esta_manufacturer: 0,
            short_name: String::new(),
            long_name: String::new(),
            node_report: String::new(),
            num_ports: 0,
            port_types: [0, 0, 0, 0],
            good_input: [0, 0, 0, 0],
            good_output: [0, 0, 0, 0],
            sw_in: [0, 0, 0, 0],
            sw_out: [0, 0, 0, 0],
            style: 0,
            mac_address: [0, 0, 0, 0, 0, 0],
            bind_ip: [0, 0, 0, 0],
            bind_index: 0,
            status2: 0,
        };
        assert(reply.ip_address@ =~= seq![0u8, 0u8, 0u8, 0u8]);
        assert(reply.port_types@ =~= seq![0u8, 0u8, 0u8, 0u8]);
        assert(reply.good_input@ =~= seq![0u8, 0u8, 0u8, 0u8]);
        assert(reply.good_output@ =~= seq![0u8, 0u8, 0u8, 0u8]);
        assert(reply.sw_in@ =~= seq![0u8, 0u8, 0u8, 0u8]);
        assert(reply.sw_out@ =~= seq![0u8, 0u8, 0u8, 0u8]);
        assert(reply.mac_address@ =~= seq![0u8, 0u8, 0u8, 0u8, 0u8, 0u8]);
        assert(reply.bind_ip@ =~= seq![0u8, 0u8, 0u8, 0u8]);
        reply
    }
}

/// One frame of DMX512 data as Art-Net carries it.
#[derive(Debug, Clone)]
pub struct ArtDmx {
    pub sequence: u8,
    pub physical: u8,
    /// 15-bit port address: net in the high byte, sub-net and universe below.
    pub universe: u16,
    pub length: u16,
    pub data: Vec<u8>,
}

/// What an Art-Net datagram turned out to be.
#[derive(Debug, Clone)]
pub enum ArtNetPacket {
    Poll,
    PollReply(ArtPollReply),
    Dmx(ArtDmx),
    /// Any other operation, with its code as it stood on the wire.
    Other(u16),
}

/// A datagram is Art-Net when it has at least twelve bytes and opens with the
/// protocol header.
pub open spec fn has_artnet_header(bytes: Seq<u8>) -> bool {
    bytes.len() >= 12 && bytes.subrange(0, 8) == artnet_header()
}

/// The operation code of an Art-Net datagram.
pub open spec fn artnet_opcode(bytes: Seq<u8>) -> u16
    recommends
        bytes.len() >= 10,
{
    le16(bytes[8], bytes[9])
}

/// Number of payload bytes that an ArtDmx datagram carries: its declared
/// length, capped at one full universe.
pub open spec fn dmx_payload_len(bytes: Seq<u8>) -> int
    recommends
        bytes.len() >= 18,
{
    if be16(bytes[16], bytes[17]) <= 512 {
        be16(bytes[16], bytes[17]) as int
    } else {
        512
    }
}

/// An ArtDmx datagram is complete when it holds the fixed fields and the
/// whole payload.
pub open spec fn dmx_complete(bytes: Seq<u8>) -> bool {
    bytes.len() >= 18 && bytes.len() >= 18 + dmx_payload_len(bytes)
}

/// `dmx` holds exactly the fields of the ArtDmx datagram `bytes`.
pub open spec fn dmx_matches(dmx: ArtDmx, bytes: Seq<u8>) -> bool
    recommends
        dmx_complete(bytes),
{
    &&& dmx.sequence == bytes[12]
    &&& dmx.physical == bytes[13]
    &&& dmx.universe == le16(bytes[14], bytes[15])
    &&& dmx.length == be16(bytes[16], bytes[17])
    &&& dmx.data@ == bytes.subrange(18, 18 + dmx_payload_len(bytes))
}

/// `reply` holds exactly the fields of the ArtPollReply datagram `bytes`;
/// the trailing fields that a short datagram lacks are zero.
pub open spec fn poll_reply_matches(reply: ArtPollReply, bytes: Seq<u8>) -> bool
    recommends
        bytes.len() >= 207,
{
    &&& reply.ip_address@ == bytes.subrange(10, 14)
    &&& reply.port == le16(bytes[14], bytes[15])
    &&& reply.version_info == be16(bytes[16], bytes[17])
    &&& reply.net_switch == bytes[18]
    &&& reply.sub_switch == bytes[19]
    &&& reply.oem == be16(bytes[20], bytes[21])
    &&& reply.ubea_version == bytes[22]
    &&& reply.status1 == bytes[23]
    &&& reply.esta_manufacturer == le16(bytes[24], bytes[25])
    &&& reply.short_name@ == field_text(bytes.subrange(26, 44))
    &&& reply.long_name@ == field_text(bytes.subrange(44, 108))
    &&& reply.node_report@ == field_text(bytes.subrange(108, 172))
    &&& reply.num_ports == be16(bytes[172], bytes[173])
    &&& reply.port_types@ == bytes.subrange(174, 178)
    &&& reply.good_input@ == bytes.subrange(178, 182)
    &&& reply.good_output@ == bytes.subrange(182, 186)
    &&& reply.sw_in@ == bytes.subrange(186, 190)
    &&& reply.sw_out@ == bytes.subrange(190, 194)
    &&& reply.style == bytes[200]
    &&& reply.mac_address@ == bytes.subrange(201, 207)
    &&& reply.bind_ip@ == if bytes.len() >= 211 {
        bytes.subrange(207, 211)
    } else {
        seq![0u8, 0u8, 0u8, 0u8]
    }
    &&& reply.bind_index == if bytes.len() > 211 {
        bytes[211]
    } else {
        0
    }
    &&& reply.status2 == if bytes.len() > 212 {
        bytes[212]
    } else {
        0
    }
}

/// `packet` is what decoding the datagram `bytes` yields: nothing for foreign
/// or truncated input, otherwise the variant that the operation code selects.
pub open spec fn artnet_decoding(bytes: Seq<u8>, packet: Option<ArtNetPacket>) -> bool {
    if !has_artnet_header(bytes) {
        packet is None
    } else if artnet_opcode(bytes) == 0x2000 {
        packet == Some(ArtNetPacket::Poll)
    } else if artnet_opcode(bytes) == 0x2100 {
        if bytes.len() < 207 {
            packet is None
        } else {
            packet matches Some(ArtNetPacket::PollReply(reply)) && poll_reply_matches(reply, bytes)
        }
    } else if artnet_opcode(bytes) == 0x5000 {
        if !dmx_complete(bytes) {
            packet is None
        } else {
            packet matches Some(ArtNetPacket::Dmx(dmx)) && dmx_matches(dmx, bytes)
        }
    } else {
        packet == Some(ArtNetPacket::Other(artnet_opcode(bytes)))
    }
}

fn read4(data: &[u8], at: usize) -> (out: [u8; 4])
    requires
        at + 4 <= data.len(),
    ensures
        out@ == data@.subrange(at as int, at + 4),
{
    let out = [data[at], data[at + 1], data[at + 2], data[at + 3]];
    assert(out@ =~= data@.subrange(at as int, at + 4));
    out
}

/// Decodes an Art-Net datagram.
pub fn parse_artnet_packet(data: &[u8]) -> (packet: Option<ArtNetPacket>)
    ensures
        artnet_decoding(data@, packet),
{
    if data.len() < 12 {
        return None;
    }
    if !(data[0] == 0x41 && data[1] == 0x72 && data[2] == 0x74 && data[3] == 0x2d && data[4]
        == 0x4e && data[5] == 0x65 && data[6] == 0x74 && data[7] == 0x00) {
        assert(data@.subrange(0, 8) != artnet_header()) by {
            let h = data@.subrange(0, 8);
            assert(h[0] == data@[0] && h[1] == data@[1] && h[2] == data@[2] && h[3] == data@[3]
                && h[4] == data@[4] && h[5] == data@[5] && h[6] == data@[6] && h[7] == data@[7]);
        }
        return None;
    }
    assert(data@.subrange(0, 8) =~= artnet_header());
    let opcode = read_le16(data[8], data[9]);
    match ArtNetOpCode::from(opcode) {
        ArtNetOpCode::OpPoll => Some(ArtNetPacket::Poll),
        ArtNetOpCode::OpPollReply => parse_poll_reply(data),
        ArtNetOpCode::OpDmx => parse_dmx(data),
        _ => Some(ArtNetPacket::Other(opcode)),
    }
}

/// Decodes the body of an ArtPollReply; nothing if it is shorter than the
/// 207 bytes that hold the fixed fields.
pub fn parse_poll_reply(data: &[u8]) -> (packet: Option<ArtNetPacket>)
    ensures
        data@.len() < 207 ==> packet is None,
        data@.len() >= 207 ==> (packet matches Some(ArtNetPacket::PollReply(reply))
            && poll_reply_matches(reply, data@)),
{
    if data.len() < 207 {
        return None;
    }
    let mut reply = ArtPollReply::default();
    reply.ip_address = read4(data, 10);
    reply.port = read_le16(data[14], data[15]);
    reply.version_info = read_be16(data[16], data[17]);
    reply.net_switch = data[18];
    reply.sub_switch = data[19];
    reply.oem = read_be16(data[20], data[21]);
    reply.ubea_version = data[22];
    reply.status1 = data[23];
    reply.esta_manufacturer = read_le16(data[24], data[25]);
    reply.short_name = extract_string(slice_subrange(data, 26, 44));
    reply.long_name = extract_string(slice_subrange(data, 44, 108));
    reply.node_report = extract_string(slice_subrange(data, 108, 172));
    reply.num_ports = read_be16(data[172], data[173]);
    reply.port_types = read4(data, 174);
    reply.good_input = read4(data, 178);
    reply.good_output = read4(data, 182);
    reply.sw_in = read4(data, 186);
    reply.sw_out = read4(data, 190);
    reply.style = data[200];
    reply.mac_address = [data[201], data[202], data[203], data[204], data[205], data[206]];
    assert(reply.mac_address@ =~= data@.subrange(201, 207));
    if data.len() >= 211 {
        reply.bind_ip = read4(data, 207);
    }
    if data.len() > 211 {
        reply.bind_index = data[211];
    }
    if data.len() > 212 {
        reply.status2 = data[212];
    }
    Some(ArtNetPacket::PollReply(reply))
}

/// Decodes the body of an ArtDmx; nothing if the fixed fields or part of the
/// declared payload are missing.
pub fn parse_dmx(data: &[u8]) -> (packet: Option<ArtNetPacket>)
    ensures
        !dmx_complete(data@) ==> packet is None,
        dmx_complete(data@) ==> (packet matches Some(ArtNetPacket::Dmx(dmx)) && dmx_matches(
            dmx,
            data@,
        )),
{
    if data.len() < 18 {
        return None;
    }
    let sequence = data[12];
    let physical = data[13];
    let universe = read_le16(data[14], data[15]);
    let length = read_be16(data[16], data[17]);
    let payload: usize = if length <= 512 {
        length as usize
    } else {
        512
    };
    if data.len() - 18 < payload {
        return None;
    }
    let dmx_data = slice_to_vec(slice_subrange(data, 18, 18 + payload));
    Some(ArtNetPacket::Dmx(ArtDmx { sequence, physical, universe, length, data: dmx_data }))
}

/// The 15-bit port address that net, sub-net and universe switches select.
pub open spec fn artnet_universe(net: u8, subnet: u8, universe: u8) -> u16 {
    ((net as u16 & 0x7F) << 8) | ((subnet as u16 & 0x0F) << 4) | (universe as u16 & 0x0F)
}

/// Packs net, sub-net and universe into the 15-bit Art-Net port address.
pub fn calculate_artnet_universe(net: u8, subnet: u8, universe: u8) -> (address: u16)
    ensures
        address == artnet_universe(net, subnet, universe),
        address as int == (net as int % 128) * 256 + (subnet as int % 16) * 16 + (universe as int
            % 16),
{
    let address = ((net as u16 & 0x7F) << 8) | ((subnet as u16 & 0x0F) << 4) | (universe as u16
        & 0x0F);
    assert(address as int == (net as int % 128) * 256 + (subnet as int % 16) * 16 + (universe as int
        % 16)) by {
        let n = net as u16;
        let s = subnet as u16;
        let u = universe as u16;
        assert(((n & 0x7F) << 8) | ((s & 0x0F) << 4) | (u & 0x0F) == (n % 128) * 256 + (s % 16) * 16
            + (u % 16)) by (bit_vector)
            requires
                n < 256,
                s < 256,
                u < 256,
        ;
    }
    address
}

/// The discovery poll: header, OpPoll, protocol version 14, a request to be
/// told of changes, and low diagnostics priority.
pub open spec fn artpoll_bytes() -> Seq<u8> {
    artnet_header() + seq![0x00u8, 0x20u8, 0x00u8, 0x0Eu8, 0x02u8, 0x10u8]
}

/// Builds the ArtPoll datagram that asks every node to announce itself.
pub fn create_artpoll_packet() -> (packet: Vec<u8>)
    ensures
        packet@ == artpoll_bytes(),
        packet@.len() == 14,
{
    let mut packet: Vec<u8> = Vec::with_capacity(14);
    packet.push(0x41);
    packet.push(0x72);
    packet.push(0x74);
    packet.push(0x2d);
    packet.push(0x4e);
    packet.push(0x65);
    packet.push(0x74);
    packet.push(0x00);
    packet.push(0x00);
    packet.push(0x20);
    packet.push(0x00);
    packet.push(0x0E);
    packet.push(0x02);
    packet.push(0x10);
    assert(packet@ =~= artpoll_bytes());
    packet
}

/// Decoding the discovery poll yields `Poll`.
pub proof fn lemma_poll_round_trip(packet: Option<ArtNetPacket>)
    requires
        artnet_decoding(artpoll_bytes(), packet),
    ensures
        packet == Some(ArtNetPacket::Poll),
{
    let b = artpoll_bytes();
    assert(b.subrange(0, 8) =~= artnet_header());
    assert(b[8] == 0x00 && b[9] == 0x20);
}

/// A complete ArtDmx datagram whose declared length is at most 512 decodes to
/// a frame whose payload has that length and is the bytes that follow the
/// eighteen-byte header.
pub proof fn lemma_dmx_payload(bytes: Seq<u8>, packet: Option<ArtNetPacket>)
    requires
        artnet_decoding(bytes, packet),
        has_artnet_header(bytes),
        artnet_opcode(bytes) == 0x5000,
        bytes.len() >= 18,
        be16(bytes[16], bytes[17]) <= 512,
        bytes.len() >= 18 + be16(bytes[16], bytes[17]),
    ensures
        packet matches Some(ArtNetPacket::Dmx(dmx)) && dmx.data@.len() == be16(
            bytes[16],
            bytes[17],
        ) && dmx.data@ == bytes.subrange(18, 18 + be16(bytes[16], bytes[17])),
{
}

/// Input of fewer than twelve bytes, or without the protocol header, decodes
/// to nothing.
pub proof fn lemma_foreign_input_is_dropped(bytes: Seq<u8>, packet: Option<ArtNetPacket>)
    requires
        artnet_decoding(bytes, packet),
        bytes.len() < 12 || bytes.subrange(0, 8) != artnet_header(),
    ensures
        packet is None,
{
}

} // verus!
