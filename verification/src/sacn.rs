//! Streaming ACN (E1.31): decoding of datagrams, multicast addressing and
//! the textual form of component identifiers.
use crate::artnet::{be16, read_be16};
use crate::text::{
    extract_string, field_text, hex_byte, hex_digit, lemma_hex_byte_injective, lemma_same_ending,
    push_char, push_hex_byte,
};
use vstd::prelude::*;
use vstd::slice::{slice_subrange, slice_to_vec};

verus! {

/// UDP port on which streaming ACN is carried.
pub const SACN_PORT: u16 = 5568;

/// Framing-layer vector of a DMP (data) packet, and of universe discovery
/// inside an extended packet.
pub const FRAMING_VECTOR_DMP: u32 = 0x00000002;

/// Framing-layer vector of a synchronisation packet.
pub const FRAMING_VECTOR_SYNC: u32 = 0x00000001;

/// The twelve bytes `ASC-E1.17` and three NULs that identify an ACN packet.
pub const ACN_PACKET_IDENTIFIER: [u8; 12] = [
    0x41,
    0x53,
    0x43,
    0x2d,
    0x45,
    0x31,
    0x2e,
    0x31,
    0x37,
    0x00,
    0x00,
    0x00,
];

/// The constant holds the identifier.
pub proof fn lemma_identifier_constant()
    ensures
        ACN_PACKET_IDENTIFIER@ == acn_packet_identifier(),
{
    assert(ACN_PACKET_IDENTIFIER@ =~= acn_packet_identifier());
}

/// The packet identifier as a sequence of bytes.
pub open spec fn acn_packet_identifier() -> Seq<u8> {
    seq![
        0x41u8,
        0x53u8,
        0x43u8,
        0x2du8,
        0x45u8,
        0x31u8,
        0x2eu8,
        0x31u8,
        0x37u8,
        0x00u8,
        0x00u8,
        0x00u8,
    ]
}

/// The 32-bit value of four bytes, most significant first.
pub open spec fn be32(b0: u8, b1: u8, b2: u8, b3: u8) -> u32 {
    (b0 as u32 * 16777216 + b1 as u32 * 65536 + b2 as u32 * 256 + b3 as u32) as u32
}

/// Reads four bytes as a big-endian 32-bit value.
pub fn read_be32(b0: u8, b1: u8, b2: u8, b3: u8) -> (v: u32)
    ensures
        v == be32(b0, b1, b2, b3),
{
    (b0 as u32) * 16777216 + (b1 as u32) * 65536 + (b2 as u32) * 256 + (b3 as u32)
}

/// What the root layer says a packet carries.
#[derive(Debug, Clone, Copy, PartialEq, Eq, Structural)]
pub enum RootVector {
    Data,
    Extended,
    Unknown,
}

/// The root-layer kind that a 32-bit vector names.
pub open spec fn root_vector_of(value: u32) -> RootVector {
    if value == 0x00000004 {
        RootVector::Data
    } else if value == 0x00000008 {
        RootVector::Extended
    } else {
        RootVector::Unknown
    }
}

impl From<u32> for RootVector {
    fn from(value: u32) -> (vector: Self) {
        match value {
            0x00000004 => RootVector::Data,
            0x00000008 => RootVector::Extended,
            _ => RootVector::Unknown,
        }
    }
}

impl vstd::std_specs::convert::FromSpecImpl<u32> for RootVector {
    open spec fn obeys_from_spec() -> bool {
        true
    }

    open spec fn from_spec(value: u32) -> Self {
        root_vector_of(value)
    }
}

/// Who sent a DMX frame, as the root and framing layers tell it.
#[derive(Debug, Clone)]
pub struct SacnSource {
    /// Component identifier.
    pub cid: [u8; 16],
    pub source_name: String,
    /// 0 to 200; 100 where nothing else is known.
    pub priority: u8,
    pub sync_address: u16,
    pub sequence: u8,
    pub options: u8,
    pub universe: u16,
}

impl SacnSource {
    /// The source with the protocol's defaults: priority 100, universe 1,
    /// an all-zero identifier and an empty name.
    pub open spec fn is_blank(self) -> bool {
        &&& self.cid@ == Seq::new(16, |i: int| 0u8)
        &&& self.source_name@ == Seq::<char>::empty()
        &&& self.priority == 100
        &&& self.sync_address == 0
        &&& self.sequence == 0
        &&& self.options == 0
        &&& self.universe == 1
    }
}

impl Default for SacnSource {
    fn default() -> (source: Self)
        ensures
            source.is_blank(),
    {
        let source = SacnSource {
            cid: [0, 0, 0, 0, 0, 0, 0, 0, 0, 0, 0, 0, 0, 0, 0, 0],
            source_name: String::new(),
            priority: 100,
            sync_address: 0,
            sequence: 0,
            options: 0,
            universe: 1,
        };
        assert(source.cid@ =~= Seq::new(16, |i: int| 0u8));
        source
    }
}

/// One frame of DMX512 data as streaming ACN carries it.
#[derive(Debug, Clone)]
pub struct SacnDmx {
    pub source: SacnSource,
    pub start_code: u8,
    pub data: Vec<u8>,
}

/// The universes that a source announces.
#[derive(Debug, Clone)]
pub struct SacnDiscovery {
    pub cid: [u8; 16],
    pub source_name: String,
    pub universes: Vec<u16>,
}

/// What a streaming-ACN datagram turned out to be.
#[derive(Debug, Clone)]
pub enum SacnPacket {
    Dmx(SacnDmx),
    Sync { sync_address: u16 },
    Discovery(SacnDiscovery),
    /// Well-formed at the root layer, but nothing this monitor reads.
    Unknown,
}

/// A datagram is ACN when it holds a whole root layer with the right
/// preamble and postamble sizes and the packet identifier.
pub open spec fn has_acn_root(bytes: Seq<u8>) -> bool {
    &&& bytes.len() >= 38
    &&& bytes.subrange(4, 16) == acn_packet_identifier()
    &&& be16(bytes[0], bytes[1]) == 0x0010
    &&& be16(bytes[2], bytes[3]) == 0x0000
}

/// The root-layer vector.
pub open spec fn root_vector(bytes: Seq<u8>) -> u32
    recommends
        bytes.len() >= 22,
{
    be32(bytes[18], bytes[19], bytes[20], bytes[21])
}

/// The framing-layer vector.
pub open spec fn framing_vector(bytes: Seq<u8>) -> u32
    recommends
        bytes.len() >= 44,
{
    be32(bytes[40], bytes[41], bytes[42], bytes[43])
}

/// Number of DMX slots that a data packet carries: its property count less
/// the start code, capped at one universe and at what the buffer holds.
pub open spec fn sacn_payload_len(bytes: Seq<u8>) -> int
    recommends
        bytes.len() >= 126,
{
    let count = be16(bytes[123], bytes[124]) as int;
    let slots = if count >= 1 {
        count - 1
    } else {
        0
    };
    let capped = if slots <= 512 {
        slots
    } else {
        512
    };
    if capped <= bytes.len() - 126 {
        capped
    } else {
        bytes.len() - 126
    }
}

/// `dmx` holds the component identifier `cid` and exactly the fields of the
/// framing and DMP layers of the data packet `bytes`.
pub open spec fn sacn_dmx_matches(dmx: SacnDmx, bytes: Seq<u8>, cid: Seq<u8>) -> bool
    recommends
        bytes.len() >= 126,
{
    &&& dmx.source.cid@ == cid
    &&& dmx.source.source_name@ == field_text(bytes.subrange(44, 108))
    &&& dmx.source.priority == bytes[108]
    &&& dmx.source.sync_address == be16(bytes[109], bytes[110])
    &&& dmx.source.sequence == bytes[111]
    &&& dmx.source.options == bytes[112]
    &&& dmx.source.universe == be16(bytes[113], bytes[114])
    &&& dmx.start_code == bytes[125]
    &&& dmx.data@ == bytes.subrange(126, 126 + sacn_payload_len(bytes))
}

/// `packet` is what the framing and DMP layers of `bytes` decode to, for a
/// sender with the component identifier `cid`: nothing where a layer is cut
/// short, a synchronisation packet, `Unknown` for anything but dimmer
/// levels, or a frame.
pub open spec fn data_decoding(bytes: Seq<u8>, cid: Seq<u8>, packet: Option<SacnPacket>) -> bool {
    if bytes.len() < 115 {
        packet is None
    } else if framing_vector(bytes) == FRAMING_VECTOR_SYNC {
        packet == Some(SacnPacket::Sync { sync_address: be16(bytes[109], bytes[110]) })
    } else if bytes.len() < 126 {
        packet is None
    } else if bytes[117] != 0x02 || bytes[125] != 0 {
        packet == Some(SacnPacket::Unknown)
    } else {
        packet matches Some(SacnPacket::Dmx(dmx)) && sacn_dmx_matches(dmx, bytes, cid)
    }
}

/// The non-zero 16-bit words, most significant byte first, that stand
/// between `from` and the end of the buffer; a lone last byte is left out.
pub open spec fn universe_words(bytes: Seq<u8>, from: int) -> Seq<u16>
    decreases bytes.len() - from,
{
    if from < 0 || from + 1 >= bytes.len() {
        Seq::empty()
    } else if be16(bytes[from], bytes[from + 1]) != 0 {
        seq![be16(bytes[from], bytes[from + 1])] + universe_words(bytes, from + 2)
    } else {
        universe_words(bytes, from + 2)
    }
}

/// No universe word is zero, and there are at most half as many of them as
/// bytes stand behind `from`.
pub proof fn lemma_universe_words(bytes: Seq<u8>, from: int)
    requires
        0 <= from,
    ensures
        forall|i: int|
            0 <= i < universe_words(bytes, from).len() ==> #[trigger] universe_words(
                bytes,
                from,
            )[i] != 0,
        universe_words(bytes, from).len() <= bytes.len(),
        from <= bytes.len() ==> 2 * universe_words(bytes, from).len() <= bytes.len() - from,
    decreases bytes.len() - from,
{
    if from + 1 < bytes.len() {
        lemma_universe_words(bytes, from + 2);
    }
}

/// `found` holds the component identifier `cid` and exactly the name and
/// the universes of the universe-discovery packet `bytes`.
pub open spec fn discovery_matches(found: SacnDiscovery, bytes: Seq<u8>, cid: Seq<u8>) -> bool
    recommends
        bytes.len() >= 120,
{
    &&& found.cid@ == cid
    &&& found.source_name@ == field_text(bytes.subrange(44, 108))
    &&& found.universes@ == universe_words(bytes, 120)
}

/// `packet` is what the layers behind the root of an extended packet decode
/// to, for a sender with the component identifier `cid`: nothing below 120
/// bytes, `Unknown` for anything but universe discovery, or the discovery.
pub open spec fn extended_decoding(bytes: Seq<u8>, cid: Seq<u8>, packet: Option<SacnPacket>) -> bool {
    if bytes.len() < 120 {
        packet is None
    } else if framing_vector(bytes) != FRAMING_VECTOR_DMP {
        packet == Some(SacnPacket::Unknown)
    } else {
        packet matches Some(SacnPacket::Discovery(found)) && discovery_matches(found, bytes, cid)
    }
}

/// `packet` is what decoding the datagram `bytes` yields: nothing for foreign
/// or truncated input, otherwise what the root and framing vectors select.
pub open spec fn sacn_decoding(bytes: Seq<u8>, packet: Option<SacnPacket>) -> bool {
    if !has_acn_root(bytes) {
        packet is None
    } else if root_vector(bytes) == 0x00000004 {
        data_decoding(bytes, bytes.subrange(22, 38), packet)
    } else if root_vector(bytes) == 0x00000008 {
        extended_decoding(bytes, bytes.subrange(22, 38), packet)
    } else {
        packet == Some(SacnPacket::Unknown)
    }
}

fn read_cid(data: &[u8]) -> (cid: [u8; 16])
    requires
        data.len() >= 38,
    ensures
        cid@ == data@.subrange(22, 38),
{
    let cid = [
        data[22],
        data[23],
        data[24],
        data[25],
        data[26],
        data[27],
        data[28],
        data[29],
        data[30],
        data[31],
        data[32],
        data[33],
        data[34],
        data[35],
        data[36],
        data[37],
    ];
    assert(cid@ =~= data@.subrange(22, 38));
    cid
}

fn has_identifier(data: &[u8]) -> (found: bool)
    requires
        data.len() >= 16,
    ensures
        found == (data@.subrange(4, 16) == acn_packet_identifier()),
{
    let found = data[4] == 0x41 && data[5] == 0x53 && data[6] == 0x43 && data[7] == 0x2d && data[8]
        == 0x45 && data[9] == 0x31 && data[10] == 0x2e && data[11] == 0x31 && data[12] == 0x37
        && data[13] == 0x00 && data[14] == 0x00 && data[15] == 0x00;
    proof {
        let h = data@.subrange(4, 16);
        assert(forall|i: int| 0 <= i < 12 ==> h[i] == data@[i + 4]);
        if found {
            assert(h =~= acn_packet_identifier());
        } else {
            assert(h[0] == data@[4] && h[1] == data@[5] && h[2] == data@[6] && h[3] == data@[7]
                && h[4] == data@[8] && h[5] == data@[9] && h[6] == data@[10] && h[7] == data@[11]
                && h[8] == data@[12] && h[9] == data@[13] && h[10] == data@[14] && h[11]
                == data@[15]);
        }
    }
    found
}

/// Decodes a streaming-ACN datagram.
pub fn parse_sacn_packet(data: &[u8]) -> (packet: Option<SacnPacket>)
    ensures
        sacn_decoding(data@, packet),
{
    if data.len() < 38 {
        return None;
    }
    if !has_identifier(data) {
        return None;
    }
    if read_be16(data[0], data[1]) != 0x0010 {
        return None;
    }
    if read_be16(data[2], data[3]) != 0x0000 {
        return None;
    }
    let vector = read_be32(data[18], data[19], data[20], data[21]);
    let cid = read_cid(data);
    match RootVector::from(vector) {
        RootVector::Data => parse_data_packet(data, cid),
        RootVector::Extended => parse_extended_packet(data, cid),
        RootVector::Unknown => Some(SacnPacket::Unknown),
    }
}

/// Decodes the framing and DMP layers of a data packet. A packet whose start
/// code is not zero carries something other than dimmer levels and is
/// classified `Unknown`.
pub fn parse_data_packet(data: &[u8], cid: [u8; 16]) -> (packet: Option<SacnPacket>)
    ensures
        data_decoding(data@, cid@, packet),
{
    if data.len() < 115 {
        return None;
    }
    let framing = read_be32(data[40], data[41], data[42], data[43]);
    let source_name = extract_string(slice_subrange(data, 44, 108));
    let priority = data[108];
    let sync_address = read_be16(data[109], data[110]);
    let sequence = data[111];
    let options = data[112];
    let universe = read_be16(data[113], data[114]);
    if framing == FRAMING_VECTOR_SYNC {
        return Some(SacnPacket::Sync { sync_address });
    }
    if data.len() < 126 {
        return None;
    }
    if data[117] != 0x02 {
        return Some(SacnPacket::Unknown);
    }
    let property_count = read_be16(data[123], data[124]);
    let start_code = data[125];
    if start_code != 0 {
        return Some(SacnPacket::Unknown);
    }
    let slots: usize = if property_count >= 1 {
        (property_count - 1) as usize
    } else {
        0
    };
    let capped: usize = if slots <= 512 {
        slots
    } else {
        512
    };
    let dmx_length: usize = if capped <= data.len() - 126 {
        capped
    } else {
        data.len() - 126
    };
    let dmx_data = slice_to_vec(slice_subrange(data, 126, 126 + dmx_length));
    let source = SacnSource {
        cid,
        source_name,
        priority,
        sync_address,
        sequence,
        options,
        universe,
    };
    Some(SacnPacket::Dmx(SacnDmx { source, start_code, data: dmx_data }))
}

/// Decodes an extended packet; only universe discovery is read.
pub fn parse_extended_packet(data: &[u8], cid: [u8; 16]) -> (packet: Option<SacnPacket>)
    ensures
        extended_decoding(data@, cid@, packet),
{
    if data.len() < 120 {
        return None;
    }
    let framing = read_be32(data[40], data[41], data[42], data[43]);
    if framing != FRAMING_VECTOR_DMP {
        return Some(SacnPacket::Unknown);
    }
    let source_name = extract_string(slice_subrange(data, 44, 108));
    let mut universes: Vec<u16> = Vec::new();
    let mut offset: usize = 120;
    while data.len() - offset >= 2
        invariant
            120 <= offset <= data.len(),
            universes@ + universe_words(data@, offset as int) == universe_words(data@, 120),
        decreases data.len() - offset,
    {
        let universe = read_be16(data[offset], data[offset + 1]);
        let ghost before = universes@;
        if universe != 0 {
            universes.push(universe);
        }
        proof {
            let rest = universe_words(data@, offset + 2);
            if universe != 0 {
                assert(before.push(universe) + rest =~= before + (seq![universe] + rest));
            }
        }
        offset += 2;
    }
    assert(universes@ =~= universes@ + universe_words(data@, offset as int));
    Some(SacnPacket::Discovery(SacnDiscovery { cid, source_name, universes }))
}

/// The multicast group of a universe: 239.255 followed by the universe's
/// high and low bytes.
pub open spec fn multicast_octets(universe: u16) -> Seq<u8> {
    seq![239u8, 255u8, (universe / 256) as u8, (universe % 256) as u8]
}

/// The IPv4 multicast address on which a universe is sent.
pub fn sacn_multicast_address(universe: u16) -> (address: [u8; 4])
    ensures
        address@ == multicast_octets(universe),
{
    let high: u8 = (universe / 256) as u8;
    let low: u8 = (universe % 256) as u8;
    let address = [239, 255, high, low];
    assert(address@ =~= multicast_octets(universe));
    address
}

/// The last universe whose multicast group is joined when listening starts.
/// Universes above it are received only if they are sent to this host.
pub const LAST_JOINED_UNIVERSE: u16 = 100;

/// The multicast groups that are joined when listening starts: those of
/// the universes 1 to 100, in rising order.
pub fn startup_multicast_groups() -> (groups: Vec<[u8; 4]>)
    ensures
        groups@.len() == LAST_JOINED_UNIVERSE,
        forall|i: int|
            0 <= i < LAST_JOINED_UNIVERSE ==> (#[trigger] groups@[i])@ == multicast_octets(
                (i + 1) as u16,
            ),
{
    let mut groups: Vec<[u8; 4]> = Vec::new();
    let mut universe: u16 = 1;
    while universe <= LAST_JOINED_UNIVERSE
        invariant
            1 <= universe <= LAST_JOINED_UNIVERSE + 1,
            groups@.len() == universe - 1,
            forall|i: int|
                0 <= i < universe - 1 ==> (#[trigger] groups@[i])@ == multicast_octets(
                    (i + 1) as u16,
                ),
        decreases LAST_JOINED_UNIVERSE + 1 - universe,
    {
        groups.push(sacn_multicast_address(universe));
        universe += 1;
    }
    groups
}

/// A component identifier in the textual form of a UUID: lower-case
/// hexadecimal in groups of 8, 4, 4, 4 and 12 digits with dashes between.
pub open spec fn cid_text(cid: Seq<u8>) -> Seq<char>
    recommends
        cid.len() == 16,
{
    let g1 = Seq::<char>::empty() + hex_byte(cid[0], false) + hex_byte(cid[1], false) + hex_byte(
        cid[2],
        false,
    ) + hex_byte(cid[3], false);
    let g2 = g1.push('-') + hex_byte(cid[4], false) + hex_byte(cid[5], false);
    let g3 = g2.push('-') + hex_byte(cid[6], false) + hex_byte(cid[7], false);
    let g4 = g3.push('-') + hex_byte(cid[8], false) + hex_byte(cid[9], false);
    g4.push('-') + hex_byte(cid[10], false) + hex_byte(cid[11], false) + hex_byte(cid[12], false)
        + hex_byte(cid[13], false) + hex_byte(cid[14], false) + hex_byte(cid[15], false)
}

/// The text of the first `n` bytes of a component identifier, with a dash
/// before the fifth, seventh, ninth and eleventh byte.
pub open spec fn cid_prefix(cid: Seq<u8>, n: int) -> Seq<char>
    decreases n,
{
    if n <= 0 {
        Seq::empty()
    } else if n == 5 || n == 7 || n == 9 || n == 11 {
        cid_prefix(cid, n - 1).push('-') + hex_byte(cid[n - 1], false)
    } else {
        cid_prefix(cid, n - 1) + hex_byte(cid[n - 1], false)
    }
}

/// The text of an identifier is that of its sixteen bytes.
pub proof fn lemma_cid_text_unfolds(cid: Seq<u8>)
    ensures
        cid_text(cid) == cid_prefix(cid, 16),
{
    reveal_with_fuel(cid_prefix, 17);
}

/// Identifiers whose first `n` bytes are written alike agree in those
/// bytes.
pub proof fn lemma_cid_prefix_injective(a: Seq<u8>, b: Seq<u8>, n: int)
    requires
        0 <= n <= 16,
        a.len() == 16,
        b.len() == 16,
        cid_prefix(a, n) == cid_prefix(b, n),
    ensures
        forall|i: int| 0 <= i < n ==> a[i] == b[i],
    decreases n,
{
    if n > 0 {
        let ha = hex_byte(a[n - 1], false);
        let hb = hex_byte(b[n - 1], false);
        if n == 5 || n == 7 || n == 9 || n == 11 {
            let pa = cid_prefix(a, n - 1);
            let pb = cid_prefix(b, n - 1);
            lemma_same_ending(pa.push('-'), ha, pb.push('-'), hb);
            assert(pa.push('-') =~= pa + seq!['-']);
            assert(pb.push('-') =~= pb + seq!['-']);
            lemma_same_ending(pa, seq!['-'], pb, seq!['-']);
        } else {
            lemma_same_ending(cid_prefix(a, n - 1), ha, cid_prefix(b, n - 1), hb);
        }
        lemma_hex_byte_injective(a[n - 1], b[n - 1], false);
        lemma_cid_prefix_injective(a, b, n - 1);
    }
}

/// The text of an identifier opens with the high digit of its first byte.
pub proof fn lemma_cid_prefix_opens(cid: Seq<u8>, n: int)
    requires
        1 <= n <= 16,
    ensures
        cid_prefix(cid, n).len() >= 2,
        cid_prefix(cid, n)[0] == hex_digit(cid[0] / 16, false),
    decreases n,
{
    if n > 1 {
        lemma_cid_prefix_opens(cid, n - 1);
    } else {
        assert(cid_prefix(cid, 0) =~= Seq::<char>::empty());
        assert(cid_prefix(cid, 1) =~= hex_byte(cid[0], false));
    }
}

/// Component identifiers that are written alike are the same.
pub proof fn lemma_cid_text_injective(a: Seq<u8>, b: Seq<u8>)
    requires
        a.len() == 16,
        b.len() == 16,
        cid_text(a) == cid_text(b),
    ensures
        a == b,
{
    lemma_cid_text_unfolds(a);
    lemma_cid_text_unfolds(b);
    lemma_cid_prefix_injective(a, b, 16);
    assert(a =~= b);
}

/// Renders a component identifier as text.
pub fn cid_to_string(cid: &[u8; 16]) -> (text: String)
    ensures
        text@ == cid_text(cid@),
{
    let mut text = String::new();
    push_hex_byte(&mut text, cid[0], false);
    push_hex_byte(&mut text, cid[1], false);
    push_hex_byte(&mut text, cid[2], false);
    push_hex_byte(&mut text, cid[3], false);
    push_char(&mut text, '-');
    push_hex_byte(&mut text, cid[4], false);
    push_hex_byte(&mut text, cid[5], false);
    push_char(&mut text, '-');
    push_hex_byte(&mut text, cid[6], false);
    push_hex_byte(&mut text, cid[7], false);
    push_char(&mut text, '-');
    push_hex_byte(&mut text, cid[8], false);
    push_hex_byte(&mut text, cid[9], false);
    push_char(&mut text, '-');
    push_hex_byte(&mut text, cid[10], false);
    push_hex_byte(&mut text, cid[11], false);
    push_hex_byte(&mut text, cid[12], false);
    push_hex_byte(&mut text, cid[13], false);
    push_hex_byte(&mut text, cid[14], false);
    push_hex_byte(&mut text, cid[15], false);
    text
}

/// Input of fewer than 38 bytes, or without the ACN packet identifier at
/// offset 4, decodes to nothing.
pub proof fn lemma_foreign_input_is_dropped(bytes: Seq<u8>, packet: Option<SacnPacket>)
    requires
        sacn_decoding(bytes, packet),
        bytes.len() < 38 || bytes.subrange(4, 16) != acn_packet_identifier(),
    ensures
        packet is None,
{
}

/// Whatever else a datagram holds, one with a non-zero byte where the start
/// code stands never decodes to a DMX frame.
pub proof fn lemma_nonzero_start_code_is_never_dmx(bytes: Seq<u8>, packet: Option<SacnPacket>)
    requires
        sacn_decoding(bytes, packet),
        bytes.len() > 125,
        bytes[125] != 0,
    ensures
        !(packet matches Some(SacnPacket::Dmx(_))),
{
}

/// A data packet that reaches the DMP layer with a non-zero start code
/// decodes to `Unknown`. Synchronisation packets, which have no start code,
/// are not data packets in this sense.
pub proof fn lemma_nonzero_start_code_is_unknown(bytes: Seq<u8>, packet: Option<SacnPacket>)
    requires
        sacn_decoding(bytes, packet),
        has_acn_root(bytes),
        root_vector(bytes) == 0x00000004,
        bytes.len() >= 126,
        framing_vector(bytes) != FRAMING_VECTOR_SYNC,
        bytes[125] != 0,
    ensures
        packet == Some(SacnPacket::Unknown),
{
}

} // verus!
