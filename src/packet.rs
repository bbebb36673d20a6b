use vstd::prelude::*;
use crate::gdp::{be16, hi_byte, lo_byte};

verus! {

broadcast use vstd::array::group_array_axioms;

pub const ETH_HEADER_LEN: usize = 14;
pub const IPV4_HEADER_LEN: usize = 20;
pub const UDP_HEADER_LEN: usize = 8;
/// Offset of the UDP payload in a frame: Ethernet, IPv4 and UDP headers.
pub const UDP_PAYLOAD_OFFSET: usize = 42;
pub const ETHER_TYPE_IPV4: u16 = 0x0800;
/// IPv4 version 4 with a five-word header (no options).
pub const IPV4_VERSION_IHL: u8 = 0x45;
pub const IP_PROTOCOL_UDP: u8 = 17;
/// The largest UDP payload whose IPv4 total length still fits in 16 bits.
pub const MAX_UDP_PAYLOAD: usize = 65507;

pub type MacAddr = [u8; 6];

#[derive(Debug, Clone, Copy)]
pub struct EthHeader {
    pub dst: MacAddr,
    pub src: MacAddr,
    pub ether_type: u16,
}

/// An IPv4 header without options; addresses are host-order `u32`s.
#[derive(Debug, Clone, Copy)]
pub struct Ipv4Header {
    pub version_ihl: u8,
    pub dscp_ecn: u8,
    pub total_length: u16,
    pub identification: u16,
    pub flags_fragment: u16,
    pub ttl: u8,
    pub protocol: u8,
    pub checksum: u16,
    pub src: u32,
    pub dst: u32,
}

#[derive(Debug, Clone, Copy)]
pub struct UdpHeader {
    pub src_port: u16,
    pub dst_port: u16,
    pub length: u16,
    pub checksum: u16,
}

/// A UDP datagram in an IPv4 packet in an Ethernet frame, with its payload.
#[derive(Debug, Clone)]
pub struct Udp {
    pub eth: EthHeader,
    pub ipv4: Ipv4Header,
    pub udp: UdpHeader,
    pub payload: Vec<u8>,
}

pub open spec fn hi16(v: u32) -> u16 {
    (v / 65536) as u16
}

pub open spec fn lo16(v: u32) -> u16 {
    (v % 65536) as u16
}

/// Sum of the header's 16-bit words, the checksum word left out.
pub open spec fn ipv4_word_sum(h: Ipv4Header) -> int {
    be16(h.version_ihl, h.dscp_ecn) as int + h.total_length as int + h.identification as int
        + h.flags_fragment as int + be16(h.ttl, h.protocol) as int + hi16(h.src) as int
        + lo16(h.src) as int + hi16(h.dst) as int + lo16(h.dst) as int
}

/// One end-around carry of a ones'-complement sum.
pub open spec fn fold_carry(s: int) -> int {
    s % 65536 + s / 65536
}

/// The IPv4 header checksum: the ones' complement of the ones'-complement
/// sum of the header's words.
pub open spec fn ipv4_checksum(h: Ipv4Header) -> u16 {
    (65535 - fold_carry(fold_carry(ipv4_word_sum(h)))) as u16
}

/// What `reconcile_all` derives: lengths that cover the payload, and the
/// IPv4 checksum over the new header.
pub open spec fn lengths_reconciled(u: Udp) -> bool {
    &&& u.udp.length as int == UDP_HEADER_LEN + u.payload@.len()
    &&& u.ipv4.total_length as int == IPV4_HEADER_LEN + UDP_HEADER_LEN + u.payload@.len()
    &&& u.ipv4.checksum == ipv4_checksum(u.ipv4)
}

pub open spec fn u16_bytes(v: u16) -> Seq<u8> {
    seq![hi_byte(v), lo_byte(v)]
}

pub open spec fn u32_bytes(v: u32) -> Seq<u8> {
    u16_bytes(hi16(v)) + u16_bytes(lo16(v))
}

pub open spec fn eth_bytes(e: EthHeader) -> Seq<u8> {
    e.dst@ + e.src@ + u16_bytes(e.ether_type)
}

pub open spec fn ipv4_bytes(h: Ipv4Header) -> Seq<u8> {
    seq![h.version_ihl, h.dscp_ecn] + u16_bytes(h.total_length) + u16_bytes(h.identification)
        + u16_bytes(h.flags_fragment) + seq![h.ttl, h.protocol] + u16_bytes(h.checksum)
        + u32_bytes(h.src) + u32_bytes(h.dst)
}

pub open spec fn udp_header_bytes(h: UdpHeader) -> Seq<u8> {
    u16_bytes(h.src_port) + u16_bytes(h.dst_port) + u16_bytes(h.length) + u16_bytes(h.checksum)
}

/// The wire image of a whole frame.
pub open spec fn frame_bytes(u: Udp) -> Seq<u8> {
    eth_bytes(u.eth) + ipv4_bytes(u.ipv4) + udp_header_bytes(u.udp) + u.payload@
}

pub open spec fn be32(s: Seq<u8>, i: int) -> u32 {
    (be16(s[i], s[i + 1]) as int * 65536 + be16(s[i + 2], s[i + 3]) as int) as u32
}

/// The frame `b` holds a UDP datagram in IPv4 in Ethernet, whose UDP length
/// covers at least its header and at most the bytes that follow it.
pub open spec fn frame_parses(b: Seq<u8>) -> bool {
    &&& b.len() >= UDP_PAYLOAD_OFFSET
    &&& be16(b[12], b[13]) == ETHER_TYPE_IPV4
    &&& b[14] == IPV4_VERSION_IHL
    &&& b[23] == IP_PROTOCOL_UDP
    &&& be16(b[38], b[39]) >= UDP_HEADER_LEN
    &&& 34 + be16(b[38], b[39]) <= b.len()
}

/// `u` is what the frame `b` decodes to.
pub open spec fn frame_decodes(b: Seq<u8>, u: Udp) -> bool {
    &&& u.eth.dst@ == b.subrange(0, 6)
    &&& u.eth.src@ == b.subrange(6, 12)
    &&& u.eth.ether_type == be16(b[12], b[13])
    &&& u.ipv4.version_ihl == b[14]
    &&& u.ipv4.dscp_ecn == b[15]
    &&& u.ipv4.total_length == be16(b[16], b[17])
    &&& u.ipv4.identification == be16(b[18], b[19])
    &&& u.ipv4.flags_fragment == be16(b[20], b[21])
    &&& u.ipv4.ttl == b[22]
    &&& u.ipv4.protocol == b[23]
    &&& u.ipv4.checksum == be16(b[24], b[25])
    &&& u.ipv4.src == be32(b, 26)
    &&& u.ipv4.dst == be32(b, 30)
    &&& u.udp.src_port == be16(b[34], b[35])
    &&& u.udp.dst_port == be16(b[36], b[37])
    &&& u.udp.length == be16(b[38], b[39])
    &&& u.udp.checksum == be16(b[40], b[41])
    &&& u.payload@ == b.subrange(42, 34 + be16(b[38], b[39]))
}

fn push_u16(out: &mut Vec<u8>, v: u16)
    ensures
        final(out)@ == old(out)@ + u16_bytes(v),
{
    out.push((v / 256) as u8);
    out.push((v % 256) as u8);
    assert(final(out)@ =~= old(out)@ + u16_bytes(v));
}

fn push_u32(out: &mut Vec<u8>, v: u32)
    ensures
        final(out)@ == old(out)@ + u32_bytes(v),
{
    let ghost start = out@;
    push_u16(out, (v / 65536) as u16);
    push_u16(out, (v % 65536) as u16);
    assert(out@ =~= start + u32_bytes(v));
}

fn push_mac(out: &mut Vec<u8>, m: &MacAddr)
    ensures
        final(out)@ == old(out)@ + m@,
{
    let mut i: usize = 0;
    while i < 6
        invariant
            0 <= i <= 6,
            out@ == old(out)@ + m@.subrange(0, i as int),
        decreases 6 - i,
    {
        out.push(m[i]);
        assert(m@.subrange(0, i + 1) == m@.subrange(0, i as int).push(m@[i as int]));
        i = i + 1;
    }
    assert(m@.subrange(0, 6) == m@);
}

fn read_mac(b: &[u8], off: usize) -> (r: MacAddr)
    requires
        off + 6 <= b@.len(),
    ensures
        r@ == b@.subrange(off as int, off + 6),
{
    let mut r: MacAddr = [0u8; 6];
    let n = b.len();
    let mut i: usize = 0;
    while i < 6
        invariant
            0 <= i <= 6,
            n == b@.len(),
            off + 6 <= n,
            forall|j: int| 0 <= j < i ==> r@[j] == b@[off + j],
        decreases 6 - i,
    {
        r[i] = b[off + i];
        i = i + 1;
    }
    assert(r@ =~= b@.subrange(off as int, off + 6));
    r
}

fn read_u16(b: &[u8], off: usize) -> (r: u16)
    requires
        off + 2 <= b@.len(),
    ensures
        r == be16(b@[off as int], b@[off + 1]),
{
    (b[off] as u16) * 256 + (b[off + 1] as u16)
}

fn read_u32(b: &[u8], off: usize) -> (r: u32)
    requires
        off + 4 <= b@.len(),
    ensures
        r == be32(b@, off as int),
{
    let _n = b.len();
    (read_u16(b, off) as u32) * 65536 + (read_u16(b, off + 2) as u32)
}

/// Computes the IPv4 header checksum.
pub fn compute_ipv4_checksum(h: &Ipv4Header) -> (r: u16)
    ensures
        r == ipv4_checksum(*h),
{
    let s: u32 = ((h.version_ihl as u32) * 256 + h.dscp_ecn as u32) + h.total_length as u32
        + h.identification as u32 + h.flags_fragment as u32 + ((h.ttl as u32) * 256
        + h.protocol as u32) + h.src / 65536 + h.src % 65536 + h.dst / 65536 + h.dst % 65536;
    let f1: u32 = s % 65536 + s / 65536;
    let f2: u32 = f1 % 65536 + f1 / 65536;
    assert(f2 <= 65535);
    (65535 - f2) as u16
}

impl Udp {
    /// Length of the UDP payload in bytes.
    pub fn len(&self) -> (r: usize)
        ensures
            r == self.payload@.len(),
    {
        self.payload.len()
    }

    pub fn src_port(&self) -> (r: u16)
        ensures
            r == self.udp.src_port,
    {
        self.udp.src_port
    }

    pub fn dst_port(&self) -> (r: u16)
        ensures
            r == self.udp.dst_port,
    {
        self.udp.dst_port
    }

    pub fn set_src_port(&mut self, port: u16)
        ensures
            *final(self) == (Udp { udp: UdpHeader { src_port: port, ..old(self).udp }, ..*old(self) }),
    {
        self.udp.src_port = port;
    }

    pub fn set_dst_port(&mut self, port: u16)
        ensures
            *final(self) == (Udp { udp: UdpHeader { dst_port: port, ..old(self).udp }, ..*old(self) }),
    {
        self.udp.dst_port = port;
    }

    /// Re-derives the UDP length, the IPv4 total length and the IPv4
    /// checksum; the Ethernet header is unchanged.
    pub fn reconcile_all(&mut self)
        requires
            old(self).payload@.len() <= MAX_UDP_PAYLOAD,
        ensures
            lengths_reconciled(*final(self)),
            final(self).eth == old(self).eth,
            final(self).payload == old(self).payload,
            final(self).udp.src_port == old(self).udp.src_port,
            final(self).udp.dst_port == old(self).udp.dst_port,
            final(self).udp.checksum == old(self).udp.checksum,
            final(self).ipv4 == (Ipv4Header {
                total_length: final(self).ipv4.total_length,
                checksum: final(self).ipv4.checksum,
                ..old(self).ipv4
            }),
    {
        let n = self.payload.len();
        self.udp.length = (UDP_HEADER_LEN + n) as u16;
        self.ipv4.total_length = (IPV4_HEADER_LEN + UDP_HEADER_LEN + n) as u16;
        self.ipv4.checksum = compute_ipv4_checksum(&self.ipv4);
    }

    /// Decodes a frame; `None` where it is not UDP in IPv4 in Ethernet.
    pub fn parse_frame(b: &[u8]) -> (r: Option<Udp>)
        ensures
            r is Some <==> frame_parses(b@),
            r matches Some(u) ==> frame_decodes(b@, u),
    {
        let n = b.len();
        if n < UDP_PAYLOAD_OFFSET {
            return None;
        }
        let ether_type = read_u16(b, 12);
        let udp_len = read_u16(b, 38);
        if ether_type != ETHER_TYPE_IPV4 || b[14] != IPV4_VERSION_IHL || b[23] != IP_PROTOCOL_UDP
            || udp_len < 8 || 34 + (udp_len as usize) > n {
            return None;
        }
        let end: usize = 34 + udp_len as usize;
        let mut payload: Vec<u8> = Vec::new();
        let mut i: usize = UDP_PAYLOAD_OFFSET;
        while i < end
            invariant
                UDP_PAYLOAD_OFFSET <= i <= end,
                end <= n,
                n == b@.len(),
                payload@ == b@.subrange(42, i as int),
            decreases end - i,
        {
            payload.push(b[i]);
            assert(b@.subrange(42, i + 1) == b@.subrange(42, i as int).push(b@[i as int]));
            i = i + 1;
        }
        let u = Udp {
            eth: EthHeader { dst: read_mac(b, 0), src: read_mac(b, 6), ether_type },
            ipv4: Ipv4Header {
                version_ihl: b[14],
                dscp_ecn: b[15],
                total_length: read_u16(b, 16),
                identification: read_u16(b, 18),
                flags_fragment: read_u16(b, 20),
                ttl: b[22],
                protocol: b[23],
                checksum: read_u16(b, 24),
                src: read_u32(b, 26),
                dst: read_u32(b, 30),
            },
            udp: UdpHeader {
                src_port: read_u16(b, 34),
                dst_port: read_u16(b, 36),
                length: udp_len,
                checksum: read_u16(b, 40),
            },
            payload,
        };
        Some(u)
    }

    /// Encodes the frame in network byte order.
    pub fn to_bytes(&self) -> (r: Vec<u8>)
        ensures
            r@ == frame_bytes(*self),
    {
        let mut out: Vec<u8> = Vec::new();
        push_mac(&mut out, &self.eth.dst);
        push_mac(&mut out, &self.eth.src);
        push_u16(&mut out, self.eth.ether_type);
        assert(out@ =~= eth_bytes(self.eth));
        out.push(self.ipv4.version_ihl);
        out.push(self.ipv4.dscp_ecn);
        push_u16(&mut out, self.ipv4.total_length);
        push_u16(&mut out, self.ipv4.identification);
        push_u16(&mut out, self.ipv4.flags_fragment);
        out.push(self.ipv4.ttl);
        out.push(self.ipv4.protocol);
        push_u16(&mut out, self.ipv4.checksum);
        push_u32(&mut out, self.ipv4.src);
        push_u32(&mut out, self.ipv4.dst);
        assert(out@ =~= eth_bytes(self.eth) + ipv4_bytes(self.ipv4));
        push_u16(&mut out, self.udp.src_port);
        push_u16(&mut out, self.udp.dst_port);
        push_u16(&mut out, self.udp.length);
        push_u16(&mut out, self.udp.checksum);
        assert(out@ =~= eth_bytes(self.eth) + ipv4_bytes(self.ipv4) + udp_header_bytes(self.udp));
        let mut i: usize = 0;
        let ghost head = out@;
        while i < self.payload.len()
            invariant
                0 <= i <= self.payload@.len(),
                out@ == head + self.payload@.subrange(0, i as int),
            decreases self.payload@.len() - i,
        {
            out.push(self.payload[i]);
            assert(self.payload@.subrange(0, i + 1) == self.payload@.subrange(0, i as int).push(
                self.payload@[i as int],
            ));
            i = i + 1;
        }
        assert(self.payload@.subrange(0, self.payload@.len() as int) == self.payload@);
        out
    }
}

/// A datagram with its UDP ports and its Ethernet addresses swapped.
pub open spec fn bounced(u: Udp) -> Udp {
    Udp {
        eth: EthHeader { src: u.eth.dst, dst: u.eth.src, ..u.eth },
        udp: UdpHeader { src_port: u.udp.dst_port, dst_port: u.udp.src_port, ..u.udp },
        ..u
    }
}

/// Swaps the UDP ports and the Ethernet addresses; the IPv4 addresses are
/// left to the caller.
pub fn bounce_udp(udp: &mut Udp)
    ensures
        *final(udp) == bounced(*old(udp)),
{
    let udp_src_port = udp.dst_port();
    let udp_dst_port = udp.src_port();
    udp.set_src_port(udp_src_port);
    udp.set_dst_port(udp_dst_port);
    let eth_src = udp.eth.dst;
    let eth_dst = udp.eth.src;
    udp.eth.src = eth_src;
    udp.eth.dst = eth_dst;
}

/// Bouncing a datagram twice gives back its ports and Ethernet addresses;
/// indeed the whole datagram.
pub proof fn lemma_bounce_twice(u: Udp)
    ensures
        bounced(bounced(u)).udp.src_port == u.udp.src_port,
        bounced(bounced(u)).udp.dst_port == u.udp.dst_port,
        bounced(bounced(u)).eth.src == u.eth.src,
        bounced(bounced(u)).eth.dst == u.eth.dst,
        bounced(bounced(u)) == u,
{
}

} // verus!
