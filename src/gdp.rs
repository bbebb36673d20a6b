use vstd::prelude::*;
use crate::packet::{Udp, MAX_UDP_PAYLOAD, UDP_HEADER_LEN, IPV4_HEADER_LEN, ipv4_checksum, compute_ipv4_checksum};

verus! {

broadcast use vstd::array::group_array_axioms;

/// Magic nonce that identifies a GDP header inside a UDP payload.
pub const MAGIC_NUMBERS: u16 = 0x262a;

/// Size in bytes of the fixed GDP header.
pub const GDP_HEADER_LEN: usize = 102;

/// Hop budget stamped into a freshly pushed header.
pub const DEFAULT_TTL: u8 = 64;

/// A flat 256-bit endpoint name, compared byte-wise.
pub type GdpName = [u8; 32];

/// The action carried by a GDP header, one byte on the wire.
#[derive(Debug, PartialEq, Eq, Structural, Clone, Copy, Hash)]
pub enum GdpAction {
    Noop,
    Put,
    Get,
    RibGet,
    RibReply,
    Forward,
    Nack,
}

/// Wire encoding of an action.
pub open spec fn action_byte(a: GdpAction) -> u8 {
    match a {
        GdpAction::Noop => 0,
        GdpAction::Put => 1,
        GdpAction::Get => 2,
        GdpAction::RibGet => 3,
        GdpAction::RibReply => 4,
        GdpAction::Forward => 5,
        GdpAction::Nack => 6,
    }
}

/// Decoding of an action byte; bytes above 6 name no action.
pub open spec fn action_of_byte(b: u8) -> Option<GdpAction> {
    if b == 0 {
        Some(GdpAction::Noop)
    } else if b == 1 {
        Some(GdpAction::Put)
    } else if b == 2 {
        Some(GdpAction::Get)
    } else if b == 3 {
        Some(GdpAction::RibGet)
    } else if b == 4 {
        Some(GdpAction::RibReply)
    } else if b == 5 {
        Some(GdpAction::Forward)
    } else if b == 6 {
        Some(GdpAction::Nack)
    } else {
        None
    }
}

/// The action used for dispatch: unknown bytes dispatch as `Noop`.
pub open spec fn dispatch_action(b: u8) -> GdpAction {
    match action_of_byte(b) {
        Some(a) => a,
        None => GdpAction::Noop,
    }
}

impl GdpAction {
    pub fn to_byte(self) -> (r: u8)
        ensures
            r == action_byte(self),
    {
        match self {
            GdpAction::Noop => 0,
            GdpAction::Put => 1,
            GdpAction::Get => 2,
            GdpAction::RibGet => 3,
            GdpAction::RibReply => 4,
            GdpAction::Forward => 5,
            GdpAction::Nack => 6,
        }
    }

    /// Decodes an action byte; `None` for a byte that names no action.
    pub fn try_from(v: u8) -> (r: Option<GdpAction>)
        ensures
            r == action_of_byte(v),
            r matches Some(a) ==> action_byte(a) == v,
    {
        if v == 0 {
            Some(GdpAction::Noop)
        } else if v == 1 {
            Some(GdpAction::Put)
        } else if v == 2 {
            Some(GdpAction::Get)
        } else if v == 3 {
            Some(GdpAction::RibGet)
        } else if v == 4 {
            Some(GdpAction::RibReply)
        } else if v == 5 {
            Some(GdpAction::Forward)
        } else if v == 6 {
            Some(GdpAction::Nack)
        } else {
            None
        }
    }

    pub fn default() -> (r: GdpAction)
        ensures
            r == GdpAction::Noop,
    {
        GdpAction::Noop
    }
}

/// The two bytes of a big-endian `u16`, read back as a number.
pub open spec fn be16(hi: u8, lo: u8) -> u16 {
    (hi as int * 256 + lo as int) as u16
}

pub open spec fn hi_byte(v: u16) -> u8 {
    (v / 256) as u8
}

pub open spec fn lo_byte(v: u16) -> u8 {
    (v % 256) as u8
}

/// The fixed 102-byte GDP header.
#[derive(Debug, Clone, Copy)]
pub struct GdpHeader {
    pub field: u16,
    pub ttl: u8,
    pub action: u8,
    pub src: GdpName,
    pub dst: GdpName,
    pub last_hop: GdpName,
    pub data_len: u16,
}

/// The wire image of a header, in network byte order.
pub open spec fn header_bytes(h: GdpHeader) -> Seq<u8> {
    seq![hi_byte(h.field), lo_byte(h.field), h.ttl, h.action] + h.src@ + h.dst@ + h.last_hop@
        + seq![hi_byte(h.data_len), lo_byte(h.data_len)]
}

/// `h` is what the 102 bytes `s` decode to.
pub open spec fn header_decodes(s: Seq<u8>, h: GdpHeader) -> bool {
    &&& s.len() == 102
    &&& h.field == be16(s[0], s[1])
    &&& h.ttl == s[2]
    &&& h.action == s[3]
    &&& h.src@ == s.subrange(4, 36)
    &&& h.dst@ == s.subrange(36, 68)
    &&& h.last_hop@ == s.subrange(68, 100)
    &&& h.data_len == be16(s[100], s[101])
}

/// The name of all zero bytes.
pub open spec fn zero_name() -> Seq<u8> {
    Seq::new(32, |i: int| 0u8)
}

/// The header that `try_push` stamps: no magic yet, a full hop budget.
pub open spec fn is_default_header(h: GdpHeader) -> bool {
    &&& h.field == 0
    &&& h.ttl == DEFAULT_TTL
    &&& h.action == 0
    &&& h.src@ == zero_name()
    &&& h.dst@ == zero_name()
    &&& h.last_hop@ == zero_name()
    &&& h.data_len == 0
}

pub fn default_header() -> (r: GdpHeader)
    ensures
        is_default_header(r),
{
    let zero: GdpName = [0u8; 32];
    assert(zero@ =~= zero_name());
    GdpHeader { field: 0, ttl: DEFAULT_TTL, action: 0, src: zero, dst: zero, last_hop: zero, data_len: 0 }
}

/// Appends the 32 bytes of a name to `out`.
fn push_name(out: &mut Vec<u8>, n: &GdpName)
    ensures
        final(out)@ == old(out)@ + n@,
{
    let mut i: usize = 0;
    while i < 32
        invariant
            0 <= i <= 32,
            out@ == old(out)@ + n@.subrange(0, i as int),
        decreases 32 - i,
    {
        out.push(n[i]);
        assert(n@.subrange(0, i + 1) == n@.subrange(0, i as int).push(n@[i as int]));
        i = i + 1;
    }
    assert(n@.subrange(0, 32) == n@);
}

/// Reads the 32 bytes of a name starting at `off`.
pub fn read_name(b: &[u8], off: usize) -> (r: GdpName)
    requires
        off + 32 <= b@.len(),
    ensures
        r@ == b@.subrange(off as int, off + 32),
{
    let mut r: GdpName = [0u8; 32];
    let n = b.len();
    let mut i: usize = 0;
    while i < 32
        invariant
            0 <= i <= 32,
            n == b@.len(),
            off + 32 <= n,
            forall|j: int| 0 <= j < i ==> r@[j] == b@[off + j],
        decreases 32 - i,
    {
        r[i] = b[off + i];
        i = i + 1;
    }
    assert(r@ =~= b@.subrange(off as int, off + 32));
    r
}

/// Byte-wise equality of two names.
pub fn names_equal(a: &GdpName, b: &GdpName) -> (r: bool)
    ensures
        r == (a@ == b@),
{
    let mut i: usize = 0;
    while i < 32
        invariant
            0 <= i <= 32,
            forall|j: int| 0 <= j < i ==> a@[j] == b@[j],
        decreases 32 - i,
    {
        if a[i] != b[i] {
            return false;
        }
        i = i + 1;
    }
    assert(a@ =~= b@);
    true
}

impl GdpHeader {
    /// Serializes the header in network byte order.
    pub fn to_bytes(&self) -> (r: Vec<u8>)
        ensures
            r@ == header_bytes(*self),
            r@.len() == GDP_HEADER_LEN,
    {
        let mut out: Vec<u8> = Vec::new();
        out.push((self.field / 256) as u8);
        out.push((self.field % 256) as u8);
        out.push(self.ttl);
        out.push(self.action);
        push_name(&mut out, &self.src);
        push_name(&mut out, &self.dst);
        push_name(&mut out, &self.last_hop);
        out.push((self.data_len / 256) as u8);
        out.push((self.data_len % 256) as u8);
        assert(out@ =~= header_bytes(*self));
        assert(header_bytes(*self).len() == 102);
        out
    }

    /// Decodes the 102 bytes at `off`, whatever they hold.
    pub fn read_at(b: &[u8], off: usize) -> (r: GdpHeader)
        requires
            off + 102 <= b@.len(),
        ensures
            header_decodes(b@.subrange(off as int, off + 102), r),
    {
        let field = (b[off] as u16) * 256 + (b[off + 1] as u16);
        let h = GdpHeader {
            field,
            ttl: b[off + 2],
            action: b[off + 3],
            src: read_name(b, off + 4),
            dst: read_name(b, off + 36),
            last_hop: read_name(b, off + 68),
            data_len: (b[off + 100] as u16) * 256 + (b[off + 101] as u16),
        };
        let ghost s = b@.subrange(off as int, off + 102);
        assert(h.src@ =~= s.subrange(4, 36));
        assert(h.dst@ =~= s.subrange(36, 68));
        assert(h.last_hop@ =~= s.subrange(68, 100));
        h
    }
}

/// Decoding the wire image of a header gives back that header: its magic
/// and data length are read back from their two bytes each, and the header
/// that the 102 bytes decode to is `h` itself.
pub proof fn lemma_header_round_trip(h: GdpHeader, g: GdpHeader)
    requires
        header_decodes(header_bytes(h), g),
    ensures
        header_bytes(h).len() == GDP_HEADER_LEN,
        be16(header_bytes(h)[0], header_bytes(h)[1]) == h.field,
        be16(header_bytes(h)[100], header_bytes(h)[101]) == h.data_len,
        g == h,
{
    let s = header_bytes(h);
    assert(s.subrange(4, 36) =~= h.src@);
    assert(s.subrange(36, 68) =~= h.dst@);
    assert(s.subrange(68, 100) =~= h.last_hop@);
    assert(g.src@ == h.src@);
    assert(g.src == h.src);
    assert(g.dst == h.dst);
    assert(g.last_hop == h.last_hop);
}

/// A GDP packet: the header, and the datagram that carries it, whose
/// payload here is what follows the header, `data ‖ certs`.
#[derive(Debug, Clone)]
pub struct Gdp {
    pub envelope: Udp,
    pub header: GdpHeader,
}

/// The UDP payload that a GDP packet occupies: its header and its body.
pub open spec fn gdp_payload(g: Gdp) -> Seq<u8> {
    header_bytes(g.header) + g.envelope.payload@
}

/// The application data region.
pub open spec fn gdp_data(g: Gdp) -> Seq<u8> {
    g.envelope.payload@.subrange(0, g.header.data_len as int)
}

/// The trailing certificate region.
pub open spec fn gdp_certs(g: Gdp) -> Seq<u8> {
    g.envelope.payload@.subrange(g.header.data_len as int, g.envelope.payload@.len() as int)
}

impl Gdp {
    /// A parsed packet: magic in place, data inside the body, and a size
    /// that the IPv4 total length can describe.
    pub open spec fn wf(&self) -> bool {
        &&& self.header.field == MAGIC_NUMBERS
        &&& self.header.data_len <= self.envelope.payload@.len()
        &&& GDP_HEADER_LEN + self.envelope.payload@.len() <= MAX_UDP_PAYLOAD
    }

    /// The outer lengths and checksum describe the packet as it stands.
    pub open spec fn reconciled(&self) -> bool {
        &&& self.envelope.udp.length as int == UDP_HEADER_LEN + GDP_HEADER_LEN
            + self.envelope.payload@.len()
        &&& self.envelope.ipv4.total_length as int == IPV4_HEADER_LEN + UDP_HEADER_LEN
            + GDP_HEADER_LEN + self.envelope.payload@.len()
        &&& self.envelope.ipv4.checksum == ipv4_checksum(self.envelope.ipv4)
    }

    /// Reads a GDP header at the start of the UDP payload. Fails, handing the
    /// datagram back untouched, where the payload is shorter than a header,
    /// the magic is wrong, or the data length runs past the payload.
    pub fn try_parse(envelope: Udp) -> (r: Result<Gdp, Udp>)
        ensures
            r is Ok <==> ({
                let p = envelope.payload@;
                &&& p.len() >= GDP_HEADER_LEN
                &&& be16(p[0], p[1]) == MAGIC_NUMBERS
                &&& be16(p[100], p[101]) + GDP_HEADER_LEN <= p.len()
            }),
            r matches Err(u) ==> u == envelope,
            r matches Ok(g) ==> {
                &&& header_decodes(envelope.payload@.subrange(0, 102), g.header)
                &&& g.envelope.payload@ == envelope.payload@.subrange(
                    102,
                    envelope.payload@.len() as int,
                )
                &&& gdp_payload(g) == envelope.payload@
                &&& g.envelope.eth == envelope.eth
                &&& g.envelope.ipv4 == envelope.ipv4
                &&& g.envelope.udp == envelope.udp
                &&& (envelope.payload@.len() <= MAX_UDP_PAYLOAD ==> g.wf())
            },
    {
        let n = envelope.payload.len();
        if n < GDP_HEADER_LEN {
            return Err(envelope);
        }
        let header = GdpHeader::read_at(envelope.payload.as_slice(), 0);
        if header.field != MAGIC_NUMBERS || (header.data_len as usize) > n - GDP_HEADER_LEN {
            return Err(envelope);
        }
        let mut body: Vec<u8> = Vec::new();
        let mut i: usize = GDP_HEADER_LEN;
        while i < n
            invariant
                GDP_HEADER_LEN <= i <= n,
                n == envelope.payload@.len(),
                body@ == envelope.payload@.subrange(102, i as int),
            decreases n - i,
        {
            body.push(envelope.payload[i]);
            assert(envelope.payload@.subrange(102, i + 1) == envelope.payload@.subrange(
                102,
                i as int,
            ).push(envelope.payload@[i as int]));
            i = i + 1;
        }
        let Udp { eth, ipv4, udp, payload: _ } = envelope;
        let g = Gdp { envelope: Udp { eth, ipv4, udp, payload: body }, header };
        proof {
            let p = envelope.payload@;
            assert(header_bytes(header) =~= p.subrange(0, 102)) by {
                assert(header.src@ == p.subrange(4, 36));
                assert(header.dst@ == p.subrange(36, 68));
                assert(header.last_hop@ == p.subrange(68, 100));
            }
            assert(gdp_payload(g) =~= p);
        }
        Ok(g)
    }

    /// Pushes a default header in front of the datagram's payload.
    pub fn try_push(envelope: Udp) -> (r: Gdp)
        ensures
            is_default_header(r.header),
            r.envelope == envelope,
    {
        Gdp { envelope, header: default_header() }
    }

    /// Drops the GDP view: the header goes back into the UDP payload.
    pub fn deparse(self) -> (r: Udp)
        ensures
            r.payload@ == gdp_payload(self),
            r.eth == self.envelope.eth,
            r.ipv4 == self.envelope.ipv4,
            r.udp == self.envelope.udp,
    {
        let mut payload = self.header.to_bytes();
        let mut body = self.envelope.payload;
        payload.append(&mut body);
        Udp { eth: self.envelope.eth, ipv4: self.envelope.ipv4, udp: self.envelope.udp, payload }
    }

    /// Re-stamps the magic number; nothing else changes.
    pub fn reconcile(&mut self)
        ensures
            final(self).header.field == MAGIC_NUMBERS,
            final(self).header == (GdpHeader { field: MAGIC_NUMBERS, ..old(self).header }),
            final(self).envelope == old(self).envelope,
    {
        self.header.field = MAGIC_NUMBERS;
    }

    /// Re-stamps the magic, then re-derives the UDP length, the IPv4 total
    /// length and the IPv4 checksum.
    pub fn reconcile_all(&mut self)
        requires
            GDP_HEADER_LEN + old(self).envelope.payload@.len() <= MAX_UDP_PAYLOAD,
        ensures
            final(self).reconciled(),
            final(self).header == (GdpHeader { field: MAGIC_NUMBERS, ..old(self).header }),
            final(self).envelope.eth == old(self).envelope.eth,
            final(self).envelope.payload == old(self).envelope.payload,
            final(self).envelope.udp == (crate::packet::UdpHeader {
                length: final(self).envelope.udp.length,
                ..old(self).envelope.udp
            }),
            final(self).envelope.ipv4 == (crate::packet::Ipv4Header {
                total_length: final(self).envelope.ipv4.total_length,
                checksum: final(self).envelope.ipv4.checksum,
                ..old(self).envelope.ipv4
            }),
    {
        self.reconcile();
        let n = self.envelope.payload.len();
        self.envelope.udp.length = (UDP_HEADER_LEN + GDP_HEADER_LEN + n) as u16;
        self.envelope.ipv4.total_length = (IPV4_HEADER_LEN + UDP_HEADER_LEN + GDP_HEADER_LEN
            + n) as u16;
        self.envelope.ipv4.checksum = compute_ipv4_checksum(&self.envelope.ipv4);
    }

    /// The action, `None` for a byte that names no action.
    pub fn action(&self) -> (r: Option<GdpAction>)
        ensures
            r == action_of_byte(self.header.action),
    {
        GdpAction::try_from(self.header.action)
    }

    pub fn set_action(&mut self, action: GdpAction)
        ensures
            *final(self) == (Gdp {
                header: GdpHeader { action: action_byte(action), ..old(self).header },
                ..*old(self)
            }),
    {
        self.header.action = action.to_byte();
    }

    pub fn ttl(&self) -> (r: u8)
        ensures
            r == self.header.ttl,
    {
        self.header.ttl
    }

    pub fn set_ttl(&mut self, ttl: u8)
        ensures
            *final(self) == (Gdp { header: GdpHeader { ttl, ..old(self).header }, ..*old(self) }),
    {
        self.header.ttl = ttl;
    }

    pub fn src(&self) -> (r: GdpName)
        ensures
            r == self.header.src,
    {
        self.header.src
    }

    pub fn set_src(&mut self, src: GdpName)
        ensures
            *final(self) == (Gdp { header: GdpHeader { src, ..old(self).header }, ..*old(self) }),
    {
        self.header.src = src;
    }

    pub fn dst(&self) -> (r: GdpName)
        ensures
            r == self.header.dst,
    {
        self.header.dst
    }

    pub fn set_dst(&mut self, dst: GdpName)
        ensures
            *final(self) == (Gdp { header: GdpHeader { dst, ..old(self).header }, ..*old(self) }),
    {
        self.header.dst = dst;
    }

    pub fn last_hop(&self) -> (r: GdpName)
        ensures
            r == self.header.last_hop,
    {
        self.header.last_hop
    }

    pub fn set_last_hop(&mut self, last_hop: GdpName)
        ensures
            *final(self) == (Gdp {
                header: GdpHeader { last_hop, ..old(self).header },
                ..*old(self)
            }),
    {
        self.header.last_hop = last_hop;
    }

    pub fn data_len(&self) -> (r: usize)
        ensures
            r == self.header.data_len,
    {
        self.header.data_len as usize
    }

    /// Sets the data length; the body is not touched.
    pub fn set_data_len(&mut self, data_len: u16)
        ensures
            *final(self) == (Gdp {
                header: GdpHeader { data_len, ..old(self).header },
                ..*old(self)
            }),
    {
        self.header.data_len = data_len;
    }

    /// A copy of the application data region.
    pub fn data(&self) -> (r: Vec<u8>)
        requires
            self.header.data_len <= self.envelope.payload@.len(),
        ensures
            r@ == gdp_data(*self),
    {
        copy_range(&self.envelope.payload, 0, self.header.data_len as usize)
    }

    /// The serialized certificate block that follows the data; empty where
    /// none was appended.
    pub fn get_certs(&self) -> (r: Vec<u8>)
        requires
            self.header.data_len <= self.envelope.payload@.len(),
        ensures
            r@ == gdp_certs(*self),
    {
        copy_range(&self.envelope.payload, self.header.data_len as usize, self.envelope.payload.len())
    }

    /// Replaces the certificate region with `certs`, keeping the data.
    pub fn set_certs(&mut self, certs: &Vec<u8>)
        requires
            old(self).header.data_len <= old(self).envelope.payload@.len(),
        ensures
            final(self).envelope.payload@ == gdp_data(*old(self)) + certs@,
            final(self).header == old(self).header,
            final(self).envelope.eth == old(self).envelope.eth,
            final(self).envelope.ipv4 == old(self).envelope.ipv4,
            final(self).envelope.udp == old(self).envelope.udp,
            gdp_data(*final(self)) == gdp_data(*old(self)),
            gdp_certs(*final(self)) == certs@,
    {
        let ghost old_self = *self;
        self.envelope.payload.truncate(self.header.data_len as usize);
        let mut i: usize = 0;
        let ghost head = self.envelope.payload@;
        while i < certs.len()
            invariant
                0 <= i <= certs@.len(),
                self.envelope.payload@ == head + certs@.subrange(0, i as int),
                self.header == old_self.header,
                self.envelope.eth == old_self.envelope.eth,
                self.envelope.ipv4 == old_self.envelope.ipv4,
                self.envelope.udp == old_self.envelope.udp,
            decreases certs@.len() - i,
        {
            self.envelope.payload.push(certs[i]);
            assert(certs@.subrange(0, i + 1) == certs@.subrange(0, i as int).push(certs@[i as int]));
            i = i + 1;
        }
        assert(certs@.subrange(0, certs@.len() as int) == certs@);
        assert(gdp_data(*self) =~= gdp_data(old_self));
        assert(gdp_certs(*self) =~= certs@);
    }

    /// Strips data and certificates: the body becomes empty.
    pub fn remove_payload(&mut self)
        ensures
            final(self).envelope.payload@.len() == 0,
            final(self).header == (GdpHeader { data_len: 0, ..old(self).header }),
            final(self).envelope.eth == old(self).envelope.eth,
            final(self).envelope.ipv4 == old(self).envelope.ipv4,
            final(self).envelope.udp == old(self).envelope.udp,
    {
        self.envelope.payload.clear();
        self.header.data_len = 0;
    }
}

/// A copy of `v[lo..hi]`.
pub fn copy_range(v: &Vec<u8>, lo: usize, hi: usize) -> (r: Vec<u8>)
    requires
        lo <= hi <= v@.len(),
    ensures
        r@ == v@.subrange(lo as int, hi as int),
{
    let mut r: Vec<u8> = Vec::new();
    let mut i: usize = lo;
    while i < hi
        invariant
            lo <= i <= hi,
            hi <= v@.len(),
            r@ == v@.subrange(lo as int, i as int),
        decreases hi - i,
    {
        r.push(v[i]);
        assert(v@.subrange(lo as int, i + 1) == v@.subrange(lo as int, i as int).push(v@[i as int]));
        i = i + 1;
    }
    r
}

/// An ordered sequence of certificates, each as its encoded bytes. On the
/// wire it follows the data region, serialized.
#[derive(Debug, Clone)]
pub struct CertificateBlock {
    pub certificates: Vec<Vec<u8>>,
}

impl CertificateBlock {
    /// The block with no certificates, which an empty region stands for.
    pub fn empty() -> (r: CertificateBlock)
        ensures
            r.certificates@.len() == 0,
    {
        CertificateBlock { certificates: Vec::new() }
    }
}

/// Why a packet left the pipeline without being sent.
#[derive(Debug, PartialEq, Eq, Structural, Clone, Copy)]
pub enum GdpError {
    /// Not UDP in IPv4 in Ethernet, or no GDP header in the payload.
    ParseError,
    /// AEAD decryption or authentication failed.
    AuthFailed,
    /// The destination name is not in the forwarding table.
    LookupMiss,
    /// The packet arrived with no hops left.
    TtlExpired,
    /// The packet would outgrow what its headers can describe.
    BufferShort,
    /// The trailing certificate block is malformed.
    CertDecodeError,
}

/// A parsed packet put back into its datagram is accepted by `try_parse`
/// again, and decodes to the same header and the same body.
pub proof fn lemma_packet_round_trip(g: Gdp, h: GdpHeader)
    requires
        g.wf(),
        header_decodes(gdp_payload(g).subrange(0, 102), h),
    ensures
        gdp_payload(g).len() >= GDP_HEADER_LEN,
        be16(gdp_payload(g)[0], gdp_payload(g)[1]) == MAGIC_NUMBERS,
        be16(gdp_payload(g)[100], gdp_payload(g)[101]) + GDP_HEADER_LEN <= gdp_payload(g).len(),
        h == g.header,
        gdp_payload(g).subrange(102, gdp_payload(g).len() as int) == g.envelope.payload@,
{
    let p = gdp_payload(g);
    assert(p.subrange(0, 102) =~= header_bytes(g.header));
    lemma_header_round_trip(g.header, h);
    assert(p.subrange(102, p.len() as int) =~= g.envelope.payload@);
}

} // verus!
