use vstd::prelude::*;
use crate::gdp::{
    Gdp, GdpAction, GdpError, GdpName, action_byte, gdp_data, copy_range, read_name, zero_name,
};
use crate::packet::{
    EthHeader, Ipv4Header, MacAddr, Udp, UdpHeader, be32, u32_bytes, ETHER_TYPE_IPV4,
    IPV4_VERSION_IHL, IP_PROTOCOL_UDP,
};
use crate::store::Store;

verus! {

broadcast use vstd::array::group_array_axioms;

/// IPv4 address of the RIB, 10.100.1.10.
pub const RIB_IP: u32 = 0x0a64_010a;
/// UDP port of the RIB, used as both source and destination of queries.
pub const RIB_PORT: u16 = 27182;
/// Hop budget of the IPv4 packets this node originates.
pub const IPV4_DEFAULT_TTL: u8 = 64;
/// Length of the data region of a query: the name asked for.
pub const RIB_QUERY_LEN: u16 = 32;
/// Length of the data region of a reply: the name, then its IPv4 address.
pub const RIB_REPLY_LEN: u16 = 36;

/// MAC address of the RIB, 02:00:00:FF:FF:00 (locally administered).
pub open spec fn rib_mac() -> Seq<u8> {
    seq![0x02u8, 0x00, 0x00, 0xff, 0xff, 0x00]
}

pub fn rib_mac_addr() -> (r: MacAddr)
    ensures
        r@ == rib_mac(),
{
    let r: MacAddr = [0x02, 0x00, 0x00, 0xff, 0xff, 0x00];
    assert(r@ =~= rib_mac());
    r
}

/// The name that a query or reply is about: the first 32 bytes of its data.
pub open spec fn rib_key(g: Gdp) -> Seq<u8> {
    gdp_data(g).subrange(0, 32)
}

/// The address that a reply carries: data bytes 32 to 36, big-endian.
pub open spec fn rib_value(g: Gdp) -> u32 {
    be32(gdp_data(g), 32)
}

/// A fresh IPv4 header for a UDP packet from `src` to `dst`.
pub open spec fn fresh_ipv4(h: Ipv4Header, src: u32, dst: u32) -> bool {
    &&& h.version_ihl == IPV4_VERSION_IHL
    &&& h.dscp_ecn == 0
    &&& h.identification == 0
    &&& h.flags_fragment == 0
    &&& h.ttl == IPV4_DEFAULT_TTL
    &&& h.protocol == IP_PROTOCOL_UDP
    &&& h.src == src
    &&& h.dst == dst
}

/// A fresh packet of `action`, addressed at the link, IP and UDP levels as
/// given, whose data is `data` and whose lengths are reconciled.
pub open spec fn is_new_message(
    g: Gdp,
    action: GdpAction,
    eth_src: Seq<u8>,
    eth_dst: Seq<u8>,
    ip_src: u32,
    ip_dst: u32,
    src_port: u16,
    dst_port: u16,
    data: Seq<u8>,
) -> bool {
    &&& g.wf()
    &&& g.reconciled()
    &&& g.envelope.eth.src@ == eth_src
    &&& g.envelope.eth.dst@ == eth_dst
    &&& g.envelope.eth.ether_type == ETHER_TYPE_IPV4
    &&& fresh_ipv4(g.envelope.ipv4, ip_src, ip_dst)
    &&& g.envelope.udp.src_port == src_port
    &&& g.envelope.udp.dst_port == dst_port
    &&& g.envelope.udp.checksum == 0
    &&& g.header.action == action_byte(action)
    &&& g.header.ttl == crate::gdp::DEFAULT_TTL
    &&& g.header.src@ == zero_name()
    &&& g.header.dst@ == zero_name()
    &&& g.header.last_hop@ == zero_name()
    &&& g.envelope.payload@ == data
    &&& g.header.data_len as int == data.len()
}

/// Builds a packet of `action` whose body is `data`.
fn new_message(
    action: GdpAction,
    eth_src: MacAddr,
    eth_dst: MacAddr,
    ip_src: u32,
    ip_dst: u32,
    src_port: u16,
    dst_port: u16,
    data: Vec<u8>,
) -> (r: Gdp)
    requires
        data@.len() <= 64,
    ensures
        is_new_message(
            r,
            action,
            eth_src@,
            eth_dst@,
            ip_src,
            ip_dst,
            src_port,
            dst_port,
            data@,
        ),
{
    let n = data.len();
    let udp = Udp {
        eth: EthHeader { dst: eth_dst, src: eth_src, ether_type: ETHER_TYPE_IPV4 },
        ipv4: Ipv4Header {
            version_ihl: IPV4_VERSION_IHL,
            dscp_ecn: 0,
            total_length: 0,
            identification: 0,
            flags_fragment: 0,
            ttl: IPV4_DEFAULT_TTL,
            protocol: IP_PROTOCOL_UDP,
            checksum: 0,
            src: ip_src,
            dst: ip_dst,
        },
        udp: UdpHeader { src_port, dst_port, length: 0, checksum: 0 },
        payload: data,
    };
    let mut g = Gdp::try_push(udp);
    g.set_action(action);
    g.set_data_len(n as u16);
    g.reconcile_all();
    g
}

/// Builds the query that asks the RIB for `key`, sent from this node's MAC
/// and IPv4 address to the RIB's, port `RIB_PORT` on both ends.
pub fn create_rib_request(key: GdpName, src_mac: MacAddr, src_ip: u32) -> (r: Gdp)
    ensures
        is_new_message(
            r,
            GdpAction::RibGet,
            src_mac@,
            rib_mac(),
            src_ip,
            RIB_IP,
            RIB_PORT,
            RIB_PORT,
            key@,
        ),
        rib_key(r) == key@,
{
    let data = copy_range(&key_vec(&key), 0, 32);
    let r = new_message(
        GdpAction::RibGet,
        src_mac,
        rib_mac_addr(),
        src_ip,
        RIB_IP,
        RIB_PORT,
        RIB_PORT,
        data,
    );
    assert(gdp_data(r) =~= key@);
    assert(rib_key(r) =~= key@);
    r
}

/// The bytes of a name as a vector.
fn key_vec(key: &GdpName) -> (r: Vec<u8>)
    ensures
        r@ == key@,
{
    let mut r: Vec<u8> = Vec::new();
    let mut i: usize = 0;
    while i < 32
        invariant
            0 <= i <= 32,
            r@ == key@.subrange(0, i as int),
        decreases 32 - i,
    {
        r.push(key[i]);
        assert(key@.subrange(0, i + 1) == key@.subrange(0, i as int).push(key@[i as int]));
        i = i + 1;
    }
    assert(key@.subrange(0, 32) == key@);
    r
}

/// Installs the binding that a reply carries. A reply whose data is too
/// short to hold a name and an address, or whose address is the RIB's own,
/// is refused with `ParseError`, and the store is left as it was.
pub fn handle_rib_reply(packet: &Gdp, store: &mut Store, expires: Option<u64>) -> (r: Result<
    (),
    GdpError,
>)
    requires
        packet.wf(),
        old(store).wf(),
    ensures
        final(store).wf(),
        r is Ok <==> packet.header.data_len >= RIB_REPLY_LEN && rib_value(*packet) != RIB_IP,
        r is Ok ==> final(store)@ == old(store)@.insert(rib_key(*packet), rib_value(*packet)),
        r matches Err(e) ==> e == GdpError::ParseError && *final(store) == *old(store),
{
    if packet.header.data_len < RIB_REPLY_LEN {
        return Err(GdpError::ParseError);
    }
    let body = packet.envelope.payload.as_slice();
    let key = read_name(body, 0);
    let value = (((body[32] as u32) * 256 + body[33] as u32) * 256 + body[34] as u32) * 256
        + body[35] as u32;
    assert(key@ =~= rib_key(*packet));
    assert(value == rib_value(*packet));
    if value == RIB_IP {
        return Err(GdpError::ParseError);
    }
    store.insert(key, value, expires);
    Ok(())
}

/// Answers a query: a reply to the querier with the ports and the Ethernet
/// and IPv4 addresses swapped, carrying the name asked for and its address.
/// A query too short to hold a name is refused with `ParseError`; a name
/// that the store does not hold, with `LookupMiss`.
pub fn handle_rib_query(packet: &Gdp, store: &Store) -> (r: Result<Gdp, GdpError>)
    requires
        packet.wf(),
        store.wf(),
    ensures
        packet.header.data_len < RIB_QUERY_LEN ==> r == Err::<Gdp, GdpError>(GdpError::ParseError),
        packet.header.data_len >= RIB_QUERY_LEN && !store@.dom().contains(rib_key(*packet)) ==> r
            == Err::<Gdp, GdpError>(GdpError::LookupMiss),
        packet.header.data_len >= RIB_QUERY_LEN && store@.dom().contains(rib_key(*packet)) ==> r is Ok,
        r matches Ok(g) ==> {
            &&& is_new_message(
                g,
                GdpAction::RibReply,
                packet.envelope.eth.dst@,
                packet.envelope.eth.src@,
                packet.envelope.ipv4.dst,
                packet.envelope.ipv4.src,
                packet.envelope.udp.dst_port,
                packet.envelope.udp.src_port,
                rib_key(*packet) + u32_bytes(store@[rib_key(*packet)]),
            )
            &&& rib_key(g) == rib_key(*packet)
            &&& rib_value(g) == store@[rib_key(*packet)]
        },
{
    if packet.header.data_len < RIB_QUERY_LEN {
        return Err(GdpError::ParseError);
    }
    let body = packet.envelope.payload.as_slice();
    let key = read_name(body, 0);
    assert(key@ =~= rib_key(*packet));
    let value = match store.lookup(&key) {
        Some(v) => v,
        None => {
            return Err(GdpError::LookupMiss);
        },
    };
    let mut data = key_vec(&key);
    let hi = value / 65536;
    let lo = value % 65536;
    data.push((hi / 256) as u8);
    data.push((hi % 256) as u8);
    data.push((lo / 256) as u8);
    data.push((lo % 256) as u8);
    assert(data@ =~= key@ + u32_bytes(value));
    let g = new_message(
        GdpAction::RibReply,
        packet.envelope.eth.dst,
        packet.envelope.eth.src,
        packet.envelope.ipv4.dst,
        packet.envelope.ipv4.src,
        packet.envelope.udp.dst_port,
        packet.envelope.udp.src_port,
        data,
    );
    assert(gdp_data(g) =~= data@);
    assert(rib_key(g) =~= key@);
    Ok(g)
}

} // verus!
