use vstd::prelude::*;
use crate::gdp::{
    Gdp, GdpAction, GdpError, GdpHeader, GdpName, action_byte, dispatch_action, gdp_data,
    MAGIC_NUMBERS,
};
use crate::packet::{MacAddr, bounce_udp, bounced};
use crate::rib::{
    create_rib_request, handle_rib_query, handle_rib_reply, is_new_message, rib_key, rib_mac,
    rib_value, RIB_IP, RIB_PORT, RIB_QUERY_LEN, RIB_REPLY_LEN,
};
use crate::store::Store;

verus! {

/// What a node knows of itself.
#[derive(Debug, Clone, Copy)]
pub struct NodeConfig {
    pub name: GdpName,
    pub mac: MacAddr,
    pub ip: u32,
}

/// The role a node runs in.
#[derive(Debug, PartialEq, Eq, Structural, Clone, Copy)]
pub enum ProdMode {
    Router,
    Switch,
}

/// `g` is `pkt` forwarded by `node` to `dst`: the IPv4 source takes the old
/// destination, the destination becomes `dst`, one hop is spent, the last hop
/// is this node, the body is untouched and the lengths are reconciled.
pub open spec fn is_forward_of(g: Gdp, pkt: Gdp, dst: u32, node: GdpName) -> bool {
    &&& g.wf()
    &&& g.reconciled()
    &&& g.header == (GdpHeader {
        field: MAGIC_NUMBERS,
        ttl: (pkt.header.ttl - 1) as u8,
        last_hop: node,
        ..pkt.header
    })
    &&& g.envelope.payload == pkt.envelope.payload
    &&& g.envelope.eth == pkt.envelope.eth
    &&& g.envelope.ipv4.src == pkt.envelope.ipv4.dst
    &&& g.envelope.ipv4.dst == dst
    &&& g.envelope.ipv4.ttl == pkt.envelope.ipv4.ttl
    &&& g.envelope.ipv4.protocol == pkt.envelope.ipv4.protocol
    &&& g.envelope.udp.src_port == pkt.envelope.udp.src_port
    &&& g.envelope.udp.dst_port == pkt.envelope.udp.dst_port
}

/// `g` is `pkt` sent back to its sender as a `Nack`: empty body, ports,
/// Ethernet and IPv4 addresses swapped, lengths reconciled.
pub open spec fn is_bounce_of(g: Gdp, pkt: Gdp) -> bool {
    &&& g.wf()
    &&& g.reconciled()
    &&& g.header == (GdpHeader {
        field: MAGIC_NUMBERS,
        action: action_byte(GdpAction::Nack),
        data_len: 0,
        ..pkt.header
    })
    &&& g.envelope.payload@.len() == 0
    &&& g.envelope.eth == bounced(pkt.envelope).eth
    &&& g.envelope.udp.src_port == pkt.envelope.udp.dst_port
    &&& g.envelope.udp.dst_port == pkt.envelope.udp.src_port
    &&& g.envelope.ipv4.src == pkt.envelope.ipv4.dst
    &&& g.envelope.ipv4.dst == pkt.envelope.ipv4.src
}

/// Looks up the next hop of the packet's destination name.
pub fn find_destination(gdp: &Gdp, store: &Store) -> (r: Option<u32>)
    requires
        store.wf(),
    ensures
        r is Some <==> store@.dom().contains(gdp.header.dst@),
        r matches Some(a) ==> a == store@[gdp.header.dst@],
{
    store.lookup(&gdp.header.dst)
}

/// Forwards a packet to the next hop `dst` on behalf of `node`.
pub fn forward_gdp(gdp: Gdp, dst: u32, node: &GdpName) -> (r: Gdp)
    requires
        gdp.wf(),
        gdp.header.ttl > 0,
    ensures
        is_forward_of(r, gdp, dst, *node),
{
    let mut gdp = gdp;
    let old_dst = gdp.envelope.ipv4.dst;
    gdp.envelope.ipv4.src = old_dst;
    gdp.envelope.ipv4.dst = dst;
    let ttl = gdp.ttl();
    gdp.set_ttl(ttl - 1);
    gdp.set_last_hop(*node);
    gdp.reconcile_all();
    gdp
}

/// Turns a packet around as a `Nack` with no body.
pub fn bounce_gdp(gdp: Gdp) -> (r: Gdp)
    requires
        gdp.wf(),
    ensures
        is_bounce_of(r, gdp),
{
    let mut gdp = gdp;
    gdp.remove_payload();
    gdp.set_action(GdpAction::Nack);
    bounce_udp(&mut gdp.envelope);
    let ip_src = gdp.envelope.ipv4.dst;
    let ip_dst = gdp.envelope.ipv4.src;
    gdp.envelope.ipv4.src = ip_src;
    gdp.envelope.ipv4.dst = ip_dst;
    gdp.reconcile_all();
    gdp
}

/// Forwarding keeps the data region and spends exactly one hop.
pub proof fn lemma_forward_preserves_payload(g: Gdp, pkt: Gdp, dst: u32, node: GdpName)
    requires
        pkt.wf(),
        pkt.header.ttl > 0,
        is_forward_of(g, pkt, dst, node),
    ensures
        gdp_data(g) == gdp_data(pkt),
        g.header.ttl == pkt.header.ttl - 1,
{
}

/// What the switch does with one packet.
pub enum SwitchOutcome {
    /// Sent on to its next hop.
    Forwarded(Gdp),
    /// Destination unknown: a `Nack` back to the sender, and a query to the RIB.
    Missed { nack: Gdp, request: Gdp },
    /// A RIB reply, installed in the store and consumed.
    Installed,
    /// Dropped for the reason given.
    Dropped(GdpError),
    /// An action that the switch does not handle; dropped.
    Ignored,
}

/// A RIB reply that the switch installs: hops left, a name and an address
/// in its data, and an address other than the RIB's own.
pub open spec fn installs(pkt: Gdp) -> bool {
    &&& dispatch_action(pkt.header.action) == GdpAction::RibReply
    &&& pkt.header.ttl > 0
    &&& pkt.header.data_len >= RIB_REPLY_LEN
    &&& rib_value(pkt) != RIB_IP
}

/// The store after the switch has handled `pkt`: an installable RIB reply
/// adds its binding, nothing else changes it.
pub open spec fn switch_store_after(store: Map<Seq<u8>, u32>, pkt: Gdp) -> Map<Seq<u8>, u32> {
    if installs(pkt) {
        store.insert(rib_key(pkt), rib_value(pkt))
    } else {
        store
    }
}

/// The switch's decision on one packet, given the store before and after.
pub open spec fn switch_spec(
    store: Map<Seq<u8>, u32>,
    store_after: Map<Seq<u8>, u32>,
    node: NodeConfig,
    pkt: Gdp,
    r: SwitchOutcome,
) -> bool {
    let action = dispatch_action(pkt.header.action);
    if pkt.header.ttl == 0 {
        r == SwitchOutcome::Dropped(GdpError::TtlExpired) && store_after == store
    } else if action == GdpAction::Forward {
        &&& store_after == store
        &&& if store.dom().contains(pkt.header.dst@) {
            r matches SwitchOutcome::Forwarded(g) && is_forward_of(
                g,
                pkt,
                store[pkt.header.dst@],
                node.name,
            )
        } else {
            r matches SwitchOutcome::Missed { nack, request } && is_bounce_of(nack, pkt)
                && is_new_message(
                request,
                GdpAction::RibGet,
                node.mac@,
                rib_mac(),
                node.ip,
                RIB_IP,
                RIB_PORT,
                RIB_PORT,
                pkt.header.dst@,
            )
        }
    } else if action == GdpAction::RibReply {
        if installs(pkt) {
            r == SwitchOutcome::Installed && store_after == store.insert(
                rib_key(pkt),
                rib_value(pkt),
            )
        } else {
            r == SwitchOutcome::Dropped(GdpError::ParseError) && store_after == store
        }
    } else {
        r == SwitchOutcome::Ignored && store_after == store
    }
}

/// The switch's handling of one parsed packet: drop it if it has no hops
/// left; otherwise forward on a hit, bounce and query the RIB on a miss,
/// install RIB replies, drop everything else.
/// Replies are installed to lapse at `expires`.
pub fn switch_packet(store: &mut Store, node: &NodeConfig, pkt: Gdp, expires: Option<u64>) -> (r:
    SwitchOutcome)
    requires
        old(store).wf(),
        pkt.wf(),
    ensures
        final(store).wf(),
        switch_spec(old(store)@, final(store)@, *node, pkt, r),
        final(store)@ == switch_store_after(old(store)@, pkt),
{
    let action = match pkt.action() {
        Some(a) => a,
        None => GdpAction::Noop,
    };
    if pkt.ttl() == 0 {
        return SwitchOutcome::Dropped(GdpError::TtlExpired);
    }
    match action {
        GdpAction::Forward => {
            match find_destination(&pkt, store) {
                Some(dst) => SwitchOutcome::Forwarded(forward_gdp(pkt, dst, &node.name)),
                None => {
                    let request = create_rib_request(pkt.header.dst, node.mac, node.ip);
                    let nack = bounce_gdp(pkt);
                    SwitchOutcome::Missed { nack, request }
                },
            }
        },
        GdpAction::RibReply => {
            match handle_rib_reply(&pkt, store, expires) {
                Ok(()) => SwitchOutcome::Installed,
                Err(e) => SwitchOutcome::Dropped(e),
            }
        },
        _ => SwitchOutcome::Ignored,
    }
}

/// What the RIB node does with one packet.
pub enum RibOutcome {
    /// The reply to a query.
    Replied(Gdp),
    /// Dropped for the reason given.
    Dropped(GdpError),
    /// An action that the RIB does not handle; dropped.
    Ignored,
}

/// The RIB node's decision on one packet.
pub open spec fn rib_spec(store: Map<Seq<u8>, u32>, pkt: Gdp, r: RibOutcome) -> bool {
    if pkt.header.ttl == 0 {
        r == RibOutcome::Dropped(GdpError::TtlExpired)
    } else if dispatch_action(pkt.header.action) != GdpAction::RibGet {
        r == RibOutcome::Ignored
    } else if pkt.header.data_len < RIB_QUERY_LEN {
        r == RibOutcome::Dropped(GdpError::ParseError)
    } else if !store.dom().contains(rib_key(pkt)) {
        r == RibOutcome::Dropped(GdpError::LookupMiss)
    } else {
        r matches RibOutcome::Replied(g) && is_new_message(
            g,
            GdpAction::RibReply,
            pkt.envelope.eth.dst@,
            pkt.envelope.eth.src@,
            pkt.envelope.ipv4.dst,
            pkt.envelope.ipv4.src,
            pkt.envelope.udp.dst_port,
            pkt.envelope.udp.src_port,
            rib_key(pkt) + crate::packet::u32_bytes(store[rib_key(pkt)]),
        ) && rib_key(g) == rib_key(pkt) && rib_value(g) == store[rib_key(pkt)]
    }
}

/// The RIB node's handling of one parsed packet: drop it if it has no hops
/// left; otherwise answer queries and drop the rest.
pub fn rib_packet(store: &Store, pkt: &Gdp) -> (r: RibOutcome)
    requires
        store.wf(),
        pkt.wf(),
    ensures
        rib_spec(store@, *pkt, r),
{
    let action = match pkt.action() {
        Some(a) => a,
        None => GdpAction::Noop,
    };
    if pkt.ttl() == 0 {
        return RibOutcome::Dropped(GdpError::TtlExpired);
    }
    match action {
        GdpAction::RibGet => match handle_rib_query(pkt, store) {
            Ok(g) => RibOutcome::Replied(g),
            Err(e) => RibOutcome::Dropped(e),
        },
        _ => RibOutcome::Ignored,
    }
}

} // verus!
