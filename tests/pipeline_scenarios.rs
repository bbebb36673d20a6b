use gdp_router::dtls::AeadConfig;
use gdp_router::gdp::{Gdp, GdpAction, GdpError, GdpName, GDP_HEADER_LEN, MAGIC_NUMBERS};
use gdp_router::packet::{EthHeader, Ipv4Header, Udp, UdpHeader};
use gdp_router::pipeline::{open_frame, rib_pipeline, seal_packet, switch_pipeline};
use gdp_router::rib::{RIB_IP, RIB_PORT};
use gdp_router::store::Store;
use gdp_router::switch::{NodeConfig, RibOutcome, SwitchOutcome};

fn ip(a: u8, b: u8, c: u8, d: u8) -> u32 {
    u32::from_be_bytes([a, b, c, d])
}

fn name(b: u8) -> GdpName {
    [b; 32]
}

fn node() -> NodeConfig {
    NodeConfig { name: name(0xee), mac: [0x02, 0, 0, 0, 0, 0x01], ip: ip(10, 0, 0, 1) }
}

fn make_packet(action: GdpAction, dst: GdpName, ttl: u8, ip_src: u32, ip_dst: u32, data: &[u8]) -> Gdp {
    let udp = Udp {
        eth: EthHeader { dst: [0x02, 0, 0, 0, 0, 0x01], src: [0x02, 0, 0, 0, 0, 0x05], ether_type: 0x0800 },
        ipv4: Ipv4Header {
            version_ihl: 0x45,
            dscp_ecn: 0,
            total_length: 0,
            identification: 7,
            flags_fragment: 0,
            ttl: 64,
            protocol: 17,
            checksum: 0,
            src: ip_src,
            dst: ip_dst,
        },
        udp: UdpHeader { src_port: 31000, dst_port: 31001, length: 0, checksum: 0 },
        payload: data.to_vec(),
    };
    let mut g = Gdp::try_push(udp);
    g.set_action(action);
    g.set_ttl(ttl);
    g.set_src(name(0x55));
    g.set_dst(dst);
    g.set_data_len(data.len() as u16);
    g.reconcile_all();
    g
}

/// Encrypts and encodes a packet as it would leave a node.
fn to_wire(cfg: &AeadConfig, g: Gdp) -> Vec<u8> {
    seal_packet(cfg, g).unwrap().to_bytes()
}

#[test]
fn forward_hit() {
    let cfg = AeadConfig::fixed();
    let mut store = Store::new();
    store.insert(name(0xaa), ip(10, 0, 0, 2), None);
    let data = b"payload bytes".to_vec();
    let incoming = make_packet(GdpAction::Forward, name(0xaa), 10, ip(10, 0, 0, 5), ip(10, 0, 0, 1), &data);
    let frame = to_wire(&cfg, incoming);
    let parsed = open_frame(&cfg, &frame).unwrap();
    let mut outs = switch_pipeline(&mut store, &node(), vec![parsed], None);
    assert_eq!(outs.len(), 1);
    let fwd = match outs.remove(0) {
        SwitchOutcome::Forwarded(g) => g,
        _ => panic!("expected a forwarded packet"),
    };
    let wire = to_wire(&cfg, fwd);
    let sent = open_frame(&cfg, &wire).unwrap();
    assert_eq!(sent.envelope.ipv4.src, ip(10, 0, 0, 1));
    assert_eq!(sent.envelope.ipv4.dst, ip(10, 0, 0, 2));
    assert_eq!(sent.ttl(), 9);
    assert_eq!(sent.last_hop(), name(0xee));
    assert_eq!(sent.data(), data);
    assert_eq!(sent.header.field, MAGIC_NUMBERS);
}

#[test]
fn forward_miss() {
    let cfg = AeadConfig::fixed();
    let mut store = Store::new();
    let incoming = make_packet(GdpAction::Forward, name(0x77), 10, ip(10, 0, 0, 5), ip(10, 0, 0, 1), b"abc");
    let parsed = open_frame(&cfg, &to_wire(&cfg, incoming)).unwrap();
    let mut outs = switch_pipeline(&mut store, &node(), vec![parsed], None);
    let (nack, request) = match outs.remove(0) {
        SwitchOutcome::Missed { nack, request } => (nack, request),
        _ => panic!("expected a miss"),
    };
    assert_eq!(nack.action(), Some(GdpAction::Nack));
    assert_eq!(nack.envelope.ipv4.dst, ip(10, 0, 0, 5));
    assert_eq!(nack.envelope.ipv4.src, ip(10, 0, 0, 1));
    assert_eq!(nack.data_len(), 0);
    assert!(nack.envelope.payload.is_empty());
    assert_eq!(nack.envelope.udp.src_port, 31001);
    assert_eq!(nack.envelope.udp.dst_port, 31000);
    assert_eq!(request.action(), Some(GdpAction::RibGet));
    assert_eq!(request.envelope.ipv4.dst, RIB_IP);
    assert_eq!(request.envelope.ipv4.dst, ip(10, 100, 1, 10));
    assert_eq!(request.envelope.udp.src_port, RIB_PORT);
    assert_eq!(request.envelope.udp.dst_port, 27182);
    assert_eq!(request.envelope.eth.dst, [0x02, 0x00, 0x00, 0xff, 0xff, 0x00]);
    assert_eq!(request.data(), name(0x77).to_vec());
    // both survive the trip through the wire
    assert!(open_frame(&cfg, &to_wire(&cfg, nack)).is_ok());
    assert!(open_frame(&cfg, &to_wire(&cfg, request)).is_ok());
}

#[test]
fn rib_query_reply() {
    let cfg = AeadConfig::fixed();
    let mut store = Store::new();
    store.insert(name(0xaa), ip(10, 0, 0, 2), None);
    let query = make_packet(GdpAction::RibGet, name(0), 64, ip(10, 0, 0, 5), RIB_IP, &name(0xaa));
    let parsed = open_frame(&cfg, &to_wire(&cfg, query)).unwrap();
    let mut outs = rib_pipeline(&store, vec![parsed]);
    let reply = match outs.remove(0) {
        RibOutcome::Replied(g) => g,
        _ => panic!("expected a reply"),
    };
    assert_eq!(reply.action(), Some(GdpAction::RibReply));
    assert_eq!(reply.envelope.ipv4.src, ip(10, 100, 1, 10));
    assert_eq!(reply.envelope.ipv4.dst, ip(10, 0, 0, 5));
    assert_eq!(reply.envelope.udp.src_port, 31001);
    assert_eq!(reply.envelope.udp.dst_port, 31000);
    let mut expected = name(0xaa).to_vec();
    expected.extend_from_slice(&[10, 0, 0, 2]);
    assert_eq!(reply.data(), expected);
}

#[test]
fn rib_query_unknown_name_is_dropped() {
    let store = Store::new();
    let query = make_packet(GdpAction::RibGet, name(0), 64, ip(10, 0, 0, 5), RIB_IP, &name(0xab));
    let outs = rib_pipeline(&store, vec![query]);
    assert!(matches!(outs[0], RibOutcome::Dropped(GdpError::LookupMiss)));
}

#[test]
fn rib_query_too_short_is_parse_error() {
    let store = Store::new();
    let query = make_packet(GdpAction::RibGet, name(0), 64, ip(10, 0, 0, 5), RIB_IP, b"short");
    let outs = rib_pipeline(&store, vec![query]);
    assert!(matches!(outs[0], RibOutcome::Dropped(GdpError::ParseError)));
}

#[test]
fn rib_reply_installs() {
    let cfg = AeadConfig::fixed();
    let mut store = Store::new();
    let mut data = name(0xaa).to_vec();
    data.extend_from_slice(&[10, 0, 0, 2]);
    let reply = make_packet(GdpAction::RibReply, name(0), 64, RIB_IP, ip(10, 0, 0, 1), &data);
    let parsed = open_frame(&cfg, &to_wire(&cfg, reply)).unwrap();
    let outs = switch_pipeline(&mut store, &node(), vec![parsed], Some(100));
    assert_eq!(outs.len(), 1);
    assert!(matches!(outs[0], SwitchOutcome::Installed));
    assert_eq!(store.lookup(&name(0xaa)), Some(ip(10, 0, 0, 2)));
}

#[test]
fn ttl_expiry() {
    let cfg = AeadConfig::fixed();
    let mut store = Store::new();
    store.insert(name(0xaa), ip(10, 0, 0, 2), None);
    let incoming = make_packet(GdpAction::Forward, name(0xaa), 0, ip(10, 0, 0, 5), ip(10, 0, 0, 1), b"x");
    let parsed = open_frame(&cfg, &to_wire(&cfg, incoming)).unwrap();
    let outs = switch_pipeline(&mut store, &node(), vec![parsed], None);
    assert_eq!(outs.len(), 1);
    assert!(matches!(outs[0], SwitchOutcome::Dropped(GdpError::TtlExpired)));
}

#[test]
fn aead_tamper() {
    let cfg = AeadConfig::fixed();
    let incoming = make_packet(GdpAction::Forward, name(0xaa), 10, ip(10, 0, 0, 5), ip(10, 0, 0, 1), b"abc");
    let mut frame = to_wire(&cfg, incoming);
    let last = frame.len() - 1;
    frame[last] ^= 0x01;
    assert!(matches!(open_frame(&cfg, &frame), Err(GdpError::AuthFailed)));
}

#[test]
fn other_actions_are_dropped() {
    let mut store = Store::new();
    let batch = vec![
        make_packet(GdpAction::Put, name(1), 5, 1, 2, b""),
        make_packet(GdpAction::Nack, name(1), 5, 1, 2, b""),
    ];
    let outs = switch_pipeline(&mut store, &node(), batch, None);
    assert_eq!(outs.len(), 2);
    assert!(outs.iter().all(|o| matches!(o, SwitchOutcome::Ignored)));
}

#[test]
fn batch_is_grouped_forward_first() {
    let mut store = Store::new();
    store.insert(name(0xaa), ip(10, 0, 0, 2), None);
    let mut data = name(0xbb).to_vec();
    data.extend_from_slice(&[10, 0, 0, 3]);
    let batch = vec![
        make_packet(GdpAction::RibReply, name(0), 64, RIB_IP, ip(10, 0, 0, 1), &data),
        make_packet(GdpAction::Forward, name(0xbb), 4, 1, 2, b"q"),
        make_packet(GdpAction::Forward, name(0xaa), 4, 1, 2, b"r"),
    ];
    let outs = switch_pipeline(&mut store, &node(), batch, None);
    assert_eq!(outs.len(), 3);
    // the forward group runs before the reply is installed
    assert!(matches!(outs[0], SwitchOutcome::Missed { .. }));
    assert!(matches!(outs[1], SwitchOutcome::Forwarded(_)));
    assert!(matches!(outs[2], SwitchOutcome::Installed));
    assert_eq!(store.lookup(&name(0xbb)), Some(ip(10, 0, 0, 3)));
}

#[test]
fn short_frame_is_parse_error() {
    let cfg = AeadConfig::fixed();
    assert!(matches!(open_frame(&cfg, &[0u8; 20]), Err(GdpError::ParseError)));
}

#[test]
fn oversized_packet_is_buffer_short() {
    let cfg = AeadConfig::fixed();
    let body = vec![0u8; 65507 - GDP_HEADER_LEN];
    let g = make_packet(GdpAction::Forward, name(1), 3, 1, 2, &body);
    assert!(matches!(seal_packet(&cfg, g), Err(GdpError::BufferShort)));
}

#[test]
fn rib_reply_naming_the_rib_is_refused() {
    let mut store = Store::new();
    let mut data = name(0xaa).to_vec();
    data.extend_from_slice(&[10, 100, 1, 10]);
    let reply = make_packet(GdpAction::RibReply, name(0), 64, RIB_IP, ip(10, 0, 0, 1), &data);
    let outs = switch_pipeline(&mut store, &node(), vec![reply], None);
    assert!(matches!(outs[0], SwitchOutcome::Dropped(GdpError::ParseError)));
    assert_eq!(store.lookup(&name(0xaa)), None);
}

#[test]
fn rib_reply_without_hops_is_dropped() {
    let mut store = Store::new();
    let mut data = name(0xaa).to_vec();
    data.extend_from_slice(&[10, 0, 0, 2]);
    let reply = make_packet(GdpAction::RibReply, name(0), 0, RIB_IP, ip(10, 0, 0, 1), &data);
    let outs = switch_pipeline(&mut store, &node(), vec![reply], None);
    assert!(matches!(outs[0], SwitchOutcome::Dropped(GdpError::TtlExpired)));
    assert_eq!(store.lookup(&name(0xaa)), None);
}

#[test]
fn rib_query_without_hops_is_dropped() {
    let mut store = Store::new();
    store.insert(name(0xaa), ip(10, 0, 0, 2), None);
    let query = make_packet(GdpAction::RibGet, name(0), 0, ip(10, 0, 0, 5), RIB_IP, &name(0xaa));
    let outs = rib_pipeline(&store, vec![query]);
    assert!(matches!(outs[0], RibOutcome::Dropped(GdpError::TtlExpired)));
}

#[test]
fn decrypted_non_gdp_payload_is_parse_error() {
    let cfg = AeadConfig::fixed();
    let g = make_packet(GdpAction::Get, name(1), 3, 1, 2, b"abc");
    let mut u = g.deparse();
    u.payload[0] = 0;
    let sealed = gdp_router::dtls::encrypt_gdp(&cfg, u).unwrap();
    let mut sealed = sealed;
    sealed.reconcile_all();
    assert!(matches!(open_frame(&cfg, &sealed.to_bytes()), Err(GdpError::ParseError)));
}
