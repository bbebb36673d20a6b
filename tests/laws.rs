use gdp_router::dtls::{decrypt_gdp, encrypt_gdp, AeadConfig};
use gdp_router::gdp::{Gdp, GdpAction, GdpHeader, MAGIC_NUMBERS};
use gdp_router::packet::{bounce_udp, compute_ipv4_checksum, EthHeader, Ipv4Header, Udp, UdpHeader};
use gdp_router::pipeline::group_by_action;
use gdp_router::store::Store;
use gdp_router::switch::{bounce_gdp, forward_gdp};

fn sample_udp(payload: Vec<u8>) -> Udp {
    Udp {
        eth: EthHeader { dst: [1, 2, 3, 4, 5, 6], src: [7, 8, 9, 10, 11, 12], ether_type: 0x0800 },
        ipv4: Ipv4Header {
            version_ihl: 0x45,
            dscp_ecn: 0,
            total_length: 0,
            identification: 0,
            flags_fragment: 0,
            ttl: 64,
            protocol: 17,
            checksum: 0,
            src: 0x0a000005,
            dst: 0x0a000001,
        },
        udp: UdpHeader { src_port: 1000, dst_port: 2000, length: 0, checksum: 0 },
        payload,
    }
}

fn sample_packet(action: GdpAction, ttl: u8, data: &[u8]) -> Gdp {
    let mut g = Gdp::try_push(sample_udp(data.to_vec()));
    g.set_action(action);
    g.set_ttl(ttl);
    g.set_data_len(data.len() as u16);
    g.reconcile_all();
    g
}

#[test]
fn header_round_trip() {
    let h = GdpHeader {
        field: MAGIC_NUMBERS,
        ttl: 17,
        action: 5,
        src: [1; 32],
        dst: [2; 32],
        last_hop: [3; 32],
        data_len: 0x1234,
    };
    let bytes = h.to_bytes();
    assert_eq!(bytes.len(), 102);
    assert_eq!(&bytes[0..4], &[0x26, 0x2a, 17, 5]);
    assert_eq!(&bytes[100..102], &[0x12, 0x34]);
    let g = GdpHeader::read_at(&bytes, 0);
    assert_eq!(g.field, h.field);
    assert_eq!(g.ttl, h.ttl);
    assert_eq!(g.action, h.action);
    assert_eq!(g.src, h.src);
    assert_eq!(g.dst, h.dst);
    assert_eq!(g.last_hop, h.last_hop);
    assert_eq!(g.data_len, h.data_len);
}

#[test]
fn packet_parse_deparse_round_trip() {
    let g = sample_packet(GdpAction::Get, 9, b"hello");
    let udp = g.clone().deparse();
    let back = Gdp::try_parse(udp).ok().unwrap();
    assert_eq!(back.ttl(), 9);
    assert_eq!(back.action(), Some(GdpAction::Get));
    assert_eq!(back.data(), b"hello".to_vec());
}

#[test]
fn parse_rejects_bad_magic() {
    let mut payload = vec![0u8; 102];
    payload[0] = 0x26;
    payload[1] = 0x2b;
    let udp = sample_udp(payload.clone());
    let back = Gdp::try_parse(udp).err().unwrap();
    assert_eq!(back.payload, payload);
}

#[test]
fn encrypt_decrypt_inverse() {
    let cfg = AeadConfig::fixed();
    let plain = b"some gdp bytes".to_vec();
    let sealed = encrypt_gdp(&cfg, sample_udp(plain.clone())).unwrap();
    assert_eq!(sealed.payload.len(), plain.len() + 16);
    assert_ne!(&sealed.payload[..plain.len()], &plain[..]);
    let opened = decrypt_gdp(&cfg, sealed).unwrap();
    assert_eq!(opened.payload, plain);
}

#[test]
fn encrypt_decrypt_empty() {
    let cfg = AeadConfig::fixed();
    let sealed = encrypt_gdp(&cfg, sample_udp(Vec::new())).unwrap();
    assert_eq!(sealed.payload.len(), 16);
    let opened = decrypt_gdp(&cfg, sealed).unwrap();
    assert!(opened.payload.is_empty());
}

#[test]
fn forward_preserves_payload() {
    let g = sample_packet(GdpAction::Forward, 5, b"data!");
    let f = forward_gdp(g.clone(), 0x0a000002, &[9; 32]);
    assert_eq!(f.data(), g.data());
    assert_eq!(f.ttl(), 4);
    assert_eq!(f.envelope.ipv4.src, 0x0a000001);
    assert_eq!(f.envelope.ipv4.dst, 0x0a000002);
    assert_eq!(f.last_hop(), [9; 32]);
}

#[test]
fn bounce_twice_restores_addresses() {
    let u = sample_udp(vec![1, 2, 3]);
    let mut v = u.clone();
    bounce_udp(&mut v);
    assert_eq!(v.udp.src_port, 2000);
    assert_eq!(v.eth.src, [1, 2, 3, 4, 5, 6]);
    bounce_udp(&mut v);
    assert_eq!(v.udp.src_port, u.udp.src_port);
    assert_eq!(v.udp.dst_port, u.udp.dst_port);
    assert_eq!(v.eth.src, u.eth.src);
    assert_eq!(v.eth.dst, u.eth.dst);
}

#[test]
fn bounce_gdp_strips_and_nacks() {
    let g = sample_packet(GdpAction::Forward, 5, b"data");
    let b = bounce_gdp(g);
    assert_eq!(b.action(), Some(GdpAction::Nack));
    assert_eq!(b.data_len(), 0);
    assert_eq!(b.envelope.ipv4.dst, 0x0a000005);
    assert_eq!(b.envelope.udp.length, 8 + 102);
}

#[test]
fn reconcile_restamps_magic() {
    let mut g = sample_packet(GdpAction::Get, 3, b"");
    g.header.field = 0;
    g.set_ttl(1);
    g.reconcile();
    assert_eq!(g.header.field, 0x262a);
}

#[test]
fn reconcile_all_sets_lengths() {
    let g = sample_packet(GdpAction::Get, 3, b"12345");
    assert_eq!(g.envelope.udp.length, 8 + 102 + 5);
    assert_eq!(g.envelope.ipv4.total_length, 20 + 8 + 102 + 5);
}

#[test]
fn ipv4_checksum_known_value() {
    let h = Ipv4Header {
        version_ihl: 0x45,
        dscp_ecn: 0,
        total_length: 0x0073,
        identification: 0,
        flags_fragment: 0x4000,
        ttl: 0x40,
        protocol: 0x11,
        checksum: 0,
        src: 0xc0a80001,
        dst: 0xc0a800c7,
    };
    assert_eq!(compute_ipv4_checksum(&h), 0xb861);
}

#[test]
fn group_by_partitions_batch() {
    let batch = vec![
        sample_packet(GdpAction::Forward, 1, b"a"),
        sample_packet(GdpAction::RibGet, 1, b"b"),
        sample_packet(GdpAction::Forward, 1, b"c"),
        sample_packet(GdpAction::Nack, 1, b"d"),
    ];
    let groups = group_by_action(batch);
    assert_eq!(groups.len(), 7);
    let total: usize = groups.iter().map(|g| g.len()).sum();
    assert_eq!(total, 4);
    assert_eq!(groups[5].len(), 2);
    assert_eq!(groups[5][0].data(), b"a".to_vec());
    assert_eq!(groups[5][1].data(), b"c".to_vec());
    assert_eq!(groups[3].len(), 1);
    assert_eq!(groups[6].len(), 1);
}

#[test]
fn unknown_action_dispatches_as_noop() {
    let mut g = sample_packet(GdpAction::Get, 1, b"");
    g.header.action = 200;
    assert_eq!(g.action(), None);
    let groups = group_by_action(vec![g]);
    assert_eq!(groups[0].len(), 1);
}

#[test]
fn action_bytes() {
    assert_eq!(GdpAction::try_from(5), Some(GdpAction::Forward));
    assert_eq!(GdpAction::try_from(7), None);
    assert_eq!(GdpAction::Nack.to_byte(), 6);
    assert_eq!(GdpAction::default(), GdpAction::Noop);
}

#[test]
fn certs_region() {
    let mut g = sample_packet(GdpAction::Put, 1, b"data");
    assert!(g.get_certs().is_empty());
    g.set_certs(&vec![9, 8, 7]);
    assert_eq!(g.get_certs(), vec![9, 8, 7]);
    assert_eq!(g.data(), b"data".to_vec());
}

#[test]
fn store_insert_replace_and_expire() {
    let mut s = Store::new();
    s.insert([1; 32], 10, Some(5));
    s.insert([2; 32], 20, None);
    s.insert([1; 32], 11, Some(8));
    assert_eq!(s.lookup(&[1; 32]), Some(11));
    assert_eq!(s.entries.len(), 2);
    s.run_active_expire(7);
    assert_eq!(s.lookup(&[1; 32]), Some(11));
    s.run_active_expire(8);
    assert_eq!(s.lookup(&[1; 32]), None);
    assert_eq!(s.lookup(&[2; 32]), Some(20));
}

#[test]
fn encrypt_decrypt_restores_reconciled_lengths() {
    let cfg = AeadConfig::fixed();
    let mut u = sample_udp(b"twelve bytes".to_vec());
    u.reconcile_all();
    let (udp_len, ip_len) = (u.udp.length, u.ipv4.total_length);
    let mut sealed = encrypt_gdp(&cfg, u).unwrap();
    sealed.reconcile_all();
    assert_eq!(sealed.udp.length, udp_len + 16);
    let mut opened = decrypt_gdp(&cfg, sealed).unwrap();
    opened.reconcile_all();
    assert_eq!(opened.udp.length, udp_len);
    assert_eq!(opened.ipv4.total_length, ip_len);
    assert_eq!(opened.payload.len(), 12);
}

#[test]
fn encrypt_rejects_oversized_payload() {
    let cfg = AeadConfig::fixed();
    let r = encrypt_gdp(&cfg, sample_udp(vec![0u8; 65537]));
    assert!(matches!(r, Err(gdp_router::gdp::GdpError::BufferShort)));
}

#[test]
fn decrypt_rejects_truncated_ciphertext() {
    let cfg = AeadConfig::fixed();
    let r = decrypt_gdp(&cfg, sample_udp(vec![1, 2, 3]));
    assert!(matches!(r, Err(gdp_router::gdp::GdpError::AuthFailed)));
}
