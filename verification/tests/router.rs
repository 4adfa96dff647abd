use svm_xdp_packet_router::action;
use svm_xdp_packet_router::common::{PshredHeader, SourceKey, SourceRoute};
use svm_xdp_packet_router::drop_reason;
use svm_xdp_packet_router::router::{classify_packet, copy_raw_packet, ptr_at, PacketClass, RouterState};

fn frame(ether_type: u16, version_ihl: u8, protocol: u8, src: [u8; 4], src_port: u16, dst_port: u16, payload: &[u8]) -> Vec<u8> {
    let mut f = Vec::new();
    f.extend_from_slice(&[0xff; 6]);
    f.extend_from_slice(&[0x02, 0, 0, 0, 0, 1]);
    f.extend_from_slice(&ether_type.to_be_bytes());
    let ihl_bytes = ((version_ihl & 0x0f) as usize) * 4;
    let mut ip = vec![0u8; ihl_bytes.max(20)];
    ip[0] = version_ihl;
    let tot = (ihl_bytes + 8 + payload.len()) as u16;
    ip[2..4].copy_from_slice(&tot.to_be_bytes());
    ip[8] = 64;
    ip[9] = protocol;
    ip[12..16].copy_from_slice(&src);
    ip[16..20].copy_from_slice(&[127, 0, 0, 1]);
    f.extend_from_slice(&ip);
    f.extend_from_slice(&src_port.to_be_bytes());
    f.extend_from_slice(&dst_port.to_be_bytes());
    f.extend_from_slice(&((8 + payload.len()) as u16).to_be_bytes());
    f.extend_from_slice(&[0, 0]);
    f.extend_from_slice(payload);
    f
}

fn header(version: u8, source: u8) -> PshredHeader {
    PshredHeader {
        version,
        flags: PshredHeader::FLAG_LAST,
        payload_len: 1200,
        slot: 0x0102_0304_0506_0708,
        shred_index: 7,
        shred_count: 32,
        source_id: [source; 32],
    }
}

fn shred_frame(version: u8, source: u8) -> Vec<u8> {
    frame(0x0800, 0x45, 17, [10, 0, 0, 5], 40000, 8001, &header(version, source).to_bytes())
}

#[test]
fn header_wire_form_is_big_endian() {
    let h = header(1, 9);
    let b = h.to_bytes();
    assert_eq!(b.len(), PshredHeader::SIZE);
    assert_eq!(&b[0..4], &[1, PshredHeader::FLAG_LAST, 0x04, 0xb0]);
    assert_eq!(&b[4..8], &[0, 0, 0, 0]);
    assert_eq!(&b[8..16], &[1, 2, 3, 4, 5, 6, 7, 8]);
    assert_eq!(&b[16..20], &[0, 0, 0, 7]);
    assert_eq!(&b[20..24], &[0, 0, 0, 32]);
    let back = PshredHeader::read_at(&b, 0).unwrap();
    assert_eq!(back.slot, h.slot);
    assert_eq!(back.payload_len, 1200);
    assert_eq!(back.source_id, [9; 32]);
    assert!(PshredHeader::read_at(&b, 1).is_none());
}

#[test]
fn bounds_check() {
    let p = [0u8; 20];
    assert_eq!(ptr_at(&p, 0, 14), Some(0));
    assert_eq!(ptr_at(&p, 14, 6), Some(14));
    assert_eq!(ptr_at(&p, 14, 7), None);
    assert_eq!(ptr_at(&p, 21, 0), None);
}

#[test]
fn short_ethernet_header_aborts() {
    let mut st = RouterState::new(4);
    let (act, log) = st.svm_xdp_packet_router(&[0u8; 13], 0, 1);
    assert_eq!(act, action::ABORTED);
    assert!(log.is_none());
    assert_eq!(st.drop_counter, vec![0; 4]);
    assert!(st.try_pshred_router(&[0u8; 13], 0, 1).is_err());
}

#[test]
fn short_ipv4_header_aborts() {
    let f = shred_frame(1, 1);
    let mut st = RouterState::new(4);
    let (act, log) = st.svm_xdp_packet_router(&f[..30], 0, 1);
    assert_eq!(act, action::ABORTED);
    assert!(log.is_none());
}

#[test]
fn non_ipv4_passes_untouched() {
    let mut f = shred_frame(1, 1);
    f[12] = 0x86;
    f[13] = 0xdd;
    let mut st = RouterState::new(4);
    let (act, log) = st.svm_xdp_packet_router(&f, 0, 1);
    assert_eq!(act, action::PASS);
    assert!(log.is_none());
    assert!(st.ip_stats.is_empty());
    // A short non-IPv4 frame passes too: only the Ethernet header is needed.
    let (act, _) = st.svm_xdp_packet_router(&f[..14], 0, 1);
    assert_eq!(act, action::PASS);
}

#[test]
fn non_udp_and_other_ports_pass() {
    let mut st = RouterState::new(4);
    let tcp = frame(0x0800, 0x45, 6, [1, 2, 3, 4], 1, 8001, &header(1, 1).to_bytes());
    assert_eq!(st.svm_xdp_packet_router(&tcp, 0, 1).0, action::PASS);
    let other = frame(0x0800, 0x45, 17, [1, 2, 3, 4], 1, 8002, &header(1, 1).to_bytes());
    let (act, log) = st.svm_xdp_packet_router(&other, 0, 1);
    assert_eq!(act, action::PASS);
    assert!(log.is_none());
    assert_eq!(st.drop_counter, vec![0; 4]);
    assert!(st.ip_stats.is_empty());
}

#[test]
fn udp_header_past_the_end_passes() {
    let f = frame(0x0800, 0x45, 17, [1, 2, 3, 4], 1, 8001, &[]);
    let mut st = RouterState::new(4);
    let (act, log) = st.svm_xdp_packet_router(&f[..40], 0, 1);
    assert_eq!(act, action::PASS);
    assert!(log.is_none());
}

#[test]
fn ip_options_move_the_udp_header() {
    let f = frame(0x0800, 0x46, 17, [1, 2, 3, 4], 5, 8001, &header(1, 3).to_bytes());
    match classify_packet(&f) {
        PacketClass::Shred(meta, h) => {
            assert_eq!(meta.src_port, 5);
            assert_eq!(meta.dst_port, 8001);
            assert_eq!(h.source_id, [3; 32]);
        }
        _ => panic!("expected a shred"),
    }
}

#[test]
fn malformed_shred_payload_is_dropped() {
    // The payload of the README's malformed example.
    let f = frame(0x0800, 0x45, 17, [127, 0, 0, 1], 5555, 8001, &[0x01, 0, 0, 0, 0x11, 0x11, 0x11, 0x11]);
    let mut st = RouterState::new(4);
    let (act, log) = st.svm_xdp_packet_router(&f, 3, 77);
    assert_eq!(act, action::DROP);
    let e = log.unwrap();
    assert_eq!(e.action, action::DROP);
    assert_eq!(e.cpu, 3);
    assert_eq!(e.src_port, 5555);
    assert_eq!(e.dst_port, 8001);
    assert_eq!(e.version, 0);
    assert_eq!(e.slot, 0);
    assert_eq!(e.source_id, [0; 32]);
    assert_eq!(e.src_ip, u32::from_le_bytes([127, 0, 0, 1]));
    assert_eq!(e.packet_len as usize, f.len());
    assert_eq!(e.drop_reason, drop_reason::MISSING_SHRED);
    assert_eq!(st.drop_counter, vec![0, 0, 0, 1]);
    assert_eq!(st.drop_reasons[drop_reason::MISSING_SHRED as usize], vec![0, 0, 0, 1]);
    assert_eq!(st.drop_reasons[drop_reason::BAD_SLOT as usize], vec![0; 4]);
    let (addr, stats) = st.ip_stats[0];
    assert_eq!(addr, u32::from_le_bytes([127, 0, 0, 1]));
    assert_eq!((stats.packets, stats.bytes, stats.drops, stats.redirects, stats.last_seen_ns), (1, f.len() as u64, 1, 0, 77));
}

#[test]
fn wrong_version_is_dropped() {
    let f = shred_frame(2, 4);
    let mut st = RouterState::new(4);
    let (act, log) = st.svm_xdp_packet_router(&f, 0, 5);
    assert_eq!(act, action::DROP);
    let e = log.unwrap();
    assert_eq!(e.version, 2);
    assert_eq!(e.slot, 0x0102_0304_0506_0708);
    assert_eq!(e.shred_index, 7);
    assert_eq!(e.shred_count, 32);
    assert_eq!(e.source_id, [4; 32]);
    assert_eq!(e.drop_reason, drop_reason::NONE);
    assert_eq!(st.drop_counter, vec![1, 0, 0, 0]);
    assert_eq!(st.drop_reasons[drop_reason::MISSING_SHRED as usize], vec![0; 4]);
}

#[test]
fn unknown_source_passes_on_queue_zero() {
    let f = shred_frame(1, 8);
    let mut st = RouterState::new(4);
    let (act, log) = st.svm_xdp_packet_router(&f, 1, 9);
    assert_eq!(act, action::PASS);
    let e = log.unwrap();
    assert_eq!(e.action, action::PASS);
    assert_eq!(e.flags, PshredHeader::FLAG_LAST);
    assert_eq!(e.drop_reason, drop_reason::NONE);
    assert!(st.routes.is_empty());
    // With a socket bound at queue 0, an unknown source is redirected there.
    assert!(st.bind_xsk(0));
    assert_eq!(st.svm_xdp_packet_router(&f, 1, 10).0, action::REDIRECT);
    assert_eq!(st.drop_counter, vec![0; 4]);
}

#[test]
fn known_source_is_routed_and_counted() {
    let mut st = RouterState::new(4);
    assert!(st.insert_route(SourceKey { source_id: [6; 32] }, SourceRoute { queue_id: 5, packet_count: 0 }));
    assert!(st.insert_route(SourceKey { source_id: [7; 32] }, SourceRoute { queue_id: 9, packet_count: 40 }));
    let f = shred_frame(1, 6);
    // No socket at queue 5 yet: the shred passes, but is counted.
    assert_eq!(st.svm_xdp_packet_router(&f, 0, 1).0, action::PASS);
    assert!(st.bind_xsk(5));
    assert!(!st.bind_xsk(64));
    let (act, log) = st.svm_xdp_packet_router(&f, 0, 2);
    assert_eq!(act, action::REDIRECT);
    assert_eq!(log.unwrap().action, action::REDIRECT);
    let r6 = st.route(&SourceKey { source_id: [6; 32] }).unwrap();
    assert_eq!((r6.queue_id, r6.packet_count), (5, 2));
    let r7 = st.route(&SourceKey { source_id: [7; 32] }).unwrap();
    assert_eq!((r7.queue_id, r7.packet_count), (9, 40));
    let stats = st.ip_stats[0].1;
    assert_eq!((stats.packets, stats.drops, stats.redirects, stats.last_seen_ns), (2, 0, 1, 2));
}

#[test]
fn route_replacement_and_capacity() {
    let mut st = RouterState::new(4);
    let key = SourceKey { source_id: [1; 32] };
    assert!(st.insert_route(key, SourceRoute { queue_id: 1, packet_count: 0 }));
    assert!(st.insert_route(key, SourceRoute { queue_id: 2, packet_count: 3 }));
    assert_eq!(st.routes.len(), 1);
    assert_eq!(st.route(&key).unwrap().queue_id, 2);
    for i in 0..1023u32 {
        let mut id = [0u8; 32];
        id[..4].copy_from_slice(&(i + 100).to_le_bytes());
        assert!(st.insert_route(SourceKey { source_id: id }, SourceRoute { queue_id: 0, packet_count: 0 }));
    }
    assert_eq!(st.routes.len(), 1024);
    assert!(!st.insert_route(SourceKey { source_id: [2; 32] }, SourceRoute { queue_id: 0, packet_count: 0 }));
    assert!(st.route(&SourceKey { source_id: [2; 32] }).is_none());
    // Replacing an existing entry still works on a full table.
    assert!(st.insert_route(key, SourceRoute { queue_id: 4, packet_count: 0 }));
}

#[test]
fn route_count_wraps() {
    let mut st = RouterState::new(4);
    let key = SourceKey { source_id: [6; 32] };
    st.insert_route(key, SourceRoute { queue_id: 0, packet_count: u64::MAX });
    st.svm_xdp_packet_router(&shred_frame(1, 6), 0, 1);
    assert_eq!(st.route(&key).unwrap().packet_count, 0);
}

#[test]
fn per_address_statistics() {
    let mut st = RouterState::new(4);
    let a = frame(0x0800, 0x45, 17, [10, 0, 0, 1], 1, 8001, &header(1, 1).to_bytes());
    let b = frame(0x0800, 0x45, 17, [10, 0, 0, 2], 1, 8001, &[1, 2, 3]);
    st.svm_xdp_packet_router(&a, 0, 10);
    st.svm_xdp_packet_router(&b, 0, 11);
    st.svm_xdp_packet_router(&a, 0, 12);
    assert_eq!(st.ip_stats.len(), 2);
    let (addr_a, sa) = st.ip_stats[0];
    let (addr_b, sb) = st.ip_stats[1];
    assert_eq!(addr_a, u32::from_le_bytes([10, 0, 0, 1]));
    assert_eq!(addr_b, u32::from_le_bytes([10, 0, 0, 2]));
    assert_eq!((sa.packets, sa.bytes, sa.drops, sa.last_seen_ns), (2, 2 * a.len() as u64, 0, 12));
    assert_eq!((sb.packets, sb.bytes, sb.drops, sb.last_seen_ns), (1, b.len() as u64, 1, 11));
    assert_eq!(st.drop_counter, vec![1, 0, 0, 0]);
}

#[test]
fn raw_capture_is_bounded() {
    let mut raw = [0xaau8; 128];
    let n = copy_raw_packet(&[1, 2, 3], &mut raw);
    assert_eq!(n, 3);
    assert_eq!(&raw[..4], &[1, 2, 3, 0xaa]);
    let big: Vec<u8> = (0..200u32).map(|i| i as u8).collect();
    let n = copy_raw_packet(&big, &mut raw);
    assert_eq!(n, 128);
    assert_eq!(&raw[..], &big[..128]);
    let mut st = RouterState::new(4);
    let mut payload = header(1, 1).to_bytes();
    payload.extend_from_slice(&[0x55; 300]);
    let f = frame(0x0800, 0x45, 17, [1, 1, 1, 1], 1, 8001, &payload);
    let e = st.svm_xdp_packet_router(&f, 0, 0).1.unwrap();
    assert_eq!(e.raw_len, 128);
    assert_eq!(&e.raw[..], &f[..128]);
    let short = frame(0x0800, 0x45, 17, [1, 1, 1, 1], 1, 8001, &[9]);
    let e = st.svm_xdp_packet_router(&short, 0, 0).1.unwrap();
    assert_eq!(e.raw_len as usize, short.len());
    assert_eq!(&e.raw[..short.len()], &short[..]);
    assert!(e.raw[short.len()..].iter().all(|b| *b == 0));
}
