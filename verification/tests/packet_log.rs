use svm_xdp_packet_router::action;
use svm_xdp_packet_router::drop_reason;
use svm_xdp_packet_router::common::{PacketLogEntry, PACKET_LOG_ENTRY_SIZE};
use svm_xdp_packet_router::packet_log::{log_packet_sample, packet_entry_message, parse_packet_log};

fn entry() -> PacketLogEntry {
    let mut raw = [0u8; 128];
    raw[0] = 0xde;
    raw[1] = 0xad;
    raw[2] = 0x01;
    PacketLogEntry {
        action: action::DROP,
        drop_reason: drop_reason::MISSING_SHRED,
        cpu: 2,
        src_ip: u32::from_le_bytes([127, 0, 0, 1]),
        packet_len: 50,
        src_port: 5555,
        dst_port: 8001,
        raw_len: 3,
        version: 1,
        flags: 0b110,
        slot: 0x1122_3344_5566_7788,
        shred_index: 9,
        shred_count: 10,
        source_id: [0xab; 32],
        raw,
    }
}

fn same(a: &PacketLogEntry, b: &PacketLogEntry) {
    assert_eq!(
        (a.action, a.drop_reason, a.cpu, a.src_ip, a.packet_len, a.src_port, a.dst_port, a.raw_len),
        (b.action, b.drop_reason, b.cpu, b.src_ip, b.packet_len, b.src_port, b.dst_port, b.raw_len)
    );
    assert_eq!((a.version, a.flags, a.slot, a.shred_index, a.shred_count), (b.version, b.flags, b.slot, b.shred_index, b.shred_count));
    assert_eq!(a.source_id, b.source_id);
    assert_eq!(a.raw, b.raw);
}

#[test]
fn record_layout() {
    let b = entry().to_bytes();
    assert_eq!(b.len(), PACKET_LOG_ENTRY_SIZE);
    assert_eq!(&b[0..4], &1u32.to_le_bytes());
    assert_eq!(&b[4..8], &1u32.to_le_bytes());
    assert_eq!(&b[8..12], &2u32.to_le_bytes());
    assert_eq!(&b[12..16], &[127, 0, 0, 1]);
    assert_eq!(&b[20..22], &5555u16.to_le_bytes());
    assert_eq!(b[26], 1);
    assert_eq!(&b[28..32], &[0, 0, 0, 0]);
    assert_eq!(&b[32..40], &0x1122_3344_5566_7788u64.to_le_bytes());
    assert_eq!(&b[48..80], &[0xab; 32]);
    assert_eq!(&b[80..83], &[0xde, 0xad, 0x01]);
}

#[test]
fn record_roundtrip() {
    let e = entry();
    let mut b = e.to_bytes();
    same(&parse_packet_log(&b).unwrap(), &e);
    b.extend_from_slice(&[1, 2, 3, 4]);
    same(&parse_packet_log(&b).unwrap(), &e);
}

#[test]
fn short_sample_is_rejected() {
    let b = entry().to_bytes();
    assert!(parse_packet_log(&b[..207]).is_none());
    assert!(parse_packet_log(&[]).is_none());
    assert!(log_packet_sample(&b[..100], &b[100..207]).is_none());
}

#[test]
fn split_sample() {
    let e = entry();
    let b = e.to_bytes();
    for k in [0usize, 1, 80, 207, 208] {
        same(&log_packet_sample(&b[..k], &b[k..]).unwrap(), &e);
    }
}

#[test]
fn record_message() {
    let msg = packet_entry_message(&entry());
    let ab = vec!["ab"; 32].join(" ");
    assert_eq!(
        msg,
        format!(
            "packet action=DROP drop_reason=missing_shred cpu=2 src=127.0.0.1:5555 dst_port=8001 len=50 raw_len=3 version=1 flags=6 slot={} shred_index=9 shred_count=10 source_id={} raw=de ad 01",
            0x1122_3344_5566_7788u64, ab
        )
    );
    let mut e = entry();
    e.raw_len = 500;
    let msg = packet_entry_message(&e);
    assert!(msg.ends_with(&format!("raw=de ad 01{}", " 00".repeat(125))));
}

#[test]
fn record_message_without_reason() {
    let mut e = entry();
    e.action = action::PASS;
    e.drop_reason = drop_reason::NONE;
    assert!(packet_entry_message(&e).starts_with("packet action=PASS drop_reason=none cpu=2 "));
}
