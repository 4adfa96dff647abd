use svm_xdp_packet_router::action;
use svm_xdp_packet_router::common::IpStats;
use svm_xdp_packet_router::drop_reason;
use svm_xdp_packet_router::metrics::{
    action_name, drop_reason_name, http_response, metrics_response, normalize_metrics_addr, per_cpu_total,
    render_metrics,
    write_metric_header,
};
use svm_xdp_packet_router::text::{hex_string, push_decimal, push_ipv4};

#[test]
fn action_names() {
    assert_eq!(action_name(action::ABORTED), "ABORTED");
    assert_eq!(action_name(action::DROP), "DROP");
    assert_eq!(action_name(action::PASS), "PASS");
    assert_eq!(action_name(action::TX), "TX");
    assert_eq!(action_name(action::REDIRECT), "REDIRECT");
    assert_eq!(action_name(5), "UNKNOWN");
    assert_eq!(action_name(u32::MAX), "UNKNOWN");
}

#[test]
fn drop_reason_names() {
    assert_eq!(drop_reason_name(drop_reason::NONE), "none");
    assert_eq!(drop_reason_name(drop_reason::MISSING_SHRED), "missing_shred");
    assert_eq!(drop_reason_name(drop_reason::BAD_WITNESS_LEN), "bad_witness_len");
    assert_eq!(drop_reason_name(drop_reason::BAD_SLOT), "bad_slot");
    assert_eq!(drop_reason_name(drop_reason::COUNT), "unknown");
}

#[test]
fn http_response_layout() {
    let r = http_response("200 OK", "text/plain; version=0.0.4", "abc\n");
    assert_eq!(
        r,
        "HTTP/1.1 200 OK\r\ncontent-type: text/plain; version=0.0.4\r\ncontent-length: 4\r\nconnection: close\r\n\r\nabc\n"
    );
    let r = http_response("500 Internal Server Error", "text/plain; charset=utf-8", "failed to render metrics\n");
    assert!(r.starts_with("HTTP/1.1 500 Internal Server Error\r\n"));
    assert!(r.contains("content-length: 25\r\n"));
    // The content length counts bytes, not characters.
    let r = http_response("200 OK", "text/plain", "é");
    assert!(r.contains("content-length: 2\r\n"));
    let r = http_response("200 OK", "text/plain", "");
    assert!(r.ends_with("content-length: 0\r\nconnection: close\r\n\r\n"));
}

#[test]
fn metric_header_lines() {
    let mut out = String::from("x\n");
    write_metric_header(&mut out, "svm_xdp_packets_total", "Total UDP 8001 packets observed by XDP.", "counter");
    assert_eq!(
        out,
        "x\n# HELP svm_xdp_packets_total Total UDP 8001 packets observed by XDP.\n# TYPE svm_xdp_packets_total counter\n"
    );
}

#[test]
fn per_cpu_totals() {
    assert_eq!(per_cpu_total(&[]), 0);
    assert_eq!(per_cpu_total(&[1, 2, 3, 4]), 10);
    assert_eq!(per_cpu_total(&[u64::MAX - 1, 1]), u64::MAX);
}

#[test]
fn decimal_and_addresses() {
    let mut s = String::new();
    push_decimal(&mut s, 0);
    s.push(' ');
    push_decimal(&mut s, 10);
    s.push(' ');
    push_decimal(&mut s, u64::MAX);
    assert_eq!(s, "0 10 18446744073709551615");
    let mut a = String::new();
    push_ipv4(&mut a, u32::from_le_bytes([127, 0, 0, 1]));
    assert_eq!(a, "127.0.0.1");
    let mut b = String::new();
    push_ipv4(&mut b, u32::from_le_bytes([192, 168, 255, 10]));
    assert_eq!(b, "192.168.255.10");
}

#[test]
fn hex_dumps() {
    assert_eq!(hex_string(&[]), "");
    assert_eq!(hex_string(&[0x0a]), "0a");
    assert_eq!(hex_string(&[0x0a, 0xff, 0x00, 0x7b]), "0a ff 00 7b");
}

#[test]
fn metrics_address_normalization() {
    assert_eq!(normalize_metrics_addr(":9090"), "0.0.0.0:9090");
    assert_eq!(normalize_metrics_addr("9090"), "0.0.0.0:9090");
    assert_eq!(normalize_metrics_addr("127.0.0.1:9090"), "127.0.0.1:9090");
    assert_eq!(normalize_metrics_addr("[::1]:9090"), "[::1]:9090");
    assert_eq!(normalize_metrics_addr(""), "0.0.0.0:");
    assert_eq!(normalize_metrics_addr("90a"), "90a");
}

fn stats(packets: u64, bytes: u64, drops: u64, redirects: u64, last_seen_ns: u64) -> IpStats {
    IpStats { packets, bytes, drops, redirects, last_seen_ns }
}

#[test]
fn rendered_metrics() {
    let entries = vec![
        (u32::from_le_bytes([127, 0, 0, 1]), stats(3, 300, 1, 2, 99)),
        (u32::from_le_bytes([10, 0, 0, 7]), stats(4, 50, 0, 1, 123)),
    ];
    let out = render_metrics(5, &[0, 5, 0, 0], &entries);
    let expected = "\
# HELP svm_xdp_packets_total Total UDP 8001 packets observed by XDP.
# TYPE svm_xdp_packets_total counter
svm_xdp_packets_total 7
# HELP svm_xdp_bytes_total Total bytes observed for UDP 8001 packets by XDP.
# TYPE svm_xdp_bytes_total counter
svm_xdp_bytes_total 350
# HELP svm_xdp_redirects_total Total successful XSK redirects.
# TYPE svm_xdp_redirects_total counter
svm_xdp_redirects_total 3
# HELP svm_xdp_drops_total Total XDP drops, with optional reason labels.
# TYPE svm_xdp_drops_total counter
svm_xdp_drops_total 5
svm_xdp_drops_total{reason=\"missing_shred\"} 5
svm_xdp_drops_total{reason=\"bad_witness_len\"} 0
svm_xdp_drops_total{reason=\"bad_slot\"} 0
# HELP svm_xdp_per_ip_packets Per-source-IP UDP 8001 packet count.
# TYPE svm_xdp_per_ip_packets counter
svm_xdp_per_ip_packets{ip=\"127.0.0.1\"} 3
svm_xdp_per_ip_packets{ip=\"10.0.0.7\"} 4
# HELP svm_xdp_per_ip_bytes Per-source-IP UDP 8001 byte count.
# TYPE svm_xdp_per_ip_bytes counter
svm_xdp_per_ip_bytes{ip=\"127.0.0.1\"} 300
svm_xdp_per_ip_bytes{ip=\"10.0.0.7\"} 50
# HELP svm_xdp_per_ip_drops Per-source-IP UDP 8001 drop count.
# TYPE svm_xdp_per_ip_drops counter
svm_xdp_per_ip_drops{ip=\"127.0.0.1\"} 1
svm_xdp_per_ip_drops{ip=\"10.0.0.7\"} 0
# HELP svm_xdp_per_ip_redirects Per-source-IP successful XSK redirect count.
# TYPE svm_xdp_per_ip_redirects counter
svm_xdp_per_ip_redirects{ip=\"127.0.0.1\"} 2
svm_xdp_per_ip_redirects{ip=\"10.0.0.7\"} 1
# HELP svm_xdp_per_ip_last_seen_ns Last kernel monotonic timestamp observed for each source IP.
# TYPE svm_xdp_per_ip_last_seen_ns gauge
svm_xdp_per_ip_last_seen_ns{ip=\"127.0.0.1\"} 99
svm_xdp_per_ip_last_seen_ns{ip=\"10.0.0.7\"} 123
";
    assert_eq!(out, expected);
}

#[test]
fn rendered_metrics_without_addresses() {
    let out = render_metrics(0, &[0, 0, 0, 0], &[]);
    assert!(out.contains("svm_xdp_packets_total 0\n"));
    assert!(out.contains("svm_xdp_drops_total{reason=\"missing_shred\"} 0\n"));
    assert!(!out.contains("{ip="));
    assert!(out.ends_with("# TYPE svm_xdp_per_ip_last_seen_ns gauge\n"));
}

#[test]
fn normalization_is_idempotent() {
    for v in [":9090", "9090", "", "127.0.0.1:1", "abc"] {
        let once = normalize_metrics_addr(v);
        assert_eq!(normalize_metrics_addr(&once), once);
    }
}

#[test]
fn metrics_responses() {
    assert_eq!(
        metrics_response(Some("a 1\n")),
        "HTTP/1.1 200 OK\r\ncontent-type: text/plain; version=0.0.4\r\ncontent-length: 4\r\nconnection: close\r\n\r\na 1\n"
    );
    assert_eq!(
        metrics_response(None),
        "HTTP/1.1 500 Internal Server Error\r\ncontent-type: text/plain; charset=utf-8\r\ncontent-length: 25\r\nconnection: close\r\n\r\nfailed to render metrics\n"
    );
}
