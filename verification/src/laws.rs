//! Properties of the router as a whole, over the effect of one packet
//! ([`router_step`]).

use vstd::prelude::*;

use crate::action;
use crate::codec::{be_u16, be_u32, be_u64, le_u32};
use crate::drop_reason;
use crate::common::{packet_log_entry_bytes, IpStats, SourceRoute};
use crate::packet_log::{lemma_parse_packet_log_roundtrip, parse_packet_log_spec};
use crate::metrics::{ip_field_values, sum_u64};
use crate::router::{
    bump, bump_cpu, classify, fresh_stats, has_ip, has_route, ip_index, lemma_ip_put,
    lemma_route_put, lookup_ip, lookup_route, recorded_stats, record_ip_spec, route_index,
    router_step, udp_offset, xsk_bound, RouterStateView, ETH_P_IP, IPPROTO_UDP, SHRED_PORT,
};
use crate::metrics::{
    ip_field, ip_lines, metric_header, reason_lines, render_metrics_spec, sample_line,
    total_family,
};
use crate::text::ipv4_dotted;

verus! {

/// Offset of the UDP header of an IPv4 frame: the 14-byte Ethernet header,
/// then as many 4-byte words of IPv4 header as the low nibble of its first
/// byte says.
pub open spec fn udp_start(b: Seq<u8>) -> int {
    14 + (b[14] % 16) * 4
}

/// An IPv4 (EtherType 0x0800) / UDP (protocol 17) frame, with whole
/// Ethernet, IPv4 and UDP headers, addressed to UDP port 8001.
pub open spec fn is_shred_port_packet(b: Seq<u8>) -> bool {
    &&& b.len() >= 34
    &&& b[12] == 0x08u8 && b[13] == 0x00u8
    &&& b[23] == 17u8
    &&& udp_start(b) + 8 <= b.len()
    &&& be_u16(b, udp_start(b) + 2) == 8001u16
}

/// [`udp_start`] is the offset the router parses the UDP header at.
pub proof fn lemma_udp_start(b: Seq<u8>)
    requires
        b.len() > 14,
    ensures
        udp_start(b) == udp_offset(b),
        is_shred_port_packet(b) <==> (b.len() >= 34 && be_u16(b, 12) == ETH_P_IP && b[23]
            == IPPROTO_UDP && udp_offset(b) + 8 <= b.len() && be_u16(b, udp_offset(b) + 2)
            == SHRED_PORT),
{
    let x = b[14];
    assert(x & 0x0fu8 == x % 16) by (bit_vector);
    let (b12, b13) = (b[12], b[13]);
    assert(((b12 as u16) << 8u16) | (b13 as u16) == 0x0800u16 <==> (b12 == 0x08u8 && b13
        == 0x00u8)) by (bit_vector);
}

/// A log record is produced exactly for the frames addressed to the shred
/// port, and it records the shred port as destination and the verdict given.
pub proof fn law_logged_iff_shred_port(s: RouterStateView, packet: Seq<u8>, cpu: u32, now: u64)
    ensures
        router_step(s, packet, cpu, now).2 is Some <==> is_shred_port_packet(packet),
        router_step(s, packet, cpu, now).2 matches Some(e) ==> e.dst_port == SHRED_PORT && e.action
            == router_step(s, packet, cpu, now).1 && e.cpu == cpu,
{
    if packet.len() > 14 {
        lemma_udp_start(packet);
    }
}

/// A frame not addressed to the shred port leaves every map unchanged and is
/// passed on, or aborted where its Ethernet or IPv4 header is cut short.
pub proof fn law_other_traffic_untouched(s: RouterStateView, packet: Seq<u8>, cpu: u32, now: u64)
    requires
        !is_shred_port_packet(packet),
    ensures
        router_step(s, packet, cpu, now).0 == s,
        router_step(s, packet, cpu, now).1 == (if packet.len() < 14 || (be_u16(packet, 12)
            == ETH_P_IP && packet.len() < 34) {
            action::ABORTED
        } else {
            action::PASS
        }),
{
    if packet.len() > 14 {
        lemma_udp_start(packet);
    }
}

/// Shred-port frames whose payload holds no shred header, or a header of
/// another version, are dropped; well-formed shreds never are.
pub proof fn law_malformed_shreds_dropped(
    s: RouterStateView,
    packet: Seq<u8>,
    cpu: u32,
    now: u64,
)
    ensures
        router_step(s, packet, cpu, now).1 == action::DROP <==> (classify(
            packet,
        ) is MissingShred || classify(packet) is BadVersion),
        classify(packet) is Shred ==> (router_step(s, packet, cpu, now).1 == action::REDIRECT
            || router_step(s, packet, cpu, now).1 == action::PASS),
{
}

/// The processing CPU's slot of the drop counter goes up by one for each
/// dropped frame, and no slot moves otherwise; the processing CPU's slot of
/// the `missing_shred` reason counter goes up by one exactly for frames too
/// short for a shred header, and no other reason slot moves.
pub proof fn law_drop_counter(s: RouterStateView, packet: Seq<u8>, cpu: u32, now: u64)
    requires
        s.wf(),
    ensures
        router_step(s, packet, cpu, now).0.drop_counter == (if router_step(s, packet, cpu, now).1
            == action::DROP {
            bump_cpu(s.drop_counter, cpu)
        } else {
            s.drop_counter
        }),
        router_step(s, packet, cpu, now).0.drop_reasons == (if classify(packet) is MissingShred {
            s.drop_reasons.update(
                drop_reason::MISSING_SHRED as int,
                bump_cpu(s.drop_reasons[drop_reason::MISSING_SHRED as int], cpu),
            )
        } else {
            s.drop_reasons
        }),
{
}

/// The record of a frame dropped for want of a shred header names the
/// `missing_shred` reason; every other record names no reason.
pub proof fn law_log_drop_reason(s: RouterStateView, packet: Seq<u8>, cpu: u32, now: u64)
    ensures
        router_step(s, packet, cpu, now).2 matches Some(e) ==> e.drop_reason == (if classify(
            packet,
        ) is MissingShred {
            drop_reason::MISSING_SHRED
        } else {
            drop_reason::NONE
        }),
{
}

/// The record of a shred-port frame carries the frame's length and its first
/// bytes, at most 128 of them, with the rest of the capture zeroed.
pub proof fn law_log_captures_frame(s: RouterStateView, packet: Seq<u8>, cpu: u32, now: u64)
    ensures
        router_step(s, packet, cpu, now).2 matches Some(e) ==> {
            let n = if packet.len() > 128 {
                128
            } else {
                packet.len() as int
            };
            &&& e.packet_len == packet.len() as u32
            &&& e.raw_len == n
            &&& e.raw.len() == 128
            &&& e.raw.subrange(0, n) == packet.subrange(0, n)
            &&& forall|i: int| n <= i < 128 ==> e.raw[i] == 0
            &&& e.src_ip == source_address(packet)
        },
{
    if let Some(e) = router_step(s, packet, cpu, now).2 {
        let n = if packet.len() > 128 {
            128
        } else {
            packet.len() as int
        };
        assert(e.raw.subrange(0, n) =~= packet.subrange(0, n));
    }
}

/// A well-formed shred goes to the queue of its source's route (queue 0 for
/// an unknown source) and is redirected exactly where a socket is bound at
/// that queue; the route's packet count goes up by one, and every other
/// route is left alone.
pub proof fn law_shred_routing(s: RouterStateView, packet: Seq<u8>, cpu: u32, now: u64)
    requires
        s.wf(),
        classify(packet) is Shred,
    ensures
        ({
            let h = classify(packet)->Shred_1;
            let next = router_step(s, packet, cpu, now);
            let queue = match lookup_route(s.routes, h.source_id) {
                Some(route) => route.queue_id,
                None => 0u32,
            };
            &&& next.1 == (if xsk_bound(s.xsk_slots, queue) {
                action::REDIRECT
            } else {
                action::PASS
            })
            &&& lookup_route(next.0.routes, h.source_id) == match lookup_route(
                s.routes,
                h.source_id,
            ) {
                Some(route) => Some(
                    SourceRoute { queue_id: route.queue_id, packet_count: bump(route.packet_count) },
                ),
                None => None,
            }
            &&& forall|k: Seq<u8>|
                k != h.source_id ==> lookup_route(next.0.routes, k) == lookup_route(s.routes, k)
        }),
{
    let key = classify(packet)->Shred_1.source_id;
    if has_route(s.routes, key) {
        let i = route_index(s.routes, key);
        let route = s.routes[i].1;
        lemma_route_put(
            s.routes,
            s.routes[i].0,
            SourceRoute { queue_id: route.queue_id, packet_count: bump(route.packet_count) },
        );
    }
}

/// The source address of a shred-port frame.
pub open spec fn source_address(packet: Seq<u8>) -> u32 {
    crate::codec::le_u32(packet, 26)
}

/// Every shred-port frame is recorded against its source address: one more
/// packet, its length in bytes, a drop or a redirect where that is the
/// verdict, and the time it was seen; the other addresses' statistics are left
/// alone. Other frames leave the statistics unchanged.
pub proof fn law_ip_stats(s: RouterStateView, packet: Seq<u8>, cpu: u32, now: u64)
    requires
        s.wf(),
    ensures
        ({
            let next = router_step(s, packet, cpu, now);
            let addr = source_address(packet);
            &&& is_shred_port_packet(packet) ==> lookup_ip(next.0.ip_stats, addr) == Some(
                recorded_stats(
                    match lookup_ip(s.ip_stats, addr) {
                        Some(st) => st,
                        None => fresh_stats(),
                    },
                    packet.len() as u64,
                    next.1,
                    now,
                ),
            )
            &&& is_shred_port_packet(packet) ==> forall|a: u32|
                a != addr ==> lookup_ip(next.0.ip_stats, a) == lookup_ip(s.ip_stats, a)
            &&& !is_shred_port_packet(packet) ==> next.0.ip_stats == s.ip_stats
        }),
{
    if packet.len() > 14 {
        lemma_udp_start(packet);
    }
    let next = router_step(s, packet, cpu, now);
    if is_shred_port_packet(packet) {
        let addr = source_address(packet);
        lemma_ip_put(
            s.ip_stats,
            addr,
            recorded_stats(
                match lookup_ip(s.ip_stats, addr) {
                    Some(st) => st,
                    None => fresh_stats(),
                },
                packet.len() as u64,
                next.1,
                now,
            ),
        );
    }
}

/// Replacing one counter changes the sum by the difference.
pub proof fn lemma_sum_update(s: Seq<u64>, i: int, v: u64)
    requires
        0 <= i < s.len(),
    ensures
        sum_u64(s.update(i, v)) == sum_u64(s) - s[i] + v,
    decreases s.len(),
{
    let t = s.update(i, v);
    if i == s.len() - 1 {
        assert(t.drop_last() =~= s.drop_last());
    } else {
        assert(t.drop_last() =~= s.drop_last().update(i, v));
        lemma_sum_update(s.drop_last(), i, v);
    }
}

/// How recording one packet changes the total of field `f` over all addresses.
pub proof fn lemma_record_ip_total(
    s: Seq<(u32, IpStats)>,
    addr: u32,
    len: u64,
    act: u32,
    now: u64,
    f: int,
)
    ensures
        ({
            let old_stats = match lookup_ip(s, addr) {
                Some(st) => st,
                None => fresh_stats(),
            };
            sum_u64(ip_field_values(record_ip_spec(s, addr, len, act, now), f))
                == sum_u64(ip_field_values(s, f)) - ip_field(old_stats, f)
                + ip_field(recorded_stats(old_stats, len, act, now), f)
        }),
{
    let t = record_ip_spec(s, addr, len, act, now);
    if has_ip(s, addr) {
        let i = ip_index(s, addr);
        let v = ip_field(recorded_stats(s[i].1, len, act, now), f);
        assert(ip_field_values(t, f) =~= ip_field_values(s, f).update(i, v));
        lemma_sum_update(ip_field_values(s, f), i, v);
    } else {
        let v = ip_field(recorded_stats(fresh_stats(), len, act, now), f);
        assert(ip_field_values(t, f) =~= ip_field_values(s, f).push(v));
        assert(ip_field_values(s, f).push(v).drop_last() =~= ip_field_values(s, f));
    }
}

/// Counted over all addresses, a frame adds one packet exactly where it is a
/// shred-port frame, one drop exactly where it is dropped (as the drop
/// counter does) and one redirect exactly where it is redirected, as long as
/// the source address's own counters have room.
pub proof fn law_ip_totals(s: RouterStateView, packet: Seq<u8>, cpu: u32, now: u64)
    requires
        s.wf(),
        lookup_ip(s.ip_stats, source_address(packet)) matches Some(st) ==> st.packets < u64::MAX
            && st.drops < u64::MAX && st.redirects < u64::MAX,
    ensures
        ({
            let next = router_step(s, packet, cpu, now);
            &&& sum_u64(ip_field_values(next.0.ip_stats, 0)) == sum_u64(
                ip_field_values(s.ip_stats, 0),
            ) + if is_shred_port_packet(packet) {
                1int
            } else {
                0int
            }
            &&& sum_u64(ip_field_values(next.0.ip_stats, 2)) == sum_u64(
                ip_field_values(s.ip_stats, 2),
            ) + if next.1 == action::DROP {
                1int
            } else {
                0int
            }
            &&& sum_u64(ip_field_values(next.0.ip_stats, 3)) == sum_u64(
                ip_field_values(s.ip_stats, 3),
            ) + if next.1 == action::REDIRECT {
                1int
            } else {
                0int
            }
        }),
{
    if packet.len() > 14 {
        lemma_udp_start(packet);
    }
    let next = router_step(s, packet, cpu, now);
    if is_shred_port_packet(packet) {
        let addr = source_address(packet);
        let len = packet.len() as u64;
        lemma_record_ip_total(s.ip_stats, addr, len, next.1, now, 0);
        lemma_record_ip_total(s.ip_stats, addr, len, next.1, now, 2);
        lemma_record_ip_total(s.ip_stats, addr, len, next.1, now, 3);
    }
}

/// The record the router logs for a frame reaches userspace intact: decoding
/// its in-memory image, with whatever follows it in the sample, gives it back.
pub proof fn law_logged_record_reaches_userspace(
    s: RouterStateView,
    packet: Seq<u8>,
    cpu: u32,
    now: u64,
    rest: Seq<u8>,
)
    ensures
        router_step(s, packet, cpu, now).2 matches Some(e) ==> parse_packet_log_spec(
            packet_log_entry_bytes(e) + rest,
        ) == Some(e),
{
    if let Some(e) = router_step(s, packet, cpu, now).2 {
        lemma_parse_packet_log_roundtrip(e, rest);
    }
}

/// The addresses of the statistics entries, in order.
pub open spec fn entry_addresses(entries: Seq<(u32, IpStats)>) -> Seq<u32> {
    entries.map_values(|e: (u32, IpStats)| e.0)
}

/// One sample line per address, `vals[i]` labelled with `addrs[i]`, in order.
pub open spec fn labelled_lines(name: Seq<char>, addrs: Seq<u32>, vals: Seq<u64>) -> Seq<char>
    decreases vals.len(),
{
    if vals.len() == 0 {
        Seq::empty()
    } else {
        labelled_lines(name, addrs.drop_last(), vals.drop_last()) + sample_line(
            name + "{ip=\""@ + ipv4_dotted(addrs.last()) + "\"}"@,
            vals.last() as nat,
        )
    }
}

/// The per-address lines of field `f` print the values of that field.
pub proof fn lemma_ip_lines_labelled(name: Seq<char>, entries: Seq<(u32, IpStats)>, f: int)
    ensures
        ip_lines(name, entries, f) == labelled_lines(
            name,
            entry_addresses(entries),
            ip_field_values(entries, f),
        ),
    decreases entries.len(),
{
    if entries.len() > 0 {
        assert(entry_addresses(entries.drop_last()) =~= entry_addresses(entries).drop_last());
        assert(ip_field_values(entries.drop_last(), f) =~= ip_field_values(entries, f).drop_last());
        lemma_ip_lines_labelled(name, entries.drop_last(), f);
    }
}

/// A family with one sample per address, `vals[i]` labelled with `addrs[i]`.
pub open spec fn labelled_family(
    name: Seq<char>,
    help: Seq<char>,
    metric_type: Seq<char>,
    addrs: Seq<u32>,
    vals: Seq<u64>,
) -> Seq<char> {
    metric_header(name, help, metric_type) + labelled_lines(name, addrs, vals)
}

/// In the rendered metrics, the packet, byte and redirect totals are the sums
/// of the very values printed on the per-address lines of the same statistic
/// (the drop total is the drop counter's, and is printed as given).
pub proof fn law_render_totals_match(
    drop_total: u64,
    reason_totals: Seq<u64>,
    entries: Seq<(u32, IpStats)>,
)
    ensures
        ({
            let addrs = entry_addresses(entries);
            let packets = ip_field_values(entries, 0);
            let bytes = ip_field_values(entries, 1);
            let redirects = ip_field_values(entries, 3);
            render_metrics_spec(drop_total, reason_totals, entries) == total_family(
                "svm_xdp_packets_total"@,
                "Total UDP 8001 packets observed by XDP."@,
                sum_u64(packets) as nat,
            ) + total_family(
                "svm_xdp_bytes_total"@,
                "Total bytes observed for UDP 8001 packets by XDP."@,
                sum_u64(bytes) as nat,
            ) + total_family(
                "svm_xdp_redirects_total"@,
                "Total successful XSK redirects."@,
                sum_u64(redirects) as nat,
            ) + total_family(
                "svm_xdp_drops_total"@,
                "Total XDP drops, with optional reason labels."@,
                drop_total as nat,
            ) + reason_lines(reason_totals, drop_reason::COUNT as int) + labelled_family(
                "svm_xdp_per_ip_packets"@,
                "Per-source-IP UDP 8001 packet count."@,
                "counter"@,
                addrs,
                packets,
            ) + labelled_family(
                "svm_xdp_per_ip_bytes"@,
                "Per-source-IP UDP 8001 byte count."@,
                "counter"@,
                addrs,
                bytes,
            ) + labelled_family(
                "svm_xdp_per_ip_drops"@,
                "Per-source-IP UDP 8001 drop count."@,
                "counter"@,
                addrs,
                ip_field_values(entries, 2),
            ) + labelled_family(
                "svm_xdp_per_ip_redirects"@,
                "Per-source-IP successful XSK redirect count."@,
                "counter"@,
                addrs,
                redirects,
            ) + labelled_family(
                "svm_xdp_per_ip_last_seen_ns"@,
                "Last kernel monotonic timestamp observed for each source IP."@,
                "gauge"@,
                addrs,
                ip_field_values(entries, 4),
            )
        }),
{
    lemma_ip_lines_labelled("svm_xdp_per_ip_packets"@, entries, 0);
    lemma_ip_lines_labelled("svm_xdp_per_ip_bytes"@, entries, 1);
    lemma_ip_lines_labelled("svm_xdp_per_ip_drops"@, entries, 2);
    lemma_ip_lines_labelled("svm_xdp_per_ip_redirects"@, entries, 3);
    lemma_ip_lines_labelled("svm_xdp_per_ip_last_seen_ns"@, entries, 4);
}

/// A shred-port frame whose payload holds a whole 56-byte shred header is a
/// valid shred exactly when the header's first (version) byte is 1; with any
/// other version it is a bad-version shred and is dropped. A shred-port frame
/// whose payload is shorter than a shred header is a missing shred and is
/// dropped as well.
pub proof fn law_version_check(s: RouterStateView, packet: Seq<u8>, cpu: u32, now: u64)
    requires
        is_shred_port_packet(packet),
    ensures
        ({
            let o = udp_start(packet) + 8;
            let verdict = router_step(s, packet, cpu, now).1;
            &&& o + 56 <= packet.len() ==> (classify(packet) is Shred <==> packet[o] == 1u8)
            &&& o + 56 <= packet.len() ==> (classify(packet) is BadVersion <==> packet[o] != 1u8)
            &&& o + 56 <= packet.len() ==> (verdict == 1u32 <==> packet[o] != 1u8)
            &&& o + 56 > packet.len() ==> classify(packet) is MissingShred && verdict == 1u32
        }),
{
    lemma_udp_start(packet);
}

/// The log record of a shred-port frame carries its addressing, and, where a
/// whole shred header was read, that header's fields unchanged: version,
/// flags, slot, index, count (big-endian on the wire) and source id; where no
/// header was read those fields are zero.
pub proof fn law_log_header_fields(s: RouterStateView, packet: Seq<u8>, cpu: u32, now: u64)
    requires
        is_shred_port_packet(packet),
    ensures
        ({
            let u = udp_start(packet);
            let o = u + 8;
            let log = router_step(s, packet, cpu, now).2;
            &&& log is Some
            &&& log->0.src_ip == le_u32(packet, 26)
            &&& log->0.src_port == be_u16(packet, u)
            &&& log->0.dst_port == 8001u16
            &&& o + 56 <= packet.len() ==> {
                &&& log->0.version == packet[o]
                &&& log->0.flags == packet[o + 1]
                &&& log->0.slot == be_u64(packet, o + 8)
                &&& log->0.shred_index == be_u32(packet, o + 16)
                &&& log->0.shred_count == be_u32(packet, o + 20)
                &&& log->0.source_id == packet.subrange(o + 24, o + 56)
            }
            &&& o + 56 > packet.len() ==> {
                &&& log->0.version == 0 && log->0.flags == 0 && log->0.slot == 0
                &&& log->0.shred_index == 0 && log->0.shred_count == 0
                &&& log->0.source_id == Seq::new(32, |i: int| 0u8)
            }
        }),
{
    lemma_udp_start(packet);
}

/// A valid shred whose source id is stored in the routing table goes to that
/// entry's queue: it is redirected exactly where a socket is bound at that
/// queue slot, and passed on otherwise; the entry's packet count goes up by
/// one (wrapping) and every other entry stays as it was. A valid shred of an
/// unknown source goes to queue 0 and leaves the table as it was.
pub proof fn law_route_queue_redirect(s: RouterStateView, packet: Seq<u8>, cpu: u32, now: u64)
    requires
        s.wf(),
        is_shred_port_packet(packet),
        udp_start(packet) + 64 <= packet.len(),
        packet[udp_start(packet) + 8] == 1u8,
    ensures
        ({
            let key = packet.subrange(udp_start(packet) + 32, udp_start(packet) + 64);
            let next = router_step(s, packet, cpu, now);
            &&& forall|i: int|
                0 <= i < s.routes.len() && s.routes[i].0.source_id@ == key ==> {
                    let q = s.routes[i].1.queue_id;
                    &&& (next.1 == 4u32 <==> (q < 64 && s.xsk_slots[q as int]))
                    &&& (next.1 == 2u32 <==> !(q < 64 && s.xsk_slots[q as int]))
                    &&& next.0.routes.len() == s.routes.len()
                    &&& next.0.routes[i].0 == s.routes[i].0
                    &&& next.0.routes[i].1.queue_id == q
                    &&& next.0.routes[i].1.packet_count == ((s.routes[i].1.packet_count + 1)
                        % 0x1_0000_0000_0000_0000int) as u64
                    &&& forall|j: int| 0 <= j < s.routes.len() && j != i ==> next.0.routes[j] == s.routes[j]
                }
            &&& (forall|i: int| 0 <= i < s.routes.len() ==> s.routes[i].0.source_id@ != key) ==> {
                &&& (next.1 == 4u32 <==> s.xsk_slots[0])
                &&& (next.1 == 2u32 <==> !s.xsk_slots[0])
                &&& next.0.routes == s.routes
            }
        }),
{
    lemma_udp_start(packet);
    let key = packet.subrange(udp_start(packet) + 32, udp_start(packet) + 64);
    assert(classify(packet) is Shred);
    assert(classify(packet)->Shred_1.source_id == key);
    if has_route(s.routes, key) {
        let k = route_index(s.routes, key);
        let route = s.routes[k].1;
        lemma_route_put(
            s.routes,
            s.routes[k].0,
            SourceRoute { queue_id: route.queue_id, packet_count: bump(route.packet_count) },
        );
        assert forall|i: int|
            0 <= i < s.routes.len() && s.routes[i].0.source_id@ == key implies i == k by {
            if i != k {
                assert(s.routes[i].0.source_id@ == s.routes[k].0.source_id@);
            }
        }
    }
}

/// Every shred-port frame, whatever its verdict, is counted against its
/// source address: one more packet, the frame's length more bytes, one more
/// drop where it is dropped (verdict 1), one more redirect where it is
/// redirected (verdict 4), all wrapping, and the time it was seen.
pub proof fn law_ip_stats_counts(s: RouterStateView, packet: Seq<u8>, cpu: u32, now: u64)
    requires
        s.wf(),
        is_shred_port_packet(packet),
    ensures
        ({
            let next = router_step(s, packet, cpu, now);
            let addr = le_u32(packet, 26);
            let (p, b, d, r) = match lookup_ip(s.ip_stats, addr) {
                Some(st) => (st.packets, st.bytes, st.drops, st.redirects),
                None => (0u64, 0u64, 0u64, 0u64),
            };
            let m = 0x1_0000_0000_0000_0000int;
            &&& lookup_ip(next.0.ip_stats, addr) is Some
            &&& lookup_ip(next.0.ip_stats, addr)->0.packets == ((p + 1) % m) as u64
            &&& lookup_ip(next.0.ip_stats, addr)->0.bytes == ((b + (packet.len() as u64)) % m) as u64
            &&& lookup_ip(next.0.ip_stats, addr)->0.drops == if next.1 == 1u32 {
                ((d + 1) % m) as u64
            } else {
                d
            }
            &&& lookup_ip(next.0.ip_stats, addr)->0.redirects == if next.1 == 4u32 {
                ((r + 1) % m) as u64
            } else {
                r
            }
            &&& lookup_ip(next.0.ip_stats, addr)->0.last_seen_ns == now
        }),
{
    law_ip_stats(s, packet, cpu, now);
    lemma_udp_start(packet);
}

/// Over all addresses, the byte total grows by the frame's length for every
/// shred-port frame and stays put for other frames, as long as the source
/// address's byte count has room.
pub proof fn law_ip_byte_total(s: RouterStateView, packet: Seq<u8>, cpu: u32, now: u64)
    requires
        s.wf(),
        packet.len() <= u64::MAX,
        lookup_ip(s.ip_stats, le_u32(packet, 26)) matches Some(st) ==> st.bytes + packet.len()
            <= u64::MAX,
    ensures
        sum_u64(ip_field_values(router_step(s, packet, cpu, now).0.ip_stats, 1)) == sum_u64(
            ip_field_values(s.ip_stats, 1),
        ) + if is_shred_port_packet(packet) {
            packet.len() as int
        } else {
            0int
        },
{
    if packet.len() > 14 {
        lemma_udp_start(packet);
    }
    let next = router_step(s, packet, cpu, now);
    if is_shred_port_packet(packet) {
        lemma_record_ip_total(s.ip_stats, source_address(packet), packet.len() as u64, next.1, now, 1);
    }
}

/// Each dropped frame (verdict 1) adds exactly one, wrapping, to the
/// processing CPU's slot of the drop counter, and every other slot, and every
/// slot of every other frame, stays put. A frame dropped for want of a shred
/// header also adds exactly one to the processing CPU's slot of the
/// `missing_shred` reason counter; no other reason slot ever moves.
pub proof fn law_drop_counts(s: RouterStateView, packet: Seq<u8>, cpu: u32, now: u64)
    requires
        s.wf(),
        cpu < s.drop_counter.len(),
    ensures
        ({
            let next = router_step(s, packet, cpu, now);
            let missing = is_shred_port_packet(packet) && udp_start(packet) + 64 > packet.len();
            let m = 0x1_0000_0000_0000_0000int;
            &&& next.0.drop_counter.len() == s.drop_counter.len()
            &&& next.0.drop_counter[cpu as int] == if next.1 == 1u32 {
                ((s.drop_counter[cpu as int] + 1) % m) as u64
            } else {
                s.drop_counter[cpu as int]
            }
            &&& forall|c: int|
                0 <= c < s.drop_counter.len() && c != cpu ==> next.0.drop_counter[c]
                    == s.drop_counter[c]
            &&& next.0.drop_reasons.len() == s.drop_reasons.len()
            &&& next.0.drop_reasons[1].len() == s.drop_reasons[1].len()
            &&& next.0.drop_reasons[1][cpu as int] == if missing {
                ((s.drop_reasons[1][cpu as int] + 1) % m) as u64
            } else {
                s.drop_reasons[1][cpu as int]
            }
            &&& forall|c: int|
                0 <= c < s.drop_reasons[1].len() && c != cpu ==> next.0.drop_reasons[1][c]
                    == s.drop_reasons[1][c]
            &&& forall|r: int| 0 <= r < s.drop_reasons.len() && r != 1 ==> next.0.drop_reasons[r]
                == s.drop_reasons[r]
        }),
{
    if packet.len() > 14 {
        lemma_udp_start(packet);
    }
}

/// A frame that is not a valid shred (version byte 1 behind a whole shred
/// header) leaves the routing table as it was; no frame changes the socket
/// redirect slots.
pub proof fn law_routes_only_move_for_valid_shreds(
    s: RouterStateView,
    packet: Seq<u8>,
    cpu: u32,
    now: u64,
)
    ensures
        router_step(s, packet, cpu, now).0.xsk_slots == s.xsk_slots,
        !(is_shred_port_packet(packet) && udp_start(packet) + 64 <= packet.len() && packet[udp_start(
            packet,
        ) + 8] == 1u8) ==> router_step(s, packet, cpu, now).0.routes == s.routes,
{
    if packet.len() > 14 {
        lemma_udp_start(packet);
    }
}

/// The rendered per-address lines of each statistic print, entry by entry,
/// that entry's own packets, bytes, drops, redirects and last-seen time.
pub proof fn law_render_per_address_values(entries: Seq<(u32, IpStats)>)
    ensures
        forall|i: int|
            0 <= i < entries.len() ==> {
                &&& ip_field_values(entries, 0)[i] == entries[i].1.packets
                &&& ip_field_values(entries, 1)[i] == entries[i].1.bytes
                &&& ip_field_values(entries, 2)[i] == entries[i].1.drops
                &&& ip_field_values(entries, 3)[i] == entries[i].1.redirects
                &&& ip_field_values(entries, 4)[i] == entries[i].1.last_seen_ns
                &&& entry_addresses(entries)[i] == entries[i].0
            },
        forall|f: int| 0 <= f <= 4 ==> #[trigger] ip_field_values(entries, f).len() == entries.len(),
{
}

/// The sum of counters splits over concatenation: appending a counter adds it.
pub proof fn law_sum_append(a: Seq<u64>, b: Seq<u64>)
    ensures
        sum_u64(a + b) == sum_u64(a) + sum_u64(b),
        sum_u64(Seq::<u64>::empty()) == 0,
    decreases b.len(),
{
    if b.len() > 0 {
        assert((a + b).drop_last() =~= a + b.drop_last());
        law_sum_append(a, b.drop_last());
    } else {
        assert(a + b =~= a);
    }
}

} // verus!
