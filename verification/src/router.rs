//! The kernel-side router: classifies a frame, routes valid shreds by their
//! source identifier, counts drops and per-address telemetry, and produces the
//! log record of every shred-port packet.
//!
//! The kernel maps the program works on (routing table, socket redirect map,
//! drop counters, per-address statistics) are held in a [`RouterState`]; a
//! frame is the byte sequence between the start and the end of its data.

use vstd::prelude::*;

use crate::action;
use crate::codec::{be_u16, le_u32, read_be_u16, read_le_u32};
use crate::common::{
    pshred_header_at, IpStats, PacketLogEntry, PacketLogEntryView, PshredHeader,
    PshredHeaderView, SourceKey, SourceRoute,
};
use crate::drop_reason;

verus! {

/// Length of an Ethernet header.
pub const ETH_HDR_LEN: usize = 14;

/// Length of an IPv4 header without options.
pub const IPV4_HDR_LEN: usize = 20;

/// Length of a UDP header.
pub const UDP_HDR_LEN: usize = 8;

/// EtherType of IPv4.
pub const ETH_P_IP: u16 = 0x0800;

/// IP protocol number of UDP.
pub const IPPROTO_UDP: u8 = 17;

/// UDP destination port that carries shreds.
pub const SHRED_PORT: u16 = 8001;

/// Number of entries the routing table can hold.
pub const ROUTING_TABLE_CAPACITY: usize = 1024;

/// Number of queue slots in the socket redirect map.
pub const XSK_SLOTS: usize = 64;

/// Addressing of a shred-port packet: the source address as its four wire
/// bytes read as a little-endian integer, and the ports in host order.
#[derive(Clone, Copy, Debug)]
pub struct ShredMeta {
    pub src_ip: u32,
    pub src_port: u16,
    pub dst_port: u16,
}

/// What a frame is, as far as the router is concerned.
pub enum PacketClass {
    /// The Ethernet or IPv4 header is cut short: the program aborts.
    Malformed,
    /// Not an IPv4/UDP packet for the shred port: passed on untouched.
    NotShred,
    /// A shred-port packet whose payload cannot hold a shred header.
    MissingShred(ShredMeta),
    /// A shred-port packet whose header carries another version.
    BadVersion(ShredMeta, PshredHeader),
    /// A well-formed shred.
    Shred(ShredMeta, PshredHeader),
}

/// Mathematical model of a [`PacketClass`].
pub enum PacketClassView {
    Malformed,
    NotShred,
    MissingShred(ShredMeta),
    BadVersion(ShredMeta, PshredHeaderView),
    Shred(ShredMeta, PshredHeaderView),
}

impl View for PacketClass {
    type V = PacketClassView;

    open spec fn view(&self) -> PacketClassView {
        match self {
            PacketClass::Malformed => PacketClassView::Malformed,
            PacketClass::NotShred => PacketClassView::NotShred,
            PacketClass::MissingShred(m) => PacketClassView::MissingShred(*m),
            PacketClass::BadVersion(m, h) => PacketClassView::BadVersion(*m, h@),
            PacketClass::Shred(m, h) => PacketClassView::Shred(*m, h@),
        }
    }
}

/// Offset of the UDP header: after the Ethernet header and as many 32-bit
/// words of IPv4 header as its IHL field says.
pub open spec fn udp_offset(b: Seq<u8>) -> int {
    14 + ((b[14] & 0x0fu8) as int) * 4
}

/// Addressing of the packet whose UDP header starts at `udp`.
pub open spec fn shred_meta(b: Seq<u8>, udp: int) -> ShredMeta {
    ShredMeta { src_ip: le_u32(b, 26), src_port: be_u16(b, udp), dst_port: be_u16(b, udp + 2) }
}

/// Classification of a frame.
pub open spec fn classify(b: Seq<u8>) -> PacketClassView {
    if b.len() < 14 {
        PacketClassView::Malformed
    } else if be_u16(b, 12) != ETH_P_IP {
        PacketClassView::NotShred
    } else if b.len() < 34 {
        PacketClassView::Malformed
    } else if b[23] != IPPROTO_UDP {
        PacketClassView::NotShred
    } else if udp_offset(b) + 8 > b.len() {
        PacketClassView::NotShred
    } else if be_u16(b, udp_offset(b) + 2) != SHRED_PORT {
        PacketClassView::NotShred
    } else if udp_offset(b) + 8 + 56 > b.len() {
        PacketClassView::MissingShred(shred_meta(b, udp_offset(b)))
    } else if pshred_header_at(b, udp_offset(b) + 8).version != PshredHeader::MAGIC_VERSION {
        PacketClassView::BadVersion(
            shred_meta(b, udp_offset(b)),
            pshred_header_at(b, udp_offset(b) + 8),
        )
    } else {
        PacketClassView::Shred(shred_meta(b, udp_offset(b)), pshred_header_at(b, udp_offset(b) + 8))
    }
}

/// Bounds check for a header of `size` bytes at `offset`: the offset where the
/// header lies wholly within the frame, `None` otherwise.
pub fn ptr_at(packet: &[u8], offset: usize, size: usize) -> (r: Option<usize>)
    ensures
        r is Some <==> offset + size <= packet@.len(),
        r matches Some(o) ==> o == offset,
{
    if offset > packet.len() || packet.len() - offset < size {
        None
    } else {
        Some(offset)
    }
}

/// Parses the Ethernet, IPv4, UDP and shred headers of a frame.
pub fn classify_packet(packet: &[u8]) -> (r: PacketClass)
    ensures
        r@ == classify(packet@),
{
    if ptr_at(packet, 0, ETH_HDR_LEN).is_none() {
        return PacketClass::Malformed;
    }
    if read_be_u16(packet, 12) != ETH_P_IP {
        return PacketClass::NotShred;
    }
    if ptr_at(packet, ETH_HDR_LEN, IPV4_HDR_LEN).is_none() {
        return PacketClass::Malformed;
    }
    let src_ip = read_le_u32(packet, 26);
    if packet[23] != IPPROTO_UDP {
        return PacketClass::NotShred;
    }
    let vihl = packet[14];
    assert(vihl & 0x0fu8 <= 15) by (bit_vector);
    let ihl = ((vihl & 0x0fu8) as usize) * 4;
    let udp = ETH_HDR_LEN + ihl;
    if ptr_at(packet, udp, UDP_HDR_LEN).is_none() {
        return PacketClass::NotShred;
    }
    let src_port = read_be_u16(packet, udp);
    let dst_port = read_be_u16(packet, udp + 2);
    if dst_port != SHRED_PORT {
        return PacketClass::NotShred;
    }
    let meta = ShredMeta { src_ip, src_port, dst_port };
    match PshredHeader::read_at(packet, udp + UDP_HDR_LEN) {
        None => PacketClass::MissingShred(meta),
        Some(h) => {
            if h.version != PshredHeader::MAGIC_VERSION {
                PacketClass::BadVersion(meta, h)
            } else {
                PacketClass::Shred(meta, h)
            }
        },
    }
}

/// Number of leading frame bytes that a log record keeps.
pub open spec fn raw_prefix_len(packet_len: nat) -> nat {
    if packet_len > 128 {
        128
    } else {
        packet_len
    }
}

/// Copies the first bytes of the frame, at most [`PacketLogEntry::RAW_LEN`] of
/// them, to the front of `raw`, and returns how many were copied; the rest of
/// `raw` is left as it was.
pub fn copy_raw_packet(packet: &[u8], raw: &mut [u8; 128]) -> (n: usize)
    ensures
        n == raw_prefix_len(packet@.len()),
        final(raw)@ == packet@.subrange(0, n as int) + old(raw)@.subrange(n as int, 128),
{
    let packet_len = packet.len();
    let raw_len = if packet_len > PacketLogEntry::RAW_LEN {
        PacketLogEntry::RAW_LEN
    } else {
        packet_len
    };
    let mut i: usize = 0;
    while i < raw_len
        invariant
            i <= raw_len,
            raw_len <= 128,
            raw_len <= packet@.len(),
            raw@.len() == 128,
            forall|j: int| 0 <= j < i ==> raw@[j] == packet@[j],
            forall|j: int| i <= j < 128 ==> raw@[j] == old(raw)@[j],
        decreases raw_len - i,
    {
        raw[i] = packet[i];
        i = i + 1;
    }
    assert(raw@ =~= packet@.subrange(0, raw_len as int) + old(raw)@.subrange(raw_len as int, 128));
    raw_len
}

/// The record logged for a frame with the given verdict, drop reason and
/// shred fields: zero wherever no field is given, and the frame's first bytes.
pub open spec fn log_entry_view(
    packet: Seq<u8>,
    action: u32,
    drop_reason: u32,
    cpu: u32,
    meta: ShredMeta,
    version: u8,
    flags: u8,
    slot: u64,
    shred_index: u32,
    shred_count: u32,
    source_id: Seq<u8>,
) -> PacketLogEntryView {
    let n = raw_prefix_len(packet.len());
    PacketLogEntryView {
        action,
        drop_reason,
        cpu,
        src_ip: meta.src_ip,
        packet_len: packet.len() as u32,
        src_port: meta.src_port,
        dst_port: meta.dst_port,
        raw_len: n as u16,
        version,
        flags,
        slot,
        shred_index,
        shred_count,
        source_id,
        raw: packet.subrange(0, n as int) + Seq::new((128 - n) as nat, |i: int| 0u8),
    }
}

/// The record logged for a shred-port frame whose header was read. No named
/// drop reason applies to such a frame, whatever its verdict.
pub open spec fn header_log_entry(
    packet: Seq<u8>,
    action: u32,
    cpu: u32,
    meta: ShredMeta,
    h: PshredHeaderView,
) -> PacketLogEntryView {
    log_entry_view(
        packet,
        action,
        drop_reason::NONE,
        cpu,
        meta,
        h.version,
        h.flags,
        h.slot,
        h.shred_index,
        h.shred_count,
        h.source_id,
    )
}

/// The record logged for a shred-port frame too short for a shred header: a
/// drop for the `missing_shred` reason.
pub open spec fn missing_shred_log_entry(
    packet: Seq<u8>,
    cpu: u32,
    meta: ShredMeta,
) -> PacketLogEntryView {
    log_entry_view(
        packet,
        action::DROP,
        drop_reason::MISSING_SHRED,
        cpu,
        meta,
        0,
        0,
        0,
        0,
        0,
        Seq::new(32, |i: int| 0u8),
    )
}

/// Builds the log record of a frame: the verdict and drop reason, the
/// processing CPU, the addressing, the frame length, the shred fields, and the
/// frame's first bytes.
pub fn log_packet(
    packet: &[u8],
    action: u32,
    drop_reason: u32,
    cpu: u32,
    meta: ShredMeta,
    version: u8,
    flags: u8,
    slot: u64,
    shred_index: u32,
    shred_count: u32,
    source_id: [u8; 32],
) -> (e: PacketLogEntry)
    ensures
        e@ == log_entry_view(
            packet@,
            action,
            drop_reason,
            cpu,
            meta,
            version,
            flags,
            slot,
            shred_index,
            shred_count,
            source_id@,
        ),
{
    let mut raw = [0u8; 128];
    let raw_len = copy_raw_packet(packet, &mut raw);
    let e = PacketLogEntry {
        action,
        drop_reason,
        cpu,
        src_ip: meta.src_ip,
        packet_len: packet.len() as u32,
        src_port: meta.src_port,
        dst_port: meta.dst_port,
        raw_len: raw_len as u16,
        version,
        flags,
        slot,
        shred_index,
        shred_count,
        source_id,
        raw,
    };
    assert(e@.raw =~= packet@.subrange(0, raw_len as int) + Seq::new(
        (128 - raw_len) as nat,
        |i: int| 0u8,
    ));
    assert(e@ =~= log_entry_view(
        packet@,
        action,
        drop_reason,
        cpu,
        meta,
        version,
        flags,
        slot,
        shred_index,
        shred_count,
        source_id@,
    ));
    e
}

/// Whether two source identifiers are equal.
pub fn source_ids_equal(a: &[u8; 32], b: &[u8; 32]) -> (r: bool)
    ensures
        r == (a@ == b@),
{
    let mut i: usize = 0;
    while i < 32
        invariant
            i <= 32,
            a@.len() == 32,
            b@.len() == 32,
            forall|j: int| 0 <= j < i ==> a@[j] == b@[j],
        decreases 32 - i,
    {
        if a[i] != b[i] {
            return false;
        }
        i = i + 1;
    }
    assert(a@ =~= b@);
    true
}

/// `x + 1`, wrapping as the kernel's counters do.
pub open spec fn bump(x: u64) -> u64 {
    vstd::wrapping::u64_specs::wrapping_add(x, 1)
}

/// No two entries of the routing table have the same source identifier.
pub open spec fn routes_distinct(r: Seq<(SourceKey, SourceRoute)>) -> bool {
    forall|i: int, j: int|
        0 <= i < r.len() && 0 <= j < r.len() && i != j ==> r[i].0.source_id@ != r[j].0.source_id@
}

/// No two entries of the statistics table have the same address.
pub open spec fn ips_distinct(s: Seq<(u32, IpStats)>) -> bool {
    forall|i: int, j: int| 0 <= i < s.len() && 0 <= j < s.len() && i != j ==> s[i].0 != s[j].0
}

/// The routing table has an entry for `key`.
pub open spec fn has_route(r: Seq<(SourceKey, SourceRoute)>, key: Seq<u8>) -> bool {
    exists|i: int| 0 <= i < r.len() && r[i].0.source_id@ == key
}

/// Position of the entry for `key` (meaningful where [`has_route`] holds).
pub open spec fn route_index(r: Seq<(SourceKey, SourceRoute)>, key: Seq<u8>) -> int {
    choose|i: int| 0 <= i < r.len() && r[i].0.source_id@ == key
}

/// The route stored for `key`, if any.
pub open spec fn lookup_route(r: Seq<(SourceKey, SourceRoute)>, key: Seq<u8>) -> Option<
    SourceRoute,
> {
    if has_route(r, key) {
        Some(r[route_index(r, key)].1)
    } else {
        None
    }
}

/// The routing table with `route` stored under `key`: the key's entry is
/// replaced in place, or a new entry is appended.
pub open spec fn route_put(r: Seq<(SourceKey, SourceRoute)>, key: SourceKey, route: SourceRoute) -> Seq<
    (SourceKey, SourceRoute),
> {
    if has_route(r, key.source_id@) {
        r.update(route_index(r, key.source_id@), (key, route))
    } else {
        r.push((key, route))
    }
}

/// Storing a route under a key keeps the keys distinct, makes the key look up
/// to that route, and leaves every other key's lookup as it was.
pub proof fn lemma_route_put(r: Seq<(SourceKey, SourceRoute)>, key: SourceKey, route: SourceRoute)
    requires
        routes_distinct(r),
    ensures
        routes_distinct(route_put(r, key, route)),
        route_put(r, key, route).len() == if has_route(r, key.source_id@) {
            r.len()
        } else {
            r.len() + 1
        },
        lookup_route(route_put(r, key, route), key.source_id@) == Some(route),
        forall|q: Seq<u8>|
            q != key.source_id@ ==> lookup_route(route_put(r, key, route), q) == lookup_route(r, q),
{
    let k = key.source_id@;
    let r2 = route_put(r, key, route);
    let i = if has_route(r, k) {
        route_index(r, k)
    } else {
        r.len() as int
    };
    assert(r2[i].0.source_id@ == k);
    assert(forall|j: int| 0 <= j < r2.len() && j != i ==> r2[j] == r[j]);
    assert(has_route(r2, k));
    assert(route_index(r2, k) == i) by {
        let j = route_index(r2, k);
        if j != i {
            assert(r[j].0.source_id@ == k);
        }
    }
    assert forall|q: Seq<u8>| q != k implies lookup_route(r2, q) == lookup_route(r, q) by {
        if has_route(r, q) {
            let j = route_index(r, q);
            assert(r2[j].0.source_id@ == q);
            assert(has_route(r2, q));
            let j2 = route_index(r2, q);
            assert(j2 == j) by {
                if j2 != j {
                    assert(r[j2].0.source_id@ == q);
                }
            }
        }
        if has_route(r2, q) {
            let j2 = route_index(r2, q);
            assert(r[j2].0.source_id@ == q);
        }
    }
}

/// Queue chosen for the shreds of `key` (queue 0 for an unknown source), and
/// the table after counting the packet against the source's route.
pub open spec fn route_source_spec(r: Seq<(SourceKey, SourceRoute)>, key: Seq<u8>) -> (
    u32,
    Seq<(SourceKey, SourceRoute)>,
) {
    match lookup_route(r, key) {
        Some(route) => (
            route.queue_id,
            route_put(
                r,
                r[route_index(r, key)].0,
                SourceRoute { queue_id: route.queue_id, packet_count: bump(route.packet_count) },
            ),
        ),
        None => (0, r),
    }
}

/// A socket is bound at queue slot `q` of the redirect map.
pub open spec fn xsk_bound(xsk: Seq<bool>, q: u32) -> bool {
    q < xsk.len() && xsk[q as int]
}

/// The statistics table has an entry for `addr`.
pub open spec fn has_ip(s: Seq<(u32, IpStats)>, addr: u32) -> bool {
    exists|i: int| 0 <= i < s.len() && s[i].0 == addr
}

/// Position of the entry for `addr` (meaningful where [`has_ip`] holds).
pub open spec fn ip_index(s: Seq<(u32, IpStats)>, addr: u32) -> int {
    choose|i: int| 0 <= i < s.len() && s[i].0 == addr
}

/// The statistics stored for `addr`, if any.
pub open spec fn lookup_ip(s: Seq<(u32, IpStats)>, addr: u32) -> Option<IpStats> {
    if has_ip(s, addr) {
        Some(s[ip_index(s, addr)].1)
    } else {
        None
    }
}

/// The statistics table with `st` stored for `addr`: the address's entry is
/// replaced in place, or a new entry is appended.
pub open spec fn ip_put(s: Seq<(u32, IpStats)>, addr: u32, st: IpStats) -> Seq<(u32, IpStats)> {
    if has_ip(s, addr) {
        s.update(ip_index(s, addr), (addr, st))
    } else {
        s.push((addr, st))
    }
}

/// Storing statistics for an address keeps the addresses distinct, makes the
/// address look up to them, and leaves every other address's lookup as it was.
pub proof fn lemma_ip_put(s: Seq<(u32, IpStats)>, addr: u32, st: IpStats)
    requires
        ips_distinct(s),
    ensures
        ips_distinct(ip_put(s, addr, st)),
        lookup_ip(ip_put(s, addr, st), addr) == Some(st),
        forall|a: u32| a != addr ==> lookup_ip(ip_put(s, addr, st), a) == lookup_ip(s, a),
{
    let s2 = ip_put(s, addr, st);
    let i = if has_ip(s, addr) {
        ip_index(s, addr)
    } else {
        s.len() as int
    };
    assert(s2[i].0 == addr);
    assert(forall|j: int| 0 <= j < s2.len() && j != i ==> s2[j] == s[j]);
    assert(has_ip(s2, addr));
    assert(ip_index(s2, addr) == i) by {
        let j = ip_index(s2, addr);
        if j != i {
            assert(s[j].0 == addr);
        }
    }
    assert forall|a: u32| a != addr implies lookup_ip(s2, a) == lookup_ip(s, a) by {
        if has_ip(s, a) {
            let j = ip_index(s, a);
            assert(s2[j].0 == a);
            assert(has_ip(s2, a));
            let j2 = ip_index(s2, a);
            assert(j2 == j) by {
                if j2 != j {
                    assert(s[j2].0 == a);
                }
            }
        }
        if has_ip(s2, a) {
            let j2 = ip_index(s2, a);
            assert(s[j2].0 == a);
        }
    }
}

/// Statistics of an address not seen before.
pub open spec fn fresh_stats() -> IpStats {
    IpStats { packets: 0, bytes: 0, drops: 0, redirects: 0, last_seen_ns: 0 }
}

/// Statistics after one more packet of `len` bytes with verdict `act` at time `now`.
pub open spec fn recorded_stats(st: IpStats, len: u64, act: u32, now: u64) -> IpStats {
    IpStats {
        packets: bump(st.packets),
        bytes: vstd::wrapping::u64_specs::wrapping_add(st.bytes, len),
        drops: if act == action::DROP {
            bump(st.drops)
        } else {
            st.drops
        },
        redirects: if act == action::REDIRECT {
            bump(st.redirects)
        } else {
            st.redirects
        },
        last_seen_ns: now,
    }
}

/// The statistics table after recording one packet from `addr`.
pub open spec fn record_ip_spec(
    s: Seq<(u32, IpStats)>,
    addr: u32,
    len: u64,
    act: u32,
    now: u64,
) -> Seq<(u32, IpStats)> {
    ip_put(
        s,
        addr,
        recorded_stats(
            match lookup_ip(s, addr) {
                Some(st) => st,
                None => fresh_stats(),
            },
            len,
            act,
            now,
        ),
    )
}

/// One more count on CPU `cpu` of a per-CPU counter.
pub open spec fn bump_cpu(counter: Seq<u64>, cpu: u32) -> Seq<u64> {
    counter.update(cpu as int, bump(counter[cpu as int]))
}

/// The kernel maps of the router: the routing table, the socket redirect map,
/// the per-CPU drop counter, the per-CPU drop counters of each reason
/// (indexed by reason, then CPU) and the per-address statistics.
pub struct RouterState {
    pub routes: Vec<(SourceKey, SourceRoute)>,
    pub xsk_slots: Vec<bool>,
    pub drop_counter: Vec<u64>,
    pub drop_reasons: Vec<Vec<u64>>,
    pub ip_stats: Vec<(u32, IpStats)>,
}

/// Mathematical model of a [`RouterState`].
#[verifier::ext_equal]
pub struct RouterStateView {
    pub routes: Seq<(SourceKey, SourceRoute)>,
    pub xsk_slots: Seq<bool>,
    pub drop_counter: Seq<u64>,
    pub drop_reasons: Seq<Seq<u64>>,
    pub ip_stats: Seq<(u32, IpStats)>,
}

impl View for RouterState {
    type V = RouterStateView;

    open spec fn view(&self) -> RouterStateView {
        RouterStateView {
            routes: self.routes@,
            xsk_slots: self.xsk_slots@,
            drop_counter: self.drop_counter@,
            drop_reasons: self.drop_reasons@.map_values(|v: Vec<u64>| v@),
            ip_stats: self.ip_stats@,
        }
    }
}

impl RouterStateView {
    /// Number of CPUs the per-CPU counters have a slot for.
    pub open spec fn cpus(self) -> nat {
        self.drop_counter.len()
    }

    /// The shape the kernel maps were declared with, and unique keys.
    pub open spec fn wf(self) -> bool {
        &&& self.routes.len() <= 1024
        &&& routes_distinct(self.routes)
        &&& self.xsk_slots.len() == 64
        &&& self.drop_reasons.len() == drop_reason::COUNT
        &&& forall|r: int| 0 <= r < self.drop_reasons.len() ==> #[trigger] self.drop_reasons[r].len() == self.cpus()
        &&& ips_distinct(self.ip_stats)
    }
}

/// One packet processed on CPU `cpu` at time `now`: the maps afterwards, the
/// verdict, and the log record, if any.
pub open spec fn router_step(s: RouterStateView, packet: Seq<u8>, cpu: u32, now: u64) -> (
    RouterStateView,
    u32,
    Option<PacketLogEntryView>,
) {
    let len = packet.len() as u64;
    match classify(packet) {
        PacketClassView::Malformed => (s, action::ABORTED, None),
        PacketClassView::NotShred => (s, action::PASS, None),
        PacketClassView::MissingShred(meta) => (
            RouterStateView {
                drop_counter: bump_cpu(s.drop_counter, cpu),
                drop_reasons: s.drop_reasons.update(
                    drop_reason::MISSING_SHRED as int,
                    bump_cpu(s.drop_reasons[drop_reason::MISSING_SHRED as int], cpu),
                ),
                ip_stats: record_ip_spec(s.ip_stats, meta.src_ip, len, action::DROP, now),
                ..s
            },
            action::DROP,
            Some(missing_shred_log_entry(packet, cpu, meta)),
        ),
        PacketClassView::BadVersion(meta, h) => (
            RouterStateView {
                drop_counter: bump_cpu(s.drop_counter, cpu),
                ip_stats: record_ip_spec(s.ip_stats, meta.src_ip, len, action::DROP, now),
                ..s
            },
            action::DROP,
            Some(header_log_entry(packet, action::DROP, cpu, meta, h)),
        ),
        PacketClassView::Shred(meta, h) => {
            let (queue, routes) = route_source_spec(s.routes, h.source_id);
            let act = if xsk_bound(s.xsk_slots, queue) {
                action::REDIRECT
            } else {
                action::PASS
            };
            (
                RouterStateView {
                    routes,
                    ip_stats: record_ip_spec(s.ip_stats, meta.src_ip, len, act, now),
                    ..s
                },
                act,
                Some(header_log_entry(packet, act, cpu, meta, h)),
            )
        },
    }
}

/// View of an optional log record.
pub open spec fn log_view(e: Option<PacketLogEntry>) -> Option<PacketLogEntryView> {
    match e {
        Some(e) => Some(e@),
        None => None,
    }
}

/// `n` zero counters.
fn zeros(n: usize) -> (v: Vec<u64>)
    ensures
        v@ == Seq::new(n as nat, |i: int| 0u64),
{
    let mut v: Vec<u64> = Vec::new();
    let mut i: usize = 0;
    while i < n
        invariant
            i <= n,
            v@ == Seq::new(i as nat, |j: int| 0u64),
        decreases n - i,
    {
        v.push(0u64);
        i = i + 1;
        assert(v@ =~= Seq::new(i as nat, |j: int| 0u64));
    }
    v
}

impl RouterState {
    /// Empty maps for a machine with `cpus` CPUs: no routes, no bound sockets,
    /// all counters zero.
    pub fn new(cpus: usize) -> (r: RouterState)
        ensures
            r@.wf(),
            r@.cpus() == cpus,
            r@.routes.len() == 0,
            r@.ip_stats.len() == 0,
            r@.drop_counter == Seq::new(cpus as nat, |i: int| 0u64),
            r@.xsk_slots == Seq::new(64, |i: int| false),
            r@.drop_reasons == Seq::new(
                drop_reason::COUNT as nat,
                |i: int| Seq::new(cpus as nat, |j: int| 0u64),
            ),
    {
        let mut xsk_slots: Vec<bool> = Vec::new();
        let mut i: usize = 0;
        while i < XSK_SLOTS
            invariant
                i <= 64,
                xsk_slots@ == Seq::new(i as nat, |j: int| false),
            decreases 64 - i,
        {
            xsk_slots.push(false);
            i = i + 1;
            assert(xsk_slots@ =~= Seq::new(i as nat, |j: int| false));
        }
        let mut drop_reasons: Vec<Vec<u64>> = Vec::new();
        let mut k: u32 = 0;
        while k < drop_reason::COUNT
            invariant
                k <= drop_reason::COUNT,
                drop_reasons@.len() == k,
                forall|j: int| 0 <= j < k ==> #[trigger] drop_reasons@[j]@ == Seq::new(cpus as nat, |c: int| 0u64),
            decreases drop_reason::COUNT - k,
        {
            drop_reasons.push(zeros(cpus));
            k = k + 1;
        }
        let r = RouterState {
            routes: Vec::new(),
            xsk_slots,
            drop_counter: zeros(cpus),
            drop_reasons,
            ip_stats: Vec::new(),
        };
        assert(r@.drop_reasons =~= Seq::new(
            drop_reason::COUNT as nat,
            |i: int| Seq::new(cpus as nat, |j: int| 0u64),
        ));
        r
    }

    /// Position of the routing entry for `source_id`, if there is one.
    pub fn find_route(&self, source_id: &[u8; 32]) -> (r: Option<usize>)
        requires
            self@.wf(),
        ensures
            r is Some <==> has_route(self@.routes, source_id@),
            r matches Some(i) ==> i == route_index(self@.routes, source_id@),
    {
        let mut i: usize = 0;
        while i < self.routes.len()
            invariant
                self@.wf(),
                i <= self.routes@.len(),
                forall|j: int| 0 <= j < i ==> self.routes@[j].0.source_id@ != source_id@,
            decreases self.routes@.len() - i,
        {
            if source_ids_equal(&self.routes[i].0.source_id, source_id) {
                assert(has_route(self@.routes, source_id@));
                let ghost k = route_index(self@.routes, source_id@);
                assert(k == i as int) by {
                    if k != i as int {
                        assert(self.routes@[k].0.source_id@ == self.routes@[i as int].0.source_id@);
                    }
                }
                return Some(i);
            }
            i = i + 1;
        }
        None
    }

    /// The route stored for `key`, if any.
    pub fn route(&self, key: &SourceKey) -> (r: Option<SourceRoute>)
        requires
            self@.wf(),
        ensures
            r == lookup_route(self@.routes, key.source_id@),
    {
        match self.find_route(&key.source_id) {
            Some(i) => Some(self.routes[i].1),
            None => None,
        }
    }

    /// Stores a route (replacing the one stored for the same key); where the
    /// table is full and has no entry for the key, nothing is stored and the
    /// result is `false`.
    pub fn insert_route(&mut self, key: SourceKey, route: SourceRoute) -> (stored: bool)
        requires
            old(self)@.wf(),
        ensures
            final(self)@.wf(),
            stored == (has_route(old(self)@.routes, key.source_id@) || old(self)@.routes.len()
                < 1024),
            final(self)@ == (if stored {
                RouterStateView { routes: route_put(old(self)@.routes, key, route), ..old(self)@ }
            } else {
                old(self)@
            }),
    {
        proof {
            lemma_route_put(self@.routes, key, route);
        }
        match self.find_route(&key.source_id) {
            Some(i) => {
                self.routes.set(i, (key, route));
            },
            None => {
                if self.routes.len() >= ROUTING_TABLE_CAPACITY {
                    return false;
                }
                self.routes.push((key, route));
            },
        }
        assert(self@ =~= RouterStateView {
            routes: route_put(old(self)@.routes, key, route),
            ..old(self)@
        });
        true
    }

    /// Binds a socket at queue slot `queue_id` of the redirect map; slots past
    /// the map's size are refused with `false`.
    pub fn bind_xsk(&mut self, queue_id: u32) -> (stored: bool)
        requires
            old(self)@.wf(),
        ensures
            final(self)@.wf(),
            stored == (queue_id < 64),
            final(self)@ == (if stored {
                RouterStateView {
                    xsk_slots: old(self)@.xsk_slots.update(queue_id as int, true),
                    ..old(self)@
                }
            } else {
                old(self)@
            }),
    {
        if (queue_id as usize) < XSK_SLOTS {
            self.xsk_slots.set(queue_id as usize, true);
            assert(self@ =~= RouterStateView {
                xsk_slots: old(self)@.xsk_slots.update(queue_id as int, true),
                ..old(self)@
            });
            true
        } else {
            false
        }
    }

    /// Counts one more drop on CPU `cpu`.
    pub fn increment_drop_counter(&mut self, cpu: u32)
        requires
            old(self)@.wf(),
            cpu < old(self)@.cpus(),
        ensures
            final(self)@ == (RouterStateView {
                drop_counter: bump_cpu(old(self)@.drop_counter, cpu),
                ..old(self)@
            }),
    {
        let c = cpu as usize;
        let v = self.drop_counter[c].wrapping_add(1);
        self.drop_counter.set(c, v);
        assert(self@ =~= RouterStateView {
            drop_counter: bump_cpu(old(self)@.drop_counter, cpu),
            ..old(self)@
        });
    }

    /// Counts one more drop for `reason` on CPU `cpu`.
    pub fn increment_drop_reason(&mut self, reason: u32, cpu: u32)
        requires
            old(self)@.wf(),
            reason < drop_reason::COUNT,
            cpu < old(self)@.cpus(),
        ensures
            final(self)@ == (RouterStateView {
                drop_reasons: old(self)@.drop_reasons.update(
                    reason as int,
                    bump_cpu(old(self)@.drop_reasons[reason as int], cpu),
                ),
                ..old(self)@
            }),
    {
        let r = reason as usize;
        let c = cpu as usize;
        assert(self@.drop_reasons[r as int].len() == self@.cpus());
        let mut counts = self.drop_reasons.remove(r);
        let v = counts[c].wrapping_add(1);
        counts.set(c, v);
        self.drop_reasons.insert(r, counts);
        assert(self@.drop_reasons =~= old(self)@.drop_reasons.update(
            reason as int,
            bump_cpu(old(self)@.drop_reasons[reason as int], cpu),
        ));
        assert(self@ =~= RouterStateView {
            drop_reasons: old(self)@.drop_reasons.update(
                reason as int,
                bump_cpu(old(self)@.drop_reasons[reason as int], cpu),
            ),
            ..old(self)@
        });
    }

    /// Records one packet of `len` bytes from `addr` with verdict `act` at time `now`.
    pub fn record_ip(&mut self, addr: u32, len: u64, act: u32, now: u64)
        requires
            old(self)@.wf(),
        ensures
            final(self)@ == (RouterStateView {
                ip_stats: record_ip_spec(old(self)@.ip_stats, addr, len, act, now),
                ..old(self)@
            }),
    {
        let ghost s0 = self.ip_stats@;
        let mut i: usize = 0;
        while i < self.ip_stats.len()
            invariant
                self@ == old(self)@,
                self.ip_stats@ == s0,
                ips_distinct(s0),
                i <= s0.len(),
                forall|j: int| 0 <= j < i ==> s0[j].0 != addr,
            decreases s0.len() - i,
        {
            if self.ip_stats[i].0 == addr {
                assert(has_ip(s0, addr));
                let ghost k = ip_index(s0, addr);
                assert(k == i as int) by {
                    if k != i as int {
                        assert(s0[k].0 == s0[i as int].0);
                    }
                }
                let st = self.ip_stats[i].1;
                let updated = IpStats {
                    packets: st.packets.wrapping_add(1),
                    bytes: st.bytes.wrapping_add(len),
                    drops: if act == action::DROP {
                        st.drops.wrapping_add(1)
                    } else {
                        st.drops
                    },
                    redirects: if act == action::REDIRECT {
                        st.redirects.wrapping_add(1)
                    } else {
                        st.redirects
                    },
                    last_seen_ns: now,
                };
                self.ip_stats.set(i, (addr, updated));
                assert(self.ip_stats@ =~= record_ip_spec(s0, addr, len, act, now));
                assert(self@ =~= RouterStateView {
                    ip_stats: record_ip_spec(s0, addr, len, act, now),
                    ..old(self)@
                });
                return ;
            }
            i = i + 1;
        }
        let st = IpStats {
            packets: 1,
            bytes: 0u64.wrapping_add(len),
            drops: if act == action::DROP {
                1
            } else {
                0
            },
            redirects: if act == action::REDIRECT {
                1
            } else {
                0
            },
            last_seen_ns: now,
        };
        self.ip_stats.push((addr, st));
        assert(!has_ip(s0, addr));
        assert(self.ip_stats@ =~= record_ip_spec(s0, addr, len, act, now));
        assert(self@ =~= RouterStateView {
            ip_stats: record_ip_spec(s0, addr, len, act, now),
            ..old(self)@
        });
    }

    /// Looks up the route of a shred source and counts the packet against it;
    /// returns the route's queue, or queue 0 for an unknown source.
    pub fn route_source(&mut self, source_id: &[u8; 32]) -> (queue_id: u32)
        requires
            old(self)@.wf(),
        ensures
            (queue_id, final(self)@.routes) == route_source_spec(old(self)@.routes, source_id@),
            final(self)@ == (RouterStateView { routes: final(self)@.routes, ..old(self)@ }),
    {
        match self.find_route(source_id) {
            Some(i) => {
                let (key, route) = self.routes[i];
                let updated = SourceRoute {
                    queue_id: route.queue_id,
                    packet_count: route.packet_count.wrapping_add(1),
                };
                self.routes.set(i, (key, updated));
                assert(key.source_id@ == source_id@);
                assert(self.routes@ =~= route_source_spec(old(self)@.routes, source_id@).1);
                assert(self@ =~= RouterStateView { routes: self@.routes, ..old(self)@ });
                route.queue_id
            },
            None => {
                assert(self@ =~= RouterStateView { routes: self@.routes, ..old(self)@ });
                0
            },
        }
    }

    /// Verdict of redirecting to the socket at queue slot `queue_id`: a redirect
    /// where a socket is bound there, the packet passes on otherwise.
    pub fn redirect_action(&self, queue_id: u32) -> (act: u32)
        requires
            self@.wf(),
        ensures
            act == (if xsk_bound(self@.xsk_slots, queue_id) {
                action::REDIRECT
            } else {
                action::PASS
            }),
    {
        if (queue_id as usize) < XSK_SLOTS && self.xsk_slots[queue_id as usize] {
            action::REDIRECT
        } else {
            action::PASS
        }
    }

    /// Processes one frame on CPU `cpu` at time `now_ns`: `Err` for a frame
    /// whose Ethernet or IPv4 header is cut short, otherwise the verdict and,
    /// for a shred-port packet, its log record. Drops, routes and telemetry are
    /// recorded in the maps.
    pub fn try_pshred_router(&mut self, packet: &[u8], cpu: u32, now_ns: u64) -> (r: Result<
        (u32, Option<PacketLogEntry>),
        (),
    >)
        requires
            old(self)@.wf(),
            cpu < old(self)@.cpus(),
        ensures
            final(self)@.wf(),
            final(self)@.cpus() == old(self)@.cpus(),
            r is Err <==> classify(packet@) == PacketClassView::Malformed,
            r matches Ok((act, log)) ==> (final(self)@, act, log_view(log)) == router_step(
                old(self)@,
                packet@,
                cpu,
                now_ns,
            ),
            r is Err ==> final(self)@ == old(self)@,
    {
        let len = packet.len() as u64;
        match classify_packet(packet) {
            PacketClass::Malformed => Err(()),
            PacketClass::NotShred => Ok((action::PASS, None)),
            PacketClass::MissingShred(meta) => {
                proof {
                    lemma_ip_put(
                        self@.ip_stats,
                        meta.src_ip,
                        recorded_stats(
                            match lookup_ip(self@.ip_stats, meta.src_ip) {
                                Some(st) => st,
                                None => fresh_stats(),
                            },
                            len,
                            action::DROP,
                            now_ns,
                        ),
                    );
                }
                self.increment_drop_counter(cpu);
                self.increment_drop_reason(drop_reason::MISSING_SHRED, cpu);
                self.record_ip(meta.src_ip, len, action::DROP, now_ns);
                let e = log_packet(
                    packet,
                    action::DROP,
                    drop_reason::MISSING_SHRED,
                    cpu,
                    meta,
                    0,
                    0,
                    0,
                    0,
                    0,
                    [0u8; 32],
                );
                assert(e@ =~= missing_shred_log_entry(packet@, cpu, meta));
                assert(self@ =~= router_step(old(self)@, packet@, cpu, now_ns).0);
                Ok((action::DROP, Some(e)))
            },
            PacketClass::BadVersion(meta, h) => {
                proof {
                    lemma_ip_put(
                        self@.ip_stats,
                        meta.src_ip,
                        recorded_stats(
                            match lookup_ip(self@.ip_stats, meta.src_ip) {
                                Some(st) => st,
                                None => fresh_stats(),
                            },
                            len,
                            action::DROP,
                            now_ns,
                        ),
                    );
                }
                self.increment_drop_counter(cpu);
                self.record_ip(meta.src_ip, len, action::DROP, now_ns);
                let e = log_packet(
                    packet,
                    action::DROP,
                    drop_reason::NONE,
                    cpu,
                    meta,
                    h.version,
                    h.flags,
                    h.slot,
                    h.shred_index,
                    h.shred_count,
                    h.source_id,
                );
                assert(self@ =~= router_step(old(self)@, packet@, cpu, now_ns).0);
                Ok((action::DROP, Some(e)))
            },
            PacketClass::Shred(meta, h) => {
                proof {
                    if has_route(self@.routes, h.source_id@) {
                        let i = route_index(self@.routes, h.source_id@);
                        let route = self@.routes[i].1;
                        lemma_route_put(
                            self@.routes,
                            self@.routes[i].0,
                            SourceRoute {
                                queue_id: route.queue_id,
                                packet_count: bump(route.packet_count),
                            },
                        );
                    }
                }
                let queue_id = self.route_source(&h.source_id);
                let act = self.redirect_action(queue_id);
                proof {
                    lemma_ip_put(
                        self@.ip_stats,
                        meta.src_ip,
                        recorded_stats(
                            match lookup_ip(self@.ip_stats, meta.src_ip) {
                                Some(st) => st,
                                None => fresh_stats(),
                            },
                            len,
                            act,
                            now_ns,
                        ),
                    );
                }
                self.record_ip(meta.src_ip, len, act, now_ns);
                let e = log_packet(
                    packet,
                    act,
                    drop_reason::NONE,
                    cpu,
                    meta,
                    h.version,
                    h.flags,
                    h.slot,
                    h.shred_index,
                    h.shred_count,
                    h.source_id,
                );
                assert(self@ =~= router_step(old(self)@, packet@, cpu, now_ns).0);
                Ok((act, Some(e)))
            },
        }
    }

    /// The program's entry point for one frame processed on CPU `cpu` at time
    /// `now_ns`: the verdict (an abort where the frame is malformed) and, for a
    /// shred-port packet, its log record.
    pub fn svm_xdp_packet_router(&mut self, packet: &[u8], cpu: u32, now_ns: u64) -> (r: (
        u32,
        Option<PacketLogEntry>,
    ))
        requires
            old(self)@.wf(),
            cpu < old(self)@.cpus(),
        ensures
            final(self)@.wf(),
            final(self)@.cpus() == old(self)@.cpus(),
            (final(self)@, r.0, log_view(r.1)) == router_step(old(self)@, packet@, cpu, now_ns),
    {
        match self.try_pshred_router(packet, cpu, now_ns) {
            Ok(r) => r,
            Err(_) => (action::ABORTED, None),
        }
    }
}

} // verus!
