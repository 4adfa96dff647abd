//! Records shared by the kernel program and the userspace loader: the shred
//! header carried in UDP payloads, the packet log entry, and the routing and
//! per-address statistics records.

use vstd::prelude::*;

use crate::codec::{
    be_bytes_u16, be_bytes_u32, be_bytes_u64, be_u16, be_u32, be_u64, le_bytes_u16, le_bytes_u32,
    le_bytes_u64, le_u16, le_u32, le_u64, lemma_be_u16_roundtrip, lemma_be_u32_roundtrip,
    lemma_be_u64_roundtrip, lemma_le_u16_roundtrip, lemma_le_u32_roundtrip, lemma_le_u64_roundtrip,
    push_be_u16, push_be_u32, push_be_u64, push_le_u16, push_le_u32, push_le_u64, read_be_u16,
    read_be_u32, read_be_u64, read_le_u16, read_le_u32, read_le_u64,
};

verus! {

/// Header at the start of a shred payload. Multi-byte fields travel in network
/// (big-endian) order; a `PshredHeader` holds them in host order.
#[derive(Clone, Copy, Debug)]
pub struct PshredHeader {
    pub version: u8,
    pub flags: u8,
    pub payload_len: u16,
    pub slot: u64,
    pub shred_index: u32,
    pub shred_count: u32,
    pub source_id: [u8; 32],
}

/// Mathematical model of a [`PshredHeader`].
#[verifier::ext_equal]
pub struct PshredHeaderView {
    pub version: u8,
    pub flags: u8,
    pub payload_len: u16,
    pub slot: u64,
    pub shred_index: u32,
    pub shred_count: u32,
    pub source_id: Seq<u8>,
}

impl View for PshredHeader {
    type V = PshredHeaderView;

    open spec fn view(&self) -> PshredHeaderView {
        PshredHeaderView {
            version: self.version,
            flags: self.flags,
            payload_len: self.payload_len,
            slot: self.slot,
            shred_index: self.shred_index,
            shred_count: self.shred_count,
            source_id: self.source_id@,
        }
    }
}

/// Offsets of the header fields within the wire form.
pub const PSHRED_PAYLOAD_LEN_OFFSET: usize = 2;

pub const PSHRED_SLOT_OFFSET: usize = 8;

pub const PSHRED_SHRED_INDEX_OFFSET: usize = 16;

pub const PSHRED_SHRED_COUNT_OFFSET: usize = 20;

pub const PSHRED_SOURCE_ID_OFFSET: usize = 24;

/// The header that the wire bytes `b[off..off + 56]` describe.
pub open spec fn pshred_header_at(b: Seq<u8>, off: int) -> PshredHeaderView {
    PshredHeaderView {
        version: b[off],
        flags: b[off + 1],
        payload_len: be_u16(b, off + 2),
        slot: be_u64(b, off + 8),
        shred_index: be_u32(b, off + 16),
        shred_count: be_u32(b, off + 20),
        source_id: b.subrange(off + 24, off + 56),
    }
}

/// The wire form of a header (padding bytes are zero).
pub open spec fn pshred_header_bytes(h: PshredHeaderView) -> Seq<u8> {
    seq![h.version, h.flags] + be_bytes_u16(h.payload_len) + seq![0u8, 0u8, 0u8, 0u8]
        + be_bytes_u64(h.slot) + be_bytes_u32(h.shred_index) + be_bytes_u32(h.shred_count)
        + h.source_id
}

impl PshredHeader {
    /// Wire size of a header: two single bytes, the payload length, four bytes
    /// of alignment padding, the slot, the index, the count and the source id.
    pub const SIZE: usize = 56;

    pub const MAGIC_VERSION: u8 = 0x01;

    pub const FLAG_CODING: u8 = 0b0000_0001;

    pub const FLAG_LAST: u8 = 0b0000_0010;

    pub const FLAG_SIGNED: u8 = 0b0000_0100;

    /// Reads the header that starts at `off`, or `None` where fewer than
    /// [`PshredHeader::SIZE`] bytes remain.
    pub fn read_at(b: &[u8], off: usize) -> (r: Option<PshredHeader>)
        ensures
            r is None <==> off + 56 > b@.len(),
            r matches Some(h) ==> h@ == pshred_header_at(b@, off as int),
    {
        if off > b.len() || b.len() - off < Self::SIZE {
            return None;
        }
        let source_id = copy_array_32(b, off + PSHRED_SOURCE_ID_OFFSET);
        let h = PshredHeader {
            version: b[off],
            flags: b[off + 1],
            payload_len: read_be_u16(b, off + PSHRED_PAYLOAD_LEN_OFFSET),
            slot: read_be_u64(b, off + PSHRED_SLOT_OFFSET),
            shred_index: read_be_u32(b, off + PSHRED_SHRED_INDEX_OFFSET),
            shred_count: read_be_u32(b, off + PSHRED_SHRED_COUNT_OFFSET),
            source_id,
        };
        Some(h)
    }

    /// The wire form of this header.
    pub fn to_bytes(&self) -> (r: Vec<u8>)
        ensures
            r@ == pshred_header_bytes(self@),
    {
        let mut out: Vec<u8> = Vec::new();
        out.push(self.version);
        out.push(self.flags);
        push_be_u16(&mut out, self.payload_len);
        out.push(0u8);
        out.push(0u8);
        out.push(0u8);
        out.push(0u8);
        push_be_u64(&mut out, self.slot);
        push_be_u32(&mut out, self.shred_index);
        push_be_u32(&mut out, self.shred_count);
        push_bytes(&mut out, &self.source_id);
        assert(out@ =~= pshred_header_bytes(self@));
        out
    }
}

/// Copies `b[off..off + 32]` into an array.
pub fn copy_array_32(b: &[u8], off: usize) -> (r: [u8; 32])
    requires
        off + 32 <= b@.len(),
    ensures
        r@ == b@.subrange(off as int, off + 32),
{
    let mut r = [0u8; 32];
    let n = b.len();
    let mut i: usize = 0;
    while i < 32
        invariant
            i <= 32,
            n == b@.len(),
            off + 32 <= b@.len(),
            r@.len() == 32,
            forall|j: int| 0 <= j < i ==> r@[j] == b@[off + j],
        decreases 32 - i,
    {
        r[i] = b[off + i];
        i = i + 1;
    }
    assert(r@ =~= b@.subrange(off as int, off + 32));
    r
}

/// Appends every byte of `src`.
pub fn push_bytes(out: &mut Vec<u8>, src: &[u8])
    ensures
        final(out)@ == old(out)@ + src@,
{
    let mut i: usize = 0;
    while i < src.len()
        invariant
            i <= src@.len(),
            out@ == old(out)@ + src@.subrange(0, i as int),
        decreases src@.len() - i,
    {
        out.push(src[i]);
        i = i + 1;
        assert(out@ =~= old(out)@ + src@.subrange(0, i as int));
    }
    assert(src@.subrange(0, src@.len() as int) =~= src@);
}

/// Copies `b[off..off + 128]` into an array.
pub fn copy_array_128(b: &[u8], off: usize) -> (r: [u8; 128])
    requires
        off + 128 <= b@.len(),
    ensures
        r@ == b@.subrange(off as int, off + 128),
{
    let mut r = [0u8; 128];
    let n = b.len();
    let mut i: usize = 0;
    while i < 128
        invariant
            i <= 128,
            n == b@.len(),
            off + 128 <= b@.len(),
            r@.len() == 128,
            forall|j: int| 0 <= j < i ==> r@[j] == b@[off + j],
        decreases 128 - i,
    {
        r[i] = b[off + i];
        i = i + 1;
    }
    assert(r@ =~= b@.subrange(off as int, off + 128));
    r
}

/// Reading a header back from its wire form, whatever follows it, gives the
/// header.
pub proof fn lemma_pshred_header_roundtrip(h: PshredHeaderView, rest: Seq<u8>)
    requires
        h.source_id.len() == 32,
    ensures
        pshred_header_at(pshred_header_bytes(h) + rest, 0) == h,
        pshred_header_bytes(h).len() == 56,
{
    let b = pshred_header_bytes(h) + rest;
    assert(b.subrange(2, 4) =~= be_bytes_u16(h.payload_len));
    assert(b.subrange(8, 16) =~= be_bytes_u64(h.slot));
    assert(b.subrange(16, 20) =~= be_bytes_u32(h.shred_index));
    assert(b.subrange(20, 24) =~= be_bytes_u32(h.shred_count));
    assert(b.subrange(24, 56) =~= h.source_id);
    lemma_be_u16_roundtrip(h.payload_len, b, 2);
    lemma_be_u64_roundtrip(h.slot, b, 8);
    lemma_be_u32_roundtrip(h.shred_index, b, 16);
    lemma_be_u32_roundtrip(h.shred_count, b, 20);
    assert(pshred_header_at(b, 0) =~= h);
}

/// One packet log record, as the kernel program emits it and the loader
/// prints it.
#[derive(Clone, Copy, Debug)]
pub struct PacketLogEntry {
    pub action: u32,
    pub drop_reason: u32,
    pub cpu: u32,
    pub src_ip: u32,
    pub packet_len: u32,
    pub src_port: u16,
    pub dst_port: u16,
    pub raw_len: u16,
    pub version: u8,
    pub flags: u8,
    pub slot: u64,
    pub shred_index: u32,
    pub shred_count: u32,
    pub source_id: [u8; 32],
    pub raw: [u8; 128],
}

/// Mathematical model of a [`PacketLogEntry`].
#[verifier::ext_equal]
pub struct PacketLogEntryView {
    pub action: u32,
    pub drop_reason: u32,
    pub cpu: u32,
    pub src_ip: u32,
    pub packet_len: u32,
    pub src_port: u16,
    pub dst_port: u16,
    pub raw_len: u16,
    pub version: u8,
    pub flags: u8,
    pub slot: u64,
    pub shred_index: u32,
    pub shred_count: u32,
    pub source_id: Seq<u8>,
    pub raw: Seq<u8>,
}

impl View for PacketLogEntry {
    type V = PacketLogEntryView;

    open spec fn view(&self) -> PacketLogEntryView {
        PacketLogEntryView {
            action: self.action,
            drop_reason: self.drop_reason,
            cpu: self.cpu,
            src_ip: self.src_ip,
            packet_len: self.packet_len,
            src_port: self.src_port,
            dst_port: self.dst_port,
            raw_len: self.raw_len,
            version: self.version,
            flags: self.flags,
            slot: self.slot,
            shred_index: self.shred_index,
            shred_count: self.shred_count,
            source_id: self.source_id@,
            raw: self.raw@,
        }
    }
}

/// Size of the in-memory record: its fields in declaration order, with four
/// bytes of padding before the slot to align it to eight bytes.
pub const PACKET_LOG_ENTRY_SIZE: usize = 208;

/// The record stored in memory at `b[0..208]` (little-endian integers).
pub open spec fn packet_log_entry_at(b: Seq<u8>) -> PacketLogEntryView {
    PacketLogEntryView {
        action: le_u32(b, 0),
        drop_reason: le_u32(b, 4),
        cpu: le_u32(b, 8),
        src_ip: le_u32(b, 12),
        packet_len: le_u32(b, 16),
        src_port: le_u16(b, 20),
        dst_port: le_u16(b, 22),
        raw_len: le_u16(b, 24),
        version: b[26],
        flags: b[27],
        slot: le_u64(b, 32),
        shred_index: le_u32(b, 40),
        shred_count: le_u32(b, 44),
        source_id: b.subrange(48, 80),
        raw: b.subrange(80, 208),
    }
}

/// The in-memory image of a record (padding bytes are zero).
pub open spec fn packet_log_entry_bytes(e: PacketLogEntryView) -> Seq<u8> {
    le_bytes_u32(e.action) + le_bytes_u32(e.drop_reason) + le_bytes_u32(e.cpu) + le_bytes_u32(
        e.src_ip,
    ) + le_bytes_u32(e.packet_len) + le_bytes_u16(e.src_port) + le_bytes_u16(e.dst_port)
        + le_bytes_u16(e.raw_len) + seq![e.version, e.flags] + seq![0u8, 0u8, 0u8, 0u8]
        + le_bytes_u64(e.slot) + le_bytes_u32(e.shred_index) + le_bytes_u32(e.shred_count)
        + e.source_id + e.raw
}

/// A record view that an actual [`PacketLogEntry`] can have.
pub open spec fn packet_log_entry_wf(e: PacketLogEntryView) -> bool {
    e.source_id.len() == 32 && e.raw.len() == 128
}

impl PacketLogEntry {
    pub const RAW_LEN: usize = 128;

    /// The in-memory image of this record, as the kernel program hands it to
    /// the perf event buffer.
    pub fn to_bytes(&self) -> (r: Vec<u8>)
        ensures
            r@ == packet_log_entry_bytes(self@),
    {
        let mut out: Vec<u8> = Vec::new();
        push_le_u32(&mut out, self.action);
        push_le_u32(&mut out, self.drop_reason);
        push_le_u32(&mut out, self.cpu);
        push_le_u32(&mut out, self.src_ip);
        push_le_u32(&mut out, self.packet_len);
        push_le_u16(&mut out, self.src_port);
        push_le_u16(&mut out, self.dst_port);
        push_le_u16(&mut out, self.raw_len);
        out.push(self.version);
        out.push(self.flags);
        out.push(0u8);
        out.push(0u8);
        out.push(0u8);
        out.push(0u8);
        push_le_u64(&mut out, self.slot);
        push_le_u32(&mut out, self.shred_index);
        push_le_u32(&mut out, self.shred_count);
        push_bytes(&mut out, &self.source_id);
        push_bytes(&mut out, &self.raw);
        assert(out@ =~= packet_log_entry_bytes(self@));
        out
    }

    /// Reads the record stored at the start of `b`; the caller guarantees that
    /// a whole record is present.
    pub fn read(b: &[u8]) -> (r: PacketLogEntry)
        requires
            b@.len() >= 208,
        ensures
            r@ == packet_log_entry_at(b@),
    {
        PacketLogEntry {
            action: read_le_u32(b, 0),
            drop_reason: read_le_u32(b, 4),
            cpu: read_le_u32(b, 8),
            src_ip: read_le_u32(b, 12),
            packet_len: read_le_u32(b, 16),
            src_port: read_le_u16(b, 20),
            dst_port: read_le_u16(b, 22),
            raw_len: read_le_u16(b, 24),
            version: b[26],
            flags: b[27],
            slot: read_le_u64(b, 32),
            shred_index: read_le_u32(b, 40),
            shred_count: read_le_u32(b, 44),
            source_id: copy_array_32(b, 48),
            raw: copy_array_128(b, 80),
        }
    }
}

/// Reading a record back from its in-memory image, whatever follows it, gives
/// the record.
pub proof fn lemma_packet_log_entry_roundtrip(e: PacketLogEntryView, rest: Seq<u8>)
    requires
        packet_log_entry_wf(e),
    ensures
        packet_log_entry_bytes(e).len() == 208,
        packet_log_entry_at(packet_log_entry_bytes(e) + rest) == e,
{
    let b = packet_log_entry_bytes(e) + rest;
    assert(b.subrange(0, 4) =~= le_bytes_u32(e.action));
    assert(b.subrange(4, 8) =~= le_bytes_u32(e.drop_reason));
    assert(b.subrange(8, 12) =~= le_bytes_u32(e.cpu));
    assert(b.subrange(12, 16) =~= le_bytes_u32(e.src_ip));
    assert(b.subrange(16, 20) =~= le_bytes_u32(e.packet_len));
    assert(b.subrange(20, 22) =~= le_bytes_u16(e.src_port));
    assert(b.subrange(22, 24) =~= le_bytes_u16(e.dst_port));
    assert(b.subrange(24, 26) =~= le_bytes_u16(e.raw_len));
    assert(b.subrange(32, 40) =~= le_bytes_u64(e.slot));
    assert(b.subrange(40, 44) =~= le_bytes_u32(e.shred_index));
    assert(b.subrange(44, 48) =~= le_bytes_u32(e.shred_count));
    assert(b.subrange(48, 80) =~= e.source_id);
    assert(b.subrange(80, 208) =~= e.raw);
    lemma_le_u32_roundtrip(e.action, b, 0);
    lemma_le_u32_roundtrip(e.drop_reason, b, 4);
    lemma_le_u32_roundtrip(e.cpu, b, 8);
    lemma_le_u32_roundtrip(e.src_ip, b, 12);
    lemma_le_u32_roundtrip(e.packet_len, b, 16);
    lemma_le_u16_roundtrip(e.src_port, b, 20);
    lemma_le_u16_roundtrip(e.dst_port, b, 22);
    lemma_le_u16_roundtrip(e.raw_len, b, 24);
    lemma_le_u64_roundtrip(e.slot, b, 32);
    lemma_le_u32_roundtrip(e.shred_index, b, 40);
    lemma_le_u32_roundtrip(e.shred_count, b, 44);
    assert(packet_log_entry_at(b) =~= e);
}

/// Where each field of a record sits in its 208-byte in-memory image: the
/// 32-bit fields `action`, `drop_reason`, `cpu`, `src_ip`, `packet_len` at
/// bytes 0, 4, 8, 12, 16; the 16-bit ports and capture length at 20, 22, 24;
/// version and flags at 26 and 27; four zero bytes; the slot at 32; index and
/// count at 40 and 44; the source id at 48..80 and the capture at 80..208; all
/// integers little-endian.
pub proof fn law_packet_log_layout(e: PacketLogEntryView)
    requires
        packet_log_entry_wf(e),
    ensures
        ({
            let b = packet_log_entry_bytes(e);
            &&& b.len() == 208
            &&& le_u32(b, 0) == e.action
            &&& le_u32(b, 4) == e.drop_reason
            &&& le_u32(b, 8) == e.cpu
            &&& le_u32(b, 12) == e.src_ip
            &&& le_u32(b, 16) == e.packet_len
            &&& le_u16(b, 20) == e.src_port
            &&& le_u16(b, 22) == e.dst_port
            &&& le_u16(b, 24) == e.raw_len
            &&& b[26] == e.version
            &&& b[27] == e.flags
            &&& b[28] == 0 && b[29] == 0 && b[30] == 0 && b[31] == 0
            &&& le_u64(b, 32) == e.slot
            &&& le_u32(b, 40) == e.shred_index
            &&& le_u32(b, 44) == e.shred_count
            &&& b.subrange(48, 80) == e.source_id
            &&& b.subrange(80, 208) == e.raw
        }),
{
    lemma_packet_log_entry_roundtrip(e, Seq::empty());
    let b = packet_log_entry_bytes(e);
    assert(b + Seq::<u8>::empty() =~= b);
    assert(b[28] == 0 && b[29] == 0 && b[30] == 0 && b[31] == 0);
}

/// Where each field of a shred header sits in its 56-byte wire form: version
/// and flags at bytes 0 and 1, the payload length at 2, four zero bytes, the
/// slot at 8, index and count at 16 and 20, the source id at 24..56; all
/// integers big-endian.
pub proof fn law_pshred_header_layout(h: PshredHeaderView)
    requires
        h.source_id.len() == 32,
    ensures
        ({
            let b = pshred_header_bytes(h);
            &&& b.len() == 56
            &&& b[0] == h.version
            &&& b[1] == h.flags
            &&& be_u16(b, 2) == h.payload_len
            &&& b[4] == 0 && b[5] == 0 && b[6] == 0 && b[7] == 0
            &&& be_u64(b, 8) == h.slot
            &&& be_u32(b, 16) == h.shred_index
            &&& be_u32(b, 20) == h.shred_count
            &&& b.subrange(24, 56) == h.source_id
        }),
{
    lemma_pshred_header_roundtrip(h, Seq::empty());
    let b = pshred_header_bytes(h);
    assert(b + Seq::<u8>::empty() =~= b);
    assert(b[4] == 0 && b[5] == 0 && b[6] == 0 && b[7] == 0);
}

/// Identifies a shred source in the routing table.
#[derive(Clone, Copy)]
pub struct SourceKey {
    pub source_id: [u8; 32],
}

/// Where the shreds of one source go, and how many have gone there.
#[derive(Clone, Copy)]
pub struct SourceRoute {
    pub queue_id: u32,
    pub packet_count: u64,
}

/// Telemetry kept per source IPv4 address.
#[derive(Clone, Copy, Debug)]
pub struct IpStats {
    pub packets: u64,
    pub bytes: u64,
    pub drops: u64,
    pub redirects: u64,
    pub last_seen_ns: u64,
}

} // verus!
