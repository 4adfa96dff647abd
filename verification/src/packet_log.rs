//! Userspace decoding of the log records the kernel program emits, and the
//! text line printed for each of them.

use vstd::prelude::*;

use crate::common::{
    lemma_packet_log_entry_roundtrip, packet_log_entry_at, packet_log_entry_bytes,
    packet_log_entry_wf, push_bytes, PacketLogEntry, PacketLogEntryView, PACKET_LOG_ENTRY_SIZE,
};
use crate::metrics::{action_name, action_name_spec, drop_reason_name, drop_reason_name_spec};
use crate::text::{decimal, hex_dump, ipv4_dotted, push_decimal, push_hex_dump, push_ipv4};

verus! {

/// The record a sample holds: `None` where the sample is shorter than a
/// record, otherwise the record stored at its start.
pub open spec fn parse_packet_log_spec(sample: Seq<u8>) -> Option<PacketLogEntryView> {
    if sample.len() < 208 {
        None
    } else {
        Some(packet_log_entry_at(sample))
    }
}

/// View of an optional record.
pub open spec fn entry_view(e: Option<PacketLogEntry>) -> Option<PacketLogEntryView> {
    match e {
        Some(e) => Some(e@),
        None => None,
    }
}

/// Decodes the record at the start of a perf event sample.
pub fn parse_packet_log(sample: &[u8]) -> (r: Option<PacketLogEntry>)
    ensures
        entry_view(r) == parse_packet_log_spec(sample@),
{
    if sample.len() < PACKET_LOG_ENTRY_SIZE {
        return None;
    }
    Some(PacketLogEntry::read(sample))
}

/// Decodes the record of a sample delivered in two parts (the second is empty
/// unless the sample wrapped around the end of the ring buffer).
pub fn log_packet_sample(head: &[u8], tail: &[u8]) -> (r: Option<PacketLogEntry>)
    ensures
        entry_view(r) == parse_packet_log_spec(head@ + tail@),
{
    if tail.len() == 0 {
        assert(head@ + tail@ =~= head@);
        return parse_packet_log(head);
    }
    let mut sample: Vec<u8> = Vec::new();
    push_bytes(&mut sample, head);
    push_bytes(&mut sample, tail);
    assert(sample@ =~= head@ + tail@);
    parse_packet_log(sample.as_slice())
}

/// Decoding a record's in-memory image, whatever follows it, gives the record
/// back.
pub proof fn lemma_parse_packet_log_roundtrip(e: PacketLogEntryView, rest: Seq<u8>)
    requires
        packet_log_entry_wf(e),
    ensures
        parse_packet_log_spec(packet_log_entry_bytes(e) + rest) == Some(e),
{
    lemma_packet_log_entry_roundtrip(e, rest);
}

/// A sample split anywhere into head and tail decodes to the same record as
/// the whole sample.
pub proof fn lemma_log_packet_sample_split(sample: Seq<u8>, k: int)
    requires
        0 <= k <= sample.len(),
    ensures
        parse_packet_log_spec(sample.subrange(0, k) + sample.subrange(k, sample.len() as int))
            == parse_packet_log_spec(sample),
{
    assert(sample.subrange(0, k) + sample.subrange(k, sample.len() as int) =~= sample);
}

/// Number of raw bytes of a record worth printing.
pub open spec fn shown_raw_len(e: PacketLogEntryView) -> nat {
    if e.raw_len > 128 {
        128
    } else {
        e.raw_len as nat
    }
}

/// ` label=value` with the value in decimal.
pub open spec fn field_text(label: Seq<char>, value: nat) -> Seq<char> {
    label + decimal(value)
}

/// The line printed for a record.
pub open spec fn packet_entry_message_spec(e: PacketLogEntryView) -> Seq<char> {
    "packet action="@ + action_name_spec(e.action) + " drop_reason="@ + drop_reason_name_spec(
        e.drop_reason,
    ) + field_text(" cpu="@, e.cpu as nat)
        + " src="@ + ipv4_dotted(e.src_ip) + field_text(":"@, e.src_port as nat) + field_text(
        " dst_port="@,
        e.dst_port as nat,
    ) + field_text(" len="@, e.packet_len as nat) + field_text(" raw_len="@, e.raw_len as nat)
        + field_text(" version="@, e.version as nat) + field_text(" flags="@, e.flags as nat)
        + field_text(" slot="@, e.slot as nat) + field_text(" shred_index="@, e.shred_index as nat)
        + field_text(" shred_count="@, e.shred_count as nat) + " source_id="@ + hex_dump(
        e.source_id,
    ) + " raw="@ + hex_dump(e.raw.subrange(0, shown_raw_len(e) as int))
}

/// Appends ` label=value`.
fn push_field(out: &mut String, label: &str, value: u64)
    ensures
        final(out)@ == old(out)@ + field_text(label@, value as nat),
{
    out.append(label);
    push_decimal(out, value);
    assert(out@ =~= old(out)@ + field_text(label@, value as nat));
}

/// The line printed for a record: verdict, drop reason, CPU, source address and port,
/// destination port, lengths, shred fields, and hex dumps of the source id and
/// of the captured frame bytes.
pub fn packet_entry_message(entry: &PacketLogEntry) -> (r: String)
    ensures
        r@ == packet_entry_message_spec(entry@),
{
    let mut out = String::new();
    out.append("packet action=");
    assert(out@ =~= "packet action="@);
    out.append(action_name(entry.action));
    out.append(" drop_reason=");
    out.append(drop_reason_name(entry.drop_reason));
    push_field(&mut out, " cpu=", entry.cpu as u64);
    out.append(" src=");
    push_ipv4(&mut out, entry.src_ip);
    push_field(&mut out, ":", entry.src_port as u64);
    push_field(&mut out, " dst_port=", entry.dst_port as u64);
    push_field(&mut out, " len=", entry.packet_len as u64);
    push_field(&mut out, " raw_len=", entry.raw_len as u64);
    push_field(&mut out, " version=", entry.version as u64);
    push_field(&mut out, " flags=", entry.flags as u64);
    push_field(&mut out, " slot=", entry.slot);
    push_field(&mut out, " shred_index=", entry.shred_index as u64);
    push_field(&mut out, " shred_count=", entry.shred_count as u64);
    out.append(" source_id=");
    push_hex_dump(&mut out, &entry.source_id, 32);
    assert(entry.source_id@.subrange(0, 32) =~= entry.source_id@);
    out.append(" raw=");
    let n: usize = if entry.raw_len > 128 {
        128
    } else {
        entry.raw_len as usize
    };
    push_hex_dump(&mut out, &entry.raw, n);
    out
}

} // verus!
