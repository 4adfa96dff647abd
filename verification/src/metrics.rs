//! Userspace reporting: names of verdicts and drop reasons, the Prometheus
//! text exposition of the router's counters, and the HTTP response that
//! carries it.

use vstd::prelude::*;

use crate::action;
use crate::common::IpStats;
use crate::drop_reason;
use crate::text::{decimal, ipv4_dotted, push_decimal, push_ipv4};

verus! {

/// Name of an XDP verdict.
pub open spec fn action_name_spec(value: u32) -> Seq<char> {
    if value == action::ABORTED {
        "ABORTED"@
    } else if value == action::DROP {
        "DROP"@
    } else if value == action::PASS {
        "PASS"@
    } else if value == action::TX {
        "TX"@
    } else if value == action::REDIRECT {
        "REDIRECT"@
    } else {
        "UNKNOWN"@
    }
}

/// Name of an XDP verdict; `UNKNOWN` for a value that names none.
pub fn action_name(value: u32) -> (s: &'static str)
    ensures
        s@ == action_name_spec(value),
{
    if value == action::ABORTED {
        "ABORTED"
    } else if value == action::DROP {
        "DROP"
    } else if value == action::PASS {
        "PASS"
    } else if value == action::TX {
        "TX"
    } else if value == action::REDIRECT {
        "REDIRECT"
    } else {
        "UNKNOWN"
    }
}

/// Name of a drop reason.
pub open spec fn drop_reason_name_spec(value: u32) -> Seq<char> {
    if value == drop_reason::NONE {
        "none"@
    } else if value == drop_reason::MISSING_SHRED {
        "missing_shred"@
    } else if value == drop_reason::BAD_WITNESS_LEN {
        "bad_witness_len"@
    } else if value == drop_reason::BAD_SLOT {
        "bad_slot"@
    } else {
        "unknown"@
    }
}

/// Name of a drop reason; `unknown` for a value that names none.
pub fn drop_reason_name(value: u32) -> (s: &'static str)
    ensures
        s@ == drop_reason_name_spec(value),
{
    if value == drop_reason::NONE {
        "none"
    } else if value == drop_reason::MISSING_SHRED {
        "missing_shred"
    } else if value == drop_reason::BAD_WITNESS_LEN {
        "bad_witness_len"
    } else if value == drop_reason::BAD_SLOT {
        "bad_slot"
    } else {
        "unknown"
    }
}

/// An HTTP/1.1 response that closes the connection, with the body's length in
/// bytes (as a `usize`) as its content length.
pub open spec fn http_response_spec(status: Seq<char>, content_type: Seq<char>, body: Seq<char>) -> Seq<
    char,
> {
    "HTTP/1.1 "@ + status + "\r\ncontent-type: "@ + content_type + "\r\ncontent-length: "@
        + decimal((vstd::utf8::encode_utf8(body).len() as usize) as nat) + "\r\nconnection: close\r\n\r\n"@ + body
}

/// Builds the HTTP response that carries `body`.
pub fn http_response(status: &str, content_type: &str, body: &str) -> (r: String)
    ensures
        r@ == http_response_spec(status@, content_type@, body@),
{
    let mut out = String::new();
    out.append("HTTP/1.1 ");
    out.append(status);
    out.append("\r\ncontent-type: ");
    out.append(content_type);
    out.append("\r\ncontent-length: ");
    push_decimal(&mut out, body.len() as u64);
    out.append("\r\nconnection: close\r\n\r\n");
    out.append(body);
    assert(out@ =~= http_response_spec(status@, content_type@, body@));
    out
}

/// The `# HELP` and `# TYPE` lines that introduce a metric.
pub open spec fn metric_header(name: Seq<char>, help: Seq<char>, metric_type: Seq<char>) -> Seq<
    char,
> {
    "# HELP "@ + name + " "@ + help + "\n"@ + "# TYPE "@ + name + " "@ + metric_type + "\n"@
}

/// Appends the `# HELP` and `# TYPE` lines of a metric.
pub fn write_metric_header(out: &mut String, name: &str, help: &str, metric_type: &str)
    ensures
        final(out)@ == old(out)@ + metric_header(name@, help@, metric_type@),
{
    out.append("# HELP ");
    out.append(name);
    out.append(" ");
    out.append(help);
    out.append("\n");
    out.append("# TYPE ");
    out.append(name);
    out.append(" ");
    out.append(metric_type);
    out.append("\n");
    assert(out@ =~= old(out)@ + metric_header(name@, help@, metric_type@));
}

/// Sum of a sequence of counters.
pub open spec fn sum_u64(s: Seq<u64>) -> int
    decreases s.len(),
{
    if s.len() == 0 {
        0
    } else {
        sum_u64(s.drop_last()) + s.last()
    }
}

/// A prefix of a sequence of counters sums to no more than the whole.
pub proof fn lemma_sum_prefix_le(s: Seq<u64>, i: int)
    requires
        0 <= i <= s.len(),
    ensures
        0 <= sum_u64(s.subrange(0, i)) <= sum_u64(s),
    decreases s.len(),
{
    if s.len() > 0 {
        if i == s.len() {
            assert(s.subrange(0, i) =~= s);
            lemma_sum_prefix_le(s.drop_last(), i - 1);
        } else {
            assert(s.drop_last().subrange(0, i) =~= s.subrange(0, i));
            lemma_sum_prefix_le(s.drop_last(), i);
        }
    }
}

/// Total of the per-CPU values of a counter.
pub fn per_cpu_total(values: &[u64]) -> (total: u64)
    requires
        sum_u64(values@) <= u64::MAX,
    ensures
        total == sum_u64(values@),
{
    let mut total: u64 = 0;
    let mut i: usize = 0;
    while i < values.len()
        invariant
            i <= values@.len(),
            sum_u64(values@) <= u64::MAX,
            total == sum_u64(values@.subrange(0, i as int)),
        decreases values@.len() - i,
    {
        assert(values@.subrange(0, i + 1).drop_last() =~= values@.subrange(0, i as int));
        proof {
            lemma_sum_prefix_le(values@, i + 1);
        }
        total = total + values[i];
        i = i + 1;
    }
    assert(values@.subrange(0, values@.len() as int) =~= values@);
    total
}

/// Every character is an ASCII decimal digit.
pub open spec fn all_ascii_digits(s: Seq<char>) -> bool {
    forall|i: int| 0 <= i < s.len() ==> '0' <= #[trigger] s[i] <= '9'
}

/// A listen address with the host part filled in: `:port` and a bare port
/// listen on all interfaces; anything else is kept as given.
pub open spec fn normalize_metrics_addr_spec(value: Seq<char>) -> Seq<char> {
    if value.len() > 0 && value[0] == ':' {
        "0.0.0.0"@ + value
    } else if all_ascii_digits(value) {
        "0.0.0.0:"@ + value
    } else {
        value
    }
}

/// Filling in the host part of an address that already has one changes nothing.
pub proof fn law_normalize_metrics_addr_idempotent(value: Seq<char>)
    ensures
        normalize_metrics_addr_spec(normalize_metrics_addr_spec(value))
            == normalize_metrics_addr_spec(value),
{
    reveal_strlit("0.0.0.0");
    reveal_strlit("0.0.0.0:");
    let n = normalize_metrics_addr_spec(value);
    if n != value {
        assert(n[0] == '0');
        assert(n[1] == '.');
        assert(!all_ascii_digits(n));
    }
}

/// Fills in the host part of a metrics listen address (see
/// [`normalize_metrics_addr_spec`]); parsing the result as a socket address is
/// left to the caller.
pub fn normalize_metrics_addr(value: &str) -> (r: String)
    ensures
        r@ == normalize_metrics_addr_spec(value@),
{
    let n = value.unicode_len();
    if n > 0 && value.get_char(0) == ':' {
        let mut out = String::new();
        out.append("0.0.0.0");
        out.append(value);
        return out;
    }
    let mut i: usize = 0;
    let mut digits = true;
    while i < n
        invariant
            n == value@.len(),
            i <= n,
            digits == (forall|j: int| 0 <= j < i ==> '0' <= #[trigger] value@[j] <= '9'),
        decreases n - i,
    {
        let c = value.get_char(i);
        if !('0' <= c && c <= '9') {
            digits = false;
        }
        i = i + 1;
    }
    let mut out = String::new();
    if digits {
        out.append("0.0.0.0:");
    }
    out.append(value);
    out
}

/// One sample line: the metric (with its labels), a space, the value.
pub open spec fn sample_line(name: Seq<char>, value: nat) -> Seq<char> {
    name + " "@ + decimal(value) + "\n"@
}

/// The per-reason drop lines for the reasons `1..k`, in order.
pub open spec fn reason_lines(totals: Seq<u64>, k: int) -> Seq<char>
    decreases k,
{
    if k <= 1 {
        Seq::empty()
    } else {
        reason_lines(totals, k - 1) + sample_line(
            "svm_xdp_drops_total{reason=\""@ + drop_reason_name_spec((k - 1) as u32) + "\"}"@,
            totals[k - 1] as nat,
        )
    }
}

/// Field `f` of per-address statistics: packets, bytes, drops, redirects,
/// last-seen time, in that order.
pub open spec fn ip_field(st: IpStats, f: int) -> u64 {
    if f == 0 {
        st.packets
    } else if f == 1 {
        st.bytes
    } else if f == 2 {
        st.drops
    } else if f == 3 {
        st.redirects
    } else {
        st.last_seen_ns
    }
}

/// Field `f` of every entry, in order.
pub open spec fn ip_field_values(entries: Seq<(u32, IpStats)>, f: int) -> Seq<u64> {
    entries.map_values(|e: (u32, IpStats)| ip_field(e.1, f))
}

/// One sample line per address, labelled with the address, in entry order.
pub open spec fn ip_lines(name: Seq<char>, entries: Seq<(u32, IpStats)>, f: int) -> Seq<char>
    decreases entries.len(),
{
    if entries.len() == 0 {
        Seq::empty()
    } else {
        ip_lines(name, entries.drop_last(), f) + sample_line(
            name + "{ip=\""@ + ipv4_dotted(entries.last().0) + "\"}"@,
            ip_field(entries.last().1, f) as nat,
        )
    }
}

/// A counter family with a single sample.
pub open spec fn total_family(name: Seq<char>, help: Seq<char>, value: nat) -> Seq<char> {
    metric_header(name, help, "counter"@) + sample_line(name, value)
}

/// A family with one sample per address.
pub open spec fn ip_family(
    name: Seq<char>,
    help: Seq<char>,
    metric_type: Seq<char>,
    entries: Seq<(u32, IpStats)>,
    f: int,
) -> Seq<char> {
    metric_header(name, help, metric_type) + ip_lines(name, entries, f)
}

/// The Prometheus text exposition of the router's counters: totals over all
/// addresses, the drop total and its per-reason split, then one family per
/// per-address statistic.
pub open spec fn render_metrics_spec(
    drop_total: u64,
    reason_totals: Seq<u64>,
    entries: Seq<(u32, IpStats)>,
) -> Seq<char> {
    total_family(
        "svm_xdp_packets_total"@,
        "Total UDP 8001 packets observed by XDP."@,
        sum_u64(ip_field_values(entries, 0)) as nat,
    ) + total_family(
        "svm_xdp_bytes_total"@,
        "Total bytes observed for UDP 8001 packets by XDP."@,
        sum_u64(ip_field_values(entries, 1)) as nat,
    ) + total_family(
        "svm_xdp_redirects_total"@,
        "Total successful XSK redirects."@,
        sum_u64(ip_field_values(entries, 3)) as nat,
    ) + total_family(
        "svm_xdp_drops_total"@,
        "Total XDP drops, with optional reason labels."@,
        drop_total as nat,
    ) + reason_lines(reason_totals, drop_reason::COUNT as int) + ip_family(
        "svm_xdp_per_ip_packets"@,
        "Per-source-IP UDP 8001 packet count."@,
        "counter"@,
        entries,
        0,
    ) + ip_family(
        "svm_xdp_per_ip_bytes"@,
        "Per-source-IP UDP 8001 byte count."@,
        "counter"@,
        entries,
        1,
    ) + ip_family(
        "svm_xdp_per_ip_drops"@,
        "Per-source-IP UDP 8001 drop count."@,
        "counter"@,
        entries,
        2,
    ) + ip_family(
        "svm_xdp_per_ip_redirects"@,
        "Per-source-IP successful XSK redirect count."@,
        "counter"@,
        entries,
        3,
    ) + ip_family(
        "svm_xdp_per_ip_last_seen_ns"@,
        "Last kernel monotonic timestamp observed for each source IP."@,
        "gauge"@,
        entries,
        4,
    )
}

/// Field `f` of per-address statistics (see [`ip_field`]).
pub fn ip_field_value(st: &IpStats, f: u8) -> (v: u64)
    ensures
        v == ip_field(*st, f as int),
{
    if f == 0 {
        st.packets
    } else if f == 1 {
        st.bytes
    } else if f == 2 {
        st.drops
    } else if f == 3 {
        st.redirects
    } else {
        st.last_seen_ns
    }
}

/// Total of field `f` over all entries.
pub fn ip_total(entries: &[(u32, IpStats)], f: u8) -> (total: u64)
    requires
        sum_u64(ip_field_values(entries@, f as int)) <= u64::MAX,
    ensures
        total == sum_u64(ip_field_values(entries@, f as int)),
{
    let ghost vals = ip_field_values(entries@, f as int);
    let mut total: u64 = 0;
    let mut i: usize = 0;
    while i < entries.len()
        invariant
            i <= entries@.len(),
            vals == ip_field_values(entries@, f as int),
            vals.len() == entries@.len(),
            sum_u64(vals) <= u64::MAX,
            total == sum_u64(vals.subrange(0, i as int)),
        decreases entries@.len() - i,
    {
        assert(vals.subrange(0, i + 1).drop_last() =~= vals.subrange(0, i as int));
        proof {
            lemma_sum_prefix_le(vals, i + 1);
        }
        let v = ip_field_value(&entries[i].1, f);
        assert(v == vals[i as int]);
        total = total + v;
        i = i + 1;
    }
    assert(vals.subrange(0, vals.len() as int) =~= vals);
    total
}

/// Appends one sample line per address for field `f` of the statistics.
pub fn push_ip_lines(out: &mut String, name: &str, entries: &[(u32, IpStats)], f: u8)
    ensures
        final(out)@ == old(out)@ + ip_lines(name@, entries@, f as int),
{
    let mut i: usize = 0;
    while i < entries.len()
        invariant
            i <= entries@.len(),
            out@ == old(out)@ + ip_lines(name@, entries@.subrange(0, i as int), f as int),
        decreases entries@.len() - i,
    {
        let ghost prev = out@;
        let (addr, st) = entries[i];
        out.append(name);
        out.append("{ip=\"");
        push_ipv4(out, addr);
        out.append("\"}");
        out.append(" ");
        push_decimal(out, ip_field_value(&st, f));
        out.append("\n");
        let ghost cur = entries@.subrange(0, i + 1);
        assert(cur.drop_last() =~= entries@.subrange(0, i as int));
        assert(out@ =~= prev + sample_line(
            name@ + "{ip=\""@ + ipv4_dotted(addr) + "\"}"@,
            ip_field(st, f as int) as nat,
        ));
        i = i + 1;
    }
    assert(entries@.subrange(0, entries@.len() as int) =~= entries@);
}

/// Appends the per-reason drop lines for every named reason.
pub fn push_reason_lines(out: &mut String, reason_totals: &[u64])
    requires
        reason_totals@.len() == drop_reason::COUNT,
    ensures
        final(out)@ == old(out)@ + reason_lines(reason_totals@, drop_reason::COUNT as int),
{
    let mut reason: u32 = 1;
    while reason < drop_reason::COUNT
        invariant
            1 <= reason <= drop_reason::COUNT,
            reason_totals@.len() == drop_reason::COUNT,
            out@ == old(out)@ + reason_lines(reason_totals@, reason as int),
        decreases drop_reason::COUNT - reason,
    {
        let ghost prev = out@;
        out.append("svm_xdp_drops_total{reason=\"");
        out.append(drop_reason_name(reason));
        out.append("\"}");
        out.append(" ");
        push_decimal(out, reason_totals[reason as usize]);
        out.append("\n");
        reason = reason + 1;
        assert(out@ =~= prev + sample_line(
            "svm_xdp_drops_total{reason=\""@ + drop_reason_name_spec((reason - 1) as u32) + "\"}"@,
            reason_totals@[reason - 1] as nat,
        ));
    }
}

/// Appends a counter family with a single sample.
pub fn push_total_family(out: &mut String, name: &str, help: &str, value: u64)
    ensures
        final(out)@ == old(out)@ + total_family(name@, help@, value as nat),
{
    write_metric_header(out, name, help, "counter");
    out.append(name);
    out.append(" ");
    push_decimal(out, value);
    out.append("\n");
    assert(out@ =~= old(out)@ + total_family(name@, help@, value as nat));
}

/// Appends a family with one sample per address.
pub fn push_ip_family(
    out: &mut String,
    name: &str,
    help: &str,
    metric_type: &str,
    entries: &[(u32, IpStats)],
    f: u8,
)
    ensures
        final(out)@ == old(out)@ + ip_family(name@, help@, metric_type@, entries@, f as int),
{
    write_metric_header(out, name, help, metric_type);
    push_ip_lines(out, name, entries, f);
    assert(out@ =~= old(out)@ + ip_family(name@, help@, metric_type@, entries@, f as int));
}

/// The response to a metrics request: the rendered exposition with status 200
/// where the counters could be read (`Some`), a fixed 500 response otherwise.
pub open spec fn metrics_response_spec(body: Option<Seq<char>>) -> Seq<char> {
    match body {
        Some(b) => http_response_spec("200 OK"@, "text/plain; version=0.0.4"@, b),
        None => http_response_spec(
            "500 Internal Server Error"@,
            "text/plain; charset=utf-8"@,
            "failed to render metrics\n"@,
        ),
    }
}

/// Builds the response to a metrics request (see [`metrics_response_spec`]).
pub fn metrics_response(body: Option<&str>) -> (r: String)
    ensures
        r@ == metrics_response_spec(
            match body {
                Some(b) => Some(b@),
                None => None,
            },
        ),
{
    match body {
        Some(b) => http_response("200 OK", "text/plain; version=0.0.4", b),
        None => http_response(
            "500 Internal Server Error",
            "text/plain; charset=utf-8",
            "failed to render metrics\n",
        ),
    }
}

/// Renders the router's counters in the Prometheus text format, from the drop
/// total, the per-reason drop totals (indexed by reason) and the per-address
/// statistics.
pub fn render_metrics(drop_total: u64, reason_totals: &[u64], ip_entries: &[(u32, IpStats)]) -> (r:
    String)
    requires
        reason_totals@.len() == drop_reason::COUNT,
        sum_u64(ip_field_values(ip_entries@, 0)) <= u64::MAX,
        sum_u64(ip_field_values(ip_entries@, 1)) <= u64::MAX,
        sum_u64(ip_field_values(ip_entries@, 3)) <= u64::MAX,
    ensures
        r@ == render_metrics_spec(drop_total, reason_totals@, ip_entries@),
{
    let packet_total = ip_total(ip_entries, 0);
    let byte_total = ip_total(ip_entries, 1);
    let redirect_total = ip_total(ip_entries, 3);
    let mut out = String::new();
    push_total_family(
        &mut out,
        "svm_xdp_packets_total",
        "Total UDP 8001 packets observed by XDP.",
        packet_total,
    );
    assert(out@ =~= total_family(
        "svm_xdp_packets_total"@,
        "Total UDP 8001 packets observed by XDP."@,
        packet_total as nat,
    ));
    push_total_family(
        &mut out,
        "svm_xdp_bytes_total",
        "Total bytes observed for UDP 8001 packets by XDP.",
        byte_total,
    );
    push_total_family(
        &mut out,
        "svm_xdp_redirects_total",
        "Total successful XSK redirects.",
        redirect_total,
    );
    push_total_family(
        &mut out,
        "svm_xdp_drops_total",
        "Total XDP drops, with optional reason labels.",
        drop_total,
    );
    push_reason_lines(&mut out, reason_totals);
    push_ip_family(
        &mut out,
        "svm_xdp_per_ip_packets",
        "Per-source-IP UDP 8001 packet count.",
        "counter",
        ip_entries,
        0,
    );
    push_ip_family(
        &mut out,
        "svm_xdp_per_ip_bytes",
        "Per-source-IP UDP 8001 byte count.",
        "counter",
        ip_entries,
        1,
    );
    push_ip_family(
        &mut out,
        "svm_xdp_per_ip_drops",
        "Per-source-IP UDP 8001 drop count.",
        "counter",
        ip_entries,
        2,
    );
    push_ip_family(
        &mut out,
        "svm_xdp_per_ip_redirects",
        "Per-source-IP successful XSK redirect count.",
        "counter",
        ip_entries,
        3,
    );
    push_ip_family(
        &mut out,
        "svm_xdp_per_ip_last_seen_ns",
        "Last kernel monotonic timestamp observed for each source IP.",
        "gauge",
        ip_entries,
        4,
    );
    out
}

} // verus!
