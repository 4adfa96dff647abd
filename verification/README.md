# svm_xdp_packet_router

Verified core of an XDP router for UDP shred traffic on port 8001.

- `src/` — the library, checked by Verus:
  - `codec`: big- and little-endian integers in byte sequences;
  - `common`: the shred header, the packet log record and the routing and
    statistics records, with their byte layouts;
  - `router`: frame classification and the per-packet step of the router
    over its maps (routing table, socket redirect slots, drop counters,
    per-address statistics);
  - `packet_log`: decoding of log records and the line printed for each;
  - `metrics`, `text`: Prometheus exposition, HTTP response, names and numerals;
  - `laws`: properties of the router step as a whole.
- `app/` — the userspace loader: loads and attaches the XDP object, reads the
  kernel maps and perf buffers, logs, and serves `/metrics`.
- `tests/` — executable tests of the library.
