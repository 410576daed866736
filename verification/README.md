# Glimta

A library and CLI for talking directly to the classic IKEA TRÅDFRI gateway
over the local network (CoAP over DTLS with a pre-shared key).

The library under `src/` is written in Verus and verified:

- `protocol`: endpoint paths and attribute identifiers.
- `command`: builds protocol writes and rejects out-of-range values before any I/O.
- `model`, `json`: typed gateway resources and the JSON values they carry.
- `credentials`: client identities and pre-shared keys, never empty.
- `client`, `time`: gateway addresses, client options, reconnect backoff,
  best-effort bulk reads, identity provisioning.
- `observation`: the decisions of a resilient observation (when to resubscribe,
  how long to wait, what to forward) as a state machine.
- `discovery`: the deterministic choice of gateways from mDNS announcements.
- `transport`: the DTLS parameters a classic gateway needs.

`app/` holds the network side (DTLS, CoAP, mDNS, tokio tasks), the JSON wire
types, and the command-line program; it drives the library's decisions.
