# netstack

A small layered network stack — Ethernet, IPv4, UDP and the TCP handshake —
in which every layer is a set of verified functions from connection state and
bytes to bytes. Sending turns data into the frame that goes on the wire;
receiving looks at one frame and says what it delivers. Moving frames is left
to the caller.

- `src/` is the library, verified with Verus:
  - `bytes`, `address`: big-endian fields, byte runs, MAC and IPv4 addresses;
  - `protocol`: the `Protocol`, `Listener`, `Bind` and `SupportedConfiguration`
    traits, with the laws every layer proves (what one end sends, its peer
    receives; a listener hears what is sent to it);
  - `ether`, `ipv4`, `udp`, `tcp`: the layers. Header checksums are computed
    by `pnet_packet`.
- `app/` runs two nodes on a `tokio` broadcast channel and opens a TCP
  connection between them.
- `tests/` exercises the layers on concrete frames.
