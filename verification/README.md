# pktauth

Packet authentication carried in the QUIC connection ID, written in Verus.

Every connection ID is a 20-byte token: a key selector, a random nonce, and an
80-bit AES tag over the nonce and the IPv4 addresses of both ends. A filter in
front of the QUIC layer locates the token in each datagram and drops the
datagram unless the token was minted for the path and direction it came on.

- `src/` is the verified library. `auth` holds the tokens and the filter,
  `socket` what becomes of datagrams received and sent, `endpoint`, `tls` and
  `ping` the two ends and the protocol between them, `blaster` and `rng` a load
  generator for the filter, and `laws` what holds across calls.
- `app/` is the program around it: an echo server, a ping client and the load
  generator, with their sockets, timers and QUIC stack.
- `tests/` runs the library on concrete values.

The server can bind a connection ID to a client only where the QUIC stack says
who it is for. The released Quinn that `app/` is built with does not, so its
server issues IDs that are bound to nobody, and drops every packet that carries
one: with validation on it cannot serve, since a client uses the server's IDs
from its second flight on. Turn validation off with `--no-dcid-validation`, or
mount the generator into a Quinn that names the peer and call
`generate_cid_for`.

AES, random numbers, QUIC connection IDs and the TLS root store come from the
crates `aes`, `rand`, `quinn` and `rustls`. What is relied on of each is stated
at the small function that calls it, and nowhere else.

The keys are compiled in, nonces are never checked for reuse, and tokens never
expire: this is a proof of concept.
