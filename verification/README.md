# oathgate

Verified building blocks of a small virtual-machine lab: a learning
Ethernet switch, an IPv4 router with ARP learning and per-protocol
handlers, a DHCP server, packet formats (Ethernet, ARP, IPv4, Internet
checksum), the fabrial terminal protocol spoken between a host and the
service inside a virtual machine, the qemu command lines, the records kept
for bridges, kernels, images and shards, and the decisions of the event
loops that drive them.

Layout:

- `src/` — the library, written in Verus; every function carries a
  contract that Verus checks. Calls into outside crates (`dhcproto`, `rand`,
  `flume`) go through a few trusted wrappers documented where they stand.
- `tests/` — tests of the library on concrete values.
- `app/` — the programs around the library: the fabrial service, the
  virtual machine runner with its terminal interface, and the console
  client. They do the I/O and hand plain values to the library.
