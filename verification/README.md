# traff-off-func

A container traffic offload daemon: XDP programs translate UDP flows
between containers and the host's physical NIC (source NAT on the way out,
destination NAT for exposed host ports) and redirect frames straight to the
right interface; a control plane exposes container ports over HTTP, keeps
the BPF maps and iptables rules in step, and expires idle flows.

## Layout

- `src/` — the verified library (Verus).
  - `datapath`, `packet`, `helpers`, `checksum`, `nat_checksum`: what the XDP
    programs do to a frame and to the connection-tracking table. Frames are
    byte vectors; the kernel's clock and FIB lookup answer are inputs
    (`route_request` says which lookup a frame needs).
  - `bpf_map`, `conntrack`: the kernel's BPF hash maps, modelled with their
    update flags, error codes and size bound; the conntrack table is keyed
    by the 96 bits of a connection tuple packed into a `u128`.
  - `api`, `control`, `containers`, `port_allocator`, `text`, `ipv4`: the
    control plane's decisions (exposure, withdrawal, start-up plan, stale
    flows, container descriptions) and the text they read and write.
- `app/` — the daemon around it: configuration, logging, Docker, aya,
  iptables and the HTTP server.
- `tests/` — tests of the library.

## What runs in the kernel

The XDP code that runs is the compiled eBPF object the daemon loads
(`TRAFF_OFF_FUNC_EBPF`, by default
`target/bpfel-unknown-none/release/traff-off-func`); it is built from the
kernel-side crates with the eBPF toolchain, which this crate does not build.
`src/datapath.rs` is a verified model of that program's logic, over the
same record layouts; nothing here checks that the object loaded matches it (`app/kernel.rs` holds the `#[repr(C)]` copies shared
with the kernel).
