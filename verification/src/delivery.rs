//! Where the data path sends a new flow to an exposed port: what the
//! frame looks like when it leaves, and which interface it leaves by.

use vstd::prelude::*;
use crate::common::FibMacs;
use crate::datapath::{devmap_redirect, dnat_frame, dnat_new_entries, frame_tuple, try_xdp_redirect_spec, XdpMaps};
use crate::ebpf::Flags;
use crate::nat_checksum::lemma_nat_frame_fields;
use crate::packet::{be16, be32, mac_array, mac_at, set_mac};

verus! {

/// The first UDP frame of a new flow arriving at an exposed host port (and
/// not addressed to an attached container) is delivered to the container:
/// its destination becomes the container's address (and port, when the
/// frame has a UDP checksum), its source address stays, it leaves with the
/// MAC it was sent to as source and the container's MAC as destination,
/// and it goes to the interface the device map holds for the container's
/// address.
pub proof fn lemma_new_exposed_flow_reaches_container(
    data: Seq<u8>,
    maps: XdpMaps,
    now: u64,
    fib: FibMacs,
)
    requires
        data.len() >= 42,
        be16(data, 12) == 0x0800,
        data[14] % 16 == 5,
        be16(data, 20) % 0x4000 == 0,
        data[23] == 17,
        !maps.redirect_map.contents().contains_key(be32(data, 30)),
        !maps.udp_conntrack@.contains_key(frame_tuple(data, be32(data, 26), be32(data, 30))),
        maps.expose_map.contents().contains_key(be16(data, 36)),
    ensures
        ({
            let c = maps.expose_map.contents()[be16(data, 36)];
            let out = try_xdp_redirect_spec(data, Flags::Dnat, maps, now, Some(fib));
            &&& out.verdict == devmap_redirect(maps.redirect_map.contents(), c.container_ip)
            &&& out.data.len() == data.len()
            &&& mac_at(out.data, 0) == c.container_mac@
            &&& mac_at(out.data, 6) == mac_at(data, 0)
            &&& be32(out.data, 30) == c.container_ip
            &&& be32(out.data, 26) == be32(data, 26)
            &&& be16(data, 40) != 0 ==> be16(out.data, 36) == c.container_port
        }),
{
    broadcast use vstd::array::group_array_axioms;

    let c = maps.expose_map.contents()[be16(data, 36)];
    let key = frame_tuple(data, be32(data, 26), be32(data, 30));
    let host_mac = mac_array(mac_at(data, 0));
    let b = dnat_new_entries(key, c, fib, host_mac, now).1;
    let out = try_xdp_redirect_spec(data, Flags::Dnat, maps, now, Some(fib));
    let step_data = dnat_frame(data, b);
    lemma_nat_frame_fields(data, b);
    assert(host_mac@ =~= mac_at(data, 0));
    let m1 = set_mac(step_data, 6, host_mac@);
    let m2 = set_mac(m1, 0, c.container_mac@);
    assert(out.data == m2);
    assert(mac_at(m2, 0) =~= c.container_mac@);
    assert(mac_at(m2, 6) =~= mac_at(data, 0));
    assert forall|j: int| 12 <= j < m2.len() implies m2[j] == step_data[j] by {}
    assert(be32(m2, 30) == be32(step_data, 30));
    assert(be32(m2, 26) == be32(step_data, 26));
    assert(be16(m2, 36) == be16(step_data, 36));
}

} // verus!
