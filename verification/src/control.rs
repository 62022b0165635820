//! Set-up decisions of the control-plane daemon: the XDP attach mode, the
//! reserved host port range, which containers get which host port at start,
//! the device map entries, and which conntrack entries have expired.

use vstd::prelude::*;
use vstd::string::StringExecFns;
use crate::api::Exposure;
use crate::common::{ConnectionTuple, ContainerInfo, FlowState, HostInfo};
use crate::containers::ContainerMetadata;
use crate::port_allocator::PortAllocator;
use crate::text::{
    parse_unsigned, parse_unsigned_spec, push_char, str_chars, str_eq, string_from_chars, trim,
    trim_spec, IntErrorKind,
};

verus! {

/// The host ports handed out to exposed containers.
pub const PORT_RANGE: &'static str = "10000-12000";

/// The container port exposed for each container at start.
pub const IPERF_SERVER_PORT: u16 = 5201;

/// How XDP programs are attached.
#[derive(Clone, Copy, PartialEq, Eq, Structural, Debug)]
pub enum XdpMode {
    /// Generic (socket buffer) mode.
    Skb,
    /// Driver (native) mode.
    Native,
}

/// Reads the configured attach mode: `"skb"` or `"native"`.
pub fn parse_xdp_mode(mode: &str) -> (res: Result<XdpMode, String>)
    ensures
        mode@ == "skb"@ ==> res == Ok::<XdpMode, String>(XdpMode::Skb),
        mode@ == "native"@ ==> res == Ok::<XdpMode, String>(XdpMode::Native),
        mode@ != "skb"@ && mode@ != "native"@ ==> (res matches Err(m) && m@
            == "invalid mode, use either 'skb' or 'native'"@),
{
    proof {
        reveal_strlit("skb");
        reveal_strlit("native");
        assert("skb"@.len() == 3);
        assert("native"@.len() == 6);
    }
    if str_eq(mode, "skb") {
        Ok(XdpMode::Skb)
    } else if str_eq(mode, "native") {
        Ok(XdpMode::Native)
    } else {
        Err(String::from_str("invalid mode, use either 'skb' or 'native'"))
    }
}

/// The new content of the kernel's reserved-port list: `range` appended,
/// after a comma, to the trimmed existing list (or alone if that is empty).
pub open spec fn reserved_ports_spec(existing: Seq<char>, range: Seq<char>) -> Seq<char> {
    if trim_spec(existing).len() == 0 {
        range
    } else {
        trim_spec(existing) + seq![','] + range
    }
}

pub fn reserved_ports_content(existing: &str, range: &str) -> (res: String)
    ensures
        res@ == reserved_ports_spec(existing@, range@),
{
    let trimmed = trim(existing);
    if trimmed.len() == 0 {
        return String::from_str(range);
    }
    let mut res = string_from_chars(&trimmed);
    push_char(&mut res, ',');
    res.append(range);
    res
}

/// Why a port range is not `lower-upper`.
#[derive(Clone, Copy, PartialEq, Eq, Structural, Debug)]
pub enum PortRangeError {
    /// No `-` in the range.
    InvalidFormat,
    /// A bound is not a port number.
    InvalidPort(IntErrorKind),
}

/// Index of the first `c` in `cs`, if any.
pub open spec fn first_index_of(cs: Seq<char>, c: char) -> Option<int> {
    if exists|i: int| 0 <= i < cs.len() && cs[i] == c {
        Some(choose|i: int| 0 <= i < cs.len() && cs[i] == c && forall|j: int| 0 <= j < i ==> cs[j] != c)
    } else {
        None
    }
}

/// `lower-upper`, split at the first `-`, each bound parsed as std parses
/// a `u16`.
pub open spec fn parse_port_range_spec(cs: Seq<char>) -> Result<(u16, u16), PortRangeError> {
    match first_index_of(cs, '-') {
        None => Err(PortRangeError::InvalidFormat),
        Some(i) => match parse_unsigned_spec(cs.take(i), u16::MAX as nat) {
            Err(e) => Err(PortRangeError::InvalidPort(e)),
            Ok(lo) => match parse_unsigned_spec(cs.skip(i + 1), u16::MAX as nat) {
                Err(e) => Err(PortRangeError::InvalidPort(e)),
                Ok(hi) => Ok((lo as u16, hi as u16)),
            },
        },
    }
}

fn sub_chars(cs: &Vec<char>, lo: usize, hi: usize) -> (res: Vec<char>)
    requires
        lo <= hi <= cs.len(),
    ensures
        res@ == cs@.subrange(lo as int, hi as int),
{
    let mut res: Vec<char> = Vec::new();
    let mut i: usize = lo;
    while i < hi
        invariant
            lo <= i <= hi <= cs.len(),
            res@ == cs@.subrange(lo as int, i as int),
        decreases hi - i,
    {
        res.push(cs[i]);
        i = i + 1;
        assert(res@ =~= cs@.subrange(lo as int, i as int));
    }
    res
}

/// Reads a port range `lower-upper`.
pub fn parse_port_range(range: &str) -> (res: Result<(u16, u16), PortRangeError>)
    ensures
        res == parse_port_range_spec(range@),
{
    let cs = str_chars(range);
    let mut i: usize = 0;
    while i < cs.len() && cs[i] != '-'
        invariant
            i <= cs.len(),
            cs@ == range@,
            forall|j: int| 0 <= j < i ==> cs@[j] != '-',
        decreases cs.len() - i,
    {
        i = i + 1;
    }
    if i == cs.len() {
        assert(!(exists|j: int| 0 <= j < cs@.len() && cs@[j] == '-'));
        return Err(PortRangeError::InvalidFormat);
    }
    proof {
        let k = choose|k: int|
            0 <= k < cs@.len() && cs@[k] == '-' && forall|j: int| 0 <= j < k ==> cs@[j] != '-';
        assert(cs@[i as int] == '-');
        if k < i {
            assert(cs@[k] != '-');
        }
        if k > i {
            assert(cs@[i as int] != '-');
        }
        assert(first_index_of(cs@, '-') == Some(i as int));
    }
    let lo_chars = sub_chars(&cs, 0, i);
    let hi_chars = sub_chars(&cs, i + 1, cs.len());
    assert(lo_chars@ =~= cs@.take(i as int));
    assert(hi_chars@ =~= cs@.skip(i + 1));
    let lo = match parse_unsigned(&lo_chars, 0xffff) {
        Ok(v) => v as u16,
        Err(e) => return Err(PortRangeError::InvalidPort(e)),
    };
    let hi = match parse_unsigned(&hi_chars, 0xffff) {
        Ok(v) => v as u16,
        Err(e) => return Err(PortRangeError::InvalidPort(e)),
    };
    Ok((lo, hi))
}

/// The keys of the entries that expired by `now`, in listing order.
pub open spec fn stale_keys_spec(entries: Seq<(ConnectionTuple, FlowState)>, now: u64) -> Seq<
    ConnectionTuple,
>
    decreases entries.len(),
{
    if entries.len() == 0 {
        seq![]
    } else {
        let rest = stale_keys_spec(entries.drop_last(), now);
        if entries.last().1.timeout <= now {
            rest.push(entries.last().0)
        } else {
            rest
        }
    }
}

/// The conntrack entries to delete at `now`: those whose timeout has passed.
pub fn stale_connections(entries: &Vec<(ConnectionTuple, FlowState)>, now: u64) -> (res: Vec<
    ConnectionTuple,
>)
    ensures
        res@ == stale_keys_spec(entries@, now),
{
    let mut res: Vec<ConnectionTuple> = Vec::new();
    let mut i: usize = 0;
    while i < entries.len()
        invariant
            i <= entries.len(),
            res@ == stale_keys_spec(entries@.take(i as int), now),
        decreases entries.len() - i,
    {
        let (key, state) = entries[i];
        assert(entries@.take(i + 1).drop_last() =~= entries@.take(i as int));
        if state.timeout <= now {
            res.push(key);
        }
        i = i + 1;
    }
    assert(entries@.take(i as int) =~= entries@);
    res
}

/// An entry is stale exactly when its timeout has passed.
pub proof fn lemma_stale_keys(entries: Seq<(ConnectionTuple, FlowState)>, now: u64)
    ensures
        forall|k: ConnectionTuple| #[trigger] stale_keys_spec(entries, now).contains(k) <==> exists|
            i: int,
        |
            0 <= i < entries.len() && entries[i].0 == k && entries[i].1.timeout <= now,
    decreases entries.len(),
{
    if entries.len() > 0 {
        let init = entries.drop_last();
        lemma_stale_keys(init, now);
        let rest = stale_keys_spec(init, now);
        let r = stale_keys_spec(entries, now);
        let last = entries[entries.len() - 1];
        assert(last == entries.last());
        assert forall|k: ConnectionTuple| #[trigger] r.contains(k) implies exists|i: int|
            0 <= i < entries.len() && entries[i].0 == k && entries[i].1.timeout <= now by {
            let j = choose|j: int| 0 <= j < r.len() && r[j] == k;
            if j < rest.len() {
                assert(r[j] == rest[j]);
                assert(rest.contains(k));
                let i = choose|i: int|
                    0 <= i < init.len() && init[i].0 == k && init[i].1.timeout <= now;
                assert(entries[i] == init[i]);
            } else {
                assert(last.1.timeout <= now && k == last.0);
            }
        }
        assert forall|k: ConnectionTuple|
            (exists|i: int|
                0 <= i < entries.len() && entries[i].0 == k && entries[i].1.timeout
                    <= now) implies #[trigger] r.contains(k) by {
            let i = choose|i: int|
                0 <= i < entries.len() && entries[i].0 == k && entries[i].1.timeout <= now;
            if i < entries.len() - 1 {
                assert(init[i] == entries[i]);
                assert(rest.contains(k));
                let j = choose|j: int| 0 <= j < rest.len() && rest[j] == k;
                assert(r[j] == k);
            } else {
                assert(r[r.len() - 1] == k);
            }
        }
    }
}

/// Device map entries routing each container's address to its veth.
pub fn devmap_entries(containers: &Vec<ContainerMetadata>) -> (res: Vec<(u32, u32)>)
    ensures
        res@.len() == containers@.len(),
        forall|i: int|
            0 <= i < containers@.len() ==> #[trigger] res@[i] == (
                containers@[i].ipv4_address,
                containers@[i].ifindex,
            ),
{
    let mut res: Vec<(u32, u32)> = Vec::new();
    let mut i: usize = 0;
    while i < containers.len()
        invariant
            i <= containers.len(),
            res@.len() == i,
            forall|j: int|
                0 <= j < i ==> #[trigger] res@[j] == (
                    containers@[j].ipv4_address,
                    containers@[j].ifindex,
                ),
        decreases containers.len() - i,
    {
        res.push((containers[i].ipv4_address, containers[i].ifindex));
        i = i + 1;
    }
    res
}

/// The exposure given at start to `container` on `host_port`: its iperf
/// port, bound to the host NIC.
pub open spec fn startup_exposure(
    container: ContainerMetadata,
    host_port: u16,
    host_ip: u32,
    host_ifindex: u32,
) -> Exposure {
    Exposure {
        host_port,
        container_info: ContainerInfo {
            container_ip: container.ipv4_address,
            container_mac: container.mac_address,
            container_port: IPERF_SERVER_PORT,
            ifindex: container.ifindex,
        },
        host_info: HostInfo { host_ip, host_port, host_ifindex },
    }
}

/// Gives each container, in order, the next free host port. Stops at the
/// first container for which no port is left, and says so.
pub fn plan_startup_exposures(
    allocator: &mut PortAllocator,
    containers: &Vec<ContainerMetadata>,
    host_ip: u32,
    host_ifindex: u32,
) -> (res: (Vec<Exposure>, bool))
    ensures
        ({
            let n = if containers@.len() <= old(allocator)@.len() {
                containers@.len()
            } else {
                old(allocator)@.len()
            };
            &&& res.0@.len() == n
            &&& forall|i: int|
                0 <= i < n ==> #[trigger] res.0@[i] == startup_exposure(
                    containers@[i],
                    old(allocator)@[i],
                    host_ip,
                    host_ifindex,
                )
            &&& final(allocator)@ == old(allocator)@.skip(n as int)
            &&& forall|i: int|
                0 <= i < n ==> {
                    &&& #[trigger] res.0@[i].host_port == old(allocator)@[i]
                    &&& res.0@[i].host_info.host_port == res.0@[i].host_port
                    &&& res.0@[i].container_info.container_port == IPERF_SERVER_PORT
                }
            &&& res.1 == (containers@.len() > old(allocator)@.len())
        }),
{
    let mut res: Vec<Exposure> = Vec::new();
    let mut i: usize = 0;
    let ghost pool = allocator@;
    while i < containers.len()
        invariant_except_break
            i <= containers.len(),
            i <= pool.len(),
            res@.len() == i,
            allocator@ == pool.skip(i as int),
            forall|j: int|
                0 <= j < i ==> #[trigger] res@[j] == startup_exposure(
                    containers@[j],
                    pool[j],
                    host_ip,
                    host_ifindex,
                ),
        ensures
            containers@.len() > pool.len() ==> i == pool.len() && allocator@.len() == 0,
            containers@.len() <= pool.len() ==> i == containers@.len(),
            i <= pool.len(),
            i <= containers@.len(),
            res@.len() == i,
            allocator@ == pool.skip(i as int),
            forall|j: int|
                0 <= j < i ==> #[trigger] res@[j] == startup_exposure(
                    containers@[j],
                    pool[j],
                    host_ip,
                    host_ifindex,
                ),
        decreases containers.len() - i,
    {
        let host_port = match allocator.allocate_next() {
            Some(p) => p,
            None => break,
        };
        assert(pool.skip(i as int).drop_first() =~= pool.skip(i + 1));
        let container = &containers[i];
        res.push(
            Exposure {
                host_port,
                container_info: ContainerInfo {
                    container_ip: container.ipv4_address,
                    container_mac: container.mac_address,
                    container_port: IPERF_SERVER_PORT,
                    ifindex: container.ifindex,
                },
                host_info: HostInfo { host_ip, host_port, host_ifindex },
            },
        );
        i = i + 1;
    }
    let exhausted = i < containers.len();
    (res, exhausted)
}

/// Nanoseconds in a `(seconds, nanoseconds)` reading of a clock.
pub fn timespec_to_nanos(sec: i64, nsec: i64) -> (res: u64)
    requires
        0 <= sec,
        0 <= nsec,
        sec * 1_000_000_000 + nsec <= u64::MAX,
    ensures
        res == sec * 1_000_000_000 + nsec,
{
    (sec as u64) * 1_000_000_000 + (nsec as u64)
}

/// Index of the first address entry of interface `ifname` that carries an
/// IPv4 address.
pub open spec fn first_ipv4_entry(addrs: Seq<(String, Option<u32>)>, ifname: Seq<char>) -> Option<int> {
    if exists|i: int| 0 <= i < addrs.len() && addrs[i].0@ == ifname && addrs[i].1 is Some {
        Some(
            choose|i: int|
                0 <= i < addrs.len() && addrs[i].0@ == ifname && addrs[i].1 is Some && forall|j: int|
                    0 <= j < i ==> !(addrs[j].0@ == ifname && addrs[j].1 is Some),
        )
    } else {
        None
    }
}

/// The IPv4 address of interface `ifname`, given the host's interface
/// addresses in the order the system lists them (interface name, and the
/// address when it is an IPv4 one): the first one found.
pub fn interface_ipv4(addrs: &Vec<(String, Option<u32>)>, ifname: &str) -> (res: Option<u32>)
    ensures
        match first_ipv4_entry(addrs@, ifname@) {
            Some(i) => res == addrs@[i].1,
            None => res is None,
        },
{
    let mut i: usize = 0;
    while i < addrs.len()
        invariant
            i <= addrs.len(),
            forall|j: int| 0 <= j < i ==> !(addrs@[j].0@ == ifname@ && addrs@[j].1 is Some),
        decreases addrs.len() - i,
    {
        if addrs[i].1.is_some() && str_eq(addrs[i].0.as_str(), ifname) {
            proof {
                let k = choose|k: int|
                    0 <= k < addrs@.len() && addrs@[k].0@ == ifname@ && addrs@[k].1 is Some
                        && forall|j: int| 0 <= j < k ==> !(addrs@[j].0@ == ifname@ && addrs@[j].1 is Some);
                if k < i {
                    assert(!(addrs@[k].0@ == ifname@ && addrs@[k].1 is Some));
                }
                if k > i {
                    assert(!(addrs@[i as int].0@ == ifname@ && addrs@[i as int].1 is Some));
                }
            }
            return addrs[i].1;
        }
        i = i + 1;
    }
    None
}

/// A start-up exposure binds the container's iperf port to the host port
/// it was given, in both directions: the forward entry is keyed by that
/// host port and the reverse entry maps the iperf port back to it, on the
/// host NIC's address and interface.
pub proof fn lemma_startup_exposure_binds_its_port(
    container: ContainerMetadata,
    host_port: u16,
    host_ip: u32,
    host_ifindex: u32,
)
    ensures
        ({
            let ex = startup_exposure(container, host_port, host_ip, host_ifindex);
            &&& ex.host_port == host_port
            &&& ex.host_info.host_port == host_port
            &&& ex.host_info.host_ip == host_ip
            &&& ex.host_info.host_ifindex == host_ifindex
            &&& ex.container_info.container_port == 5201
            &&& ex.container_info.container_ip == container.ipv4_address
            &&& ex.container_info.ifindex == container.ifindex
        }),
{
}

} // verus!
