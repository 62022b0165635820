//! What the control plane knows of a container, and how it is assembled
//! from what the container engine and the host report.

use vstd::prelude::*;
use crate::ipv4::{parse_ipv4, parse_ipv4_spec};
use crate::text::{parse_unsigned, parse_unsigned_spec, str_chars, trim, trim_spec, IntErrorKind};

verus! {

/// A container attached to the managed network.
#[derive(Debug)]
pub struct ContainerMetadata {
    pub name: String,
    /// Host side of the container's veth pair.
    pub veth: String,
    pub ipv4_address: u32,
    /// Interface index of the host side of the veth pair.
    pub ifindex: u32,
    pub pid: Option<isize>,
    pub mac_address: [u8; 6],
}

/// Why a MAC address text is refused.
#[derive(Clone, Copy, PartialEq, Eq, Structural, Debug)]
pub enum MacParseError {
    /// Too short or too long; carries the text's length.
    InvalidLength(usize),
    /// A character that is neither a hex digit nor a delimiter, and where.
    InvalidCharacter(char, usize),
}

/// What `macaddr`'s parsing of a six-byte MAC address gives for a text.
pub uninterp spec fn mac_addr6_parse(s: Seq<char>) -> Result<Seq<u8>, MacParseError>;

/// `<macaddr::MacAddr6 as FromStr>::from_str`: the six bytes, or why the
/// text is refused. The result is named `mac_addr6_parse`.
#[verifier::external_body]
fn parse_mac_addr6(s: &str) -> (res: Result<[u8; 6], MacParseError>)
    ensures
        match res {
            Ok(m) => mac_addr6_parse(s@) == Ok::<Seq<u8>, MacParseError>(m@),
            Err(e) => mac_addr6_parse(s@) == Err::<Seq<u8>, MacParseError>(e),
        },
{
    match s.parse::<macaddr::MacAddr6>() {
        Ok(m) => Ok(m.into_array()),
        Err(macaddr::ParseError::InvalidLength(n)) => Err(MacParseError::InvalidLength(n)),
        Err(macaddr::ParseError::InvalidCharacter(c, p)) => Err(MacParseError::InvalidCharacter(c, p)),
    }
}

/// Parses a MAC address as the `macaddr` crate does (colon, hyphen or dot
/// separated, or bare hex).
pub fn parse_mac_address(s: &str) -> (res: Result<[u8; 6], MacParseError>)
    ensures
        match res {
            Ok(m) => mac_addr6_parse(s@) == Ok::<Seq<u8>, MacParseError>(m@),
            Err(e) => mac_addr6_parse(s@) == Err::<Seq<u8>, MacParseError>(e),
        },
{
    parse_mac_addr6(s)
}

/// Why a container cannot be described.
#[derive(Clone, Copy, PartialEq, Eq, Structural, Debug)]
pub enum ContainerError {
    /// The interface index read inside the container is not a number.
    InvalidIflink(IntErrorKind),
    /// No host interface has that index.
    InterfaceNotFound,
    /// The engine's MAC address is not one.
    InvalidMac(MacParseError),
    /// The engine reports no IPv4 address.
    MissingIpv4,
    /// The engine's IPv4 address is not one.
    InvalidIpv4,
}

/// The text before the first `/` of an address with prefix length.
pub open spec fn before_slash(cs: Seq<char>) -> Seq<char> {
    if exists|i: int| 0 <= i < cs.len() && cs[i] == '/' {
        cs.take(choose|i: int| 0 <= i < cs.len() && cs[i] == '/' && forall|j: int| 0 <= j < i ==> cs[j] != '/')
    } else {
        cs
    }
}

/// Index of the first host interface with index `ifindex`.
pub open spec fn first_interface(interfaces: Seq<(u32, String)>, ifindex: u32) -> Option<int> {
    if exists|i: int| 0 <= i < interfaces.len() && interfaces[i].0 == ifindex {
        Some(choose|i: int| 0 <= i < interfaces.len() && interfaces[i].0 == ifindex && forall|j: int| 0 <= j < i ==> interfaces[j].0 != ifindex)
    } else {
        None
    }
}

/// The first character sequence a missing text stands for.
pub open spec fn text_or_empty(s: Option<&str>) -> Seq<char> {
    match s {
        Some(t) => t@,
        None => Seq::empty(),
    }
}

fn first_slash_prefix(cs: &Vec<char>) -> (res: Vec<char>)
    ensures
        res@ == before_slash(cs@),
{
    let mut i: usize = 0;
    while i < cs.len() && cs[i] != '/'
        invariant
            i <= cs.len(),
            forall|j: int| 0 <= j < i ==> cs@[j] != '/',
        decreases cs.len() - i,
    {
        i = i + 1;
    }
    if i == cs.len() {
        assert(!(exists|j: int| 0 <= j < cs@.len() && cs@[j] == '/'));
        return cs.clone();
    }
    proof {
        let k = choose|k: int|
            0 <= k < cs@.len() && cs@[k] == '/' && forall|j: int| 0 <= j < k ==> cs@[j] != '/';
        if k < i {
            assert(cs@[k] != '/');
        }
        if k > i {
            assert(cs@[i as int] != '/');
        }
    }
    let mut res: Vec<char> = Vec::new();
    let mut j: usize = 0;
    while j < i
        invariant
            j <= i < cs.len(),
            res@ == cs@.take(j as int),
        decreases i - j,
    {
        res.push(cs[j]);
        j = j + 1;
        assert(res@ =~= cs@.take(j as int));
    }
    res
}

fn find_interface(interfaces: &Vec<(u32, String)>, ifindex: u32) -> (res: Option<usize>)
    ensures
        match first_interface(interfaces@, ifindex) {
            Some(i) => res == Some(i as usize),
            None => res is None,
        },
        res matches Some(i) ==> i < interfaces@.len() && interfaces@[i as int].0 == ifindex
            && first_interface(interfaces@, ifindex) == Some(i as int),
{
    let mut i: usize = 0;
    while i < interfaces.len()
        invariant
            i <= interfaces.len(),
            forall|j: int| 0 <= j < i ==> interfaces@[j].0 != ifindex,
        decreases interfaces.len() - i,
    {
        if interfaces[i].0 == ifindex {
            proof {
                let k = choose|k: int|
                    0 <= k < interfaces@.len() && interfaces@[k].0 == ifindex && forall|j: int|
                        0 <= j < k ==> interfaces@[j].0 != ifindex;
                if k < i {
                    assert(interfaces@[k].0 != ifindex);
                }
                if k > i {
                    assert(interfaces@[i as int].0 != ifindex);
                }
            }
            return Some(i);
        }
        i = i + 1;
    }
    None
}

/// What describing a container gives, when the engine's MAC text parses to
/// `mac` (the bytes, or why it is refused): checks happen in the order
/// interface index, host interface, MAC, IPv4 address.
pub open spec fn container_described(
    res: Result<ContainerMetadata, ContainerError>,
    name: Option<String>,
    mac: Result<Seq<u8>, MacParseError>,
    ipv4_cidr: Option<&str>,
    iflink_output: Seq<char>,
    interfaces: Seq<(u32, String)>,
    pid: Option<isize>,
) -> bool {
    match parse_unsigned_spec(trim_spec(iflink_output), u32::MAX as nat) {
        Err(e) => res == Err::<ContainerMetadata, ContainerError>(ContainerError::InvalidIflink(e)),
        Ok(iflink) => match first_interface(interfaces, iflink as u32) {
            None => res == Err::<ContainerMetadata, ContainerError>(ContainerError::InterfaceNotFound),
            Some(k) => match mac {
                Err(e) => res == Err::<ContainerMetadata, ContainerError>(ContainerError::InvalidMac(e)),
                Ok(mac) => match ipv4_cidr {
                    None => res == Err::<ContainerMetadata, ContainerError>(ContainerError::MissingIpv4),
                    Some(cidr) => match parse_ipv4_spec(before_slash(cidr@)) {
                        None => res == Err::<ContainerMetadata, ContainerError>(
                            ContainerError::InvalidIpv4,
                        ),
                        Some(ip) => (res matches Ok(meta) && {
                            &&& meta.name@ == match name {
                                Some(n) => n@,
                                None => Seq::<char>::empty(),
                            }
                            &&& meta.veth@ == interfaces[k].1@
                            &&& meta.ipv4_address == ip
                            &&& meta.ifindex == iflink
                            &&& meta.pid == pid
                            &&& meta.mac_address@ == mac
                        }),
                    },
                },
            },
        },
    }
}

/// The bytes of a parsed MAC address, or why it was refused.
pub open spec fn mac_result_view(mac: Result<[u8; 6], MacParseError>) -> Result<Seq<u8>, MacParseError> {
    match mac {
        Ok(m) => Ok(m@),
        Err(e) => Err(e),
    }
}

/// Describes a container from what the engine and host report, given how
/// its MAC text parsed: its name and IPv4 address (with prefix length) as
/// the engine lists them, the output of reading the peer interface index
/// inside the container, the host's interfaces (index, name), and its
/// process id.
#[verifier::rlimit(30)]
pub fn describe_container(
    name: Option<String>,
    mac: Result<[u8; 6], MacParseError>,
    ipv4_cidr: Option<&str>,
    iflink_output: &str,
    interfaces: &Vec<(u32, String)>,
    pid: Option<isize>,
) -> (res: Result<ContainerMetadata, ContainerError>)
    ensures
        container_described(res, name, mac_result_view(mac), ipv4_cidr, iflink_output@, interfaces@, pid),
{
    let trimmed = trim(iflink_output);
    let iflink = match parse_unsigned(&trimmed, 0xffff_ffff) {
        Ok(v) => v,
        Err(e) => return Err(ContainerError::InvalidIflink(e)),
    };
    let k = match find_interface(interfaces, iflink) {
        Some(k) => k,
        None => return Err(ContainerError::InterfaceNotFound),
    };
    let ghost name_text = match &name {
        Some(n) => n@,
        None => Seq::<char>::empty(),
    };
    let name = match name {
        Some(n) => n,
        None => String::new(),
    };
    assert(name@ == name_text);
    let veth = interfaces[k].1.clone();
    let ghost mac_in = mac;
    let mac = match mac {
        Ok(m) => m,
        Err(e) => return Err(ContainerError::InvalidMac(e)),
    };
    let cidr = match ipv4_cidr {
        Some(c) => c,
        None => return Err(ContainerError::MissingIpv4),
    };
    let cidr_chars = str_chars(cidr);
    let addr_chars = first_slash_prefix(&cidr_chars);
    let ip = match parse_ipv4(&addr_chars) {
        Some(ip) => ip,
        None => return Err(ContainerError::InvalidIpv4),
    };
    assert(veth@ == interfaces@[k as int].1@);
    assert(mac_result_view(mac_in) == Ok::<Seq<u8>, MacParseError>(mac@));
    assert(ip == parse_ipv4_spec(before_slash(cidr@))->0);
    assert(iflink == parse_unsigned_spec(trim_spec(iflink_output@), u32::MAX as nat)->Ok_0);
    Ok(ContainerMetadata { name, veth, ipv4_address: ip, ifindex: iflink, pid, mac_address: mac })
}

/// Describes a container from what the engine and host report, parsing
/// the engine's MAC text (missing counts as empty) as `macaddr` does.
pub fn container_metadata(
    name: Option<String>,
    mac_address: Option<&str>,
    ipv4_cidr: Option<&str>,
    iflink_output: &str,
    interfaces: &Vec<(u32, String)>,
    pid: Option<isize>,
) -> (res: Result<ContainerMetadata, ContainerError>)
    ensures
        container_described(
            res,
            name,
            mac_addr6_parse(text_or_empty(mac_address)),
            ipv4_cidr,
            iflink_output@,
            interfaces@,
            pid,
        ),
{
    let mac_text = match mac_address {
        Some(m) => m,
        None => "",
    };
    proof {
        reveal_strlit("");
        assert(""@ =~= Seq::<char>::empty());
    }
    let mac = parse_mac_address(mac_text);
    assert(mac_result_view(mac) == mac_addr6_parse(text_or_empty(mac_address)));
    describe_container(name, mac, ipv4_cidr, iflink_output, interfaces, pid)
}

} // verus!
