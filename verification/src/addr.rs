//! Addresses to bind to, to connect to, and to ask a proxy for.

use vstd::prelude::*;

use socks::ToTargetAddr;

use crate::error;
use crate::error::{ErrorKind, IoError};

verus! {

/// An IP address, as its octets in network order.
#[derive(Debug, Clone, Copy, PartialEq, Eq)]
pub enum IpAddr {
    /// An IPv4 address.
    V4([u8; 4]),
    /// An IPv6 address.
    V6([u8; 16]),
}

impl IpAddr {
    /// Whether the address is an IPv4 address.
    pub fn is_ipv4(&self) -> (v4: bool)
        ensures
            v4 == (*self is V4),
    {
        match self {
            IpAddr::V4(_) => true,
            IpAddr::V6(_) => false,
        }
    }
}

/// An IP address and a port.
#[derive(Debug, Clone, Copy, PartialEq, Eq)]
pub enum SocketAddr {
    /// An IPv4 address and a port.
    V4([u8; 4], u16),
    /// An IPv6 address and a port.
    V6([u8; 16], u16),
}

impl SocketAddr {
    /// The address of `ip` with `port`.
    pub open spec fn of(ip: IpAddr, port: u16) -> SocketAddr {
        match ip {
            IpAddr::V4(octets) => SocketAddr::V4(octets, port),
            IpAddr::V6(octets) => SocketAddr::V6(octets, port),
        }
    }

    /// The address of `ip` with `port`.
    pub fn new(ip: IpAddr, port: u16) -> (addr: SocketAddr)
        ensures
            addr == SocketAddr::of(ip, port),
    {
        match ip {
            IpAddr::V4(octets) => SocketAddr::V4(octets, port),
            IpAddr::V6(octets) => SocketAddr::V6(octets, port),
        }
    }

    /// Whether the address is an IPv4 address.
    pub fn is_ipv4(&self) -> (v4: bool)
        ensures
            v4 == (*self is V4),
    {
        match self {
            SocketAddr::V4(_, _) => true,
            SocketAddr::V6(_, _) => false,
        }
    }
}

/// Whether an address can be reached from a socket that is bound to `local_ip`: always if the
/// socket is not bound, and otherwise if the two are of one family.
pub open spec fn family_matches(addr: SocketAddr, local_ip: Option<IpAddr>) -> bool {
    local_ip matches Some(local) ==> (local is V4) == (addr is V4)
}

/// Whether `addr` can be reached from a socket that is bound to `local_ip`.
pub fn matches_local_ip_family(addr: &SocketAddr, local_ip: Option<IpAddr>) -> (matches_family:
    bool)
    ensures
        matches_family == family_matches(*addr, local_ip),
{
    match local_ip {
        None => true,
        Some(local) => local.is_ipv4() == addr.is_ipv4(),
    }
}

/// Where a proxy is asked to connect to.
#[derive(Debug, Clone, PartialEq, Eq)]
pub enum TargetAddr {
    /// An address.
    Ip(SocketAddr),
    /// A host name, which the proxy resolves, and a port.
    Domain(String, u16),
}

/// What a [`TargetAddr`] stands for, in bytes.
#[verifier::ext_equal]
pub enum TargetView {
    /// The four octets of an IPv4 address, and the port.
    V4(Seq<u8>, u16),
    /// The sixteen octets of an IPv6 address, and the port.
    V6(Seq<u8>, u16),
    /// The bytes of the host name, and the port.
    Domain(Seq<u8>, u16),
}

/// The view of a socket address as a target.
pub open spec fn addr_target(addr: SocketAddr) -> TargetView {
    match addr {
        SocketAddr::V4(octets, port) => TargetView::V4(octets@, port),
        SocketAddr::V6(octets, port) => TargetView::V6(octets@, port),
    }
}

/// The bytes of a text: its UTF-8 encoding.
pub open spec fn text_bytes(text: Seq<char>) -> Seq<u8> {
    vstd::utf8::encode_utf8(text)
}

impl View for TargetAddr {
    type V = TargetView;

    open spec fn view(&self) -> TargetView {
        match *self {
            TargetAddr::Ip(addr) => addr_target(addr),
            TargetAddr::Domain(name, port) => TargetView::Domain(text_bytes(name@), port),
        }
    }
}

/// The octets of the IP address that a host name spells out: four for an IPv4 address in
/// dotted decimal, sixteen for an IPv6 address in any of its text forms, `None` for any other
/// text. Which texts these are is for the address parsers of the standard library, by way of
/// `socks::ToTargetAddr`.
pub uninterp spec fn ip_literal(host: Seq<char>) -> Option<Seq<u8>>;

/// The target that a text of the form `host:port` names, or `None` if it has no such form. It
/// is what `socks::ToTargetAddr` makes of the text.
pub uninterp spec fn text_target(text: Seq<char>) -> Option<TargetView>;

/// The target of a host name and a port: the address of `literal`, which the name spells out,
/// or else the name itself, for the proxy to resolve.
pub open spec fn host_target(literal: Option<Seq<u8>>, host: Seq<char>, port: u16) -> TargetView {
    match literal {
        None => TargetView::Domain(text_bytes(host), port),
        Some(octets) => if octets.len() == 4 {
            TargetView::V4(octets, port)
        } else {
            TargetView::V6(octets, port)
        },
    }
}

/// Calls `to_target_addr` of `socks::ToTargetAddr` on a pair of host and port, and takes the
/// octets out of an address through `socket2::SockAddr`. It is trusted that the call succeeds,
/// keeps the port, and gives the address that the host spells out, or the host as it stands if
/// it spells out none.
#[verifier::external_body]
fn host_to_target(host: &str, port: u16) -> (target: Result<TargetAddr, std::io::Error>)
    ensures
        target is Ok,
        target->Ok_0@ == host_target(ip_literal(host@), host@, port),
{
    Ok(match (host, port).to_target_addr()? {
        socks::TargetAddr::Domain(name, port) => TargetAddr::Domain(name, port),
        socks::TargetAddr::Ip(ip) => {
            let addr = socket2::SockAddr::from(ip);
            TargetAddr::Ip(match addr.as_socket_ipv4() {
                Some(v4) => SocketAddr::V4(v4.ip().octets(), v4.port()),
                None => {
                    let v6 = addr.as_socket_ipv6().unwrap();
                    SocketAddr::V6(v6.ip().octets(), v6.port())
                },
            })
        },
    })
}

/// The text `host:port`.
pub open spec fn host_port_text(host: Seq<char>, port: u16) -> Seq<char> {
    host + seq![':'] + error::decimal(port as nat)
}

/// Calls `to_target_addr` of `socks::ToTargetAddr` on a text, and takes the octets out of an
/// address through `socket2::SockAddr`. It is trusted that the result depends on the text
/// alone, that a text without a colon is refused, and that a host and a port with a colon
/// between them mean what the pair of them means, unless the host begins with a bracket, as an
/// IPv6 address in such a text does. What any other text means is left to the name
/// [`text_target`].
#[verifier::external_body]
fn text_to_target(text: &str) -> (target: Result<TargetAddr, std::io::Error>)
    ensures
        match target {
            Ok(addr) => text_target(text@) == Some(addr@),
            Err(_) => text_target(text@) is None,
        },
        !text@.contains(':') ==> target is Err,
        forall|host: Seq<char>, port: u16|
            text@ == #[trigger] host_port_text(host, port) && !(host.len() > 0 && host[0] == '[')
                ==> target is Ok && target->Ok_0@ == host_target(ip_literal(host), host, port),
{
    Ok(match text.to_target_addr()? {
        socks::TargetAddr::Domain(name, port) => TargetAddr::Domain(name, port),
        socks::TargetAddr::Ip(ip) => {
            let addr = socket2::SockAddr::from(ip);
            TargetAddr::Ip(match addr.as_socket_ipv4() {
                Some(v4) => SocketAddr::V4(v4.ip().octets(), v4.port()),
                None => {
                    let v6 = addr.as_socket_ipv6().unwrap();
                    SocketAddr::V6(v6.ip().octets(), v6.port())
                },
            })
        },
    })
}

/// A target as callers give it.
#[derive(Debug, Clone, PartialEq, Eq)]
pub enum Target {
    /// An address that is already resolved.
    Addr(SocketAddr),
    /// A host name and a port.
    HostPort(String, u16),
    /// A text of the form `host:port`.
    Text(String),
}

impl Target {
    /// The target that is meant, or `None` if the text does not name one.
    pub open spec fn resolved(self) -> Option<TargetView> {
        match self {
            Target::Addr(addr) => Some(addr_target(addr)),
            Target::HostPort(host, port) => Some(host_target(ip_literal(host@), host@, port)),
            Target::Text(text) => text_target(text@),
        }
    }

    /// The address or the host name to ask a proxy for. A text that names no target, such as one
    /// without a colon, is an error of the kind `InvalidInput`; the other two forms always name
    /// one. A text of the form `host:port`, with no bracket before it, names what the pair does.
    pub fn to_target_addr(&self) -> (target: Result<TargetAddr, IoError>)
        ensures
            match target {
                Ok(addr) => self.resolved() == Some(addr@),
                Err(error) => self.resolved() is None && error is Outside && error.kind()
                    == ErrorKind::InvalidInput,
            },
            self matches Target::Text(text) ==> {
                &&& !text@.contains(':') ==> target is Err
                &&& forall|host: Seq<char>, port: u16|
                    text@ == #[trigger] host_port_text(host, port) && !(host.len() > 0 && host[0]
                        == '[') ==> (target matches Ok(addr) && addr@ == host_target(
                        ip_literal(host),
                        host,
                        port,
                    ))
            },
    {
        let target = match self {
            Target::Addr(addr) => {
                return Ok(TargetAddr::Ip(*addr));
            },
            Target::HostPort(host, port) => host_to_target(host.as_str(), *port),
            Target::Text(text) => text_to_target(text.as_str()),
        };
        match target {
            Ok(addr) => Ok(addr),
            Err(cause) => Err(IoError::Outside { kind: ErrorKind::InvalidInput, cause }),
        }
    }
}

/// An address and a port are put together without loss, and the family stays what it is.
pub proof fn lemma_address_keeps_its_parts(
    ip: IpAddr,
    port: u16,
    addr: SocketAddr,
    ip_v4: bool,
    addr_v4: bool,
)
    requires
        call_ensures(SocketAddr::new, (ip, port), addr),
        call_ensures(IpAddr::is_ipv4, (&ip,), ip_v4),
        call_ensures(SocketAddr::is_ipv4, (&addr,), addr_v4),
    ensures
        has_parts(addr, ip, port),
        ip_v4 == addr_v4,
        ip_v4 <==> ip matches IpAddr::V4(_),
{
}

/// Whether a socket address is made of an IP address and a port.
pub open spec fn has_parts(addr: SocketAddr, ip: IpAddr, port: u16) -> bool {
    match (addr, ip) {
        (SocketAddr::V4(octets, number), IpAddr::V4(same)) => octets == same && number == port,
        (SocketAddr::V6(octets, number), IpAddr::V6(same)) => octets == same && number == port,
        _ => false,
    }
}

/// Whether an IP address and a socket address are of one family.
pub open spec fn one_family(ip: IpAddr, addr: SocketAddr) -> bool {
    (ip is V4 && addr is V4) || (ip is V6 && addr is V6)
}

/// Without a local IP every address can be reached, and with one just those of its family.
pub proof fn lemma_reachable_from_own_family(
    addr: SocketAddr,
    local: IpAddr,
    unbound: bool,
    bound: bool,
)
    requires
        call_ensures(matches_local_ip_family, (&addr, None::<IpAddr>), unbound),
        call_ensures(matches_local_ip_family, (&addr, Some(local)), bound),
    ensures
        unbound,
        bound == one_family(local, addr),
{
}

/// An address that is resolved already is asked for as it is.
pub proof fn lemma_address_is_its_own_target(addr: SocketAddr, target: Result<TargetAddr, IoError>)
    requires
        call_ensures(Target::to_target_addr, (&Target::Addr(addr),), target),
    ensures
        target matches Ok(found) && found@ == match addr {
            SocketAddr::V4(octets, port) => TargetView::V4(octets@, port),
            SocketAddr::V6(octets, port) => TargetView::V6(octets@, port),
        },
{
}

/// Whether a target is what a host name and a port mean: the port is kept, a name that spells out
/// an address stands for its octets, and any other name is passed on byte for byte.
pub open spec fn means_host(target: TargetAddr, host: Seq<char>, port: u16) -> bool {
    match target {
        TargetAddr::Domain(name, number) => {
            &&& number == port
            &&& ip_literal(host) is None
            &&& vstd::utf8::encode_utf8(name@) == vstd::utf8::encode_utf8(host)
        },
        TargetAddr::Ip(SocketAddr::V4(octets, number)) => {
            &&& number == port
            &&& ip_literal(host) == Some(octets@)
        },
        TargetAddr::Ip(SocketAddr::V6(octets, number)) => {
            &&& number == port
            &&& ip_literal(host) == Some(octets@)
        },
    }
}

/// A host name and a port always mean a target, with that port and that name. As a text with a
/// colon between them, and no bracket before them, they mean the same.
pub proof fn lemma_host_and_port_are_kept(
    host: String,
    port: u16,
    text: String,
    from_pair: Result<TargetAddr, IoError>,
    from_text: Result<TargetAddr, IoError>,
)
    requires
        call_ensures(Target::to_target_addr, (&Target::HostPort(host, port),), from_pair),
        call_ensures(Target::to_target_addr, (&Target::Text(text),), from_text),
    ensures
        from_pair matches Ok(target) && means_host(target, host@, port),
        (text@ == host@ + seq![':'] + error::decimal(port as nat) && !(host@.len() > 0 && host@[0]
            == '[')) ==> {
            &&& from_text matches Ok(target) && means_host(target, host@, port)
            &&& from_text->Ok_0@ == from_pair->Ok_0@
        },
        !text@.contains(':') ==> (from_text matches Err(error) && error.kind() is InvalidInput),
        match from_text {
            Ok(target) => text_target(text@) == Some(target@),
            Err(_) => text_target(text@) is None,
        },
{
    assert(text@ == host@ + seq![':'] + error::decimal(port as nat) ==> text@ == host_port_text(
        host@,
        port,
    ));
}

/// A target stands for all of its octets, or for every byte of its host name, and for its port.
pub proof fn lemma_target_stands_for_all_of_it(target: TargetAddr)
    ensures
        match (target, target@) {
            (TargetAddr::Ip(SocketAddr::V4(octets, port)), TargetView::V4(bytes, number)) => {
                &&& bytes.len() == 4
                &&& bytes == octets@
                &&& number == port
            },
            (TargetAddr::Ip(SocketAddr::V6(octets, port)), TargetView::V6(bytes, number)) => {
                &&& bytes.len() == 16
                &&& bytes == octets@
                &&& number == port
            },
            (TargetAddr::Domain(name, port), TargetView::Domain(bytes, number)) => {
                &&& bytes == vstd::utf8::encode_utf8(name@)
                &&& number == port
            },
            _ => false,
        },
{
}

} // verus!
