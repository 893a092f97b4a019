//! SOCKS5 (RFC 1928) wire logic: handshake decisions, address parsing and encoding,
//! UDP datagram framing and the client/target bookkeeping of the UDP relay.
use vstd::prelude::*;
use crate::assoc::{
    assoc_map, keys_unique, lemma_find_absent, lemma_find_at, lemma_find_push,
    lemma_find_update,
};
use crate::text::{push_char, push_chars, push_decimal, chars_of, decimal};
use crate::wire::{
    IpAddress, SocketAddress, address_bytes, spec_unspecified, unspecified_address, be_bytes, be_value, lemma_be_bytes_len,
    lemma_be_roundtrip, lemma_be_value_bound, lemma_pow256_values, pow256, push_address, push_be,
    read_be,
};
use crate::stats::{ClientSnapshot, TrafficSnapshot};
use crate::proxy::spec_report_period_ms;
use crate::text::{format_host_port, spec_host_port};

pub use crate::stats::TargetStat;

verus! {

/// What the SOCKS5 server reports: its traffic statistics.
pub type Socks5Snapshot = TrafficSnapshot;

/// One client's line in a [`Socks5Snapshot`].
pub type Socks5ClientSnapshot = ClientSnapshot;

/// Settings of a SOCKS5 server run.
#[derive(Clone, Debug)]
pub struct Socks5Config {
    pub listen_host: String,
    pub listen_port: u16,
    pub report_interval_ms: u64,
    pub client_idle_ttl_ms: u64,
    pub enable_udp: bool,
}

/// What a running SOCKS5 server tells its owner.
#[derive(Clone, Debug)]
pub enum Socks5Event {
    Status(String),
    Snapshot(Socks5Snapshot),
}

impl Socks5Config {
    /// The address the server listens on (TCP, and UDP when the relay is enabled).
    pub fn listen_addr(&self) -> (r: String)
        ensures
            r@ == spec_host_port(self.listen_host@, self.listen_port),
    {
        format_host_port(self.listen_host.as_str(), self.listen_port)
    }

    /// The period of the statistics reports: the configured interval, at least 100 ms.
    pub fn report_period_ms(&self) -> (r: u64)
        ensures
            r == spec_report_period_ms(self.report_interval_ms),
    {
        if self.report_interval_ms < 100 {
            100
        } else {
            self.report_interval_ms
        }
    }
}

/// Why a SOCKS5 exchange was refused.
#[derive(Clone, Copy, Debug, PartialEq, Eq, Structural)]
pub enum Socks5Error {
    UnsupportedVersion,
    NoSupportedAuthMethod,
    InvalidRequestVersion,
    UnsupportedAddressType,
    UnsupportedCommand,
    UdpAssociateDisabled,
    UdpPacketTooShort,
    InvalidUdpHeader,
    UdpFragmentationUnsupported,
    UdpIpv4TooShort,
    UdpDomainTooShort,
    UdpIpv6TooShort,
    UdpUnsupportedAddressType,
}

impl Socks5Error {
    pub open spec fn spec_message(self) -> Seq<char> {
        match self {
            Socks5Error::UnsupportedVersion => "unsupported socks version"@,
            Socks5Error::NoSupportedAuthMethod => "no supported auth method"@,
            Socks5Error::InvalidRequestVersion => "invalid request version"@,
            Socks5Error::UnsupportedAddressType => "unsupported address type"@,
            Socks5Error::UnsupportedCommand => "unsupported command"@,
            Socks5Error::UdpAssociateDisabled => "udp associate not enabled"@,
            Socks5Error::UdpPacketTooShort => "udp packet too short"@,
            Socks5Error::InvalidUdpHeader => "invalid udp header"@,
            Socks5Error::UdpFragmentationUnsupported => "udp fragmentation not supported"@,
            Socks5Error::UdpIpv4TooShort => "udp ipv4 too short"@,
            Socks5Error::UdpDomainTooShort => "udp domain too short"@,
            Socks5Error::UdpIpv6TooShort => "udp ipv6 too short"@,
            Socks5Error::UdpUnsupportedAddressType => "udp unsupported address type"@,
        }
    }

    /// The text reported for this error.
    pub fn message(&self) -> (r: &'static str)
        ensures
            r@ == self.spec_message(),
    {
        match self {
            Socks5Error::UnsupportedVersion => "unsupported socks version",
            Socks5Error::NoSupportedAuthMethod => "no supported auth method",
            Socks5Error::InvalidRequestVersion => "invalid request version",
            Socks5Error::UnsupportedAddressType => "unsupported address type",
            Socks5Error::UnsupportedCommand => "unsupported command",
            Socks5Error::UdpAssociateDisabled => "udp associate not enabled",
            Socks5Error::UdpPacketTooShort => "udp packet too short",
            Socks5Error::InvalidUdpHeader => "invalid udp header",
            Socks5Error::UdpFragmentationUnsupported => "udp fragmentation not supported",
            Socks5Error::UdpIpv4TooShort => "udp ipv4 too short",
            Socks5Error::UdpDomainTooShort => "udp domain too short",
            Socks5Error::UdpIpv6TooShort => "udp ipv6 too short",
            Socks5Error::UdpUnsupportedAddressType => "udp unsupported address type",
        }
    }
}

/// A destination as a client names it: an IP address, or a domain to be resolved.
#[derive(Clone, Debug)]
pub enum TargetAddress {
    Ip(SocketAddress),
    Domain(Vec<u8>, u16),
}

/// The abstract value of a [`TargetAddress`].
pub enum TargetSpec {
    Ip(SocketAddress),
    Domain(Seq<u8>, u16),
}

impl View for TargetAddress {
    type V = TargetSpec;

    open spec fn view(&self) -> TargetSpec {
        match self {
            TargetAddress::Ip(a) => TargetSpec::Ip(*a),
            TargetAddress::Domain(h, p) => TargetSpec::Domain(h@, *p),
        }
    }
}

/// Why an address field could not be read.
#[derive(Clone, Copy, Debug, PartialEq, Eq, Structural)]
pub enum AddressError {
    Ipv4TooShort,
    DomainTooShort,
    Ipv6TooShort,
    UnsupportedType,
}

/// Reads an address field of type `atyp` from the start of `b`: the address and the
/// number of bytes it took (address and port).
pub open spec fn spec_parse_address(atyp: u8, b: Seq<u8>) -> Result<(TargetSpec, int), AddressError> {
    if atyp == 1 {
        if b.len() < 6 {
            Err(AddressError::Ipv4TooShort)
        } else {
            Ok((
                TargetSpec::Ip(SocketAddress {
                    ip: IpAddress::V4(be_value(b.subrange(0, 4)) as u32),
                    port: be_value(b.subrange(4, 6)) as u16,
                }),
                6,
            ))
        }
    } else if atyp == 3 {
        if b.len() < 1 {
            Err(AddressError::DomainTooShort)
        } else {
            let n = b[0] as int;
            if b.len() < 1 + n + 2 {
                Err(AddressError::DomainTooShort)
            } else {
                Ok((
                    TargetSpec::Domain(b.subrange(1, 1 + n), be_value(b.subrange(1 + n, 3 + n)) as u16),
                    3 + n,
                ))
            }
        }
    } else if atyp == 4 {
        if b.len() < 18 {
            Err(AddressError::Ipv6TooShort)
        } else {
            Ok((
                TargetSpec::Ip(SocketAddress {
                    ip: IpAddress::V6(be_value(b.subrange(0, 16)) as u128),
                    port: be_value(b.subrange(16, 18)) as u16,
                }),
                18,
            ))
        }
    } else {
        Err(AddressError::UnsupportedType)
    }
}

/// Parses a UDP request datagram (`RSV RSV FRAG ATYP DST.ADDR DST.PORT DATA`): the
/// destination and the offset at which the data starts.
pub open spec fn spec_parse_udp(d: Seq<u8>) -> Result<(TargetSpec, int), Socks5Error> {
    if d.len() < 4 {
        Err(Socks5Error::UdpPacketTooShort)
    } else if d[0] != 0 || d[1] != 0 {
        Err(Socks5Error::InvalidUdpHeader)
    } else if d[2] != 0 {
        Err(Socks5Error::UdpFragmentationUnsupported)
    } else {
        match spec_parse_address(d[3], d.skip(4)) {
            Ok((t, n)) => Ok((t, 4 + n)),
            Err(AddressError::Ipv4TooShort) => Err(Socks5Error::UdpIpv4TooShort),
            Err(AddressError::DomainTooShort) => Err(Socks5Error::UdpDomainTooShort),
            Err(AddressError::Ipv6TooShort) => Err(Socks5Error::UdpIpv6TooShort),
            Err(AddressError::UnsupportedType) => Err(Socks5Error::UdpUnsupportedAddressType),
        }
    }
}

/// The UDP reply datagram carrying `data` from `source`: `0 0 0`, the address, the data.
pub open spec fn spec_build_udp(source: SocketAddress, data: Seq<u8>) -> Seq<u8> {
    seq![0u8, 0u8, 0u8] + address_bytes(source) + data
}

/// The reply to a request: `VER REP RSV` and the bound address.
pub open spec fn spec_reply(rep: u8, bound: SocketAddress) -> Seq<u8> {
    seq![5u8, rep, 0u8] + address_bytes(bound)
}

fn address_error_in_udp(e: AddressError) -> (r: Socks5Error)
    ensures
        r == (match e {
            AddressError::Ipv4TooShort => Socks5Error::UdpIpv4TooShort,
            AddressError::DomainTooShort => Socks5Error::UdpDomainTooShort,
            AddressError::Ipv6TooShort => Socks5Error::UdpIpv6TooShort,
            AddressError::UnsupportedType => Socks5Error::UdpUnsupportedAddressType,
        }),
{
    match e {
        AddressError::Ipv4TooShort => Socks5Error::UdpIpv4TooShort,
        AddressError::DomainTooShort => Socks5Error::UdpDomainTooShort,
        AddressError::Ipv6TooShort => Socks5Error::UdpIpv6TooShort,
        AddressError::UnsupportedType => Socks5Error::UdpUnsupportedAddressType,
    }
}

/// Reads an address field of type `atyp` from `b[start..]` (see [`spec_parse_address`]).
pub fn parse_address(atyp: u8, b: &[u8], start: usize) -> (r: Result<(TargetAddress, usize), AddressError>)
    requires
        start <= b.len(),
    ensures
        match (r, spec_parse_address(atyp, b@.skip(start as int))) {
            (Ok((t, n)), Ok((ts, ns))) => t@ == ts && n as int == ns,
            (Err(e), Err(es)) => e == es,
            _ => false,
        },
{
    let ghost s = b@.skip(start as int);
    let avail = b.len() - start;
    if atyp == 1 {
        if avail < 6 {
            return Err(AddressError::Ipv4TooShort);
        }
        let ip = read_be(b, start, 4);
        let port = read_be(b, start + 4, 2);
        proof {
            assert(b@.subrange(start as int, start + 4) =~= s.subrange(0, 4));
            assert(b@.subrange(start + 4, start + 6) =~= s.subrange(4, 6));
            lemma_be_value_bound(s.subrange(0, 4));
            lemma_be_value_bound(s.subrange(4, 6));
            lemma_pow256_values();
        }
        Ok((TargetAddress::Ip(SocketAddress { ip: IpAddress::V4(ip as u32), port: port as u16 }), 6))
    } else if atyp == 3 {
        if avail < 1 {
            return Err(AddressError::DomainTooShort);
        }
        let n = b[start] as usize;
        if avail < 1 + n + 2 {
            return Err(AddressError::DomainTooShort);
        }
        let host = vstd::slice::slice_to_vec(vstd::slice::slice_subrange(b, start + 1, start + 1 + n));
        let port = read_be(b, start + 1 + n, 2);
        proof {
            assert(host@ =~= s.subrange(1, 1 + n));
            assert(b@.subrange(start + 1 + n, start + 3 + n) =~= s.subrange(1 + n, 3 + n));
            lemma_be_value_bound(s.subrange(1 + n as int, 3 + n as int));
            lemma_pow256_values();
        }
        Ok((TargetAddress::Domain(host, port as u16), 3 + n))
    } else if atyp == 4 {
        if avail < 18 {
            return Err(AddressError::Ipv6TooShort);
        }
        let ip = read_be(b, start, 16);
        let port = read_be(b, start + 16, 2);
        proof {
            assert(b@.subrange(start as int, start + 16) =~= s.subrange(0, 16));
            assert(b@.subrange(start + 16, start + 18) =~= s.subrange(16, 18));
            lemma_be_value_bound(s.subrange(16, 18));
            lemma_pow256_values();
        }
        Ok((TargetAddress::Ip(SocketAddress { ip: IpAddress::V6(ip), port: port as u16 }), 18))
    } else {
        Err(AddressError::UnsupportedType)
    }
}

/// Parses a UDP request datagram (see [`spec_parse_udp`]).
pub fn parse_udp_datagram(data: &[u8]) -> (r: Result<(TargetAddress, usize), Socks5Error>)
    ensures
        match (r, spec_parse_udp(data@)) {
            (Ok((t, n)), Ok((ts, ns))) => t@ == ts && n as int == ns && n <= data.len(),
            (Err(e), Err(es)) => e == es,
            _ => false,
        },
{
    if data.len() < 4 {
        return Err(Socks5Error::UdpPacketTooShort);
    }
    if data[0] != 0 || data[1] != 0 {
        return Err(Socks5Error::InvalidUdpHeader);
    }
    if data[2] != 0 {
        return Err(Socks5Error::UdpFragmentationUnsupported);
    }
    match parse_address(data[3], data, 4) {
        Ok((t, n)) => Ok((t, 4 + n)),
        Err(e) => Err(address_error_in_udp(e)),
    }
}

/// Frames `data` received from `source` as a UDP reply datagram for the client.
pub fn build_udp_datagram(source: SocketAddress, data: &[u8]) -> (r: Vec<u8>)
    ensures
        r@ == spec_build_udp(source, data@),
{
    let mut packet: Vec<u8> = Vec::new();
    packet.push(0u8);
    packet.push(0u8);
    packet.push(0u8);
    push_address(&mut packet, source);
    let mut i: usize = 0;
    let ghost head = packet@;
    while i < data.len()
        invariant
            i <= data.len(),
            packet@ == head + data@.take(i as int),
        decreases data.len() - i,
    {
        packet.push(data[i]);
        proof {
            assert(data@.take(i + 1) == data@.take(i as int).push(data@[i as int]));
        }
        i = i + 1;
    }
    proof {
        assert(data@.take(data.len() as int) =~= data@);
        assert(head =~= seq![0u8, 0u8, 0u8] + address_bytes(source));
    }
    packet
}

/// The reply to a request: version 5, the reply code, a reserved zero and the address.
pub fn build_reply(rep: u8, bound: SocketAddress) -> (r: Vec<u8>)
    ensures
        r@ == spec_reply(rep, bound),
{
    let mut reply: Vec<u8> = Vec::new();
    reply.push(5u8);
    reply.push(rep);
    reply.push(0u8);
    push_address(&mut reply, bound);
    proof {
        assert(reply@ =~= spec_reply(rep, bound));
    }
    reply
}

/// What an address encodes back to: parsing a framed datagram gives back the source
/// and the data, for every IP source and every payload.
pub proof fn lemma_udp_roundtrip(source: SocketAddress, data: Seq<u8>)
    ensures
        ({
            let d = spec_build_udp(source, data);
            &&& spec_parse_udp(d) matches Ok((t, n))
            &&& t == TargetSpec::Ip(source)
            &&& d.skip(n) == data
        }),
{
    let d = spec_build_udp(source, data);
    let b = d.skip(4);
    lemma_pow256_values();
    lemma_be_roundtrip(source.port as nat, 2);
    match source.ip {
        IpAddress::V4(x) => {
            lemma_be_roundtrip(x as nat, 4);
            assert(b.subrange(0, 4) =~= be_bytes(x as nat, 4));
            assert(b.subrange(4, 6) =~= be_bytes(source.port as nat, 2));
            assert((x as nat) % pow256(4) == x as nat);
            assert((source.port as nat) % pow256(2) == source.port as nat);
            assert(d.skip(10) =~= data);
        },
        IpAddress::V6(x) => {
            lemma_be_roundtrip(x as nat, 16);
            assert(b.subrange(0, 16) =~= be_bytes(x as nat, 16));
            assert(b.subrange(16, 18) =~= be_bytes(source.port as nat, 2));
            assert((x as nat) % pow256(16) == x as nat);
            assert((source.port as nat) % pow256(2) == source.port as nat);
            assert(d.skip(22) =~= data);
        },
    }
}

/// Reads the greeting header `VER NMETHODS`: the number of method bytes that follow.
pub fn parse_greeting(header: &[u8]) -> (r: Result<usize, Socks5Error>)
    requires
        header.len() == 2,
    ensures
        header[0] != 5 ==> r == Err::<usize, Socks5Error>(Socks5Error::UnsupportedVersion),
        header[0] == 5 ==> r == Ok::<usize, Socks5Error>(header[1] as usize),
{
    if header[0] != 5 {
        Err(Socks5Error::UnsupportedVersion)
    } else {
        Ok(header[1] as usize)
    }
}

/// The method the server selects: "no authentication" (0) when the client offers it,
/// otherwise "no acceptable method" (0xFF).
pub fn select_auth_method(methods: &[u8]) -> (r: u8)
    ensures
        r == if methods@.contains(0u8) { 0u8 } else { 0xFFu8 },
{
    let mut i: usize = 0;
    while i < methods.len()
        invariant
            i <= methods.len(),
            forall|j: int| 0 <= j < i ==> methods@[j] != 0u8,
        decreases methods.len() - i,
    {
        if methods[i] == 0 {
            assert(methods@[i as int] == 0u8);
            return 0;
        }
        i = i + 1;
    }
    0xFF
}

/// Reads the request header `VER CMD RSV ATYP`: the command and the address type.
pub fn parse_request_header(req: &[u8]) -> (r: Result<(u8, u8), Socks5Error>)
    requires
        req.len() == 4,
    ensures
        req[0] != 5 ==> r == Err::<(u8, u8), Socks5Error>(Socks5Error::InvalidRequestVersion),
        req[0] == 5 ==> r == Ok::<(u8, u8), Socks5Error>((req[1], req[3])),
{
    if req[0] != 5 {
        Err(Socks5Error::InvalidRequestVersion)
    } else {
        Ok((req[1], req[3]))
    }
}

/// How the server answers a request's command.
#[derive(Clone, Copy, Debug, PartialEq, Eq, Structural)]
pub enum CommandAction {
    /// CONNECT: open a TCP connection to the target and tunnel.
    Connect,
    /// UDP ASSOCIATE: reply with the relay's address and hold the control connection.
    UdpAssociate,
    /// Reply "command not supported" (7) and end with this error.
    Reject(Socks5Error),
}

/// The reply code of a refusal: "command not supported".
pub const REPLY_COMMAND_NOT_SUPPORTED: u8 = 7;

/// Dispatches a command: 1 is CONNECT, 3 is UDP ASSOCIATE (when the relay is on).
pub fn command_action(cmd: u8, udp_enabled: bool) -> (r: CommandAction)
    ensures
        cmd == 1 ==> r == CommandAction::Connect,
        cmd == 3 && udp_enabled ==> r == CommandAction::UdpAssociate,
        cmd == 3 && !udp_enabled ==> r == CommandAction::Reject(Socks5Error::UdpAssociateDisabled),
        cmd != 1 && cmd != 3 ==> r == CommandAction::Reject(Socks5Error::UnsupportedCommand),
{
    if cmd == 1 {
        CommandAction::Connect
    } else if cmd == 3 {
        if udp_enabled {
            CommandAction::UdpAssociate
        } else {
            CommandAction::Reject(Socks5Error::UdpAssociateDisabled)
        }
    } else {
        CommandAction::Reject(Socks5Error::UnsupportedCommand)
    }
}

/// Where a SOCKS5 handshake stands.
#[derive(Clone, Copy, Debug, PartialEq, Eq, Structural)]
pub enum HandshakePhase {
    /// Waiting for `VER NMETHODS`.
    Greeting,
    /// Waiting for the offered methods.
    Methods,
    /// Waiting for `VER CMD RSV ATYP`.
    Request,
    /// Waiting for the address of this type for this command.
    Address { cmd: u8, atyp: u8 },
    /// Waiting for the length of a domain name.
    DomainLength { cmd: u8 },
    /// Waiting for a domain name of this length and the port.
    Domain { cmd: u8, len: u8 },
    /// The handshake is over.
    Finished,
}

/// What the server does next in a handshake.
#[derive(Debug)]
pub enum HandshakeAction {
    /// Read exactly this many bytes and hand them to `receive`.
    Read(usize),
    /// Write these bytes, then read exactly this many and hand them to `receive`.
    WriteThenRead(Vec<u8>, usize),
    /// Write these bytes, then end with the error.
    WriteThenFail(Vec<u8>, Socks5Error),
    /// End with the error.
    Fail(Socks5Error),
    /// The client asks for `cmd` towards `target`.
    Request { cmd: u8, target: TargetAddress },
}

/// A SOCKS5 handshake (no authentication) as a sequence of reads and writes.
pub struct Handshake {
    pub phase: HandshakePhase,
}

/// The bytes an address of type `atyp` takes after the request header, the domain's
/// length byte aside; none for an unknown type.
pub open spec fn address_read_len(atyp: u8) -> Option<usize> {
    if atyp == 1 {
        Some(6)
    } else if atyp == 4 {
        Some(18)
    } else if atyp == 3 {
        Some(1)
    } else {
        None
    }
}

impl Handshake {
    /// A handshake waiting for the greeting; the first move is to read its two bytes.
    pub fn new() -> (r: (Self, HandshakeAction))
        ensures
            r.0.phase == HandshakePhase::Greeting,
            r.1 matches HandshakeAction::Read(n) && n == 2,
    {
        (Handshake { phase: HandshakePhase::Greeting }, HandshakeAction::Read(2))
    }

    /// Takes the bytes the last move read and says what comes next: the method
    /// selection (no authentication, or a refusal when the client does not offer it),
    /// the request header, then the address by its type, and finally the request.
    pub fn receive(&mut self, data: &[u8]) -> (r: HandshakeAction)
        ensures
            match old(self).phase {
                HandshakePhase::Greeting => if data@.len() != 2 {
                    r matches HandshakeAction::Fail(e) && e == Socks5Error::UnsupportedVersion
                } else if data@[0] != 5 {
                    r matches HandshakeAction::Fail(e) && e == Socks5Error::UnsupportedVersion
                } else {
                    r matches HandshakeAction::Read(n) && n == data@[1] as usize && final(self).phase == HandshakePhase::Methods
                },
                HandshakePhase::Methods => if data@.contains(0u8) {
                    r matches HandshakeAction::WriteThenRead(w, n) && w@ == seq![5u8, 0u8] && n == 4
                        && final(self).phase == HandshakePhase::Request
                } else {
                    r matches HandshakeAction::WriteThenFail(w, e) && w@ == seq![5u8, 0xFFu8] && e
                        == Socks5Error::NoSupportedAuthMethod && final(self).phase == HandshakePhase::Finished
                },
                HandshakePhase::Request => if data@.len() != 4 || data@[0] != 5 {
                    r matches HandshakeAction::Fail(e) && e == Socks5Error::InvalidRequestVersion
                } else {
                    match address_read_len(data@[3]) {
                        None => r matches HandshakeAction::Fail(e) && e == Socks5Error::UnsupportedAddressType,
                        Some(n) => r matches HandshakeAction::Read(m) && m == n && final(self).phase == if data@[3] == 3 {
                            HandshakePhase::DomainLength { cmd: data@[1] }
                        } else {
                            HandshakePhase::Address { cmd: data@[1], atyp: data@[3] }
                        },
                    }
                },
                HandshakePhase::DomainLength { cmd } => if data@.len() != 1 {
                    r matches HandshakeAction::Fail(e) && e == Socks5Error::UnsupportedAddressType
                } else {
                    r matches HandshakeAction::Read(m) && m == data@[0] as usize + 2 && final(self).phase
                        == HandshakePhase::Domain { cmd, len: data@[0] }
                },
                HandshakePhase::Address { cmd, atyp } => match spec_parse_address(atyp, data@) {
                    Ok((t, _)) => r matches HandshakeAction::Request { cmd: c, target } && c == cmd && target@ == t
                        && final(self).phase == HandshakePhase::Finished,
                    Err(_) => r matches HandshakeAction::Fail(e) && e == Socks5Error::UnsupportedAddressType,
                },
                HandshakePhase::Domain { cmd, len } => match spec_parse_address(3, seq![len] + data@) {
                    Ok((t, _)) => r matches HandshakeAction::Request { cmd: c, target } && c == cmd && target@ == t
                        && final(self).phase == HandshakePhase::Finished,
                    Err(_) => r matches HandshakeAction::Fail(e) && e == Socks5Error::UnsupportedAddressType,
                },
                HandshakePhase::Finished => r matches HandshakeAction::Fail(e) && e == Socks5Error::InvalidRequestVersion,
            },
    {
        match self.phase {
            HandshakePhase::Greeting => {
                if data.len() != 2 || data[0] != 5 {
                    self.phase = HandshakePhase::Finished;
                    return HandshakeAction::Fail(Socks5Error::UnsupportedVersion);
                }
                self.phase = HandshakePhase::Methods;
                HandshakeAction::Read(data[1] as usize)
            },
            HandshakePhase::Methods => {
                let method = select_auth_method(data);
                let mut reply: Vec<u8> = Vec::new();
                reply.push(5u8);
                reply.push(method);
                if method == 0xFF {
                    self.phase = HandshakePhase::Finished;
                    HandshakeAction::WriteThenFail(reply, Socks5Error::NoSupportedAuthMethod)
                } else {
                    self.phase = HandshakePhase::Request;
                    HandshakeAction::WriteThenRead(reply, 4)
                }
            },
            HandshakePhase::Request => {
                if data.len() != 4 || data[0] != 5 {
                    self.phase = HandshakePhase::Finished;
                    return HandshakeAction::Fail(Socks5Error::InvalidRequestVersion);
                }
                let cmd = data[1];
                let atyp = data[3];
                if atyp == 1 {
                    self.phase = HandshakePhase::Address { cmd, atyp };
                    HandshakeAction::Read(6)
                } else if atyp == 4 {
                    self.phase = HandshakePhase::Address { cmd, atyp };
                    HandshakeAction::Read(18)
                } else if atyp == 3 {
                    self.phase = HandshakePhase::DomainLength { cmd };
                    HandshakeAction::Read(1)
                } else {
                    self.phase = HandshakePhase::Finished;
                    HandshakeAction::Fail(Socks5Error::UnsupportedAddressType)
                }
            },
            HandshakePhase::DomainLength { cmd } => {
                if data.len() != 1 {
                    self.phase = HandshakePhase::Finished;
                    return HandshakeAction::Fail(Socks5Error::UnsupportedAddressType);
                }
                self.phase = HandshakePhase::Domain { cmd, len: data[0] };
                HandshakeAction::Read(data[0] as usize + 2)
            },
            HandshakePhase::Address { cmd, atyp } => {
                self.phase = HandshakePhase::Finished;
                assert(data@.skip(0) =~= data@);
                match parse_address(atyp, data, 0) {
                    Ok((target, _)) => HandshakeAction::Request { cmd, target },
                    Err(_) => HandshakeAction::Fail(Socks5Error::UnsupportedAddressType),
                }
            },
            HandshakePhase::Domain { cmd, len } => {
                self.phase = HandshakePhase::Finished;
                let mut field: Vec<u8> = Vec::new();
                field.push(len);
                let mut i: usize = 0;
                while i < data.len()
                    invariant
                        i <= data@.len(),
                        field@ == seq![len] + data@.take(i as int),
                    decreases data.len() - i,
                {
                    field.push(data[i]);
                    proof {
                        assert(field@ =~= seq![len] + data@.take(i + 1));
                    }
                    i = i + 1;
                }
                proof {
                    assert(data@.take(data@.len() as int) =~= data@);
                    assert(field@.skip(0) =~= field@);
                }
                match parse_address(3, field.as_slice(), 0) {
                    Ok((target, _)) => HandshakeAction::Request { cmd, target },
                    Err(_) => HandshakeAction::Fail(Socks5Error::UnsupportedAddressType),
                }
            },
            HandshakePhase::Finished => HandshakeAction::Fail(Socks5Error::InvalidRequestVersion),
        }
    }
}

/// Decimal dotted notation of an IPv4 address.
pub open spec fn dotted_quad(x: u32) -> Seq<char> {
    let b = be_bytes(x as nat, 4);
    decimal(b[0] as nat) + seq!['.'] + decimal(b[1] as nat) + seq!['.'] + decimal(b[2] as nat)
        + seq!['.'] + decimal(b[3] as nat)
}

/// The text of bytes decoded as UTF-8 with invalid sequences replaced.
pub uninterp spec fn lossy_utf8(bytes: Seq<u8>) -> Seq<char>;

/// Bytes decoded as UTF-8, invalid sequences replaced (std's `String::from_utf8_lossy`).
#[verifier::external_body]
fn utf8_lossy(bytes: &[u8]) -> (r: String)
    ensures
        r@ == lossy_utf8(bytes@),
{
    String::from_utf8_lossy(bytes).to_string()
}

/// How a target is written in logs and statistics: `a.b.c.d:port`, `host:port` or
/// `[v6]:port`, where `v6` is the textual form of an IPv6 address.
pub open spec fn spec_target_text(t: TargetSpec, v6: Seq<char>) -> Seq<char> {
    match t {
        TargetSpec::Ip(a) => match a.ip {
            IpAddress::V4(x) => dotted_quad(x) + seq![':'] + decimal(a.port as nat),
            IpAddress::V6(x) => seq!['['] + v6 + seq![']', ':'] + decimal(
                a.port as nat,
            ),
        },
        TargetSpec::Domain(h, p) => lossy_utf8(h) + seq![':'] + decimal(p as nat),
    }
}

/// Appends the dotted notation of an IPv4 address.
fn push_dotted_quad(out: &mut String, x: u32)
    ensures
        final(out)@ == old(out)@ + dotted_quad(x),
{
    let mut bytes: Vec<u8> = Vec::new();
    push_be(&mut bytes, x as u128, 4);
    proof {
        lemma_be_bytes_len(x as nat, 4);
        assert(bytes@ =~= be_bytes(x as nat, 4));
    }
    push_decimal(out, bytes[0] as u64);
    push_char(out, '.');
    push_decimal(out, bytes[1] as u64);
    push_char(out, '.');
    push_decimal(out, bytes[2] as u64);
    push_char(out, '.');
    push_decimal(out, bytes[3] as u64);
    proof {
        assert(final(out)@ =~= old(out)@ + dotted_quad(x));
    }
}

/// The text of a target (see [`spec_target_text`]); `ipv6` is the textual form of
/// the address when it is an IPv6 one, and is not used otherwise.
pub fn target_text(t: &TargetAddress, ipv6: &str) -> (r: String)
    ensures
        r@ == spec_target_text(t@, ipv6@),
{
    let mut out = String::new();
    match t {
        TargetAddress::Ip(a) => {
            match a.ip {
                IpAddress::V4(x) => {
                    push_dotted_quad(&mut out, x);
                },
                IpAddress::V6(x) => {
                    push_char(&mut out, '[');
                    let cs = chars_of(ipv6);
                    push_chars(&mut out, cs.as_slice());
                    push_char(&mut out, ']');
                },
            }
            push_char(&mut out, ':');
            push_decimal(&mut out, a.port as u64);
        },
        TargetAddress::Domain(h, p) => {
            let text = utf8_lossy(h.as_slice());
            let cs = chars_of(text.as_str());
            push_chars(&mut out, cs.as_slice());
            push_char(&mut out, ':');
            push_decimal(&mut out, *p as u64);
        },
    }
    proof {
        assert(out@ =~= spec_target_text(t@, ipv6@));
    }
    out
}

/// Position of the client entry for `ip`.
fn find_client(v: &Vec<(IpAddress, SocketAddress)>, ip: IpAddress) -> (r: Option<usize>)
    ensures
        r matches Some(i) ==> i < v@.len() && v@[i as int].0 == ip,
        r is None ==> forall|i: int| 0 <= i < v@.len() ==> v@[i].0 != ip,
{
    let mut i: usize = 0;
    while i < v.len()
        invariant
            i <= v@.len(),
            forall|j: int| 0 <= j < i ==> v@[j].0 != ip,
        decreases v.len() - i,
    {
        if v[i].0 == ip {
            return Some(i);
        }
        i = i + 1;
    }
    None
}

/// Position of the mapping for `target`.
fn find_target(v: &Vec<(SocketAddress, SocketAddress)>, target: SocketAddress) -> (r: Option<usize>)
    ensures
        r matches Some(i) ==> i < v@.len() && v@[i as int].0 == target,
        r is None ==> forall|i: int| 0 <= i < v@.len() ==> v@[i].0 != target,
{
    let mut i: usize = 0;
    while i < v.len()
        invariant
            i <= v@.len(),
            forall|j: int| 0 <= j < i ==> v@[j].0 != target,
        decreases v.len() - i,
    {
        if v[i].0 == target {
            return Some(i);
        }
        i = i + 1;
    }
    None
}

/// Bookkeeping of the UDP relay: the UDP address of each associated client (by IP)
/// and, for each target reached, the client that reached it.
pub struct UdpRelayState {
    client_by_ip: Vec<(IpAddress, SocketAddress)>,
    target_to_client: Vec<(SocketAddress, SocketAddress)>,
    /// The address the relay socket is bound to, once bound.
    pub bind_addr: Option<SocketAddress>,
}

/// The abstract state of a [`UdpRelayState`].
pub struct RelayView {
    pub clients: Map<IpAddress, SocketAddress>,
    pub targets: Map<SocketAddress, SocketAddress>,
    pub bind_addr: Option<SocketAddress>,
}

impl View for UdpRelayState {
    type V = RelayView;

    closed spec fn view(&self) -> RelayView {
        RelayView {
            clients: assoc_map(self.client_by_ip@),
            targets: assoc_map(self.target_to_client@),
            bind_addr: self.bind_addr,
        }
    }
}

/// Whether a datagram from `addr` comes from an associated client, and the state after:
/// a client registered without a UDP port is pinned to the first address that sends.
pub open spec fn spec_is_client(v: RelayView, addr: SocketAddress) -> (bool, RelayView) {
    if v.clients.dom().contains(addr.ip) {
        if v.clients[addr.ip].port == 0 {
            (true, RelayView { clients: v.clients.insert(addr.ip, addr), ..v })
        } else {
            (v.clients[addr.ip] == addr, v)
        }
    } else {
        (false, v)
    }
}

/// What the relay does with one datagram.
#[derive(Debug)]
pub enum RelayAction {
    /// Ignore it.
    Drop,
    /// A client's request: send `payload[data_offset..]` to `target`.
    Forward { target: TargetAddress, data_offset: usize },
    /// A target's answer: send `packet` to `client`.
    Return { client: SocketAddress, packet: Vec<u8> },
}

impl UdpRelayState {
    pub closed spec fn wf(&self) -> bool {
        keys_unique(self.client_by_ip@) && keys_unique(self.target_to_client@)
    }

    /// No clients, no targets, not bound.
    pub fn new() -> (r: Self)
        ensures
            r.wf(),
            r@.clients == Map::<IpAddress, SocketAddress>::empty(),
            r@.targets == Map::<SocketAddress, SocketAddress>::empty(),
            r@.bind_addr is None,
    {
        let r = UdpRelayState { client_by_ip: Vec::new(), target_to_client: Vec::new(), bind_addr: None };
        assert(r@.clients =~= Map::<IpAddress, SocketAddress>::empty());
        assert(r@.targets =~= Map::<SocketAddress, SocketAddress>::empty());
        r
    }

    /// Registers a client's IP after its UDP ASSOCIATE; its UDP port is learnt from its
    /// first datagram. An IP already registered keeps its address.
    pub fn register_client(&mut self, ip: IpAddress)
        requires
            old(self).wf(),
        ensures
            final(self).wf(),
            final(self)@ == (if old(self)@.clients.dom().contains(ip) {
                old(self)@
            } else {
                RelayView { clients: old(self)@.clients.insert(ip, spec_unspecified()), ..old(self)@ }
            }),
    {
        match find_client(&self.client_by_ip, ip) {
            Some(i) => {
                proof {
                    lemma_find_at(self.client_by_ip@, i as int);
                }
            },
            None => {
                proof {
                    lemma_find_absent(self.client_by_ip@, ip);
                    lemma_find_push(self.client_by_ip@, ip, spec_unspecified());
                }
                self.client_by_ip.push((ip, unspecified_address()));
            },
        }
    }

    /// Whether a datagram from `addr` comes from an associated client (see
    /// [`spec_is_client`]).
    pub fn is_client_addr(&mut self, addr: SocketAddress) -> (r: bool)
        requires
            old(self).wf(),
        ensures
            final(self).wf(),
            (r, final(self)@) == spec_is_client(old(self)@, addr),
    {
        match find_client(&self.client_by_ip, addr.ip) {
            Some(i) => {
                proof {
                    lemma_find_at(self.client_by_ip@, i as int);
                }
                let existing = self.client_by_ip[i].1;
                if existing.port == 0 {
                    proof {
                        lemma_find_update(self.client_by_ip@, i as int, addr);
                    }
                    self.client_by_ip.set(i, (addr.ip, addr));
                    true
                } else {
                    existing == addr
                }
            },
            None => {
                proof {
                    lemma_find_absent(self.client_by_ip@, addr.ip);
                }
                false
            },
        }
    }

    /// Remembers that `client` sent to `target`: the client's UDP address is `client`
    /// and answers from `target` go back to it.
    pub fn record_target_mapping(&mut self, client: SocketAddress, target: SocketAddress)
        requires
            old(self).wf(),
        ensures
            final(self).wf(),
            final(self)@ == (RelayView {
                clients: old(self)@.clients.insert(client.ip, client),
                targets: old(self)@.targets.insert(target, client),
                bind_addr: old(self)@.bind_addr,
            }),
    {
        match find_client(&self.client_by_ip, client.ip) {
            Some(i) => {
                proof {
                    lemma_find_update(self.client_by_ip@, i as int, client);
                }
                self.client_by_ip.set(i, (client.ip, client));
            },
            None => {
                proof {
                    lemma_find_absent(self.client_by_ip@, client.ip);
                    lemma_find_push(self.client_by_ip@, client.ip, client);
                }
                self.client_by_ip.push((client.ip, client));
            },
        }
        match find_target(&self.target_to_client, target) {
            Some(i) => {
                proof {
                    lemma_find_update(self.target_to_client@, i as int, client);
                }
                self.target_to_client.set(i, (target, client));
            },
            None => {
                proof {
                    lemma_find_absent(self.target_to_client@, target);
                    lemma_find_push(self.target_to_client@, target, client);
                }
                self.target_to_client.push((target, client));
            },
        }
    }

    /// The client that last reached `target`, if any.
    pub fn client_for_target(&self, target: SocketAddress) -> (r: Option<SocketAddress>)
        requires
            self.wf(),
        ensures
            r == (if self@.targets.dom().contains(target) {
                Some(self@.targets[target])
            } else {
                None
            }),
    {
        match find_target(&self.target_to_client, target) {
            Some(i) => {
                proof {
                    lemma_find_at(self.target_to_client@, i as int);
                }
                Some(self.target_to_client[i].1)
            },
            None => {
                proof {
                    lemma_find_absent(self.target_to_client@, target);
                }
                None
            },
        }
    }

    /// Decides what to do with a datagram of `payload` from `src`: datagrams shorter than
    /// four bytes are dropped; a client's datagram is parsed and forwarded (dropped when
    /// malformed); another sender's datagram goes back, framed, to the client that
    /// reached it (dropped when none did).
    pub fn relay_datagram(&mut self, src: SocketAddress, payload: &[u8]) -> (r: RelayAction)
        requires
            old(self).wf(),
        ensures
            final(self).wf(),
            payload.len() < 4 ==> final(self)@ == old(self)@ && r is Drop,
            payload.len() >= 4 ==> final(self)@ == spec_is_client(old(self)@, src).1,
            payload.len() >= 4 && spec_is_client(old(self)@, src).0 ==> match (
                r,
                spec_parse_udp(payload@),
            ) {
                (RelayAction::Forward { target, data_offset }, Ok((t, n))) => target@ == t
                    && data_offset as int == n && data_offset <= payload.len(),
                (RelayAction::Drop, Err(_)) => true,
                _ => false,
            },
            payload.len() >= 4 && !spec_is_client(old(self)@, src).0 ==> match r {
                RelayAction::Return { client, packet } => old(self)@.targets.dom().contains(src)
                    && client == old(self)@.targets[src] && packet@ == spec_build_udp(
                    src,
                    payload@,
                ),
                RelayAction::Drop => !old(self)@.targets.dom().contains(src),
                _ => false,
            },
    {
        if payload.len() < 4 {
            return RelayAction::Drop;
        }
        if self.is_client_addr(src) {
            match parse_udp_datagram(payload) {
                Ok((target, data_offset)) => RelayAction::Forward { target, data_offset },
                Err(_) => RelayAction::Drop,
            }
        } else {
            match self.client_for_target(src) {
                Some(client) => RelayAction::Return {
                    client,
                    packet: build_udp_datagram(src, payload),
                },
                None => RelayAction::Drop,
            }
        }
    }
}

/// Answers find their way back: once `client` has sent to `target`, the client is
/// recognised as such, and a datagram from `target` (when `target` is not itself an
/// associated client) is returned to `client`, framed with `target` as its source.
pub proof fn lemma_answers_return_to_sender(v: RelayView, client: SocketAddress, target: SocketAddress)
    requires
        target.ip != client.ip,
        !(v.clients.dom().contains(target.ip)),
    ensures
        ({
            let w = RelayView {
                clients: v.clients.insert(client.ip, client),
                targets: v.targets.insert(target, client),
                bind_addr: v.bind_addr,
            };
            &&& spec_is_client(w, client).0
            &&& !spec_is_client(w, target).0
            &&& w.targets.dom().contains(target)
            &&& w.targets[target] == client
        }),
{
}

/// A known client is recognised by its exact address: once its UDP port is known, a
/// datagram counts as the client's only when its source is that address, and the
/// relay's state is left as it was.
pub proof fn lemma_client_known_by_exact_address(v: RelayView, addr: SocketAddress)
    requires
        v.clients.dom().contains(addr.ip),
        v.clients[addr.ip].port != 0,
    ensures
        spec_is_client(v, addr).0 <==> v.clients[addr.ip] == addr,
        spec_is_client(v, addr).1 == v,
{
}

/// A target on the client's own host is still a target: after the client sends to
/// another port of its own address, datagrams from that port are not the client's,
/// and they go back to the client.
pub proof fn lemma_same_host_target_answers(v: RelayView, client: SocketAddress, target: SocketAddress)
    requires
        client.port != 0,
        target.ip == client.ip,
        target != client,
    ensures
        ({
            let w = RelayView {
                clients: v.clients.insert(client.ip, client),
                targets: v.targets.insert(target, client),
                bind_addr: v.bind_addr,
            };
            &&& spec_is_client(w, client).0
            &&& !spec_is_client(w, target).0
            &&& w.targets.dom().contains(target)
            &&& w.targets[target] == client
        }),
{
}

} // verus!
