//! The messages of the negotiation and connect phases, with their wire
//! format: what each value is encoded as, and what each byte string decodes
//! to.
//!
//! Every encoder and decoder is specified by a spec function over `Seq<u8>`
//! and the view of the message; the module `laws` relates the two
//! directions.

use crate::socks5::wire::{
    be_u16_bytes, be_u16_value, be_u32_bytes, be_u32_value, put_be_u16, put_be_u32, take_be_u16,
    take_be_u32, take_u8, utf8_text,
};
use vstd::prelude::*;
use vstd::slice::slice_subrange;
use vstd::utf8::{decode_utf8, encode_utf8, encode_utf8_decode_utf8, valid_utf8};

verus! {

/// Why a byte string is not the message it was read as.
#[derive(Clone, Copy, Debug, PartialEq, Eq, Structural)]
pub enum DecodeError {
    /// The bytes end before the message does.
    Incomplete,
    /// A code byte (method, command, status or address type) has no meaning.
    UnknownCode,
    /// A domain name is not UTF-8.
    InvalidUtf8,
    /// More bytes were supplied than the message has.
    LengthMismatch,
}

/// What a decoder yields: the input left over and the value, or the reason
/// for the failure.
pub type Decoded<T> = Result<(Seq<u8>, T), DecodeError>;

/// The outcome of an executable parser as the decoders state it: the
/// remaining input and the value by their views.
pub open spec fn parsed<T: View>(r: Result<(&[u8], T), DecodeError>) -> Decoded<T::V> {
    match r {
        Ok((rest, value)) => Ok((rest@, value@)),
        Err(e) => Err(e),
    }
}

/// An authentication method that a client can offer or a server can choose.
#[derive(Clone, Copy, Debug, PartialEq, Eq, Structural)]
pub enum AuthMethod {
    NoAuth,
    GSSAPI,
    UserNamePassword,
    IANAAssigned,
    Reserved,
    NoAcceptedMethod,
}

impl View for AuthMethod {
    type V = AuthMethod;

    open spec fn view(&self) -> AuthMethod {
        *self
    }
}

/// The wire code of an authentication method.
pub open spec fn auth_method_code(method: AuthMethod) -> u8 {
    match method {
        AuthMethod::NoAuth => 0x00,
        AuthMethod::GSSAPI => 0x01,
        AuthMethod::UserNamePassword => 0x02,
        AuthMethod::IANAAssigned => 0x03,
        AuthMethod::Reserved => 0x80,
        AuthMethod::NoAcceptedMethod => 0xFF,
    }
}

/// The authentication method that a wire code stands for, if any.
pub open spec fn auth_method_of_code(code: u8) -> Option<AuthMethod> {
    if code == 0x00 {
        Some(AuthMethod::NoAuth)
    } else if code == 0x01 {
        Some(AuthMethod::GSSAPI)
    } else if code == 0x02 {
        Some(AuthMethod::UserNamePassword)
    } else if code == 0x03 {
        Some(AuthMethod::IANAAssigned)
    } else if code == 0x80 {
        Some(AuthMethod::Reserved)
    } else if code == 0xFF {
        Some(AuthMethod::NoAcceptedMethod)
    } else {
        None
    }
}

/// One method byte.
pub open spec fn decode_auth_method(bytes: Seq<u8>) -> Decoded<AuthMethod> {
    if bytes.len() < 1 {
        Err(DecodeError::Incomplete)
    } else {
        match auth_method_of_code(bytes[0]) {
            Some(method) => Ok((bytes.skip(1), method)),
            None => Err(DecodeError::UnknownCode),
        }
    }
}

/// Reads one method byte.
pub fn parser_auth_method(input: &[u8]) -> (r: Result<(&[u8], AuthMethod), DecodeError>)
    ensures
        parsed(r) == decode_auth_method(input@),
{
    match take_u8(input) {
        None => Err(DecodeError::Incomplete),
        Some((rest, code)) => {
            if code == 0x00 {
                Ok((rest, AuthMethod::NoAuth))
            } else if code == 0x01 {
                Ok((rest, AuthMethod::GSSAPI))
            } else if code == 0x02 {
                Ok((rest, AuthMethod::UserNamePassword))
            } else if code == 0x03 {
                Ok((rest, AuthMethod::IANAAssigned))
            } else if code == 0x80 {
                Ok((rest, AuthMethod::Reserved))
            } else if code == 0xFF {
                Ok((rest, AuthMethod::NoAcceptedMethod))
            } else {
                Err(DecodeError::UnknownCode)
            }
        },
    }
}

/// The wire code of an authentication method.
pub fn auth_method_to_byte(autho_method: AuthMethod) -> (method_u8: u8)
    ensures
        method_u8 == auth_method_code(autho_method),
{
    let method_u8: u8 = match autho_method {
        AuthMethod::NoAuth => 0x00,
        AuthMethod::GSSAPI => 0x01,
        AuthMethod::UserNamePassword => 0x02,
        AuthMethod::IANAAssigned => 0x03,
        AuthMethod::Reserved => 0x80,
        AuthMethod::NoAcceptedMethod => 0xFF,
    };
    method_u8
}

/// Methods read one after another for as long as the next byte is a method
/// code.
pub open spec fn leading_methods(bytes: Seq<u8>) -> Seq<AuthMethod>
    decreases bytes.len(),
{
    if bytes.len() >= 1 && auth_method_of_code(bytes[0]) is Some {
        seq![auth_method_of_code(bytes[0])->0] + leading_methods(bytes.skip(1))
    } else {
        Seq::empty()
    }
}

/// A run of method bytes: the longest prefix of the input made of method
/// codes. It never fails; the first byte that is no method code, and all
/// after it, are left over.
pub open spec fn decode_auth_methods(bytes: Seq<u8>) -> Decoded<Seq<AuthMethod>> {
    Ok((bytes.skip(leading_methods(bytes).len() as int), leading_methods(bytes)))
}

/// The codes of a sequence of methods, in order.
pub open spec fn encode_auth_methods(methods: Seq<AuthMethod>) -> Seq<u8> {
    Seq::new(methods.len(), |i: int| auth_method_code(methods[i]))
}

/// Exactly `count` method bytes.
pub open spec fn decode_auth_methods_exact(bytes: Seq<u8>, count: nat) -> Decoded<Seq<AuthMethod>> {
    if bytes.len() < count {
        Err(DecodeError::Incomplete)
    } else if exists|i: int| 0 <= i < count && auth_method_of_code(#[trigger] bytes[i]) is None {
        Err(DecodeError::UnknownCode)
    } else {
        Ok((bytes.skip(count as int), Seq::new(count, |i: int| auth_method_of_code(bytes[i])->0)))
    }
}

/// The client's negotiation offer.
#[derive(Clone, Debug, PartialEq, Eq)]
pub struct AuthRequire {
    pub version: u8,
    pub num_method: u8,
    pub methods: Vec<AuthMethod>,
}

/// An offer as a mathematical value.
pub struct AuthRequireView {
    pub version: u8,
    pub num_method: u8,
    pub methods: Seq<AuthMethod>,
}

impl AuthRequireView {
    /// The method count is the number of methods.
    pub open spec fn well_formed(self) -> bool {
        self.methods.len() == self.num_method
    }
}

impl View for AuthRequire {
    type V = AuthRequireView;

    open spec fn view(&self) -> AuthRequireView {
        AuthRequireView {
            version: self.version,
            num_method: self.num_method,
            methods: self.methods@,
        }
    }
}

/// The offer on the wire: version, method count, then as many method codes
/// as the count says, taken from the front of the methods.
pub open spec fn encode_auth_require(offer: AuthRequireView) -> Seq<u8> {
    seq![offer.version, offer.num_method] + encode_auth_methods(
        offer.methods.take(offer.num_method as int),
    )
}

/// An offer: version, method count, and exactly that many methods.
pub open spec fn decode_auth_require(bytes: Seq<u8>) -> Decoded<AuthRequireView> {
    if bytes.len() < 2 {
        Err(DecodeError::Incomplete)
    } else {
        match decode_auth_methods_exact(bytes.skip(2), bytes[1] as nat) {
            Ok((rest, methods)) => Ok(
                (rest, AuthRequireView { version: bytes[0], num_method: bytes[1], methods }),
            ),
            Err(e) => Err(e),
        }
    }
}

impl AuthRequire {
    /// Whether the method count is the number of methods.
    pub fn is_well_formed(&self) -> (ok: bool)
        ensures
            ok == self@.well_formed(),
    {
        self.methods.len() == self.num_method as usize
    }

    /// The offer on the wire.
    pub fn to_bytes(&self) -> (raw_bytes: Vec<u8>)
        requires
            self.num_method <= self.methods@.len(),
        ensures
            raw_bytes@ == encode_auth_require(self@),
    {
        let mut raw_bytes: Vec<u8> = Vec::new();

        raw_bytes.push(self.version);
        raw_bytes.push(self.num_method);

        let mut i: u8 = 0;
        while i < self.num_method
            invariant
                i <= self.num_method <= self.methods@.len(),
                raw_bytes@ == seq![self.version, self.num_method] + encode_auth_methods(
                    self.methods@.take(i as int),
                ),
            decreases self.num_method - i,
        {
            raw_bytes.push(auth_method_to_byte(self.methods[i as usize]));
            i += 1;
        }
        raw_bytes
    }
}

/// The server's negotiation answer.
#[derive(Clone, Debug, PartialEq, Eq)]
pub struct AuthResponse {
    pub version: u8,
    pub choosed_method: AuthMethod,
}

impl View for AuthResponse {
    type V = AuthResponse;

    open spec fn view(&self) -> AuthResponse {
        *self
    }
}

/// The answer on the wire: version, then the code of the chosen method.
pub open spec fn encode_auth_response(answer: AuthResponse) -> Seq<u8> {
    seq![answer.version, auth_method_code(answer.choosed_method)]
}

/// An answer: version and one method byte.
pub open spec fn decode_auth_response(bytes: Seq<u8>) -> Decoded<AuthResponse> {
    if bytes.len() < 1 {
        Err(DecodeError::Incomplete)
    } else {
        match decode_auth_method(bytes.skip(1)) {
            Ok((rest, method)) => Ok(
                (rest, AuthResponse { version: bytes[0], choosed_method: method }),
            ),
            Err(e) => Err(e),
        }
    }
}

impl AuthResponse {
    /// The answer on the wire.
    pub fn to_bytes(&self) -> (raw_bytes: Vec<u8>)
        ensures
            raw_bytes@ == encode_auth_response(*self),
    {
        let mut raw_bytes: Vec<u8> = Vec::new();

        raw_bytes.push(self.version);
        raw_bytes.push(auth_method_to_byte(self.choosed_method));

        raw_bytes
    }
}

/// A destination or bound address with its port.
#[derive(Clone, Debug, PartialEq, Eq)]
pub enum SocksAddress {
    /// The 32-bit address and the port.
    Ipv4(u32, u16),
    /// The name and the port.
    Domain(String, u16),
    /// The 16-bit groups of the address, first group first, and the port.
    Ipv6(Vec<u16>, u16),
}

/// An address as a mathematical value.
pub enum AddressView {
    Ipv4(u32, u16),
    Domain(Seq<char>, u16),
    Ipv6(Seq<u16>, u16),
}

impl AddressView {
    /// A domain name fits its one-byte length prefix, and an IPv6 address has
    /// eight groups.
    pub open spec fn well_formed(self) -> bool {
        match self {
            AddressView::Ipv4(_, _) => true,
            AddressView::Domain(name, _) => encode_utf8(name).len() <= 255,
            AddressView::Ipv6(groups, _) => groups.len() == 8,
        }
    }
}

impl View for SocksAddress {
    type V = AddressView;

    open spec fn view(&self) -> AddressView {
        match self {
            SocksAddress::Ipv4(val, port) => AddressView::Ipv4(*val, *port),
            SocksAddress::Domain(domain, port) => AddressView::Domain(domain@, *port),
            SocksAddress::Ipv6(val, port) => AddressView::Ipv6(val@, *port),
        }
    }
}

/// The address type of an IPv4 address.
pub const ATYP_IPV4: u8 = 0x01;

/// The address type of a domain name.
pub const ATYP_DOMAIN: u8 = 0x03;

/// The address type of an IPv6 address.
pub const ATYP_IPV6: u8 = 0x04;

/// The groups of an IPv6 address on the wire: two bytes each, most
/// significant first.
pub open spec fn encode_groups(groups: Seq<u16>) -> Seq<u8> {
    Seq::new(
        2 * groups.len(),
        |i: int|
            if i % 2 == 0 {
                (groups[i / 2] / 256) as u8
            } else {
                (groups[i / 2] % 256) as u8
            },
    )
}

/// The groups that `count` pairs of bytes stand for.
pub open spec fn decode_groups(bytes: Seq<u8>, count: nat) -> Seq<u16> {
    Seq::new(count, |i: int| be_u16_value(bytes.skip(2 * i)))
}

/// The address on the wire: the address type, the address, and the port in
/// big-endian order. A domain name is preceded by its length in bytes,
/// reduced modulo 256.
#[verifier::opaque]
pub open spec fn encode_address(address: AddressView) -> Seq<u8> {
    match address {
        AddressView::Ipv4(val, port) => seq![ATYP_IPV4] + be_u32_bytes(val) + be_u16_bytes(port),
        AddressView::Domain(name, port) => seq![
            ATYP_DOMAIN,
            (encode_utf8(name).len() % 256) as u8,
        ] + encode_utf8(name) + be_u16_bytes(port),
        AddressView::Ipv6(groups, port) => seq![ATYP_IPV6] + encode_groups(groups) + be_u16_bytes(
            port,
        ),
    }
}

impl SocksAddress {
    /// Whether a domain name fits its length prefix and an IPv6 address has
    /// eight groups.
    pub fn is_well_formed(&self) -> (ok: bool)
        ensures
            ok == self@.well_formed(),
    {
        match self {
            SocksAddress::Ipv4(_, _) => true,
            SocksAddress::Domain(domain, _) => domain.as_str().as_bytes().len() <= 255,
            SocksAddress::Ipv6(val, _) => val.len() == 8,
        }
    }

    /// A copy of the address.
    pub fn duplicate(&self) -> (copy: SocksAddress)
        ensures
            copy@ == self@,
    {
        match self {
            SocksAddress::Ipv4(val, port) => SocksAddress::Ipv4(*val, *port),
            SocksAddress::Domain(domain, port) => SocksAddress::Domain(domain.clone(), *port),
            SocksAddress::Ipv6(val, port) => SocksAddress::Ipv6(val.clone(), *port),
        }
    }

    /// The address on the wire.
    pub fn to_bytes(&self) -> (raw_bytes: Vec<u8>)
        ensures
            raw_bytes@ == encode_address(self@),
    {
        proof {
            reveal(encode_address);
        }
        let mut raw_bytes: Vec<u8> = Vec::new();

        match self {
            SocksAddress::Ipv4(val, port) => {
                raw_bytes.push(ATYP_IPV4);
                let mut wtr = put_be_u32(*val);
                raw_bytes.append(&mut wtr);

                let mut wtr = put_be_u16(*port);
                raw_bytes.append(&mut wtr);
            },
            SocksAddress::Domain(domain, port) => {
                raw_bytes.push(ATYP_DOMAIN);
                let name = domain.as_str().as_bytes();
                let len = (name.len() % 256) as u8;
                raw_bytes.push(len);
                let mut i: usize = 0;
                while i < name.len()
                    invariant
                        i <= name@.len(),
                        raw_bytes@ == seq![ATYP_DOMAIN, len] + name@.take(i as int),
                    decreases name@.len() - i,
                {
                    raw_bytes.push(name[i]);
                    i += 1;
                }

                let mut wtr = put_be_u16(*port);
                raw_bytes.append(&mut wtr);
            },
            SocksAddress::Ipv6(val, port) => {
                raw_bytes.push(ATYP_IPV6);
                let mut i: usize = 0;
                while i < val.len()
                    invariant
                        i <= val@.len(),
                        raw_bytes@ == seq![ATYP_IPV6] + encode_groups(val@.take(i as int)),
                    decreases val@.len() - i,
                {
                    let mut wtr = put_be_u16(val[i]);
                    raw_bytes.append(&mut wtr);
                    i += 1;
                }

                let mut wtr = put_be_u16(*port);
                raw_bytes.append(&mut wtr);
            },
        }

        raw_bytes
    }
}

/// What the client asks the server to do.
#[derive(Clone, Copy, Debug, PartialEq, Eq, Structural)]
pub enum SocksCommand {
    /// Open a TCP connection to the destination.
    CmdTcp,
    /// Wait for an inbound connection.
    CmdBind,
    /// Set up a UDP relay.
    CmdUdp,
}

impl View for SocksCommand {
    type V = SocksCommand;

    open spec fn view(&self) -> SocksCommand {
        *self
    }
}

/// The wire code of a command.
pub open spec fn command_code(command: SocksCommand) -> u8 {
    match command {
        SocksCommand::CmdTcp => 0x01,
        SocksCommand::CmdBind => 0x02,
        SocksCommand::CmdUdp => 0x03,
    }
}

/// The command that a wire code stands for, if any.
pub open spec fn command_of_code(code: u8) -> Option<SocksCommand> {
    if code == 0x01 {
        Some(SocksCommand::CmdTcp)
    } else if code == 0x02 {
        Some(SocksCommand::CmdBind)
    } else if code == 0x03 {
        Some(SocksCommand::CmdUdp)
    } else {
        None
    }
}

/// One command byte.
pub open spec fn decode_socks_command(bytes: Seq<u8>) -> Decoded<SocksCommand> {
    if bytes.len() < 1 {
        Err(DecodeError::Incomplete)
    } else {
        match command_of_code(bytes[0]) {
            Some(command) => Ok((bytes.skip(1), command)),
            None => Err(DecodeError::UnknownCode),
        }
    }
}

impl SocksCommand {
    /// The command on the wire: its code, alone.
    pub fn to_bytes(&self) -> (raw_bytes: Vec<u8>)
        ensures
            raw_bytes@ == seq![command_code(*self)],
    {
        let mut raw_bytes: Vec<u8> = Vec::new();

        match self {
            SocksCommand::CmdTcp => {
                raw_bytes.push(0x01);
            },
            SocksCommand::CmdBind => {
                raw_bytes.push(0x02);
            },
            SocksCommand::CmdUdp => {
                raw_bytes.push(0x03);
            },
        };
        raw_bytes
    }
}

/// The client's connect request.
#[derive(Clone, Debug, PartialEq, Eq)]
pub struct ConnectRequire {
    pub version: u8,
    pub command: SocksCommand,
    pub reserved: u8,
    pub dest_address: SocksAddress,
}

/// A connect request as a mathematical value.
pub struct ConnectRequireView {
    pub version: u8,
    pub command: SocksCommand,
    pub reserved: u8,
    pub dest_address: AddressView,
}

impl View for ConnectRequire {
    type V = ConnectRequireView;

    open spec fn view(&self) -> ConnectRequireView {
        ConnectRequireView {
            version: self.version,
            command: self.command,
            reserved: self.reserved,
            dest_address: self.dest_address@,
        }
    }
}

/// The request on the wire: version, command code, reserved byte, then the
/// destination address.
pub open spec fn encode_connect_require(request: ConnectRequireView) -> Seq<u8> {
    seq![request.version, command_code(request.command), request.reserved] + encode_address(
        request.dest_address,
    )
}

impl ConnectRequire {
    /// The request on the wire.
    pub fn to_bytes(&self) -> (raw_bytes: Vec<u8>)
        ensures
            raw_bytes@ == encode_connect_require(self@),
    {
        let mut raw_bytes: Vec<u8> = Vec::new();
        raw_bytes.push(self.version);
        let mut command = self.command.to_bytes();
        raw_bytes.append(&mut command);
        raw_bytes.push(self.reserved);
        let mut address = self.dest_address.to_bytes();
        raw_bytes.append(&mut address);

        raw_bytes
    }
}

/// How a connect request ended, as the reply reports it.
#[derive(Clone, Copy, Debug, PartialEq, Eq, Structural)]
pub enum ConnectStatus {
    ConnectSuccess,
    GenSocksServerFailed,
    ConnectDeny,
    NetworkUnreachable,
    HostUnreachable,
    ConnectionRefused,
    TTLExpired,
    CommandNotSupport,
    AddressTypeNotSupport,
    Unassigned,
}

impl View for ConnectStatus {
    type V = ConnectStatus;

    open spec fn view(&self) -> ConnectStatus {
        *self
    }
}

/// The wire code of a reply status.
pub open spec fn status_code(status: ConnectStatus) -> u8 {
    match status {
        ConnectStatus::ConnectSuccess => 0x00,
        ConnectStatus::GenSocksServerFailed => 0x01,
        ConnectStatus::ConnectDeny => 0x02,
        ConnectStatus::NetworkUnreachable => 0x03,
        ConnectStatus::HostUnreachable => 0x04,
        ConnectStatus::ConnectionRefused => 0x05,
        ConnectStatus::TTLExpired => 0x06,
        ConnectStatus::CommandNotSupport => 0x07,
        ConnectStatus::AddressTypeNotSupport => 0x08,
        ConnectStatus::Unassigned => 0x09,
    }
}

/// The reply status that a wire code stands for, if any.
pub open spec fn status_of_code(code: u8) -> Option<ConnectStatus> {
    if code == 0x00 {
        Some(ConnectStatus::ConnectSuccess)
    } else if code == 0x01 {
        Some(ConnectStatus::GenSocksServerFailed)
    } else if code == 0x02 {
        Some(ConnectStatus::ConnectDeny)
    } else if code == 0x03 {
        Some(ConnectStatus::NetworkUnreachable)
    } else if code == 0x04 {
        Some(ConnectStatus::HostUnreachable)
    } else if code == 0x05 {
        Some(ConnectStatus::ConnectionRefused)
    } else if code == 0x06 {
        Some(ConnectStatus::TTLExpired)
    } else if code == 0x07 {
        Some(ConnectStatus::CommandNotSupport)
    } else if code == 0x08 {
        Some(ConnectStatus::AddressTypeNotSupport)
    } else if code == 0x09 {
        Some(ConnectStatus::Unassigned)
    } else {
        None
    }
}

/// One status byte.
pub open spec fn decode_connect_status(bytes: Seq<u8>) -> Decoded<ConnectStatus> {
    if bytes.len() < 1 {
        Err(DecodeError::Incomplete)
    } else {
        match status_of_code(bytes[0]) {
            Some(status) => Ok((bytes.skip(1), status)),
            None => Err(DecodeError::UnknownCode),
        }
    }
}

impl ConnectStatus {
    /// The status on the wire: its code, alone.
    pub fn to_bytes(&self) -> (raw_bytes: Vec<u8>)
        ensures
            raw_bytes@ == seq![status_code(*self)],
    {
        let mut raw_bytes: Vec<u8> = Vec::new();
        let stat: u8 = match self {
            ConnectStatus::ConnectSuccess => 0x00,
            ConnectStatus::GenSocksServerFailed => 0x01,
            ConnectStatus::ConnectDeny => 0x02,
            ConnectStatus::NetworkUnreachable => 0x03,
            ConnectStatus::HostUnreachable => 0x04,
            ConnectStatus::ConnectionRefused => 0x05,
            ConnectStatus::TTLExpired => 0x06,
            ConnectStatus::CommandNotSupport => 0x07,
            ConnectStatus::AddressTypeNotSupport => 0x08,
            ConnectStatus::Unassigned => 0x09,
        };

        raw_bytes.push(stat);
        raw_bytes
    }
}

/// The server's connect reply.
#[derive(Clone, Debug, PartialEq, Eq)]
pub struct ConnectResponse {
    pub version: u8,
    pub status: ConnectStatus,
    pub reserved: u8,
    pub bind_address: SocksAddress,
}

/// A connect reply as a mathematical value.
pub struct ConnectResponseView {
    pub version: u8,
    pub status: ConnectStatus,
    pub reserved: u8,
    pub bind_address: AddressView,
}

impl View for ConnectResponse {
    type V = ConnectResponseView;

    open spec fn view(&self) -> ConnectResponseView {
        ConnectResponseView {
            version: self.version,
            status: self.status,
            reserved: self.reserved,
            bind_address: self.bind_address@,
        }
    }
}

/// The reply on the wire: version, status code, reserved byte, then the
/// bound address.
pub open spec fn encode_connect_response(reply: ConnectResponseView) -> Seq<u8> {
    seq![reply.version, status_code(reply.status), reply.reserved] + encode_address(
        reply.bind_address,
    )
}

impl ConnectResponse {
    /// The reply on the wire.
    pub fn to_bytes(&self) -> (raw_bytes: Vec<u8>)
        ensures
            raw_bytes@ == encode_connect_response(self@),
    {
        let mut raw_bytes: Vec<u8> = Vec::new();
        raw_bytes.push(self.version);
        let mut status = self.status.to_bytes();
        raw_bytes.append(&mut status);
        raw_bytes.push(self.reserved);
        let mut address = self.bind_address.to_bytes();
        raw_bytes.append(&mut address);

        raw_bytes
    }
}

/// Reads methods for as long as the next byte is a method code. Never
/// fails: what follows the last method is left over.
pub fn parser_auth_methods(input: &[u8]) -> (r: Result<(&[u8], Vec<AuthMethod>), DecodeError>)
    ensures
        parsed(r) == decode_auth_methods(input@),
{
    let mut methods: Vec<AuthMethod> = Vec::new();
    let mut rest = input;
    loop
        invariant
            methods@.len() <= input@.len(),
            rest@ == input@.skip(methods@.len() as int),
            leading_methods(input@) == methods@ + leading_methods(rest@),
        decreases rest@.len(),
    {
        match parser_auth_method(rest) {
            Ok((tail, method)) => {
                proof {
                    assert(tail@ == input@.skip(methods@.len() as int + 1));
                    assert(methods@ + (seq![method] + leading_methods(tail@)) == methods@.push(
                        method,
                    ) + leading_methods(tail@));
                }
                methods.push(method);
                rest = tail;
            },
            Err(_) => {
                proof {
                    assert(methods@ + Seq::<AuthMethod>::empty() == methods@);
                }
                return Ok((rest, methods));
            },
        }
    }
}

/// Reads an offer: version, method count, and exactly that many methods.
pub fn parser_auth_require(input: &[u8]) -> (r: Result<(&[u8], AuthRequire), DecodeError>)
    ensures
        parsed(r) == decode_auth_require(input@),
{
    let (rest, version) = match take_u8(input) {
        None => { return Err(DecodeError::Incomplete); },
        Some(p) => p,
    };
    let (body, number_method) = match take_u8(rest) {
        None => { return Err(DecodeError::Incomplete); },
        Some(p) => p,
    };
    assert(body@ == input@.skip(2));
    if body.len() < number_method as usize {
        return Err(DecodeError::Incomplete);
    }
    let mut methods: Vec<AuthMethod> = Vec::new();
    let mut rest = body;
    let mut i: u8 = 0;
    while i < number_method
        invariant
            input@.len() >= 2,
            body@ == input@.skip(2),
            version == input@[0],
            number_method == input@[1],
            i <= number_method <= body@.len(),
            rest@ == body@.skip(i as int),
            methods@.len() == i,
            forall|k: int|
                0 <= k < i ==> auth_method_of_code(#[trigger] body@[k]) == Some(methods@[k]),
        decreases number_method - i,
    {
        match parser_auth_method(rest) {
            Ok((tail, method)) => {
                assert(tail@ == body@.skip(i + 1));
                methods.push(method);
                rest = tail;
            },
            Err(e) => {
                assert(auth_method_of_code(body@[i as int]) is None);
                return Err(e);
            },
        }
        i += 1;
    }
    assert(methods@ == Seq::new(
        number_method as nat,
        |k: int| auth_method_of_code(body@[k])->0,
    ));
    Ok((rest, AuthRequire { version, num_method: number_method, methods }))
}

/// Reads an answer: version and the chosen method.
pub fn parser_auth_response(input: &[u8]) -> (r: Result<(&[u8], AuthResponse), DecodeError>)
    ensures
        parsed(r) == decode_auth_response(input@),
{
    let (rest, version) = match take_u8(input) {
        None => { return Err(DecodeError::Incomplete); },
        Some(p) => p,
    };
    match parser_auth_method(rest) {
        Ok((tail, choosed_method)) => Ok((tail, AuthResponse { version, choosed_method })),
        Err(e) => Err(e),
    }
}


/// An IPv4 address without its type byte: four address bytes and two port
/// bytes, both big-endian.
pub open spec fn decode_addr_ipv4(bytes: Seq<u8>) -> Decoded<AddressView> {
    if bytes.len() < 6 {
        Err(DecodeError::Incomplete)
    } else {
        Ok((bytes.skip(6), AddressView::Ipv4(be_u32_value(bytes), be_u16_value(bytes.skip(4)))))
    }
}

/// A domain name: a length byte, then that many bytes of UTF-8.
pub open spec fn decode_domain(bytes: Seq<u8>) -> Decoded<Seq<char>> {
    if bytes.len() < 1 || bytes.len() < 1 + bytes[0] {
        Err(DecodeError::Incomplete)
    } else if !valid_utf8(bytes.subrange(1, 1 + bytes[0])) {
        Err(DecodeError::InvalidUtf8)
    } else {
        Ok((bytes.skip(1 + bytes[0]), decode_utf8(bytes.subrange(1, 1 + bytes[0]))))
    }
}

/// A domain address without its type byte: the name, then two port bytes.
pub open spec fn decode_addr_domain(bytes: Seq<u8>) -> Decoded<AddressView> {
    match decode_domain(bytes) {
        Err(e) => Err(e),
        Ok((rest, name)) => if rest.len() < 2 {
            Err(DecodeError::Incomplete)
        } else {
            Ok((rest.skip(2), AddressView::Domain(name, be_u16_value(rest))))
        },
    }
}

/// An IPv6 address without its type byte: eight groups and two port bytes,
/// all big-endian. Fewer than eight groups is a failure.
pub open spec fn decode_addr_ipv6(bytes: Seq<u8>) -> Decoded<AddressView> {
    if bytes.len() < 18 {
        Err(DecodeError::Incomplete)
    } else {
        Ok(
            (
                bytes.skip(18),
                AddressView::Ipv6(decode_groups(bytes, 8), be_u16_value(bytes.skip(16))),
            ),
        )
    }
}

/// An address: the type byte, then the address of that type.
#[verifier::opaque]
pub open spec fn decode_socks_address(bytes: Seq<u8>) -> Decoded<AddressView> {
    if bytes.len() < 1 {
        Err(DecodeError::Incomplete)
    } else if bytes[0] == ATYP_IPV4 {
        decode_addr_ipv4(bytes.skip(1))
    } else if bytes[0] == ATYP_DOMAIN {
        decode_addr_domain(bytes.skip(1))
    } else if bytes[0] == ATYP_IPV6 {
        decode_addr_ipv6(bytes.skip(1))
    } else {
        Err(DecodeError::UnknownCode)
    }
}

/// Reads an IPv4 address and port, without the type byte.
pub fn parser_addr_ipv4(input: &[u8]) -> (r: Result<(&[u8], SocksAddress), DecodeError>)
    ensures
        parsed(r) == decode_addr_ipv4(input@),
{
    let (rest, ipv4) = match take_be_u32(input) {
        None => { return Err(DecodeError::Incomplete); },
        Some(p) => p,
    };
    let (tail, port) = match take_be_u16(rest) {
        None => { return Err(DecodeError::Incomplete); },
        Some(p) => p,
    };
    assert(tail@ == input@.skip(6));
    Ok((tail, SocksAddress::Ipv4(ipv4, port)))
}

/// Reads a length-prefixed domain name.
pub fn parser_domain(input: &[u8]) -> (r: Result<(&[u8], &str), DecodeError>)
    ensures
        parsed(r) == decode_domain(input@),
{
    let (rest, length) = match take_u8(input) {
        None => { return Err(DecodeError::Incomplete); },
        Some(p) => p,
    };
    let length = length as usize;
    if rest.len() < length {
        return Err(DecodeError::Incomplete);
    }
    let name = slice_subrange(rest, 0, length);
    let tail = slice_subrange(rest, length, rest.len());
    assert(name@ == input@.subrange(1, 1 + length));
    assert(tail@ == input@.skip(1 + length));
    match utf8_text(name) {
        None => Err(DecodeError::InvalidUtf8),
        Some(domain) => {
            proof {
                encode_utf8_decode_utf8(domain@);
            }
            Ok((tail, domain))
        },
    }
}

/// Reads a domain name and port, without the type byte.
pub fn parser_addr_domain(input: &[u8]) -> (r: Result<(&[u8], SocksAddress), DecodeError>)
    ensures
        parsed(r) == decode_addr_domain(input@),
{
    let (rest, domain) = match parser_domain(input) {
        Err(e) => { return Err(e); },
        Ok(p) => p,
    };
    let (tail, port) = match take_be_u16(rest) {
        None => { return Err(DecodeError::Incomplete); },
        Some(p) => p,
    };
    Ok((tail, SocksAddress::Domain(domain.to_owned(), port)))
}

/// Reads the eight groups of an IPv6 address and the port, without the type
/// byte.
pub fn parser_addr_ipv6(input: &[u8]) -> (r: Result<(&[u8], SocksAddress), DecodeError>)
    ensures
        parsed(r) == decode_addr_ipv6(input@),
{
    let mut ipv6: Vec<u16> = Vec::new();
    let mut rest = input;
    let mut i: usize = 0;
    while i < 8
        invariant
            i <= 8,
            2 * i <= input@.len(),
            rest@ == input@.skip(2 * i),
            ipv6@ == decode_groups(input@, i as nat),
        decreases 8 - i,
    {
        match take_be_u16(rest) {
            None => { return Err(DecodeError::Incomplete); },
            Some((tail, group)) => {
                assert(tail@ == input@.skip(2 * (i + 1)));
                ipv6.push(group);
                rest = tail;
            },
        }
        i += 1;
    }
    let (tail, port) = match take_be_u16(rest) {
        None => { return Err(DecodeError::Incomplete); },
        Some(p) => p,
    };
    assert(tail@ == input@.skip(18));
    Ok((tail, SocksAddress::Ipv6(ipv6, port)))
}

/// Reads an address: the type byte, then the address of that type.
pub fn parser_socks_address(input: &[u8]) -> (r: Result<(&[u8], SocksAddress), DecodeError>)
    ensures
        parsed(r) == decode_socks_address(input@),
{
    proof {
        reveal(decode_socks_address);
    }
    let (rest, address_type) = match take_u8(input) {
        None => { return Err(DecodeError::Incomplete); },
        Some(p) => p,
    };
    if address_type == ATYP_IPV4 {
        parser_addr_ipv4(rest)
    } else if address_type == ATYP_DOMAIN {
        parser_addr_domain(rest)
    } else if address_type == ATYP_IPV6 {
        parser_addr_ipv6(rest)
    } else {
        Err(DecodeError::UnknownCode)
    }
}

/// Reads one command byte.
pub fn parser_socks_command(input: &[u8]) -> (r: Result<(&[u8], SocksCommand), DecodeError>)
    ensures
        parsed(r) == decode_socks_command(input@),
{
    match take_u8(input) {
        None => Err(DecodeError::Incomplete),
        Some((rest, code)) => {
            if code == 0x01 {
                Ok((rest, SocksCommand::CmdTcp))
            } else if code == 0x02 {
                Ok((rest, SocksCommand::CmdBind))
            } else if code == 0x03 {
                Ok((rest, SocksCommand::CmdUdp))
            } else {
                Err(DecodeError::UnknownCode)
            }
        },
    }
}

/// A connect request: version, command, reserved byte, destination.
pub open spec fn decode_connect_require(bytes: Seq<u8>) -> Decoded<ConnectRequireView> {
    if bytes.len() < 1 {
        Err(DecodeError::Incomplete)
    } else {
        match decode_socks_command(bytes.skip(1)) {
            Err(e) => Err(e),
            Ok((rest, command)) => if rest.len() < 1 {
                Err(DecodeError::Incomplete)
            } else {
                match decode_socks_address(rest.skip(1)) {
                    Err(e) => Err(e),
                    Ok((tail, dest_address)) => Ok(
                        (
                            tail,
                            ConnectRequireView {
                                version: bytes[0],
                                command,
                                reserved: rest[0],
                                dest_address,
                            },
                        ),
                    ),
                }
            },
        }
    }
}

/// Reads a connect request.
pub fn parser_connect_require(input: &[u8]) -> (r: Result<(&[u8], ConnectRequire), DecodeError>)
    ensures
        parsed(r) == decode_connect_require(input@),
{
    let (rest, version) = match take_u8(input) {
        None => { return Err(DecodeError::Incomplete); },
        Some(p) => p,
    };
    let (rest, command) = match parser_socks_command(rest) {
        Err(e) => { return Err(e); },
        Ok(p) => p,
    };
    let (rest, reserved) = match take_u8(rest) {
        None => { return Err(DecodeError::Incomplete); },
        Some(p) => p,
    };
    let (tail, dest_address) = match parser_socks_address(rest) {
        Err(e) => { return Err(e); },
        Ok(p) => p,
    };
    Ok((tail, ConnectRequire { version, command, reserved, dest_address }))
}

/// Reads one status byte.
pub fn parser_connect_status(input: &[u8]) -> (r: Result<(&[u8], ConnectStatus), DecodeError>)
    ensures
        parsed(r) == decode_connect_status(input@),
{
    match take_u8(input) {
        None => Err(DecodeError::Incomplete),
        Some((rest, code)) => {
            if code == 0x00 {
                Ok((rest, ConnectStatus::ConnectSuccess))
            } else if code == 0x01 {
                Ok((rest, ConnectStatus::GenSocksServerFailed))
            } else if code == 0x02 {
                Ok((rest, ConnectStatus::ConnectDeny))
            } else if code == 0x03 {
                Ok((rest, ConnectStatus::NetworkUnreachable))
            } else if code == 0x04 {
                Ok((rest, ConnectStatus::HostUnreachable))
            } else if code == 0x05 {
                Ok((rest, ConnectStatus::ConnectionRefused))
            } else if code == 0x06 {
                Ok((rest, ConnectStatus::TTLExpired))
            } else if code == 0x07 {
                Ok((rest, ConnectStatus::CommandNotSupport))
            } else if code == 0x08 {
                Ok((rest, ConnectStatus::AddressTypeNotSupport))
            } else if code == 0x09 {
                Ok((rest, ConnectStatus::Unassigned))
            } else {
                Err(DecodeError::UnknownCode)
            }
        },
    }
}

/// A connect reply: version, status, reserved byte, bound address.
pub open spec fn decode_connect_response(bytes: Seq<u8>) -> Decoded<ConnectResponseView> {
    if bytes.len() < 1 {
        Err(DecodeError::Incomplete)
    } else {
        match decode_connect_status(bytes.skip(1)) {
            Err(e) => Err(e),
            Ok((rest, status)) => if rest.len() < 1 {
                Err(DecodeError::Incomplete)
            } else {
                match decode_socks_address(rest.skip(1)) {
                    Err(e) => Err(e),
                    Ok((tail, bind_address)) => Ok(
                        (
                            tail,
                            ConnectResponseView {
                                version: bytes[0],
                                status,
                                reserved: rest[0],
                                bind_address,
                            },
                        ),
                    ),
                }
            },
        }
    }
}

/// Reads a connect reply.
pub fn parser_connect_response(input: &[u8]) -> (r: Result<(&[u8], ConnectResponse), DecodeError>)
    ensures
        parsed(r) == decode_connect_response(input@),
{
    let (rest, version) = match take_u8(input) {
        None => { return Err(DecodeError::Incomplete); },
        Some(p) => p,
    };
    let (rest, status) = match parser_connect_status(rest) {
        Err(e) => { return Err(e); },
        Ok(p) => p,
    };
    let (rest, reserved) = match take_u8(rest) {
        None => { return Err(DecodeError::Incomplete); },
        Some(p) => p,
    };
    let (tail, bind_address) = match parser_socks_address(rest) {
        Err(e) => { return Err(e); },
        Ok(p) => p,
    };
    Ok((tail, ConnectResponse { version, status, reserved, bind_address }))
}

} // verus!
