//! The laws of the library: what holds between the encoders and the
//! decoders of the wire format, and what holds of every session.

use crate::socks5::session::{
    acceptance, close_directive, refusal, ActionView, DirectiveView, Event, Phase, SessionState,
    SessionView, SOCKS_VERSION,
};
use crate::socks5::types::{
    auth_method_code, auth_method_of_code, command_code, command_of_code, decode_addr_domain,
    decode_addr_ipv4, decode_addr_ipv6, decode_auth_methods, decode_auth_require,
    decode_auth_response, decode_connect_require, decode_connect_response, decode_domain,
    decode_groups, decode_socks_address, encode_address, encode_auth_methods,
    encode_auth_require, encode_auth_response, encode_connect_require, encode_connect_response,
    encode_groups, leading_methods, status_code, status_of_code, AddressView, AuthMethod,
    AuthRequireView, AuthResponse, ConnectRequireView, ConnectResponseView, ConnectStatus,
    DecodeError, SocksCommand, ATYP_DOMAIN, ATYP_IPV4, ATYP_IPV6,
};
use crate::socks5::wire::{be_u16_bytes, be_u16_value, be_u32_bytes, be_u32_value};
use vstd::prelude::*;
use vstd::utf8::{encode_utf8, encode_utf8_decode_utf8, encode_utf8_valid_utf8};

verus! {

/// Every authentication method is the meaning of its own code, and a code
/// that means a method is the code of that method.
pub proof fn lemma_auth_method_code_roundtrip(method: AuthMethod, code: u8)
    ensures
        auth_method_of_code(auth_method_code(method)) == Some(method),
        auth_method_of_code(code) == Some(method) ==> auth_method_code(method) == code,
{
}

/// Every command is the meaning of its own code, and a code that means a
/// command is the code of that command.
pub proof fn lemma_command_code_roundtrip(command: SocksCommand, code: u8)
    ensures
        command_of_code(command_code(command)) == Some(command),
        command_of_code(code) == Some(command) ==> command_code(command) == code,
{
}

/// Every reply status is the meaning of its own code, a code that means a
/// status is the code of that status, and the codes are 0 to 9.
pub proof fn lemma_status_code_roundtrip(status: ConnectStatus, code: u8)
    ensures
        status_of_code(status_code(status)) == Some(status),
        status_of_code(code) == Some(status) ==> status_code(status) == code,
        status_code(status) <= 9,
        status_of_code(code) is Some <==> code <= 9,
{
}

/// Decoding the encoding of an offer whose method count is the number of its
/// methods yields that offer and leaves what followed it.
pub proof fn lemma_auth_require_roundtrip(offer: AuthRequireView, rest: Seq<u8>)
    requires
        offer.well_formed(),
    ensures
        decode_auth_require(encode_auth_require(offer) + rest) == Ok::<
            (Seq<u8>, AuthRequireView),
            DecodeError,
        >((rest, offer)),
{
    let bytes = encode_auth_require(offer) + rest;
    let count = offer.num_method as nat;
    let body = bytes.skip(2);
    assert(offer.methods.take(offer.num_method as int) == offer.methods);
    assert(body == encode_auth_methods(offer.methods) + rest);
    assert forall|i: int| 0 <= i < count implies auth_method_of_code(#[trigger] body[i]) == Some(
        offer.methods[i],
    ) by {
        lemma_auth_method_code_roundtrip(offer.methods[i], 0);
    }
    assert(body.skip(count as int) == rest);
    assert(Seq::new(count, |i: int| auth_method_of_code(body[i])->0) == offer.methods);
}

/// Decoding the encoding of an answer yields that answer and leaves what
/// followed it.
pub proof fn lemma_auth_response_roundtrip(answer: AuthResponse, rest: Seq<u8>)
    ensures
        decode_auth_response(encode_auth_response(answer) + rest) == Ok::<
            (Seq<u8>, AuthResponse),
            DecodeError,
        >((rest, answer)),
{
    let bytes = encode_auth_response(answer) + rest;
    lemma_auth_method_code_roundtrip(answer.choosed_method, 0);
    assert(bytes.skip(1).skip(1) == rest);
}

/// A run of methods that is followed by no method code is read back whole.
pub proof fn lemma_auth_methods_roundtrip(methods: Seq<AuthMethod>, rest: Seq<u8>)
    requires
        rest.len() == 0 || auth_method_of_code(rest[0]) is None,
    ensures
        decode_auth_methods(encode_auth_methods(methods) + rest) == Ok::<
            (Seq<u8>, Seq<AuthMethod>),
            DecodeError,
        >((rest, methods)),
    decreases methods.len(),
{
    let bytes = encode_auth_methods(methods) + rest;
    if methods.len() == 0 {
        assert(bytes =~= rest);
        assert(methods =~= Seq::<AuthMethod>::empty());
        assert(leading_methods(bytes) =~= methods);
        assert(bytes.skip(0) =~= rest);
    } else {
        let tail = methods.drop_first();
        lemma_auth_methods_roundtrip(tail, rest);
        lemma_auth_method_code_roundtrip(methods[0], 0);
        assert(bytes[0] == auth_method_code(methods[0]));
        assert(bytes.skip(1) =~= encode_auth_methods(tail) + rest);
        assert(leading_methods(bytes.skip(1)) == tail);
        assert(leading_methods(bytes) =~= methods);
        assert(bytes.skip(methods.len() as int) =~= bytes.skip(1).skip(tail.len() as int));
    }
}

/// The bytes of `groups.len()` groups decode to those groups, whatever
/// follows them.
pub proof fn lemma_groups_roundtrip(groups: Seq<u16>, rest: Seq<u8>)
    ensures
        encode_groups(groups).len() == 2 * groups.len(),
        decode_groups(encode_groups(groups) + rest, groups.len()) == groups,
{
    let bytes = encode_groups(groups) + rest;
    assert forall|i: int| 0 <= i < groups.len() implies be_u16_value(bytes.skip(2 * i))
        == groups[i] by {
        assert(bytes.skip(2 * i)[0] == encode_groups(groups)[2 * i]);
        assert(bytes.skip(2 * i)[1] == encode_groups(groups)[2 * i + 1]);
    }
    assert(decode_groups(bytes, groups.len()) =~= groups);
}

/// An IPv4 address and port are read back from their bytes.
proof fn lemma_ipv4_roundtrip(val: u32, port: u16, rest: Seq<u8>)
    ensures
        decode_addr_ipv4(be_u32_bytes(val) + be_u16_bytes(port) + rest) == Ok::<
            (Seq<u8>, AddressView),
            DecodeError,
        >((rest, AddressView::Ipv4(val, port))),
{
    let body = be_u32_bytes(val) + be_u16_bytes(port) + rest;
    assert(body.len() >= 6);
    assert(be_u32_value(body) == val);
    assert(be_u16_value(body.skip(4)) == port);
    assert(body.skip(6) =~= rest);
}

/// A domain name of at most 255 bytes and its port are read back from their
/// bytes.
proof fn lemma_domain_roundtrip(name: Seq<char>, port: u16, rest: Seq<u8>)
    requires
        encode_utf8(name).len() <= 255,
    ensures
        decode_addr_domain(
            seq![encode_utf8(name).len() as u8] + encode_utf8(name) + be_u16_bytes(port) + rest,
        ) == Ok::<(Seq<u8>, AddressView), DecodeError>((rest, AddressView::Domain(name, port))),
{
    let text = encode_utf8(name);
    let len = text.len() as int;
    let body = seq![len as u8] + text + be_u16_bytes(port) + rest;
    assert(body[0] == len);
    assert(body.len() == 1 + len + 2 + rest.len());
    assert(body.subrange(1, 1 + len) =~= text);
    encode_utf8_valid_utf8(name);
    encode_utf8_decode_utf8(name);
    let after = body.skip(1 + len);
    assert(after =~= be_u16_bytes(port) + rest);
    assert(decode_domain(body) == Ok::<(Seq<u8>, Seq<char>), DecodeError>((after, name)));
    assert(be_u16_value(after) == port);
    assert(after.skip(2) =~= rest);
}

/// Eight groups and a port are read back from their bytes.
proof fn lemma_ipv6_roundtrip(groups: Seq<u16>, port: u16, rest: Seq<u8>)
    requires
        groups.len() == 8,
    ensures
        decode_addr_ipv6(encode_groups(groups) + be_u16_bytes(port) + rest) == Ok::<
            (Seq<u8>, AddressView),
            DecodeError,
        >((rest, AddressView::Ipv6(groups, port))),
{
    let body = encode_groups(groups) + be_u16_bytes(port) + rest;
    lemma_groups_roundtrip(groups, be_u16_bytes(port) + rest);
    assert(body =~= encode_groups(groups) + (be_u16_bytes(port) + rest));
    assert(body.len() >= 18);
    assert(body.skip(16) =~= be_u16_bytes(port) + rest);
    assert(be_u16_value(body.skip(16)) == port);
    assert(body.skip(18) =~= rest);
}

/// Decoding the encoding of a well-formed address (a domain name of at most
/// 255 bytes, an IPv6 address of eight groups) yields that address and
/// leaves what followed it.
pub proof fn lemma_address_roundtrip(address: AddressView, rest: Seq<u8>)
    requires
        address.well_formed(),
    ensures
        decode_socks_address(encode_address(address) + rest) == Ok::<
            (Seq<u8>, AddressView),
            DecodeError,
        >((rest, address)),
{
    reveal(encode_address);
    reveal(decode_socks_address);
    let bytes = encode_address(address) + rest;
    let body = bytes.skip(1);
    match address {
        AddressView::Ipv4(val, port) => {
            assert(bytes[0] == ATYP_IPV4);
            assert(body =~= be_u32_bytes(val) + be_u16_bytes(port) + rest);
            lemma_ipv4_roundtrip(val, port, rest);
        },
        AddressView::Domain(name, port) => {
            let text = encode_utf8(name);
            assert(bytes[0] == ATYP_DOMAIN);
            assert(body =~= seq![text.len() as u8] + text + be_u16_bytes(port) + rest);
            lemma_domain_roundtrip(name, port, rest);
        },
        AddressView::Ipv6(groups, port) => {
            assert(bytes[0] == ATYP_IPV6);
            assert(body =~= encode_groups(groups) + be_u16_bytes(port) + rest);
            lemma_ipv6_roundtrip(groups, port, rest);
        },
    }
}

/// A connect request is its three header bytes and whatever the bytes
/// after them decode to as an address.
proof fn lemma_connect_require_frame(
    version: u8,
    command: SocksCommand,
    reserved: u8,
    tail: Seq<u8>,
)
    ensures
        decode_connect_require(seq![version, command_code(command), reserved] + tail)
            == match decode_socks_address(tail) {
            Err(e) => Err::<(Seq<u8>, ConnectRequireView), DecodeError>(e),
            Ok((rest, dest_address)) => Ok(
                (rest, ConnectRequireView { version, command, reserved, dest_address }),
            ),
        },
{
    let bytes = seq![version, command_code(command), reserved] + tail;
    let after_version = bytes.skip(1);
    let after_command = after_version.skip(1);
    lemma_command_code_roundtrip(command, 0);
    assert(bytes[0] == version);
    assert(after_version[0] == command_code(command));
    assert(after_command[0] == reserved);
    assert(after_command.skip(1) =~= tail);
}

/// A connect reply is its three header bytes and whatever the bytes after
/// them decode to as an address.
proof fn lemma_connect_response_frame(
    version: u8,
    status: ConnectStatus,
    reserved: u8,
    tail: Seq<u8>,
)
    ensures
        decode_connect_response(seq![version, status_code(status), reserved] + tail)
            == match decode_socks_address(tail) {
            Err(e) => Err::<(Seq<u8>, ConnectResponseView), DecodeError>(e),
            Ok((rest, bind_address)) => Ok(
                (rest, ConnectResponseView { version, status, reserved, bind_address }),
            ),
        },
{
    let bytes = seq![version, status_code(status), reserved] + tail;
    let after_version = bytes.skip(1);
    let after_status = after_version.skip(1);
    lemma_status_code_roundtrip(status, 0);
    assert(bytes[0] == version);
    assert(after_version[0] == status_code(status));
    assert(after_status[0] == reserved);
    assert(after_status.skip(1) =~= tail);
}

/// Decoding the encoding of a connect request with a well-formed destination
/// yields that request and leaves what followed it.
pub proof fn lemma_connect_require_roundtrip(request: ConnectRequireView, rest: Seq<u8>)
    requires
        request.dest_address.well_formed(),
    ensures
        decode_connect_require(encode_connect_require(request) + rest) == Ok::<
            (Seq<u8>, ConnectRequireView),
            DecodeError,
        >((rest, request)),
{
    let tail = encode_address(request.dest_address) + rest;
    lemma_address_roundtrip(request.dest_address, rest);
    lemma_connect_require_frame(request.version, request.command, request.reserved, tail);
    assert(encode_connect_require(request) + rest =~= seq![
        request.version,
        command_code(request.command),
        request.reserved,
    ] + tail);
}

/// Decoding the encoding of a connect reply with a well-formed bound address
/// yields that reply and leaves what followed it.
pub proof fn lemma_connect_response_roundtrip(reply: ConnectResponseView, rest: Seq<u8>)
    requires
        reply.bind_address.well_formed(),
    ensures
        decode_connect_response(encode_connect_response(reply) + rest) == Ok::<
            (Seq<u8>, ConnectResponseView),
            DecodeError,
        >((rest, reply)),
{
    let tail = encode_address(reply.bind_address) + rest;
    lemma_address_roundtrip(reply.bind_address, rest);
    lemma_connect_response_frame(reply.version, reply.status, reply.reserved, tail);
    assert(encode_connect_response(reply) + rest =~= seq![
        reply.version,
        status_code(reply.status),
        reply.reserved,
    ] + tail);
}

/// A domain name whose length byte claims more bytes than follow it is
/// rejected as incomplete, alone and inside an address.
pub proof fn lemma_domain_length_overrun(bytes: Seq<u8>)
    requires
        bytes.len() >= 1,
        bytes.len() - 1 < bytes[0],
    ensures
        decode_domain(bytes) == Err::<(Seq<u8>, Seq<char>), DecodeError>(DecodeError::Incomplete),
        decode_addr_domain(bytes) == Err::<(Seq<u8>, AddressView), DecodeError>(
            DecodeError::Incomplete,
        ),
        decode_socks_address(seq![ATYP_DOMAIN] + bytes) == Err::<
            (Seq<u8>, AddressView),
            DecodeError,
        >(DecodeError::Incomplete),
{
    reveal(decode_socks_address);
    assert((seq![ATYP_DOMAIN] + bytes).skip(1) == bytes);
}

/// Whatever an address decodes to is well formed: a decoded domain name has
/// at most 255 bytes and a decoded IPv6 address has eight groups.
pub proof fn lemma_decoded_address_well_formed(bytes: Seq<u8>)
    ensures
        decode_socks_address(bytes) matches Ok(p) ==> p.1.well_formed(),
{
    reveal(decode_socks_address);
    if bytes.len() >= 1 && bytes[0] == ATYP_DOMAIN {
        let body = bytes.skip(1);
        if decode_domain(body) is Ok {
            let name = body.subrange(1, 1 + body[0]);
            vstd::utf8::decode_utf8_encode_utf8(name);
        }
    }
}

/// Every step keeps what holds of every session.
pub proof fn lemma_step_keeps_invariant(session: SessionView, event: Event)
    requires
        session.inv(),
    ensures
        session.step(event).0.inv(),
{
}

/// A session that is over stays exactly as it is, whatever is reported to
/// it, and asks for nothing but the close.
pub proof fn lemma_closed_is_final(session: SessionView, event: Event)
    requires
        session.phase == Phase::Closed,
    ensures
        session.step(event) == (session, close_directive()),
{
}

/// The relay is entered in one way only: a session that awaits its
/// connection learns that it stands. The session is then in the connected
/// state and has its upstream endpoint, and the success reply goes out
/// first.
pub proof fn lemma_relay_needs_upstream(session: SessionView, event: Event)
    requires
        session.inv(),
        session.step(event).1.action == ActionView::Relay,
    ensures
        session.phase == Phase::Connecting,
        event == Event::Connected,
        session.step(event).0.state == SessionState::SocksConnectedRemote,
        session.step(event).0.upstream == session.target,
        session.step(event).0.upstream is Some,
        session.request matches Some(request) && session.step(event).1.reply
            == encode_connect_response(acceptance(request)),
{
}

/// The negotiation chooses "no authentication" exactly when the client
/// offered it, and then the session is authenticated and goes on to the
/// connect phase. Otherwise the answer is "no acceptable method", and the
/// session is refused and over: there is no connect phase.
pub proof fn lemma_negotiation_outcome(session: SessionView, offer: AuthRequireView)
    requires
        session.inv(),
        session.phase == Phase::Negotiating,
    ensures
        offer.methods.contains(AuthMethod::NoAuth) ==> {
            &&& session.after_auth(offer).0.state == SessionState::SocksAuthed
            &&& session.after_auth(offer).0.phase == Phase::Requesting
            &&& session.after_auth(offer).1 == (DirectiveView {
                reply: seq![SOCKS_VERSION, 0x00u8],
                action: ActionView::Read(4),
            })
        },
        !offer.methods.contains(AuthMethod::NoAuth) ==> {
            &&& session.after_auth(offer).0.state == SessionState::SocksRefused
            &&& session.after_auth(offer).0.phase == Phase::Closed
            &&& session.after_auth(offer).1 == (DirectiveView {
                reply: seq![SOCKS_VERSION, 0xFFu8],
                action: ActionView::Close,
            })
        },
        session.after_auth(offer).0.inv(),
{
}

/// A request for BIND or UDP ASSOCIATE is answered with "command not
/// supported", ends the session, and leaves it without upstream: no
/// resolution and no connection is asked for.
pub proof fn lemma_unsupported_command(session: SessionView, request: ConnectRequireView)
    requires
        session.inv(),
        session.phase == Phase::Requesting,
        request.command != SocksCommand::CmdTcp,
    ensures
        session.after_request(request).0 == session.closed(),
        session.after_request(request).0.upstream is None,
        session.after_request(request).1 == (DirectiveView {
            reply: encode_connect_response(refusal(request, ConnectStatus::CommandNotSupport)),
            action: ActionView::Close,
        }),
{
}

/// A connection is asked for only on behalf of a CONNECT request, and only
/// by a session that is authenticated and not yet connected.
pub proof fn lemma_connect_only_for_tcp(session: SessionView, event: Event)
    requires
        session.inv(),
        session.step(event).1.action is Connect,
    ensures
        session.step(event).0.phase == Phase::Connecting,
        session.step(event).0.state == SessionState::SocksAuthed,
        session.step(event).0.request matches Some(request) && request.command
            == SocksCommand::CmdTcp,
        session.step(event).0.target == Some(session.step(event).1.action->Connect_0),
{
}

/// A deadline that passes while the session is running puts it in the
/// timeout state, ends it, and leaves it without upstream.
pub proof fn lemma_timeout_ends_session(session: SessionView)
    requires
        session.phase != Phase::Closed,
    ensures
        session.step(Event::TimedOut).0.state == SessionState::SocksTimeout,
        session.step(Event::TimedOut).0.phase == Phase::Closed,
        session.step(Event::TimedOut).0.upstream is None,
        session.step(Event::TimedOut).1 == close_directive(),
{
}

/// While the relay runs, whatever is reported ends the session: the first
/// direction to finish finishes both.
pub proof fn lemma_relay_fails_fast(session: SessionView, event: Event)
    requires
        session.inv(),
        session.phase == Phase::Relaying,
    ensures
        session.step(event).0.phase == Phase::Closed,
        session.step(event).1 == close_directive(),
{
}

/// The session reads within bounds: it never asks for no bytes, and what it
/// asks for is what it then awaits.
pub proof fn lemma_reads_are_bounded(session: SessionView, event: Event)
    requires
        session.inv(),
        session.step(event).1.action is Read,
    ensures
        session.step(event).1.action->Read_0 >= 1,
        session.step(event).0.wanted == session.step(event).1.action->Read_0,
        session.step(event).0.phase == Phase::Negotiating || session.step(event).0.phase
            == Phase::Requesting,
{
}

} // verus!
