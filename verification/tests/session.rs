use socks5_proxy::socks5::endpoint::SocketEndpoint;
use socks5_proxy::socks5::session::{
    Action, Directive, Event, Phase, Progress, Session, SessionState,
};
use socks5_proxy::socks5::types::{
    AuthMethod, AuthRequire, AuthResponse, ConnectRequire, DecodeError, SocksAddress,
    SocksCommand,
};

fn client() -> SocketEndpoint {
    SocketEndpoint::V4([127, 0, 0, 1], 54321)
}

fn read(length: usize) -> Directive {
    Directive { reply: vec![], action: Action::Read(length) }
}

fn close() -> Directive {
    Directive { reply: vec![], action: Action::Close }
}

/// A session that has agreed on "no authentication" and awaits the request.
fn authed() -> Session {
    let mut session = Session::new(client());
    assert_eq!(session.start(), read(2));
    assert_eq!(session.step(Event::Received(vec![5, 1])), read(1));
    assert_eq!(
        session.step(Event::Received(vec![0])),
        Directive { reply: vec![5, 0], action: Action::Read(4) }
    );
    session
}

/// A session that has asked for the connection to 93.184.216.34:80.
fn connecting() -> Session {
    let mut session = authed();
    assert_eq!(session.step(Event::Received(vec![5, 1, 0, 1])), read(6));
    assert_eq!(
        session.step(Event::Received(vec![93, 184, 216, 34, 0, 80])),
        Directive {
            reply: vec![],
            action: Action::Connect(SocketEndpoint::V4([93, 184, 216, 34], 80)),
        }
    );
    session
}

#[test]
fn new_session_is_initial() {
    let session = Session::new(client());
    assert_eq!(session.session_state(), SessionState::SocksInitialize);
    assert_eq!(session.phase(), Phase::Negotiating);
    assert_eq!(session.proxy_server_socket(), None);
    assert_eq!(session.client_addr(), client());
}

#[test]
fn start_asks_for_the_offer_header() {
    let mut session = Session::new(client());
    assert_eq!(session.start(), read(2));
    assert_eq!(session.phase(), Phase::Negotiating);
}

#[test]
fn start_of_a_running_session_closes_it() {
    let mut session = authed();
    assert_eq!(session.step(Event::Received(vec![5])), read(3));
    assert_eq!(session.start(), close());
    assert_eq!(session.phase(), Phase::Closed);
}

#[test]
fn read_length_counts_down() {
    let mut raw_bytes = vec![1u8, 2];
    assert_eq!(Session::read_length(&mut raw_bytes, &[3, 4], 5), Ok(3));
    assert_eq!(raw_bytes, vec![1, 2, 3, 4]);
    assert_eq!(Session::read_length(&mut raw_bytes, &[5, 6, 7], 3), Ok(0));
    assert_eq!(raw_bytes, vec![1, 2, 3, 4, 5, 6, 7]);
    assert_eq!(Session::read_length(&mut raw_bytes, &[], 0), Ok(0));
    assert_eq!(raw_bytes, vec![1, 2, 3, 4, 5, 6, 7]);
}

#[test]
fn read_length_rejects_overrun_and_end_of_stream() {
    let mut raw_bytes = vec![9u8];
    assert_eq!(
        Session::read_length(&mut raw_bytes, &[1, 2, 3], 2),
        Err(DecodeError::LengthMismatch)
    );
    assert_eq!(raw_bytes, vec![9]);
    assert_eq!(Session::read_length(&mut raw_bytes, &[1], 0), Err(DecodeError::LengthMismatch));
    assert_eq!(Session::read_length(&mut raw_bytes, &[], 1), Err(DecodeError::Incomplete));
    assert_eq!(raw_bytes, vec![9]);
}

#[test]
fn negotiation_message_is_read_in_pieces() {
    assert_eq!(Session::read_negotiation_auth_require(&[]), Ok(Progress::Need(2)));
    assert_eq!(Session::read_negotiation_auth_require(&[5]), Ok(Progress::Need(1)));
    assert_eq!(Session::read_negotiation_auth_require(&[5, 3]), Ok(Progress::Need(3)));
    assert_eq!(Session::read_negotiation_auth_require(&[5, 3, 0]), Ok(Progress::Need(2)));
    assert_eq!(
        Session::read_negotiation_auth_require(&[5, 3, 0, 1, 2]),
        Ok(Progress::Done(AuthRequire {
            version: 5,
            num_method: 3,
            methods: vec![AuthMethod::NoAuth, AuthMethod::GSSAPI, AuthMethod::UserNamePassword],
        }))
    );
    assert_eq!(
        Session::read_negotiation_auth_require(&[5, 0]),
        Ok(Progress::Done(AuthRequire { version: 5, num_method: 0, methods: vec![] }))
    );
    assert_eq!(
        Session::read_negotiation_auth_require(&[5, 255]),
        Ok(Progress::Need(255))
    );
}

#[test]
fn negotiation_message_failures() {
    assert_eq!(
        Session::read_negotiation_auth_require(&[5, 1, 0, 0]),
        Err(DecodeError::LengthMismatch)
    );
    assert_eq!(
        Session::read_negotiation_auth_require(&[5, 2, 0, 0x55]),
        Err(DecodeError::UnknownCode)
    );
}

#[test]
fn connect_request_is_read_in_pieces() {
    assert_eq!(Session::read_connection_require(&[]), Ok(Progress::Need(4)));
    assert_eq!(Session::read_connection_require(&[5, 1, 0]), Ok(Progress::Need(1)));
    assert_eq!(Session::read_connection_require(&[5, 1, 0, 1]), Ok(Progress::Need(6)));
    assert_eq!(Session::read_connection_require(&[5, 1, 0, 4]), Ok(Progress::Need(18)));
    assert_eq!(Session::read_connection_require(&[5, 1, 0, 3]), Ok(Progress::Need(1)));
    assert_eq!(Session::read_connection_require(&[5, 1, 0, 3, 11]), Ok(Progress::Need(13)));
    assert_eq!(Session::read_connection_require(&[5, 1, 0, 3, 255]), Ok(Progress::Need(257)));
    assert_eq!(Session::read_connection_require(&[5, 1, 0, 3, 0]), Ok(Progress::Need(2)));
    assert_eq!(
        Session::read_connection_require(&[5, 1, 0, 1, 93, 184, 216, 34, 0, 80]),
        Ok(Progress::Done(ConnectRequire {
            version: 5,
            command: SocksCommand::CmdTcp,
            reserved: 0,
            dest_address: SocksAddress::Ipv4(0x5DB8_D822, 80),
        }))
    );
    assert_eq!(
        Session::read_connection_require(&[5, 2, 9, 3, 2, b'h', b'i', 1, 0]),
        Ok(Progress::Done(ConnectRequire {
            version: 5,
            command: SocksCommand::CmdBind,
            reserved: 9,
            dest_address: SocksAddress::Domain(String::from("hi"), 256),
        }))
    );
}

#[test]
fn connect_request_failures() {
    assert_eq!(Session::read_connection_require(&[5, 1, 0, 2]), Err(DecodeError::UnknownCode));
    assert_eq!(
        Session::read_connection_require(&[5, 1, 0, 1, 1, 2, 3, 4, 0, 80, 0]),
        Err(DecodeError::LengthMismatch)
    );
    assert_eq!(
        Session::read_connection_require(&[5, 7, 0, 1, 1, 2, 3, 4, 0, 80]),
        Err(DecodeError::UnknownCode)
    );
    assert_eq!(
        Session::read_connection_require(&[5, 1, 0, 3, 2, 0xC3, 0x28, 0, 80]),
        Err(DecodeError::InvalidUtf8)
    );
}

#[test]
fn negotiation_selects_no_auth_when_offered() {
    let mut session = Session::new(client());
    let offer = AuthRequire {
        version: 5,
        num_method: 2,
        methods: vec![AuthMethod::UserNamePassword, AuthMethod::NoAuth],
    };
    assert_eq!(session.phase(), Phase::Negotiating);
    assert_eq!(
        session.handle_auth(&offer),
        AuthResponse { version: 5, choosed_method: AuthMethod::NoAuth }
    );
    assert_eq!(session.session_state(), SessionState::SocksAuthed);
    assert_eq!(session.phase(), Phase::Requesting);
}

#[test]
fn negotiation_refuses_when_no_auth_is_not_offered() {
    let mut session = Session::new(client());
    let offer = AuthRequire { version: 5, num_method: 1, methods: vec![AuthMethod::GSSAPI] };
    assert_eq!(
        session.handle_auth(&offer),
        AuthResponse { version: 5, choosed_method: AuthMethod::NoAcceptedMethod }
    );
    assert_eq!(session.session_state(), SessionState::SocksRefused);
    assert_eq!(session.phase(), Phase::Closed);
}

#[test]
fn negotiation_over_the_wire_selects_no_auth() {
    let mut session = Session::new(client());
    assert_eq!(session.start(), read(2));
    assert_eq!(session.step(Event::Received(vec![5, 2])), read(2));
    assert_eq!(
        session.step(Event::Received(vec![2, 0])),
        Directive { reply: vec![5, 0], action: Action::Read(4) }
    );
    assert_eq!(session.session_state(), SessionState::SocksAuthed);
}

#[test]
fn negotiation_over_the_wire_refuses_and_ends() {
    let mut session = Session::new(client());
    assert_eq!(session.start(), read(2));
    assert_eq!(session.step(Event::Received(vec![5, 1])), read(1));
    assert_eq!(
        session.step(Event::Received(vec![1])),
        Directive { reply: vec![5, 0xFF], action: Action::Close }
    );
    assert_eq!(session.session_state(), SessionState::SocksRefused);
    assert_eq!(session.phase(), Phase::Closed);
    assert_eq!(session.step(Event::Received(vec![5, 1, 0, 1])), close());
    assert_eq!(session.session_state(), SessionState::SocksRefused);
}

#[test]
fn negotiation_with_no_methods_refuses() {
    let mut session = Session::new(client());
    session.start();
    assert_eq!(
        session.step(Event::Received(vec![5, 0])),
        Directive { reply: vec![5, 0xFF], action: Action::Close }
    );
    assert_eq!(session.session_state(), SessionState::SocksRefused);
}

#[test]
fn negotiation_byte_by_byte() {
    let mut session = Session::new(client());
    assert_eq!(session.start(), read(2));
    assert_eq!(session.step(Event::Received(vec![5])), read(1));
    assert_eq!(session.step(Event::Received(vec![3])), read(3));
    assert_eq!(session.step(Event::Received(vec![1])), read(2));
    assert_eq!(session.step(Event::Received(vec![2])), read(1));
    assert_eq!(
        session.step(Event::Received(vec![0])),
        Directive { reply: vec![5, 0], action: Action::Read(4) }
    );
}

#[test]
fn unknown_method_ends_the_session() {
    let mut session = Session::new(client());
    session.start();
    assert_eq!(session.step(Event::Received(vec![5, 1])), read(1));
    assert_eq!(session.step(Event::Received(vec![0x55])), close());
    assert_eq!(session.phase(), Phase::Closed);
    assert_eq!(session.session_state(), SessionState::SocksInitialize);
}

#[test]
fn more_bytes_than_asked_for_end_the_session() {
    let mut session = Session::new(client());
    session.start();
    assert_eq!(session.step(Event::Received(vec![5, 1, 0])), close());
    assert_eq!(session.phase(), Phase::Closed);
}

#[test]
fn end_of_stream_ends_the_session() {
    let mut session = Session::new(client());
    session.start();
    assert_eq!(session.step(Event::Received(vec![5])), read(1));
    assert_eq!(session.step(Event::Received(vec![])), close());
    assert_eq!(session.phase(), Phase::Closed);
}

#[test]
fn connect_success_replies_and_relays() {
    let mut session = connecting();
    assert_eq!(session.session_state(), SessionState::SocksAuthed);
    assert_eq!(session.phase(), Phase::Connecting);
    assert_eq!(session.proxy_server_socket(), None);
    assert_eq!(
        session.step(Event::Connected),
        Directive {
            reply: vec![5, 0, 0, 1, 93, 184, 216, 34, 0, 80],
            action: Action::Relay,
        }
    );
    assert_eq!(session.session_state(), SessionState::SocksConnectedRemote);
    assert_eq!(session.phase(), Phase::Relaying);
    assert_eq!(
        session.proxy_server_socket(),
        Some(SocketEndpoint::V4([93, 184, 216, 34], 80))
    );
    assert_eq!(session.proxy(), Action::Relay);
}

#[test]
fn connect_failure_replies_unreachable_and_ends() {
    let mut session = connecting();
    assert_eq!(
        session.step(Event::ConnectFailed),
        Directive { reply: vec![5, 3, 0, 1, 0, 0, 0, 0, 0, 0], action: Action::Close }
    );
    assert_eq!(session.session_state(), SessionState::SocksAuthed);
    assert_eq!(session.phase(), Phase::Closed);
    assert_eq!(session.proxy_server_socket(), None);
    assert_eq!(session.proxy(), Action::Close);
    assert_eq!(session.step(Event::Connected), close());
    assert_eq!(session.proxy_server_socket(), None);
}

#[test]
fn bind_is_not_supported() {
    let mut session = authed();
    assert_eq!(session.step(Event::Received(vec![5, 2, 0, 1])), read(6));
    assert_eq!(
        session.step(Event::Received(vec![10, 0, 0, 1, 0, 80])),
        Directive { reply: vec![5, 7, 0, 1, 0, 0, 0, 0, 0, 0], action: Action::Close }
    );
    assert_eq!(session.phase(), Phase::Closed);
    assert_eq!(session.proxy_server_socket(), None);
}

#[test]
fn udp_associate_is_not_supported() {
    let mut session = authed();
    assert_eq!(session.step(Event::Received(vec![5, 3, 0, 3])), read(1));
    assert_eq!(session.step(Event::Received(vec![1])), read(3));
    assert_eq!(
        session.step(Event::Received(vec![b'x', 0, 53])),
        Directive { reply: vec![5, 7, 0, 1, 0, 0, 0, 0, 0, 0], action: Action::Close }
    );
    assert_eq!(session.phase(), Phase::Closed);
    assert_eq!(session.proxy_server_socket(), None);
}

#[test]
fn handle_connection_dispatches_on_the_command() {
    let mut session = authed();
    assert_eq!(session.phase(), Phase::Requesting);
    let request = ConnectRequire {
        version: 5,
        command: SocksCommand::CmdBind,
        reserved: 0,
        dest_address: SocksAddress::Ipv4(1, 1),
    };
    assert_eq!(
        session.handle_connection(request),
        Directive { reply: vec![5, 7, 0, 1, 0, 0, 0, 0, 0, 0], action: Action::Close }
    );

    let mut session = authed();
    let request = ConnectRequire {
        version: 5,
        command: SocksCommand::CmdTcp,
        reserved: 0,
        dest_address: SocksAddress::Ipv6(vec![0, 0, 0, 0, 0, 0, 0, 1], 8080),
    };
    assert_eq!(
        session.handle_connection(request),
        Directive {
            reply: vec![],
            action: Action::Connect(SocketEndpoint::V6([0, 0, 0, 0, 0, 0, 0, 1], 8080)),
        }
    );
    assert_eq!(session.phase(), Phase::Connecting);

    let mut session = authed();
    let request = ConnectRequire {
        version: 5,
        command: SocksCommand::CmdTcp,
        reserved: 0,
        dest_address: SocksAddress::Ipv6(vec![1, 2, 3], 8080),
    };
    assert_eq!(
        session.handle_connection(request),
        Directive { reply: vec![5, 3, 0, 1, 0, 0, 0, 0, 0, 0], action: Action::Close }
    );
    assert_eq!(session.phase(), Phase::Closed);
}

#[test]
fn reserved_byte_is_echoed() {
    let mut session = authed();
    assert_eq!(session.step(Event::Received(vec![5, 1, 0x2A, 1])), read(6));
    session.step(Event::Received(vec![1, 2, 3, 4, 0, 7]));
    assert_eq!(
        session.step(Event::Connected),
        Directive { reply: vec![5, 0, 0x2A, 1, 1, 2, 3, 4, 0, 7], action: Action::Relay }
    );
}

/// A session that has asked for the resolution of example.com:443.
fn resolving() -> Session {
    let mut session = authed();
    assert_eq!(session.step(Event::Received(vec![5, 1, 0, 3])), read(1));
    assert_eq!(session.step(Event::Received(vec![11])), read(13));
    let mut rest = b"example.com".to_vec();
    rest.extend_from_slice(&[0x01, 0xBB]);
    assert_eq!(
        session.step(Event::Received(rest)),
        Directive { reply: vec![], action: Action::Resolve(String::from("example.com"), 443) }
    );
    assert_eq!(session.phase(), Phase::Resolving);
    session
}

#[test]
fn domain_is_resolved_then_connected() {
    let mut session = resolving();
    let candidates = vec![
        SocketEndpoint::V6([0x2606, 0x2800, 0x220, 1, 0x248, 0x1893, 0x25c8, 0x1946], 443),
        SocketEndpoint::V4([93, 184, 216, 34], 443),
    ];
    assert_eq!(
        session.step(Event::Resolved(candidates)),
        Directive {
            reply: vec![],
            action: Action::Connect(SocketEndpoint::V4([93, 184, 216, 34], 443)),
        }
    );
    assert_eq!(session.phase(), Phase::Connecting);
    let mut expected = vec![5, 0, 0, 3, 11];
    expected.extend_from_slice(b"example.com");
    expected.extend_from_slice(&[0x01, 0xBB]);
    assert_eq!(
        session.step(Event::Connected),
        Directive { reply: expected, action: Action::Relay }
    );
    assert_eq!(
        session.proxy_server_socket(),
        Some(SocketEndpoint::V4([93, 184, 216, 34], 443))
    );
}

#[test]
fn resolution_without_ipv4_fails_the_request() {
    let mut session = resolving();
    assert_eq!(
        session.step(Event::Resolved(vec![SocketEndpoint::V6([0, 0, 0, 0, 0, 0, 0, 1], 443)])),
        Directive { reply: vec![5, 3, 0, 1, 0, 0, 0, 0, 0, 0], action: Action::Close }
    );
    assert_eq!(session.phase(), Phase::Closed);

    let mut session = resolving();
    assert_eq!(
        session.step(Event::Resolved(vec![])),
        Directive { reply: vec![5, 3, 0, 1, 0, 0, 0, 0, 0, 0], action: Action::Close }
    );
}

#[test]
fn failed_resolution_fails_the_request() {
    let mut session = resolving();
    assert_eq!(
        session.step(Event::ConnectFailed),
        Directive { reply: vec![5, 3, 0, 1, 0, 0, 0, 0, 0, 0], action: Action::Close }
    );
    assert_eq!(session.phase(), Phase::Closed);
}

#[test]
fn handle_resolution_and_outcome_directly() {
    let mut session = resolving();
    assert_eq!(
        session.handle_resolution(&[SocketEndpoint::V4([8, 8, 8, 8], 443)]),
        Directive { reply: vec![], action: Action::Connect(SocketEndpoint::V4([8, 8, 8, 8], 443)) }
    );
    assert_eq!(session.phase(), Phase::Connecting);
    let directive = session.handle_outcome(false);
    assert_eq!(directive.action, Action::Close);
    assert_eq!(directive.reply[1], 3);
    assert_eq!(session.phase(), Phase::Closed);
}

#[test]
fn domain_length_beyond_what_arrives_ends_the_session() {
    let mut session = authed();
    assert_eq!(session.step(Event::Received(vec![5, 1, 0, 3])), read(1));
    assert_eq!(session.step(Event::Received(vec![200])), read(202));
    assert_eq!(session.step(Event::Received(vec![b'a', b'b'])), read(200));
    assert_eq!(session.step(Event::Received(vec![])), close());
    assert_eq!(session.phase(), Phase::Closed);
}

#[test]
fn unknown_address_type_ends_the_session() {
    let mut session = authed();
    assert_eq!(session.step(Event::Received(vec![5, 1, 0, 9])), close());
    assert_eq!(session.phase(), Phase::Closed);
}

#[test]
fn unknown_command_ends_the_session() {
    let mut session = authed();
    assert_eq!(session.step(Event::Received(vec![5, 8, 0, 1])), read(6));
    assert_eq!(session.step(Event::Received(vec![1, 2, 3, 4, 0, 80])), close());
    assert_eq!(session.phase(), Phase::Closed);
}

#[test]
fn relay_ends_when_either_direction_ends() {
    let mut session = connecting();
    session.step(Event::Connected);
    assert_eq!(session.phase(), Phase::Relaying);
    assert_eq!(session.step(Event::RelayEnded), close());
    assert_eq!(session.phase(), Phase::Closed);
    assert_eq!(session.session_state(), SessionState::SocksConnectedRemote);
    assert_eq!(session.proxy(), Action::Close);
}

#[test]
fn anything_unexpected_during_relay_ends_it() {
    let mut session = connecting();
    session.step(Event::Connected);
    assert_eq!(session.step(Event::Received(vec![1, 2, 3])), close());
    assert_eq!(session.phase(), Phase::Closed);
}

#[test]
fn timeout_ends_the_session_in_every_phase() {
    let mut session = Session::new(client());
    session.start();
    assert_eq!(session.step(Event::TimedOut), close());
    assert_eq!(session.session_state(), SessionState::SocksTimeout);
    assert_eq!(session.phase(), Phase::Closed);

    let mut session = connecting();
    assert_eq!(session.step(Event::TimedOut), close());
    assert_eq!(session.session_state(), SessionState::SocksTimeout);

    let mut session = connecting();
    session.step(Event::Connected);
    assert_eq!(session.step(Event::TimedOut), close());
    assert_eq!(session.session_state(), SessionState::SocksTimeout);
    assert_eq!(session.proxy_server_socket(), None);
}

#[test]
fn disconnect_ends_the_session() {
    let mut session = authed();
    assert_eq!(session.step(Event::Disconnected), close());
    assert_eq!(session.phase(), Phase::Closed);
    assert_eq!(session.session_state(), SessionState::SocksAuthed);
}

#[test]
fn events_out_of_turn_end_the_session() {
    let mut session = Session::new(client());
    session.start();
    assert_eq!(session.step(Event::Connected), close());
    assert_eq!(session.phase(), Phase::Closed);
    assert_eq!(session.proxy_server_socket(), None);

    let mut session = authed();
    assert_eq!(session.step(Event::Resolved(vec![SocketEndpoint::V4([1, 1, 1, 1], 1)])), close());

    let mut session = connecting();
    assert_eq!(session.step(Event::Received(vec![0])), close());

    let mut session = authed();
    assert_eq!(session.step(Event::RelayEnded), close());
    assert_eq!(session.proxy(), Action::Close);
}

#[test]
fn closed_session_stays_closed() {
    let mut session = connecting();
    session.step(Event::ConnectFailed);
    let events = vec![
        Event::Received(vec![5, 1, 0]),
        Event::Resolved(vec![]),
        Event::Connected,
        Event::ConnectFailed,
        Event::RelayEnded,
        Event::TimedOut,
        Event::Disconnected,
    ];
    for event in events {
        assert_eq!(session.step(event), close());
        assert_eq!(session.phase(), Phase::Closed);
        assert_eq!(session.session_state(), SessionState::SocksAuthed);
    }
}
