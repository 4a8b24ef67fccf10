//! One client connection as a state machine without I/O.
//!
//! The session never touches a socket. Its driver performs what a
//! [`Directive`] says (write a reply, then read, resolve, connect, relay or
//! close) and reports what happened as an [`Event`]; the session answers
//! with the next directive. Reads are bounded: the session asks for no more
//! bytes than the message in progress still lacks.

use crate::socks5::endpoint::{socket_addr_of, SocketEndpoint};
use crate::socks5::types::{
    decode_auth_require, decode_connect_require, encode_auth_response, encode_connect_response,
    parser_auth_require, parser_connect_require, AddressView, AuthMethod, AuthRequire,
    AuthRequireView, AuthResponse, ConnectRequire, ConnectRequireView, ConnectResponse,
    ConnectResponseView, ConnectStatus, DecodeError, SocksAddress, SocksCommand, ATYP_DOMAIN,
    ATYP_IPV4, ATYP_IPV6,
};
use vstd::prelude::*;
use vstd::slice::slice_to_vec;

verus! {

/// The protocol version that the server answers with.
pub const SOCKS_VERSION: u8 = 0x05;

/// How far a message that arrives in pieces has come.
#[derive(Debug, PartialEq, Eq)]
pub enum Progress<T> {
    /// The message lacks this many bytes, as far as can be told from those
    /// that are there.
    Need(usize),
    /// The message is complete, and this is what it says.
    Done(T),
}

/// The outcome of reading a message in pieces, with the message by its view.
pub open spec fn progress_of<T: View>(r: Result<Progress<T>, DecodeError>) -> Result<
    Progress<T::V>,
    DecodeError,
> {
    match r {
        Ok(Progress::Need(missing)) => Ok(Progress::Need(missing)),
        Ok(Progress::Done(message)) => Ok(Progress::Done(message@)),
        Err(e) => Err(e),
    }
}

/// The length of the negotiation message that starts with `bytes`, as far
/// as `bytes` tells: two header bytes, then as many methods as the second
/// byte says.
pub open spec fn negotiation_frame_len(bytes: Seq<u8>) -> nat {
    if bytes.len() < 2 {
        2
    } else {
        (2 + bytes[1]) as nat
    }
}

/// The length of the connect request that starts with `bytes`, as far as
/// `bytes` tells: four header bytes, then six bytes for IPv4, eighteen for
/// IPv6, or a length byte, the name and two port bytes for a domain. An
/// address type that is none of these is a failure.
pub open spec fn connect_frame_len(bytes: Seq<u8>) -> Result<nat, DecodeError> {
    if bytes.len() < 4 {
        Ok(4)
    } else if bytes[3] == ATYP_IPV4 {
        Ok(10)
    } else if bytes[3] == ATYP_IPV6 {
        Ok(22)
    } else if bytes[3] == ATYP_DOMAIN {
        if bytes.len() < 5 {
            Ok(5)
        } else {
            Ok((7 + bytes[4]) as nat)
        }
    } else {
        Err(DecodeError::UnknownCode)
    }
}

/// What the bytes received so far make of a negotiation message: too few
/// ask for the rest, too many are a length mismatch, and exactly enough are
/// decoded.
pub open spec fn negotiation_progress(bytes: Seq<u8>) -> Result<
    Progress<AuthRequireView>,
    DecodeError,
> {
    let frame = negotiation_frame_len(bytes);
    if bytes.len() < frame {
        Ok(Progress::Need((frame - bytes.len()) as usize))
    } else if bytes.len() > frame {
        Err(DecodeError::LengthMismatch)
    } else {
        match decode_auth_require(bytes) {
            Ok((_, offer)) => Ok(Progress::Done(offer)),
            Err(e) => Err(e),
        }
    }
}

/// What the bytes received so far make of a connect request: too few ask
/// for the rest, too many are a length mismatch, and exactly enough are
/// decoded.
pub open spec fn connect_progress(bytes: Seq<u8>) -> Result<
    Progress<ConnectRequireView>,
    DecodeError,
> {
    match connect_frame_len(bytes) {
        Err(e) => Err(e),
        Ok(frame) => if bytes.len() < frame {
            Ok(Progress::Need((frame - bytes.len()) as usize))
        } else if bytes.len() > frame {
            Err(DecodeError::LengthMismatch)
        } else {
            match decode_connect_require(bytes) {
                Ok((_, request)) => Ok(Progress::Done(request)),
                Err(e) => Err(e),
            }
        },
    }
}

/// What a chunk does to a read of `length` bytes: an empty chunk while bytes
/// are awaited is the end of the stream, a chunk longer than `length` is a
/// length mismatch, and any other chunk leaves `length` less its own length
/// to read.
pub open spec fn read_outcome(chunk: Seq<u8>, length: usize) -> Result<usize, DecodeError> {
    if chunk.len() > length {
        Err(DecodeError::LengthMismatch)
    } else if chunk.len() == 0 && length > 0 {
        Err(DecodeError::Incomplete)
    } else {
        Ok((length - chunk.len()) as usize)
    }
}

/// The states of a session.
#[derive(Clone, Copy, Debug, PartialEq, Eq, Structural)]
pub enum SessionState {
    /// Nothing is agreed yet.
    SocksInitialize,
    /// The negotiation chose a method.
    SocksAuthed,
    /// The negotiation found no acceptable method.
    SocksRefused,
    /// A deadline passed.
    SocksTimeout,
    /// The upstream connection stands.
    SocksConnectedRemote,
}

/// What a session is waiting for.
#[derive(Clone, Copy, Debug, PartialEq, Eq, Structural)]
pub enum Phase {
    /// The bytes of the client's offer.
    Negotiating,
    /// The bytes of the client's connect request.
    Requesting,
    /// The endpoints that the destination's name resolves to.
    Resolving,
    /// The outcome of the outbound connection.
    Connecting,
    /// The end of the relay.
    Relaying,
    /// Nothing: the session is over.
    Closed,
}

/// What the driver reports to the session.
#[derive(Clone, Debug, PartialEq, Eq)]
pub enum Event {
    /// Bytes read from the client; none means that the client's stream ended.
    Received(Vec<u8>),
    /// The endpoints that resolution yielded, in the resolver's order.
    Resolved(Vec<SocketEndpoint>),
    /// The outbound connection stands.
    Connected,
    /// Resolution or the outbound connection failed.
    ConnectFailed,
    /// One direction of the relay ended, normally or not.
    RelayEnded,
    /// A deadline passed.
    TimedOut,
    /// The client's stream failed.
    Disconnected,
}

/// What the driver is to do next.
#[derive(Clone, Debug, PartialEq, Eq)]
pub enum Action {
    /// Read at most this many bytes from the client and report them.
    Read(usize),
    /// Resolve the name with the port and report the endpoints.
    Resolve(String, u16),
    /// Open a connection to the endpoint and report the outcome.
    Connect(SocketEndpoint),
    /// Copy bytes both ways until either direction ends, then report it.
    Relay,
    /// Close both streams.
    Close,
}

/// An action as a mathematical value.
pub enum ActionView {
    Read(usize),
    Resolve(Seq<char>, u16),
    Connect(SocketEndpoint),
    Relay,
    Close,
}

impl View for Action {
    type V = ActionView;

    open spec fn view(&self) -> ActionView {
        match self {
            Action::Read(length) => ActionView::Read(*length),
            Action::Resolve(name, port) => ActionView::Resolve(name@, *port),
            Action::Connect(endpoint) => ActionView::Connect(*endpoint),
            Action::Relay => ActionView::Relay,
            Action::Close => ActionView::Close,
        }
    }
}

/// One step of the driver: the bytes to send to the client first, if any,
/// and what to do after that.
#[derive(Clone, Debug, PartialEq, Eq)]
pub struct Directive {
    pub reply: Vec<u8>,
    pub action: Action,
}

/// A directive as a mathematical value.
pub struct DirectiveView {
    pub reply: Seq<u8>,
    pub action: ActionView,
}

impl View for Directive {
    type V = DirectiveView;

    open spec fn view(&self) -> DirectiveView {
        DirectiveView { reply: self.reply@, action: self.action@ }
    }
}

/// Nothing to send, and the streams are closed.
pub open spec fn close_directive() -> DirectiveView {
    DirectiveView { reply: Seq::empty(), action: ActionView::Close }
}

/// Nothing to send, and at most `length` bytes are read.
pub open spec fn read_directive(length: usize) -> DirectiveView {
    DirectiveView { reply: Seq::empty(), action: ActionView::Read(length) }
}

/// One client connection: where it stands in the protocol, the bytes of the
/// message in progress, and the upstream endpoint once there is one.
#[derive(Debug)]
pub struct Session {
    client_addr: SocketEndpoint,
    session_state: SessionState,
    phase: Phase,
    raw_bytes: Vec<u8>,
    wanted: usize,
    request: Option<ConnectRequire>,
    target: Option<SocketEndpoint>,
    proxy_server_socket: Option<SocketEndpoint>,
}

/// A session as a mathematical value.
pub struct SessionView {
    /// The client's address.
    pub client_addr: SocketEndpoint,
    /// The protocol state.
    pub state: SessionState,
    /// What the session is waiting for.
    pub phase: Phase,
    /// The bytes received so far of the message in progress.
    pub received: Seq<u8>,
    /// The number of bytes last asked for and not yet received.
    pub wanted: usize,
    /// The connect request that is being served.
    pub request: Option<ConnectRequireView>,
    /// The endpoint that a connection is being opened to.
    pub target: Option<SocketEndpoint>,
    /// The endpoint of the upstream connection.
    pub upstream: Option<SocketEndpoint>,
}

/// The answer to an offer: "no authentication" if the client offered it,
/// "no acceptable method" otherwise.
pub open spec fn auth_answer(offer: AuthRequireView) -> AuthResponse {
    AuthResponse {
        version: SOCKS_VERSION,
        choosed_method: if offer.methods.contains(AuthMethod::NoAuth) {
            AuthMethod::NoAuth
        } else {
            AuthMethod::NoAcceptedMethod
        },
    }
}

/// The reply to a request that is not served: the status, the request's
/// reserved byte, and the bound address 0.0.0.0:0.
pub open spec fn refusal(
    request: ConnectRequireView,
    status: ConnectStatus,
) -> ConnectResponseView {
    ConnectResponseView {
        version: SOCKS_VERSION,
        status,
        reserved: request.reserved,
        bind_address: AddressView::Ipv4(0, 0),
    }
}

/// The reply to a request whose connection stands: success, the request's
/// reserved byte, and the destination as the bound address.
pub open spec fn acceptance(request: ConnectRequireView) -> ConnectResponseView {
    ConnectResponseView {
        version: SOCKS_VERSION,
        status: ConnectStatus::ConnectSuccess,
        reserved: request.reserved,
        bind_address: request.dest_address,
    }
}

impl SessionView {
    /// What holds of every session: the upstream endpoint is there exactly
    /// in the connected state; each phase belongs to its state; a refused or
    /// timed-out session is over; a request is held only while it is
    /// served, and then it is a CONNECT; bytes are held only while a message
    /// is read.
    pub open spec fn inv(self) -> bool {
        &&& self.upstream is Some <==> self.state == SessionState::SocksConnectedRemote
        &&& match self.phase {
            Phase::Negotiating => {
                &&& self.state == SessionState::SocksInitialize
                &&& self.request is None
                &&& self.target is None
            },
            Phase::Requesting => {
                &&& self.state == SessionState::SocksAuthed
                &&& self.request is None
                &&& self.target is None
            },
            Phase::Resolving => {
                &&& self.state == SessionState::SocksAuthed
                &&& self.request matches Some(request) && request.command == SocksCommand::CmdTcp
                    && request.dest_address is Domain
                &&& self.received.len() == 0
                &&& self.wanted == 0
            },
            Phase::Connecting => {
                &&& self.state == SessionState::SocksAuthed
                &&& self.request matches Some(request) && request.command == SocksCommand::CmdTcp
                &&& self.target is Some
                &&& self.received.len() == 0
                &&& self.wanted == 0
            },
            Phase::Relaying => {
                &&& self.state == SessionState::SocksConnectedRemote
                &&& self.request is None
                &&& self.target is None
                &&& self.received.len() == 0
                &&& self.wanted == 0
            },
            Phase::Closed => {
                &&& self.request is None
                &&& self.target is None
                &&& self.received.len() == 0
                &&& self.wanted == 0
            },
        }
    }

    /// The session once it is over: nothing is awaited any more; the state
    /// and the upstream endpoint stay.
    pub open spec fn closed(self) -> SessionView {
        SessionView {
            phase: Phase::Closed,
            received: Seq::empty(),
            wanted: 0,
            request: None,
            target: None,
            ..self
        }
    }

    /// The session after a deadline passed: over, in the timeout state,
    /// without upstream.
    pub open spec fn timed_out(self) -> SessionView {
        SessionView { state: SessionState::SocksTimeout, upstream: None, ..self.closed() }
    }

    /// The first step: a fresh session asks for the two header bytes of the
    /// offer; any other session is closed.
    pub open spec fn begin(self) -> (SessionView, DirectiveView) {
        if self.phase == Phase::Negotiating && self.received.len() == 0 {
            (SessionView { wanted: 2, ..self }, read_directive(2))
        } else {
            (self.closed(), close_directive())
        }
    }

    /// The negotiation decided: with "no authentication" the session is
    /// authenticated and asks for the four header bytes of the request;
    /// otherwise it is refused and over. Either way the answer is sent.
    pub open spec fn after_auth(self, offer: AuthRequireView) -> (SessionView, DirectiveView) {
        let answer = auth_answer(offer);
        if answer.choosed_method == AuthMethod::NoAuth {
            (
                SessionView {
                    state: SessionState::SocksAuthed,
                    phase: Phase::Requesting,
                    received: Seq::empty(),
                    wanted: 4,
                    ..self
                },
                DirectiveView { reply: encode_auth_response(answer), action: ActionView::Read(4) },
            )
        } else {
            (
                SessionView { state: SessionState::SocksRefused, ..self.closed() },
                DirectiveView { reply: encode_auth_response(answer), action: ActionView::Close },
            )
        }
    }

    /// A request arrived. BIND and UDP ASSOCIATE are answered with "command
    /// not supported" and end the session. CONNECT to a domain asks for its
    /// resolution; CONNECT to an IP address asks for the connection.
    pub open spec fn after_request(self, request: ConnectRequireView) -> (
        SessionView,
        DirectiveView,
    ) {
        if request.command != SocksCommand::CmdTcp {
            (
                self.closed(),
                DirectiveView {
                    reply: encode_connect_response(
                        refusal(request, ConnectStatus::CommandNotSupport),
                    ),
                    action: ActionView::Close,
                },
            )
        } else {
            match request.dest_address {
                AddressView::Domain(name, port) => (
                    SessionView {
                        phase: Phase::Resolving,
                        received: Seq::empty(),
                        wanted: 0,
                        request: Some(request),
                        ..self
                    },
                    DirectiveView { reply: Seq::empty(), action: ActionView::Resolve(name, port) },
                ),
                _ => SessionView { request: Some(request), ..self }.after_resolution(
                    Seq::empty(),
                ),
            }
        }
    }

    /// The destination is resolved. With an endpoint for it the session
    /// asks for the connection; without one the request has failed.
    pub open spec fn after_resolution(self, candidates: Seq<SocketEndpoint>) -> (
        SessionView,
        DirectiveView,
    ) {
        match self.request {
            None => (self.closed(), close_directive()),
            Some(request) => match socket_addr_of(request.dest_address, candidates) {
                Some(endpoint) => (
                    SessionView {
                        phase: Phase::Connecting,
                        received: Seq::empty(),
                        wanted: 0,
                        target: Some(endpoint),
                        ..self
                    },
                    DirectiveView { reply: Seq::empty(), action: ActionView::Connect(endpoint) },
                ),
                None => self.after_connect(false),
            },
        }
    }

    /// The connection attempt ended. If it stands, the session is connected,
    /// sends the success reply and relays. If not, it sends the "network
    /// unreachable" reply and is over.
    pub open spec fn after_connect(self, connected: bool) -> (SessionView, DirectiveView) {
        match self.request {
            None => (self.closed(), close_directive()),
            Some(request) => if connected && self.target is Some {
                (
                    SessionView {
                        state: SessionState::SocksConnectedRemote,
                        phase: Phase::Relaying,
                        received: Seq::empty(),
                        wanted: 0,
                        request: None,
                        target: None,
                        upstream: self.target,
                        ..self
                    },
                    DirectiveView {
                        reply: encode_connect_response(acceptance(request)),
                        action: ActionView::Relay,
                    },
                )
            } else {
                (
                    self.closed(),
                    DirectiveView {
                        reply: encode_connect_response(
                            refusal(request, ConnectStatus::NetworkUnreachable),
                        ),
                        action: ActionView::Close,
                    },
                )
            },
        }
    }

    /// Bytes arrived while a message is read. A chunk that is empty or
    /// longer than asked for ends the session. Otherwise it joins the bytes
    /// received; while the read is unfinished the rest is asked for, and
    /// then the bytes are taken as the message of the phase.
    pub open spec fn after_bytes(self, chunk: Seq<u8>) -> (SessionView, DirectiveView) {
        match read_outcome(chunk, self.wanted) {
            Err(_) => (self.closed(), close_directive()),
            Ok(missing) => {
                let received = self.received + chunk;
                if missing > 0 {
                    (SessionView { received, wanted: missing, ..self }, read_directive(missing))
                } else if self.phase == Phase::Negotiating {
                    match negotiation_progress(received) {
                        Err(_) => (self.closed(), close_directive()),
                        Ok(Progress::Need(more)) => (
                            SessionView { received, wanted: more, ..self },
                            read_directive(more),
                        ),
                        Ok(Progress::Done(offer)) => self.after_auth(offer),
                    }
                } else if self.phase == Phase::Requesting {
                    match connect_progress(received) {
                        Err(_) => (self.closed(), close_directive()),
                        Ok(Progress::Need(more)) => (
                            SessionView { received, wanted: more, ..self },
                            read_directive(more),
                        ),
                        Ok(Progress::Done(request)) => self.after_request(request),
                    }
                } else {
                    (self.closed(), close_directive())
                }
            },
        }
    }

    /// The session's answer to an event. A session that is over stays as it
    /// is and says so. A deadline that passed and a failed client stream end
    /// the session. Each other event is taken in the phase that awaits it,
    /// and ends the session in any other.
    pub open spec fn step(self, event: Event) -> (SessionView, DirectiveView) {
        if self.phase == Phase::Closed {
            (self, close_directive())
        } else {
            match event {
                Event::TimedOut => (self.timed_out(), close_directive()),
                Event::Disconnected => (self.closed(), close_directive()),
                Event::RelayEnded => (self.closed(), close_directive()),
                Event::Received(chunk) => if self.phase == Phase::Negotiating || self.phase
                    == Phase::Requesting {
                    self.after_bytes(chunk@)
                } else {
                    (self.closed(), close_directive())
                },
                Event::Resolved(candidates) => if self.phase == Phase::Resolving {
                    self.after_resolution(candidates@)
                } else {
                    (self.closed(), close_directive())
                },
                Event::Connected => if self.phase == Phase::Connecting {
                    self.after_connect(true)
                } else {
                    (self.closed(), close_directive())
                },
                Event::ConnectFailed => if self.phase == Phase::Connecting || self.phase
                    == Phase::Resolving {
                    self.after_connect(false)
                } else {
                    (self.closed(), close_directive())
                },
            }
        }
    }
}

impl View for Session {
    type V = SessionView;

    closed spec fn view(&self) -> SessionView {
        SessionView {
            client_addr: self.client_addr,
            state: self.session_state,
            phase: self.phase,
            received: self.raw_bytes@,
            wanted: self.wanted,
            request: match self.request {
                Some(request) => Some(request@),
                None => None,
            },
            target: self.target,
            upstream: self.proxy_server_socket,
        }
    }
}

impl Session {
    #[verifier::type_invariant]
    spec fn valid(self) -> bool {
        self@.inv()
    }

    /// A fresh session for a client at `addr`: nothing is agreed, nothing is
    /// received, and there is no upstream.
    pub fn new(addr: SocketEndpoint) -> (session: Session)
        ensures
            session@ == (SessionView {
                client_addr: addr,
                state: SessionState::SocksInitialize,
                phase: Phase::Negotiating,
                received: Seq::empty(),
                wanted: 2,
                request: None,
                target: None,
                upstream: None,
            }),
            session@.inv(),
    {
        Session {
            client_addr: addr,
            session_state: SessionState::SocksInitialize,
            phase: Phase::Negotiating,
            raw_bytes: Vec::new(),
            wanted: 2,
            request: None,
            target: None,
            proxy_server_socket: None,
        }
    }

    /// The client's address.
    pub fn client_addr(&self) -> (addr: SocketEndpoint)
        ensures
            addr == self@.client_addr,
    {
        self.client_addr
    }

    /// The protocol state.
    pub fn session_state(&self) -> (state: SessionState)
        ensures
            state == self@.state,
            self@.inv(),
    {
        proof {
            use_type_invariant(self);
        }
        self.session_state
    }

    /// What the session is waiting for.
    pub fn phase(&self) -> (phase: Phase)
        ensures
            phase == self@.phase,
            self@.inv(),
    {
        proof {
            use_type_invariant(self);
        }
        self.phase
    }

    /// The endpoint of the upstream connection, once it stands.
    pub fn proxy_server_socket(&self) -> (upstream: Option<SocketEndpoint>)
        ensures
            upstream == self@.upstream,
            self@.inv(),
    {
        proof {
            use_type_invariant(self);
        }
        self.proxy_server_socket
    }

    /// Adds a chunk to the bytes of a read that still lacks `length` bytes,
    /// and says how many it lacks after that. An empty chunk while bytes are
    /// awaited, and a chunk longer than `length`, are failures and leave the
    /// bytes as they are.
    pub fn read_length(raw_bytes: &mut Vec<u8>, chunk: &[u8], length: usize) -> (r: Result<
        usize,
        DecodeError,
    >)
        ensures
            r == read_outcome(chunk@, length),
            r is Ok ==> final(raw_bytes)@ == old(raw_bytes)@ + chunk@,
            r is Err ==> final(raw_bytes)@ == old(raw_bytes)@,
    {
        let read_length = chunk.len();
        if read_length > length {
            return Err(DecodeError::LengthMismatch);
        }
        if read_length == 0 && length > 0 {
            return Err(DecodeError::Incomplete);
        }
        let mut i: usize = 0;
        while i < read_length
            invariant
                read_length == chunk@.len(),
                i <= read_length,
                raw_bytes@ == old(raw_bytes)@ + chunk@.take(i as int),
            decreases read_length - i,
        {
            raw_bytes.push(chunk[i]);
            i += 1;
        }
        assert(chunk@.take(read_length as int) == chunk@);
        Ok(length - read_length)
    }

    /// Takes the bytes received so far as a negotiation message: asks for
    /// what it lacks, or decodes it when it is complete.
    pub fn read_negotiation_auth_require(raw_bytes: &[u8]) -> (r: Result<
        Progress<AuthRequire>,
        DecodeError,
    >)
        ensures
            progress_of(r) == negotiation_progress(raw_bytes@),
    {
        let frame: usize = if raw_bytes.len() < 2 {
            2
        } else {
            2 + raw_bytes[1] as usize
        };
        if raw_bytes.len() < frame {
            Ok(Progress::Need(frame - raw_bytes.len()))
        } else if raw_bytes.len() > frame {
            Err(DecodeError::LengthMismatch)
        } else {
            match parser_auth_require(raw_bytes) {
                Ok((_, request)) => Ok(Progress::Done(request)),
                Err(e) => Err(e),
            }
        }
    }

    /// Takes the bytes received so far as a connect request: asks for what
    /// it lacks, or decodes it when it is complete.
    pub fn read_connection_require(raw_bytes: &[u8]) -> (r: Result<
        Progress<ConnectRequire>,
        DecodeError,
    >)
        ensures
            progress_of(r) == connect_progress(raw_bytes@),
    {
        let frame: usize = if raw_bytes.len() < 4 {
            4
        } else {
            let address_type = raw_bytes[3];
            if address_type == ATYP_IPV4 {
                10
            } else if address_type == ATYP_IPV6 {
                22
            } else if address_type == ATYP_DOMAIN {
                if raw_bytes.len() < 5 {
                    5
                } else {
                    7 + raw_bytes[4] as usize
                }
            } else {
                return Err(DecodeError::UnknownCode);
            }
        };
        if raw_bytes.len() < frame {
            Ok(Progress::Need(frame - raw_bytes.len()))
        } else if raw_bytes.len() > frame {
            Err(DecodeError::LengthMismatch)
        } else {
            match parser_connect_require(raw_bytes) {
                Ok((_, request)) => Ok(Progress::Done(request)),
                Err(e) => Err(e),
            }
        }
    }
}

impl SessionView {
    /// What follows the connect reply: the relay if the upstream connection
    /// stands, and the end of the session otherwise.
    pub open spec fn relay_action(self) -> ActionView {
        if self.phase == Phase::Relaying && self.upstream is Some {
            ActionView::Relay
        } else {
            ActionView::Close
        }
    }
}

/// Whether an offer holds the method "no authentication".
fn offers_no_auth(auth_request: &AuthRequire) -> (offered: bool)
    ensures
        offered == auth_request@.methods.contains(AuthMethod::NoAuth),
{
    let mut i: usize = 0;
    while i < auth_request.methods.len()
        invariant
            i <= auth_request.methods@.len(),
            forall|k: int| 0 <= k < i ==> auth_request.methods@[k] != AuthMethod::NoAuth,
        decreases auth_request.methods@.len() - i,
    {
        if AuthMethod::NoAuth == auth_request.methods[i] {
            return true;
        }
        i += 1;
    }
    false
}

impl Session {
    /// Ends the session.
    fn close(&mut self)
        ensures
            final(self)@ == old(self)@.closed(),
            final(self)@.inv(),
    {
        proof {
            use_type_invariant(&*self);
        }
        *self = Session {
            client_addr: self.client_addr,
            session_state: self.session_state,
            phase: Phase::Closed,
            raw_bytes: Vec::new(),
            wanted: 0,
            request: None,
            target: None,
            proxy_server_socket: self.proxy_server_socket,
        };
    }

    /// Begins the session: a fresh session asks for the two header bytes of
    /// the client's offer; any other session is closed.
    pub fn start(&mut self) -> (directive: Directive)
        ensures
            (final(self)@, directive@) == old(self)@.begin(),
            final(self)@.inv(),
    {
        proof {
            use_type_invariant(&*self);
        }
        if self.phase == Phase::Negotiating && self.raw_bytes.len() == 0 {
            self.wanted = 2;
            Directive { reply: Vec::new(), action: Action::Read(2) }
        } else {
            self.close();
            Directive { reply: Vec::new(), action: Action::Close }
        }
    }

    /// Decides the negotiation: chooses "no authentication" if the client
    /// offered it and moves on to the connect phase, and refuses the client
    /// otherwise.
    pub fn handle_auth(&mut self, auth_request: &AuthRequire) -> (auth_response: AuthResponse)
        requires
            old(self)@.phase == Phase::Negotiating,
        ensures
            auth_response == auth_answer(auth_request@),
            final(self)@ == old(self)@.after_auth(auth_request@).0,
            final(self)@.inv(),
    {
        proof {
            use_type_invariant(&*self);
        }
        if offers_no_auth(auth_request) {
            *self = Session {
                client_addr: self.client_addr,
                session_state: SessionState::SocksAuthed,
                phase: Phase::Requesting,
                raw_bytes: Vec::new(),
                wanted: 4,
                request: None,
                target: None,
                proxy_server_socket: self.proxy_server_socket,
            };
            AuthResponse { version: SOCKS_VERSION, choosed_method: AuthMethod::NoAuth }
        } else {
            *self = Session {
                client_addr: self.client_addr,
                session_state: SessionState::SocksRefused,
                phase: Phase::Closed,
                raw_bytes: Vec::new(),
                wanted: 0,
                request: None,
                target: None,
                proxy_server_socket: self.proxy_server_socket,
            };
            AuthResponse { version: SOCKS_VERSION, choosed_method: AuthMethod::NoAcceptedMethod }
        }
    }

    /// What follows the connect reply: the relay if the upstream connection
    /// stands, and the end of the session otherwise.
    pub fn proxy(&self) -> (action: Action)
        ensures
            action@ == self@.relay_action(),
            action@ == ActionView::Relay ==> self@.state == SessionState::SocksConnectedRemote,
    {
        proof {
            use_type_invariant(self);
        }
        if self.phase == Phase::Relaying && self.proxy_server_socket.is_some() {
            Action::Relay
        } else {
            Action::Close
        }
    }
}

/// The reply to a request that is not served.
fn refuse(
    connect_request: &ConnectRequire,
    status: ConnectStatus,
) -> (connect_response: ConnectResponse)
    ensures
        connect_response@ == refusal(connect_request@, status),
{
    ConnectResponse {
        version: SOCKS_VERSION,
        status,
        reserved: connect_request.reserved,
        bind_address: SocksAddress::Ipv4(0, 0),
    }
}

impl Session {
    /// Ends the session with the reply that the request has failed.
    fn fail_connection(
        &mut self,
        connect_request: &ConnectRequire,
        status: ConnectStatus,
    ) -> (directive: Directive)
        ensures
            final(self)@ == old(self)@.closed(),
            directive@ == (DirectiveView {
                reply: encode_connect_response(refusal(connect_request@, status)),
                action: ActionView::Close,
            }),
            final(self)@.inv(),
    {
        let connect_response = refuse(connect_request, status);
        self.close();
        Directive { reply: connect_response.to_bytes(), action: Action::Close }
    }

    /// Serves a connect request. BIND and UDP ASSOCIATE are answered with
    /// "command not supported" and end the session, and nothing is
    /// connected. CONNECT to a domain asks for the name's resolution;
    /// CONNECT to an IP address asks for the connection.
    pub fn handle_connection(&mut self, connect_request: ConnectRequire) -> (directive: Directive)
        requires
            old(self)@.phase == Phase::Requesting,
        ensures
            (final(self)@, directive@) == old(self)@.after_request(connect_request@),
            final(self)@.inv(),
    {
        proof {
            use_type_invariant(&*self);
        }
        match connect_request.command {
            SocksCommand::CmdTcp => {
                match &connect_request.dest_address {
                    SocksAddress::Domain(domain, port) => {
                        let action = Action::Resolve(domain.clone(), *port);
                        *self = Session {
                            client_addr: self.client_addr,
                            session_state: self.session_state,
                            phase: Phase::Resolving,
                            raw_bytes: Vec::new(),
                            wanted: 0,
                            request: Some(connect_request),
                            target: None,
                            proxy_server_socket: self.proxy_server_socket,
                        };
                        Directive { reply: Vec::new(), action }
                    },
                    _ => {
                        let none: Vec<SocketEndpoint> = Vec::new();
                        match connect_request.dest_address.to_socket_addr(none.as_slice()) {
                            Some(endpoint) => {
                                *self = Session {
                                    client_addr: self.client_addr,
                                    session_state: self.session_state,
                                    phase: Phase::Connecting,
                                    raw_bytes: Vec::new(),
                                    wanted: 0,
                                    request: Some(connect_request),
                                    target: Some(endpoint),
                                    proxy_server_socket: self.proxy_server_socket,
                                };
                                Directive { reply: Vec::new(), action: Action::Connect(endpoint) }
                            },
                            None => self.fail_connection(
                                &connect_request,
                                ConnectStatus::NetworkUnreachable,
                            ),
                        }
                    },
                }
            },
            _ => self.fail_connection(&connect_request, ConnectStatus::CommandNotSupport),
        }
    }

    /// Takes the endpoints that the destination resolved to: asks for the
    /// connection to the first IPv4 one, and fails the request if there is
    /// none.
    pub fn handle_resolution(&mut self, addrs: &[SocketEndpoint]) -> (directive: Directive)
        requires
            old(self)@.phase == Phase::Resolving,
        ensures
            (final(self)@, directive@) == old(self)@.after_resolution(addrs@),
            final(self)@.inv(),
    {
        proof {
            use_type_invariant(&*self);
        }
        match &self.request {
            None => {
                self.close();
                Directive { reply: Vec::new(), action: Action::Close }
            },
            Some(connect_request) => {
                match connect_request.dest_address.to_socket_addr(addrs) {
                    Some(endpoint) => {
                        self.target = Some(endpoint);
                        self.phase = Phase::Connecting;
                        assert(self@.received =~= Seq::<u8>::empty());
                        Directive { reply: Vec::new(), action: Action::Connect(endpoint) }
                    },
                    None => {
                        let connect_response = refuse(
                            connect_request,
                            ConnectStatus::NetworkUnreachable,
                        );
                        self.close();
                        Directive { reply: connect_response.to_bytes(), action: Action::Close }
                    },
                }
            },
        }
    }

    /// Takes the outcome of the connection attempt. If the connection
    /// stands, the session is connected, replies with success and the
    /// destination as the bound address, and relays. If not, it replies with
    /// "network unreachable" and the bound address 0.0.0.0:0, and is over.
    pub fn handle_outcome(&mut self, connected: bool) -> (directive: Directive)
        requires
            old(self)@.phase == Phase::Connecting || old(self)@.phase == Phase::Resolving,
        ensures
            (final(self)@, directive@) == old(self)@.after_connect(connected),
            final(self)@.inv(),
    {
        proof {
            use_type_invariant(&*self);
        }
        match &self.request {
            None => {
                self.close();
                Directive { reply: Vec::new(), action: Action::Close }
            },
            Some(connect_request) => {
                if connected && self.target.is_some() {
                    let connect_response = ConnectResponse {
                        version: SOCKS_VERSION,
                        status: ConnectStatus::ConnectSuccess,
                        reserved: connect_request.reserved,
                        bind_address: connect_request.dest_address.duplicate(),
                    };
                    *self = Session {
                        client_addr: self.client_addr,
                        session_state: SessionState::SocksConnectedRemote,
                        phase: Phase::Relaying,
                        raw_bytes: Vec::new(),
                        wanted: 0,
                        request: None,
                        target: None,
                        proxy_server_socket: self.target,
                    };
                    let action = self.proxy();
                    Directive { reply: connect_response.to_bytes(), action }
                } else {
                    let connect_response = refuse(
                        connect_request,
                        ConnectStatus::NetworkUnreachable,
                    );
                    self.close();
                    Directive { reply: connect_response.to_bytes(), action: Action::Close }
                }
            },
        }
    }
}

impl Session {
    /// Takes bytes from the client while a message is read: joins them to
    /// those received, asks for the rest while the message is incomplete,
    /// and serves the message once it is whole. A chunk that is empty or
    /// longer than asked for, and a message that cannot be decoded, end the
    /// session.
    pub fn handle_bytes(&mut self, chunk: &[u8]) -> (directive: Directive)
        requires
            old(self)@.phase == Phase::Negotiating || old(self)@.phase == Phase::Requesting,
        ensures
            (final(self)@, directive@) == old(self)@.after_bytes(chunk@),
            final(self)@.inv(),
    {
        proof {
            use_type_invariant(&*self);
        }
        let mut raw_bytes = slice_to_vec(self.raw_bytes.as_slice());
        let missing = match Session::read_length(&mut raw_bytes, chunk, self.wanted) {
            Err(_) => {
                self.close();
                return Directive { reply: Vec::new(), action: Action::Close };
            },
            Ok(missing) => missing,
        };
        self.raw_bytes = raw_bytes;
        if missing > 0 {
            self.wanted = missing;
            return Directive { reply: Vec::new(), action: Action::Read(missing) };
        }
        if self.phase == Phase::Negotiating {
            match Session::read_negotiation_auth_require(self.raw_bytes.as_slice()) {
                Err(_) => {
                    self.close();
                    Directive { reply: Vec::new(), action: Action::Close }
                },
                Ok(Progress::Need(more)) => {
                    self.wanted = more;
                    Directive { reply: Vec::new(), action: Action::Read(more) }
                },
                Ok(Progress::Done(auth_request)) => {
                    let auth_response = self.handle_auth(&auth_request);
                    let action = match auth_response.choosed_method {
                        AuthMethod::NoAuth => Action::Read(4),
                        _ => Action::Close,
                    };
                    Directive { reply: auth_response.to_bytes(), action }
                },
            }
        } else {
            match Session::read_connection_require(self.raw_bytes.as_slice()) {
                Err(_) => {
                    self.close();
                    Directive { reply: Vec::new(), action: Action::Close }
                },
                Ok(Progress::Need(more)) => {
                    self.wanted = more;
                    Directive { reply: Vec::new(), action: Action::Read(more) }
                },
                Ok(Progress::Done(connect_request)) => self.handle_connection(connect_request),
            }
        }
    }

    /// Answers an event with the next directive. A session that is over
    /// stays as it is and says so. A deadline that passed and a failed
    /// client stream end the session. Each other event is taken in the phase
    /// that awaits it, and ends the session in any other.
    pub fn step(&mut self, event: Event) -> (directive: Directive)
        ensures
            (final(self)@, directive@) == old(self)@.step(event),
            final(self)@.inv(),
    {
        proof {
            use_type_invariant(&*self);
        }
        if self.phase == Phase::Closed {
            return Directive { reply: Vec::new(), action: Action::Close };
        }
        match event {
            Event::TimedOut => {
                *self = Session {
                    client_addr: self.client_addr,
                    session_state: SessionState::SocksTimeout,
                    phase: Phase::Closed,
                    raw_bytes: Vec::new(),
                    wanted: 0,
                    request: None,
                    target: None,
                    proxy_server_socket: None,
                };
                Directive { reply: Vec::new(), action: Action::Close }
            },
            Event::Received(chunk) => {
                if self.phase == Phase::Negotiating || self.phase == Phase::Requesting {
                    self.handle_bytes(chunk.as_slice())
                } else {
                    self.close();
                    Directive { reply: Vec::new(), action: Action::Close }
                }
            },
            Event::Resolved(addrs) => {
                if self.phase == Phase::Resolving {
                    self.handle_resolution(addrs.as_slice())
                } else {
                    self.close();
                    Directive { reply: Vec::new(), action: Action::Close }
                }
            },
            Event::Connected => {
                if self.phase == Phase::Connecting {
                    self.handle_outcome(true)
                } else {
                    self.close();
                    Directive { reply: Vec::new(), action: Action::Close }
                }
            },
            Event::ConnectFailed => {
                if self.phase == Phase::Connecting || self.phase == Phase::Resolving {
                    self.handle_outcome(false)
                } else {
                    self.close();
                    Directive { reply: Vec::new(), action: Action::Close }
                }
            },
            _ => {
                self.close();
                Directive { reply: Vec::new(), action: Action::Close }
            },
        }
    }
}

} // verus!
