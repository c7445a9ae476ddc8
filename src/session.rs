//! One client session as a state machine: each event that the connection
//! delivers moves the session on and names the one thing to do next.

use vstd::prelude::*;
use vstd::utf8::encode_utf8;
use crate::auth::{authorized, ProxyCredentials};
use crate::connect::{connect_target, parse_connect_line, ConnectTarget};
use crate::request::{first_line, is_complete, read_first_line, request_complete};

verus! {

/// The fixed replies a client can receive; none has a body.
#[derive(Clone, Copy, Debug, PartialEq, Eq, Structural)]
pub enum Response {
    /// `200 Connection Established`: the tunnel is open.
    Established,
    /// `400 Bad Request`: the request line is malformed.
    BadRequest,
    /// `407 Proxy Authentication Required`: credentials are missing or wrong.
    AuthRequired,
    /// `502 Bad Gateway`: the target could not be reached.
    BadGateway,
}

impl Response {
    /// The reply as text.
    pub open spec fn text(self) -> Seq<char> {
        match self {
            Response::Established => "HTTP/1.1 200 Connection Established\r\n\r\n"@,
            Response::BadRequest => "HTTP/1.1 400 Bad Request\r\n\r\n"@,
            Response::AuthRequired =>
                "HTTP/1.1 407 Proxy Authentication Required\r\nProxy-Authenticate: Basic realm=\"Proxy\"\r\n\r\n"@,
            Response::BadGateway => "HTTP/1.1 502 Bad Gateway\r\n\r\n"@,
        }
    }

    /// The reply as it goes on the wire.
    pub fn to_bytes(&self) -> (r: Vec<u8>)
        ensures
            r@ == encode_utf8(self.text()),
    {
        match self {
            Response::Established => "HTTP/1.1 200 Connection Established\r\n\r\n".as_bytes_vec(),
            Response::BadRequest => "HTTP/1.1 400 Bad Request\r\n\r\n".as_bytes_vec(),
            Response::AuthRequired =>
                "HTTP/1.1 407 Proxy Authentication Required\r\nProxy-Authenticate: Basic realm=\"Proxy\"\r\n\r\n".as_bytes_vec(),
            Response::BadGateway => "HTTP/1.1 502 Bad Gateway\r\n\r\n".as_bytes_vec(),
        }
    }
}

/// What a complete request asks for.
pub enum Verdict {
    AuthRequired,
    BadRequest,
    Connect(ConnectTarget),
}

pub enum VerdictView {
    AuthRequired,
    BadRequest,
    Connect(Seq<u8>, Seq<u8>),
}

impl View for Verdict {
    type V = VerdictView;

    open spec fn view(&self) -> VerdictView {
        match self {
            Verdict::AuthRequired => VerdictView::AuthRequired,
            Verdict::BadRequest => VerdictView::BadRequest,
            Verdict::Connect(t) => VerdictView::Connect(t.host@, t.port@),
        }
    }
}

/// A malformed request line is refused whatever the credentials; a
/// well-formed one is honoured only with valid credentials.
pub open spec fn verdict_of(req: Seq<u8>, user: Seq<u8>, pass: Seq<u8>) -> VerdictView {
    match connect_target(first_line(req)) {
        None => VerdictView::BadRequest,
        Some((h, p)) => if authorized(req, user, pass) {
            VerdictView::Connect(h, p)
        } else {
            VerdictView::AuthRequired
        },
    }
}

/// What the complete request `req` asks for.
pub fn evaluate(req: &[u8], creds: &ProxyCredentials) -> (r: Verdict)
    ensures
        r@ == verdict_of(req@, creds.user_bytes(), creds.pass_bytes()),
{
    let line = read_first_line(req);
    match parse_connect_line(&line) {
        None => Verdict::BadRequest,
        Some(t) => if creds.authenticates(req) {
            Verdict::Connect(t)
        } else {
            Verdict::AuthRequired
        },
    }
}

/// Where a session stands.
#[derive(Clone, Copy, Debug, PartialEq, Eq, Structural)]
pub enum Phase {
    /// The TLS handshake is under way.
    Handshaking,
    /// Request bytes are being gathered.
    AwaitingRequest,
    /// The target is being connected to.
    Dialing,
    /// Bytes are relayed both ways.
    Tunneling,
    /// The session is over; nothing more is done.
    Closed,
}

/// What the connection reports to a session.
pub enum Event {
    /// The TLS handshake succeeded.
    HandshakeDone,
    /// The TLS handshake failed.
    HandshakeFailed,
    /// A read returned these bytes; none means the client closed.
    Received(Vec<u8>),
    /// A read or write on the client failed.
    ClientFailed,
    /// The connection to the target was opened.
    Connected,
    /// The target could not be resolved or reached.
    ConnectFailed,
    /// One direction of the relay reached its end or failed.
    RelayEnded,
}

pub enum EventView {
    HandshakeDone,
    HandshakeFailed,
    Received(Seq<u8>),
    ClientFailed,
    Connected,
    ConnectFailed,
    RelayEnded,
}

impl View for Event {
    type V = EventView;

    open spec fn view(&self) -> EventView {
        match self {
            Event::HandshakeDone => EventView::HandshakeDone,
            Event::HandshakeFailed => EventView::HandshakeFailed,
            Event::Received(b) => EventView::Received(b@),
            Event::ClientFailed => EventView::ClientFailed,
            Event::Connected => EventView::Connected,
            Event::ConnectFailed => EventView::ConnectFailed,
            Event::RelayEnded => EventView::RelayEnded,
        }
    }
}

/// The one thing a session asks its driver to do next.
#[derive(Clone, Copy, Debug, PartialEq, Eq, Structural)]
pub enum Action {
    /// Read more from the client.
    ReadMore,
    /// Connect to the session's target.
    Dial,
    /// Write this reply to the client, then close the connection.
    Reply(Response),
    /// Write the `200` reply, then relay bytes both ways until either side ends.
    Establish,
    /// Close every connection of the session without a reply.
    Close,
}

/// A client session: its phase, the request bytes gathered so far, and the
/// target once one is known.
pub struct Session {
    phase: Phase,
    request: Vec<u8>,
    target: Option<ConnectTarget>,
}

pub struct SessionView {
    pub phase: Phase,
    pub request: Seq<u8>,
    pub target: Option<(Seq<u8>, Seq<u8>)>,
}

impl View for Session {
    type V = SessionView;

    closed spec fn view(&self) -> SessionView {
        SessionView {
            phase: self.phase,
            request: self.request@,
            target: match self.target {
                Some(t) => Some(t@),
                None => None,
            },
        }
    }
}

/// A session that has just been accepted.
pub open spec fn initial() -> SessionView {
    SessionView { phase: Phase::Handshaking, request: seq![], target: None }
}

/// A target is known exactly while the session dials or tunnels, and
/// request bytes are held only while they are being gathered.
pub open spec fn session_wf(s: SessionView) -> bool {
    &&& (s.target is Some <==> (s.phase == Phase::Dialing || s.phase == Phase::Tunneling))
    &&& (s.phase != Phase::AwaitingRequest ==> s.request.len() == 0)
}

/// A session that is over.
pub open spec fn closed() -> SessionView {
    SessionView { phase: Phase::Closed, request: seq![], target: None }
}

/// The request bytes once `chunk` is added.
pub open spec fn after_request_bytes(
    s: SessionView,
    user: Seq<u8>,
    pass: Seq<u8>,
    chunk: Seq<u8>,
) -> (SessionView, Action) {
    let buf = s.request + chunk;
    if chunk.len() == 0 {
        (closed(), Action::Close)
    } else if !is_complete(buf) {
        (SessionView { request: buf, ..s }, Action::ReadMore)
    } else {
        match verdict_of(buf, user, pass) {
            VerdictView::AuthRequired => (closed(), Action::Reply(Response::AuthRequired)),
            VerdictView::BadRequest => (closed(), Action::Reply(Response::BadRequest)),
            VerdictView::Connect(h, p) => (
                SessionView { phase: Phase::Dialing, request: seq![], target: Some((h, p)) },
                Action::Dial,
            ),
        }
    }
}

/// The next state and action of session `s` on event `e`, with the
/// configured credentials `user` and `pass`. An event that does not fit
/// the phase ends the session.
pub open spec fn step(s: SessionView, user: Seq<u8>, pass: Seq<u8>, e: EventView) -> (SessionView, Action) {
    match s.phase {
        Phase::Handshaking => match e {
            EventView::HandshakeDone => (SessionView { phase: Phase::AwaitingRequest, ..s }, Action::ReadMore),
            _ => (closed(), Action::Close),
        },
        Phase::AwaitingRequest => match e {
            EventView::Received(chunk) => after_request_bytes(s, user, pass, chunk),
            _ => (closed(), Action::Close),
        },
        Phase::Dialing => match e {
            EventView::Connected => (SessionView { phase: Phase::Tunneling, ..s }, Action::Establish),
            EventView::ConnectFailed => (closed(), Action::Reply(Response::BadGateway)),
            _ => (closed(), Action::Close),
        },
        Phase::Tunneling => (closed(), Action::Close),
        Phase::Closed => (closed(), Action::Close),
    }
}

impl Session {
    pub fn new() -> (r: Session)
        ensures
            r@ == initial(),
    {
        Session { phase: Phase::Handshaking, request: Vec::new(), target: None }
    }

    pub fn phase(&self) -> (r: Phase)
        ensures
            r == self@.phase,
    {
        self.phase
    }

    /// The target to connect to, once the request has named one.
    pub fn target(&self) -> (r: &Option<ConnectTarget>)
        ensures
            self@.target == match r {
                Some(t) => Some(t@),
                None => None::<(Seq<u8>, Seq<u8>)>,
            },
    {
        &self.target
    }

    fn close(&mut self)
        ensures
            final(self)@ == closed(),
    {
        self.phase = Phase::Closed;
        self.request = Vec::new();
        self.target = None;
    }

    fn take_request_bytes(&mut self, creds: &ProxyCredentials, chunk: Vec<u8>) -> (a: Action)
        requires
            old(self).phase == Phase::AwaitingRequest,
        ensures
            (final(self)@, a) == after_request_bytes(old(self)@, creds.user_bytes(), creds.pass_bytes(), chunk@),
    {
        if chunk.len() == 0 {
            self.close();
            return Action::Close;
        }
        let mut chunk = chunk;
        self.request.append(&mut chunk);
        if !request_complete(&self.request) {
            return Action::ReadMore;
        }
        let verdict = evaluate(&self.request, creds);
        match verdict {
            Verdict::AuthRequired => {
                self.close();
                Action::Reply(Response::AuthRequired)
            },
            Verdict::BadRequest => {
                self.close();
                Action::Reply(Response::BadRequest)
            },
            Verdict::Connect(t) => {
                self.phase = Phase::Dialing;
                self.request = Vec::new();
                self.target = Some(t);
                Action::Dial
            },
        }
    }

    /// Moves the session on by one event and says what to do next.
    pub fn handle(&mut self, creds: &ProxyCredentials, event: Event) -> (a: Action)
        ensures
            (final(self)@, a) == step(old(self)@, creds.user_bytes(), creds.pass_bytes(), event@),
    {
        match self.phase {
            Phase::Handshaking => match event {
                Event::HandshakeDone => {
                    self.phase = Phase::AwaitingRequest;
                    Action::ReadMore
                },
                _ => {
                    self.close();
                    Action::Close
                },
            },
            Phase::AwaitingRequest => match event {
                Event::Received(chunk) => self.take_request_bytes(creds, chunk),
                _ => {
                    self.close();
                    Action::Close
                },
            },
            Phase::Dialing => match event {
                Event::Connected => {
                    self.phase = Phase::Tunneling;
                    Action::Establish
                },
                Event::ConnectFailed => {
                    self.close();
                    Action::Reply(Response::BadGateway)
                },
                _ => {
                    self.close();
                    Action::Close
                },
            },
            _ => {
                self.close();
                Action::Close
            },
        }
    }
}

} // verus!
