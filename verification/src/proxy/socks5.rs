//! The SOCKS5 handshake with remote name resolution (RFC 1928), with
//! username/password authentication (RFC 1929), as a state machine: the
//! driver performs the writes and reads it asks for.

use vstd::prelude::*;
use vstd::utf8::encode_utf8;
use crate::proxy::config::ProxyConfig;
use crate::proxy::error::{HandshakeError, Socks5Stage};
use crate::proxy::tunnel::{action_is, Step, TunnelAction, TunnelEvent};

verus! {

/// A length as the one-byte length field carries it (the low eight bits).
pub open spec fn length_byte(n: nat) -> u8 {
    (n % 256) as u8
}

/// The greeting: version 5 and the offered methods, no-auth alone or no-auth
/// and username/password.
pub open spec fn greeting_frame(with_auth: bool) -> Seq<u8> {
    if with_auth {
        seq![5u8, 2u8, 0u8, 2u8]
    } else {
        seq![5u8, 1u8, 0u8]
    }
}

/// The username/password request: version 1, then each field behind its
/// length byte.
pub open spec fn auth_frame(user: Seq<u8>, pass: Seq<u8>) -> Seq<u8> {
    seq![1u8, length_byte(user.len())] + user + seq![length_byte(pass.len())] + pass
}

/// The CONNECT request naming the target by domain name (address type 3),
/// so that the proxy resolves it, with the port in network byte order.
pub open spec fn connect_frame(host: Seq<u8>, port: u16) -> Seq<u8> {
    seq![5u8, 1u8, 0u8, 3u8, length_byte(host.len())] + host + seq![
        (port / 256) as u8,
        (port % 256) as u8,
    ]
}

/// The UTF-8 bytes of an optional text, empty when absent.
pub open spec fn optional_bytes(t: Option<String>) -> Seq<u8> {
    match t {
        Some(s) => encode_utf8(s@),
        None => Seq::empty(),
    }
}

/// Where the handshake stands.
#[derive(Clone, Copy, Debug, PartialEq, Eq, Structural)]
pub enum Socks5Phase {
    /// The greeting is being written.
    SendGreeting,
    /// Waiting for the method reply.
    AwaitMethod,
    /// The username/password request is being written.
    SendAuth,
    /// Waiting for the authentication reply.
    AwaitAuthReply,
    /// The CONNECT request is being written.
    SendConnect,
    /// Waiting for the first four bytes of the CONNECT reply.
    AwaitReplyHead,
    /// Waiting for the length of a bound domain name.
    AwaitBoundLength,
    /// Skipping this many bytes of bound address and port.
    AwaitBound(usize),
    /// The tunnel is open.
    Done,
    /// The handshake failed.
    Failed,
}

/// The ghost form of a handshake in progress.
pub struct Socks5View {
    pub phase: Socks5Phase,
    pub with_auth: bool,
    pub user: Seq<u8>,
    pub pass: Seq<u8>,
    pub host: Seq<u8>,
    pub port: u16,
}

impl Socks5View {
    /// The events the handshake can take in this phase: write outcomes while
    /// writing, and reads of exactly the asked length (or a read failure)
    /// while reading.
    pub open spec fn accepts(self, e: TunnelEvent) -> bool {
        let want: int = match self.phase {
            Socks5Phase::AwaitMethod => 2,
            Socks5Phase::AwaitAuthReply => 2,
            Socks5Phase::AwaitReplyHead => 4,
            Socks5Phase::AwaitBoundLength => 1,
            Socks5Phase::AwaitBound(n) => n as int,
            _ => -1,
        };
        match self.phase {
            Socks5Phase::SendGreeting | Socks5Phase::SendAuth | Socks5Phase::SendConnect => {
                e is Sent || e is SendFailed
            },
            Socks5Phase::Done | Socks5Phase::Failed => false,
            _ => match e {
                TunnelEvent::Received(d) => d@.len() == want,
                TunnelEvent::ReceiveFailed(_) => true,
                _ => false,
            },
        }
    }

    /// The phase and step that follow an event the handshake accepts.
    pub open spec fn next(self, e: TunnelEvent) -> (Socks5Phase, Step) {
        match self.phase {
            Socks5Phase::SendGreeting => match e {
                TunnelEvent::SendFailed(d) => (
                    Socks5Phase::Failed,
                    Step::Fail(HandshakeError::Socks5WriteFailed(Socks5Stage::Greeting, d)),
                ),
                _ => (Socks5Phase::AwaitMethod, Step::ReceiveExact(2)),
            },
            Socks5Phase::AwaitMethod => match e {
                TunnelEvent::Received(r) => if r@[0] != 5 {
                    (Socks5Phase::Failed, Step::Fail(HandshakeError::Socks5InvalidVersion(r@[0])))
                } else if r@[1] == 0 {
                    (Socks5Phase::SendConnect, Step::Send(connect_frame(self.host, self.port)))
                } else if r@[1] == 2 {
                    (Socks5Phase::SendAuth, Step::Send(auth_frame(self.user, self.pass)))
                } else if r@[1] == 255 {
                    (Socks5Phase::Failed, Step::Fail(HandshakeError::Socks5NoAcceptableMethod))
                } else {
                    (
                        Socks5Phase::Failed,
                        Step::Fail(HandshakeError::Socks5UnsupportedMethod(r@[1])),
                    )
                },
                TunnelEvent::ReceiveFailed(d) => (
                    Socks5Phase::Failed,
                    Step::Fail(HandshakeError::Socks5ReadFailed(Socks5Stage::Greeting, d)),
                ),
                _ => (Socks5Phase::Failed, Step::Done),
            },
            Socks5Phase::SendAuth => match e {
                TunnelEvent::SendFailed(d) => (
                    Socks5Phase::Failed,
                    Step::Fail(HandshakeError::Socks5WriteFailed(Socks5Stage::Auth, d)),
                ),
                _ => (Socks5Phase::AwaitAuthReply, Step::ReceiveExact(2)),
            },
            Socks5Phase::AwaitAuthReply => match e {
                TunnelEvent::Received(r) => if r@[1] != 0 {
                    (Socks5Phase::Failed, Step::Fail(HandshakeError::Socks5AuthFailed))
                } else {
                    (Socks5Phase::SendConnect, Step::Send(connect_frame(self.host, self.port)))
                },
                TunnelEvent::ReceiveFailed(d) => (
                    Socks5Phase::Failed,
                    Step::Fail(HandshakeError::Socks5ReadFailed(Socks5Stage::Auth, d)),
                ),
                _ => (Socks5Phase::Failed, Step::Done),
            },
            Socks5Phase::SendConnect => match e {
                TunnelEvent::SendFailed(d) => (
                    Socks5Phase::Failed,
                    Step::Fail(HandshakeError::Socks5WriteFailed(Socks5Stage::Connect, d)),
                ),
                _ => (Socks5Phase::AwaitReplyHead, Step::ReceiveExact(4)),
            },
            Socks5Phase::AwaitReplyHead => match e {
                TunnelEvent::Received(h) => if h@[0] != 5 {
                    (
                        Socks5Phase::Failed,
                        Step::Fail(HandshakeError::Socks5InvalidReplyVersion(h@[0])),
                    )
                } else if h@[1] != 0 {
                    (Socks5Phase::Failed, Step::Fail(HandshakeError::Socks5ConnectRefused(h@[1])))
                } else if h@[3] == 1 {
                    (Socks5Phase::AwaitBound(6), Step::ReceiveExact(6))
                } else if h@[3] == 3 {
                    (Socks5Phase::AwaitBoundLength, Step::ReceiveExact(1))
                } else if h@[3] == 4 {
                    (Socks5Phase::AwaitBound(18), Step::ReceiveExact(18))
                } else {
                    (Socks5Phase::Done, Step::Done)
                },
                TunnelEvent::ReceiveFailed(d) => (
                    Socks5Phase::Failed,
                    Step::Fail(HandshakeError::Socks5ReadFailed(Socks5Stage::Connect, d)),
                ),
                _ => (Socks5Phase::Failed, Step::Done),
            },
            Socks5Phase::AwaitBoundLength => match e {
                TunnelEvent::Received(l) => (
                    Socks5Phase::AwaitBound((l@[0] + 2) as usize),
                    Step::ReceiveExact((l@[0] + 2) as nat),
                ),
                _ => (Socks5Phase::AwaitBound(2), Step::ReceiveExact(2)),
            },
            Socks5Phase::AwaitBound(_) => (Socks5Phase::Done, Step::Done),
            _ => (self.phase, Step::Done),
        }
    }
}

/// A SOCKS5 handshake in progress.
pub struct Socks5Handshake {
    phase: Socks5Phase,
    with_auth: bool,
    user: Vec<u8>,
    pass: Vec<u8>,
    host: Vec<u8>,
    port: u16,
}

impl View for Socks5Handshake {
    type V = Socks5View;

    closed spec fn view(&self) -> Socks5View {
        Socks5View {
            phase: self.phase,
            with_auth: self.with_auth,
            user: self.user@,
            pass: self.pass@,
            host: self.host@,
            port: self.port,
        }
    }
}

pub(crate) fn append_bytes(out: &mut Vec<u8>, bytes: &[u8])
    ensures
        final(out)@ == old(out)@ + bytes@,
{
    let n = bytes.len();
    let mut i: usize = 0;
    while i < n
        invariant
            n == bytes@.len(),
            0 <= i <= n,
            out@ == old(out)@ + bytes@.subrange(0, i as int),
        decreases n - i,
    {
        out.push(bytes[i]);
        proof {
            assert(bytes@.subrange(0, i + 1) =~= bytes@.subrange(0, i as int).push(bytes@[i as int]));
        }
        i = i + 1;
    }
    proof {
        assert(bytes@.subrange(0, n as int) =~= bytes@);
    }
}

pub(crate) fn copy_bytes(bytes: &[u8]) -> (v: Vec<u8>)
    ensures
        v@ == bytes@,
{
    let mut v: Vec<u8> = Vec::new();
    append_bytes(&mut v, bytes);
    proof {
        assert(Seq::<u8>::empty() + bytes@ =~= bytes@);
    }
    v
}

fn text_bytes(t: &Option<String>) -> (v: Vec<u8>)
    ensures
        v@ == optional_bytes(*t),
{
    match t {
        Some(s) => copy_bytes(s.as_str().as_bytes()),
        None => Vec::new(),
    }
}

/// The greeting, offering username/password as well when `with_auth`.
pub fn greeting(with_auth: bool) -> (frame: Vec<u8>)
    ensures
        frame@ == greeting_frame(with_auth),
{
    if with_auth {
        let v = vec![5u8, 2u8, 0u8, 2u8];
        assert(v@ =~= greeting_frame(with_auth));
        v
    } else {
        let v = vec![5u8, 1u8, 0u8];
        assert(v@ =~= greeting_frame(with_auth));
        v
    }
}

/// The username/password request for these credentials.
pub fn auth_request(user: &[u8], pass: &[u8]) -> (frame: Vec<u8>)
    ensures
        frame@ == auth_frame(user@, pass@),
{
    let mut v: Vec<u8> = Vec::new();
    v.push(1u8);
    v.push((user.len() % 256) as u8);
    append_bytes(&mut v, user);
    v.push((pass.len() % 256) as u8);
    append_bytes(&mut v, pass);
    assert(v@ =~= auth_frame(user@, pass@));
    v
}

/// The CONNECT request for the target, by domain name.
pub fn connect_request(host: &[u8], port: u16) -> (frame: Vec<u8>)
    ensures
        frame@ == connect_frame(host@, port),
{
    let mut v: Vec<u8> = Vec::new();
    v.push(5u8);
    v.push(1u8);
    v.push(0u8);
    v.push(3u8);
    v.push((host.len() % 256) as u8);
    append_bytes(&mut v, host);
    v.push((port / 256) as u8);
    v.push((port % 256) as u8);
    assert(v@ =~= connect_frame(host@, port));
    v
}

impl Socks5Handshake {
    /// Starts a handshake through `proxy` to `target_host:target_port`: the
    /// first step writes the greeting, which offers username/password when
    /// the proxy has a username.
    pub fn start(proxy: &ProxyConfig, target_host: &str, target_port: u16) -> (r: (
        Socks5Handshake,
        TunnelAction,
    ))
        ensures
            r.0@ == (Socks5View {
                phase: Socks5Phase::SendGreeting,
                with_auth: proxy.username is Some,
                user: optional_bytes(proxy.username),
                pass: optional_bytes(proxy.password),
                host: encode_utf8(target_host@),
                port: target_port,
            }),
            action_is(r.1, Step::Send(greeting_frame(proxy.username is Some))),
    {
        let with_auth = proxy.username.is_some();
        let hs = Socks5Handshake {
            phase: Socks5Phase::SendGreeting,
            with_auth,
            user: text_bytes(&proxy.username),
            pass: text_bytes(&proxy.password),
            host: copy_bytes(target_host.as_bytes()),
            port: target_port,
        };
        (hs, TunnelAction::Send(greeting(with_auth)))
    }

    /// The phase the handshake is in.
    pub fn phase(&self) -> (p: Socks5Phase)
        ensures
            p == self@.phase,
    {
        self.phase
    }

    /// Whether the handshake takes this event now.
    pub fn accepts(&self, event: &TunnelEvent) -> (b: bool)
        ensures
            b == self@.accepts(*event),
    {
        let want: usize = match self.phase {
            Socks5Phase::AwaitMethod => 2,
            Socks5Phase::AwaitAuthReply => 2,
            Socks5Phase::AwaitReplyHead => 4,
            Socks5Phase::AwaitBoundLength => 1,
            Socks5Phase::AwaitBound(n) => n,
            _ => 0,
        };
        match self.phase {
            Socks5Phase::SendGreeting | Socks5Phase::SendAuth | Socks5Phase::SendConnect => {
                match event {
                    TunnelEvent::Sent => true,
                    TunnelEvent::SendFailed(_) => true,
                    _ => false,
                }
            },
            Socks5Phase::Done | Socks5Phase::Failed => false,
            _ => match event {
                TunnelEvent::Received(d) => d.len() == want,
                TunnelEvent::ReceiveFailed(_) => true,
                _ => false,
            },
        }
    }

    /// Takes the outcome of the last step and gives the next one.
    pub fn step(&mut self, event: TunnelEvent) -> (action: TunnelAction)
        requires
            old(self)@.accepts(event),
        ensures
            final(self)@ == (Socks5View { phase: old(self)@.next(event).0, ..old(self)@ }),
            action_is(action, old(self)@.next(event).1),
    {
        match self.phase {
            Socks5Phase::SendGreeting => match event {
                TunnelEvent::SendFailed(d) => {
                    self.phase = Socks5Phase::Failed;
                    TunnelAction::Fail(HandshakeError::Socks5WriteFailed(Socks5Stage::Greeting, d))
                },
                _ => {
                    self.phase = Socks5Phase::AwaitMethod;
                    TunnelAction::ReceiveExact(2)
                },
            },
            Socks5Phase::AwaitMethod => match event {
                TunnelEvent::Received(r) => {
                    if r[0] != 5 {
                        self.phase = Socks5Phase::Failed;
                        TunnelAction::Fail(HandshakeError::Socks5InvalidVersion(r[0]))
                    } else if r[1] == 0 {
                        self.phase = Socks5Phase::SendConnect;
                        TunnelAction::Send(connect_request(self.host.as_slice(), self.port))
                    } else if r[1] == 2 {
                        self.phase = Socks5Phase::SendAuth;
                        TunnelAction::Send(auth_request(self.user.as_slice(), self.pass.as_slice()))
                    } else if r[1] == 255 {
                        self.phase = Socks5Phase::Failed;
                        TunnelAction::Fail(HandshakeError::Socks5NoAcceptableMethod)
                    } else {
                        self.phase = Socks5Phase::Failed;
                        TunnelAction::Fail(HandshakeError::Socks5UnsupportedMethod(r[1]))
                    }
                },
                TunnelEvent::ReceiveFailed(d) => {
                    self.phase = Socks5Phase::Failed;
                    TunnelAction::Fail(HandshakeError::Socks5ReadFailed(Socks5Stage::Greeting, d))
                },
                _ => {
                    self.phase = Socks5Phase::Failed;
                    TunnelAction::Done
                },
            },
            Socks5Phase::SendAuth => match event {
                TunnelEvent::SendFailed(d) => {
                    self.phase = Socks5Phase::Failed;
                    TunnelAction::Fail(HandshakeError::Socks5WriteFailed(Socks5Stage::Auth, d))
                },
                _ => {
                    self.phase = Socks5Phase::AwaitAuthReply;
                    TunnelAction::ReceiveExact(2)
                },
            },
            Socks5Phase::AwaitAuthReply => match event {
                TunnelEvent::Received(r) => {
                    if r[1] != 0 {
                        self.phase = Socks5Phase::Failed;
                        TunnelAction::Fail(HandshakeError::Socks5AuthFailed)
                    } else {
                        self.phase = Socks5Phase::SendConnect;
                        TunnelAction::Send(connect_request(self.host.as_slice(), self.port))
                    }
                },
                TunnelEvent::ReceiveFailed(d) => {
                    self.phase = Socks5Phase::Failed;
                    TunnelAction::Fail(HandshakeError::Socks5ReadFailed(Socks5Stage::Auth, d))
                },
                _ => {
                    self.phase = Socks5Phase::Failed;
                    TunnelAction::Done
                },
            },
            Socks5Phase::SendConnect => match event {
                TunnelEvent::SendFailed(d) => {
                    self.phase = Socks5Phase::Failed;
                    TunnelAction::Fail(HandshakeError::Socks5WriteFailed(Socks5Stage::Connect, d))
                },
                _ => {
                    self.phase = Socks5Phase::AwaitReplyHead;
                    TunnelAction::ReceiveExact(4)
                },
            },
            Socks5Phase::AwaitReplyHead => match event {
                TunnelEvent::Received(h) => {
                    if h[0] != 5 {
                        self.phase = Socks5Phase::Failed;
                        TunnelAction::Fail(HandshakeError::Socks5InvalidReplyVersion(h[0]))
                    } else if h[1] != 0 {
                        self.phase = Socks5Phase::Failed;
                        TunnelAction::Fail(HandshakeError::Socks5ConnectRefused(h[1]))
                    } else if h[3] == 1 {
                        self.phase = Socks5Phase::AwaitBound(6);
                        TunnelAction::ReceiveExact(6)
                    } else if h[3] == 3 {
                        self.phase = Socks5Phase::AwaitBoundLength;
                        TunnelAction::ReceiveExact(1)
                    } else if h[3] == 4 {
                        self.phase = Socks5Phase::AwaitBound(18);
                        TunnelAction::ReceiveExact(18)
                    } else {
                        self.phase = Socks5Phase::Done;
                        TunnelAction::Done
                    }
                },
                TunnelEvent::ReceiveFailed(d) => {
                    self.phase = Socks5Phase::Failed;
                    TunnelAction::Fail(HandshakeError::Socks5ReadFailed(Socks5Stage::Connect, d))
                },
                _ => {
                    self.phase = Socks5Phase::Failed;
                    TunnelAction::Done
                },
            },
            Socks5Phase::AwaitBoundLength => match event {
                TunnelEvent::Received(l) => {
                    let n = l[0] as usize + 2;
                    self.phase = Socks5Phase::AwaitBound(n);
                    TunnelAction::ReceiveExact(n)
                },
                _ => {
                    self.phase = Socks5Phase::AwaitBound(2);
                    TunnelAction::ReceiveExact(2)
                },
            },
            Socks5Phase::AwaitBound(_) => {
                self.phase = Socks5Phase::Done;
                TunnelAction::Done
            },
            _ => TunnelAction::Done,
        }
    }
}

} // verus!

verus! {

/// The CONNECT request names the target by domain name (address type 3),
/// carries the name verbatim behind its length, and the port can be read
/// back from its last two bytes (for names shorter than 256 bytes, as
/// domain names are).
pub proof fn law_connect_frame_layout(host: Seq<u8>, port: u16)
    requires
        host.len() < 256,
    ensures
        connect_frame(host, port).len() == host.len() + 7,
        connect_frame(host, port)[0] == 5,
        connect_frame(host, port)[1] == 1,
        connect_frame(host, port)[3] == 3,
        connect_frame(host, port)[4] == host.len(),
        connect_frame(host, port).subrange(5, 5 + host.len() as int) == host,
        connect_frame(host, port)[5 + host.len() as int] * 256 + connect_frame(host, port)[6 + host.len() as int]
            == port,
{
    let f = connect_frame(host, port);
    assert(f.subrange(5, 5 + host.len() as int) =~= host);
}

/// The username/password request carries both fields verbatim, each behind
/// its length (for fields shorter than 256 bytes, as RFC 1929 requires).
pub proof fn law_auth_frame_layout(user: Seq<u8>, pass: Seq<u8>)
    requires
        user.len() < 256,
        pass.len() < 256,
    ensures
        auth_frame(user, pass).len() == user.len() + pass.len() + 3,
        auth_frame(user, pass)[0] == 1,
        auth_frame(user, pass)[1] == user.len(),
        auth_frame(user, pass).subrange(2, 2 + user.len() as int) == user,
        auth_frame(user, pass)[2 + user.len() as int] == pass.len(),
        auth_frame(user, pass).subrange(3 + user.len() as int, 3 + user.len() as int + pass.len() as int) == pass,
{
    let f = auth_frame(user, pass);
    assert(f.subrange(2, 2 + user.len() as int) =~= user);
    assert(f.subrange(3 + user.len() as int, 3 + user.len() as int + pass.len() as int) =~= pass);
}

/// The handshake reaches the tunnel (or the skipping of the bound address
/// that precedes it) only from a CONNECT reply of version 5 with reply code
/// 0 (succeeded), or while skipping that address.
pub proof fn law_success_only_after_grant(v: Socks5View, e: TunnelEvent)
    requires
        v.accepts(e),
        v.next(e).0 == Socks5Phase::Done || v.next(e).0 == Socks5Phase::AwaitBoundLength
            || v.next(e).0 is AwaitBound,
    ensures
        v.phase is AwaitBound || v.phase == Socks5Phase::AwaitBoundLength || (v.phase
            == Socks5Phase::AwaitReplyHead && (e matches TunnelEvent::Received(h) && h@[0] == 5
            && h@[1] == 0)),
{
}

/// Credentials are sent only after the proxy chose username/password
/// authentication in a version 5 method reply.
pub proof fn law_auth_only_when_chosen(v: Socks5View, e: TunnelEvent)
    requires
        v.accepts(e),
        v.next(e).0 == Socks5Phase::SendAuth,
    ensures
        v.phase == Socks5Phase::AwaitMethod,
        e matches TunnelEvent::Received(r) && r@[0] == 5 && r@[1] == 2,
{
}

/// A failure ends the handshake: its phase becomes `Failed`, and a failed
/// handshake takes no further event.
pub proof fn law_failure_is_final(v: Socks5View, e: TunnelEvent, later: TunnelEvent)
    requires
        v.accepts(e),
        v.next(e).1 is Fail,
    ensures
        v.next(e).0 == Socks5Phase::Failed,
        !(Socks5View { phase: v.next(e).0, ..v }).accepts(later),
{
}

/// When the proxy answers the greeting with "no authentication" (`[5, 0]`),
/// the CONNECT request for the target follows at once, whether or not
/// credentials were offered: the method reply is judged the same with and
/// without credentials, except that only a proxy asking for
/// username/password gets them.
pub proof fn law_no_auth_reply_goes_to_connect(v: Socks5View, r: Vec<u8>)
    requires
        v.phase == Socks5Phase::AwaitMethod,
        r@ == seq![5u8, 0u8],
    ensures
        v.next(TunnelEvent::Received(r)) == (
            Socks5Phase::SendConnect,
            Step::Send(connect_frame(v.host, v.port)),
        ),
        v.next(TunnelEvent::Received(r)) == (Socks5View { with_auth: !v.with_auth, ..v }).next(
            TunnelEvent::Received(r),
        ),
{
}

/// How the proxy's method reply is answered: a version other than 5 fails
/// with that version; "username/password" (2) gets the credentials; "no
/// acceptable method" (255) fails as such; any other method fails as
/// unsupported, naming it.
pub proof fn law_method_reply_outcomes(v: Socks5View, r: Vec<u8>)
    requires
        v.phase == Socks5Phase::AwaitMethod,
        r@.len() == 2,
    ensures
        r@[0] != 5 ==> v.next(TunnelEvent::Received(r)) == (
            Socks5Phase::Failed,
            Step::Fail(HandshakeError::Socks5InvalidVersion(r@[0])),
        ),
        r@[0] == 5 && r@[1] == 2 ==> v.next(TunnelEvent::Received(r)) == (
            Socks5Phase::SendAuth,
            Step::Send(auth_frame(v.user, v.pass)),
        ),
        r@[0] == 5 && r@[1] == 255 ==> v.next(TunnelEvent::Received(r)) == (
            Socks5Phase::Failed,
            Step::Fail(HandshakeError::Socks5NoAcceptableMethod),
        ),
        r@[0] == 5 && r@[1] != 0 && r@[1] != 2 && r@[1] != 255 ==> v.next(
            TunnelEvent::Received(r),
        ) == (Socks5Phase::Failed, Step::Fail(HandshakeError::Socks5UnsupportedMethod(r@[1]))),
{
}

/// The authentication reply is judged by its status byte alone: 0 goes on
/// to the CONNECT request, anything else fails the authentication.
pub proof fn law_auth_reply_outcomes(v: Socks5View, r: Vec<u8>)
    requires
        v.phase == Socks5Phase::AwaitAuthReply,
        r@.len() == 2,
    ensures
        v.next(TunnelEvent::Received(r)) == (if r@[1] == 0 {
            (Socks5Phase::SendConnect, Step::Send(connect_frame(v.host, v.port)))
        } else {
            (Socks5Phase::Failed, Step::Fail(HandshakeError::Socks5AuthFailed))
        }),
{
}

/// How the head of the CONNECT reply is answered: a version other than 5,
/// or a nonzero status, fails, naming it; on success the bound address is
/// skipped by its type: 6 bytes for IPv4, a length byte and then that many
/// bytes plus 2 for a domain name, 18 bytes for IPv6, nothing for another
/// type. The skipped bytes end the handshake whatever they hold.
pub proof fn law_connect_reply_outcomes(v: Socks5View, h: Vec<u8>, l: Vec<u8>, n: usize, b: Vec<u8>)
    requires
        h@.len() == 4,
        l@.len() == 1,
    ensures
        v.phase == Socks5Phase::AwaitReplyHead ==> v.next(TunnelEvent::Received(h)) == (if h@[0]
            != 5 {
            (Socks5Phase::Failed, Step::Fail(HandshakeError::Socks5InvalidReplyVersion(h@[0])))
        } else if h@[1] != 0 {
            (Socks5Phase::Failed, Step::Fail(HandshakeError::Socks5ConnectRefused(h@[1])))
        } else if h@[3] == 1 {
            (Socks5Phase::AwaitBound(6), Step::ReceiveExact(6))
        } else if h@[3] == 3 {
            (Socks5Phase::AwaitBoundLength, Step::ReceiveExact(1))
        } else if h@[3] == 4 {
            (Socks5Phase::AwaitBound(18), Step::ReceiveExact(18))
        } else {
            (Socks5Phase::Done, Step::Done)
        }),
        v.phase == Socks5Phase::AwaitBoundLength ==> v.next(TunnelEvent::Received(l)) == (
            Socks5Phase::AwaitBound((l@[0] + 2) as usize),
            Step::ReceiveExact((l@[0] + 2) as nat),
        ),
        v.phase == Socks5Phase::AwaitBound(n) ==> v.next(TunnelEvent::Received(b)) == (
            Socks5Phase::Done,
            Step::Done,
        ),
{
}

} // verus!
