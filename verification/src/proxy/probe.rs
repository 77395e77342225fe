//! The proxy reachability test: connect to the proxy, and for SOCKS5 check
//! that it answers a greeting, then report reachability and latency.

use vstd::prelude::*;
use crate::proxy::config::{ProxyTestResult, ProxyType};

verus! {

/// What happened to the last step of a probe.
#[derive(Debug)]
pub enum ProbeEvent {
    /// Resolving the proxy's address failed; holds the error's text.
    ResolveFailed(String),
    /// The proxy's name resolved to no address.
    NoAddress,
    /// Connecting failed after this many milliseconds; holds the error's text.
    ConnectFailed(String, u64),
    /// Connected after this many milliseconds.
    Connected(u64),
    /// The greeting was written.
    Sent,
    /// Writing the greeting failed.
    SendFailed,
    /// The reply was read, this many milliseconds after the start.
    Received(Vec<u8>, u64),
    /// Reading the reply failed.
    ReceiveFailed,
}

/// The next step of a probe.
#[derive(Debug)]
pub enum ProbeAction {
    /// Write these bytes.
    Send(Vec<u8>),
    /// Read exactly this many bytes.
    ReceiveExact(usize),
    /// The probe is over.
    Report(ProxyTestResult),
}

/// Where a probe stands.
#[derive(Clone, Copy, Debug, PartialEq, Eq, Structural)]
pub enum ProbePhase {
    /// Resolving and connecting.
    Connecting,
    /// Writing the SOCKS5 greeting.
    Greeting,
    /// Waiting for the SOCKS5 method reply.
    AwaitReply,
    /// Reported.
    Finished,
}

/// The ghost form of a probe.
pub struct ProbeView {
    pub proxy_type: ProxyType,
    pub phase: ProbePhase,
    pub latency_ms: u64,
}

/// The report has these fields.
pub open spec fn report_is(
    a: ProbeAction,
    reachable: bool,
    latency_ms: u64,
    error: Option<Seq<char>>,
) -> bool {
    &&& a matches ProbeAction::Report(r)
    &&& r.reachable == reachable
    &&& r.latency_ms == latency_ms
    &&& match (r.error, error) {
        (Some(t), Some(u)) => t@ == u,
        (None, None) => true,
        _ => false,
    }
}

/// The message of a SOCKS5 proxy that took the connection but not the greeting.
pub open spec fn greeting_failed_text() -> Seq<char> {
    "TCP OK but SOCKS5 handshake failed"@
}

impl ProbeView {
    /// The events a probe takes in its phase.
    pub open spec fn accepts(self, e: ProbeEvent) -> bool {
        match self.phase {
            ProbePhase::Connecting => e is ResolveFailed || e is NoAddress || e is ConnectFailed
                || e is Connected,
            ProbePhase::Greeting => e is Sent || e is SendFailed,
            ProbePhase::AwaitReply => match e {
                ProbeEvent::Received(r, _) => r@.len() == 2,
                ProbeEvent::ReceiveFailed => true,
                _ => false,
            },
            ProbePhase::Finished => false,
        }
    }

    /// The phase after an event, and what the step is.
    pub open spec fn step_ok(self, e: ProbeEvent, next: ProbeView, a: ProbeAction) -> bool {
        &&& next.proxy_type == self.proxy_type
        &&& match e {
            ProbeEvent::ResolveFailed(d) => next.phase == ProbePhase::Finished && report_is(
                a,
                false,
                0,
                Some("DNS: "@ + d@),
            ),
            ProbeEvent::NoAddress => next.phase == ProbePhase::Finished && report_is(
                a,
                false,
                0,
                Some("No address found"@),
            ),
            ProbeEvent::ConnectFailed(d, t) => next.phase == ProbePhase::Finished && report_is(
                a,
                false,
                t,
                Some(d@),
            ),
            ProbeEvent::Connected(t) => match self.proxy_type {
                ProxyType::Http => next.phase == ProbePhase::Finished && report_is(
                    a,
                    true,
                    t,
                    None,
                ),
                ProxyType::Socks5h => {
                    &&& next.phase == ProbePhase::Greeting
                    &&& next.latency_ms == t
                    &&& a matches ProbeAction::Send(b) && b@ == seq![5u8, 1u8, 0u8]
                },
            },
            ProbeEvent::Sent => {
                &&& next.phase == ProbePhase::AwaitReply
                &&& next.latency_ms == self.latency_ms
                &&& a matches ProbeAction::ReceiveExact(n) && n == 2
            },
            ProbeEvent::Received(r, t) => if r@[0] == 5 {
                next.phase == ProbePhase::Finished && report_is(a, true, t, None)
            } else {
                next.phase == ProbePhase::Finished && report_is(
                    a,
                    true,
                    self.latency_ms,
                    Some(greeting_failed_text()),
                )
            },
            _ => next.phase == ProbePhase::Finished && report_is(
                a,
                true,
                self.latency_ms,
                Some(greeting_failed_text()),
            ),
        }
    }
}

/// A reachability test of one proxy.
pub struct ProxyProbe {
    proxy_type: ProxyType,
    phase: ProbePhase,
    latency_ms: u64,
}

impl View for ProxyProbe {
    type V = ProbeView;

    closed spec fn view(&self) -> ProbeView {
        ProbeView { proxy_type: self.proxy_type, phase: self.phase, latency_ms: self.latency_ms }
    }
}

fn report(reachable: bool, latency_ms: u64, error: Option<String>) -> (a: ProbeAction)
    ensures
        a == ProbeAction::Report(ProxyTestResult { reachable, latency_ms, error }),
{
    ProbeAction::Report(ProxyTestResult { reachable, latency_ms, error })
}

impl ProxyProbe {
    /// A probe of a proxy of this type, about to resolve and connect.
    pub fn new(proxy_type: ProxyType) -> (p: Self)
        ensures
            p@ == (ProbeView { proxy_type, phase: ProbePhase::Connecting, latency_ms: 0 }),
    {
        ProxyProbe { proxy_type, phase: ProbePhase::Connecting, latency_ms: 0 }
    }

    /// The phase the probe is in.
    pub fn phase(&self) -> (p: ProbePhase)
        ensures
            p == self@.phase,
    {
        self.phase
    }

    /// Whether the probe takes this event now.
    pub fn accepts(&self, event: &ProbeEvent) -> (b: bool)
        ensures
            b == self@.accepts(*event),
    {
        match self.phase {
            ProbePhase::Connecting => match event {
                ProbeEvent::ResolveFailed(_) => true,
                ProbeEvent::NoAddress => true,
                ProbeEvent::ConnectFailed(_, _) => true,
                ProbeEvent::Connected(_) => true,
                _ => false,
            },
            ProbePhase::Greeting => match event {
                ProbeEvent::Sent => true,
                ProbeEvent::SendFailed => true,
                _ => false,
            },
            ProbePhase::AwaitReply => match event {
                ProbeEvent::Received(r, _) => r.len() == 2,
                ProbeEvent::ReceiveFailed => true,
                _ => false,
            },
            ProbePhase::Finished => false,
        }
    }

    /// Takes the outcome of the last step and gives the next one.
    pub fn step(&mut self, event: ProbeEvent) -> (action: ProbeAction)
        requires
            old(self)@.accepts(event),
        ensures
            old(self)@.step_ok(event, final(self)@, action),
    {
        match event {
            ProbeEvent::ResolveFailed(d) => {
                self.phase = ProbePhase::Finished;
                let mut text = String::from_str("DNS: ");
                text.append(d.as_str());
                report(false, 0, Some(text))
            },
            ProbeEvent::NoAddress => {
                self.phase = ProbePhase::Finished;
                report(false, 0, Some(String::from_str("No address found")))
            },
            ProbeEvent::ConnectFailed(d, t) => {
                self.phase = ProbePhase::Finished;
                report(false, t, Some(d))
            },
            ProbeEvent::Connected(t) => match self.proxy_type {
                ProxyType::Http => {
                    self.phase = ProbePhase::Finished;
                    report(true, t, None)
                },
                ProxyType::Socks5h => {
                    self.phase = ProbePhase::Greeting;
                    self.latency_ms = t;
                    let greeting = vec![5u8, 1u8, 0u8];
                    assert(greeting@ =~= seq![5u8, 1u8, 0u8]);
                    ProbeAction::Send(greeting)
                },
            },
            ProbeEvent::Sent => {
                self.phase = ProbePhase::AwaitReply;
                ProbeAction::ReceiveExact(2)
            },
            ProbeEvent::Received(r, t) => {
                self.phase = ProbePhase::Finished;
                if r[0] == 5 {
                    report(true, t, None)
                } else {
                    report(true, self.latency_ms, Some(String::from_str("TCP OK but SOCKS5 handshake failed")))
                }
            },
            _ => {
                self.phase = ProbePhase::Finished;
                report(true, self.latency_ms, Some(String::from_str("TCP OK but SOCKS5 handshake failed")))
            },
        }
    }
}

/// A SOCKS5 probe's verdict rests on the version byte of the proxy's
/// two-byte reply alone: a reply starting with 5 means a working SOCKS5
/// proxy, reported reachable with the reply's time and no error, whatever
/// method it chose (even "none acceptable"); any other first byte is
/// reported reachable with the connect time and the greeting-failed text.
pub proof fn law_probe_reply_judged_by_version(
    v: ProbeView,
    r: Vec<u8>,
    t: u64,
    next: ProbeView,
    a: ProbeAction,
)
    requires
        v.phase == ProbePhase::AwaitReply,
        v.accepts(ProbeEvent::Received(r, t)),
        v.step_ok(ProbeEvent::Received(r, t), next, a),
    ensures
        next.phase == ProbePhase::Finished,
        a matches ProbeAction::Report(res) && res.reachable && (if r@[0] == 5 {
            res.latency_ms == t && res.error is None
        } else {
            res.latency_ms == v.latency_ms && (res.error matches Some(m) && m@
                == "TCP OK but SOCKS5 handshake failed"@)
        }),
{
}

/// How the connection attempt is reported: a name that does not resolve,
/// or resolves to nothing, is unreachable with latency 0; a failed connect
/// is unreachable with the time it took and its error; an HTTP proxy that
/// takes the connection is reachable with the connect time and no error; a
/// SOCKS5 proxy that takes it is sent the no-auth greeting `[5, 1, 0]`,
/// the connect time kept for the report.
pub proof fn law_probe_connect_outcomes(v: ProbeView, e: ProbeEvent, next: ProbeView, a: ProbeAction)
    requires
        v.phase == ProbePhase::Connecting,
        v.accepts(e),
        v.step_ok(e, next, a),
    ensures
        e matches ProbeEvent::ResolveFailed(d) ==> (a matches ProbeAction::Report(res)
            && !res.reachable && res.latency_ms == 0 && (res.error matches Some(m) && m@ == "DNS: "@
            + d@)),
        e is NoAddress ==> (a matches ProbeAction::Report(res) && !res.reachable && res.latency_ms
            == 0 && (res.error matches Some(m) && m@ == "No address found"@)),
        e matches ProbeEvent::ConnectFailed(d, t) ==> (a matches ProbeAction::Report(res)
            && !res.reachable && res.latency_ms == t && (res.error matches Some(m) && m@ == d@)),
        e matches ProbeEvent::Connected(t) ==> (if v.proxy_type == ProxyType::Http {
            a matches ProbeAction::Report(res) && res.reachable && res.latency_ms == t
                && res.error is None
        } else {
            next.phase == ProbePhase::Greeting && next.latency_ms == t && (a matches ProbeAction::Send(
                b,
            ) && b@ == seq![5u8, 1u8, 0u8])
        }),
{
}

/// A SOCKS5 proxy that took the connection but could not be greeted (the
/// write or the read failed) is still reported reachable, with the connect
/// time and the greeting-failed text.
pub proof fn law_probe_greeting_failure(v: ProbeView, e: ProbeEvent, next: ProbeView, a: ProbeAction)
    requires
        v.phase == ProbePhase::Greeting || v.phase == ProbePhase::AwaitReply,
        e is SendFailed || e is ReceiveFailed,
        v.accepts(e),
        v.step_ok(e, next, a),
    ensures
        next.phase == ProbePhase::Finished,
        a matches ProbeAction::Report(res) && res.reachable && res.latency_ms == v.latency_ms && (
        res.error matches Some(m) && m@ == "TCP OK but SOCKS5 handshake failed"@),
{
}

} // verus!
