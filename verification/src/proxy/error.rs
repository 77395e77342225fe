//! Why a proxy handshake failed, and the message shown for it.

use vstd::prelude::*;
use crate::text::{decimal, decimal_chars};

verus! {

/// The SOCKS5 exchange an I/O failure happened in.
#[derive(Clone, Copy, Debug, PartialEq, Eq, Structural)]
pub enum Socks5Stage {
    Greeting,
    Auth,
    Connect,
}

/// Why a proxy handshake failed.
#[derive(Debug)]
pub enum HandshakeError {
    /// Writing to the proxy failed; holds the I/O error's text.
    Socks5WriteFailed(Socks5Stage, String),
    /// Reading from the proxy failed; holds the I/O error's text.
    Socks5ReadFailed(Socks5Stage, String),
    /// The method reply did not start with version 5.
    Socks5InvalidVersion(u8),
    /// The proxy refused the username and password.
    Socks5AuthFailed,
    /// The proxy accepted none of the offered methods.
    Socks5NoAcceptableMethod,
    /// The proxy chose a method that was not offered.
    Socks5UnsupportedMethod(u8),
    /// The reply to CONNECT did not start with version 5.
    Socks5InvalidReplyVersion(u8),
    /// The proxy refused the CONNECT request with this reply code.
    Socks5ConnectRefused(u8),
    /// Writing the CONNECT request failed; holds the I/O error's text.
    HttpWriteFailed(String),
    /// Reading the response failed; holds the I/O error's text.
    HttpReadFailed(String),
    /// The proxy closed the connection before the headers ended.
    HttpClosed,
    /// The proxy answered with a status other than 200; holds the status line.
    HttpRefused(String),
    /// No status code could be read; holds the header text.
    HttpInvalidResponse(String),
    /// The headers did not end within the response limit.
    HttpResponseTooLarge,
}

/// The word naming a SOCKS5 exchange in messages.
pub open spec fn stage_word(s: Socks5Stage) -> Seq<char> {
    match s {
        Socks5Stage::Greeting => "greeting"@,
        Socks5Stage::Auth => "auth"@,
        Socks5Stage::Connect => "connect"@,
    }
}

/// The meaning of a SOCKS5 reply code (RFC 1928).
pub open spec fn socks5_reply_text(code: u8) -> Seq<char> {
    if code == 1 {
        "general SOCKS server failure"@
    } else if code == 2 {
        "connection not allowed by ruleset"@
    } else if code == 3 {
        "network unreachable"@
    } else if code == 4 {
        "host unreachable"@
    } else if code == 5 {
        "connection refused"@
    } else if code == 6 {
        "TTL expired"@
    } else if code == 7 {
        "command not supported"@
    } else if code == 8 {
        "address type not supported"@
    } else {
        "unknown error"@
    }
}

/// The message shown for a handshake failure.
pub open spec fn handshake_error_text(e: HandshakeError) -> Seq<char> {
    match e {
        HandshakeError::Socks5WriteFailed(s, d) => "SOCKS5 "@ + stage_word(s) + " write failed: "@
            + d@,
        HandshakeError::Socks5ReadFailed(s, d) => "SOCKS5 "@ + stage_word(s) + " read failed: "@
            + d@,
        HandshakeError::Socks5InvalidVersion(v) => "SOCKS5: invalid version "@ + decimal_chars(
            v as nat,
        ),
        HandshakeError::Socks5AuthFailed => "SOCKS5: authentication failed"@,
        HandshakeError::Socks5NoAcceptableMethod => "SOCKS5: no acceptable auth method"@,
        HandshakeError::Socks5UnsupportedMethod(m) => "SOCKS5: unsupported auth method "@
            + decimal_chars(m as nat),
        HandshakeError::Socks5InvalidReplyVersion(v) => "SOCKS5: invalid response version "@
            + decimal_chars(v as nat),
        HandshakeError::Socks5ConnectRefused(c) => "SOCKS5 connect failed: "@ + socks5_reply_text(
            c,
        ),
        HandshakeError::HttpWriteFailed(d) => "HTTP CONNECT write failed: "@ + d@,
        HandshakeError::HttpReadFailed(d) => "HTTP CONNECT read failed: "@ + d@,
        HandshakeError::HttpClosed => "HTTP CONNECT: proxy closed connection"@,
        HandshakeError::HttpRefused(line) => "HTTP CONNECT failed: "@ + line@,
        HandshakeError::HttpInvalidResponse(h) => "HTTP CONNECT: invalid response: "@ + h@,
        HandshakeError::HttpResponseTooLarge => "HTTP CONNECT: response too large"@,
    }
}

fn stage_str(s: Socks5Stage) -> (w: &'static str)
    ensures
        w@ == stage_word(s),
{
    match s {
        Socks5Stage::Greeting => "greeting",
        Socks5Stage::Auth => "auth",
        Socks5Stage::Connect => "connect",
    }
}

/// The meaning of a SOCKS5 reply code.
pub fn reply_code_text(code: u8) -> (t: &'static str)
    ensures
        t@ == socks5_reply_text(code),
{
    if code == 1 {
        "general SOCKS server failure"
    } else if code == 2 {
        "connection not allowed by ruleset"
    } else if code == 3 {
        "network unreachable"
    } else if code == 4 {
        "host unreachable"
    } else if code == 5 {
        "connection refused"
    } else if code == 6 {
        "TTL expired"
    } else if code == 7 {
        "command not supported"
    } else if code == 8 {
        "address type not supported"
    } else {
        "unknown error"
    }
}

fn joined(head: &str, tail: &str) -> (s: String)
    ensures
        s@ == head@ + tail@,
{
    let mut s = String::from_str(head);
    s.append(tail);
    s
}

impl HandshakeError {
    /// The message shown for this failure.
    pub fn message(&self) -> (text: String)
        ensures
            text@ == handshake_error_text(*self),
    {
        match self {
            HandshakeError::Socks5WriteFailed(s, d) => {
                let mut t = joined("SOCKS5 ", stage_str(*s));
                t.append(" write failed: ");
                t.append(d.as_str());
                t
            },
            HandshakeError::Socks5ReadFailed(s, d) => {
                let mut t = joined("SOCKS5 ", stage_str(*s));
                t.append(" read failed: ");
                t.append(d.as_str());
                t
            },
            HandshakeError::Socks5InvalidVersion(v) => joined(
                "SOCKS5: invalid version ",
                decimal(*v as u64).as_str(),
            ),
            HandshakeError::Socks5AuthFailed => String::from_str("SOCKS5: authentication failed"),
            HandshakeError::Socks5NoAcceptableMethod => String::from_str(
                "SOCKS5: no acceptable auth method",
            ),
            HandshakeError::Socks5UnsupportedMethod(m) => joined(
                "SOCKS5: unsupported auth method ",
                decimal(*m as u64).as_str(),
            ),
            HandshakeError::Socks5InvalidReplyVersion(v) => joined(
                "SOCKS5: invalid response version ",
                decimal(*v as u64).as_str(),
            ),
            HandshakeError::Socks5ConnectRefused(c) => joined(
                "SOCKS5 connect failed: ",
                reply_code_text(*c),
            ),
            HandshakeError::HttpWriteFailed(d) => joined("HTTP CONNECT write failed: ", d.as_str()),
            HandshakeError::HttpReadFailed(d) => joined("HTTP CONNECT read failed: ", d.as_str()),
            HandshakeError::HttpClosed => String::from_str("HTTP CONNECT: proxy closed connection"),
            HandshakeError::HttpRefused(line) => joined("HTTP CONNECT failed: ", line.as_str()),
            HandshakeError::HttpInvalidResponse(h) => joined(
                "HTTP CONNECT: invalid response: ",
                h.as_str(),
            ),
            HandshakeError::HttpResponseTooLarge => String::from_str(
                "HTTP CONNECT: response too large",
            ),
        }
    }
}

} // verus!
