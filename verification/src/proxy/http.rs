//! The HTTP CONNECT handshake: the request a client sends and the reading of
//! the proxy's response.

use vstd::prelude::*;
use vstd::slice::slice_subrange;
use vstd::utf8::{decode_utf8, encode_utf8, valid_utf8};
use crate::foreign::{base64_encode, base64_standard_encoding, utf8_lossy, utf8_lossy_decoding};
use crate::proxy::config::ProxyConfig;
use crate::proxy::error::HandshakeError;
use crate::proxy::socks5::{append_bytes, copy_bytes};
use crate::proxy::tunnel::{action_is, Step, TunnelAction, TunnelEvent};
use crate::text::{decimal_chars, digit_char, socket_address, socket_address_text};

verus! {

/// `needle` occurs in `haystack` starting at index `i`.
pub open spec fn occurs_at(haystack: Seq<u8>, needle: Seq<u8>, i: int) -> bool {
    0 <= i && i + needle.len() <= haystack.len() && haystack.subrange(i, i + needle.len())
        == needle
}

/// The first index at or after `i` where `needle` occurs in `haystack`.
pub open spec fn first_match_from(haystack: Seq<u8>, needle: Seq<u8>, i: int) -> Option<int>
    decreases haystack.len() + 1 - i,
{
    if i < 0 || i + needle.len() > haystack.len() {
        None
    } else if occurs_at(haystack, needle, i) {
        Some(i)
    } else {
        first_match_from(haystack, needle, i + 1)
    }
}

/// The first index where `needle` occurs in `haystack`.
pub open spec fn first_match(haystack: Seq<u8>, needle: Seq<u8>) -> Option<int> {
    first_match_from(haystack, needle, 0)
}

/// The position of the first occurrence of `needle` in `haystack`. The needle
/// must not be empty.
pub fn find_subsequence(haystack: &[u8], needle: &[u8]) -> (found: Option<usize>)
    requires
        needle@.len() > 0,
    ensures
        match found {
            Some(i) => first_match(haystack@, needle@) == Some(i as int),
            None => first_match(haystack@, needle@) is None,
        },
{
    let n = needle.len();
    let h = haystack.len();
    if n > h {
        return None;
    }
    let mut i: usize = 0;
    while i <= h - n
        invariant
            n == needle@.len(),
            h == haystack@.len(),
            n <= h,
            0 <= i <= h - n + 1,
            first_match(haystack@, needle@) == first_match_from(haystack@, needle@, i as int),
        decreases h - i,
    {
        let mut j: usize = 0;
        let mut same = true;
        while j < n
            invariant
                n == needle@.len(),
                h == haystack@.len(),
                i + n <= h,
                0 <= j <= n,
                same == (forall|k: int| 0 <= k < j ==> haystack@[i + k] == needle@[k]),
            decreases n - j,
        {
            if haystack[i + j] != needle[j] {
                same = false;
            }
            j = j + 1;
        }
        proof {
            if same {
                assert(haystack@.subrange(i as int, i + n) =~= needle@);
            } else {
                let k = choose|k: int| 0 <= k < n && haystack@[i + k] != needle@[k];
                assert(haystack@.subrange(i as int, i + n)[k] != needle@[k]);
            }
        }
        if same {
            return Some(i);
        }
        i = i + 1;
    }
    None
}

/// The header terminator `\r\n\r\n`.
pub open spec fn header_end() -> Seq<u8> {
    seq![13u8, 10u8, 13u8, 10u8]
}

/// The characters `char::is_whitespace` accepts (Unicode `White_Space`).
pub open spec fn is_space(c: char) -> bool {
    let v = c as u32;
    (9 <= v <= 13) || v == 32 || v == 0x85 || v == 0xA0 || v == 0x1680 || (0x2000 <= v
        <= 0x200A) || v == 0x2028 || v == 0x2029 || v == 0x202F || v == 0x205F || v == 0x3000
}

fn space(c: char) -> (b: bool)
    ensures
        b == is_space(c),
{
    let v = c as u32;
    (9 <= v && v <= 13) || v == 32 || v == 0x85 || v == 0xA0 || v == 0x1680 || (0x2000 <= v
        && v <= 0x200A) || v == 0x2028 || v == 0x2029 || v == 0x202F || v == 0x205F || v
        == 0x3000
}

/// The first index at or after `i` that holds no whitespace (or the length).
pub open spec fn skip_space(s: Seq<char>, i: int) -> int
    decreases s.len() - i,
{
    if i >= s.len() {
        s.len() as int
    } else if i >= 0 && is_space(s[i]) {
        skip_space(s, i + 1)
    } else {
        i
    }
}

/// The first index at or after `i` that holds whitespace (or the length).
pub open spec fn token_end(s: Seq<char>, i: int) -> int
    decreases s.len() - i,
{
    if i >= s.len() {
        s.len() as int
    } else if i >= 0 && !is_space(s[i]) {
        token_end(s, i + 1)
    } else {
        i
    }
}

/// The second of the whitespace-separated words of `line`, as
/// `split_whitespace` gives them.
pub open spec fn second_word(line: Seq<char>) -> Option<Seq<char>> {
    let a = skip_space(line, 0);
    let b = token_end(line, a);
    let c = skip_space(line, b);
    if a >= line.len() || c >= line.len() {
        None
    } else {
        Some(line.subrange(c, token_end(line, c)))
    }
}

/// The first index at or after `i` that holds `\n` (or the length).
pub open spec fn newline_from(s: Seq<char>, i: int) -> int
    decreases s.len() - i,
{
    if i >= s.len() {
        s.len() as int
    } else if i >= 0 && s[i] != '\n' {
        newline_from(s, i + 1)
    } else {
        i
    }
}

/// The first line of a text, as `str::lines` gives it: up to the first `\n`,
/// without a `\r` just before that `\n`.
pub open spec fn first_line(s: Seq<char>) -> Seq<char> {
    let k = newline_from(s, 0);
    if 0 < k < s.len() && s[k - 1] == '\r' {
        s.subrange(0, k - 1)
    } else {
        s.subrange(0, k)
    }
}

/// An ASCII decimal digit.
pub open spec fn is_digit(c: char) -> bool {
    48 <= (c as u32) <= 57
}

/// The number that a run of decimal digits writes.
pub open spec fn digits_value(ds: Seq<char>) -> nat
    decreases ds.len(),
{
    if ds.len() == 0 {
        0
    } else {
        digits_value(ds.drop_last()) * 10 + ((ds.last() as u32) - 48) as nat
    }
}

/// Every character of `ds` is an ASCII digit.
pub open spec fn all_digits(ds: Seq<char>) -> bool {
    forall|i: int| 0 <= i < ds.len() ==> is_digit(ds[i])
}

/// `t` without a leading `+`.
pub open spec fn unsigned_part(t: Seq<char>) -> Seq<char> {
    if t.len() > 0 && t[0] == '+' {
        t.drop_first()
    } else {
        t
    }
}

/// What `str::parse::<u16>` accepts: an optional `+`, then one or more ASCII
/// digits, whose value fits in `u16`.
pub open spec fn parse_u16_text(t: Seq<char>) -> Option<u16> {
    let ds = unsigned_part(t);
    if ds.len() > 0 && all_digits(ds) && digits_value(ds) <= 65535 {
        Some(digits_value(ds) as u16)
    } else {
        None
    }
}

proof fn lemma_digits_prefix(ds: Seq<char>, k: int)
    requires
        0 <= k <= ds.len(),
        forall|i: int| 0 <= i < ds.len() ==> is_digit(ds[i]),
    ensures
        digits_value(ds.subrange(0, k)) <= digits_value(ds),
    decreases ds.len(),
{
    if k == ds.len() {
        assert(ds.subrange(0, k) =~= ds);
    } else {
        lemma_digits_prefix(ds.drop_last(), k);
        assert(ds.drop_last().subrange(0, k) =~= ds.subrange(0, k));
    }
}

fn skip_space_in(s: &str, n: usize, i: usize) -> (j: usize)
    requires
        n == s@.len(),
        i <= n,
    ensures
        j == skip_space(s@, i as int),
        j <= n,
{
    let mut j = i;
    while j < n && space(s.get_char(j))
        invariant
            n == s@.len(),
            i <= j <= n,
            skip_space(s@, i as int) == skip_space(s@, j as int),
        decreases n - j,
    {
        j = j + 1;
    }
    j
}

fn token_end_in(s: &str, n: usize, i: usize) -> (j: usize)
    requires
        n == s@.len(),
        i <= n,
    ensures
        j == token_end(s@, i as int),
        j <= n,
{
    let mut j = i;
    while j < n && !space(s.get_char(j))
        invariant
            n == s@.len(),
            i <= j <= n,
            token_end(s@, i as int) == token_end(s@, j as int),
        decreases n - j,
    {
        j = j + 1;
    }
    j
}

fn newline_in(s: &str, n: usize) -> (j: usize)
    requires
        n == s@.len(),
    ensures
        j == newline_from(s@, 0),
        j <= n,
{
    let mut j: usize = 0;
    while j < n && s.get_char(j) != '\n'
        invariant
            n == s@.len(),
            j <= n,
            newline_from(s@, 0) == newline_from(s@, j as int),
        decreases n - j,
    {
        j = j + 1;
    }
    j
}

/// Parses a status code as `str::parse::<u16>` does.
pub fn parse_u16(t: &str) -> (code: Option<u16>)
    ensures
        code == parse_u16_text(t@),
{
    let n = t.unicode_len();
    let start: usize = if n > 0 && t.get_char(0) == '+' {
        1
    } else {
        0
    };
    let ghost ds = t@.subrange(start as int, n as int);
    proof {
        if start == 1 {
            assert(ds =~= t@.drop_first());
        } else {
            assert(ds =~= t@);
        }
    }
    if start == n {
        return None;
    }
    let mut value: u32 = 0;
    let mut i = start;
    while i < n
        invariant
            n == t@.len(),
            start <= i <= n,
            ds == t@.subrange(start as int, n as int),
            ds == unsigned_part(t@),
            forall|k: int| 0 <= k < i - start ==> is_digit(ds[k]),
            value == digits_value(ds.subrange(0, i - start)),
            value <= 65535,
        decreases n - i,
    {
        let c = t.get_char(i);
        let v = c as u32;
        if v < 48 || v > 57 {
            proof {
                assert(!is_digit(ds[i - start]));
                assert(!all_digits(ds));
                assert(parse_u16_text(t@) is None);
            }
            return None;
        }
        proof {
            assert(ds.subrange(0, i + 1 - start).drop_last() =~= ds.subrange(0, i - start));
        }
        let next = value * 10 + (v - 48);
        if next > 65535 {
            proof {
                if all_digits(ds) {
                    lemma_digits_prefix(ds, i + 1 - start);
                    assert(digits_value(ds) > 65535);
                }
                assert(parse_u16_text(t@) is None);
            }
            return None;
        }
        value = next;
        i = i + 1;
    }
    proof {
        assert(ds.subrange(0, n - start) =~= ds);
    }
    Some(value as u16)
}

/// The largest response the client reads before giving up.
pub const RESPONSE_LIMIT: usize = 1024;

/// What a proxy's answer to CONNECT, as far as it has been read, amounts to.
pub enum HttpVerdict {
    /// The headers have not ended yet and there is room to read more.
    Incomplete,
    /// The headers have not ended within the limit.
    TooLarge,
    /// Status 200: the tunnel is open.
    Established,
    /// Another status; holds the status line.
    Refused(String),
    /// No status code could be read; holds the header text.
    Invalid(String),
}

/// What the response bytes read so far say, as the client judges them.
pub open spec fn verdict_matches(response: Seq<u8>, v: HttpVerdict) -> bool {
    match first_match(response, header_end()) {
        None => if response.len() >= RESPONSE_LIMIT {
            v is TooLarge
        } else {
            v is Incomplete
        },
        Some(pos) => {
            let header = utf8_lossy_decoding(response.subrange(0, pos));
            let line = first_line(header);
            if header.len() == 0 || second_word(line) is None {
                v matches HttpVerdict::Invalid(h) && h@ == header
            } else if parse_u16_text(second_word(line).unwrap()) == Some(200u16) {
                v is Established
            } else {
                v matches HttpVerdict::Refused(l) && l@ == line
            }
        },
    }
}

/// Where the headers in `r` have ended and are valid UTF-8, their lossy
/// decoding is their plain decoding: a verdict on a well-formed response
/// can then be read off its text.
pub open spec fn header_decoded_plainly(r: Seq<u8>) -> bool {
    match first_match(r, header_end()) {
        Some(pos) => valid_utf8(r.subrange(0, pos)) ==> utf8_lossy_decoding(r.subrange(0, pos))
            == decode_utf8(r.subrange(0, pos)),
        None => true,
    }
}

/// Judges the bytes of a CONNECT response read so far.
pub fn http_response_verdict(response: &[u8]) -> (v: HttpVerdict)
    ensures
        verdict_matches(response@, v),
        header_decoded_plainly(response@),
{
    let terminator: [u8; 4] = [13, 10, 13, 10];
    proof {
        assert(terminator@ =~= header_end());
    }
    let pos = match find_subsequence(response, &terminator) {
        None => {
            if response.len() >= RESPONSE_LIMIT {
                return HttpVerdict::TooLarge;
            } else {
                return HttpVerdict::Incomplete;
            }
        },
        Some(p) => p,
    };
    proof {
        // the match ends inside the response
        assert(first_match(response@, header_end()) == Some(pos as int));
        lemma_first_match_bounds(response@, header_end(), 0);
    }
    let header = utf8_lossy(slice_subrange(response, 0, pos));
    let hs = header.as_str();
    let n = hs.unicode_len();
    if n == 0 {
        return HttpVerdict::Invalid(header);
    }
    let k = newline_in(hs, n);
    let line_end = if 0 < k && k < n && hs.get_char(k - 1) == '\r' {
        k - 1
    } else {
        k
    };
    let line = String::from_str(hs.substring_char(0, line_end));
    let ls = line.as_str();
    let m = ls.unicode_len();
    let a = skip_space_in(ls, m, 0);
    let b = token_end_in(ls, m, a);
    let c = skip_space_in(ls, m, b);
    if a >= m || c >= m {
        return HttpVerdict::Invalid(header);
    }
    let d = token_end_in(ls, m, c);
    proof {
        lemma_token_end_bounds(ls@, c as int);
    }
    let code = parse_u16(ls.substring_char(c, d));
    match code {
        Some(200) => HttpVerdict::Established,
        _ => HttpVerdict::Refused(line),
    }
}

proof fn lemma_first_match_bounds(h: Seq<u8>, n: Seq<u8>, i: int)
    ensures
        first_match_from(h, n, i) matches Some(p) ==> i <= p && p + n.len() <= h.len(),
    decreases h.len() + 1 - i,
{
    if !(i < 0 || i + n.len() > h.len()) && !occurs_at(h, n, i) {
        lemma_first_match_bounds(h, n, i + 1);
    }
}

proof fn lemma_token_end_bounds(s: Seq<char>, i: int)
    requires
        0 <= i <= s.len(),
    ensures
        i <= token_end(s, i) <= s.len(),
    decreases s.len() - i,
{
    if i < s.len() && !is_space(s[i]) {
        lemma_token_end_bounds(s, i + 1);
    }
}

} // verus!

verus! {

/// The bytes a Basic credential encodes: `user:pass`.
pub open spec fn credential_bytes(user: Seq<char>, pass: Seq<char>) -> Seq<u8> {
    encode_utf8(user) + seq![58u8] + encode_utf8(pass)
}

/// The credential is short enough for its base64 length to fit in `usize`.
pub open spec fn credential_fits(user: Seq<char>, pass: Seq<char>) -> bool {
    (credential_bytes(user, pass).len() / 3) * 4 + 4 <= usize::MAX
}

/// The text of an optional password, empty when absent.
pub open spec fn password_text(p: Option<String>) -> Seq<char> {
    match p {
        Some(s) => s@,
        None => Seq::empty(),
    }
}

/// The Basic credential a proxy's settings give, if it has a username.
pub open spec fn proxy_credential(proxy: ProxyConfig) -> Option<Seq<char>> {
    match proxy.username {
        Some(u) => Some(base64_standard_encoding(credential_bytes(u@, password_text(proxy.password)))),
        None => None,
    }
}

/// The proxy's credential, if any, is short enough to encode.
pub open spec fn proxy_credential_fits(proxy: ProxyConfig) -> bool {
    match proxy.username {
        Some(u) => credential_fits(u@, password_text(proxy.password)),
        None => true,
    }
}

/// The CONNECT request for `host:port`, with a `Proxy-Authorization` header
/// when there is a credential, ended by an empty line.
pub open spec fn http_connect_request_text(
    host: Seq<char>,
    port: u16,
    credential: Option<Seq<char>>,
) -> Seq<char> {
    let target = socket_address_text(host, port);
    "CONNECT "@ + target + " HTTP/1.1\r\nHost: "@ + target + "\r\n"@ + match credential {
        Some(c) => "Proxy-Authorization: Basic "@ + c + "\r\n"@,
        None => Seq::empty(),
    } + "\r\n"@
}

/// The base64 form of `user:pass` for Basic authentication.
pub fn basic_credential(user: &str, pass: &str) -> (credential: String)
    requires
        credential_fits(user@, pass@),
    ensures
        credential@ == base64_standard_encoding(credential_bytes(user@, pass@)),
{
    let mut bytes: Vec<u8> = Vec::new();
    append_bytes(&mut bytes, user.as_bytes());
    bytes.push(58u8);
    append_bytes(&mut bytes, pass.as_bytes());
    assert(bytes@ =~= credential_bytes(user@, pass@));
    base64_encode(bytes.as_slice())
}

/// The CONNECT request for `target_host:target_port`, authenticated with
/// the given Basic credential if there is one.
pub fn http_connect_request(target_host: &str, target_port: u16, credential: Option<&str>) -> (request: String)
    ensures
        request@ == http_connect_request_text(
            target_host@,
            target_port,
            match credential {
                Some(c) => Some(c@),
                None => None,
            },
        ),
{
    let target = socket_address(target_host, target_port);
    let mut r = String::from_str("CONNECT ");
    r.append(target.as_str());
    r.append(" HTTP/1.1\r\nHost: ");
    r.append(target.as_str());
    r.append("\r\n");
    let ghost before = r@;
    match credential {
        Some(c) => {
            r.append("Proxy-Authorization: Basic ");
            r.append(c);
            r.append("\r\n");
            assert(r@ =~= before + ("Proxy-Authorization: Basic "@ + c@ + "\r\n"@));
        },
        None => {
            assert(r@ =~= before + Seq::<char>::empty());
        },
    }
    r.append("\r\n");
    r
}

/// Where an HTTP CONNECT handshake stands.
#[derive(Clone, Copy, Debug, PartialEq, Eq, Structural)]
pub enum HttpPhase {
    /// The request is being written.
    SendRequest,
    /// Reading the response.
    AwaitResponse,
    /// The tunnel is open.
    Done,
    /// The handshake failed.
    Failed,
}

/// `r` ends with the first `k` bytes of the header terminator.
pub open spec fn ends_with_partial_end(r: Seq<u8>, k: int) -> bool {
    0 <= k <= r.len() && r.subrange(r.len() - k, r.len() as int) == header_end().subrange(0, k)
}

/// How much of a header terminator `r` already ends with (0 to 3).
pub open spec fn partial_end(r: Seq<u8>) -> int {
    if ends_with_partial_end(r, 3) {
        3
    } else if ends_with_partial_end(r, 2) {
        2
    } else if ends_with_partial_end(r, 1) {
        1
    } else {
        0
    }
}

/// The most the next read may take: no more than could complete a header
/// terminator, so that nothing after the headers is read, and no more than
/// the limit leaves room for.
pub open spec fn read_room(r: Seq<u8>) -> int {
    let a = 4 - partial_end(r);
    let b = RESPONSE_LIMIT - r.len();
    if a < b {
        a
    } else {
        b
    }
}

/// The ghost form of an HTTP CONNECT handshake: its phase and the response
/// bytes read so far.
pub struct HttpView {
    pub phase: HttpPhase,
    pub received: Seq<u8>,
}

impl HttpView {
    /// Nothing is read before the request is written, and reading stops at
    /// the limit.
    pub open spec fn wf(self) -> bool {
        &&& self.phase == HttpPhase::SendRequest ==> self.received.len() == 0
        &&& self.phase == HttpPhase::AwaitResponse ==> self.received.len() < RESPONSE_LIMIT
            && first_match(self.received, header_end()) is None
    }

    /// The events the handshake can take now: write outcomes while writing;
    /// reads of at most the asked size, or a read failure, while reading.
    pub open spec fn accepts(self, e: TunnelEvent) -> bool {
        self.wf() && match self.phase {
            HttpPhase::SendRequest => e is Sent || e is SendFailed,
            HttpPhase::AwaitResponse => match e {
                TunnelEvent::Received(d) => d@.len() <= read_room(self.received),
                TunnelEvent::ReceiveFailed(_) => true,
                _ => false,
            },
            _ => false,
        }
    }
}

/// The phase and action that follow from the response read so far.
pub open spec fn response_step(r: Seq<u8>, p: HttpPhase, a: TunnelAction) -> bool {
    match first_match(r, header_end()) {
        None => if r.len() >= RESPONSE_LIMIT {
            p == HttpPhase::Failed && a matches TunnelAction::Fail(
                HandshakeError::HttpResponseTooLarge,
            )
        } else {
            &&& p == HttpPhase::AwaitResponse
            &&& a matches TunnelAction::ReceiveSome(n) && n == read_room(r)
        },
        Some(pos) => {
            let header = utf8_lossy_decoding(r.subrange(0, pos));
            let line = first_line(header);
            if header.len() == 0 || second_word(line) is None {
                &&& p == HttpPhase::Failed
                &&& a matches TunnelAction::Fail(HandshakeError::HttpInvalidResponse(h)) && h@
                    == header
            } else if parse_u16_text(second_word(line).unwrap()) == Some(200u16) {
                p == HttpPhase::Done && a is Done
            } else {
                &&& p == HttpPhase::Failed
                &&& a matches TunnelAction::Fail(HandshakeError::HttpRefused(l)) && l@ == line
            }
        },
    }
}

fn ends_with_part(r: &[u8], k: usize) -> (b: bool)
    requires
        k <= 4,
    ensures
        b == ends_with_partial_end(r@, k as int),
{
    let n = r.len();
    if k > n {
        return false;
    }
    let end: [u8; 4] = [13, 10, 13, 10];
    let mut j: usize = 0;
    while j < k
        invariant
            k <= 4,
            k <= n,
            n == r@.len(),
            end@ == header_end(),
            0 <= j <= k,
            forall|i: int| 0 <= i < j ==> r@[n - k + i] == header_end()[i],
        decreases k - j,
    {
        if r[n - k + j] != end[j] {
            assert(r@.subrange(n - k, n as int)[j as int] != header_end().subrange(0, k as int)[j as int]);
            return false;
        }
        j = j + 1;
    }
    assert(r@.subrange(n - k, n as int) =~= header_end().subrange(0, k as int));
    true
}

/// The most the next read may take after these bytes (see `read_room`).
pub fn next_read_size(r: &[u8]) -> (n: usize)
    requires
        r@.len() <= RESPONSE_LIMIT,
    ensures
        n == read_room(r@),
{
    proof {
        assert([13u8, 10u8, 13u8, 10u8]@ =~= header_end());
    }
    let k: usize = if ends_with_part(r, 3) {
        3
    } else if ends_with_part(r, 2) {
        2
    } else if ends_with_part(r, 1) {
        1
    } else {
        0
    };
    let a = 4 - k;
    let b = RESPONSE_LIMIT - r.len();
    if a < b {
        a
    } else {
        b
    }
}

proof fn lemma_partial_end_empty(r: Seq<u8>)
    requires
        r.len() == 0,
    ensures
        partial_end(r) == 0,
        read_room(r) == 4,
{
}

/// An HTTP CONNECT handshake in progress.
pub struct HttpConnectHandshake {
    phase: HttpPhase,
    received: Vec<u8>,
}

impl View for HttpConnectHandshake {
    type V = HttpView;

    closed spec fn view(&self) -> HttpView {
        HttpView { phase: self.phase, received: self.received@ }
    }
}

impl HttpConnectHandshake {
    /// Starts a handshake through `proxy` to `target_host:target_port`: the
    /// first step writes the CONNECT request, with Basic authentication when
    /// the proxy has a username (and its password, or an empty one).
    pub fn start(proxy: &ProxyConfig, target_host: &str, target_port: u16) -> (r: (
        HttpConnectHandshake,
        TunnelAction,
    ))
        requires
            proxy_credential_fits(*proxy),
        ensures
            r.0@ == (HttpView { phase: HttpPhase::SendRequest, received: Seq::empty() }),
            action_is(
                r.1,
                Step::Send(
                    encode_utf8(
                        http_connect_request_text(
                            target_host@,
                            target_port,
                            proxy_credential(*proxy),
                        ),
                    ),
                ),
            ),
    {
        let request = match &proxy.username {
            Some(user) => {
                let pass: &str = match &proxy.password {
                    Some(p) => p.as_str(),
                    None => "",
                };
                proof {
                    reveal_strlit("");
                }
                let credential = basic_credential(user.as_str(), pass);
                http_connect_request(target_host, target_port, Some(credential.as_str()))
            },
            None => http_connect_request(target_host, target_port, None),
        };
        let bytes = copy_bytes(request.as_str().as_bytes());
        (HttpConnectHandshake { phase: HttpPhase::SendRequest, received: Vec::new() }, TunnelAction::Send(bytes))
    }

    /// The phase the handshake is in.
    pub fn phase(&self) -> (p: HttpPhase)
        ensures
            p == self@.phase,
    {
        self.phase
    }

    /// Whether the handshake takes this event now.
    pub fn accepts(&self, event: &TunnelEvent) -> (b: bool)
        ensures
            b == self@.accepts(*event),
    {
        let n = self.received.len();
        match self.phase {
            HttpPhase::SendRequest => n == 0 && match event {
                TunnelEvent::Sent => true,
                TunnelEvent::SendFailed(_) => true,
                _ => false,
            },
            HttpPhase::AwaitResponse => n < RESPONSE_LIMIT && find_subsequence(
                self.received.as_slice(),
                &[13u8, 10u8, 13u8, 10u8],
            ).is_none() && match event {
                TunnelEvent::Received(d) => d.len() <= next_read_size(self.received.as_slice()),
                TunnelEvent::ReceiveFailed(_) => true,
                _ => false,
            },
            _ => false,
        }
    }

    /// Takes the outcome of the last step and gives the next one.
    pub fn step(&mut self, event: TunnelEvent) -> (action: TunnelAction)
        requires
            old(self)@.accepts(event),
        ensures
            final(self)@.wf(),
            match (old(self)@.phase, event) {
                (HttpPhase::SendRequest, TunnelEvent::SendFailed(d)) => final(self)@.phase
                    == HttpPhase::Failed && action_is(
                    action,
                    Step::Fail(HandshakeError::HttpWriteFailed(d)),
                ),
                (HttpPhase::SendRequest, _) => final(self)@ == (HttpView {
                    phase: HttpPhase::AwaitResponse,
                    ..old(self)@
                }) && action_is(
                    action,
                    Step::ReceiveSome(read_room(old(self)@.received) as nat),
                ),
                (_, TunnelEvent::ReceiveFailed(d)) => final(self)@.phase == HttpPhase::Failed
                    && action_is(action, Step::Fail(HandshakeError::HttpReadFailed(d))),
                (_, TunnelEvent::Received(data)) => if data@.len() == 0 {
                    final(self)@.phase == HttpPhase::Failed && action_is(
                        action,
                        Step::Fail(HandshakeError::HttpClosed),
                    )
                } else {
                    final(self)@.received == old(self)@.received + data@ && response_step(
                        old(self)@.received + data@,
                        final(self)@.phase,
                        action,
                    ) && header_decoded_plainly(old(self)@.received + data@)
                },
                _ => false,
            },
    {
        match self.phase {
            HttpPhase::SendRequest => match event {
                TunnelEvent::SendFailed(d) => {
                    self.phase = HttpPhase::Failed;
                    TunnelAction::Fail(HandshakeError::HttpWriteFailed(d))
                },
                _ => {
                    self.phase = HttpPhase::AwaitResponse;
                    proof {
                        lemma_partial_end_empty(self.received@);
                    }
                    TunnelAction::ReceiveSome(4)
                },
            },
            _ => match event {
                TunnelEvent::ReceiveFailed(d) => {
                    self.phase = HttpPhase::Failed;
                    TunnelAction::Fail(HandshakeError::HttpReadFailed(d))
                },
                TunnelEvent::Received(data) => {
                    if data.len() == 0 {
                        self.phase = HttpPhase::Failed;
                        TunnelAction::Fail(HandshakeError::HttpClosed)
                    } else {
                        append_bytes(&mut self.received, data.as_slice());
                        match http_response_verdict(self.received.as_slice()) {
                            HttpVerdict::Incomplete => {
                                TunnelAction::ReceiveSome(next_read_size(self.received.as_slice()))
                            },
                            HttpVerdict::TooLarge => {
                                self.phase = HttpPhase::Failed;
                                TunnelAction::Fail(HandshakeError::HttpResponseTooLarge)
                            },
                            HttpVerdict::Established => {
                                self.phase = HttpPhase::Done;
                                TunnelAction::Done
                            },
                            HttpVerdict::Refused(line) => {
                                self.phase = HttpPhase::Failed;
                                TunnelAction::Fail(HandshakeError::HttpRefused(line))
                            },
                            HttpVerdict::Invalid(header) => {
                                self.phase = HttpPhase::Failed;
                                TunnelAction::Fail(HandshakeError::HttpInvalidResponse(header))
                            },
                        }
                    }
                },
                _ => TunnelAction::Done,
            },
        }
    }
}

} // verus!

verus! {

proof fn lemma_first_match_from(h: Seq<u8>, n: Seq<u8>, k: int)
    requires
        0 <= k,
    ensures
        match first_match_from(h, n, k) {
            Some(i) => k <= i && occurs_at(h, n, i) && forall|j: int|
                k <= j < i ==> !occurs_at(h, n, j),
            None => forall|j: int| k <= j ==> !occurs_at(h, n, j),
        },
    decreases h.len() + 1 - k,
{
    if k + n.len() <= h.len() && !occurs_at(h, n, k) {
        lemma_first_match_from(h, n, k + 1);
    }
}

/// `first_match` is the least index where the needle occurs, and it is
/// absent only when the needle occurs nowhere.
pub proof fn law_first_match(h: Seq<u8>, n: Seq<u8>)
    ensures
        match first_match(h, n) {
            Some(i) => occurs_at(h, n, i) && forall|j: int| 0 <= j < i ==> !occurs_at(h, n, j),
            None => forall|j: int| !occurs_at(h, n, j),
        },
{
    lemma_first_match_from(h, n, 0);
}

proof fn lemma_decimal_digits(n: nat)
    ensures
        decimal_chars(n).len() > 0,
        all_digits(decimal_chars(n)),
        digits_value(decimal_chars(n)) == n,
    decreases n,
{
    let d = n % 10;
    assert((digit_char(d) as u32) == 48 + d);
    if n < 10 {
        assert(decimal_chars(n).drop_last() =~= Seq::<char>::empty());
        assert(digits_value(decimal_chars(n)) == digits_value(Seq::<char>::empty()) * 10 + d);
    } else {
        lemma_decimal_digits(n / 10);
        assert(decimal_chars(n).drop_last() =~= decimal_chars(n / 10));
        assert(decimal_chars(n).last() == digit_char(d));
        assert(n == (n / 10) * 10 + d);
        assert(digits_value(decimal_chars(n)) == digits_value(decimal_chars(n / 10)) * 10 + d);
    }
}

/// A status code written in decimal reads back as the same code.
pub proof fn law_status_code_roundtrip(code: u16)
    ensures
        parse_u16_text(decimal_chars(code as nat)) == Some(code),
{
    lemma_decimal_digits(code as nat);
    let ds = decimal_chars(code as nat);
    assert(is_digit(ds[0]));
    assert(unsigned_part(ds) == ds);
}

} // verus!

verus! {

/// Reading further bytes does not move the end of the headers once it has
/// been seen, so the verdict on a response is settled by its first header
/// end.
pub proof fn law_first_match_stable(h: Seq<u8>, extra: Seq<u8>, n: Seq<u8>)
    requires
        first_match(h, n) is Some,
    ensures
        first_match(h + extra, n) == first_match(h, n),
{
    law_first_match(h, n);
    law_first_match(h + extra, n);
    let p = first_match(h, n).unwrap();
    assert((h + extra).subrange(p, p + n.len()) =~= h.subrange(p, p + n.len()));
    assert(occurs_at(h + extra, n, p));
    assert forall|j: int| 0 <= j < p implies !occurs_at(h + extra, n, j) by {
        assert(!occurs_at(h, n, j));
        assert((h + extra).subrange(j, j + n.len()) =~= h.subrange(j, j + n.len()));
    }
    match first_match(h + extra, n) {
        Some(q) => {
            if q < p {
                assert(!occurs_at(h + extra, n, q));
            }
        },
        None => {
            assert(!occurs_at(h + extra, n, p));
        },
    }
}

/// The tunnel counts as open only when the headers have ended and the
/// status line's second word reads as the code 200.
pub proof fn law_established_only_on_200(r: Seq<u8>, p: HttpPhase, a: TunnelAction)
    requires
        response_step(r, p, a),
        p == HttpPhase::Done,
    ensures
        first_match(r, header_end()) matches Some(pos) && second_word(
            first_line(utf8_lossy_decoding(r.subrange(0, pos))),
        ) matches Some(w) && parse_u16_text(w) == Some(200u16),
{
}

} // verus!

verus! {

/// A read of at most `read_room(r)` bytes after headers that have not ended
/// in `r` never goes past the end of the headers: if the headers end within
/// `r + d`, they end exactly at its last byte. So the bytes the proxy sends
/// after its answer (the start of the SSH exchange) stay unread on the
/// connection.
pub proof fn law_no_read_past_header_end(r: Seq<u8>, d: Seq<u8>)
    requires
        first_match(r, header_end()) is None,
        d.len() <= 4 - partial_end(r),
    ensures
        first_match(r + d, header_end()) matches Some(p) ==> p + 4 == r.len() + d.len(),
{
    let n = header_end();
    let h = r + d;
    law_first_match(r, n);
    law_first_match(h, n);
    if let Some(p) = first_match(h, n) {
        assert(occurs_at(h, n, p));
        if p + 4 <= r.len() {
            assert(h.subrange(p, p + 4) =~= r.subrange(p, p + 4));
            assert(occurs_at(r, n, p));
        } else if p < r.len() {
            let m = r.len() - p;
            assert(r.subrange(r.len() - m, r.len() as int) =~= h.subrange(p, p + 4).subrange(0, m));
            assert(ends_with_partial_end(r, m));
            assert(partial_end(r) >= m);
        }
    }
}

/// While reading the response, a read the handshake takes never goes past
/// the end of the headers.
pub proof fn law_handshake_reads_only_headers(v: HttpView, d: Seq<u8>)
    requires
        v.phase == HttpPhase::AwaitResponse,
        v.wf(),
        d.len() <= read_room(v.received),
    ensures
        first_match(v.received + d, header_end()) matches Some(p) ==> p + 4 == v.received.len()
            + d.len(),
{
    law_no_read_past_header_end(v.received, d);
}

/// While the response is being read, every read of at most the room the
/// handshake leaves is taken, the empty read that marks the end of the
/// stream included (the step then reports that the proxy closed the
/// connection).
pub proof fn law_reads_within_room_accepted(v: HttpView, d: Vec<u8>)
    requires
        v.wf(),
        v.phase == HttpPhase::AwaitResponse,
        d@.len() <= read_room(v.received),
    ensures
        v.accepts(TunnelEvent::Received(d)),
{
}

/// While the response is being read, a read longer than the room the
/// handshake leaves is never taken: nothing past the header end can be
/// consumed.
pub proof fn law_reads_beyond_room_refused(v: HttpView, d: Vec<u8>)
    requires
        v.phase == HttpPhase::AwaitResponse,
        d@.len() > read_room(v.received),
    ensures
        !v.accepts(TunnelEvent::Received(d)),
{
}

} // verus!
