//! Small text helpers: decimal rendering and `host:port` addresses.

use vstd::prelude::*;

verus! {

/// The character of a decimal digit.
pub open spec fn digit_char(d: nat) -> char {
    (48 + d) as char
}

/// Decimal rendering of a natural number, most significant digit first.
pub open spec fn decimal_chars(n: nat) -> Seq<char>
    decreases n,
{
    if n < 10 {
        seq![digit_char(n)]
    } else {
        decimal_chars(n / 10).push(digit_char(n % 10))
    }
}

fn digit_str(d: u64) -> (s: &'static str)
    requires
        d < 10,
    ensures
        s@ == seq![digit_char(d as nat)],
{
    proof {
        reveal_strlit("0");
        reveal_strlit("1");
        reveal_strlit("2");
        reveal_strlit("3");
        reveal_strlit("4");
        reveal_strlit("5");
        reveal_strlit("6");
        reveal_strlit("7");
        reveal_strlit("8");
        reveal_strlit("9");
    }
    match d {
        0 => "0",
        1 => "1",
        2 => "2",
        3 => "3",
        4 => "4",
        5 => "5",
        6 => "6",
        7 => "7",
        8 => "8",
        _ => "9",
    }
}

/// Renders `n` in decimal, as `format!("{}", n)` does.
pub fn decimal(n: u64) -> (s: String)
    ensures
        s@ == decimal_chars(n as nat),
    decreases n,
{
    if n < 10 {
        String::from_str(digit_str(n))
    } else {
        let mut s = decimal(n / 10);
        s.append(digit_str(n % 10));
        s
    }
}

} // verus!

verus! {

/// `host:port`, the form in which addresses are written and resolved.
pub open spec fn socket_address_text(host: Seq<char>, port: u16) -> Seq<char> {
    host + ":"@ + decimal_chars(port as nat)
}

/// Writes `host:port`, as `format!("{}:{}", host, port)` does.
pub fn socket_address(host: &str, port: u16) -> (address: String)
    ensures
        address@ == socket_address_text(host@, port),
{
    let mut s = String::from_str(host);
    s.append(":");
    s.append(decimal(port as u64).as_str());
    s
}

} // verus!
