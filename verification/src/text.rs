//! Decimal rendering of integers and the error messages built from it.

use vstd::prelude::*;
use vstd::string::*;

verus! {

/// The ASCII digit for `d` (taken modulo ten).
pub open spec fn digit_char(d: nat) -> char {
    let r = d % 10;
    if r == 0 { '0' }
    else if r == 1 { '1' }
    else if r == 2 { '2' }
    else if r == 3 { '3' }
    else if r == 4 { '4' }
    else if r == 5 { '5' }
    else if r == 6 { '6' }
    else if r == 7 { '7' }
    else if r == 8 { '8' }
    else { '9' }
}

/// The decimal representation of `n`, without sign or leading zeros.
pub open spec fn decimal(n: nat) -> Seq<char>
    decreases n,
{
    if n < 10 {
        seq![digit_char(n)]
    } else {
        decimal(n / 10) + seq![digit_char(n)]
    }
}

pub(crate) fn digit_str(d: u64) -> (s: &'static str)
    requires
        d < 10,
    ensures
        s@ == seq![digit_char(d as nat)],
{
    proof {
        reveal_strlit("0");
        reveal_strlit("1");
        reveal_strlit("2");
        reveal_strlit("3");
        reveal_strlit("4");
        reveal_strlit("5");
        reveal_strlit("6");
        reveal_strlit("7");
        reveal_strlit("8");
        reveal_strlit("9");
    }
    if d == 0 { "0" }
    else if d == 1 { "1" }
    else if d == 2 { "2" }
    else if d == 3 { "3" }
    else if d == 4 { "4" }
    else if d == 5 { "5" }
    else if d == 6 { "6" }
    else if d == 7 { "7" }
    else if d == 8 { "8" }
    else { "9" }
}

/// Appends the decimal representation of `n` to `out`.
pub fn push_decimal(out: &mut String, n: u64)
    ensures
        final(out)@ == old(out)@ + decimal(n as nat),
    decreases n,
{
    if n < 10 {
        out.append(digit_str(n));
    } else {
        push_decimal(out, n / 10);
        out.append(digit_str(n % 10));
        assert(digit_char((n % 10) as nat) == digit_char(n as nat));
    }
}

/// The decimal representation of `n` as a string.
pub fn decimal_string(n: u64) -> (s: String)
    ensures
        s@ == decimal(n as nat),
{
    let mut s = String::new();
    push_decimal(&mut s, n);
    s
}

} // verus!

verus! {

/// `request timed out after {ms}ms`
pub open spec fn timeout_text(ms: nat) -> Seq<char> {
    "request timed out after "@ + decimal(ms) + "ms"@
}

/// `response body too large: {len} bytes (limit: {limit})`
pub open spec fn oversize_text(len: nat, limit: nat) -> Seq<char> {
    "response body too large: "@ + decimal(len) + " bytes (limit: "@ + decimal(limit) + ")"@
}

/// `HTTP {status}: {body}`
pub open spec fn http_status_text(status: nat, body: Seq<char>) -> Seq<char> {
    "HTTP "@ + decimal(status) + ": "@ + body
}

/// The message for a request that the timeout cut short.
pub fn timeout_message(ms: u32) -> (s: String)
    ensures
        s@ == timeout_text(ms as nat),
{
    let mut s = String::from_str("request timed out after ");
    push_decimal(&mut s, ms as u64);
    s.append("ms");
    s
}

/// The message for a response body above the configured limit.
pub fn oversize_message(len: usize, limit: usize) -> (s: String)
    ensures
        s@ == oversize_text(len as nat, limit as nat),
{
    let mut s = String::from_str("response body too large: ");
    push_decimal(&mut s, len as u64);
    s.append(" bytes (limit: ");
    push_decimal(&mut s, limit as u64);
    s.append(")");
    s
}

/// The message for a response with a status outside `200..300`.
pub fn http_status_message(status: u16, body: &str) -> (s: String)
    ensures
        s@ == http_status_text(status as nat, body@),
{
    let mut s = String::from_str("HTTP ");
    push_decimal(&mut s, status as u64);
    s.append(": ");
    s.append(body);
    s
}

} // verus!
