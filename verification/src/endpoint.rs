//! A peer endpoint on the LAN, held as plain values so contracts can speak of
//! it. The surrounding process converts between this and its socket address
//! type.

use vstd::prelude::*;

verus! {

/// A server proxy endpoint: an IPv4 address (as its 32-bit value) and a TCP
/// port.
#[derive(Clone, Copy, PartialEq, Eq, Structural, Debug, Hash)]
pub struct Endpoint {
    /// The IPv4 address, most significant octet first.
    pub ip: u32,
    /// The TCP port.
    pub port: u16,
}

impl Endpoint {
    /// Builds an endpoint from its address and port.
    pub fn new(ip: u32, port: u16) -> (e: Endpoint)
        ensures
            e == (Endpoint { ip, port }),
    {
        Endpoint { ip, port }
    }
}

/// The decimal digit characters in order.
pub open spec fn digit_of(d: int) -> char {
    "0123456789"@[d]
}

/// The decimal rendering of a number, most significant digit first.
pub open spec fn dec_of(n: nat) -> Seq<char>
    decreases n,
{
    if n < 10 {
        seq![digit_of(n as int)]
    } else {
        dec_of(n / 10).push(digit_of((n % 10) as int))
    }
}

/// Appends one decimal digit.
fn append_digit(s: &mut String, d: u32)
    requires
        d < 10,
    ensures
        final(s)@ == old(s)@.push(digit_of(d as int)),
{
    let table = "0123456789";
    proof {
        reveal_strlit("0123456789");
    }
    let digit = table.substring_char(d as usize, d as usize + 1);
    s.append(digit);
    proof {
        assert(digit@ =~= seq![digit_of(d as int)]);
        assert(old(s)@ + digit@ =~= old(s)@.push(digit_of(d as int)));
    }
}

/// Renders a number in decimal.
fn u32_dec(n: u32) -> (r: String)
    ensures
        r@ == dec_of(n as nat),
    decreases n,
{
    if n < 10 {
        let mut s = String::new();
        append_digit(&mut s, n);
        proof {
            assert(s@ =~= dec_of(n as nat));
        }
        s
    } else {
        proof {
            assert(n / 10 < n && n % 10 < 10) by (nonlinear_arith)
                requires
                    n >= 10,
            ;
        }
        let mut s = u32_dec(n / 10);
        append_digit(&mut s, n % 10);
        s
    }
}

/// The URL under which an endpoint is addressed: the scheme, the dotted
/// decimal quad of the address, and the decimal port.
pub open spec fn spec_endpoint_url(secure: bool, e: Endpoint) -> Seq<char> {
    (if secure {
        "https://"@
    } else {
        "http://"@
    }) + dec_of(((e.ip >> 24) & 0xff) as nat) + seq!['.'] + dec_of(((e.ip >> 16) & 0xff) as nat)
        + seq!['.'] + dec_of(((e.ip >> 8) & 0xff) as nat) + seq!['.'] + dec_of((e.ip & 0xff) as nat)
        + seq![':'] + dec_of(e.port as nat)
}

/// Renders the base URL of an endpoint, for the tunnel and the handshake.
pub fn endpoint_url(secure: bool, e: Endpoint) -> (r: String)
    ensures
        r@ == spec_endpoint_url(secure, e),
{
    let mut r = if secure {
        String::from_str("https://")
    } else {
        String::from_str("http://")
    };
    let o1 = u32_dec((e.ip >> 24) & 0xff);
    let o2 = u32_dec((e.ip >> 16) & 0xff);
    let o3 = u32_dec((e.ip >> 8) & 0xff);
    let o4 = u32_dec(e.ip & 0xff);
    let port = u32_dec(e.port as u32);
    r.append(o1.as_str());
    r.append(".");
    r.append(o2.as_str());
    r.append(".");
    r.append(o3.as_str());
    r.append(".");
    r.append(o4.as_str());
    r.append(":");
    r.append(port.as_str());
    proof {
        reveal_strlit(".");
        reveal_strlit(":");
        assert(r@ =~= spec_endpoint_url(secure, e));
    }
    r
}

} // verus!
