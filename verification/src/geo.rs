//! Which addresses are worth a geolocation lookup, and what a lookup's reply yields.

use vstd::prelude::*;

verus! {

/// An IP address, already parsed: four octets, or eight 16-bit segments.
#[derive(Clone, Copy, Debug)]
pub enum IpAddress {
    V4([u8; 4]),
    V6([u16; 8]),
}

/// An IPv4 address that stays inside a host or a private network: loopback
/// (127.0.0.0/8), private (10.0.0.0/8, 172.16.0.0/12, 192.168.0.0/16) or
/// link-local (169.254.0.0/16).
pub open spec fn local_v4(o: [u8; 4]) -> bool {
    ||| o[0] == 127
    ||| o[0] == 10
    ||| (o[0] == 172 && 16 <= o[1] <= 31)
    ||| (o[0] == 192 && o[1] == 168)
    ||| (o[0] == 169 && o[1] == 254)
}

/// The IPv4 address `o` as one number, most significant octet first.
pub open spec fn v4_number(o: [u8; 4]) -> int {
    o[0] as int * 16777216 + o[1] as int * 65536 + o[2] as int * 256 + o[3] as int
}

/// `o` lies in the block of `size` addresses that starts at `first`.
pub open spec fn in_block(o: [u8; 4], first: [u8; 4], size: int) -> bool {
    v4_number(first) <= v4_number(o) < v4_number(first) + size
}

/// The blocks that stay inside a host or a private network, each from its
/// first address: 127.0.0.0/8, 10.0.0.0/8, 172.16.0.0/12, 192.168.0.0/16 and
/// 169.254.0.0/16.
pub open spec fn in_local_block(o: [u8; 4]) -> bool {
    ||| in_block(o, [127u8, 0u8, 0u8, 0u8], 16777216)
    ||| in_block(o, [10u8, 0u8, 0u8, 0u8], 16777216)
    ||| in_block(o, [172u8, 16u8, 0u8, 0u8], 1048576)
    ||| in_block(o, [192u8, 168u8, 0u8, 0u8], 65536)
    ||| in_block(o, [169u8, 254u8, 0u8, 0u8], 65536)
}

/// Where `o` lies among the blocks of a given leading octet, and of given
/// leading octets.
proof fn lemma_v4_number_bounds(o: [u8; 4])
    ensures
        o[0] as int * 16777216 <= v4_number(o) < (o[0] as int + 1) * 16777216,
        o[0] as int * 16777216 + o[1] as int * 65536 <= v4_number(o) < o[0] as int * 16777216 + (
        o[1] as int + 1) * 65536,
{
    let a = o[0] as int;
    let b = o[1] as int;
    let c = o[2] as int;
    let d = o[3] as int;
    assert(0 <= c * 256 + d < 65536) by (nonlinear_arith)
        requires
            0 <= c < 256,
            0 <= d < 256,
    ;
    assert(0 <= b * 65536 + c * 256 + d < 16777216) by (nonlinear_arith)
        requires
            0 <= b < 256,
            0 <= c * 256 + d < 65536,
    ;
}

/// An IPv4 address is local, for `is_private_ip`, exactly when it lies in one
/// of the local blocks: loopback 127.0.0.0/8, private 10.0.0.0/8,
/// 172.16.0.0/12 and 192.168.0.0/16, or link-local 169.254.0.0/16. So, for
/// one, an address `192.b.c.d` with `b` other than 168 is not local.
pub proof fn local_means_in_a_local_block(o: [u8; 4])
    ensures
        local_v4(o) <==> in_local_block(o),
{
    lemma_v4_number_bounds(o);
    let a = o[0] as int;
    let b = o[1] as int;
    assert(a * 16777216 + b * 65536 == (a * 256 + b) * 65536) by (nonlinear_arith);
    assert(a * 16777216 == (a * 256) * 65536) by (nonlinear_arith);
    assert((a + 1) * 16777216 == a * 16777216 + 16777216) by (nonlinear_arith);
    assert((b + 1) * 65536 == b * 65536 + 65536) by (nonlinear_arith);
    if a < 127 {
        assert((a + 1) * 16777216 <= 127 * 16777216) by (nonlinear_arith)
            requires
                a < 127,
        ;
    }
    if a > 127 {
        assert(a * 16777216 >= 128 * 16777216) by (nonlinear_arith)
            requires
                a > 127,
        ;
    }
    if a < 10 {
        assert((a + 1) * 16777216 <= 10 * 16777216) by (nonlinear_arith)
            requires
                a < 10,
        ;
    }
    if a > 10 {
        assert(a * 16777216 >= 11 * 16777216) by (nonlinear_arith)
            requires
                a > 10,
        ;
    }
    let k = a * 256 + b;
    if k < 172 * 256 + 16 {
        assert((k + 1) * 65536 <= (172 * 256 + 16) * 65536) by (nonlinear_arith)
            requires
                k < 172 * 256 + 16,
        ;
    }
    if k > 172 * 256 + 31 {
        assert(k * 65536 >= (172 * 256 + 32) * 65536) by (nonlinear_arith)
            requires
                k > 172 * 256 + 31,
        ;
    }
    if k < 192 * 256 + 168 {
        assert((k + 1) * 65536 <= (192 * 256 + 168) * 65536) by (nonlinear_arith)
            requires
                k < 192 * 256 + 168,
        ;
    }
    if k > 192 * 256 + 168 {
        assert(k * 65536 >= (192 * 256 + 169) * 65536) by (nonlinear_arith)
            requires
                k > 192 * 256 + 168,
        ;
    }
    if k < 169 * 256 + 254 {
        assert((k + 1) * 65536 <= (169 * 256 + 254) * 65536) by (nonlinear_arith)
            requires
                k < 169 * 256 + 254,
        ;
    }
    if k > 169 * 256 + 254 {
        assert(k * 65536 >= (169 * 256 + 255) * 65536) by (nonlinear_arith)
            requires
                k > 169 * 256 + 254,
        ;
    }
    if 172 * 256 + 16 <= k <= 172 * 256 + 31 {
        assert(a == 172) by (nonlinear_arith)
            requires
                172 * 256 + 16 <= a * 256 + b <= 172 * 256 + 31,
                0 <= b < 256,
        ;
    }
    if k == 192 * 256 + 168 {
        assert(a == 192 && b == 168) by (nonlinear_arith)
            requires
                a * 256 + b == 192 * 256 + 168,
                0 <= b < 256,
        ;
    }
    if k == 169 * 256 + 254 {
        assert(a == 169 && b == 254) by (nonlinear_arith)
            requires
                a * 256 + b == 169 * 256 + 254,
                0 <= b < 256,
        ;
    }
}

/// The IPv6 loopback address `::1`.
pub open spec fn loopback_v6(s: [u16; 8]) -> bool {
    &&& s[0] == 0 && s[1] == 0 && s[2] == 0 && s[3] == 0
    &&& s[4] == 0 && s[5] == 0 && s[6] == 0 && s[7] == 1
}

/// Whether `addr` is a loopback, private or link-local IPv4 address, or the
/// IPv6 loopback address; text that is no address (`None`) is not.
pub fn is_private_ip(addr: Option<IpAddress>) -> (r: bool)
    ensures
        r == match addr {
            Some(IpAddress::V4(o)) => local_v4(o),
            Some(IpAddress::V6(s)) => loopback_v6(s),
            None => false,
        },
        addr matches Some(IpAddress::V4(o)) ==> (r <==> in_local_block(o)),
{
    proof {
        if let Some(IpAddress::V4(o)) = addr {
            local_means_in_a_local_block(o);
        }
    }
    match addr {
        Some(IpAddress::V4(o)) => {
            o[0] == 127 || o[0] == 10 || (o[0] == 172 && 16 <= o[1] && o[1] <= 31) || (o[0] == 192
                && o[1] == 168) || (o[0] == 169 && o[1] == 254)
        },
        Some(IpAddress::V6(s)) => {
            s[0] == 0 && s[1] == 0 && s[2] == 0 && s[3] == 0 && s[4] == 0 && s[5] == 0 && s[6] == 0
                && s[7] == 1
        },
        None => false,
    }
}

/// The country that a lookup's reply names: the code, unless the lookup failed
/// (`None`) or the code is empty.
pub fn country_of(reply: Option<String>) -> (r: Option<String>)
    ensures
        match reply {
            Some(code) => if code@.len() > 0 {
                r matches Some(c) && c@ == code@
            } else {
                r is None
            },
            None => r is None,
        },
{
    match reply {
        Some(code) => {
            if !code.as_str().is_empty() {
                Some(code)
            } else {
                None
            }
        },
        None => None,
    }
}

} // verus!
