//! Verified classification of literal-IP hosts into address classes.
//!
//! Hosts arrive in the canonical form the URL parser renders: IPv4 as
//! four decimal octets, IPv6 in brackets with hexadecimal groups. The
//! classes follow the standard ranges: loopback (127.0.0.0/8, ::1),
//! link-local (169.254.0.0/16, fe80::/10), and private (the RFC 1918
//! blocks and fc00::/7).

use vstd::prelude::*;

use crate::num::{all_digits, digits_val, is_digit, parse_u64};
use crate::text::{chars_eq_str, split_char, split_on, subrange_chars};

verus! {

/// Whether `c` is a lower-case hexadecimal digit.
pub open spec fn is_hex_digit(c: char) -> bool {
    is_digit(c) || ('a' <= c <= 'f')
}

/// The value of a hexadecimal digit.
pub open spec fn hex_digit_val(c: char) -> nat {
    if is_digit(c) {
        (c as int - '0' as int) as nat
    } else {
        (c as int - 'a' as int + 10) as nat
    }
}

/// Whether every character of `s` is a hexadecimal digit.
pub open spec fn all_hex(s: Seq<char>) -> bool {
    forall|i: int| 0 <= i < s.len() ==> is_hex_digit(#[trigger] s[i])
}

/// The number that a hexadecimal string denotes.
pub open spec fn hex_val(s: Seq<char>) -> nat
    decreases s.len(),
{
    if s.len() == 0 {
        0
    } else {
        hex_val(s.drop_last()) * 16 + hex_digit_val(s.last())
    }
}

/// Sixteen to the `i`.
pub open spec fn pow16(i: nat) -> nat
    decreases i,
{
    if i == 0 {
        1
    } else {
        16 * pow16((i - 1) as nat)
    }
}

/// Reads at most four hexadecimal digits as a number.
fn parse_hex_group(v: &Vec<char>) -> (r: Option<u32>)
    ensures
        match r {
            Some(n) => 1 <= v@.len() <= 4 && all_hex(v@) && hex_val(v@) == n as nat,
            None => v@.len() == 0 || v@.len() > 4 || !all_hex(v@),
        },
{
    let n = v.len();
    if n == 0 || n > 4 {
        return None;
    }
    let mut acc: u32 = 0;
    let mut i: usize = 0;
    proof {
        assert(pow16(0) == 1);
        assert(pow16(1) == 16);
        assert(pow16(2) == 256);
        assert(pow16(3) == 4096);
        assert(pow16(4) == 65536);
    }
    while i < n
        invariant
            n == v@.len(),
            1 <= n <= 4,
            i <= n,
            all_hex(v@.subrange(0, i as int)),
            acc as nat == hex_val(v@.subrange(0, i as int)),
            acc < 65536,
            pow16(0) == 1 && pow16(1) == 16 && pow16(2) == 256 && pow16(3) == 4096 && pow16(4)
                == 65536,
            (acc as nat) < pow16(i as nat),
        decreases n - i,
    {
        let c = v[i];
        let d: u32 = if '0' <= c && c <= '9' {
            c as u32 - '0' as u32
        } else if 'a' <= c && c <= 'f' {
            c as u32 - 'a' as u32 + 10
        } else {
            return None;
        };
        proof {
            assert(v@.subrange(0, i + 1).drop_last() =~= v@.subrange(0, i as int));
            assert(v@.subrange(0, i + 1).last() == v@[i as int]);
            assert(acc * 16 + d < pow16(i as nat + 1)) by (nonlinear_arith)
                requires
                    (acc as nat) < pow16(i as nat),
                    d < 16,
                    pow16(i as nat + 1) == 16 * pow16(i as nat),
            ;
            assert(pow16(i as nat + 1) <= pow16(4)) by {
                if i == 0 {
                } else if i == 1 {
                } else if i == 2 {
                } else {
                    assert(i == 3);
                }
            }
        }
        acc = acc * 16 + d;
        i = i + 1;
    }
    proof {
        assert(v@.subrange(0, n as int) =~= v@);
    }
    Some(acc)
}

/// Whether a piece of text is a decimal octet.
pub open spec fn valid_octet(p: Seq<char>) -> bool {
    p.len() >= 1 && all_digits(p) && digits_val(p) <= 255
}

/// The four octets of a literal IPv4 host, when the host is one.
pub open spec fn spec_ipv4(host: Seq<char>) -> Option<(nat, nat, nat, nat)> {
    let parts = split_on(host, '.');
    if parts.len() == 4 && valid_octet(parts[0]) && valid_octet(parts[1]) && valid_octet(parts[2])
        && valid_octet(parts[3]) {
        Some((digits_val(parts[0]), digits_val(parts[1]), digits_val(parts[2]), digits_val(parts[3])))
    } else {
        None
    }
}

/// The first hexadecimal group of a bracketed literal IPv6 host, when
/// the host is bracketed and opens with such a group.
pub open spec fn spec_v6_group(host: Seq<char>) -> Option<nat> {
    if host.len() >= 2 && host[0] == '[' {
        let g = split_on(host.skip(1), ':')[0];
        if 1 <= g.len() <= 4 && all_hex(g) {
            Some(hex_val(g))
        } else {
            None
        }
    } else {
        None
    }
}

/// Whether a literal-IP host is a loopback address.
pub open spec fn spec_is_loopback(host: Seq<char>) -> bool {
    (match spec_ipv4(host) {
        Some(o) => o.0 == 127,
        None => false,
    }) || host == "[::1]"@
}

/// Whether a literal-IP host is a link-local address.
pub open spec fn spec_is_link_local(host: Seq<char>) -> bool {
    (match spec_ipv4(host) {
        Some(o) => o.0 == 169 && o.1 == 254,
        None => false,
    }) || (match spec_v6_group(host) {
        Some(g) => 0xfe80 <= g <= 0xfebf,
        None => false,
    })
}

/// Whether a literal-IP host is a private address: the RFC 1918 blocks
/// or a unique-local IPv6 address.
pub open spec fn spec_is_private(host: Seq<char>) -> bool {
    (match spec_ipv4(host) {
        Some(o) => o.0 == 10 || (o.0 == 172 && 16 <= o.1 <= 31) || (o.0 == 192 && o.1 == 168),
        None => false,
    }) || (match spec_v6_group(host) {
        Some(g) => 0xfc00 <= g <= 0xfdff,
        None => false,
    })
}

/// The four octets of a literal IPv4 host, when the host is one.
fn host_ipv4(host: &Vec<char>) -> (r: Option<(u8, u8, u8, u8)>)
    ensures
        match r {
            Some(o) => spec_ipv4(host@) == Some(
                (o.0 as nat, o.1 as nat, o.2 as nat, o.3 as nat),
            ),
            None => spec_ipv4(host@) is None,
        },
{
    let parts = split_char(host, '.');
    if parts.len() != 4 {
        return None;
    }
    proof {
        assert(parts@.map_values(|p: Vec<char>| p@)[0] == parts@[0]@);
        assert(parts@.map_values(|p: Vec<char>| p@)[1] == parts@[1]@);
        assert(parts@.map_values(|p: Vec<char>| p@)[2] == parts@[2]@);
        assert(parts@.map_values(|p: Vec<char>| p@)[3] == parts@[3]@);
    }
    let mut octets: Vec<u8> = Vec::new();
    let mut i: usize = 0;
    while i < 4
        invariant
            parts@.len() == 4,
            parts@.map_values(|p: Vec<char>| p@) == split_on(host@, '.'),
            i <= 4,
            octets@.len() == i,
            forall|j: int|
                0 <= j < i ==> valid_octet(#[trigger] split_on(host@, '.')[j]) && octets@[j] as nat
                    == digits_val(split_on(host@, '.')[j]),
        decreases 4 - i,
    {
        proof {
            assert(split_on(host@, '.')[i as int] == parts@[i as int]@);
        }
        let piece = &parts[i];
        if piece.len() == 0 {
            return None;
        }
        match parse_u64(piece) {
            Some(val) => {
                if val > 255 {
                    return None;
                }
                octets.push(val as u8);
            },
            None => {
                proof {
                    if all_digits(piece@) && digits_val(piece@) > u64::MAX {
                        assert(digits_val(piece@) > 255);
                    }
                }
                return None;
            },
        }
        i = i + 1;
    }
    Some((octets[0], octets[1], octets[2], octets[3]))
}

/// The first hexadecimal group of a bracketed literal IPv6 host.
fn host_v6_group(host: &Vec<char>) -> (r: Option<u32>)
    ensures
        match r {
            Some(g) => spec_v6_group(host@) == Some(g as nat),
            None => spec_v6_group(host@) is None,
        },
{
    if host.len() < 2 {
        return None;
    }
    if host[0] != '[' {
        return None;
    }
    let inner = subrange_chars(host, 1, host.len());
    proof {
        assert(inner@ =~= host@.skip(1));
    }
    let parts = split_char(&inner, ':');
    proof {
        assert(parts@.map_values(|p: Vec<char>| p@)[0] == parts@[0]@);
    }
    parse_hex_group(&parts[0])
}

/// Whether a literal-IP host is a loopback address.
pub fn is_loopback_host(host: &Vec<char>) -> (r: bool)
    ensures
        r == spec_is_loopback(host@),
{
    let v4 = match host_ipv4(host) {
        Some(o) => o.0 == 127,
        None => false,
    };
    v4 || chars_eq_str(host, "[::1]")
}

/// Whether a literal-IP host is a link-local address.
pub fn is_link_local_host(host: &Vec<char>) -> (r: bool)
    ensures
        r == spec_is_link_local(host@),
{
    let v4 = match host_ipv4(host) {
        Some(o) => o.0 == 169 && o.1 == 254,
        None => false,
    };
    let v6 = match host_v6_group(host) {
        Some(g) => 0xfe80 <= g && g <= 0xfebf,
        None => false,
    };
    v4 || v6
}

/// Whether a literal-IP host is a private address.
pub fn is_private_host(host: &Vec<char>) -> (r: bool)
    ensures
        r == spec_is_private(host@),
{
    let v4 = match host_ipv4(host) {
        Some(o) => o.0 == 10 || (o.0 == 172 && 16 <= o.1 && o.1 <= 31) || (o.0 == 192 && o.1
            == 168),
        None => false,
    };
    let v6 = match host_v6_group(host) {
        Some(g) => 0xfc00 <= g && g <= 0xfdff,
        None => false,
    };
    v4 || v6
}

} // verus!
