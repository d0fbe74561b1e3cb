//! Peer addresses of spoofed connections, and their textual form.

use crate::text::{dec_text, hex_text, push_dec, push_hex};
use vstd::prelude::*;
use vstd::string::StringExecFns;

verus! {

/// A socket address as the target process handed it to `connect`.
///
/// `V4` holds the four octets of the address; `V6` holds the eight 16-bit segments of the address, most significant first.
#[derive(Clone, Copy, Debug, PartialEq, Eq)]
pub enum SockAddr {
    V4 { octets: [u8; 4], port: u16 },
    V6 { ip: [u16; 8], port: u16, flowinfo: u32, scope_id: u32 },
}

/// Dotted-decimal form of four octets.
pub open spec fn v4_text(o: Seq<u8>) -> Seq<char> {
    dec_text(o[0] as nat) + seq!['.'] + dec_text(o[1] as nat) + seq!['.'] + dec_text(o[2] as nat)
        + seq!['.'] + dec_text(o[3] as nat)
}

/// Segments in hexadecimal, separated by `:`.
pub open spec fn hex_list(s: Seq<u16>) -> Seq<char>
    decreases s.len(),
{
    if s.len() == 0 {
        seq![]
    } else if s.len() == 1 {
        hex_text(s[0] as nat)
    } else {
        hex_list(s.drop_last()) + seq![':'] + hex_text(s.last() as nat)
    }
}

/// A run of zero segments: where it starts and how many segments it has.
pub struct ZeroRun {
    pub start: nat,
    pub len: nat,
}

/// After looking at the first `n` segments: the first longest run of zeros
/// seen so far, and the run that ends at segment `n - 1` (empty if that one is nonzero).
pub open spec fn zero_scan(s: Seq<u16>, n: nat) -> (ZeroRun, ZeroRun)
    decreases n,
{
    if n == 0 {
        (ZeroRun { start: 0, len: 0 }, ZeroRun { start: 0, len: 0 })
    } else {
        let (longest, current) = zero_scan(s, (n - 1) as nat);
        if s[n - 1] == 0 {
            let cur = if current.len == 0 {
                ZeroRun { start: (n - 1) as nat, len: 1 }
            } else {
                ZeroRun { start: current.start, len: current.len + 1 }
            };
            (if cur.len > longest.len { cur } else { longest }, cur)
        } else {
            (longest, ZeroRun { start: 0, len: 0 })
        }
    }
}

/// Whether eight segments hold an IPv4-mapped address (`::ffff:a.b.c.d`).
pub open spec fn is_v4_mapped(s: Seq<u16>) -> bool {
    s[0] == 0 && s[1] == 0 && s[2] == 0 && s[3] == 0 && s[4] == 0 && s[5] == 0xffff
}

/// Canonical text of an IPv6 address given by its eight segments: lowercase
/// hexadecimal, the first longest run of two or more zero segments written as
/// `::`, and IPv4-mapped addresses in mixed notation.
pub open spec fn v6_text(s: Seq<u16>) -> Seq<char> {
    if is_v4_mapped(s) {
        seq![':', ':', 'f', 'f', 'f', 'f', ':'] + v4_text(
            seq![(s[6] / 256) as u8, (s[6] % 256) as u8, (s[7] / 256) as u8, (s[7] % 256) as u8],
        )
    } else {
        let z = zero_scan(s, 8).0;
        if z.len > 1 {
            hex_list(s.subrange(0, z.start as int)) + seq![':', ':'] + hex_list(
                s.subrange((z.start + z.len) as int, 8),
            )
        } else {
            hex_list(s)
        }
    }
}

/// Text of a socket address: `a.b.c.d:port`, or `[ip]:port` / `[ip%scope]:port`.
pub open spec fn addr_text(a: SockAddr) -> Seq<char> {
    match a {
        SockAddr::V4 { octets, port } => v4_text(octets@) + seq![':'] + dec_text(port as nat),
        SockAddr::V6 { ip, port, scope_id, .. } => seq!['['] + v6_text(ip@) + (if scope_id == 0 {
            seq![]
        } else {
            seq!['%'] + dec_text(scope_id as nat)
        }) + seq![']', ':'] + dec_text(port as nat),
    }
}

fn push_v4(s: &mut String, a: u8, b: u8, c: u8, d: u8)
    ensures
        final(s)@ == old(s)@ + v4_text(seq![a, b, c, d]),
{
    proof {
        reveal_strlit(".");
    }
    push_dec(s, a as u32);
    s.append(".");
    push_dec(s, b as u32);
    s.append(".");
    push_dec(s, c as u32);
    s.append(".");
    push_dec(s, d as u32);
    assert(s@ =~= old(s)@ + v4_text(seq![a, b, c, d]));
}

/// Appends `ip[lo..hi]` in hexadecimal, separated by `:`.
fn push_hex_list(s: &mut String, ip: &[u16; 8], lo: usize, hi: usize)
    requires
        lo <= hi <= 8,
    ensures
        final(s)@ == old(s)@ + hex_list(ip@.subrange(lo as int, hi as int)),
{
    let ghost start = s@;
    let mut i: usize = lo;
    while i < hi
        invariant
            lo <= i <= hi <= 8,
            ip@.len() == 8,
            s@ == start + hex_list(ip@.subrange(lo as int, i as int)),
        decreases hi - i,
    {
        proof {
            reveal_strlit(":");
        }
        if i > lo {
            s.append(":");
        }
        push_hex(s, ip[i] as u32);
        proof {
            let t = ip@.subrange(lo as int, i + 1);
            assert(t.drop_last() =~= ip@.subrange(lo as int, i as int));
            assert(t.last() == ip@[i as int]);
            if i == lo {
                assert(hex_list(t) == hex_text(t[0] as nat));
            } else {
                assert(hex_list(t) == hex_list(t.drop_last()) + seq![':'] + hex_text(
                    t.last() as nat,
                ));
            }
            assert(s@ =~= start + hex_list(t));
        }
        i = i + 1;
    }
}

/// The first longest run of two or more zero segments, as `(start, len)`; `len` is
/// below two when there is none.
fn longest_zero_run(ip: &[u16; 8]) -> (r: (usize, usize))
    ensures
        r.0 == zero_scan(ip@, 8).0.start,
        r.1 == zero_scan(ip@, 8).0.len,
        r.0 + r.1 <= 8,
{
    let mut longest: (usize, usize) = (0, 0);
    let mut current: (usize, usize) = (0, 0);
    let mut i: usize = 0;
    while i < 8
        invariant
            i <= 8,
            ip@.len() == 8,
            longest.0 == zero_scan(ip@, i as nat).0.start,
            longest.1 == zero_scan(ip@, i as nat).0.len,
            current.0 == zero_scan(ip@, i as nat).1.start,
            current.1 == zero_scan(ip@, i as nat).1.len,
            longest.0 + longest.1 <= i,
            current.0 + current.1 <= i,
            current.1 > 0 ==> current.0 + current.1 == i,
        decreases 8 - i,
    {
        if ip[i] == 0 {
            if current.1 == 0 {
                current = (i, 1);
            } else {
                current = (current.0, current.1 + 1);
            }
            if current.1 > longest.1 {
                longest = current;
            }
        } else {
            current = (0, 0);
        }
        i = i + 1;
    }
    longest
}

fn push_v6(s: &mut String, ip: &[u16; 8])
    ensures
        final(s)@ == old(s)@ + v6_text(ip@),
{
    proof {
        reveal_strlit("::ffff:");
        reveal_strlit("::");
    }
    if ip[0] == 0 && ip[1] == 0 && ip[2] == 0 && ip[3] == 0 && ip[4] == 0 && ip[5] == 0xffff {
        s.append("::ffff:");
        push_v4(s, (ip[6] / 256) as u8, (ip[6] % 256) as u8, (ip[7] / 256) as u8, (ip[7] % 256) as u8);
        assert(s@ =~= old(s)@ + v6_text(ip@));
    } else {
        let (start, len) = longest_zero_run(ip);
        if len > 1 {
            push_hex_list(s, ip, 0, start);
            s.append("::");
            push_hex_list(s, ip, start + len, 8);
            assert(s@ =~= old(s)@ + v6_text(ip@));
        } else {
            push_hex_list(s, ip, 0, 8);
            assert(ip@.subrange(0, 8) =~= ip@);
            assert(s@ =~= old(s)@ + v6_text(ip@));
        }
    }
}

/// Appends the text of `a`.
pub fn push_addr(s: &mut String, a: &SockAddr)
    ensures
        final(s)@ == old(s)@ + addr_text(*a),
{
    proof {
        reveal_strlit(":");
        reveal_strlit("[");
        reveal_strlit("%");
        reveal_strlit("]:");
    }
    match a {
        SockAddr::V4 { octets, port } => {
            push_v4(s, octets[0], octets[1], octets[2], octets[3]);
            assert(seq![octets[0], octets[1], octets[2], octets[3]] =~= octets@);
            s.append(":");
            push_dec(s, *port as u32);
        },
        SockAddr::V6 { ip, port, scope_id, .. } => {
            s.append("[");
            push_v6(s, ip);
            if *scope_id != 0 {
                s.append("%");
                push_dec(s, *scope_id);
            }
            s.append("]:");
            push_dec(s, *port as u32);
        },
    }
    assert(s@ =~= old(s)@ + addr_text(*a));
}

impl SockAddr {
    /// The address as text: `a.b.c.d:port`, or `[ip]:port` / `[ip%scope]:port`.
    pub fn to_string(&self) -> (r: String)
        ensures
            r@ == addr_text(*self),
    {
        let mut s = String::new();
        push_addr(&mut s, self);
        assert(s@ =~= addr_text(*self));
        s
    }
}

} // verus!
