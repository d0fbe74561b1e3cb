//! Rendering of integers and byte sequences as text.

use vstd::prelude::*;
use vstd::string::StringExecFns;

verus! {

/// The lowercase hexadecimal digit of value `d` (also a decimal digit when `d < 10`).
pub open spec fn digit_char(d: nat) -> char {
    if d == 0 {
        '0'
    } else if d == 1 {
        '1'
    } else if d == 2 {
        '2'
    } else if d == 3 {
        '3'
    } else if d == 4 {
        '4'
    } else if d == 5 {
        '5'
    } else if d == 6 {
        '6'
    } else if d == 7 {
        '7'
    } else if d == 8 {
        '8'
    } else if d == 9 {
        '9'
    } else if d == 10 {
        'a'
    } else if d == 11 {
        'b'
    } else if d == 12 {
        'c'
    } else if d == 13 {
        'd'
    } else if d == 14 {
        'e'
    } else {
        'f'
    }
}

/// `n` written in decimal, without leading zeros.
pub open spec fn dec_text(n: nat) -> Seq<char>
    decreases n,
{
    if n < 10 {
        seq![digit_char(n)]
    } else {
        dec_text(n / 10).push(digit_char(n % 10))
    }
}

/// `n` written in lowercase hexadecimal, without leading zeros.
pub open spec fn hex_text(n: nat) -> Seq<char>
    decreases n,
{
    if n < 16 {
        seq![digit_char(n)]
    } else {
        hex_text(n / 16).push(digit_char(n % 16))
    }
}

/// The values of `b` in decimal, separated by `", "`.
pub open spec fn dec_list(b: Seq<u8>) -> Seq<char>
    decreases b.len(),
{
    if b.len() == 0 {
        seq![]
    } else if b.len() == 1 {
        dec_text(b[0] as nat)
    } else {
        dec_list(b.drop_last()) + seq![',', ' '] + dec_text(b.last() as nat)
    }
}

/// A byte sequence rendered as a bracketed list of decimal values: `[1, 2, 3]`.
pub open spec fn bytes_text(b: Seq<u8>) -> Seq<char> {
    seq!['['] + dec_list(b) + seq![']']
}

/// Appends the digit of value `d`.
pub fn push_digit(s: &mut String, d: u32)
    requires
        d < 16,
    ensures
        final(s)@ == old(s)@.push(digit_char(d as nat)),
{
    let t: &str = if d == 0 {
        "0"
    } else if d == 1 {
        "1"
    } else if d == 2 {
        "2"
    } else if d == 3 {
        "3"
    } else if d == 4 {
        "4"
    } else if d == 5 {
        "5"
    } else if d == 6 {
        "6"
    } else if d == 7 {
        "7"
    } else if d == 8 {
        "8"
    } else if d == 9 {
        "9"
    } else if d == 10 {
        "a"
    } else if d == 11 {
        "b"
    } else if d == 12 {
        "c"
    } else if d == 13 {
        "d"
    } else if d == 14 {
        "e"
    } else {
        "f"
    };
    proof {
        reveal_strlit("0");
        reveal_strlit("1");
        reveal_strlit("2");
        reveal_strlit("3");
        reveal_strlit("4");
        reveal_strlit("5");
        reveal_strlit("6");
        reveal_strlit("7");
        reveal_strlit("8");
        reveal_strlit("9");
        reveal_strlit("a");
        reveal_strlit("b");
        reveal_strlit("c");
        reveal_strlit("d");
        reveal_strlit("e");
        reveal_strlit("f");
    }
    s.append(t);
    assert(t@ =~= seq![digit_char(d as nat)]);
    assert(s@ =~= old(s)@.push(digit_char(d as nat)));
}

/// Appends `n` in decimal.
pub fn push_dec(s: &mut String, n: u32)
    ensures
        final(s)@ == old(s)@ + dec_text(n as nat),
    decreases n,
{
    if n >= 10 {
        push_dec(s, n / 10);
        push_digit(s, n % 10);
        assert(s@ =~= old(s)@ + dec_text(n as nat));
    } else {
        push_digit(s, n);
        assert(s@ =~= old(s)@ + dec_text(n as nat));
    }
}

/// Appends `n` in lowercase hexadecimal.
pub fn push_hex(s: &mut String, n: u32)
    ensures
        final(s)@ == old(s)@ + hex_text(n as nat),
    decreases n,
{
    if n >= 16 {
        push_hex(s, n / 16);
        push_digit(s, n % 16);
        assert(s@ =~= old(s)@ + hex_text(n as nat));
    } else {
        push_digit(s, n);
        assert(s@ =~= old(s)@ + hex_text(n as nat));
    }
}

/// Appends `b` as a bracketed list of decimal values.
pub fn push_bytes(s: &mut String, b: &[u8])
    ensures
        final(s)@ == old(s)@ + bytes_text(b@),
{
    proof {
        reveal_strlit("[");
        reveal_strlit("]");
        reveal_strlit(", ");
    }
    s.append("[");
    let ghost start = s@;
    let mut i: usize = 0;
    while i < b.len()
        invariant
            i <= b@.len(),
            s@ == start + dec_list(b@.take(i as int)),
        decreases b@.len() - i,
    {
        proof {
            reveal_strlit(", ");
        }
        if i > 0 {
            s.append(", ");
        }
        push_dec(s, b[i] as u32);
        proof {
            let t = b@.take(i + 1);
            assert(t.drop_last() =~= b@.take(i as int));
            assert(t.last() == b@[i as int]);
            if i == 0 {
                assert(dec_list(t) == dec_text(t[0] as nat));
            } else {
                assert(dec_list(t) == dec_list(b@.take(i as int)) + seq![',', ' '] + dec_text(
                    b@[i as int] as nat,
                ));
            }
            assert(s@ =~= start + dec_list(t));
        }
        i = i + 1;
    }
    assert(b@.take(b@.len() as int) =~= b@);
    s.append("]");
    assert(s@ =~= old(s)@ + bytes_text(b@));
}

/// `b` as a bracketed list of decimal values, as the capture log writes payloads.
pub fn bytes_to_string(b: &[u8]) -> (r: String)
    ensures
        r@ == bytes_text(b@),
{
    let mut s = String::new();
    push_bytes(&mut s, b);
    assert(s@ =~= bytes_text(b@));
    s
}

} // verus!
