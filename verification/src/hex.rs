//! Uppercase hexadecimal rendering of binary parameters, and its inverse.
//!
//! Binary secrets (EUIs, keys, addresses) travel on the wire as uppercase
//! hex with no separators, two digits per byte, so a fixed-length input
//! always renders to exactly twice as many characters, leading zero bytes
//! included.

use vstd::prelude::*;

verus! {

/// The ASCII character of the hex digit `n`, uppercase.
pub open spec fn hex_digit(n: int) -> u8 {
    if n < 10 {
        (48 + n) as u8
    } else {
        (55 + n) as u8
    }
}

/// Whether `c` is an uppercase ASCII hex digit.
pub open spec fn is_hex_digit(c: u8) -> bool {
    (48 <= c <= 57) || (65 <= c <= 70)
}

/// The value of the hex digit character `c`.
pub open spec fn hex_val(c: u8) -> int {
    if c <= 57 {
        c - 48
    } else {
        c - 55
    }
}

/// The uppercase hex rendering of a byte sequence, two digits per byte.
pub open spec fn hex_of(b: Seq<u8>) -> Seq<u8>
    decreases b.len(),
{
    if b.len() == 0 {
        Seq::empty()
    } else {
        hex_of(b.drop_last()) + seq![
            hex_digit(b.last() as int / 16),
            hex_digit(b.last() as int % 16),
        ]
    }
}

/// The bytes a hex character sequence stands for, or `None` if it is not
/// a well-formed sequence of uppercase hex digit pairs.
pub open spec fn unhex(s: Seq<u8>) -> Option<Seq<u8>>
    decreases s.len(),
{
    if s.len() == 0 {
        Some(Seq::empty())
    } else if s.len() == 1 {
        None
    } else {
        let hi = s[s.len() - 2];
        let lo = s.last();
        if is_hex_digit(hi) && is_hex_digit(lo) {
            match unhex(s.take(s.len() - 2)) {
                Some(p) => Some(p.push((hex_val(hi) * 16 + hex_val(lo)) as u8)),
                None => None,
            }
        } else {
            None
        }
    }
}

/// A hex rendering is twice as long as its input.
pub proof fn lemma_hex_len(b: Seq<u8>)
    ensures
        hex_of(b).len() == 2 * b.len(),
    decreases b.len(),
{
    if b.len() > 0 {
        lemma_hex_len(b.drop_last());
    }
}

/// Round trip: decoding the hex rendering of any byte sequence gives back
/// exactly that sequence, length and leading zero bytes preserved.
pub proof fn lemma_hex_round_trip(b: Seq<u8>)
    ensures
        unhex(hex_of(b)) == Some(b),
    decreases b.len(),
{
    if b.len() == 0 {
        assert(hex_of(b) =~= Seq::<u8>::empty());
        assert(unhex(hex_of(b)) == Some(Seq::<u8>::empty()));
        assert(Seq::<u8>::empty() =~= b);
    } else {
        lemma_hex_round_trip(b.drop_last());
        lemma_hex_len(b.drop_last());
        let s = hex_of(b);
        let x = b.last();
        let hi = hex_digit(x as int / 16);
        let lo = hex_digit(x as int % 16);
        assert(s == hex_of(b.drop_last()) + seq![hi, lo]);
        assert(s.len() == 2 * b.drop_last().len() + 2);
        assert(s[s.len() - 2] == hi && s.last() == lo);
        assert(s.take(s.len() - 2) =~= hex_of(b.drop_last()));
        assert(0 <= x as int / 16 < 16);
        assert(0 <= x as int % 16 < 16);
        assert(is_hex_digit(hi) && is_hex_digit(lo));
        assert(hex_val(hi) == x / 16 && hex_val(lo) == x % 16);
        assert(x / 16 * 16 + x % 16 == x) by {
            vstd::arithmetic::div_mod::lemma_fundamental_div_mod(x as int, 16);
        }
        assert((hex_val(hi) * 16 + hex_val(lo)) as u8 == x);
        assert(unhex(s) == Some(b.drop_last().push(x)));
        assert(b.drop_last().push(x) =~= b);
    }
}

/// Append the two uppercase hex digits of one byte.
pub fn push_hex_byte(out: &mut Vec<u8>, x: u8)
    ensures
        final(out)@ == old(out)@ + seq![hex_digit(x as int / 16), hex_digit(x as int % 16)],
{
    let hi = x / 16;
    let lo = x % 16;
    let c_hi = if hi < 10 {
        48 + hi
    } else {
        55 + hi
    };
    let c_lo = if lo < 10 {
        48 + lo
    } else {
        55 + lo
    };
    out.push(c_hi);
    out.push(c_lo);
    proof {
        assert(c_hi == hex_digit(x as int / 16));
        assert(c_lo == hex_digit(x as int % 16));
        assert(final(out)@ =~= old(out)@ + seq![hex_digit(x as int / 16), hex_digit(x as int % 16)]);
    }
}

/// Append the uppercase hex rendering of a fixed-length binary parameter.
pub fn push_hex_arr<const N: usize>(out: &mut Vec<u8>, bytes: &[u8; N])
    ensures
        final(out)@ == old(out)@ + hex_of(bytes@),
{
    let mut i: usize = 0;
    while i < N
        invariant
            i <= N,
            out@ == old(out)@ + hex_of(bytes@.take(i as int)),
        decreases N - i,
    {
        push_hex_byte(out, bytes[i]);
        proof {
            let t = bytes@.take(i + 1);
            assert(t.drop_last() =~= bytes@.take(i as int));
            assert(t.last() == bytes@[i as int]);
            assert(hex_of(t) == hex_of(bytes@.take(i as int)) + seq![
                hex_digit(bytes@[i as int] as int / 16),
                hex_digit(bytes@[i as int] as int % 16),
            ]);
            assert(out@ =~= old(out)@ + hex_of(t));
        }
        i = i + 1;
    }
    proof {
        assert(bytes@.take(N as int) =~= bytes@);
    }
}

/// Append the uppercase hex rendering of a byte vector.
pub fn push_hex_vec(out: &mut Vec<u8>, bytes: &Vec<u8>)
    ensures
        final(out)@ == old(out)@ + hex_of(bytes@),
{
    let n = bytes.len();
    let mut i: usize = 0;
    while i < n
        invariant
            i <= n == bytes@.len(),
            out@ == old(out)@ + hex_of(bytes@.take(i as int)),
        decreases n - i,
    {
        push_hex_byte(out, bytes[i]);
        proof {
            let t = bytes@.take(i + 1);
            assert(t.drop_last() =~= bytes@.take(i as int));
            assert(t.last() == bytes@[i as int]);
            assert(hex_of(t) == hex_of(bytes@.take(i as int)) + seq![
                hex_digit(bytes@[i as int] as int / 16),
                hex_digit(bytes@[i as int] as int % 16),
            ]);
            assert(out@ =~= old(out)@ + hex_of(t));
        }
        i = i + 1;
    }
    proof {
        assert(bytes@.take(n as int) =~= bytes@);
    }
}

} // verus!
