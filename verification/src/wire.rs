//! Byte-level building blocks of the wire format: the protocol's fixed
//! tokens, decimal digit runs, and the line terminator scan.

use vstd::prelude::*;

verus! {

/// Carriage return.
pub const CR: u8 = 13;

/// Line feed.
pub const LF: u8 = 10;

/// The line terminator sequence, `\r\n`.
pub const CRLF: [u8; 2] = [13, 10];

/// `at+band=`
pub const TOK_AT_BAND: [u8; 8] = [97, 116, 43, 98, 97, 110, 100, 61];

/// `at+mode=`
pub const TOK_AT_MODE: [u8; 8] = [97, 116, 43, 109, 111, 100, 101, 61];

/// `at+join=`
pub const TOK_AT_JOIN: [u8; 8] = [97, 116, 43, 106, 111, 105, 110, 61];

/// `at+set_config=`
pub const TOK_AT_SET_CONFIG: [u8; 14] = [
    97,
    116,
    43,
    115,
    101,
    116,
    95,
    99,
    111,
    110,
    102,
    105,
    103,
    61,
];

/// `at+send=`
pub const TOK_AT_SEND: [u8; 8] = [97, 116, 43, 115, 101, 110, 100, 61];

/// `EU868`
pub const TOK_EU868: [u8; 5] = [69, 85, 56, 54, 56];

/// `US915`
pub const TOK_US915: [u8; 5] = [85, 83, 57, 49, 53];

/// `AU915`
pub const TOK_AU915: [u8; 5] = [65, 85, 57, 49, 53];

/// `KR920`
pub const TOK_KR920: [u8; 5] = [75, 82, 57, 50, 48];

/// `AS923`
pub const TOK_AS923: [u8; 5] = [65, 83, 57, 50, 51];

/// `IN865`
pub const TOK_IN865: [u8; 5] = [73, 78, 56, 54, 53];

/// `otaa`
pub const TOK_OTAA: [u8; 4] = [111, 116, 97, 97];

/// `abp`
pub const TOK_ABP: [u8; 3] = [97, 98, 112];

/// `dev_eui`
pub const TOK_DEV_EUI: [u8; 7] = [100, 101, 118, 95, 101, 117, 105];

/// `app_eui`
pub const TOK_APP_EUI: [u8; 7] = [97, 112, 112, 95, 101, 117, 105];

/// `app_key`
pub const TOK_APP_KEY: [u8; 7] = [97, 112, 112, 95, 107, 101, 121];

/// `dev_addr`
pub const TOK_DEV_ADDR: [u8; 8] = [100, 101, 118, 95, 97, 100, 100, 114];

/// `apps_key`
pub const TOK_APPS_KEY: [u8; 8] = [97, 112, 112, 115, 95, 107, 101, 121];

/// `nwks_key`
pub const TOK_NWKS_KEY: [u8; 8] = [110, 119, 107, 115, 95, 107, 101, 121];

/// `OK`
pub const TOK_OK: [u8; 2] = [79, 75];

/// `ERROR`
pub const TOK_ERROR: [u8; 5] = [69, 82, 82, 79, 82];

/// `Initialized=`
pub const TOK_INITIALIZED: [u8; 12] = [73, 110, 105, 116, 105, 97, 108, 105, 122, 101, 100, 61];

/// `Recv=`
pub const TOK_RECV: [u8; 5] = [82, 101, 99, 118, 61];

/// `:`
pub const COLON: u8 = 58;

/// `,`
pub const COMMA: u8 = 44;

/// `-`
pub const MINUS: u8 = 45;

/// Whether `b` is an ASCII decimal digit.
pub open spec fn is_digit(b: u8) -> bool {
    48 <= b <= 57
}

/// The value of a sequence of ASCII decimal digits, most significant first.
pub open spec fn dec_val(s: Seq<u8>) -> int
    decreases s.len(),
{
    if s.len() == 0 {
        0
    } else {
        dec_val(s.drop_last()) * 10 + s.last() - 48
    }
}

/// The ASCII decimal rendering of `n`, without leading zeros (`0` for 0).
pub open spec fn dec_of(n: int) -> Seq<u8>
    decreases n,
{
    if n < 10 {
        seq![(48 + if n >= 0 { n } else { 0 }) as u8]
    } else {
        dec_of(n / 10) + seq![(48 + n % 10) as u8]
    }
}

/// The length of the maximal run of decimal digits starting at `i`.
pub open spec fn digits_run(s: Seq<u8>, i: int) -> int
    decreases s.len() - i,
{
    if i < 0 || i >= s.len() || !is_digit(s[i]) {
        0
    } else {
        1 + digits_run(s, i + 1)
    }
}

/// The least index at or after `i` where the line terminator starts, or -1
/// if the terminator does not occur there.
pub open spec fn find_crlf_from(s: Seq<u8>, i: int) -> int
    decreases s.len() - i,
{
    if i < 0 || i + 2 > s.len() {
        -1
    } else if s[i] == CR && s[i + 1] == LF {
        i
    } else {
        find_crlf_from(s, i + 1)
    }
}

/// Whether `p` is a prefix of `s`.
pub open spec fn starts_with(s: Seq<u8>, p: Seq<u8>) -> bool {
    p.len() <= s.len() && s.subrange(0, p.len() as int) == p
}

/// Every byte inside a digit run is a digit, and the byte just past a run
/// (if any) is not.
pub proof fn lemma_digits_run_bytes(s: Seq<u8>, i: int, j: int)
    requires
        0 <= i <= j,
        j < i + digits_run(s, i),
    ensures
        j < s.len(),
        is_digit(s[j]),
    decreases j - i,
{
    if j > i {
        lemma_digits_run_bytes(s, i + 1, j);
    }
}

/// The byte just past a digit run, if there is one, is not a digit.
pub proof fn lemma_digits_run_end(s: Seq<u8>, i: int)
    requires
        0 <= i,
        i + digits_run(s, i) < s.len(),
    ensures
        !is_digit(s[i + digits_run(s, i)]),
    decreases s.len() - i,
{
    if i < s.len() && is_digit(s[i]) {
        lemma_digits_run_end(s, i + 1);
    }
}

/// The rendering of `n` consists of digits, is non-empty, and reads back as
/// `n`; up to 999 it takes at most three digits.
pub proof fn lemma_dec_of_props(n: int)
    requires
        n >= 0,
    ensures
        dec_of(n).len() >= 1,
        forall|j: int| 0 <= j < dec_of(n).len() ==> is_digit(#[trigger] dec_of(n)[j]),
        dec_val(dec_of(n)) == n,
        n < 10 ==> dec_of(n).len() == 1,
        n < 100 ==> dec_of(n).len() <= 2,
        n < 1000 ==> dec_of(n).len() <= 3,
    decreases n,
{
    if n < 10 {
        let s = dec_of(n);
        assert(s == seq![(48 + n) as u8]);
        assert(((48 + n) as u8) as int == 48 + n);
        assert(s.drop_last() =~= Seq::<u8>::empty());
        assert(dec_val(Seq::<u8>::empty()) == 0);
        assert(s.last() == (48 + n) as u8);
        assert(dec_val(s) == dec_val(s.drop_last()) * 10 + s.last() - 48);
        assert(dec_val(dec_of(n)) == n);
    } else {
        lemma_dec_of_props(n / 10);
        let head = dec_of(n / 10);
        let d = (48 + n % 10) as u8;
        assert(dec_of(n) == head + seq![d]);
        assert((head + seq![d]).drop_last() =~= head);
        assert((head + seq![d]).last() == d);
        assert(dec_val(dec_of(n)) == dec_val(head) * 10 + n % 10);
        assert(dec_val(head) * 10 + n % 10 == n) by {
            assert(n / 10 * 10 + n % 10 == n);
        }
        assert(forall|j: int| 0 <= j < dec_of(n).len() ==> is_digit(#[trigger] dec_of(n)[j]));
    }
}

/// Append a fixed byte string to `out`.
pub fn push_bytes<const N: usize>(out: &mut Vec<u8>, bytes: &[u8; N])
    ensures
        final(out)@ == old(out)@ + bytes@,
{
    let mut i: usize = 0;
    while i < N
        invariant
            i <= N,
            out@ == old(out)@ + bytes@.take(i as int),
        decreases N - i,
    {
        out.push(bytes[i]);
        proof {
            assert(bytes@.take(i + 1) =~= bytes@.take(i as int) + seq![bytes@[i as int]]);
        }
        i = i + 1;
    }
    proof {
        assert(bytes@.take(N as int) =~= bytes@);
    }
}

/// Whether the buffer starts with the given token.
pub fn has_prefix<const N: usize>(s: &Vec<u8>, tok: &[u8; N]) -> (r: bool)
    ensures
        r == starts_with(s@, tok@),
{
    if s.len() < N {
        proof {
            assert(!starts_with(s@, tok@));
        }
        return false;
    }
    let mut i: usize = 0;
    while i < N
        invariant
            i <= N <= s@.len(),
            forall|j: int| 0 <= j < i ==> s@[j] == tok@[j],
        decreases N - i,
    {
        if s[i] != tok[i] {
            proof {
                assert(s@.subrange(0, N as int)[i as int] != tok@[i as int]);
            }
            return false;
        }
        i = i + 1;
    }
    proof {
        assert(s@.subrange(0, N as int) =~= tok@);
    }
    true
}

/// Whether `s[from .. from + N]` equals the given token.
pub fn range_eq<const N: usize>(s: &Vec<u8>, from: usize, tok: &[u8; N]) -> (r: bool)
    requires
        from + N <= s@.len(),
    ensures
        r == (s@.subrange(from as int, from + N) == tok@),
{
    let n = s.len();
    let mut i: usize = 0;
    while i < N
        invariant
            i <= N,
            from + N <= n == s@.len(),
            forall|j: int| 0 <= j < i ==> s@[from + j] == tok@[j],
        decreases N - i,
    {
        if s[from + i] != tok[i] {
            proof {
                assert(s@.subrange(from as int, from + N)[i as int] != tok@[i as int]);
            }
            return false;
        }
        i = i + 1;
    }
    proof {
        assert(s@.subrange(from as int, from + N) =~= tok@);
    }
    true
}

/// The length of the digit run starting at `from`.
pub fn scan_digits(s: &Vec<u8>, from: usize) -> (r: usize)
    requires
        from <= s@.len(),
    ensures
        r == digits_run(s@, from as int),
        from + r <= s@.len(),
{
    let mut i: usize = from;
    while i < s.len() && s[i] >= 48 && s[i] <= 57
        invariant
            from <= i <= s@.len(),
            digits_run(s@, from as int) == i - from + digits_run(s@, i as int),
        decreases s@.len() - i,
    {
        i = i + 1;
    }
    i - from
}

/// The value of the digit run `s[from .. from + count]`, read as a decimal
/// number.
pub fn dec_value(s: &Vec<u8>, from: usize, count: usize) -> (v: u32)
    requires
        from + count <= s@.len(),
        1 <= count <= 3,
        forall|j: int| from <= j < from + count ==> is_digit(#[trigger] s@[j]),
    ensures
        v == dec_val(s@.subrange(from as int, from + count)),
        v < 1000,
{
    let n = s.len();
    proof {
        assert(from + count <= n);
    }
    let seg = Ghost(s@.subrange(from as int, from + count as int));
    if count == 1 {
        let d0 = s[from];
        proof {
            assert(is_digit(s@[from as int]));
            assert(seg@.drop_last() =~= Seq::<u8>::empty());
            assert(dec_val(Seq::<u8>::empty()) == 0);
            assert(seg@.last() == s@[from as int]);
            assert(dec_val(seg@) == s@[from as int] - 48);
        }
        (d0 - 48) as u32
    } else if count == 2 {
        let d0 = s[from];
        let d1 = s[from + 1];
        proof {
            assert(is_digit(s@[from as int]));
            assert(is_digit(s@[from + 1]));
            let seg1 = seg@.drop_last();
            assert(seg1 =~= s@.subrange(from as int, from + 1));
            assert(seg1.drop_last() =~= Seq::<u8>::empty());
            assert(dec_val(Seq::<u8>::empty()) == 0);
            assert(seg1.last() == s@[from as int]);
            assert(dec_val(seg1) == s@[from as int] - 48);
            assert(seg@.last() == s@[from + 1]);
            assert(dec_val(seg@) == dec_val(seg1) * 10 + s@[from + 1] - 48);
        }
        (d0 - 48) as u32 * 10 + (d1 - 48) as u32
    } else {
        let d0 = s[from];
        let d1 = s[from + 1];
        let d2 = s[from + 2];
        proof {
            assert(is_digit(s@[from as int]));
            assert(is_digit(s@[from + 1]));
            assert(is_digit(s@[from + 2]));
            let seg1 = seg@.drop_last();
            let seg2 = seg1.drop_last();
            assert(seg1 =~= s@.subrange(from as int, from + 2));
            assert(seg2 =~= s@.subrange(from as int, from + 1));
            assert(seg2.drop_last() =~= Seq::<u8>::empty());
            assert(dec_val(Seq::<u8>::empty()) == 0);
            assert(seg2.last() == s@[from as int]);
            assert(dec_val(seg2) == s@[from as int] - 48);
            assert(seg1.last() == s@[from + 1]);
            assert(dec_val(seg1) == dec_val(seg2) * 10 + s@[from + 1] - 48);
            assert(seg@.last() == s@[from + 2]);
            assert(dec_val(seg@) == dec_val(seg1) * 10 + s@[from + 2] - 48);
        }
        ((d0 - 48) as u32 * 10 + (d1 - 48) as u32) * 10 + (d2 - 48) as u32
    }
}

/// The index where the line terminator first starts in the buffer, if it
/// occurs.
pub fn find_terminator(s: &Vec<u8>) -> (r: Option<usize>)
    ensures
        match r {
            Some(i) => find_crlf_from(s@, 0) == i as int && i + 2 <= s@.len(),
            None => find_crlf_from(s@, 0) == -1,
        },
{
    let n = s.len();
    if n < 2 {
        return None;
    }
    let mut i: usize = 0;
    while i < n - 1
        invariant
            0 <= i,
            2 <= n == s@.len(),
            i <= n - 1,
            find_crlf_from(s@, 0) == find_crlf_from(s@, i as int),
        decreases s@.len() - i,
    {
        if s[i] == 13 && s[i + 1] == 10 {
            return Some(i);
        }
        i = i + 1;
    }
    None
}

} // verus!
