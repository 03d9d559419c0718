//! Textual encoding of identifiers: 26 characters over a 32-symbol,
//! radix-ordered alphabet, most significant digit first.

use vstd::prelude::*;

verus! {

/// The digit `d` of the encoding alphabet `0123456789ABCDEFGHJKMNPQRSTVWXYZ`
/// (no I, L, O, U), in radix order.
pub open spec fn spec_char_of(d: int) -> char {
    if d == 0 {
        '0'
    } else if d == 1 {
        '1'
    } else if d == 2 {
        '2'
    } else if d == 3 {
        '3'
    } else if d == 4 {
        '4'
    } else if d == 5 {
        '5'
    } else if d == 6 {
        '6'
    } else if d == 7 {
        '7'
    } else if d == 8 {
        '8'
    } else if d == 9 {
        '9'
    } else if d == 10 {
        'A'
    } else if d == 11 {
        'B'
    } else if d == 12 {
        'C'
    } else if d == 13 {
        'D'
    } else if d == 14 {
        'E'
    } else if d == 15 {
        'F'
    } else if d == 16 {
        'G'
    } else if d == 17 {
        'H'
    } else if d == 18 {
        'J'
    } else if d == 19 {
        'K'
    } else if d == 20 {
        'M'
    } else if d == 21 {
        'N'
    } else if d == 22 {
        'P'
    } else if d == 23 {
        'Q'
    } else if d == 24 {
        'R'
    } else if d == 25 {
        'S'
    } else if d == 26 {
        'T'
    } else if d == 27 {
        'V'
    } else if d == 28 {
        'W'
    } else if d == 29 {
        'X'
    } else if d == 30 {
        'Y'
    } else {
        'Z'
    }
}

/// The value of a character on decode, or -1 when the character is not in
/// the alphabet. Decoding is case-insensitive.
pub open spec fn spec_char_val(c: char) -> int {
    if c == '0' {
        0
    } else if c == '1' {
        1
    } else if c == '2' {
        2
    } else if c == '3' {
        3
    } else if c == '4' {
        4
    } else if c == '5' {
        5
    } else if c == '6' {
        6
    } else if c == '7' {
        7
    } else if c == '8' {
        8
    } else if c == '9' {
        9
    } else if c == 'A' || c == 'a' {
        10
    } else if c == 'B' || c == 'b' {
        11
    } else if c == 'C' || c == 'c' {
        12
    } else if c == 'D' || c == 'd' {
        13
    } else if c == 'E' || c == 'e' {
        14
    } else if c == 'F' || c == 'f' {
        15
    } else if c == 'G' || c == 'g' {
        16
    } else if c == 'H' || c == 'h' {
        17
    } else if c == 'J' || c == 'j' {
        18
    } else if c == 'K' || c == 'k' {
        19
    } else if c == 'M' || c == 'm' {
        20
    } else if c == 'N' || c == 'n' {
        21
    } else if c == 'P' || c == 'p' {
        22
    } else if c == 'Q' || c == 'q' {
        23
    } else if c == 'R' || c == 'r' {
        24
    } else if c == 'S' || c == 's' {
        25
    } else if c == 'T' || c == 't' {
        26
    } else if c == 'V' || c == 'v' {
        27
    } else if c == 'W' || c == 'w' {
        28
    } else if c == 'X' || c == 'x' {
        29
    } else if c == 'Y' || c == 'y' {
        30
    } else if c == 'Z' || c == 'z' {
        31
    } else {
        -1
    }
}

/// Every alphabet character decodes back to its digit.
pub proof fn lemma_char_round_trip()
    ensures
        forall|d: int| 0 <= d < 32 ==> spec_char_val(#[trigger] spec_char_of(d)) == d,
{
}

/// The alphabet is in radix order: larger digits encode to characters with
/// larger code points, so byte order of encodings follows numeric order.
pub proof fn lemma_alphabet_order()
    ensures
        forall|d1: int, d2: int|
            0 <= d1 < d2 < 32 ==> (spec_char_of(d1) as u32) < (spec_char_of(d2) as u32),
{
}

/// Powers of the radix.
pub open spec fn pow32(n: nat) -> int
    decreases n,
{
    if n == 0 {
        1
    } else {
        32 * pow32((n - 1) as nat)
    }
}

/// The last `n` digits of `v`, most significant first.
pub open spec fn spec_encode_rec(v: int, n: nat) -> Seq<char>
    decreases n,
{
    if n == 0 {
        Seq::empty()
    } else {
        spec_encode_rec(v / 32, (n - 1) as nat).push(spec_char_of(v % 32))
    }
}

/// The 26-character encoding of a 128-bit identifier value.
pub open spec fn spec_encode(v: u128) -> Seq<char> {
    spec_encode_rec(v as int, 26)
}

/// The numeric value of a digit string (meaningful when every character is
/// in the alphabet).
pub open spec fn spec_seq_val(s: Seq<char>) -> int
    decreases s.len(),
{
    if s.len() == 0 {
        0
    } else {
        spec_seq_val(s.drop_last()) * 32 + spec_char_val(s.last())
    }
}

/// A string decodes iff it has exactly 26 characters, all from the alphabet
/// (either case), and its leading digit is at most 7, so that the value
/// fits in 128 bits.
pub open spec fn spec_valid(s: Seq<char>) -> bool {
    &&& s.len() == 26
    &&& forall|i: int| 0 <= i < 26 ==> 0 <= spec_char_val(#[trigger] s[i]) < 32
    &&& spec_char_val(s[0]) <= 7
}

/// What decoding returns: the value of a valid digit string, nothing else.
pub open spec fn spec_decode(s: Seq<char>) -> Option<u128> {
    if spec_valid(s) {
        Some(spec_seq_val(s) as u128)
    } else {
        None
    }
}

/// The timestamp component of an identifier value: its high 48 bits,
/// a count of milliseconds since the Unix epoch.
pub open spec fn spec_timestamp(v: u128) -> u64 {
    (v >> 80) as u64
}

pub proof fn lemma_pow32_pos(n: nat)
    ensures
        pow32(n) >= 1,
    decreases n,
{
    if n > 0 {
        lemma_pow32_pos((n - 1) as nat);
    }
}

pub proof fn lemma_encode_rec_len(v: int, n: nat)
    ensures
        spec_encode_rec(v, n).len() == n,
    decreases n,
{
    if n > 0 {
        lemma_encode_rec_len(v / 32, (n - 1) as nat);
    }
}

/// Every character of an encoding is an alphabet character.
pub proof fn lemma_encode_rec_chars(v: int, n: nat)
    requires
        v >= 0,
    ensures
        forall|i: int|
            0 <= i < spec_encode_rec(v, n).len() ==> 0 <= spec_char_val(
                #[trigger] spec_encode_rec(v, n)[i],
            ) < 32,
    decreases n,
{
    if n > 0 {
        let front = spec_encode_rec(v / 32, (n - 1) as nat);
        lemma_encode_rec_chars(v / 32, (n - 1) as nat);
        lemma_encode_rec_len(v / 32, (n - 1) as nat);
        lemma_char_round_trip();
        assert forall|i: int| 0 <= i < spec_encode_rec(v, n).len() implies 0 <= spec_char_val(
            #[trigger] spec_encode_rec(v, n)[i],
        ) < 32 by {
            if i < n - 1 {
                assert(spec_encode_rec(v, n)[i] == front[i]);
            } else {
                assert(spec_encode_rec(v, n)[i] == spec_char_of(v % 32));
            }
        }
    }
}

/// Decoding inverts encoding, digit string to value.
pub proof fn lemma_encode_rec_val(v: int, n: nat)
    requires
        0 <= v < pow32(n),
    ensures
        spec_seq_val(spec_encode_rec(v, n)) == v,
    decreases n,
{
    if n == 0 {
    } else {
        let q = v / 32;
        let front = spec_encode_rec(q, (n - 1) as nat);
        vstd::arithmetic::div_mod::lemma_multiply_divide_lt(v, pow32((n - 1) as nat), 32);
        lemma_encode_rec_val(q, (n - 1) as nat);
        assert(spec_encode_rec(v, n).drop_last() =~= front);
        assert(spec_encode_rec(v, n).last() == spec_char_of(v % 32));
        lemma_char_round_trip();
        assert(spec_seq_val(spec_encode_rec(v, n)) == q * 32 + v % 32);
    }
}

/// The first character of an encoding is the most significant digit.
pub proof fn lemma_encode_rec_first(v: int, n: nat)
    requires
        v >= 0,
        n >= 1,
    ensures
        spec_encode_rec(v, n)[0] == spec_char_of((v / pow32((n - 1) as nat)) % 32),
    decreases n,
{
    if n == 1 {
        assert(spec_encode_rec(v / 32, 0) =~= Seq::<char>::empty());
        assert(spec_encode_rec(v, 1)[0] == spec_char_of(v % 32));
    } else {
        lemma_encode_rec_first(v / 32, (n - 1) as nat);
        lemma_encode_rec_len(v / 32, (n - 1) as nat);
        assert(spec_encode_rec(v, n)[0] == spec_encode_rec(v / 32, (n - 1) as nat)[0]);
        lemma_pow32_pos((n - 2) as nat);
        vstd::arithmetic::div_mod::lemma_div_denominator(v, 32, pow32((n - 2) as nat));
        assert(32 * pow32((n - 2) as nat) == pow32((n - 1) as nat));
    }
}

/// The two powers of 32 that bracket the 128-bit value range: 32^25 = 2^125
/// and 32^26 = 2^130.
pub proof fn lemma_pow32_val()
    ensures
        pow32(25) == 0x20000000000000000000000000000000,
        pow32(26) == 0x400000000000000000000000000000000,
{
    assert(pow32(0) == 1);
    assert(pow32(1) == 32);
    assert(pow32(2) == 0x400);
    assert(pow32(3) == 0x8000);
    assert(pow32(4) == 0x100000);
    assert(pow32(5) == 0x2000000);
    assert(pow32(6) == 0x40000000);
    assert(pow32(7) == 0x800000000);
    assert(pow32(8) == 0x10000000000);
    assert(pow32(9) == 0x200000000000);
    assert(pow32(10) == 0x4000000000000);
    assert(pow32(11) == 0x80000000000000);
    assert(pow32(12) == 0x1000000000000000);
    assert(pow32(13) == 0x20000000000000000);
    assert(pow32(14) == 0x400000000000000000);
    assert(pow32(15) == 0x8000000000000000000);
    assert(pow32(16) == 0x100000000000000000000);
    assert(pow32(17) == 0x2000000000000000000000);
    assert(pow32(18) == 0x40000000000000000000000);
    assert(pow32(19) == 0x800000000000000000000000);
    assert(pow32(20) == 0x10000000000000000000000000);
    assert(pow32(21) == 0x200000000000000000000000000);
    assert(pow32(22) == 0x4000000000000000000000000000);
    assert(pow32(23) == 0x80000000000000000000000000000);
    assert(pow32(24) == 0x1000000000000000000000000000000);
    assert(pow32(25) == 0x20000000000000000000000000000000);
    assert(pow32(26) == 0x400000000000000000000000000000000);
}

/// Round trip: decoding the encoding of any 128-bit value yields that value.
pub proof fn lemma_round_trip(v: u128)
    ensures
        spec_decode(spec_encode(v)) == Some(v),
{
    let vi = v as int;
    let s = spec_encode(v);
    lemma_pow32_val();
    lemma_encode_rec_len(vi, 26);
    lemma_encode_rec_chars(vi, 26);
    lemma_encode_rec_val(vi, 26);
    lemma_encode_rec_first(vi, 26);
    lemma_char_round_trip();
    // The leading digit is at most 7 because v < 8 * 32^25.
    assert(vi / pow32(25) < 8) by {
        vstd::arithmetic::div_mod::lemma_multiply_divide_lt(vi, 8, pow32(25));
    }
    assert(vi / pow32(25) >= 0) by {
        vstd::arithmetic::div_mod::lemma_div_pos_is_pos(vi, pow32(25));
    }
    assert((vi / pow32(25)) % 32 == vi / pow32(25));
    assert(spec_char_val(s[0]) <= 7);
    assert(spec_valid(s));
}

/// Strict lexicographic order on equal-length strings, by character code.
pub open spec fn lex_lt(a: Seq<char>, b: Seq<char>) -> bool {
    exists|i: int|
        0 <= i < a.len() && i < b.len() && (forall|j: int| 0 <= j < i ==> a[j] == b[j]) && (a[i]
            as u32) < (b[i] as u32)
}

/// Encoding is strictly monotone: a smaller value encodes to a string that
/// sorts strictly earlier.
pub proof fn lemma_encode_rec_mono(v1: int, v2: int, n: nat)
    requires
        0 <= v1 < v2 < pow32(n),
    ensures
        lex_lt(spec_encode_rec(v1, n), spec_encode_rec(v2, n)),
    decreases n,
{
    lemma_pow32_pos(n);
    assert(n >= 1);
    let a = spec_encode_rec(v1, n);
    let b = spec_encode_rec(v2, n);
    let q1 = v1 / 32;
    let q2 = v2 / 32;
    let d1 = v1 % 32;
    let d2 = v2 % 32;
    let f1 = spec_encode_rec(q1, (n - 1) as nat);
    let f2 = spec_encode_rec(q2, (n - 1) as nat);
    lemma_encode_rec_len(v1, n);
    lemma_encode_rec_len(v2, n);
    lemma_encode_rec_len(q1, (n - 1) as nat);
    lemma_encode_rec_len(q2, (n - 1) as nat);
    vstd::arithmetic::div_mod::lemma_multiply_divide_lt(v2, pow32((n - 1) as nat), 32);
    vstd::arithmetic::div_mod::lemma_div_is_ordered(v1, v2, 32);
    vstd::arithmetic::div_mod::lemma_div_pos_is_pos(v1, 32);
    if q1 == q2 {
        assert(d1 < d2);
        lemma_alphabet_order();
        let i = n - 1;
        assert(forall|j: int| 0 <= j < i ==> a[j] == b[j]) by {
            assert(forall|j: int| 0 <= j < i ==> a[j] == f1[j] && b[j] == f2[j]);
        }
        assert((a[i] as u32) < (b[i] as u32));
        assert(lex_lt(a, b));
    } else {
        lemma_encode_rec_mono(q1, q2, (n - 1) as nat);
        let i = choose|i: int|
            0 <= i < f1.len() && i < f2.len() && (forall|j: int| 0 <= j < i ==> f1[j] == f2[j]) && (
            f1[i] as u32) < (f2[i] as u32);
        assert(a[i] == f1[i] && b[i] == f2[i]);
        assert(forall|j: int| 0 <= j < i ==> a[j] == b[j]) by {
            assert(forall|j: int| 0 <= j < i ==> a[j] == f1[j] && b[j] == f2[j]);
        }
        assert(lex_lt(a, b));
    }
}

/// Encodings sort as the values do: the smaller of two identifier values
/// encodes to the lexicographically smaller string.
pub proof fn lemma_encode_order(v1: u128, v2: u128)
    requires
        v1 < v2,
    ensures
        lex_lt(spec_encode(v1), spec_encode(v2)),
{
    lemma_pow32_val();
    lemma_encode_rec_mono(v1 as int, v2 as int, 26);
}

/// Ordering law: of two identifiers whose timestamps differ, the one with
/// the earlier timestamp encodes to the lexicographically smaller string,
/// whatever their random bits.
pub proof fn lemma_timestamp_order(v1: u128, v2: u128)
    requires
        spec_timestamp(v1) < spec_timestamp(v2),
    ensures
        lex_lt(spec_encode(v1), spec_encode(v2)),
{
    assert(v1 >> 80 == spec_timestamp(v1) as u128 && v2 >> 80 == spec_timestamp(v2) as u128)
        by (bit_vector);
    assert(v1 < v2) by (bit_vector)
        requires
            v1 >> 80 < v2 >> 80,
    ;
    lemma_encode_order(v1, v2);
}

/// Larger exponents give larger powers.
pub proof fn lemma_pow32_mono(a: nat, b: nat)
    requires
        a <= b,
    ensures
        pow32(a) <= pow32(b),
    decreases b,
{
    if a < b {
        lemma_pow32_mono(a, (b - 1) as nat);
        lemma_pow32_pos((b - 1) as nat);
    }
}

/// Each position of an encoding holds the matching digit of the value.
pub proof fn lemma_encode_rec_index(v: int, n: nat, i: int)
    requires
        v >= 0,
        0 <= i < n,
    ensures
        spec_encode_rec(v, n)[i] == spec_char_of((v / pow32((n - 1 - i) as nat)) % 32),
    decreases n,
{
    lemma_encode_rec_len(v / 32, (n - 1) as nat);
    if i == n - 1 {
        assert(spec_encode_rec(v, n)[i] == spec_char_of(v % 32));
        assert(pow32(0) == 1);
    } else {
        lemma_encode_rec_index(v / 32, (n - 1) as nat, i);
        assert(spec_encode_rec(v, n)[i] == spec_encode_rec(v / 32, (n - 1) as nat)[i]);
        lemma_pow32_pos((n - 2 - i) as nat);
        vstd::arithmetic::div_mod::lemma_div_denominator(v, 32, pow32((n - 2 - i) as nat));
        assert(32 * pow32((n - 2 - i) as nat) == pow32((n - 1 - i) as nat));
    }
}

/// The single-character string for digit `d` of the alphabet.
pub(crate) fn digit_str(d: u8) -> (s: &'static str)
    requires
        d < 32,
    ensures
        s@.len() == 1,
        s@[0] == spec_char_of(d as int),
{
    proof {
        reveal_strlit("0");
        reveal_strlit("1");
        reveal_strlit("2");
        reveal_strlit("3");
        reveal_strlit("4");
        reveal_strlit("5");
        reveal_strlit("6");
        reveal_strlit("7");
        reveal_strlit("8");
        reveal_strlit("9");
        reveal_strlit("A");
        reveal_strlit("B");
        reveal_strlit("C");
        reveal_strlit("D");
        reveal_strlit("E");
        reveal_strlit("F");
        reveal_strlit("G");
        reveal_strlit("H");
        reveal_strlit("J");
        reveal_strlit("K");
        reveal_strlit("M");
        reveal_strlit("N");
        reveal_strlit("P");
        reveal_strlit("Q");
        reveal_strlit("R");
        reveal_strlit("S");
        reveal_strlit("T");
        reveal_strlit("V");
        reveal_strlit("W");
        reveal_strlit("X");
        reveal_strlit("Y");
        reveal_strlit("Z");
    }
    match d {
        0 => "0",
        1 => "1",
        2 => "2",
        3 => "3",
        4 => "4",
        5 => "5",
        6 => "6",
        7 => "7",
        8 => "8",
        9 => "9",
        10 => "A",
        11 => "B",
        12 => "C",
        13 => "D",
        14 => "E",
        15 => "F",
        16 => "G",
        17 => "H",
        18 => "J",
        19 => "K",
        20 => "M",
        21 => "N",
        22 => "P",
        23 => "Q",
        24 => "R",
        25 => "S",
        26 => "T",
        27 => "V",
        28 => "W",
        29 => "X",
        30 => "Y",
        _ => "Z",
    }
}

/// Encodes a 128-bit identifier value as its 26-character string:
/// always 26 characters long, every one from the alphabet.
pub fn encode(v: u128) -> (r: String)
    ensures
        r@ == spec_encode(v),
        r@.len() == 26,
        forall|i: int| 0 <= i < 26 ==> 0 <= spec_char_val(#[trigger] r@[i]) < 32,
{
    let ghost vi = v as int;
    let mut digits: Vec<u8> = Vec::new();
    let mut x = v;
    let mut j: usize = 0;
    while j < 26
        invariant
            j <= 26,
            digits@.len() == j,
            x as int == vi / pow32(j as nat),
            vi == v as int,
            forall|k: int|
                0 <= k < j ==> digits@[k] as int == (vi / pow32(k as nat)) % 32,
        decreases 26 - j,
    {
        proof {
            lemma_pow32_pos(j as nat);
            vstd::arithmetic::div_mod::lemma_div_denominator(vi, pow32(j as nat), 32);
            assert(pow32((j + 1) as nat) == 32 * pow32(j as nat));
            vstd::arithmetic::div_mod::lemma_div_pos_is_pos(vi, pow32(j as nat));
        }
        digits.push((x % 32) as u8);
        x = x / 32;
        j += 1;
    }
    let mut r = String::new();
    let mut i: usize = 0;
    proof {
        lemma_encode_rec_len(vi, 26);
        assert(r@ =~= spec_encode(v).subrange(0, 0));
    }
    while i < 26
        invariant
            i <= 26,
            digits@.len() == 26,
            vi == v as int,
            forall|k: int|
                0 <= k < 26 ==> digits@[k] as int == (vi / pow32(k as nat)) % 32,
            spec_encode(v).len() == 26,
            r@ =~= spec_encode(v).subrange(0, i as int),
        decreases 26 - i,
    {
        let d = digits[25 - i];
        proof {
            lemma_pow32_pos((25 - i) as nat);
            vstd::arithmetic::div_mod::lemma_div_pos_is_pos(vi, pow32((25 - i) as nat));
            lemma_encode_rec_index(vi, 26, i as int);
        }
        let cs = digit_str(d);
        r.append(cs);
        proof {
            assert(r@ =~= spec_encode(v).subrange(0, i + 1));
        }
        i += 1;
    }
    proof {
        assert(spec_encode(v).subrange(0, 26) =~= spec_encode(v));
        lemma_encode_rec_chars(vi, 26);
    }
    r
}

/// The digit of an alphabet character, either case; `None` for any other
/// character.
fn char_value(c: char) -> (r: Option<u8>)
    ensures
        r matches Some(d) ==> d < 32 && spec_char_val(c) == d as int,
        r is None ==> spec_char_val(c) == -1,
{
    match c {
        '0' => Some(0),
        '1' => Some(1),
        '2' => Some(2),
        '3' => Some(3),
        '4' => Some(4),
        '5' => Some(5),
        '6' => Some(6),
        '7' => Some(7),
        '8' => Some(8),
        '9' => Some(9),
        'A' | 'a' => Some(10),
        'B' | 'b' => Some(11),
        'C' | 'c' => Some(12),
        'D' | 'd' => Some(13),
        'E' | 'e' => Some(14),
        'F' | 'f' => Some(15),
        'G' | 'g' => Some(16),
        'H' | 'h' => Some(17),
        'J' | 'j' => Some(18),
        'K' | 'k' => Some(19),
        'M' | 'm' => Some(20),
        'N' | 'n' => Some(21),
        'P' | 'p' => Some(22),
        'Q' | 'q' => Some(23),
        'R' | 'r' => Some(24),
        'S' | 's' => Some(25),
        'T' | 't' => Some(26),
        'V' | 'v' => Some(27),
        'W' | 'w' => Some(28),
        'X' | 'x' => Some(29),
        'Y' | 'y' => Some(30),
        'Z' | 'z' => Some(31),
        _ => None,
    }
}

/// Decodes a 26-character identifier string back to its 128-bit value.
/// Returns `Some` exactly on valid strings: 26 characters, all from the
/// alphabet (case-insensitively), leading digit at most 7.
pub fn decode(s: &str) -> (r: Option<u128>)
    ensures
        r == spec_decode(s@),
{
    let n = s.unicode_len();
    if n != 26 {
        return None;
    }
    let mut value: u128 = 0;
    let mut i: usize = 0;
    proof {
        assert(value as int == spec_seq_val(s@.subrange(0, 0)));
    }
    while i < 26
        invariant
            s@.len() == 26,
            i <= 26,
            forall|k: int| 0 <= k < i ==> 0 <= spec_char_val(#[trigger] s@[k]) < 32,
            i > 0 ==> spec_char_val(s@[0]) <= 7,
            i > 0 ==> (value as int) < 8 * pow32((i - 1) as nat),
            i == 0 ==> value == 0,
            value as int == spec_seq_val(s@.subrange(0, i as int)),
        decreases 26 - i,
    {
        let c = s.get_char(i);
        match char_value(c) {
            None => {
                assert(!spec_valid(s@));
                return None;
            },
            Some(d) => {
                if i == 0 {
                    if d > 7 {
                        assert(!spec_valid(s@));
                        return None;
                    }
                    value = d as u128;
                    proof {
                        assert(s@.subrange(0, 1).drop_last() =~= s@.subrange(0, 0));
                        assert(s@.subrange(0, 1).last() == s@[0]);
                    }
                } else {
                    proof {
                        let p = pow32((i - 1) as nat);
                        lemma_pow32_pos((i - 1) as nat);
                        lemma_pow32_mono(i as nat, 25);
                        lemma_pow32_val();
                        assert(value as int * 32 <= (8 * p - 1) * 32) by (nonlinear_arith)
                            requires
                                value as int <= 8 * p - 1,
                                p >= 1,
                        ;
                        assert((8 * p) * 32 == 8 * (32 * p)) by (nonlinear_arith);
                        assert(pow32(i as nat) == 32 * p);
                    }
                    value = value * 32 + (d as u128);
                    proof {
                        assert(s@.subrange(0, i + 1).drop_last() =~= s@.subrange(0, i as int));
                        assert(s@.subrange(0, i + 1).last() == s@[i as int]);
                    }
                }
            },
        }
        i += 1;
    }
    proof {
        assert(s@.subrange(0, 26) =~= s@);
        assert(spec_valid(s@));
    }
    Some(value)
}

/// The timestamp component of an identifier value.
pub fn timestamp_of(v: u128) -> (r: u64)
    ensures
        r == spec_timestamp(v),
{
    (v >> 80) as u64
}

} // verus!
