//! Rendering and parsing of unsigned numbers as text: fixed-width
//! hexadecimal (used by the record codec, with a proved round trip),
//! minimal-width hexadecimal (key fingerprints), and decimal
//! (connection URIs).

use vstd::prelude::*;
use vstd::string::*;

verus! {

/// The hexadecimal digit character for a value below 16.
pub open spec fn hex_char(d: nat) -> char {
    if d == 0 {
        '0'
    } else if d == 1 {
        '1'
    } else if d == 2 {
        '2'
    } else if d == 3 {
        '3'
    } else if d == 4 {
        '4'
    } else if d == 5 {
        '5'
    } else if d == 6 {
        '6'
    } else if d == 7 {
        '7'
    } else if d == 8 {
        '8'
    } else if d == 9 {
        '9'
    } else if d == 10 {
        'a'
    } else if d == 11 {
        'b'
    } else if d == 12 {
        'c'
    } else if d == 13 {
        'd'
    } else if d == 14 {
        'e'
    } else {
        'f'
    }
}

/// The value of a hexadecimal digit character; 16 for any other character.
pub open spec fn hex_val(c: char) -> nat {
    if c == '0' {
        0
    } else if c == '1' {
        1
    } else if c == '2' {
        2
    } else if c == '3' {
        3
    } else if c == '4' {
        4
    } else if c == '5' {
        5
    } else if c == '6' {
        6
    } else if c == '7' {
        7
    } else if c == '8' {
        8
    } else if c == '9' {
        9
    } else if c == 'a' {
        10
    } else if c == 'b' {
        11
    } else if c == 'c' {
        12
    } else if c == 'd' {
        13
    } else if c == 'e' {
        14
    } else if c == 'f' {
        15
    } else {
        16
    }
}

pub open spec fn is_hex_digit(c: char) -> bool {
    hex_val(c) < 16
}

pub open spec fn all_hex(s: Seq<char>) -> bool {
    forall|i: int| 0 <= i < s.len() ==> is_hex_digit(s[i])
}

pub open spec fn pow16(w: nat) -> nat
    decreases w,
{
    if w == 0 {
        1
    } else {
        16 * pow16((w - 1) as nat)
    }
}

/// `n` written with exactly `w` hexadecimal digits, most significant first.
pub open spec fn hex_fixed(n: nat, w: nat) -> Seq<char>
    decreases w,
{
    if w == 0 {
        Seq::empty()
    } else {
        hex_fixed(n / 16, (w - 1) as nat).push(hex_char(n % 16))
    }
}

/// The number a sequence of hexadecimal digit characters denotes.
pub open spec fn hex_seq_val(s: Seq<char>) -> nat
    decreases s.len(),
{
    if s.len() == 0 {
        0
    } else {
        hex_seq_val(s.drop_last()) * 16 + hex_val(s.last())
    }
}

pub proof fn lemma_hex_char_val(d: nat)
    requires
        d < 16,
    ensures
        hex_val(hex_char(d)) == d,
{
}

pub proof fn lemma_pow16_le(a: nat, b: nat)
    requires
        a <= b,
    ensures
        pow16(a) <= pow16(b),
    decreases b,
{
    if a < b {
        lemma_pow16_le(a, (b - 1) as nat);
    }
}

pub proof fn lemma_pow16_16()
    ensures
        pow16(16) == 0x1_0000_0000_0000_0000,
{
    assert(pow16(0) == 1);
    assert(pow16(1) == 16);
    assert(pow16(2) == 0x100);
    assert(pow16(3) == 0x1000);
    assert(pow16(4) == 0x1_0000);
    assert(pow16(5) == 0x10_0000);
    assert(pow16(6) == 0x100_0000);
    assert(pow16(7) == 0x1000_0000);
    assert(pow16(8) == 0x1_0000_0000);
    assert(pow16(9) == 0x10_0000_0000);
    assert(pow16(10) == 0x100_0000_0000);
    assert(pow16(11) == 0x1000_0000_0000);
    assert(pow16(12) == 0x1_0000_0000_0000);
    assert(pow16(13) == 0x10_0000_0000_0000);
    assert(pow16(14) == 0x100_0000_0000_0000);
    assert(pow16(15) == 0x1000_0000_0000_0000);
}

pub proof fn lemma_hex_fixed_props(n: nat, w: nat)
    ensures
        hex_fixed(n, w).len() == w,
        all_hex(hex_fixed(n, w)),
    decreases w,
{
    if w > 0 {
        lemma_hex_fixed_props(n / 16, (w - 1) as nat);
        lemma_hex_char_val(n % 16);
        let s = hex_fixed(n, w);
        let rec = hex_fixed(n / 16, (w - 1) as nat);
        assert forall|i: int| 0 <= i < s.len() implies is_hex_digit(s[i]) by {
            if i < w - 1 {
                assert(s[i] == rec[i]);
            } else {
                assert(s[i] == hex_char(n % 16));
            }
        }
    }
}

/// Writing a number with enough digits and reading the digits back yields
/// the same number.
pub proof fn lemma_hex_round_trip(n: nat, w: nat)
    requires
        n < pow16(w),
    ensures
        hex_seq_val(hex_fixed(n, w)) == n,
    decreases w,
{
    if w > 0 {
        lemma_hex_fixed_props(n / 16, (w - 1) as nat);
        assert(n / 16 < pow16((w - 1) as nat)) by {
            assert(n < 16 * pow16((w - 1) as nat));
        }
        lemma_hex_round_trip(n / 16, (w - 1) as nat);
        lemma_hex_char_val(n % 16);
        let s = hex_fixed(n, w);
        assert(s.drop_last() =~= hex_fixed(n / 16, (w - 1) as nat));
        assert(s.last() == hex_char(n % 16));
    }
}

pub proof fn lemma_hex_seq_val_bound(s: Seq<char>)
    requires
        all_hex(s),
    ensures
        hex_seq_val(s) < pow16(s.len()),
    decreases s.len(),
{
    if s.len() > 0 {
        assert(all_hex(s.drop_last())) by {
            assert(forall|i: int|
                0 <= i < s.len() - 1 ==> s.drop_last()[i] == s[i]);
        }
        lemma_hex_seq_val_bound(s.drop_last());
        assert(hex_val(s.last()) < 16);
    }
}

/// The single-character string for a hexadecimal digit.
pub fn hex_digit_str(d: u8) -> (r: &'static str)
    requires
        d < 16,
    ensures
        r@ =~= seq![hex_char(d as nat)],
{
    proof {
        reveal_strlit("0");
        reveal_strlit("1");
        reveal_strlit("2");
        reveal_strlit("3");
        reveal_strlit("4");
        reveal_strlit("5");
        reveal_strlit("6");
        reveal_strlit("7");
        reveal_strlit("8");
        reveal_strlit("9");
        reveal_strlit("a");
        reveal_strlit("b");
        reveal_strlit("c");
        reveal_strlit("d");
        reveal_strlit("e");
        reveal_strlit("f");
    }
    match d {
        0 => "0",
        1 => "1",
        2 => "2",
        3 => "3",
        4 => "4",
        5 => "5",
        6 => "6",
        7 => "7",
        8 => "8",
        9 => "9",
        10 => "a",
        11 => "b",
        12 => "c",
        13 => "d",
        14 => "e",
        _ => "f",
    }
}

/// `n` as exactly `w` hexadecimal digits, most significant first.
pub fn u64_hex_fixed(n: u64, w: u8) -> (r: String)
    requires
        w <= 16,
    ensures
        r@ == hex_fixed(n as nat, w as nat),
    decreases w,
{
    if w == 0 {
        let r = String::new();
        proof {
            assert(r@ =~= hex_fixed(n as nat, 0));
        }
        r
    } else {
        let mut s = u64_hex_fixed(n / 16, w - 1);
        s.append(hex_digit_str((n % 16) as u8));
        proof {
            assert(s@ =~= hex_fixed(n as nat, w as nat));
        }
        s
    }
}

/// The value of a hexadecimal digit character; 16 for any other character.
pub fn hex_val_u8(c: char) -> (v: u8)
    ensures
        is_hex_digit(c) ==> v as nat == hex_val(c),
        !is_hex_digit(c) ==> v == 16,
{
    match c {
        '0' => 0,
        '1' => 1,
        '2' => 2,
        '3' => 3,
        '4' => 4,
        '5' => 5,
        '6' => 6,
        '7' => 7,
        '8' => 8,
        '9' => 9,
        'a' => 10,
        'b' => 11,
        'c' => 12,
        'd' => 13,
        'e' => 14,
        'f' => 15,
        _ => 16,
    }
}

/// Reads `w` hexadecimal digits of `s` starting at `pos`; `None` if any
/// of those characters is not a hexadecimal digit.
pub fn parse_hex_u64(s: &str, pos: usize, w: usize) -> (r: Option<u64>)
    requires
        w <= 16,
        pos + w <= s@.len(),
        pos + w <= usize::MAX,
    ensures
        r is Some <==> all_hex(s@.subrange(pos as int, pos + w as int)),
        r matches Some(v) ==> v as nat == hex_seq_val(s@.subrange(pos as int, pos + w as int)),
{
    let mut acc: u64 = 0;
    let mut i: usize = 0;
    while i < w
        invariant
            i <= w,
            w <= 16,
            pos + w <= s@.len(),
            pos + w <= usize::MAX,
            all_hex(s@.subrange(pos as int, pos + i as int)),
            acc as nat == hex_seq_val(s@.subrange(pos as int, pos + i as int)),
        decreases w - i,
    {
        let c = s.get_char(pos + i);
        let v = hex_val_u8(c);
        if v >= 16 {
            proof {
                let full = s@.subrange(pos as int, pos + w as int);
                assert(full[i as int] == c);
                assert(!is_hex_digit(full[i as int]));
            }
            return None;
        }
        proof {
            let part = s@.subrange(pos as int, pos + i as int);
            lemma_hex_seq_val_bound(part);
            lemma_pow16_le((i as nat), 15);
            lemma_pow16_16();
            assert(acc as nat * 16 + 16 <= pow16((i + 1) as nat)) by {
                assert(pow16((i + 1) as nat) == 16 * pow16(i as nat));
            }
            lemma_pow16_le((i + 1) as nat, 16);
        }
        acc = acc * 16 + (v as u64);
        proof {
            let prev = s@.subrange(pos as int, pos + i as int);
            let cur = s@.subrange(pos as int, pos + i + 1 as int);
            assert(cur.drop_last() =~= prev);
            assert(cur.last() == c);
        }
        i = i + 1;
    }
    proof {
        assert(s@.subrange(pos as int, pos + i as int) =~= s@.subrange(
            pos as int,
            pos + w as int,
        ));
    }
    Some(acc)
}

/// `n` in minimal-width hexadecimal, as `{:x}` formatting writes it.
pub open spec fn hex_trim(n: nat) -> Seq<char>
    decreases n,
{
    if n < 16 {
        seq![hex_char(n)]
    } else {
        hex_trim(n / 16).push(hex_char(n % 16))
    }
}

/// `n` in decimal, most significant digit first.
pub open spec fn dec_trim(n: nat) -> Seq<char>
    decreases n,
{
    if n < 10 {
        seq![hex_char(n)]
    } else {
        dec_trim(n / 10).push(hex_char(n % 10))
    }
}

/// `n` in minimal-width lowercase hexadecimal.
pub fn u64_hex_trim(n: u64) -> (r: String)
    ensures
        r@ == hex_trim(n as nat),
    decreases n,
{
    if n < 16 {
        let r = String::from_str(hex_digit_str(n as u8));
        proof {
            assert(r@ =~= hex_trim(n as nat));
        }
        r
    } else {
        let mut s = u64_hex_trim(n / 16);
        s.append(hex_digit_str((n % 16) as u8));
        proof {
            assert(s@ =~= hex_trim(n as nat));
        }
        s
    }
}

/// `n` in decimal.
pub fn u64_dec(n: u64) -> (r: String)
    ensures
        r@ == dec_trim(n as nat),
    decreases n,
{
    if n < 10 {
        let r = String::from_str(hex_digit_str(n as u8));
        proof {
            assert(r@ =~= dec_trim(n as nat));
        }
        r
    } else {
        let mut s = u64_dec(n / 10);
        s.append(hex_digit_str((n % 10) as u8));
        proof {
            assert(s@ =~= dec_trim(n as nat));
        }
        s
    }
}

} // verus!
