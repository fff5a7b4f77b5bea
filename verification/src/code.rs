//! Base-34 short codes and base-`n` rendering of numbers.
//!
//! A short code writes a number in base 34 with the digits
//! `0123456789ABCDEFGHJKLMNPQRSTUVWXYZ` (the letters `I` and `O` are left out so
//! that codes cannot be misread as `1` and `0`), most significant digit first.

use vstd::prelude::*;
use vstd::string::*;
use crate::text::{string_from_chars, nat_decimal, int_decimal, i64_decimal_chars};

verus! {

/// The short-code digit for `d` in `0..34`: `'0'..'9'`, then `'A'..'H'`, `'J'..'N'`, `'P'..'Z'`.
pub open spec fn code_digit(d: int) -> char {
    if d < 10 {
        (d + 48) as char
    } else if d < 18 {
        (d - 10 + 65) as char
    } else if d < 23 {
        (d - 18 + 74) as char
    } else {
        (d - 23 + 80) as char
    }
}

/// The value of a short-code digit, or `None` for a character that is not one.
pub open spec fn code_value(c: char) -> Option<int> {
    let n = c as int;
    if 48 <= n <= 57 {
        Some(n - 48)
    } else if 65 <= n <= 72 {
        Some(n - 65 + 10)
    } else if 74 <= n <= 78 {
        Some(n - 74 + 18)
    } else if 80 <= n <= 90 {
        Some(n - 80 + 23)
    } else {
        None
    }
}

/// Every character of `s` is a short-code digit.
pub open spec fn is_code_text(s: Seq<char>) -> bool {
    forall|i: int| 0 <= i < s.len() ==> (#[trigger] code_value(s[i])) is Some
}

/// The number that a string of short-code digits denotes (most significant first).
pub open spec fn decode34(s: Seq<char>) -> int
    decreases s.len(),
{
    if s.len() == 0 {
        0
    } else {
        decode34(s.drop_last()) * 34 + code_value(s.last())->0
    }
}

/// The short code of `n`: its base-34 digits, most significant first; zero has no digits.
pub open spec fn encode34(n: nat) -> Seq<char>
    decreases n,
{
    if n == 0 {
        seq![]
    } else {
        encode34(n / 34).push(code_digit((n % 34) as int))
    }
}

/// The strings that `de_code` accepts: short-code digits only, at most seven of
/// them (so that every power of 34 it uses fits in a `u32`), denoting a `u32`.
pub open spec fn decodable(s: Seq<char>) -> bool {
    &&& is_code_text(s)
    &&& s.len() <= 7
    &&& decode34(s) <= u32::MAX
}

/// `34` to the power `k`.
pub open spec fn pow34(k: nat) -> nat
    decreases k,
{
    if k == 0 {
        1
    } else {
        34 * pow34((k - 1) as nat)
    }
}

pub proof fn lemma_code_digit_value(d: int)
    requires
        0 <= d < 34,
    ensures
        code_value(code_digit(d)) == Some(d),
{
}

pub proof fn lemma_code_value_digit(c: char)
    requires
        code_value(c) is Some,
    ensures
        0 <= code_value(c)->0 < 34,
        code_digit(code_value(c)->0) == c,
{
}

fn code_char(d: u32) -> (c: char)
    requires
        d < 34,
    ensures
        c == code_digit(d as int),
{
    if d < 10 {
        ((d + 48) as u8) as char
    } else if d < 18 {
        ((d - 10 + 65) as u8) as char
    } else if d < 23 {
        ((d - 18 + 74) as u8) as char
    } else {
        ((d - 23 + 80) as u8) as char
    }
}

fn char_code_value(c: char) -> (r: Option<u32>)
    ensures
        r matches Some(v) ==> code_value(c) == Some(v as int),
        r is None ==> code_value(c) is None,
{
    let n = c as u32;
    if 48 <= n && n <= 57 {
        Some(n - 48)
    } else if 65 <= n && n <= 72 {
        Some(n - 65 + 10)
    } else if 74 <= n && n <= 78 {
        Some(n - 74 + 18)
    } else if 80 <= n && n <= 90 {
        Some(n - 80 + 23)
    } else {
        None
    }
}

/// Writes `num` as a short code (base 34, digits `0-9` and the capitals without `I` and `O`).
/// Zero gives the empty string.
pub fn gen_code(num: u32) -> (res: String)
    ensures
        res@ == encode34(num as nat),
{
    let mut suffix: Vec<char> = Vec::new();
    let mut cur: u32 = num;
    while cur != 0
        invariant
            encode34(num as nat) == encode34(cur as nat) + suffix@,
        decreases cur,
    {
        let d = code_char(cur % 34);
        let ghost before = suffix@;
        suffix.insert(0, d);
        assert(encode34(cur as nat) == encode34((cur / 34) as nat).push(d));
        assert(encode34((cur / 34) as nat).push(d) + before =~= encode34((cur / 34) as nat)
            + suffix@);
        cur = cur / 34;
    }
    assert(encode34(0) + suffix@ =~= suffix@);
    string_from_chars(&suffix)
}


proof fn lemma_decode_nonneg(s: Seq<char>)
    requires
        is_code_text(s),
    ensures
        decode34(s) >= 0,
    decreases s.len(),
{
    if s.len() > 0 {
        assert(code_value(s[s.len() - 1]) is Some);
        lemma_decode_nonneg(s.drop_last());
    }
}

proof fn lemma_decode_take_le(s: Seq<char>, k: int)
    requires
        is_code_text(s),
        0 <= k <= s.len(),
    ensures
        decode34(s.take(k)) <= decode34(s),
    decreases s.len(),
{
    if k == s.len() {
        assert(s.take(k) =~= s);
    } else {
        let p = s.drop_last();
        assert(p.take(k) =~= s.take(k));
        lemma_decode_take_le(p, k);
        lemma_decode_nonneg(p);
        assert(code_value(s[s.len() - 1]) is Some);
    }
}

proof fn lemma_pow34_mono(a: nat, b: nat)
    requires
        a <= b,
    ensures
        pow34(a) <= pow34(b),
    decreases b,
{
    if a < b {
        lemma_pow34_mono(a, (b - 1) as nat);
    }
}

proof fn lemma_decode_step(s: Seq<char>, i: int)
    requires
        0 <= i < s.len(),
    ensures
        decode34(s.take(i + 1)) == decode34(s.take(i)) * 34 + code_value(s[i])->0,
{
    assert(s.take(i + 1).drop_last() =~= s.take(i));
}

/// Reads a short code back into its number: the inverse of `gen_code`.
/// The empty string reads as zero.
pub fn de_code(code_num: &str) -> (res: u32)
    requires
        decodable(code_num@),
    ensures
        res == decode34(code_num@),
{
    let n = code_num.unicode_len();
    let mut acc: u64 = 0;
    let mut i: usize = 0;
    while i < n
        invariant
            n == code_num@.len(),
            i <= n,
            decodable(code_num@),
            acc == decode34(code_num@.take(i as int)),
        decreases n - i,
    {
        let c = code_num.get_char(i);
        assert(code_value(code_num@[i as int]) is Some);
        let v: u32 = match char_code_value(c) {
            Some(v) => v,
            None => 0,
        };
        proof {
            lemma_decode_step(code_num@, i as int);
            lemma_decode_take_le(code_num@, i + 1);
        }
        acc = acc * 34 + v as u64;
        i = i + 1;
    }
    assert(code_num@.take(n as int) =~= code_num@);
    acc as u32
}

/// Whether `de_code` accepts `code_num`: short-code digits only, at most seven
/// of them, denoting a number that fits in a `u32`.
pub fn is_decodable(code_num: &str) -> (res: bool)
    ensures
        res == decodable(code_num@),
{
    let n = code_num.unicode_len();
    if n > 7 {
        return false;
    }
    let mut acc: u64 = 0;
    let mut i: usize = 0;
    while i < n
        invariant
            n == code_num@.len(),
            n <= 7,
            i <= n,
            is_code_text(code_num@.take(i as int)),
            acc == decode34(code_num@.take(i as int)),
            acc < pow34(i as nat),
        decreases n - i,
    {
        let c = code_num.get_char(i);
        let v: u32 = match char_code_value(c) {
            Some(v) => v,
            None => {
                assert(code_value(code_num@[i as int]) is None);
                return false;
            },
        };
        proof {
            lemma_decode_step(code_num@, i as int);
            lemma_pow34_mono((i + 1) as nat, 7);
            reveal_with_fuel(pow34, 8);
            assert(is_code_text(code_num@.take(i + 1))) by {
                assert forall|j: int| 0 <= j < i + 1 implies (#[trigger] code_value(
                    code_num@.take(i + 1)[j],
                )) is Some by {
                    if j < i {
                        assert(code_num@.take(i + 1)[j] == code_num@.take(i as int)[j]);
                    }
                }
            }
        }
        acc = acc * 34 + v as u64;
        i = i + 1;
    }
    assert(code_num@.take(n as int) =~= code_num@);
    acc <= 0xffff_ffff
}

proof fn lemma_encode_decode(n: nat)
    ensures
        is_code_text(encode34(n)),
        decode34(encode34(n)) == n,
    decreases n,
{
    if n > 0 {
        lemma_encode_decode(n / 34);
        let p = encode34(n / 34);
        let c = code_digit((n % 34) as int);
        lemma_code_digit_value((n % 34) as int);
        assert(encode34(n) == p.push(c));
        assert(p.push(c).drop_last() =~= p);
        assert forall|i: int| 0 <= i < p.push(c).len() implies (#[trigger] code_value(
            p.push(c)[i],
        )) is Some by {
            if i < p.len() {
                assert(p.push(c)[i] == p[i]);
            }
        }
    }
}

proof fn lemma_encode_len(n: nat, k: nat)
    requires
        n < pow34(k),
    ensures
        encode34(n).len() <= k,
    decreases n,
{
    if n > 0 {
        assert(k > 0);
        lemma_encode_len(n / 34, (k - 1) as nat);
    }
}

/// Law: every `u32` survives the round trip through its short code. `de_code`
/// accepts `gen_code(n)`, and reads it back as `n`.
pub proof fn short_code_roundtrip(n: u32)
    ensures
        decodable(encode34(n as nat)),
        decode34(encode34(n as nat)) == n,
{
    lemma_encode_decode(n as nat);
    reveal_with_fuel(pow34, 8);
    lemma_encode_len(n as nat, 7);
}

/// Law: distinct numbers get distinct short codes.
pub proof fn short_codes_distinct(a: u32, b: u32)
    requires
        a != b,
    ensures
        encode34(a as nat) != encode34(b as nat),
{
    lemma_encode_decode(a as nat);
    lemma_encode_decode(b as nat);
}

proof fn lemma_decode_positive(s: Seq<char>)
    requires
        is_code_text(s),
        s.len() > 0,
        s[0] != '0',
    ensures
        decode34(s) > 0,
    decreases s.len(),
{
    assert(code_value(s[s.len() - 1]) is Some);
    if s.len() == 1 {
        assert(code_value(s[0]) is Some);
        assert(s.drop_last().len() == 0);
        assert(decode34(s.drop_last()) == 0);
        assert(s.last() == s[0]);
    } else {
        let p = s.drop_last();
        assert(p[0] == s[0]);
        assert forall|i: int| 0 <= i < p.len() implies (#[trigger] code_value(p[i])) is Some by {
            assert(p[i] == s[i]);
        }
        lemma_decode_positive(p);
    }
}

/// Law: a short code without a leading `'0'` is the code of the number it
/// denotes: `gen_code(de_code(s)) == s`.
pub proof fn canonical_code_roundtrip(s: Seq<char>)
    requires
        is_code_text(s),
        s.len() == 0 || s[0] != '0',
    ensures
        encode34(decode34(s) as nat) == s,
    decreases s.len(),
{
    if s.len() > 0 {
        let p = s.drop_last();
        let c = s.last();
        assert(code_value(s[s.len() - 1]) is Some);
        lemma_code_value_digit(c);
        assert forall|i: int| 0 <= i < p.len() implies (#[trigger] code_value(p[i])) is Some by {
            assert(p[i] == s[i]);
        }
        if p.len() > 0 {
            assert(p[0] == s[0]);
        }
        canonical_code_roundtrip(p);
        lemma_decode_nonneg(p);
        lemma_decode_positive(s);
        let n = decode34(s);
        let v = code_value(c)->0;
        assert(n == decode34(p) * 34 + v);
        assert(n / 34 == decode34(p));
        assert(n % 34 == v);
        assert(s =~= p.push(c));
    }
}

/// The letter for a base-`n` digit in `10..62`: `'a'..'z'` for `10..36`, then `'A'..'Z'`.
pub open spec fn base62_letter(r: int) -> char {
    if r < 36 {
        (r - 10 + 97) as char
    } else {
        (r - 36 + 65) as char
    }
}

/// How `base_n` writes one remainder: a letter for `10..62`, otherwise its
/// decimal text (a remainder of `0..10` is one digit; larger or negative
/// remainders, which only bases above 62 or negative bases produce, are written
/// out in full).
pub open spec fn base_n_digit_text(r: i32) -> Seq<char> {
    if 9 < r && r < 62 {
        seq![base62_letter(r as int)]
    } else {
        int_decimal(r as int)
    }
}

/// The text `base_n` produces for `num` in base `base` (the base as a `u64`):
/// the digit texts of the remainders, most significant first; zero gives the
/// empty string.
pub open spec fn base_n_text(num: nat, base: nat) -> Seq<char>
    decreases num,
{
    if num == 0 || base < 2 {
        seq![]
    } else {
        proof {
            vstd::arithmetic::div_mod::lemma_div_decreases(num as int, base as int);
        }
        base_n_text(num / base, base) + base_n_digit_text(((num % base) as u64) as i32)
    }
}

fn base_n_digit_chars(r: i32) -> (res: Vec<char>)
    ensures
        res@ == base_n_digit_text(r),
{
    if 9 < r && r < 62 {
        let c: char = if r < 36 {
            ((r - 10 + 97) as u8) as char
        } else {
            ((r - 36 + 65) as u8) as char
        };
        let mut v: Vec<char> = Vec::new();
        v.push(c);
        assert(v@ =~= seq![base62_letter(r as int)]);
        v
    } else {
        i64_decimal_chars(r as i64)
    }
}

/// Writes `num` in base `n`, most significant digit first: remainders `0..10`
/// as decimal digits, `10..36` as `a..z`, `36..62` as `A..Z`, any other
/// remainder as its decimal text. Zero gives the empty string. The base is
/// taken as `n as u64`. Base 0 would divide by zero and base 1 would never
/// finish, so a nonzero `num` needs another base.
pub fn base_n(num: u64, n: i32) -> (res: String)
    requires
        num == 0 || (n != 0 && n != 1),
    ensures
        res@ == base_n_text(num as nat, (n as u64) as nat),
{
    let base: u64 = n as u64;
    assert(n != 0i32 && n != 1i32 ==> (n as u64) >= 2u64) by (bit_vector);
    let mut suffix: Vec<char> = Vec::new();
    let mut cur: u64 = num;
    while cur != 0
        invariant
            base == (n as u64),
            num == 0 || base >= 2,
            cur == 0 || base >= 2,
            base_n_text(num as nat, base as nat) == base_n_text(cur as nat, base as nat) + suffix@,
        decreases cur,
    {
        let r: i32 = (cur % base) as i32;
        let mut text = base_n_digit_chars(r);
        let ghost before = suffix@;
        assert(base_n_text(cur as nat, base as nat) == base_n_text((cur / base) as nat, base as nat)
            + base_n_digit_text(r));
        text.append(&mut suffix);
        suffix = text;
        assert(base_n_text((cur / base) as nat, base as nat) + base_n_digit_text(r) + before
            =~= base_n_text((cur / base) as nat, base as nat) + suffix@);
        assert(cur / base < cur) by (nonlinear_arith)
            requires
                cur > 0,
                base >= 2,
        ;
        cur = cur / base;
    }
    assert(base_n_text(0, base as nat) + suffix@ =~= suffix@);
    string_from_chars(&suffix)
}

/// Law: every short code `gen_code` writes passes the short-code check of the
/// share lookup (`share::is_legal_short_code`), and has at most seven characters.
pub proof fn generated_codes_are_legal(n: u32)
    ensures
        is_code_text(encode34(n as nat)),
        encode34(n as nat).len() <= 7,
{
    short_code_roundtrip(n);
}

/// `s` comes before `t` in character order, the two being of equal length: at
/// the first place where they differ, `s` has the smaller character.
pub open spec fn lex_less(s: Seq<char>, t: Seq<char>) -> bool {
    &&& s.len() == t.len()
    &&& exists|i: int|
        0 <= i < s.len() && s.take(i) == t.take(i) && (#[trigger] s[i] as int) < (t[i] as int)
}

proof fn lemma_encode_len_mono(a: nat, b: nat)
    requires
        a <= b,
    ensures
        encode34(a).len() <= encode34(b).len(),
    decreases b,
{
    if a > 0 {
        vstd::arithmetic::div_mod::lemma_div_is_ordered(a as int, b as int, 34);
        lemma_encode_len_mono(a / 34, b / 34);
    }
}

proof fn lemma_code_digit_ordered(d: int, e: int)
    requires
        0 <= d < e < 34,
    ensures
        (code_digit(d) as int) < (code_digit(e) as int),
{
}

/// Law: short codes grow with their numbers. A larger number never has a
/// shorter code, and of two codes of the same length the larger number's comes
/// later in character order (the digits `0-9A-HJ-NP-Z` are in ASCII order).
pub proof fn short_codes_ordered(a: u32, b: u32)
    requires
        a < b,
    ensures
        encode34(a as nat).len() <= encode34(b as nat).len(),
        encode34(a as nat).len() == encode34(b as nat).len() ==> lex_less(
            encode34(a as nat),
            encode34(b as nat),
        ),
{
    lemma_encode_len_mono(a as nat, b as nat);
    if encode34(a as nat).len() == encode34(b as nat).len() {
        lemma_encode_lex(a as nat, b as nat);
    }
}

proof fn lemma_encode_lex(a: nat, b: nat)
    requires
        a < b,
        encode34(a).len() == encode34(b).len(),
    ensures
        lex_less(encode34(a), encode34(b)),
    decreases b,
{
    assert(a > 0) by {
        if a == 0 {
            assert(encode34(b).len() > 0);
        }
    }
    let qa = a / 34;
    let qb = b / 34;
    let pa = encode34(qa);
    let pb = encode34(qb);
    let ca = code_digit((a % 34) as int);
    let cb = code_digit((b % 34) as int);
    assert(encode34(a) == pa.push(ca));
    assert(encode34(b) == pb.push(cb));
    vstd::arithmetic::div_mod::lemma_div_is_ordered(a as int, b as int, 34);
    if qa == qb {
        lemma_code_digit_ordered((a % 34) as int, (b % 34) as int);
        let i = pa.len() as int;
        assert(pa.push(ca).take(i) =~= pb.push(cb).take(i));
        assert(pa.push(ca)[i] == ca);
        assert(pb.push(cb)[i] == cb);
    } else {
        lemma_encode_lex(qa, qb);
        let i = choose|i: int|
            0 <= i < pa.len() && pa.take(i) == pb.take(i) && (#[trigger] pa[i] as int) < (pb[i] as int);
        assert(pa.push(ca).take(i) =~= pa.take(i));
        assert(pb.push(cb).take(i) =~= pb.take(i));
        assert(pa.push(ca)[i] == pa[i]);
        assert(pb.push(cb)[i] == pb[i]);
    }
}

/// The lowercase radix digit for `d` in `0..36`: `'0'..'9'`, then `'a'..'z'`.
pub open spec fn radix_digit(d: int) -> char {
    if d < 10 {
        (d + 48) as char
    } else {
        (d - 10 + 97) as char
    }
}

/// A positive number written in base `base` with lowercase digits, most
/// significant first, as Rust's `{}`, `{:x}`, `{:o}` and `{:b}` formatting
/// writes it in bases 10, 16, 8 and 2.
pub open spec fn radix_text(n: nat, base: nat) -> Seq<char>
    decreases n,
{
    if n < base || base < 2 {
        seq![radix_digit(n as int)]
    } else {
        proof {
            vstd::arithmetic::div_mod::lemma_div_decreases(n as int, base as int);
        }
        radix_text(n / base, base).push(radix_digit((n % base) as int))
    }
}

proof fn lemma_radix_decimal(n: nat)
    ensures
        radix_text(n, 10) == nat_decimal(n),
    decreases n,
{
    if n >= 10 {
        lemma_radix_decimal(n / 10);
    }
}

/// Law: in the bases up to 36, `base_n` writes a positive number as Rust's
/// formatting does: `base_n(num, 10)` is `num.to_string()`, and bases 16, 8
/// and 2 give `{:x}`, `{:o}` and `{:b}`.
pub proof fn base_n_matches_radix_formatting(num: nat, base: nat)
    requires
        num > 0,
        2 <= base <= 36,
    ensures
        base_n_text(num, base) == radix_text(num, base),
        base == 10 ==> base_n_text(num, base) == nat_decimal(num),
    decreases num,
{
    let r = num % base;
    assert(((r as u64) as i32) == r);
    if num < base {
        assert(num / base == 0) by (nonlinear_arith)
            requires
                num < base,
                base >= 2,
        ;
        assert(num % base == num) by (nonlinear_arith)
            requires
                num < base,
                base >= 2,
        ;
        assert(base_n_text(0, base) =~= Seq::<char>::empty());
        assert(base_n_text(num, base) =~= base_n_digit_text(num as i32));
        if num <= 9 {
            assert(int_decimal(num as int) == nat_decimal(num));
        }
    } else {
        vstd::arithmetic::div_mod::lemma_div_decreases(num as int, base as int);
        assert(num / base > 0) by (nonlinear_arith)
            requires
                num >= base,
                base >= 2,
        ;
        assert(r < base) by (nonlinear_arith)
            requires
                r == num % base,
                base >= 2,
        ;
        base_n_matches_radix_formatting(num / base, base);
        assert(base_n_digit_text(r as i32) =~= seq![radix_digit(r as int)]);
        assert(base_n_text(num, base) =~= radix_text(num / base, base) + seq![radix_digit(r as int)]);
    }
    if base == 10 {
        lemma_radix_decimal(num);
    }
}
} // verus!
