//! Small text utilities: appending characters to a `String` and decimal rendering of integers.

use vstd::prelude::*;
use vstd::string::*;

verus! {

/// Appends one character to a `String` (std's `String::push`).
/// Trusted: the new contents are the old contents followed by `c`.
#[verifier::external_body]
pub(crate) fn push_char(s: &mut String, c: char)
    ensures
        final(s)@ == old(s)@.push(c),
{
    s.push(c);
}

/// The `String` whose characters are exactly those of `chars`, in order.
pub fn string_from_chars(chars: &Vec<char>) -> (res: String)
    ensures
        res@ == chars@,
{
    let mut res = String::new();
    let mut i: usize = 0;
    while i < chars.len()
        invariant
            i <= chars.len(),
            res@ == chars@.take(i as int),
        decreases chars.len() - i,
    {
        push_char(&mut res, chars[i]);
        i = i + 1;
        assert(res@ =~= chars@.take(i as int));
    }
    assert(chars@.take(i as int) =~= chars@);
    res
}

/// The decimal digit character for `d` (`'0'` to `'9'`).
pub open spec fn decimal_digit(d: int) -> char {
    (d + 48) as char
}

/// Decimal rendering of a natural number, most significant digit first, with no
/// leading zeros (zero renders as `"0"`).
pub open spec fn nat_decimal(n: nat) -> Seq<char>
    decreases n,
{
    if n < 10 {
        seq![decimal_digit(n as int)]
    } else {
        nat_decimal(n / 10).push(decimal_digit((n % 10) as int))
    }
}

/// Decimal rendering of an integer as `format!("{}", n)` writes it: a leading
/// `'-'` for negative values.
pub open spec fn int_decimal(n: int) -> Seq<char> {
    if n < 0 {
        seq!['-'] + nat_decimal((-n) as nat)
    } else {
        nat_decimal(n as nat)
    }
}

fn decimal_digit_char(d: u64) -> (c: char)
    requires
        d < 10,
    ensures
        c == decimal_digit(d as int),
{
    ((d + 48) as u8) as char
}

/// Decimal digits of `n`, most significant first.
pub fn u64_decimal_chars(n: u64) -> (res: Vec<char>)
    ensures
        res@ == nat_decimal(n as nat),
{
    let mut suffix: Vec<char> = Vec::new();
    let mut cur: u64 = n;
    while cur >= 10
        invariant
            nat_decimal(n as nat) == nat_decimal(cur as nat) + suffix@,
        decreases cur,
    {
        let d = decimal_digit_char(cur % 10);
        suffix.insert(0, d);
        let ghost before = suffix@;
        assert(nat_decimal(cur as nat) == nat_decimal((cur / 10) as nat).push(d));
        assert(nat_decimal((cur / 10) as nat).push(d) + before.drop_first()
            =~= nat_decimal((cur / 10) as nat) + before);
        cur = cur / 10;
    }
    let d = decimal_digit_char(cur);
    suffix.insert(0, d);
    assert(nat_decimal(cur as nat) =~= seq![d]);
    assert(nat_decimal(n as nat) =~= suffix@);
    suffix
}

/// Decimal rendering of a signed 64-bit integer, as `format!("{}", n)` gives it.
pub fn i64_decimal_chars(n: i64) -> (res: Vec<char>)
    ensures
        res@ == int_decimal(n as int),
{
    if n < 0 {
        let m: u64 = ((-(n + 1)) as u64) + 1;
        assert(m == -(n as int));
        let digits = u64_decimal_chars(m);
        let mut res: Vec<char> = Vec::new();
        res.push('-');
        let mut tail = digits;
        res.append(&mut tail);
        assert(res@ =~= seq!['-'] + nat_decimal(m as nat));
        res
    } else {
        u64_decimal_chars(n as u64)
    }
}

/// The text of a signed 64-bit integer, as `n.to_string()` gives it.
pub fn i64_to_string(n: i64) -> (res: String)
    ensures
        res@ == int_decimal(n as int),
{
    let chars = i64_decimal_chars(n);
    string_from_chars(&chars)
}


/// The lowercase hexadecimal digit for `v` in `0..16`.
pub open spec fn hex_digit(v: int) -> char {
    if v < 10 {
        (v + 48) as char
    } else {
        (v - 10 + 97) as char
    }
}

pub(crate) fn hex_digit_char(v: u8) -> (c: char)
    requires
        v < 16,
    ensures
        c == hex_digit(v as int),
{
    if v < 10 {
        (v + 48) as char
    } else {
        (v - 10 + 97) as char
    }
}

/// Whether two strings hold the same characters.
pub fn str_eq(a: &str, b: &str) -> (res: bool)
    ensures
        res == (a@ == b@),
{
    let n = a.unicode_len();
    let m = b.unicode_len();
    if n != m {
        return false;
    }
    let mut i: usize = 0;
    while i < n
        invariant
            n == a@.len(),
            n == b@.len(),
            i <= n,
            forall|k: int| 0 <= k < i ==> a@[k] == b@[k],
        decreases n - i,
    {
        if a.get_char(i) != b.get_char(i) {
            return false;
        }
        i = i + 1;
    }
    assert(a@ =~= b@);
    true
}

/// The hexadecimal digits of a 128-bit number, most significant first (32 of them).
pub open spec fn hex128(id: u128) -> Seq<char> {
    Seq::new(32, |i: int| hex_digit(((id >> ((124 - 4 * i) as u128)) & 0xfu128) as int))
}

/// The hyphenated lowercase text of a UUID held as a 128-bit number:
/// `xxxxxxxx-xxxx-xxxx-xxxx-xxxxxxxxxxxx`.
pub open spec fn uuid_text(id: u128) -> Seq<char> {
    let h = hex128(id);
    h.subrange(0, 8) + seq!['-'] + h.subrange(8, 12) + seq!['-'] + h.subrange(12, 16) + seq!['-']
        + h.subrange(16, 20) + seq!['-'] + h.subrange(20, 32)
}

/// The hyphenated lowercase text of a UUID, as uuid's `Display` writes it.
pub fn uuid_to_string(id: u128) -> (res: String)
    ensures
        res@ == uuid_text(id),
{
    let mut chars: Vec<char> = Vec::new();
    let mut i: u32 = 0;
    while i < 32
        invariant
            i <= 32,
            chars@ == hex128(id).take(i as int),
        decreases 32 - i,
    {
        let shift: u32 = 124 - 4 * i;
        let nibble: u128 = (id >> (shift as u128)) & 0xfu128;
        assert(nibble < 16) by (bit_vector)
            requires
                nibble == (id >> (shift as u128)) & 0xfu128,
        ;
        chars.push(hex_digit_char(nibble as u8));
        i = i + 1;
        assert(chars@ =~= hex128(id).take(i as int));
    }
    assert(chars@ =~= hex128(id));
    let mut text: Vec<char> = Vec::new();
    let mut j: usize = 0;
    while j < 32
        invariant
            j <= 32,
            chars@ == hex128(id),
            text@ == uuid_text(id).take(
                if j <= 8 { j as int } else if j <= 12 { j + 1 } else if j <= 16 { j + 2 } else if j <= 20 { j + 3 } else { j + 4 },
            ),
        decreases 32 - j,
    {
        if j == 8 || j == 12 || j == 16 || j == 20 {
            text.push('-');
        }
        text.push(chars[j]);
        j = j + 1;
        assert(text@ =~= uuid_text(id).take(
            if j <= 8 { j as int } else if j <= 12 { j + 1 } else if j <= 16 { j + 2 } else if j <= 20 { j + 3 } else { j + 4 },
        ));
    }
    assert(uuid_text(id).take(36) =~= uuid_text(id));
    string_from_chars(&text)
}
} // verus!
