//! Text and byte strings: comparison, prefixes, numerals.

use vstd::prelude::*;

verus! {

/// `s` starts with `prefix`.
pub open spec fn starts(s: Seq<char>, prefix: Seq<char>) -> bool {
    s.len() >= prefix.len() && s.take(prefix.len() as int) == prefix
}

/// `s` ends with `suffix`.
pub open spec fn ends(s: Seq<char>, suffix: Seq<char>) -> bool {
    s.len() >= suffix.len() && s.skip(s.len() - suffix.len()) == suffix
}

/// The digit for `d`, for `d < 16`.
pub open spec fn digit(d: nat) -> Seq<char> {
    if d == 0 {
        "0"@
    } else if d == 1 {
        "1"@
    } else if d == 2 {
        "2"@
    } else if d == 3 {
        "3"@
    } else if d == 4 {
        "4"@
    } else if d == 5 {
        "5"@
    } else if d == 6 {
        "6"@
    } else if d == 7 {
        "7"@
    } else if d == 8 {
        "8"@
    } else if d == 9 {
        "9"@
    } else if d == 10 {
        "a"@
    } else if d == 11 {
        "b"@
    } else if d == 12 {
        "c"@
    } else if d == 13 {
        "d"@
    } else if d == 14 {
        "e"@
    } else {
        "f"@
    }
}

/// The numeral of `n` in the given base, most significant digit first and
/// without leading zeros.
pub open spec fn numeral(n: nat, base: nat) -> Seq<char>
    decreases n,
{
    if base < 2 || n < base {
        digit(n)
    } else {
        proof {
            assert(n / base < n) by (nonlinear_arith)
                requires
                    n >= base,
                    base >= 2,
            ;
        }
        numeral(n / base, base) + digit(n % base)
    }
}

/// The decimal numeral of `n`.
pub open spec fn decimal(n: nat) -> Seq<char> {
    numeral(n, 10)
}

/// The lower-case hexadecimal numeral of `n`.
pub open spec fn hexadecimal(n: nat) -> Seq<char> {
    numeral(n, 16)
}

pub open spec fn is_decimal_digit(c: char) -> bool {
    '0' <= c && c <= '9'
}

/// The number that a string of decimal digits stands for.
pub open spec fn decimal_value(s: Seq<char>) -> nat
    decreases s.len(),
{
    if s.len() == 0 {
        0
    } else {
        decimal_value(s.drop_last()) * 10 + (s.last() as nat - '0' as nat) as nat
    }
}

/// `s` without one leading plus sign.
pub open spec fn unsigned_part(s: Seq<char>) -> Seq<char> {
    if s.len() > 0 && s[0] == '+' {
        s.skip(1)
    } else {
        s
    }
}

/// The 16-bit number that `s` denotes: at least one decimal digit, perhaps
/// after a plus sign, with a value that fits.
pub open spec fn number16(s: Seq<char>) -> Option<u16> {
    let digits = unsigned_part(s);
    if digits.len() > 0 && (forall|i: int|
        0 <= i < digits.len() ==> is_decimal_digit(#[trigger] digits[i])) && decimal_value(digits)
        <= u16::MAX {
        Some(decimal_value(digits) as u16)
    } else {
        None
    }
}

/// The characters of a string, as a vector.
pub fn chars_of(s: &str) -> (r: Vec<char>)
    ensures
        r@ == s@,
{
    let mut out: Vec<char> = Vec::new();
    for c in it: s.chars()
        invariant
            out@ == it.seq().take(it.index()),
            it.seq() == s@,
    {
        out.push(c);
        assert(it.seq().take(it.index() + 1) =~= it.seq().take(it.index()).push(c));
    }
    assert(s@.take(s@.len() as int) =~= s@);
    out
}

/// Whether two strings hold the same text.
pub fn same_text(a: &str, b: &str) -> (r: bool)
    ensures
        r == (a@ == b@),
{
    let left = chars_of(a);
    let right = chars_of(b);
    if left.len() != right.len() {
        return false;
    }
    let mut i: usize = 0;
    while i < left.len()
        invariant
            i <= left@.len(),
            left@.len() == right@.len(),
            left@ == a@,
            right@ == b@,
            forall|k: int| 0 <= k < i ==> left@[k] == right@[k],
        decreases left@.len() - i,
    {
        if left[i] != right[i] {
            return false;
        }
        i = i + 1;
    }
    assert(left@ =~= right@);
    true
}

/// Whether two byte strings are equal.
pub fn same_bytes(a: &[u8], b: &[u8]) -> (r: bool)
    ensures
        r == (a@ == b@),
{
    if a.len() != b.len() {
        return false;
    }
    let mut i: usize = 0;
    while i < a.len()
        invariant
            i <= a@.len(),
            a@.len() == b@.len(),
            forall|k: int| 0 <= k < i ==> a@[k] == b@[k],
        decreases a@.len() - i,
    {
        if a[i] != b[i] {
            return false;
        }
        i = i + 1;
    }
    assert(a@ =~= b@);
    true
}

/// Whether `s` starts with `prefix`.
pub fn starts_with(s: &str, prefix: &str) -> (r: bool)
    ensures
        r == starts(s@, prefix@),
{
    let n: usize = prefix.unicode_len();
    if s.unicode_len() < n {
        return false;
    }
    let head = s.substring_char(0, n);
    assert(head@ =~= s@.take(n as int));
    same_text(head, prefix)
}

fn digit_text(d: u64) -> (r: &'static str)
    requires
        d < 16,
    ensures
        r@ == digit(d as nat),
{
    match d {
        0 => "0",
        1 => "1",
        2 => "2",
        3 => "3",
        4 => "4",
        5 => "5",
        6 => "6",
        7 => "7",
        8 => "8",
        9 => "9",
        10 => "a",
        11 => "b",
        12 => "c",
        13 => "d",
        14 => "e",
        _ => "f",
    }
}

fn numeral_text(n: u64, base: u64) -> (r: String)
    requires
        2 <= base <= 16,
    ensures
        r@ == numeral(n as nat, base as nat),
    decreases n,
{
    if n < base {
        digit_text(n).to_owned()
    } else {
        assert(n / base < n) by (nonlinear_arith)
            requires
                n >= base,
                base >= 2,
        ;
        assert(n % base < base) by (nonlinear_arith)
            requires
                base >= 2,
        ;
        let mut text = numeral_text(n / base, base);
        text.append(digit_text(n % base));
        text
    }
}

/// The decimal numeral of `n`.
pub fn decimal_text(n: u64) -> (r: String)
    ensures
        r@ == decimal(n as nat),
{
    numeral_text(n, 10)
}

/// The lower-case hexadecimal numeral of `n`.
pub fn hexadecimal_text(n: u64) -> (r: String)
    ensures
        r@ == hexadecimal(n as nat),
{
    numeral_text(n, 16)
}

proof fn lemma_digit(d: nat)
    requires
        d < 16,
    ensures
        digit(d).len() == 1,
        digit(d)[0] as int == (if d < 10 {
            '0' as int + d
        } else {
            'a' as int + d - 10
        }),
{
    reveal_strlit("0");
    reveal_strlit("1");
    reveal_strlit("2");
    reveal_strlit("3");
    reveal_strlit("4");
    reveal_strlit("5");
    reveal_strlit("6");
    reveal_strlit("7");
    reveal_strlit("8");
    reveal_strlit("9");
    reveal_strlit("a");
    reveal_strlit("b");
    reveal_strlit("c");
    reveal_strlit("d");
    reveal_strlit("e");
    reveal_strlit("f");
}

/// A numeral consists of digits and letters.
pub(crate) proof fn lemma_numeral_digits(n: nat, base: nat)
    requires
        2 <= base <= 16,
    ensures
        numeral(n, base).len() > 0,
        forall|i: int|
            0 <= i < numeral(n, base).len() ==> (#[trigger] numeral(n, base)[i]) >= '0',
    decreases n,
{
    if n < base {
        lemma_digit(n);
    } else {
        assert(n / base < n && n % base < base) by (nonlinear_arith)
            requires
                n >= base,
                base >= 2,
        ;
        lemma_numeral_digits(n / base, base);
        lemma_digit(n % base);
    }
}

/// Different numbers have different numerals.
pub proof fn law_numerals_are_unique(a: nat, b: nat, base: nat)
    requires
        2 <= base <= 16,
        numeral(a, base) == numeral(b, base),
    ensures
        a == b,
    decreases a,
{
    if a < base {
        lemma_digit(a);
    } else {
        assert(a / base < a && a % base < base && a == (a / base) * base + a % base)
            by (nonlinear_arith)
            requires
                a >= base,
                base >= 2,
        ;
        lemma_numeral_digits(a / base, base);
        lemma_digit(a % base);
    }
    if b < base {
        lemma_digit(b);
    } else {
        assert(b / base < b && b % base < base && b == (b / base) * base + b % base)
            by (nonlinear_arith)
            requires
                b >= base,
                base >= 2,
        ;
        lemma_numeral_digits(b / base, base);
        lemma_digit(b % base);
    }
    if a >= base && b >= base {
        let s = numeral(a, base);
        assert(numeral(a / base, base) =~= s.drop_last());
        assert(numeral(b / base, base) =~= s.drop_last());
        assert(s.last() == digit(a % base)[0]);
        assert(s.last() == digit(b % base)[0]);
        law_numerals_are_unique(a / base, b / base, base);
    }
}

proof fn lemma_decimal_value_grows(s: Seq<char>, i: int)
    requires
        0 <= i <= s.len(),
    ensures
        decimal_value(s.take(i)) <= decimal_value(s),
    decreases s.len() - i,
{
    if i == s.len() {
        assert(s.take(i) =~= s);
    } else {
        assert(s.take(i + 1).drop_last() =~= s.take(i));
        lemma_decimal_value_grows(s, i + 1);
    }
}

/// Reads a 16-bit decimal number, such as a port.
pub fn parse_number16(s: &str) -> (r: Option<u16>)
    ensures
        r == number16(s@),
{
    let chars = chars_of(s);
    let start: usize = if chars.len() > 0 && chars[0] == '+' {
        1
    } else {
        0
    };
    let ghost digits = unsigned_part(s@);
    assert(digits =~= s@.skip(start as int));
    if start >= chars.len() {
        return None;
    }
    let mut value: u32 = 0;
    let mut i: usize = start;
    while i < chars.len()
        invariant
            start <= i <= chars@.len(),
            chars@ == s@,
            digits == s@.skip(start as int),
            digits == unsigned_part(s@),
            forall|k: int|
                0 <= k < i - start ==> is_decimal_digit(#[trigger] digits[k]),
            value == decimal_value(digits.take(i - start)),
            value <= u16::MAX,
        decreases chars@.len() - i,
    {
        let c = chars[i];
        assert(digits[i - start] == c);
        if !(c >= '0' && c <= '9') {
            return None;
        }
        assert(digits.take(i + 1 - start).drop_last() =~= digits.take(i - start));
        assert(digits.take(i + 1 - start).last() == c);
        value = value * 10 + ((c as u32) - ('0' as u32));
        if value > 65535 {
            proof {
                lemma_decimal_value_grows(digits, i + 1 - start);
            }
            return None;
        }
        i = i + 1;
    }
    assert(digits.take(digits.len() as int) =~= digits);
    Some(value as u16)
}

/// A text starts with another one, or ends with it, exactly if they agree
/// character by character there.
pub proof fn law_starts_and_ends(s: Seq<char>, part: Seq<char>)
    ensures
        starts(s, part) <==> part.len() <= s.len() && forall|i: int|
            0 <= i < part.len() ==> s[i] == part[i],
        ends(s, part) <==> part.len() <= s.len() && forall|i: int|
            0 <= i < part.len() ==> #[trigger] s[s.len() - part.len() + i] == part[i],
{
    if part.len() <= s.len() {
        let head = s.take(part.len() as int);
        let tail = s.skip(s.len() - part.len());
        assert(forall|i: int| 0 <= i < part.len() ==> head[i] == s[i]);
        assert(forall|i: int|
            0 <= i < part.len() ==> tail[i] == #[trigger] s[s.len() - part.len() + i]);
        if forall|i: int| 0 <= i < part.len() ==> s[i] == part[i] {
            assert(head =~= part);
        }
        if forall|i: int| 0 <= i < part.len() ==> #[trigger] s[s.len() - part.len() + i] == part[i] {
            assert forall|i: int| 0 <= i < part.len() implies tail[i] == part[i] by {
                assert(tail[i] == s[s.len() - part.len() + i]);
            }
            assert(tail =~= part);
        }
    }
}

/// Every number below ten is one digit in decimal; every other number is the
/// decimal of its tenth part and one more digit, its last. Hexadecimals go by
/// sixteen likewise, and count on from nine with the small letters.
pub proof fn law_numerals_are_positional(n: nat)
    ensures
        n < 10 ==> decimal(n).len() == 1,
        n >= 10 ==> decimal(n).drop_last() == decimal(n / 10) && decimal(n).len() == decimal(
            n / 10,
        ).len() + 1,
        decimal(n).len() >= 1,
        decimal(n).last() as int == '0' as int + n % 10,
        n < 16 ==> hexadecimal(n).len() == 1,
        n >= 16 ==> hexadecimal(n).drop_last() == hexadecimal(n / 16) && hexadecimal(n).len()
            == hexadecimal(n / 16).len() + 1,
        hexadecimal(n).len() >= 1,
        hexadecimal(n).last() as int == (if n % 16 < 10 {
            '0' as int + n % 16
        } else {
            'a' as int + n % 16 - 10
        }),
{
    lemma_digit(n % 10);
    lemma_digit(n % 16);
    assert(n >= 10 ==> decimal(n).drop_last() =~= decimal(n / 10));
    assert(n >= 16 ==> hexadecimal(n).drop_last() =~= hexadecimal(n / 16));
}

/// A string of decimal digits stands for ten times what it stands for without
/// its last digit, plus that digit; the empty one stands for nothing.
pub proof fn law_decimal_value_is_positional(s: Seq<char>, c: char)
    requires
        '0' <= c,
    ensures
        decimal_value(Seq::empty()) == 0,
        decimal_value(s.push(c)) == 10 * decimal_value(s) + (c as int - '0' as int),
{
    assert(s.push(c).drop_last() =~= s);
}

proof fn lemma_decimal_reads_back(n: nat)
    ensures
        decimal_value(decimal(n)) == n,
        decimal(n).len() > 0,
        forall|i: int|
            0 <= i < decimal(n).len() ==> '0' <= #[trigger] decimal(n)[i] && decimal(n)[i] <= '9',
    decreases n,
{
    law_numerals_are_positional(n);
    let s = decimal(n);
    if n < 10 {
        assert(s.drop_last() =~= Seq::empty());
        assert(decimal_value(s.drop_last()) == 0);
    } else {
        lemma_decimal_reads_back(n / 10);
        assert forall|i: int| 0 <= i < s.len() implies '0' <= #[trigger] s[i] && s[i] <= '9' by {
            if i < s.len() - 1 {
                assert(s[i] == decimal(n / 10)[i]);
            }
        }
    }
}

/// Whatever number is written in decimal reads back as that number, with or
/// without a plus sign, if it fits into 16 bits; a larger one is refused.
pub proof fn law_decimals_read_back(n: nat)
    ensures
        decimal_value(decimal(n)) == n,
        number16(decimal(n)) == (if n <= 0xffff {
            Some(n as u16)
        } else {
            None
        }),
        number16(seq!['+'] + decimal(n)) == number16(decimal(n)),
{
    lemma_decimal_reads_back(n);
    let s = decimal(n);
    assert(s[0] >= '0');
    assert((seq!['+'] + s).skip(1) =~= s);
}

/// What is read as a 16-bit number is a string of digits after at most one
/// plus sign, and the number is the one they stand for; and every such string
/// whose number fits is read.
pub proof fn law_numbers_are_digits(s: Seq<char>, digits: Seq<char>, value: u16)
    requires
        digits == (if s.len() > 0 && s[0] == '+' {
            s.skip(1)
        } else {
            s
        }),
    ensures
        number16(s) == Some(value) <==> {
            &&& digits.len() > 0
            &&& forall|i: int|
                0 <= i < digits.len() ==> '0' <= #[trigger] digits[i] && digits[i] <= '9'
            &&& decimal_value(digits) == value
        },
{
    if forall|i: int| 0 <= i < digits.len() ==> is_decimal_digit(#[trigger] digits[i]) {
    } else {
        let i = choose|i: int| 0 <= i < digits.len() && !is_decimal_digit(#[trigger] digits[i]);
        assert(!('0' <= digits[i] && digits[i] <= '9'));
    }
    if forall|i: int| 0 <= i < digits.len() ==> '0' <= #[trigger] digits[i] && digits[i] <= '9' {
        assert forall|i: int| 0 <= i < digits.len() implies is_decimal_digit(#[trigger] digits[i]) by {}
    }
}

} // verus!
