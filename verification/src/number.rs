//! Unsigned decimal numbers: reading the fields of a date token, and
//! writing a year.

use vstd::prelude::*;

verus! {

/// Whether `c` is one of the ten ASCII decimal digits.
pub open spec fn is_digit(c: char) -> bool {
    '0' <= c <= '9'
}

/// The value of the decimal digit `c`.
pub open spec fn digit_value(c: char) -> nat
    recommends
        is_digit(c),
{
    (c as nat - '0' as nat) as nat
}

/// Whether `s` consists of decimal digits only.
pub open spec fn all_digits(s: Seq<char>) -> bool {
    forall|i: int| 0 <= i < s.len() ==> is_digit(#[trigger] s[i])
}

/// The number that the digits of `s` denote in base ten, most significant first.
pub open spec fn decimal_value(s: Seq<char>) -> nat
    recommends
        all_digits(s),
    decreases s.len(),
{
    if s.len() == 0 {
        0
    } else {
        10 * decimal_value(s.drop_last()) + digit_value(s.last())
    }
}

/// The digits of a field once an optional leading plus sign is taken off.
pub open spec fn unsigned_digits(s: Seq<char>) -> Seq<char> {
    if s.len() > 0 && s[0] == '+' {
        s.skip(1)
    } else {
        s
    }
}

/// The number that a field denotes: an optional plus sign followed by one
/// or more decimal digits. Anything else (an empty field, a lone sign, a
/// minus sign, a blank, a letter) denotes nothing.
pub open spec fn parse_unsigned(s: Seq<char>) -> Option<nat> {
    let digits = unsigned_digits(s);
    if digits.len() > 0 && all_digits(digits) {
        Some(decimal_value(digits))
    } else {
        None
    }
}

/// What reading a field as a 16-bit unsigned number gives: the number it
/// denotes, unless it denotes none or one above `u16::MAX`.
pub open spec fn parse_u16_spec(s: Seq<char>) -> Option<u16> {
    match parse_unsigned(s) {
        Some(v) => if v <= u16::MAX {
            Some(v as u16)
        } else {
            None
        },
        None => None,
    }
}

/// Appending a digit multiplies the value by ten and adds the digit.
pub proof fn lemma_decimal_value_push(s: Seq<char>, c: char)
    ensures
        decimal_value(s.push(c)) == 10 * decimal_value(s) + digit_value(c),
{
    assert(s.push(c).drop_last() =~= s);
}

/// A prefix of a digit string never denotes more than the whole string.
pub proof fn lemma_decimal_value_prefix(s: Seq<char>, k: int)
    requires
        0 <= k <= s.len(),
    ensures
        decimal_value(s.take(k)) <= decimal_value(s),
    decreases s.len(),
{
    if k == s.len() {
        assert(s.take(k) =~= s);
    } else {
        lemma_decimal_value_prefix(s.drop_last(), k);
        assert(s.drop_last().take(k) =~= s.take(k));
    }
}

/// A field of at most four characters denotes at most 9999.
pub proof fn lemma_field_bound(s: Seq<char>)
    requires
        s.len() <= 4,
    ensures
        parse_unsigned(s) matches Some(v) ==> v <= 9999,
{
    let d = unsigned_digits(s);
    if d.len() > 0 && all_digits(d) {
        lemma_digits_bound(d);
    }
}

/// A string of at most four digits denotes at most 9999.
pub proof fn lemma_digits_bound(d: Seq<char>)
    requires
        d.len() <= 4,
        all_digits(d),
    ensures
        d.len() <= 0 ==> decimal_value(d) == 0,
        d.len() <= 1 ==> decimal_value(d) <= 9,
        d.len() <= 2 ==> decimal_value(d) <= 99,
        d.len() <= 3 ==> decimal_value(d) <= 999,
        decimal_value(d) <= 9999,
    decreases d.len(),
{
    if d.len() > 0 {
        lemma_digits_bound(d.drop_last());
        assert(is_digit(d[d.len() - 1]));
    }
}

/// The number that four digits write, most significant first.
pub open spec fn four_digit_number(a: char, b: char, c: char, d: char) -> nat
    recommends
        is_digit(a),
        is_digit(b),
        is_digit(c),
        is_digit(d),
{
    1000 * digit_value(a) + 100 * digit_value(b) + 10 * digit_value(c) + digit_value(d)
}

/// A field of exactly four digits denotes the number that they write.
pub proof fn lemma_four_digit_field(s: Seq<char>)
    requires
        s.len() == 4,
        all_digits(s),
    ensures
        parse_unsigned(s) == Some(four_digit_number(s[0], s[1], s[2], s[3])),
        parse_u16_spec(s) == Some(four_digit_number(s[0], s[1], s[2], s[3]) as u16),
        four_digit_number(s[0], s[1], s[2], s[3]) <= 9999,
{
    assert(is_digit(s[0]) && is_digit(s[1]) && is_digit(s[2]) && is_digit(s[3]));
    let s3 = s.drop_last();
    let s2 = s3.drop_last();
    let s1 = s2.drop_last();
    assert(s1.drop_last().len() == 0);
    assert(decimal_value(s1.drop_last()) == 0);
    assert(decimal_value(s1) == digit_value(s[0]));
    assert(decimal_value(s2) == 10 * decimal_value(s1) + digit_value(s[1]));
    assert(decimal_value(s3) == 10 * decimal_value(s2) + digit_value(s[2]));
    assert(decimal_value(s) == 10 * decimal_value(s3) + digit_value(s[3]));
}

/// Reads `c` as a decimal digit.
pub fn digit_of(c: char) -> (r: Option<u16>)
    ensures
        r is Some <==> is_digit(c),
        r matches Some(d) ==> d == digit_value(c) && d <= 9,
{
    if '0' <= c && c <= '9' {
        Some((c as u32 - '0' as u32) as u16)
    } else {
        None
    }
}

/// Reads a whole string as a 16-bit unsigned decimal number, as the
/// standard library's integer parsing does: an optional plus sign, then
/// one or more digits, and a value that fits the type.
pub fn parse_u16(s: &str) -> (r: Option<u16>)
    ensures
        r == parse_u16_spec(s@),
{
    let ghost digits = unsigned_digits(s@);
    let mut signed: bool = false;
    let mut seen: bool = false;
    let mut acc: u16 = 0;
    for c in it: s.chars()
        invariant
            it.seq() == s@,
            digits == unsigned_digits(s@),
            signed <==> it.index() > 0 && s@[0] == '+',
            seen <==> it.index() > (if signed { 1int } else { 0int }),
            ({
                let start = if signed { 1int } else { 0int };
                &&& it.index() >= start ==> digits.take(it.index() - start) =~= s@.subrange(start, it.index() as int)
                &&& it.index() >= start ==> all_digits(digits.take(it.index() - start))
                &&& it.index() >= start ==> acc == decimal_value(digits.take(it.index() - start))
                &&& it.index() < start ==> acc == 0
            }),
    {
        let ghost k = it.index() as int;
        let ghost start = if signed { 1int } else { 0int };
        assert(c == s@[k]);
        if c == '+' && !signed && !seen {
            signed = true;
        } else {
            match digit_of(c) {
                None => {
                    assert(!is_digit(digits[k - start]));
                    return None;
                },
                Some(d) => {
                    let next: u32 = acc as u32 * 10 + d as u32;
                    proof {
                        assert(digits.take(k + 1 - start) =~= digits.take(k - start).push(c));
                        lemma_decimal_value_push(digits.take(k - start), c);
                        lemma_decimal_value_prefix(digits, k + 1 - start);
                    }
                    if next > u16::MAX as u32 {
                        return None;
                    }
                    acc = next as u16;
                    seen = true;
                },
            }
        }
    }
    proof {
        let start = if signed { 1int } else { 0int };
        assert(digits.take(s@.len() - start) =~= digits);
    }
    if seen {
        Some(acc)
    } else {
        None
    }
}

/// The character that writes the digit `d`.
pub open spec fn digit_char(d: nat) -> char
    recommends
        d < 10,
{
    if d == 0 {
        '0'
    } else if d == 1 {
        '1'
    } else if d == 2 {
        '2'
    } else if d == 3 {
        '3'
    } else if d == 4 {
        '4'
    } else if d == 5 {
        '5'
    } else if d == 6 {
        '6'
    } else if d == 7 {
        '7'
    } else if d == 8 {
        '8'
    } else {
        '9'
    }
}

/// The digits of `n` in base ten, most significant first, without leading
/// zeros; zero is written with one digit.
pub open spec fn decimal_digits(n: nat) -> Seq<char>
    decreases n,
{
    if n < 10 {
        seq![digit_char(n)]
    } else {
        decimal_digits(n / 10).push(digit_char(n % 10))
    }
}

/// Writing a number and reading it again gives the number back.
pub proof fn lemma_decimal_digits_value(n: nat)
    ensures
        decimal_digits(n).len() >= 1,
        all_digits(decimal_digits(n)),
        decimal_value(decimal_digits(n)) == n,
        decimal_digits(n)[0] != '+',
    decreases n,
{
    if n < 10 {
        let s = decimal_digits(n);
        assert(s.drop_last() =~= Seq::<char>::empty());
        assert(decimal_value(s.drop_last()) == 0);
        assert(is_digit(s[0]));
        assert(digit_value(s.last()) == n);
    } else {
        lemma_decimal_digits_value(n / 10);
        let head = decimal_digits(n / 10);
        let s = decimal_digits(n);
        assert(s.drop_last() =~= head);
        assert(is_digit(s.last()));
        assert(digit_value(s.last()) == n % 10);
        assert forall|i: int| 0 <= i < s.len() implies is_digit(#[trigger] s[i]) by {
            if i < head.len() {
                assert(s[i] == head[i]);
            }
        }
    }
}

/// How many digits a number below 10000 is written with.
pub proof fn lemma_decimal_digits_len(n: nat)
    ensures
        n < 10 ==> decimal_digits(n).len() == 1,
        10 <= n < 100 ==> decimal_digits(n).len() == 2,
        100 <= n < 1000 ==> decimal_digits(n).len() == 3,
        1000 <= n < 10000 ==> decimal_digits(n).len() == 4,
    decreases n,
{
    if n >= 10 {
        lemma_decimal_digits_len(n / 10);
    }
}

/// The one-character string of the digit `d`.
fn digit_str(d: u16) -> (r: &'static str)
    requires
        d < 10,
    ensures
        r@ == seq![digit_char(d as nat)],
{
    proof {
        reveal_strlit("0");
        reveal_strlit("1");
        reveal_strlit("2");
        reveal_strlit("3");
        reveal_strlit("4");
        reveal_strlit("5");
        reveal_strlit("6");
        reveal_strlit("7");
        reveal_strlit("8");
        reveal_strlit("9");
    }
    let r = if d == 0 {
        "0"
    } else if d == 1 {
        "1"
    } else if d == 2 {
        "2"
    } else if d == 3 {
        "3"
    } else if d == 4 {
        "4"
    } else if d == 5 {
        "5"
    } else if d == 6 {
        "6"
    } else if d == 7 {
        "7"
    } else if d == 8 {
        "8"
    } else {
        "9"
    };
    assert(r@ =~= seq![digit_char(d as nat)]);
    r
}

/// Appends the decimal digits of `n` to `out`.
pub fn push_decimal(n: u16, out: &mut String)
    ensures
        final(out)@ == old(out)@ + decimal_digits(n as nat),
    decreases n,
{
    if n >= 10 {
        push_decimal(n / 10, out);
    }
    out.append(digit_str(n % 10));
    assert(out@ =~= old(out)@ + decimal_digits(n as nat));
}

} // verus!
