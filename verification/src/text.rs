//! Text as sequences of characters: decimal numbers, and what UTF-8 does to
//! concatenation.

use vstd::prelude::*;
use vstd::string::*;
use vstd::utf8::*;

verus! {

/// Adds one character at the end of a string, as `String::push` documents.
pub assume_specification[ String::push ](s: &mut String, ch: char)
    ensures
        final(s)@ == old(s)@.push(ch),
;

/// The character of a decimal digit.
pub open spec fn digit(d: nat) -> char {
    (48 + d) as char
}

/// A number in decimal, without sign or leading zeros.
pub open spec fn decimal(n: nat) -> Seq<char>
    decreases n,
{
    if n < 10 {
        seq![digit(n)]
    } else {
        decimal(n / 10).push(digit(n % 10))
    }
}

/// An integer in decimal, with a sign where it is negative.
pub open spec fn signed_decimal(n: int) -> Seq<char> {
    if n < 0 {
        seq!['-'] + decimal((-n) as nat)
    } else {
        decimal(n as nat)
    }
}

/// Appends a number in decimal.
pub fn push_decimal(out: &mut String, n: u64)
    ensures
        final(out)@ == old(out)@ + decimal(n as nat),
    decreases n,
{
    if n >= 10 {
        push_decimal(out, n / 10);
    }
    let code: u8 = 48 + (n % 10) as u8;
    out.push(code as char);
}

/// A text and another behind it.
pub fn message(what: &str, detail: &str) -> (out: String)
    ensures
        out@ == what@ + detail@,
{
    let mut out: String = String::new();
    out.append(what);
    out.append(detail);
    assert(out@ =~= what@ + detail@);
    out
}

/// A text about something named: the name with a text on either side.
pub fn about(before: &str, name: &str, after: &str) -> (out: String)
    ensures
        out@ == before@ + name@ + after@,
{
    let mut out = message(before, name);
    out.append(after);
    out
}

/// The characters of a string, in order.
pub fn chars_of(s: &str) -> (out: Vec<char>)
    ensures
        out@ == s@,
{
    let mut out: Vec<char> = Vec::new();
    for c in it: s.chars()
        invariant
            out@ == it.seq().take(it.index()),
            it.seq() == s@,
    {
        out.push(c);
    }
    assert(out@ =~= s@);
    out
}

/// A decimal number is never empty and holds digits only.
pub proof fn decimal_is_digits(n: nat)
    ensures
        decimal(n).len() > 0,
        forall|i: int| 0 <= i < decimal(n).len() ==> '0' <= #[trigger] decimal(n)[i] <= '9',
    decreases n,
{
    if n >= 10 {
        decimal_is_digits(n / 10);
    }
}

/// Two numbers with the same decimal form are the same number.
pub proof fn decimal_is_injective(a: nat, b: nat)
    requires
        decimal(a) == decimal(b),
    ensures
        a == b,
    decreases a,
{
    decimal_is_digits(a / 10);
    decimal_is_digits(b / 10);
    assert(decimal(a).last() == decimal(b).last());
    assert(decimal(a).last() == digit(a % 10));
    assert(decimal(b).last() == digit(b % 10));
    if a >= 10 && b >= 10 {
        assert(decimal(a).drop_last() =~= decimal(a / 10));
        assert(decimal(b).drop_last() =~= decimal(b / 10));
        decimal_is_injective(a / 10, b / 10);
    } else if a >= 10 {
        assert(decimal(b).len() == 1);
    } else if b >= 10 {
        assert(decimal(a).len() == 1);
    }
}

/// A 32-bit number takes at most ten decimal digits.
pub proof fn decimal_of_u32_is_short(n: u32)
    ensures
        decimal(n as nat).len() <= 10,
{
    reveal_with_fuel(decimal, 11);
}

/// A 64-bit number takes at most twenty decimal digits.
pub proof fn decimal_of_u64_is_short(n: u64)
    ensures
        decimal(n as nat).len() <= 20,
{
    reveal_with_fuel(decimal, 11);
    let high = n / 10000000000;
    assert(decimal(n as nat).len() <= decimal(high as nat).len() + 10);
}

/// UTF-8 encodes a concatenation part by part.
pub proof fn encode_utf8_concat(a: Seq<char>, b: Seq<char>)
    ensures
        encode_utf8(a + b) == encode_utf8(a) + encode_utf8(b),
    decreases a.len(),
{
    if a.len() == 0 {
        assert(a + b =~= b);
        assert(encode_utf8(a) + encode_utf8(b) =~= encode_utf8(b));
    } else {
        assert((a + b).drop_first() =~= a.drop_first() + b);
        encode_utf8_concat(a.drop_first(), b);
        assert(encode_utf8(a + b) =~= encode_utf8(a) + encode_utf8(b));
    }
}

/// Two texts with the same UTF-8 encoding are the same text.
pub proof fn encode_utf8_is_injective(a: Seq<char>, b: Seq<char>)
    requires
        encode_utf8(a) == encode_utf8(b),
    ensures
        a == b,
{
    encode_utf8_decode_utf8(a);
    encode_utf8_decode_utf8(b);
}

/// What a row of decimal digits comes to, read from left to right in base ten.
pub open spec fn base_ten(digits: Seq<char>) -> int
    decreases digits.len(),
{
    if digits.len() == 0 {
        0
    } else {
        10 * base_ten(digits.drop_last()) + (digits.last() as int - 48)
    }
}

/// A row of digits that comes to `n`, without zeros ahead of it.
pub open spec fn is_numeral(digits: Seq<char>, n: int) -> bool {
    &&& digits.len() > 0
    &&& forall|i: int| 0 <= i < digits.len() ==> '0' <= #[trigger] digits[i] <= '9'
    &&& digits.len() > 1 ==> digits[0] != '0'
    &&& base_ten(digits) == n
}

/// A row of digits with a sign ahead of it where `n` is negative.
pub open spec fn is_signed_numeral(text: Seq<char>, n: int) -> bool {
    if n < 0 {
        text.len() > 0 && text[0] == '-' && is_numeral(text.skip(1), -n)
    } else {
        is_numeral(text, n)
    }
}

/// A number in decimal, read in base ten, is the number itself.
pub proof fn decimal_reads_back(n: nat)
    ensures
        is_numeral(decimal(n), n as int),
    decreases n,
{
    let d = decimal(n);
    decimal_is_digits(n);
    if n >= 10 {
        decimal_reads_back(n / 10);
        assert(d.drop_last() =~= decimal(n / 10));
        assert(d[0] == decimal(n / 10)[0]);
        assert(d.last() as int == 48 + n % 10);
        if decimal(n / 10).len() == 1 {
            assert(d.drop_last().drop_last() =~= Seq::<char>::empty());
            assert(base_ten(Seq::<char>::empty()) == 0);
            assert(d.drop_last().last() == d[0]);
            assert(base_ten(d.drop_last()) == d[0] as int - 48);
            assert(n / 10 >= 1);
        }
    } else {
        assert(d.drop_last() =~= Seq::<char>::empty());
        assert(base_ten(Seq::<char>::empty()) == 0);
        assert(d.last() as int == 48 + n);
    }
}

/// A row of digits without zeros ahead comes to no less than one, unless it is a
/// zero alone.
proof fn a_numeral_is_positive(digits: Seq<char>)
    requires
        digits.len() > 0,
        forall|i: int| 0 <= i < digits.len() ==> '0' <= #[trigger] digits[i] <= '9',
        digits[0] != '0',
    ensures
        base_ten(digits) > 0,
    decreases digits.len(),
{
    let head = digits.drop_last();
    assert('0' <= digits[digits.len() - 1]);
    if digits.len() > 1 {
        assert forall|i: int| 0 <= i < head.len() implies '0' <= #[trigger] head[i] <= '9' by {
            assert(head[i] == digits[i]);
        }
        a_numeral_is_positive(head);
    } else {
        assert(head =~= Seq::<char>::empty());
    }
}

/// Every number has one numeral: what reads as the number is its decimal form.
pub proof fn a_number_has_one_numeral(digits: Seq<char>, n: nat)
    requires
        is_numeral(digits, n as int),
    ensures
        digits == decimal(n),
    decreases digits.len(),
{
    let head = digits.drop_last();
    let last = digits[digits.len() - 1];
    assert('0' <= last <= '9');
    if digits.len() == 1 {
        assert(head =~= Seq::<char>::empty());
        assert(base_ten(Seq::<char>::empty()) == 0);
        assert(n == last as int - 48);
        assert(digit(n) == last);
        assert(digits =~= seq![last]);
    } else {
        assert forall|i: int| 0 <= i < head.len() implies '0' <= #[trigger] head[i] <= '9' by {
            assert(head[i] == digits[i]);
        }
        assert(head[0] == digits[0]);
        a_numeral_is_positive(head);
        let high = base_ten(head);
        assert(n == 10 * high + (last as int - 48));
        assert(n / 10 == high && n % 10 == last as int - 48);
        a_number_has_one_numeral(head, high as nat);
        assert(digit(n % 10) == last);
        assert(digits =~= head.push(last));
    }
}

/// An integer in decimal, read in base ten behind its sign, is the integer itself.
pub proof fn signed_decimal_reads_back(n: int)
    ensures
        is_signed_numeral(signed_decimal(n), n),
{
    if n < 0 {
        decimal_reads_back((-n) as nat);
        assert(signed_decimal(n).skip(1) =~= decimal((-n) as nat));
    } else {
        decimal_reads_back(n as nat);
    }
}

/// A digit behind a number stands for the units of ten times that number.
pub proof fn one_more_digit_counts_ten_times(n: nat, d: nat)
    requires
        d < 10,
    ensures
        decimal(d) == seq![(48 + d) as char],
        n > 0 ==> decimal(10 * n + d) == decimal(n).push((48 + d) as char),
{
    assert((10 * n + d) / 10 == n && (10 * n + d) % 10 == d);
}

/// Every integer has one numeral with its sign: its decimal form.
pub proof fn an_integer_has_one_numeral(text: Seq<char>, n: int)
    requires
        is_signed_numeral(text, n),
    ensures
        text == signed_decimal(n),
{
    if n < 0 {
        a_number_has_one_numeral(text.skip(1), (-n) as nat);
        assert(text =~= seq!['-'] + text.skip(1));
    } else {
        a_number_has_one_numeral(text, n as nat);
    }
}

} // verus!
