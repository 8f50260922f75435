use vstd::prelude::*;

verus! {

/// Appends one character to a string, as `String::push` of the standard
/// library does: the string afterwards is the old one followed by `c`.
#[verifier::external_body]
pub(crate) fn push_char(s: &mut String, c: char)
    ensures
        final(s)@ == old(s)@.push(c),
{
    s.push(c)
}

/// The characters of a string slice, in order.
pub fn chars_of(s: &str) -> (v: Vec<char>)
    ensures
        v@ == s@,
{
    let mut v: Vec<char> = Vec::new();
    for c in it: s.chars()
        invariant
            v@ == it.seq().take(it.index() as int),
            it.seq() == s@,
    {
        v.push(c);
    }
    v
}

/// A string made of the given characters.
pub fn string_of(chars: &Vec<char>) -> (s: String)
    ensures
        s@ == chars@,
{
    let mut s = String::new();
    let mut i: usize = 0;
    while i < chars.len()
        invariant
            i <= chars.len(),
            s@ == chars@.take(i as int),
        decreases chars.len() - i,
    {
        push_char(&mut s, chars[i]);
        i += 1;
    }
    s
}

/// The character that writes the decimal digit `d`.
pub open spec fn digit_char(d: nat) -> char
    recommends
        d < 10,
{
    ((48 + d) as u8) as char
}

/// Whether `c` is one of the ten ASCII digits.
pub open spec fn is_digit(c: char) -> bool {
    '0' <= c && c <= '9'
}

/// The number a digit character stands for.
pub open spec fn digit_value(c: char) -> nat
    recommends
        is_digit(c),
{
    (c as u32 - 48) as nat
}

/// The decimal notation of `n` without leading zeros.
pub open spec fn decimal_text(n: nat) -> Seq<char>
    decreases n,
{
    if n < 10 {
        seq![digit_char(n)]
    } else {
        decimal_text(n / 10).push(digit_char(n % 10))
    }
}

/// The number that a sequence of decimal digits denotes, most significant
/// digit first; the empty sequence denotes zero.
pub open spec fn decimal_value(digits: Seq<char>) -> nat
    decreases digits.len(),
{
    if digits.len() == 0 {
        0
    } else {
        decimal_value(digits.drop_last()) * 10 + digit_value(digits.last())
    }
}

/// `count` copies of the digit zero.
pub open spec fn zeros(count: nat) -> Seq<char> {
    Seq::new(count, |i: int| '0')
}

/// The decimal notation of `n`, filled with zeros on the left up to `width`
/// characters; longer numbers are left as they are.
pub open spec fn padded_decimal_text(n: nat, width: nat) -> Seq<char> {
    let plain = decimal_text(n);
    if plain.len() >= width {
        plain
    } else {
        zeros((width - plain.len()) as nat) + plain
    }
}

/// Writing a number and reading the digits back gives the number.
pub proof fn lemma_decimal_round_trip(n: nat)
    ensures
        decimal_value(decimal_text(n)) == n,
        decimal_text(n).len() >= 1,
        forall|i: int| 0 <= i < decimal_text(n).len() ==> is_digit(#[trigger] decimal_text(n)[i]),
    decreases n,
{
    if n < 10 {
        let t = decimal_text(n);
        assert(t.drop_last() =~= Seq::<char>::empty());
        assert(decimal_value(t.drop_last()) == 0);
        assert(t.last() == digit_char(n));
    } else {
        lemma_decimal_round_trip(n / 10);
        let t = decimal_text(n);
        assert(t.drop_last() =~= decimal_text(n / 10));
        assert(t.last() == digit_char(n % 10));
    }
}

/// Appends the decimal notation of `n` to `s`.
pub fn push_decimal(s: &mut String, n: u64)
    ensures
        final(s)@ == old(s)@ + decimal_text(n as nat),
    decreases n,
{
    if n >= 10 {
        push_decimal(s, n / 10);
    }
    let d: u8 = (n % 10) as u8;
    let c: char = (48u8 + d) as char;
    assert(c == digit_char((n % 10) as nat));
    push_char(s, c);
    proof {
        if n < 10 {
            assert(old(s)@ + decimal_text(n as nat) =~= old(s)@.push(c));
        } else {
            assert(old(s)@ + decimal_text(n as nat) =~= (old(s)@ + decimal_text((n / 10) as nat)).push(c));
        }
    }
}

/// The number of characters that the decimal notation of `n` takes.
pub fn decimal_width(n: u64) -> (w: usize)
    ensures
        w == decimal_text(n as nat).len(),
        1 <= w <= 20,
{
    let mut w: usize = 1;
    let mut rest: u64 = n;
    assert(pow10((w - 1) as nat) == 1 && rest * pow10((w - 1) as nat) == n) by {
        assert(pow10(0) == 1);
    }
    while rest >= 10
        invariant
            1 <= w,
            w + decimal_text(rest as nat).len() == decimal_text(n as nat).len() + 1,
            rest * pow10((w - 1) as nat) <= n,
            w <= 20,
        decreases rest,
    {
        proof {
            lemma_pow10_step((w - 1) as nat);
            assert(rest / 10 * 10 <= rest);
            assert((rest / 10) * pow10(w as nat) <= n) by (nonlinear_arith)
                requires
                    rest / 10 * 10 <= rest,
                    rest * pow10((w - 1) as nat) <= n,
                    pow10(w as nat) == 10 * pow10((w - 1) as nat),
                    pow10((w - 1) as nat) >= 1,
            ;
            if w == 20 {
                lemma_pow10_20();
                assert(false) by (nonlinear_arith)
                    requires
                        rest >= 10,
                        rest * pow10(19) <= n,
                        n <= u64::MAX,
                        pow10(19) == 10_000_000_000_000_000_000nat,
                ;
            }
        }
        rest = rest / 10;
        w += 1;
    }
    w
}

/// Ten to the power `e`.
pub open spec fn pow10(e: nat) -> nat
    decreases e,
{
    if e == 0 {
        1
    } else {
        10 * pow10((e - 1) as nat)
    }
}

proof fn lemma_pow10_step(e: nat)
    ensures
        pow10(e + 1) == 10 * pow10(e),
        pow10(e) >= 1,
    decreases e,
{
    if e > 0 {
        lemma_pow10_step((e - 1) as nat);
    }
}

proof fn lemma_pow10_20()
    ensures
        pow10(19) == 10_000_000_000_000_000_000nat,
{
    reveal_with_fuel(pow10, 20);
}

/// Appends the decimal notation of `n` to `s`, filled with zeros on the left
/// up to `width` characters.
pub fn push_padded_decimal(s: &mut String, n: u64, width: usize)
    ensures
        final(s)@ == old(s)@ + padded_decimal_text(n as nat, width as nat),
{
    let w = decimal_width(n);
    let mut i: usize = w;
    while i < width
        invariant
            w <= i,
            i == w || i <= width,
            s@ == old(s)@ + zeros((i - w) as nat),
        decreases width - i,
    {
        push_char(s, '0');
        proof {
            assert(zeros((i + 1 - w) as nat) =~= zeros((i - w) as nat).push('0'));
        }
        i += 1;
    }
    let ghost mid = s@;
    push_decimal(s, n);
    proof {
        if w >= width {
            assert(i == w);
            assert(zeros(0) =~= Seq::<char>::empty());
            assert(mid =~= old(s)@);
        } else {
            assert(i == width);
            assert(mid + decimal_text(n as nat) =~= old(s)@ + (zeros((width - w) as nat)
                + decimal_text(n as nat)));
        }
    }
}

/// Whether a text is made of digits only.
pub open spec fn all_digits(text: Seq<char>) -> bool {
    forall|i: int| 0 <= i < text.len() ==> is_digit(#[trigger] text[i])
}

/// A text without the plus sign that may stand at its start.
pub open spec fn unsigned_part(text: Seq<char>) -> Seq<char> {
    if text.len() > 0 && text[0] == '+' {
        text.skip(1)
    } else {
        text
    }
}

/// The number that a text denotes as an unsigned decimal integer of 32
/// bits: an optional plus sign, then one or more digits and nothing else,
/// with a value that fits. Any other text denotes no number.
pub open spec fn parse_u32_spec(text: Seq<char>) -> Option<u32> {
    let digits = unsigned_part(text);
    if digits.len() == 0 || !all_digits(digits) || decimal_value(digits) > u32::MAX {
        None
    } else {
        Some(decimal_value(digits) as u32)
    }
}

/// A number never gets smaller when a digit is written behind it.
pub proof fn lemma_decimal_value_grows(digits: Seq<char>, c: char)
    requires
        is_digit(c),
    ensures
        decimal_value(digits.push(c)) == decimal_value(digits) * 10 + digit_value(c),
        decimal_value(digits.push(c)) >= decimal_value(digits),
{
    assert(digits.push(c).drop_last() =~= digits);
    assert(digits.push(c).last() == c);
}

/// Reads an unsigned decimal integer of 32 bits.
#[verifier::loop_isolation(false)]
pub fn parse_u32(text: &Vec<char>) -> (r: Option<u32>)
    ensures
        r == parse_u32_spec(text@),
{
    let start: usize = if text.len() > 0 && text[0] == '+' {
        1
    } else {
        0
    };
    let ghost digits = unsigned_part(text@);
    assert(digits =~= text@.skip(start as int));
    if start >= text.len() {
        return None;
    }
    let mut value: u64 = 0;
    let mut i: usize = start;
    assert(digits.take(0) =~= Seq::<char>::empty());
    while i < text.len()
        invariant
            start <= i <= text.len(),
            forall|j: int| 0 <= j < i - start ==> is_digit(#[trigger] digits[j]),
            value == decimal_value(digits.take(i - start)),
            value <= u32::MAX,
        decreases text.len() - i,
    {
        let c = text[i];
        assert(c == digits[i - start]);
        if !(c >= '0' && c <= '9') {
            assert(!is_digit(digits[i - start]));
            return None;
        }
        proof {
            assert(digits.take(i + 1 - start) =~= digits.take(i - start).push(c));
            lemma_decimal_value_grows(digits.take(i - start), c);
        }
        value = value * 10 + (c as u32 - 48) as u64;
        if value > u32::MAX as u64 {
            proof {
                if all_digits(digits) {
                    lemma_decimal_value_prefix(digits, i + 1 - start);
                }
            }
            return None;
        }
        i += 1;
    }
    assert(digits.take(text.len() - start) =~= digits);
    Some(value as u32)
}

/// The digits of a number denote at least what any of their prefixes
/// denotes.
pub proof fn lemma_decimal_value_prefix(digits: Seq<char>, len: int)
    requires
        0 <= len <= digits.len(),
        forall|j: int| len <= j < digits.len() ==> is_digit(#[trigger] digits[j]),
    ensures
        decimal_value(digits.take(len)) <= decimal_value(digits),
    decreases digits.len() - len,
{
    if len == digits.len() {
        assert(digits.take(len) =~= digits);
    } else {
        lemma_decimal_value_prefix(digits, len + 1);
        assert(digits.take(len + 1) =~= digits.take(len).push(digits[len]));
        lemma_decimal_value_grows(digits.take(len), digits[len]);
    }
}

/// Writing a number and reading it back gives the number.
pub proof fn lemma_parse_u32_of_decimal_text(n: u32)
    ensures
        parse_u32_spec(decimal_text(n as nat)) == Some(n),
{
    lemma_decimal_round_trip(n as nat);
    let t = decimal_text(n as nat);
    assert(is_digit(t[0]));
}

} // verus!
