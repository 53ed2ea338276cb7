//! Amounts in satoshi and their decimal rendering in whole coins.
//!
//! An amount is a count of satoshi. It is written down in coins: the whole
//! coins in decimal, and, where the rendering asks for them, a point and the
//! remaining satoshi as exactly eight digits.

use vstd::prelude::*;
use vstd::string::*;

verus! {

/// Number of satoshi in one coin.
pub const COIN: u128 = 100_000_000;

/// Number of digits after the decimal point of an amount written in coins.
pub const FRACTION_DIGITS: u8 = 8;

/// The character that stands for the decimal digit `d`.
pub open spec fn digit_char(d: int) -> char {
    if d == 0 {
        '0'
    } else if d == 1 {
        '1'
    } else if d == 2 {
        '2'
    } else if d == 3 {
        '3'
    } else if d == 4 {
        '4'
    } else if d == 5 {
        '5'
    } else if d == 6 {
        '6'
    } else if d == 7 {
        '7'
    } else if d == 8 {
        '8'
    } else {
        '9'
    }
}

/// Whether `c` is one of the ten decimal digits.
pub open spec fn is_digit(c: char) -> bool {
    exists|d: int| 0 <= d < 10 && c == #[trigger] digit_char(d)
}

/// The decimal numeral of `n`, without leading zeros (`0` is `"0"`).
pub open spec fn decimal(n: nat) -> Seq<char>
    decreases n,
{
    if n < 10 {
        seq![digit_char(n as int)]
    } else {
        decimal(n / 10).push(digit_char((n % 10) as int))
    }
}

/// The lowest `width` decimal digits of `n`, zeros in front included.
pub open spec fn padded(n: nat, width: nat) -> Seq<char>
    decreases width,
{
    if width == 0 {
        Seq::empty()
    } else {
        padded(n / 10, (width - 1) as nat).push(digit_char((n % 10) as int))
    }
}

/// An amount of `sat` satoshi in coins with all eight fractional digits:
/// the whole coins, a point, and the rest as eight digits.
pub open spec fn spec_fixed(sat: nat) -> Seq<char> {
    decimal(sat / (COIN as nat)).push('.') + padded(sat % (COIN as nat), FRACTION_DIGITS as nat)
}

/// An amount of `sat` satoshi in coins, in the short form: a whole number of
/// coins is written without a point, any other amount as `spec_fixed` has it.
pub open spec fn spec_amount(sat: nat) -> Seq<char> {
    if sat % (COIN as nat) == 0 {
        decimal(sat / (COIN as nat))
    } else {
        spec_fixed(sat)
    }
}

/// The distance between `a` and `b`.
pub open spec fn spec_distance(a: int, b: int) -> int {
    if a >= b {
        a - b
    } else {
        b - a
    }
}

/// The one-character text of the digit `d`.
fn digit_text(d: u8) -> (s: &'static str)
    requires
        d < 10,
    ensures
        s@ == seq![digit_char(d as int)],
{
    proof {
        reveal_strlit("0");
        reveal_strlit("1");
        reveal_strlit("2");
        reveal_strlit("3");
        reveal_strlit("4");
        reveal_strlit("5");
        reveal_strlit("6");
        reveal_strlit("7");
        reveal_strlit("8");
        reveal_strlit("9");
    }
    let s = if d == 0 {
        "0"
    } else if d == 1 {
        "1"
    } else if d == 2 {
        "2"
    } else if d == 3 {
        "3"
    } else if d == 4 {
        "4"
    } else if d == 5 {
        "5"
    } else if d == 6 {
        "6"
    } else if d == 7 {
        "7"
    } else if d == 8 {
        "8"
    } else {
        "9"
    };
    assert(s@ =~= seq![digit_char(d as int)]);
    s
}

/// Appends the decimal numeral of `n` to `buf`.
pub fn push_decimal(buf: &mut String, n: u128)
    ensures
        final(buf)@ == old(buf)@ + decimal(n as nat),
    decreases n,
{
    if n >= 10 {
        push_decimal(buf, n / 10);
    }
    let ghost before = buf@;
    buf.append(digit_text((n % 10) as u8));
    assert(before + seq![digit_char((n % 10) as int)] =~= old(buf)@ + decimal(n as nat));
}

/// Appends the lowest `width` decimal digits of `n` to `buf`.
pub fn push_padded(buf: &mut String, n: u128, width: u8)
    ensures
        final(buf)@ == old(buf)@ + padded(n as nat, width as nat),
    decreases width,
{
    if width > 0 {
        push_padded(buf, n / 10, width - 1);
        let ghost before = buf@;
        buf.append(digit_text((n % 10) as u8));
        assert(before + seq![digit_char((n % 10) as int)] =~= old(buf)@ + padded(
            n as nat,
            width as nat,
        ));
    } else {
        assert(buf@ =~= old(buf)@ + padded(n as nat, width as nat));
    }
}

/// The decimal numeral of `n`.
pub fn format_decimal(n: u128) -> (text: String)
    ensures
        text@ == decimal(n as nat),
{
    let mut text = String::new();
    push_decimal(&mut text, n);
    assert(text@ =~= decimal(n as nat));
    text
}

/// Renders `sat` satoshi in coins with all eight fractional digits, whether
/// or not they are zero.
pub fn format_fixed(sat: u128) -> (text: String)
    ensures
        text@ == spec_fixed(sat as nat),
{
    let mut text = String::new();
    push_decimal(&mut text, sat / COIN);
    proof {
        reveal_strlit(".");
    }
    let ghost whole = text@;
    text.append(".");
    assert(text@ =~= decimal((sat / COIN) as nat).push('.')) by {
        assert("."@ =~= seq!['.']);
        assert(whole =~= decimal((sat / COIN) as nat));
    }
    push_padded(&mut text, sat % COIN, FRACTION_DIGITS);
    text
}

/// Renders `sat` satoshi in coins in the short form: no point and no
/// fractional digits for a whole number of coins, all eight otherwise.
pub fn format_amount(sat: u128) -> (text: String)
    ensures
        text@ == spec_amount(sat as nat),
{
    if sat % COIN == 0 {
        format_decimal(sat / COIN)
    } else {
        format_fixed(sat)
    }
}

/// The distance between two amounts.
pub fn distance(a: u128, b: u128) -> (d: u128)
    ensures
        d == spec_distance(a as int, b as int),
{
    if a >= b {
        a - b
    } else {
        b - a
    }
}

/// A digit's character is a digit, and no digit is the decimal point.
pub proof fn lemma_digit_char_is_digit(d: int)
    requires
        0 <= d < 10,
    ensures
        is_digit(digit_char(d)),
        digit_char(d) != '.',
{
}

/// A decimal numeral is not empty and holds digits only.
pub proof fn lemma_decimal_is_digits(n: nat)
    ensures
        decimal(n).len() >= 1,
        forall|i: int| 0 <= i < decimal(n).len() ==> is_digit(#[trigger] decimal(n)[i]),
    decreases n,
{
    if n < 10 {
        lemma_digit_char_is_digit(n as int);
    } else {
        lemma_decimal_is_digits(n / 10);
        lemma_digit_char_is_digit((n % 10) as int);
    }
}

/// A padded numeral has exactly the width asked for, and holds digits only.
pub proof fn lemma_padded_is_digits(n: nat, width: nat)
    ensures
        padded(n, width).len() == width,
        forall|i: int| 0 <= i < width ==> is_digit(#[trigger] padded(n, width)[i]),
    decreases width,
{
    if width > 0 {
        lemma_padded_is_digits(n / 10, (width - 1) as nat);
        lemma_digit_char_is_digit((n % 10) as int);
    }
}

/// The fixed rendering always has eight fractional digits: it ends in a
/// point and eight digits, and holds digits only before the point, whether
/// or not the amount is a whole number of coins.
pub proof fn lemma_fixed_has_eight_fraction_digits(sat: nat)
    ensures
        ({
            let text = spec_fixed(sat);
            let whole = decimal(sat / (COIN as nat));
            &&& text.len() == whole.len() + 9
            &&& whole.len() >= 1
            &&& text.subrange(0, whole.len() as int) == whole
            &&& text[whole.len() as int] == '.'
            &&& forall|i: int| 0 <= i < whole.len() ==> is_digit(#[trigger] text[i])
            &&& forall|i: int| whole.len() < i < text.len() ==> is_digit(#[trigger] text[i])
        }),
{
    let text = spec_fixed(sat);
    let whole = decimal(sat / (COIN as nat));
    let fraction = padded(sat % (COIN as nat), FRACTION_DIGITS as nat);
    lemma_decimal_is_digits(sat / (COIN as nat));
    lemma_padded_is_digits(sat % (COIN as nat), FRACTION_DIGITS as nat);
    assert(text.subrange(0, whole.len() as int) =~= whole);
    assert forall|i: int| 0 <= i < whole.len() implies is_digit(#[trigger] text[i]) by {
        assert(text[i] == whole[i]);
    }
    assert forall|i: int| whole.len() < i < text.len() implies is_digit(#[trigger] text[i]) by {
        assert(text[i] == fraction[i - whole.len() - 1]);
    }
}

/// The short rendering of a whole number of coins is the numeral of the
/// coins: digits only, no point.
pub proof fn lemma_whole_amount_has_no_point(sat: nat)
    requires
        sat % (COIN as nat) == 0,
    ensures
        spec_amount(sat) == decimal(sat / (COIN as nat)),
        forall|i: int| 0 <= i < spec_amount(sat).len() ==> #[trigger] spec_amount(sat)[i] != '.',
{
    lemma_decimal_is_digits(sat / (COIN as nat));
    assert forall|i: int| 0 <= i < spec_amount(sat).len() implies #[trigger] spec_amount(sat)[i]
        != '.' by {
        assert(is_digit(decimal(sat / (COIN as nat))[i]));
    }
}

/// The short rendering of any other amount is the fixed one.
pub proof fn lemma_fractional_amount_is_fixed(sat: nat)
    requires
        sat % (COIN as nat) != 0,
    ensures
        spec_amount(sat) == spec_fixed(sat),
{
}

/// The digit that `c` stands for; 0 where it is no digit.
pub open spec fn digit_value(c: char) -> nat {
    if c == '1' {
        1
    } else if c == '2' {
        2
    } else if c == '3' {
        3
    } else if c == '4' {
        4
    } else if c == '5' {
        5
    } else if c == '6' {
        6
    } else if c == '7' {
        7
    } else if c == '8' {
        8
    } else if c == '9' {
        9
    } else {
        0
    }
}

/// The number that a text of digits denotes.
pub open spec fn numeral_value(digits: Seq<char>) -> nat
    decreases digits.len(),
{
    if digits.len() == 0 {
        0
    } else {
        numeral_value(digits.drop_last()) * 10 + digit_value(digits.last())
    }
}

/// Ten to the power `e`.
pub open spec fn pow10(e: nat) -> nat
    decreases e,
{
    if e == 0 {
        1
    } else {
        10 * pow10((e - 1) as nat)
    }
}

/// A decimal numeral denotes the number it was made from.
pub proof fn lemma_decimal_reads_back(n: nat)
    ensures
        numeral_value(decimal(n)) == n,
    decreases n,
{
    if n < 10 {
        assert(decimal(n).drop_last() =~= Seq::<char>::empty());
        assert(numeral_value(decimal(n).drop_last()) == 0);
    } else {
        lemma_decimal_reads_back(n / 10);
        assert(decimal(n).drop_last() =~= decimal(n / 10));
    }
}

/// A padded numeral denotes the number it was made from, where the width
/// has room for it.
pub proof fn lemma_padded_reads_back(n: nat, width: nat)
    requires
        n < pow10(width),
    ensures
        numeral_value(padded(n, width)) == n,
    decreases width,
{
    if width > 0 {
        lemma_padded_reads_back(n / 10, (width - 1) as nat);
        assert(padded(n, width).drop_last() =~= padded(n / 10, (width - 1) as nat));
    }
}

/// One coin is ten to the power of the number of fractional digits.
pub proof fn lemma_coin_is_power_of_ten()
    ensures
        COIN == pow10(FRACTION_DIGITS as nat),
{
    reveal_with_fuel(pow10, 9);
}

/// The fixed rendering loses nothing: the numeral before the point and the
/// eight digits after it give the amount back.
pub proof fn lemma_fixed_reads_back(sat: nat)
    ensures
        numeral_value(decimal(sat / (COIN as nat))) * COIN + numeral_value(
            padded(sat % (COIN as nat), FRACTION_DIGITS as nat),
        ) == sat,
{
    lemma_coin_is_power_of_ten();
    lemma_decimal_reads_back(sat / (COIN as nat));
    lemma_padded_reads_back(sat % (COIN as nat), FRACTION_DIGITS as nat);
}

} // verus!
