//! Names of parameterised strategies.

use vstd::prelude::*;

verus! {

/// The decimal digit `d` (below ten) as a character.
pub open spec fn digit_char(d: nat) -> char {
    if d == 0 {
        '0'
    } else if d == 1 {
        '1'
    } else if d == 2 {
        '2'
    } else if d == 3 {
        '3'
    } else if d == 4 {
        '4'
    } else if d == 5 {
        '5'
    } else if d == 6 {
        '6'
    } else if d == 7 {
        '7'
    } else if d == 8 {
        '8'
    } else {
        '9'
    }
}

/// The decimal digits of `n`, most significant first, without leading zeros.
pub open spec fn decimal(n: nat) -> Seq<char>
    decreases n,
{
    if n < 10 {
        seq![digit_char(n)]
    } else {
        decimal(n / 10).push(digit_char(n % 10))
    }
}

fn digit_text(d: u64) -> (r: &'static str)
    requires
        d < 10,
    ensures
        r@ == seq![digit_char(d as nat)],
{
    proof {
        reveal_strlit("0");
        reveal_strlit("1");
        reveal_strlit("2");
        reveal_strlit("3");
        reveal_strlit("4");
        reveal_strlit("5");
        reveal_strlit("6");
        reveal_strlit("7");
        reveal_strlit("8");
        reveal_strlit("9");
    }
    if d == 0 {
        "0"
    } else if d == 1 {
        "1"
    } else if d == 2 {
        "2"
    } else if d == 3 {
        "3"
    } else if d == 4 {
        "4"
    } else if d == 5 {
        "5"
    } else if d == 6 {
        "6"
    } else if d == 7 {
        "7"
    } else if d == 8 {
        "8"
    } else {
        "9"
    }
}

/// Appends the decimal digits of `n` to `text`.
pub fn append_decimal(text: &mut String, n: u64)
    ensures
        final(text)@ == old(text)@ + decimal(n as nat),
    decreases n,
{
    if n >= 10 {
        append_decimal(text, n / 10);
    }
    let digit = digit_text(n % 10);
    text.append(digit);
    proof {
        if n < 10 {
            assert(decimal(n as nat) == seq![digit_char(n as nat)]);
        }
    }
}

/// `x` in decimal, with a leading minus sign when it is negative.
pub open spec fn signed_decimal(x: int) -> Seq<char> {
    if x < 0 {
        seq!['-'] + decimal((-x) as nat)
    } else {
        decimal(x as nat)
    }
}

/// Appends `x` in decimal, signed, to `text`.
pub fn append_signed(text: &mut String, x: i32)
    ensures
        final(text)@ == old(text)@ + signed_decimal(x as int),
{
    proof {
        reveal_strlit("-");
    }
    if x < 0 {
        let ghost start = text@;
        text.append("-");
        let magnitude: i64 = -(x as i64);
        append_decimal(text, magnitude as u64);
        proof {
            assert(text@ =~= start + signed_decimal(x as int));
        }
    } else {
        append_decimal(text, x as u64);
    }
}

/// `prefix`, the decimal digits of `n`, then `suffix`.
pub fn numbered_label(prefix: &str, n: u64, suffix: &str) -> (r: String)
    ensures
        r@ == prefix@ + decimal(n as nat) + suffix@,
{
    let mut label = String::from_str(prefix);
    append_decimal(&mut label, n);
    label.append(suffix);
    label
}

/// `n` tenths written with one decimal place: the digits of `n / 10`, a
/// point, the digit `n % 10`.
pub open spec fn tenths_text(n: nat) -> Seq<char> {
    decimal(n / 10) + seq!['.'] + decimal(n % 10)
}

/// Appends `n` tenths, written with one decimal place, to `text`.
pub fn append_tenths(text: &mut String, n: u64)
    ensures
        final(text)@ == old(text)@ + tenths_text(n as nat),
{
    proof {
        reveal_strlit(".");
    }
    let ghost start = text@;
    append_decimal(text, n / 10);
    text.append(".");
    append_decimal(text, n % 10);
    proof {
        assert(text@ =~= start + tenths_text(n as nat));
    }
}

/// `prefix`, `n` tenths written with one decimal place, then `suffix`.
pub fn tenths_label(prefix: &str, n: u64, suffix: &str) -> (r: String)
    ensures
        r@ == prefix@ + tenths_text(n as nat) + suffix@,
{
    let mut label = String::from_str(prefix);
    append_tenths(&mut label, n);
    label.append(suffix);
    label
}

/// `n` hundredths written with two decimal places: the digits of
/// `n / 100`, a point, then the two digits of `n % 100`.
pub open spec fn hundredths_text(n: nat) -> Seq<char> {
    decimal(n / 100) + seq!['.', digit_char((n % 100) / 10), digit_char(n % 10)]
}

/// Appends `n` hundredths, written with two decimal places, to `text`.
pub fn append_hundredths(text: &mut String, n: u64)
    ensures
        final(text)@ == old(text)@ + hundredths_text(n as nat),
{
    proof {
        reveal_strlit(".");
    }
    let ghost start = text@;
    append_decimal(text, n / 100);
    text.append(".");
    let tens = digit_text((n % 100) / 10);
    text.append(tens);
    let units = digit_text(n % 10);
    text.append(units);
    proof {
        assert(text@ =~= start + hundredths_text(n as nat));
    }
}

} // verus!
