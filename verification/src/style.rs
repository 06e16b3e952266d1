use vstd::prelude::*;

use crate::config::ThemeConfig;
use crate::text::{all_digits, digits_value, is_digit, is_white_space, parse_unsigned};

verus! {

/// The stylesheet up to the content padding value.
pub const CSS_HEAD: &'static str = "
        /* keep gtk's window background from showing behind the rounded cairo shape */
        window#hyprosd-window,
        window#hyprosd-window.background,
        window#hyprosd-window.hyprosd-transparent,
        window#hyprosd-window.hyprosd-transparent.background,
        window.hyprosd-transparent,
        window.hyprosd-transparent.background,
        window.hyprosd-transparent > *,
        window#hyprosd-window > decoration,
        window#hyprosd-window > decoration > widget,
        .hyprosd-transparent,
        #hyprosd-root {
            background: transparent;
            background-color: transparent;
            box-shadow: none;
            border: none;
            outline: none;
        }
        #hyprosd-surface {
            background: transparent;
            background-color: transparent;
        }
        #hyprosd-content {
            padding: ";

/// The stylesheet from the padding unit to the icon colour value.
pub const CSS_MIDDLE: &'static str = "px;
            background: transparent;
            background-color: transparent;
        }
        #hyprosd-icon {
            color: ";

/// The stylesheet after the icon colour value.
pub const CSS_TAIL: &'static str = ";
        }
        #hyprosd-icon.hyprosd-muted {
            color: rgba(245, 245, 245, 0.55);
        }
        ";

/// The character of a decimal digit.
pub open spec fn digit_char(d: int) -> char {
    (0x30 + d) as char
}

/// The decimal digits of a natural number, without leading zeros.
pub open spec fn decimal_digits(n: nat) -> Seq<char>
    decreases n,
{
    if n < 10 {
        seq![digit_char(n as int)]
    } else {
        decimal_digits(n / 10).push(digit_char((n % 10) as int))
    }
}

/// How `Display` writes an integer: a `-` for negatives, then the digits.
pub open spec fn decimal(n: int) -> Seq<char> {
    if n < 0 {
        seq!['-'] + decimal_digits((-n) as nat)
    } else {
        decimal_digits(n as nat)
    }
}

/// Decimal digits are digits, neither white space nor a sign, and there is at
/// least one of them.
pub proof fn lemma_decimal_digits_are_digits(n: nat)
    ensures
        decimal_digits(n).len() > 0,
        all_digits(decimal_digits(n), 10),
        forall|i: int|
            0 <= i < decimal_digits(n).len() ==> !is_white_space(#[trigger] decimal_digits(n)[i])
                && decimal_digits(n)[i] != '+',
        digits_value(decimal_digits(n), 10) == n,
    decreases n,
{
    assert((digit_char((n % 10) as int) as u32) == 0x30 + n % 10);
    assert(crate::text::digit_value(digit_char((n % 10) as int)) == n % 10);
    if n < 10 {
        assert(n % 10 == n);
        assert(decimal_digits(n) == seq![digit_char(n as int)]);
        assert(decimal_digits(n).last() == digit_char((n % 10) as int));
        assert(decimal_digits(n).drop_last() =~= Seq::<char>::empty());
        assert(digits_value(Seq::<char>::empty(), 10) == 0);
        assert(digits_value(decimal_digits(n), 10) == n % 10);
    }
    if n >= 10 {
        lemma_decimal_digits_are_digits(n / 10);
        let prev = decimal_digits(n / 10);
        let d = digit_char((n % 10) as int);
        assert(decimal_digits(n) == prev.push(d));
        assert(decimal_digits(n).drop_last() =~= prev);
        assert(digits_value(decimal_digits(n), 10) == digits_value(prev, 10) * 10 + n % 10);
        assert(n == (n / 10) * 10 + n % 10) by (nonlinear_arith);
        assert forall|i: int| 0 <= i < decimal_digits(n).len() implies #[trigger] is_digit(
            decimal_digits(n)[i],
            10,
        ) && !is_white_space(decimal_digits(n)[i]) && decimal_digits(n)[i] != '+' by {
            if i < prev.len() {
                assert(decimal_digits(n)[i] == prev[i]);
            }
        }
    }
}

/// Reading back a number written in decimal gives the number, as long as it
/// fits.
pub proof fn lemma_decimal_round_trip(n: nat, max: nat)
    ensures
        parse_unsigned(decimal_digits(n), 10, max) == (if n <= max {
            Some(n)
        } else {
            None::<nat>
        }),
{
    lemma_decimal_digits_are_digits(n);
    assert(decimal_digits(n)[0] != '+');
}

/// A one-character string holding a decimal digit.
fn digit_str(c: char) -> (s: &'static str)
    requires
        0x30 <= c as u32 <= 0x39,
    ensures
        s@ == seq![c],
{
    proof {
        reveal_strlit("0");
        reveal_strlit("1");
        reveal_strlit("2");
        reveal_strlit("3");
        reveal_strlit("4");
        reveal_strlit("5");
        reveal_strlit("6");
        reveal_strlit("7");
        reveal_strlit("8");
        reveal_strlit("9");
    }
    if c == '0' {
        "0"
    } else if c == '1' {
        "1"
    } else if c == '2' {
        "2"
    } else if c == '3' {
        "3"
    } else if c == '4' {
        "4"
    } else if c == '5' {
        "5"
    } else if c == '6' {
        "6"
    } else if c == '7' {
        "7"
    } else if c == '8' {
        "8"
    } else {
        "9"
    }
}

/// An integer written in decimal.
pub fn decimal_string(value: i32) -> (text: String)
    ensures
        text@ == decimal(value as int),
{
    let wide = value as i64;
    let mut m: u64 = if wide < 0 {
        (-wide) as u64
    } else {
        wide as u64
    };
    let ghost n: nat = if value < 0 {
        (-(value as int)) as nat
    } else {
        value as nat
    };
    let mut acc: Vec<char> = Vec::new();
    while m >= 10
        invariant
            m <= n,
            decimal_digits(n) == decimal_digits(m as nat) + acc@,
            forall|j: int| 0 <= j < acc@.len() ==> 0x30 <= #[trigger] (acc@[j] as u32) <= 0x39,
        decreases m,
    {
        let d = (m % 10) as u8;
        let c = (0x30u8 + d) as char;
        assert(c == digit_char((m % 10) as int));
        acc.insert(0, c);
        assert(decimal_digits(m as nat) == decimal_digits((m / 10) as nat).push(c));
        assert(decimal_digits((m / 10) as nat) + acc@ =~= decimal_digits((m / 10) as nat).push(c)
            + acc@.drop_first());
        m = m / 10;
    }
    let first = (0x30u8 + (m as u8)) as char;
    assert(first == digit_char(m as int));
    acc.insert(0, first);
    assert(decimal_digits(m as nat) =~= seq![first]);
    let mut text = String::new();
    if value < 0 {
        text.append("-");
        proof {
            reveal_strlit("-");
        }
    }
    let mut i: usize = 0;
    let ghost prefix = text@;
    while i < acc.len()
        invariant
            i <= acc@.len(),
            text@ == prefix + acc@.take(i as int),
            forall|j: int| 0 <= j < acc@.len() ==> 0x30 <= #[trigger] (acc@[j] as u32) <= 0x39,
        decreases acc@.len() - i,
    {
        let c = acc[i];
        assert(0x30 <= (acc@[i as int] as u32) <= 0x39);
        text.append(digit_str(c));
        assert(acc@.take(i + 1) =~= acc@.take(i as int).push(acc@[i as int]));
        i = i + 1;
    }
    assert(acc@.take(acc@.len() as int) =~= acc@);
    assert(text@ =~= decimal(value as int));
    text
}

/// The stylesheet of the display: transparent windows, the content padding,
/// and the icon colour, dimmed for muted or off states.
pub open spec fn stylesheet_spec(padding: i32, foreground: Seq<char>) -> Seq<char> {
    CSS_HEAD@ + decimal(padding as int) + CSS_MIDDLE@ + foreground + CSS_TAIL@
}

/// The stylesheet for a theme.
pub fn stylesheet(theme: &ThemeConfig) -> (css: String)
    ensures
        css@ == stylesheet_spec(theme.padding, theme.foreground@),
{
    let mut css = String::from_str(CSS_HEAD);
    let padding = decimal_string(theme.padding);
    css.append(padding.as_str());
    css.append(CSS_MIDDLE);
    css.append(theme.foreground.as_str());
    css.append(CSS_TAIL);
    css
}

} // verus!
