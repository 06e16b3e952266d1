use vstd::prelude::*;

use crate::style::{decimal_digits, lemma_decimal_digits_are_digits, lemma_decimal_round_trip};
use crate::text::{
    is_white_space, lemma_unbroken_text,
    ascii_lowercase, chars_of, contains_seq, find_chars, lowercase_chars, min_nat,
    parse_unsigned, parse_unsigned_chars, split_white_space, tokens, trim, trim_chars, views,
};

verus! {

/// The name fragment of the caps lock LED under `/sys/class/leds`.
pub const CAPS_LOCK_LED: &'static str = "capslock";

/// The name fragment of the num lock LED under `/sys/class/leds`.
pub const NUM_LOCK_LED: &'static str = "numlock";

/// The first token that ends in `%`, without that `%`.
pub open spec fn first_percent_token(toks: Seq<Seq<char>>) -> Option<Seq<char>>
    decreases toks.len(),
{
    if toks.len() == 0 {
        None
    } else if toks[0].len() > 0 && toks[0].last() == '%' {
        Some(toks[0].drop_last())
    } else {
        first_percent_token(toks.drop_first())
    }
}

/// The volume that `pactl get-sink-volume` reports: the first token that ends
/// in `%` must be a `u8` percentage, capped at 100.
pub open spec fn pactl_volume_spec(out: Seq<char>) -> Option<u8> {
    match first_percent_token(tokens(out)) {
        Some(t) => match parse_unsigned(t, 10, 255) {
            Some(v) => Some(min_nat(v, 100) as u8),
            None => None,
        },
        None => None,
    }
}

/// What a lock LED's `brightness` file says: a `u8` after white space is
/// trimmed, and the LED is on when it is not zero.
pub open spec fn led_state_spec(contents: Seq<char>) -> Option<bool> {
    match parse_unsigned(trim(contents), 10, 255) {
        Some(v) => Some(v > 0),
        None => None,
    }
}

/// The brightness and its maximum from a backlight's `brightness` and
/// `max_brightness` files: both `u32` after trimming, and a maximum of zero
/// gives nothing.
pub open spec fn brightness_reading_spec(brightness: Seq<char>, max: Seq<char>) -> Option<(u32, u32)> {
    match (parse_unsigned(trim(brightness), 10, 0xffff_ffff), parse_unsigned(trim(max), 10, 0xffff_ffff)) {
        (Some(b), Some(m)) => if m == 0 {
            None
        } else {
            Some((b as u32, m as u32))
        },
        _ => None,
    }
}

/// Reads the volume percentage out of `pactl get-sink-volume` output.
pub fn pactl_volume(stdout: &str) -> (percent: Option<u8>)
    ensures
        percent == pactl_volume_spec(stdout@),
{
    let chars = chars_of(stdout);
    let toks = split_white_space(chars.as_slice());
    let ghost tv = views(toks@);
    let n = toks.len();
    let mut i: usize = 0;
    assert(tv.skip(0) =~= tv);
    while i < n
        invariant
            n == toks@.len(),
            tv == views(toks@),
            tv == tokens(stdout@),
            i <= n,
            first_percent_token(tv) == first_percent_token(tv.skip(i as int)),
        decreases n - i,
    {
        let t = &toks[i];
        let len = t.len();
        assert(tv.skip(i as int)[0] == t@);
        assert(tv.skip(i as int).drop_first() =~= tv.skip(i + 1));
        if len > 0 && t[len - 1] == '%' {
            let mut digits: Vec<char> = Vec::new();
            let mut k: usize = 0;
            while k < len - 1
                invariant
                    len == t@.len(),
                    len > 0,
                    k <= len - 1,
                    digits@ == t@.take(k as int),
                decreases len - 1 - k,
            {
                digits.push(t[k]);
                assert(t@.take(k + 1) =~= t@.take(k as int).push(t@[k as int]));
                k = k + 1;
            }
            assert(digits@ =~= t@.drop_last());
            let parsed = parse_unsigned_chars(digits.as_slice(), 10, 255);
            return match parsed {
                Some(v) => {
                    let capped: u8 = if v < 100 {
                        v as u8
                    } else {
                        100
                    };
                    Some(capped)
                },
                None => None,
            };
        }
        i = i + 1;
    }
    None
}

/// Whether `pactl get-sink-mute` output says `yes`, in any ASCII case.
pub fn pactl_muted(stdout: &str) -> (muted: bool)
    ensures
        muted == contains_seq(ascii_lowercase(stdout@), "yes"@),
{
    let chars = chars_of(stdout);
    let lower = lowercase_chars(chars.as_slice());
    let needle = chars_of("yes");
    find_chars(lower.as_slice(), needle.as_slice())
}

/// Whether `wpctl get-volume` output marks the sink as muted.
pub fn wpctl_muted(stdout: &str) -> (muted: bool)
    ensures
        muted == contains_seq(stdout@, "[MUTED]"@),
{
    let chars = chars_of(stdout);
    let needle = chars_of("[MUTED]");
    find_chars(chars.as_slice(), needle.as_slice())
}

/// A rounded volume percentage brought into 0 to 100.
pub fn clamp_percent(value: i32) -> (percent: u8)
    ensures
        percent == (if value < 0 {
            0
        } else if value > 100 {
            100
        } else {
            value
        }),
{
    if value < 0 {
        0
    } else if value > 100 {
        100
    } else {
        value as u8
    }
}

/// Reads a lock LED's `brightness` file contents.
pub fn led_state(contents: &str) -> (on: Option<bool>)
    ensures
        on == led_state_spec(contents@),
{
    let chars = chars_of(contents);
    let trimmed = trim_chars(chars.as_slice());
    match parse_unsigned_chars(trimmed.as_slice(), 10, 255) {
        Some(v) => Some(v > 0),
        None => None,
    }
}

/// Reads a backlight's `brightness` and `max_brightness` file contents.
pub fn brightness_reading(brightness: &str, max: &str) -> (reading: Option<(u32, u32)>)
    ensures
        reading == brightness_reading_spec(brightness@, max@),
{
    let b = trim_chars(chars_of(brightness).as_slice());
    let level = match parse_unsigned_chars(b.as_slice(), 10, 0xffff_ffff) {
        Some(v) => v,
        None => return None,
    };
    let m = trim_chars(chars_of(max).as_slice());
    let top = match parse_unsigned_chars(m.as_slice(), 10, 0xffff_ffff) {
        Some(v) => v,
        None => return None,
    };
    if top == 0 {
        return None;
    }
    Some((level, top))
}

/// The current volume and mute state: what `wpctl` reports, and only when it
/// reports nothing, what `pactl` reports.
pub fn query_volume<W, P>(wpctl: W, pactl: P) -> (volume: Option<(u8, bool)>) where
    W: FnOnce() -> Option<(u8, bool)>,
    P: FnOnce() -> Option<(u8, bool)>,

    requires
        call_requires(wpctl, ()),
        forall|w: Option<(u8, bool)>| #[trigger]
            call_ensures(wpctl, (), w) && w is None ==> call_requires(pactl, ()),
    ensures
        exists|w: Option<(u8, bool)>|
            #[trigger] call_ensures(wpctl, (), w) && (w is Some ==> volume == w) && (w is None
                ==> exists|p: Option<(u8, bool)>| #[trigger]
                call_ensures(pactl, (), p) && volume == p),
        ((forall|w: Option<(u8, bool)>| #[trigger]
            call_ensures(wpctl, (), w) ==> (w matches Some((level, _)) ==> level <= 100)) && (
        forall|p: Option<(u8, bool)>| #[trigger]
            call_ensures(pactl, (), p) ==> (p matches Some((level, _)) ==> level <= 100)))
            ==> (volume matches Some((level, _)) ==> level <= 100),
{
    // wireplumber is the usual sound server here; pactl covers pulse users
    let from_wpctl = wpctl();
    if let Some((level, muted)) = from_wpctl {
        return Some((level, muted));
    }
    pactl()
}

/// The caps lock state: the contents of its LED file, when there is one,
/// read as `led_state` reads them.
pub fn query_caps_lock<R>(read_led: R) -> (on: Option<bool>) where R: FnOnce() -> Option<String>
    requires
        call_requires(read_led, ()),
    ensures
        exists|c: Option<String>|
            #[trigger] call_ensures(read_led, (), c) && on == match c {
                Some(text) => led_state_spec(text@),
                None => None,
            },
{
    match read_led() {
        Some(text) => led_state(text.as_str()),
        None => None,
    }
}

/// The num lock state, read as `query_caps_lock` reads the caps lock state.
pub fn query_num_lock<R>(read_led: R) -> (on: Option<bool>) where R: FnOnce() -> Option<String>
    requires
        call_requires(read_led, ()),
    ensures
        exists|c: Option<String>|
            #[trigger] call_ensures(read_led, (), c) && on == match c {
                Some(text) => led_state_spec(text@),
                None => None,
            },
{
    match read_led() {
        Some(text) => led_state(text.as_str()),
        None => None,
    }
}

/// The volume that `pactl` reports is never above 100.
pub proof fn lemma_pactl_volume_at_most_100(out: Seq<char>)
    ensures
        pactl_volume_spec(out) matches Some(v) ==> v <= 100,
{
}

/// A lock LED file holding a number in decimal reads as on exactly when the
/// number is not zero, and as nothing when it does not fit in a byte.
pub proof fn lemma_led_state_of_number(n: nat)
    ensures
        led_state_spec(decimal_digits(n)) == (if n <= 255 {
            Some(n > 0)
        } else {
            None::<bool>
        }),
{
    lemma_decimal_digits_are_digits(n);
    lemma_unbroken_text(decimal_digits(n));
    lemma_decimal_round_trip(n, 255);
}

/// Backlight files holding numbers in decimal read as those numbers, unless
/// one does not fit in 32 bits or the maximum is zero.
pub proof fn lemma_brightness_reading_of_numbers(b: nat, m: nat)
    ensures
        brightness_reading_spec(decimal_digits(b), decimal_digits(m)) == (if b <= 0xffff_ffff && m
            <= 0xffff_ffff && m > 0 {
            Some((b as u32, m as u32))
        } else {
            None::<(u32, u32)>
        }),
{
    lemma_decimal_digits_are_digits(b);
    lemma_unbroken_text(decimal_digits(b));
    lemma_decimal_round_trip(b, 0xffff_ffff);
    lemma_decimal_digits_are_digits(m);
    lemma_unbroken_text(decimal_digits(m));
    lemma_decimal_round_trip(m, 0xffff_ffff);
}

/// `pactl` output that is a single percentage reads as that percentage,
/// capped at 100, and as nothing when it does not fit in a byte.
pub proof fn lemma_pactl_volume_of_percentage(n: nat)
    ensures
        pactl_volume_spec(decimal_digits(n).push('%')) == (if n <= 255 {
            Some((if n <= 100 { n } else { 100 }) as u8)
        } else {
            None::<u8>
        }),
{
    let d = decimal_digits(n);
    let t = d.push('%');
    lemma_decimal_digits_are_digits(n);
    assert forall|i: int| 0 <= i < t.len() implies !is_white_space(#[trigger] t[i]) by {
        if i < d.len() {
            assert(t[i] == d[i]);
        }
    }
    lemma_unbroken_text(t);
    assert(t.drop_last() =~= d);
    assert(tokens(t).drop_first() =~= Seq::<Seq<char>>::empty());
    lemma_decimal_round_trip(n, 255);
}

} // verus!
