use vstd::prelude::*;

verus! {

/// The Unicode `White_Space` characters, as `char::is_whitespace` knows them.
pub open spec fn is_white_space(c: char) -> bool {
    let u = c as u32;
    ||| 0x09 <= u <= 0x0d
    ||| u == 0x20
    ||| u == 0x85
    ||| u == 0xa0
    ||| u == 0x1680
    ||| 0x2000 <= u <= 0x200a
    ||| u == 0x2028
    ||| u == 0x2029
    ||| u == 0x202f
    ||| u == 0x205f
    ||| u == 0x3000
}

/// Whether a character is white space.
pub fn white_space(c: char) -> (b: bool)
    ensures
        b == is_white_space(c),
{
    let u = c as u32;
    (0x09 <= u && u <= 0x0d) || u == 0x20 || u == 0x85 || u == 0xa0 || u == 0x1680 || (0x2000
        <= u && u <= 0x200a) || u == 0x2028 || u == 0x2029 || u == 0x202f || u == 0x205f || u
        == 0x3000
}

/// The characters of a string slice.
pub fn chars_of(s: &str) -> (v: Vec<char>)
    ensures
        v@ == s@,
{
    let n = s.unicode_len();
    let mut v: Vec<char> = Vec::new();
    let mut i: usize = 0;
    while i < n
        invariant
            n == s@.len(),
            i <= n,
            v@ == s@.take(i as int),
        decreases n - i,
    {
        let c = s.get_char(i);
        v.push(c);
        assert(s@.take(i + 1) =~= s@.take(i as int).push(c));
        i = i + 1;
    }
    assert(s@.take(n as int) =~= s@);
    v
}

/// What is left after white space is removed from the front.
pub open spec fn trim_start(s: Seq<char>) -> Seq<char>
    decreases s.len(),
{
    if s.len() > 0 && is_white_space(s[0]) {
        trim_start(s.drop_first())
    } else {
        s
    }
}

/// What is left after white space is removed from the back.
pub open spec fn trim_end(s: Seq<char>) -> Seq<char>
    decreases s.len(),
{
    if s.len() > 0 && is_white_space(s.last()) {
        trim_end(s.drop_last())
    } else {
        s
    }
}

/// White space removed from both ends, as `str::trim` does.
pub open spec fn trim(s: Seq<char>) -> Seq<char> {
    trim_end(trim_start(s))
}

/// What is left after every leading `c` is removed, as `str::trim_start_matches` does.
pub open spec fn strip_leading(s: Seq<char>, c: char) -> Seq<char>
    decreases s.len(),
{
    if s.len() > 0 && s[0] == c {
        strip_leading(s.drop_first(), c)
    } else {
        s
    }
}

/// Where the characters that `trim` keeps begin and end.
pub fn trim_bounds(s: &[char]) -> (bounds: (usize, usize))
    ensures
        bounds.0 <= bounds.1 <= s@.len(),
        trim(s@) == s@.subrange(bounds.0 as int, bounds.1 as int),
{
    let n = s.len();
    let mut a: usize = 0;
    assert(s@.skip(0) =~= s@);
    while a < n && white_space(s[a])
        invariant
            n == s@.len(),
            a <= n,
            trim_start(s@) == trim_start(s@.skip(a as int)),
        decreases n - a,
    {
        assert(s@.skip(a as int).drop_first() =~= s@.skip(a + 1));
        a = a + 1;
    }
    let ghost front = s@.skip(a as int);
    assert(trim_start(front) == front);
    let mut b: usize = n;
    assert(front =~= s@.subrange(a as int, n as int));
    while b > a && white_space(s[b - 1])
        invariant
            n == s@.len(),
            a <= b <= n,
            front == s@.skip(a as int),
            trim_end(front) == trim_end(s@.subrange(a as int, b as int)),
        decreases b,
    {
        assert(s@.subrange(a as int, b as int).drop_last() =~= s@.subrange(a as int, b - 1));
        b = b - 1;
    }
    (a, b)
}

/// The characters from `a` to `b`.
pub fn copy_range(s: &[char], a: usize, b: usize) -> (t: Vec<char>)
    requires
        a <= b <= s@.len(),
    ensures
        t@ == s@.subrange(a as int, b as int),
{
    let mut t: Vec<char> = Vec::new();
    let mut k: usize = a;
    while k < b
        invariant
            a <= k <= b <= s@.len(),
            t@ == s@.subrange(a as int, k as int),
        decreases b - k,
    {
        t.push(s[k]);
        assert(s@.subrange(a as int, k + 1) =~= s@.subrange(a as int, k as int).push(s@[k as int]));
        k = k + 1;
    }
    t
}

/// The characters with white space removed from both ends.
pub fn trim_chars(s: &[char]) -> (t: Vec<char>)
    ensures
        t@ == trim(s@),
{
    let (a, b) = trim_bounds(s);
    copy_range(s, a, b)
}

/// How many leading characters `strip_leading` removes from the characters
/// between `a` and `b`.
pub fn strip_leading_from(s: &[char], a: usize, b: usize, c: char) -> (start: usize)
    requires
        a <= b <= s@.len(),
    ensures
        a <= start <= b,
        strip_leading(s@.subrange(a as int, b as int), c) == s@.subrange(start as int, b as int),
{
    let mut i: usize = a;
    while i < b && s[i] == c
        invariant
            a <= i <= b <= s@.len(),
            strip_leading(s@.subrange(a as int, b as int), c) == strip_leading(
                s@.subrange(i as int, b as int),
                c,
            ),
        decreases b - i,
    {
        assert(s@.subrange(i as int, b as int).drop_first() =~= s@.subrange(i + 1, b as int));
        i = i + 1;
    }
    i
}

/// What `trim_start` keeps is a suffix that starts with a character other
/// than white space.
pub proof fn lemma_trim_start_suffix(x: Seq<char>)
    ensures
        trim_start(x).len() <= x.len(),
        trim_start(x) == x.skip(x.len() - trim_start(x).len()),
        trim_start(x).len() > 0 ==> !is_white_space(trim_start(x)[0]),
    decreases x.len(),
{
    if x.len() > 0 && is_white_space(x[0]) {
        lemma_trim_start_suffix(x.drop_first());
        assert(x.drop_first().skip(x.drop_first().len() - trim_start(x).len()) =~= x.skip(
            x.len() - trim_start(x).len(),
        ));
    } else {
        assert(x.skip(0) =~= x);
    }
}

/// What `trim_end` keeps is a prefix that ends with a character other than
/// white space.
pub proof fn lemma_trim_end_prefix(x: Seq<char>)
    ensures
        trim_end(x).len() <= x.len(),
        trim_end(x) == x.take(trim_end(x).len() as int),
        trim_end(x).len() > 0 ==> !is_white_space(trim_end(x).last()),
    decreases x.len(),
{
    if x.len() > 0 && is_white_space(x.last()) {
        lemma_trim_end_prefix(x.drop_last());
        assert(x.drop_last().take(trim_end(x).len() as int) =~= x.take(trim_end(x).len() as int));
    } else {
        assert(x.take(x.len() as int) =~= x);
    }
}

/// A text that `trim` leaves as it is begins and ends with a character other
/// than white space, when it is not empty.
pub proof fn lemma_trimmed_ends(s: Seq<char>)
    requires
        trim(s) == s,
    ensures
        s.len() > 0 ==> !is_white_space(s[0]) && !is_white_space(s.last()),
{
    lemma_trim_start_suffix(s);
    lemma_trim_end_prefix(trim_start(s));
    if s.len() > 0 {
        assert(s[0] == trim_start(s)[0]);
    }
}

/// A text without white space is a single token, and `trim` keeps it whole.
pub proof fn lemma_unbroken_text(t: Seq<char>)
    requires
        t.len() > 0,
        forall|i: int| 0 <= i < t.len() ==> !is_white_space(#[trigger] t[i]),
    ensures
        tokens(t) == seq![t],
        trim(t) == t,
    decreases t.len(),
{
    assert(!is_white_space(t[0]));
    assert(!is_white_space(t.last()));
    assert(trim_start(t) == t);
    assert(trim_end(t) == t);
    if t.len() == 1 {
        assert(t.drop_last() =~= Seq::<char>::empty());
        assert(tokens(t.drop_last()) =~= Seq::<Seq<char>>::empty());
        assert(seq![t.last()] =~= t);
        assert(tokens(t) =~= seq![t]);
    } else {
        let p = t.drop_last();
        assert forall|i: int| 0 <= i < p.len() implies !is_white_space(#[trigger] p[i]) by {
            assert(p[i] == t[i]);
        }
        lemma_unbroken_text(p);
        assert(!is_white_space(t[t.len() - 2]));
        assert(p.push(t.last()) =~= t);
        assert(tokens(p).drop_last() =~= Seq::<Seq<char>>::empty());
        assert(tokens(p).drop_last().push(tokens(p).last().push(t.last())) =~= seq![t]);
    }
}

/// ASCII upper-case letters folded to lower case; other values kept.
pub open spec fn fold_case(u: u32) -> u32 {
    if 0x41 <= u <= 0x5a {
        (u + 32) as u32
    } else {
        u
    }
}

/// Whether two texts differ at most in the case of ASCII letters.
pub open spec fn same_but_case(a: Seq<char>, b: Seq<char>) -> bool {
    &&& a.len() == b.len()
    &&& forall|i: int| 0 <= i < a.len() ==> fold_case(#[trigger] a[i] as u32) == fold_case(
        b[i] as u32,
    )
}

/// Characters that agree up to ASCII case agree on being white space, and on
/// being any given character that is not a letter.
pub proof fn lemma_fold_keeps_non_letters(x: char, y: char)
    requires
        fold_case(x as u32) == fold_case(y as u32),
    ensures
        is_white_space(x) == is_white_space(y),
        x == '#' <==> y == '#',
{
    if x == '#' {
        assert(y as u32 == x as u32);
        vstd::utf8::char_u32_cast(y, y as u32);
        vstd::utf8::char_u32_cast(x, x as u32);
    }
    if y == '#' {
        assert(y as u32 == x as u32);
        vstd::utf8::char_u32_cast(y, y as u32);
        vstd::utf8::char_u32_cast(x, x as u32);
    }
}

/// Trimming and removing leading `#`s keep two texts that differ only in case
/// differing only in case.
pub proof fn lemma_same_but_case_colour_text(a: Seq<char>, b: Seq<char>)
    requires
        same_but_case(a, b),
    ensures
        same_but_case(strip_leading(trim(a), '#'), strip_leading(trim(b), '#')),
{
    lemma_same_but_case_start(a, b);
    lemma_same_but_case_end(trim_start(a), trim_start(b));
    lemma_same_but_case_strip(trim(a), trim(b));
}

proof fn lemma_same_but_case_start(a: Seq<char>, b: Seq<char>)
    requires
        same_but_case(a, b),
    ensures
        same_but_case(trim_start(a), trim_start(b)),
    decreases a.len(),
{
    if a.len() > 0 {
        lemma_fold_keeps_non_letters(a[0], b[0]);
        assert(same_but_case(a.drop_first(), b.drop_first())) by {
            assert forall|i: int| 0 <= i < a.drop_first().len() implies fold_case(
                #[trigger] a.drop_first()[i] as u32,
            ) == fold_case(b.drop_first()[i] as u32) by {
                assert(a.drop_first()[i] == a[i + 1]);
            }
        }
        lemma_same_but_case_start(a.drop_first(), b.drop_first());
    }
}

proof fn lemma_same_but_case_end(a: Seq<char>, b: Seq<char>)
    requires
        same_but_case(a, b),
    ensures
        same_but_case(trim_end(a), trim_end(b)),
    decreases a.len(),
{
    if a.len() > 0 {
        lemma_fold_keeps_non_letters(a.last(), b.last());
        assert(same_but_case(a.drop_last(), b.drop_last())) by {
            assert forall|i: int| 0 <= i < a.drop_last().len() implies fold_case(
                #[trigger] a.drop_last()[i] as u32,
            ) == fold_case(b.drop_last()[i] as u32) by {
                assert(a.drop_last()[i] == a[i]);
            }
        }
        lemma_same_but_case_end(a.drop_last(), b.drop_last());
    }
}

proof fn lemma_same_but_case_strip(a: Seq<char>, b: Seq<char>)
    requires
        same_but_case(a, b),
    ensures
        same_but_case(strip_leading(a, '#'), strip_leading(b, '#')),
    decreases a.len(),
{
    if a.len() > 0 {
        lemma_fold_keeps_non_letters(a[0], b[0]);
        assert(same_but_case(a.drop_first(), b.drop_first())) by {
            assert forall|i: int| 0 <= i < a.drop_first().len() implies fold_case(
                #[trigger] a.drop_first()[i] as u32,
            ) == fold_case(b.drop_first()[i] as u32) by {
                assert(a.drop_first()[i] == a[i + 1]);
            }
        }
        lemma_same_but_case_strip(a.drop_first(), b.drop_first());
    }
}

/// The maximal runs of non-white-space characters, in order, as
/// `str::split_whitespace` yields them.
pub open spec fn tokens(s: Seq<char>) -> Seq<Seq<char>>
    decreases s.len(),
{
    if s.len() == 0 {
        seq![]
    } else {
        let prev = tokens(s.drop_last());
        let c = s.last();
        if is_white_space(c) {
            prev
        } else if s.len() >= 2 && !is_white_space(s[s.len() - 2]) {
            prev.drop_last().push(prev.last().push(c))
        } else {
            prev.push(seq![c])
        }
    }
}

/// The views of a sequence of character vectors.
pub open spec fn views(v: Seq<Vec<char>>) -> Seq<Seq<char>> {
    v.map_values(|t: Vec<char>| t@)
}

/// Splits characters at white space.
pub fn split_white_space(s: &[char]) -> (out: Vec<Vec<char>>)
    ensures
        views(out@) == tokens(s@),
{
    let n = s.len();
    let mut out: Vec<Vec<char>> = Vec::new();
    let mut cur: Vec<char> = Vec::new();
    let mut i: usize = 0;
    while i < n
        invariant
            n == s@.len(),
            i <= n,
            (i > 0 && !is_white_space(s@[i - 1])) ==> tokens(s@.take(i as int)) == views(
                out@,
            ).push(cur@),
            !(i > 0 && !is_white_space(s@[i - 1])) ==> tokens(s@.take(i as int)) == views(out@)
                && cur@.len() == 0,
        decreases n - i,
    {
        let c = s[i];
        let ghost before = s@.take(i as int);
        let ghost after = s@.take(i + 1);
        assert(after.drop_last() =~= before);
        assert(after.last() == c);
        let in_token = i > 0 && !white_space(s[i - 1]);
        if white_space(c) {
            if in_token {
                let done = cur;
                out.push(done);
                cur = Vec::new();
                assert(views(out@) =~= tokens(before));
            }
        } else if in_token {
            assert(after[after.len() - 2] == s@[i - 1]);
            cur.push(c);
            assert(views(out@).push(cur@) =~= tokens(before).drop_last().push(
                tokens(before).last().push(c),
            ));
        } else {
            cur.push(c);
            assert(cur@ =~= seq![c]);
            assert(i > 0 ==> after[after.len() - 2] == s@[i - 1]);
        }
        i = i + 1;
    }
    assert(s@.take(n as int) =~= s@);
    if n > 0 && !white_space(s[n - 1]) {
        out.push(cur);
    }
    assert(views(out@) =~= tokens(s@));
    out
}

/// Whether a character is a digit in the given radix (at most 36), as
/// `char::to_digit` decides.
pub open spec fn is_digit(c: char, radix: nat) -> bool {
    let u = c as u32;
    if 0x30 <= u <= 0x39 {
        u - 0x30 < radix
    } else if 0x61 <= u <= 0x7a {
        u - 0x61 + 10 < radix
    } else if 0x41 <= u <= 0x5a {
        u - 0x41 + 10 < radix
    } else {
        false
    }
}

/// The value of a digit character.
pub open spec fn digit_value(c: char) -> nat {
    let u = c as u32;
    if 0x30 <= u <= 0x39 {
        (u - 0x30) as nat
    } else if 0x61 <= u <= 0x7a {
        (u - 0x61 + 10) as nat
    } else if 0x41 <= u <= 0x5a {
        (u - 0x41 + 10) as nat
    } else {
        0
    }
}

/// The number that a string of digits writes in the given radix.
pub open spec fn digits_value(d: Seq<char>, radix: nat) -> nat
    decreases d.len(),
{
    if d.len() == 0 {
        0
    } else {
        digits_value(d.drop_last(), radix) * radix + digit_value(d.last())
    }
}

/// Whether every character is a digit.
pub open spec fn all_digits(d: Seq<char>, radix: nat) -> bool {
    forall|i: int| 0 <= i < d.len() ==> #[trigger] is_digit(d[i], radix)
}

/// What `from_str_radix` gives for an unsigned type whose largest value is
/// `max`: an optional `+`, then at least one digit, and a value that fits.
pub open spec fn parse_unsigned(s: Seq<char>, radix: nat, max: nat) -> Option<nat> {
    let d = if s.len() > 0 && s[0] == '+' {
        s.drop_first()
    } else {
        s
    };
    if d.len() > 0 && all_digits(d, radix) && digits_value(d, radix) <= max {
        Some(digits_value(d, radix))
    } else {
        None
    }
}

/// A prefix of a digit string never writes a larger number.
pub proof fn lemma_digits_prefix_le(d: Seq<char>, radix: nat, k: int)
    requires
        0 <= k <= d.len(),
        radix >= 1,
    ensures
        digits_value(d.take(k), radix) <= digits_value(d, radix),
    decreases d.len(),
{
    if k < d.len() {
        lemma_digits_prefix_le(d.drop_last(), radix, k);
        assert(d.drop_last().take(k) =~= d.take(k));
        let v = digits_value(d.drop_last(), radix);
        assert(v <= v * radix) by (nonlinear_arith)
            requires
                radix >= 1,
        ;
    } else {
        assert(d.take(k) =~= d);
    }
}

/// Parses an unsigned number as `from_str_radix` does, for radix 2 to 36 and a
/// largest value that fits in 32 bits.
pub fn parse_unsigned_chars(s: &[char], radix: u32, max: u32) -> (r: Option<u32>)
    requires
        2 <= radix <= 36,
    ensures
        match parse_unsigned(s@, radix as nat, max as nat) {
            Some(v) => r == Some(v as u32),
            None => r is None,
        },
{
    let n = s.len();
    let start: usize = if n > 0 && s[0] == '+' {
        1
    } else {
        0
    };
    let ghost d = if s@.len() > 0 && s@[0] == '+' {
        s@.drop_first()
    } else {
        s@
    };
    assert(d =~= s@.skip(start as int));
    if start >= n {
        return None;
    }
    let mut acc: u64 = 0;
    let mut i: usize = start;
    while i < n
        invariant
            start <= i <= n,
            n == s@.len(),
            d == s@.skip(start as int),
            d == (if s@.len() > 0 && s@[0] == '+' { s@.drop_first() } else { s@ }),
            2 <= radix <= 36,
            acc <= max,
            acc == digits_value(d.take(i - start), radix as nat),
            all_digits(d.take(i - start), radix as nat),
        decreases n - i,
    {
        let c = s[i];
        let u = c as u32;
        let dv: u32 = if 0x30 <= u && u <= 0x39 {
            u - 0x30
        } else if 0x61 <= u && u <= 0x7a {
            u - 0x61 + 10
        } else if 0x41 <= u && u <= 0x5a {
            u - 0x41 + 10
        } else {
            radix
        };
        let ghost k = i - start;
        assert(d[k] == c);
        if dv >= radix {
            assert(!is_digit(d[k], radix as nat));
            assert(!all_digits(d, radix as nat));
            assert(parse_unsigned(s@, radix as nat, max as nat) is None);
            return None;
        }
        assert(is_digit(c, radix as nat));
        assert(dv == digit_value(c));
        assert(d.take(k + 1).drop_last() =~= d.take(k));
        assert(d.take(k + 1).last() == c);
        assert(acc * (radix as u64) <= 0xffff_ffffu64 * 36) by (nonlinear_arith)
            requires
                acc <= 0xffff_ffffu64,
                radix <= 36,
        ;
        let next = acc * (radix as u64) + (dv as u64);
        assert(all_digits(d.take(k + 1), radix as nat)) by {
            assert forall|j: int| 0 <= j < k + 1 implies #[trigger] is_digit(
                d.take(k + 1)[j],
                radix as nat,
            ) by {
                if j < k {
                    assert(d.take(k + 1)[j] == d.take(k)[j]);
                }
            }
        }
        assert(next == digits_value(d.take(k + 1), radix as nat));
        if next > max as u64 {
            proof {
                if all_digits(d, radix as nat) {
                    lemma_digits_prefix_le(d, radix as nat, k + 1);
                }
            }
            assert(parse_unsigned(s@, radix as nat, max as nat) is None);
            return None;
        }
        acc = next;
        i = i + 1;
    }
    assert(d.take(n - start) =~= d);
    Some(acc as u32)
}

/// The smaller of two numbers.
pub open spec fn min_nat(a: nat, b: nat) -> nat {
    if a <= b {
        a
    } else {
        b
    }
}

/// Whether `needle` occurs in `hay` as a contiguous run.
pub open spec fn contains_seq(hay: Seq<char>, needle: Seq<char>) -> bool {
    exists|i: int|
        0 <= i && i + needle.len() <= hay.len() && #[trigger] hay.subrange(i, i + needle.len())
            == needle
}

/// ASCII upper-case letters made lower-case, other characters kept.
pub open spec fn ascii_lower(c: char) -> char {
    if 'A' <= c <= 'Z' {
        ((c as u32) + 32) as char
    } else {
        c
    }
}

/// `str::to_ascii_lowercase` on characters.
pub open spec fn ascii_lowercase(s: Seq<char>) -> Seq<char> {
    s.map_values(|c: char| ascii_lower(c))
}

/// `char::to_ascii_lowercase`.
pub fn ascii_lower_char(c: char) -> (r: char)
    ensures
        r == ascii_lower(c),
{
    if 'A' <= c && c <= 'Z' {
        let b = (c as u8) + 32;
        b as char
    } else {
        c
    }
}

/// The characters made ASCII lower-case.
pub fn lowercase_chars(s: &[char]) -> (t: Vec<char>)
    ensures
        t@ == ascii_lowercase(s@),
{
    let n = s.len();
    let mut t: Vec<char> = Vec::new();
    let mut i: usize = 0;
    while i < n
        invariant
            n == s@.len(),
            i <= n,
            t@ == ascii_lowercase(s@.take(i as int)),
        decreases n - i,
    {
        let c = ascii_lower_char(s[i]);
        t.push(c);
        assert(ascii_lowercase(s@.take(i + 1)) =~= ascii_lowercase(s@.take(i as int)).push(c));
        i = i + 1;
    }
    assert(s@.take(n as int) =~= s@);
    t
}

/// Whether `needle` occurs in `hay` as a contiguous run.
pub fn find_chars(hay: &[char], needle: &[char]) -> (found: bool)
    ensures
        found == contains_seq(hay@, needle@),
{
    let n = hay.len();
    let m = needle.len();
    if m > n {
        assert forall|i: int|
            0 <= i && i + needle@.len() <= hay@.len() implies #[trigger] hay@.subrange(
            i,
            i + needle@.len(),
        ) != needle@ by {}
        return false;
    }
    let mut i: usize = 0;
    while i <= n - m
        invariant
            n == hay@.len(),
            m == needle@.len(),
            m <= n,
            forall|p: int| 0 <= p < i ==> #[trigger] hay@.subrange(p, p + m) != needle@,
        decreases n - m + 1 - i,
    {
        let mut k: usize = 0;
        let mut same = true;
        while k < m
            invariant
                n == hay@.len(),
                m == needle@.len(),
                i + m <= n,
                k <= m,
                same == (forall|q: int| 0 <= q < k ==> hay@[i + q] == needle@[q]),
            decreases m - k,
        {
            if hay[i + k] != needle[k] {
                same = false;
            }
            k = k + 1;
        }
        if same {
            assert(hay@.subrange(i as int, i + m) =~= needle@);
            return true;
        }
        assert(hay@.subrange(i as int, i + m) != needle@) by {
            let q = choose|q: int| 0 <= q < m && hay@[i + q] != needle@[q];
            assert(hay@.subrange(i as int, i + m)[q] == hay@[i + q]);
        }
        i = i + 1;
    }
    false
}

} // verus!
