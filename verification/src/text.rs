//! Text primitives: numerals, padding, trimming, word splitting and ordering.
//!
//! Every function states its result over the characters of its arguments.

use vstd::prelude::*;

verus! {

/// `String::push` appends one character.
pub assume_specification[ String::push ](s: &mut String, c: char)
    ensures
        final(s)@ == old(s)@.push(c),
;

// ─── characters and strings ──────────────────────────────────────────────────

/// The characters of each argument.
pub open spec fn views(args: Seq<&str>) -> Seq<Seq<char>> {
    args.map_values(|a: &str| a@)
}

/// The characters of each string.
pub open spec fn string_views(strings: Seq<String>) -> Seq<Seq<char>> {
    strings.map_values(|s: String| s@)
}

/// Collect the characters of `s`.
pub fn chars_of(s: &str) -> (chars: Vec<char>)
    ensures
        chars@ == s@,
{
    let mut chars: Vec<char> = Vec::new();
    for c in iter: s.chars()
        invariant
            iter.seq() == s@,
            chars@ == s@.take(iter.index()),
    {
        proof {
            assert(s@.take(iter.index()).push(s@[iter.index()]) =~= s@.take(iter.index() + 1));
        }
        chars.push(c);
    }
    assert(s@.take(s@.len() as int) =~= s@);
    chars
}

/// Append `chars[from..to]` to `out`.
pub fn push_chars(out: &mut String, chars: &Vec<char>, from: usize, to: usize)
    requires
        from <= to <= chars@.len(),
    ensures
        final(out)@ == old(out)@ + chars@.subrange(from as int, to as int),
{
    let mut i: usize = from;
    assert(out@ =~= old(out)@ + chars@.subrange(from as int, from as int));
    while i < to
        invariant
            from <= i <= to <= chars@.len(),
            out@ == old(out)@ + chars@.subrange(from as int, i as int),
        decreases to - i,
    {
        out.push(chars[i]);
        i = i + 1;
        assert(out@ =~= old(out)@ + chars@.subrange(from as int, i as int));
    }
}

/// Whether two strings hold the same characters.
pub fn same_text(a: &str, b: &str) -> (same: bool)
    ensures
        same == (a@ == b@),
{
    a.to_owned() == b.to_owned()
}

// ─── numerals ────────────────────────────────────────────────────────────────

/// The digit of value `d` in lower-case hexadecimal notation.
pub open spec fn digit_char(d: int) -> char {
    if d < 10 {
        ('0' as int + d) as char
    } else {
        ('a' as int + (d - 10)) as char
    }
}

fn digit(d: u8) -> (c: char)
    requires
        d < 16,
    ensures
        c == digit_char(d as int),
{
    if d < 10 {
        (48u8 + d) as char
    } else {
        (97u8 + (d - 10)) as char
    }
}

/// The decimal numeral of `n`, without leading zeros.
pub open spec fn decimal(n: nat) -> Seq<char>
    decreases n,
{
    if n < 10 {
        seq![digit_char(n as int)]
    } else {
        decimal(n / 10).push(digit_char((n % 10) as int))
    }
}

/// The decimal numeral of `v`, with a leading minus sign when it is negative.
pub open spec fn decimal_signed(v: int) -> Seq<char> {
    if v < 0 {
        seq!['-'] + decimal((-v) as nat)
    } else {
        decimal(v as nat)
    }
}

/// Write `n` in decimal.
pub fn decimal_string(n: u128) -> (s: String)
    ensures
        s@ == decimal(n as nat),
    decreases n,
{
    if n < 10 {
        let mut s = String::new();
        s.push(digit(n as u8));
        assert(s@ =~= decimal(n as nat));
        s
    } else {
        let mut s = decimal_string(n / 10);
        s.push(digit((n % 10) as u8));
        s
    }
}

/// Write `v` in decimal.
pub fn decimal_signed_string(v: i64) -> (s: String)
    ensures
        s@ == decimal_signed(v as int),
{
    if v < 0 {
        let mut s = String::new();
        s.push('-');
        let magnitude = decimal_string((-(v as i128)) as u128);
        s.append(magnitude.as_str());
        assert(s@ =~= decimal_signed(v as int));
        s
    } else {
        decimal_string(v as u128)
    }
}

/// The lower-case hexadecimal text of `bytes`, two digits per byte.
pub open spec fn hex(bytes: Seq<u8>) -> Seq<char> {
    Seq::new(
        (2 * bytes.len()) as nat,
        |i: int|
            digit_char(
                if i % 2 == 0 {
                    bytes[i / 2] as int / 16
                } else {
                    bytes[i / 2] as int % 16
                },
            ),
    )
}

/// Append the two hexadecimal digits of `b`.
pub fn push_hex_byte(out: &mut String, b: u8)
    ensures
        final(out)@ == old(out)@ + hex(seq![b]),
{
    out.push(digit(b / 16));
    out.push(digit(b % 16));
    assert(out@ =~= old(out)@ + hex(seq![b]));
}

/// Equal hexadecimal texts come from equal bytes.
pub proof fn hex_is_injective(a: Seq<u8>, b: Seq<u8>)
    requires
        hex(a) == hex(b),
    ensures
        a == b,
{
    assert(hex(a).len() == 2 * a.len());
    assert(hex(b).len() == 2 * b.len());
    assert forall|i: int| 0 <= i < a.len() implies a[i] == b[i] by {
        let high = 2 * i;
        let low = 2 * i + 1;
        assert(high / 2 == i && high % 2 == 0);
        assert(low / 2 == i && low % 2 == 1);
        assert(hex(a)[high] == digit_char(a[i] as int / 16));
        assert(hex(b)[high] == digit_char(b[i] as int / 16));
        assert(hex(a)[low] == digit_char(a[i] as int % 16));
        assert(hex(b)[low] == digit_char(b[i] as int % 16));
        digit_char_is_injective(a[i] as int / 16, b[i] as int / 16);
        digit_char_is_injective(a[i] as int % 16, b[i] as int % 16);
    }
    assert(a =~= b);
}

proof fn digit_char_is_injective(d: int, e: int)
    requires
        0 <= d < 16,
        0 <= e < 16,
        digit_char(d) == digit_char(e),
    ensures
        d == e,
{
}

/// The value of `c` as a digit in the given radix (at most 16), if it is one.
pub open spec fn digit_value(c: char, radix: int) -> Option<int> {
    let v = if '0' <= c <= '9' {
        c as int - '0' as int
    } else if 'a' <= c <= 'f' {
        c as int - 'a' as int + 10
    } else if 'A' <= c <= 'F' {
        c as int - 'A' as int + 10
    } else {
        radix
    };
    if v < radix {
        Some(v)
    } else {
        None
    }
}

/// The value of a string of digits, most significant first; `None` when some
/// character is no digit of the radix.
pub open spec fn digits_value(s: Seq<char>, radix: int) -> Option<int>
    decreases s.len(),
{
    if s.len() == 0 {
        Some(0)
    } else {
        match (digits_value(s.drop_last(), radix), digit_value(s.last(), radix)) {
            (Some(high), Some(low)) => Some(high * radix + low),
            _ => None,
        }
    }
}

/// The digits of a numeral that may carry one leading plus sign.
pub open spec fn unsigned_part(s: Seq<char>) -> Seq<char> {
    if s.len() > 0 && s[0] == '+' {
        s.skip(1)
    } else {
        s
    }
}

/// The `u16` that `s` denotes in the given radix: an optional plus sign, then
/// at least one digit, with a value of at most 65535.
pub open spec fn parsed_u16(s: Seq<char>, radix: int) -> Option<u16> {
    let digits = unsigned_part(s);
    match digits_value(digits, radix) {
        Some(v) => if digits.len() > 0 && v <= u16::MAX {
            Some(v as u16)
        } else {
            None
        },
        None => None,
    }
}

fn exec_digit_value(c: char, radix: u32) -> (v: Option<u32>)
    requires
        2 <= radix <= 16,
    ensures
        v matches Some(d) ==> digit_value(c, radix as int) == Some(d as int) && d < radix,
        v is None ==> digit_value(c, radix as int) is None,
{
    let code: u32 = c as u32;
    let d: u32 = if '0' <= c && c <= '9' {
        code - 48
    } else if 'a' <= c && c <= 'f' {
        code - 97 + 10
    } else if 'A' <= c && c <= 'F' {
        code - 65 + 10
    } else {
        radix
    };
    if d < radix {
        Some(d)
    } else {
        None
    }
}

proof fn digits_value_of_prefix(s: Seq<char>, n: int, radix: int)
    requires
        0 <= n <= s.len(),
        2 <= radix,
    ensures
        digits_value(s.take(n), radix) is None ==> digits_value(s, radix) is None,
        digits_value(s, radix) matches Some(v) ==> v >= 0 && (digits_value(
            s.take(n),
            radix,
        ) matches Some(p) && 0 <= p <= v),
    decreases s.len(),
{
    if n == s.len() {
        assert(s.take(n) =~= s);
        if s.len() > 0 {
            digits_value_of_prefix(s.drop_last(), n - 1, radix);
            if let Some(h) = digits_value(s.drop_last(), radix) {
                assert(h >= 0 ==> h * radix >= 0) by (nonlinear_arith)
                    requires
                        radix >= 2,
                ;
            }
        }
    } else {
        digits_value_of_prefix(s.drop_last(), n, radix);
        assert(s.drop_last().take(n) =~= s.take(n));
        if let Some(h) = digits_value(s.drop_last(), radix) {
            assert(h >= 0 ==> h * radix >= h) by (nonlinear_arith)
                requires
                    radix >= 2,
            ;
        }
    }
}

/// Read `chars[from..to]` as a `u16` numeral in the given radix.
pub fn parse_u16(chars: &Vec<char>, from: usize, to: usize, radix: u32) -> (v: Option<u16>)
    requires
        from <= to <= chars@.len(),
        2 <= radix <= 16,
    ensures
        v == parsed_u16(chars@.subrange(from as int, to as int), radix as int),
{
    let ghost s = chars@.subrange(from as int, to as int);
    let mut start: usize = from;
    if from < to && chars[from] == '+' {
        start = from + 1;
    }
    let ghost digits = chars@.subrange(start as int, to as int);
    assert(digits =~= unsigned_part(s));
    if start == to {
        return None;
    }
    let mut i: usize = start;
    let mut value: u32 = 0;
    assert(digits.take(0) =~= Seq::<char>::empty());
    while i < to
        invariant
            start <= i <= to <= chars@.len(),
            2 <= radix <= 16,
            digits == chars@.subrange(start as int, to as int),
            digits == unsigned_part(s),
            digits.len() > 0,
            s == chars@.subrange(from as int, to as int),
            value <= u16::MAX,
            digits_value(digits.take(i - start), radix as int) == Some(value as int),
        decreases to - i,
    {
        let ghost n = i - start;
        proof {
            assert(digits.take(n + 1).drop_last() =~= digits.take(n));
            assert(digits.take(n + 1).last() == chars@[i as int]);
            digits_value_of_prefix(digits, n + 1, radix as int);
        }
        match exec_digit_value(chars[i], radix) {
            None => {
                return None;
            },
            Some(d) => {
                assert(value * radix <= 0xffff * 16) by (nonlinear_arith)
                    requires
                        value <= 0xffff,
                        radix <= 16,
                ;
                value = value * radix + d;
                if value > 65535 {
                    return None;
                }
            },
        }
        i = i + 1;
    }
    assert(digits.take(to - start) =~= digits);
    Some(value as u16)
}

// ─── whitespace ──────────────────────────────────────────────────────────────

/// The characters with the Unicode `White_Space` property.
pub open spec fn is_space(c: char) -> bool {
    let u = c as int;
    ||| 0x09 <= u <= 0x0d
    ||| u == 0x20
    ||| u == 0x85
    ||| u == 0xa0
    ||| u == 0x1680
    ||| 0x2000 <= u <= 0x200a
    ||| u == 0x2028
    ||| u == 0x2029
    ||| u == 0x202f
    ||| u == 0x205f
    ||| u == 0x3000
}

/// Whether `c` has the Unicode `White_Space` property.
pub fn is_whitespace(c: char) -> (space: bool)
    ensures
        space == is_space(c),
{
    let u: u32 = c as u32;
    (0x09 <= u && u <= 0x0d) || u == 0x20 || u == 0x85 || u == 0xa0 || u == 0x1680 || (0x2000 <= u
        && u <= 0x200a) || u == 0x2028 || u == 0x2029 || u == 0x202f || u == 0x205f || u == 0x3000
}

/// `s` without its leading whitespace.
pub open spec fn trim_start(s: Seq<char>) -> Seq<char>
    decreases s.len(),
{
    if s.len() > 0 && is_space(s[0]) {
        trim_start(s.skip(1))
    } else {
        s
    }
}

/// `s` without its trailing whitespace.
pub open spec fn trim_end(s: Seq<char>) -> Seq<char>
    decreases s.len(),
{
    if s.len() > 0 && is_space(s.last()) {
        trim_end(s.drop_last())
    } else {
        s
    }
}

/// `s` without surrounding whitespace.
pub open spec fn trim(s: Seq<char>) -> Seq<char> {
    trim_end(trim_start(s))
}

/// A text without other characters than whitespace is empty once it is trimmed.
proof fn blank_is_trimmed_away(s: Seq<char>)
    ensures
        trim_start(s).len() == 0 <==> forall|i: int| 0 <= i < s.len() ==> is_space(#[trigger] s[i]),
    decreases s.len(),
{
    if s.len() > 0 && is_space(s[0]) {
        let rest = s.skip(1);
        blank_is_trimmed_away(rest);
        if forall|i: int| 0 <= i < rest.len() ==> is_space(#[trigger] rest[i]) {
            assert forall|i: int| 0 <= i < s.len() implies is_space(#[trigger] s[i]) by {
                if i > 0 {
                    assert(s[i] == rest[i - 1]);
                }
            }
        } else {
            let i = choose|i: int| 0 <= i < rest.len() && !is_space(#[trigger] rest[i]);
            assert(!is_space(s[i + 1]));
        }
    } else if s.len() > 0 {
        assert(!is_space(s[0]));
    }
}

/// A text has no words exactly when all of it is whitespace.
pub proof fn blank_has_no_words(s: Seq<char>)
    ensures
        words(s).len() == 0 <==> forall|i: int| 0 <= i < s.len() ==> is_space(#[trigger] s[i]),
{
    blank_is_trimmed_away(s);
}

/// How many characters come before the first whitespace of `s`.
pub open spec fn word_len(s: Seq<char>) -> nat
    decreases s.len(),
{
    if s.len() > 0 && !is_space(s[0]) {
        1 + word_len(s.skip(1))
    } else {
        0
    }
}

/// The maximal runs of non-whitespace characters of `s`, in order.
pub open spec fn words(s: Seq<char>) -> Seq<Seq<char>>
    decreases s.len(),
{
    let t = trim_start(s);
    if t.len() == 0 {
        Seq::empty()
    } else {
        let n = word_len(t);
        proof {
            trim_start_shape(s);
            word_len_shape(t);
        }
        seq![t.take(n as int)] + words(t.skip(n as int))
    }
}

/// Trimming never lengthens a text, and what is left starts with no whitespace.
pub proof fn trim_start_shape(s: Seq<char>)
    ensures
        trim_start(s).len() <= s.len(),
        trim_start(s).len() > 0 ==> !is_space(trim_start(s)[0]),
    decreases s.len(),
{
    if s.len() > 0 && is_space(s[0]) {
        trim_start_shape(s.skip(1));
    }
}

/// A text that starts with no whitespace starts with a word.
pub proof fn word_len_shape(s: Seq<char>)
    ensures
        word_len(s) <= s.len(),
        s.len() > 0 && !is_space(s[0]) ==> word_len(s) > 0,
    decreases s.len(),
{
    if s.len() > 0 && !is_space(s[0]) {
        word_len_shape(s.skip(1));
    }
}

proof fn word_len_is(s: Seq<char>, n: int)
    requires
        0 <= n <= s.len(),
        forall|i: int| 0 <= i < n ==> !is_space(s[i]),
        n < s.len() ==> is_space(s[n]),
    ensures
        word_len(s) == n,
    decreases s.len(),
{
    if n > 0 {
        assert forall|i: int| 0 <= i < n - 1 implies !is_space(s.skip(1)[i]) by {
            assert(s.skip(1)[i] == s[i + 1]);
        }
        word_len_is(s.skip(1), n - 1);
    }
}

/// Split `line` into its words.
pub fn split_words<'a>(line: &'a str) -> (out: Vec<&'a str>)
    ensures
        views(out@) == words(line@),
{
    let chars = chars_of(line);
    let n: usize = chars.len();
    let mut out: Vec<&'a str> = Vec::new();
    let mut i: usize = 0;
    proof {
        assert(line@.skip(0) =~= line@);
        assert(views(out@) + words(line@) =~= words(line@));
    }
    while i < n
        invariant
            chars@ == line@,
            n == chars@.len(),
            i <= n,
            words(line@) == views(out@) + words(line@.skip(i as int)),
        decreases n - i,
    {
        let ghost rest = line@.skip(i as int);
        if is_whitespace(chars[i]) {
            proof {
                assert(rest.skip(1) =~= line@.skip(i + 1));
                assert(words(rest) == words(rest.skip(1)));
            }
            i = i + 1;
        } else {
            let mut j: usize = i;
            while j < n && !is_whitespace(chars[j])
                invariant
                    chars@ == line@,
                    n == chars@.len(),
                    i <= j <= n,
                    forall|k: int| i <= k < j ==> !is_space(#[trigger] line@[k]),
                decreases n - j,
            {
                j = j + 1;
            }
            let word = line.substring_char(i, j);
            proof {
                assert(!is_space(line@[i as int]));
                assert forall|k: int| 0 <= k < j - i implies !is_space(rest[k]) by {
                    assert(rest[k] == line@[i + k]);
                }
                word_len_is(rest, j - i);
                assert(trim_start(rest) == rest);
                assert(rest.take(j - i) =~= word@);
                assert(rest.skip(j - i) =~= line@.skip(j as int));
                assert(views(out@.push(word)) =~= views(out@).push(word@));
                assert(views(out@) + (seq![word@] + words(line@.skip(j as int))) =~= views(
                    out@.push(word),
                ) + words(line@.skip(j as int)));
            }
            out.push(word);
            i = j;
        }
    }
    proof {
        assert(line@.skip(n as int) =~= Seq::<char>::empty());
        assert(words(Seq::<char>::empty()) =~= Seq::<Seq<char>>::empty());
        assert(views(out@) + Seq::<Seq<char>>::empty() =~= views(out@));
    }
    out
}

/// Find the part of `chars` that is left after trimming both ends.
pub fn trim_bounds(chars: &Vec<char>) -> (range: (usize, usize))
    ensures
        range.0 <= range.1 <= chars@.len(),
        chars@.subrange(range.0 as int, range.1 as int) == trim(chars@),
{
    let n: usize = chars.len();
    let mut from: usize = 0;
    assert(chars@.skip(0) =~= chars@);
    while from < n && is_whitespace(chars[from])
        invariant
            n == chars@.len(),
            from <= n,
            trim_start(chars@) == trim_start(chars@.skip(from as int)),
        decreases n - from,
    {
        assert(chars@.skip(from as int).skip(1) =~= chars@.skip(from + 1));
        from = from + 1;
    }
    let to = trim_end_bound(chars, from);
    assert(trim_start(chars@) == chars@.skip(from as int));
    (from, to)
}

fn trim_end_bound(chars: &Vec<char>, from: usize) -> (to: usize)
    requires
        from <= chars@.len(),
    ensures
        from <= to <= chars@.len(),
        chars@.subrange(from as int, to as int) == trim_end(chars@.skip(from as int)),
{
    let mut to: usize = chars.len();
    assert(chars@.subrange(from as int, to as int) =~= chars@.skip(from as int));
    while to > from && is_whitespace(chars[to - 1])
        invariant
            from <= to <= chars@.len(),
            trim_end(chars@.skip(from as int)) == trim_end(
                chars@.subrange(from as int, to as int),
            ),
        decreases to,
    {
        assert(chars@.subrange(from as int, to as int).drop_last() =~= chars@.subrange(
            from as int,
            to - 1,
        ));
        to = to - 1;
    }
    to
}

/// Copy `s` without its trailing whitespace.
pub fn trim_end_string(s: &str) -> (out: String)
    ensures
        out@ == trim_end(s@),
{
    let chars = chars_of(s);
    let to = trim_end_bound(&chars, 0);
    let mut out = String::new();
    push_chars(&mut out, &chars, 0, to);
    assert(chars@.skip(0) =~= s@);
    assert(out@ =~= chars@.subrange(0, to as int));
    out
}

/// Copy `s` without surrounding whitespace.
pub fn trim_string(s: &str) -> (out: String)
    ensures
        out@ == trim(s@),
{
    let chars = chars_of(s);
    let (from, to) = trim_bounds(&chars);
    let mut out = String::new();
    push_chars(&mut out, &chars, from, to);
    assert(out@ =~= chars@.subrange(from as int, to as int));
    out
}

// ─── layout ──────────────────────────────────────────────────────────────────

/// `s`, filled with spaces on the right up to `width` characters.
pub open spec fn pad_right(s: Seq<char>, width: nat) -> Seq<char> {
    if s.len() < width {
        s + Seq::new((width - s.len()) as nat, |i: int| ' ')
    } else {
        s
    }
}

/// Append `s`, padded on the right to `width` characters.
pub fn push_padded(out: &mut String, s: &str, width: usize)
    ensures
        final(out)@ == old(out)@ + pad_right(s@, width as nat),
{
    out.append(s);
    let mut n: usize = s.unicode_len();
    let ghost start = n;
    assert(out@ =~= old(out)@ + s@ + Seq::new(0, |i: int| ' '));
    while n < width
        invariant
            start == s@.len(),
            start <= n,
            n <= width || n == start,
            out@ == old(out)@ + s@ + Seq::new((n - start) as nat, |i: int| ' '),
        decreases width - n,
    {
        out.push(' ');
        n = n + 1;
        assert(out@ =~= old(out)@ + s@ + Seq::new((n - start) as nat, |i: int| ' '));
    }
    assert(out@ =~= old(out)@ + pad_right(s@, width as nat));
}

/// The parts, with `sep` between each two of them.
pub open spec fn join(parts: Seq<Seq<char>>, sep: Seq<char>) -> Seq<char>
    decreases parts.len(),
{
    if parts.len() == 0 {
        Seq::empty()
    } else if parts.len() == 1 {
        parts[0]
    } else {
        join(parts.drop_last(), sep) + sep + parts.last()
    }
}

/// Join `parts` with `sep` between each two of them.
pub fn join_strings(parts: &Vec<String>, sep: &str) -> (out: String)
    ensures
        out@ == join(string_views(parts@), sep@),
{
    let mut out = String::new();
    let mut i: usize = 0;
    assert(string_views(parts@).take(0) =~= Seq::<Seq<char>>::empty());
    while i < parts.len()
        invariant
            i <= parts@.len(),
            out@ == join(string_views(parts@).take(i as int), sep@),
        decreases parts@.len() - i,
    {
        let ghost next = string_views(parts@).take(i + 1);
        assert(next.drop_last() =~= string_views(parts@).take(i as int));
        assert(next.last() == parts@[i as int]@);
        if i > 0 {
            out.append(sep);
        }
        out.append(parts[i].as_str());
        i = i + 1;
        assert(out@ =~= join(next, sep@));
    }
    assert(string_views(parts@).take(parts@.len() as int) =~= string_views(parts@));
    out
}

// ─── order ───────────────────────────────────────────────────────────────────

/// Lexicographic order by code point.
pub open spec fn text_lt(a: Seq<char>, b: Seq<char>) -> bool
    decreases a.len(),
{
    if b.len() == 0 {
        false
    } else if a.len() == 0 {
        true
    } else if a[0] == b[0] {
        text_lt(a.skip(1), b.skip(1))
    } else {
        (a[0] as int) < b[0] as int
    }
}

/// Of two different texts one comes before the other, and no text comes before
/// itself.
pub proof fn text_lt_is_total(a: Seq<char>, b: Seq<char>)
    ensures
        text_lt(a, b) || text_lt(b, a) <==> a != b,
        !(text_lt(a, b) && text_lt(b, a)),
    decreases a.len(),
{
    if a.len() == 0 || b.len() == 0 {
        if a.len() == 0 && b.len() == 0 {
            assert(a =~= b);
        }
    } else if a[0] == b[0] {
        text_lt_is_total(a.skip(1), b.skip(1));
        if a.skip(1) == b.skip(1) {
            assert(a =~= seq![a[0]] + a.skip(1));
            assert(b =~= seq![b[0]] + b.skip(1));
        }
    }
}

/// The order of texts is transitive.
pub proof fn text_lt_is_transitive(a: Seq<char>, b: Seq<char>, c: Seq<char>)
    requires
        text_lt(a, b),
        text_lt(b, c),
    ensures
        text_lt(a, c),
    decreases a.len(),
{
    if a.len() > 0 && a[0] == b[0] && b[0] == c[0] {
        text_lt_is_transitive(a.skip(1), b.skip(1), c.skip(1));
    }
}

/// Whether `a` comes before `b` in lexicographic order.
pub fn text_before(a: &str, b: &str) -> (before: bool)
    ensures
        before == text_lt(a@, b@),
{
    let x = chars_of(a);
    let y = chars_of(b);
    let mut i: usize = 0;
    assert(a@.skip(0) =~= a@);
    assert(b@.skip(0) =~= b@);
    while i < x.len() && i < y.len() && x[i] == y[i]
        invariant
            x@ == a@,
            y@ == b@,
            i <= x@.len(),
            i <= y@.len(),
            text_lt(a@, b@) == text_lt(a@.skip(i as int), b@.skip(i as int)),
        decreases x@.len() - i,
    {
        assert(a@.skip(i as int).skip(1) =~= a@.skip(i + 1));
        assert(b@.skip(i as int).skip(1) =~= b@.skip(i + 1));
        i = i + 1;
    }
    if i >= y.len() {
        false
    } else if i >= x.len() {
        true
    } else {
        let c: char = x[i];
        let d: char = y[i];
        c < d
    }
}

// ─── laws ────────────────────────────────────────────────────────────────────

/// Whether `part` occurs in `whole`.
pub open spec fn has_part(whole: Seq<char>, part: Seq<char>) -> bool {
    exists|at: int| #[trigger] is_part_at(whole, part, at)
}

/// Whether `part` occurs in `whole` at the position.
pub open spec fn is_part_at(whole: Seq<char>, part: Seq<char>, at: int) -> bool {
    &&& 0 <= at
    &&& at + part.len() <= whole.len()
    &&& part == whole.subrange(at, at + part.len())
}

/// What occurs in a text still does when more is added.
pub proof fn parts_stay(whole: Seq<char>, more: Seq<char>, part: Seq<char>)
    requires
        has_part(whole, part),
    ensures
        has_part(whole + more, part),
{
    let at = choose|at: int| is_part_at(whole, part, at);
    let all = whole + more;
    assert(part =~= all.subrange(at, at + part.len()));
    assert(is_part_at(all, part, at));
}

/// What occurs in a text still does when it follows another.
pub proof fn ends_stay(before: Seq<char>, whole: Seq<char>, part: Seq<char>)
    requires
        has_part(whole, part),
    ensures
        has_part(before + whole, part),
{
    let at = choose|at: int| is_part_at(whole, part, at);
    let all = before + whole;
    assert(part =~= all.subrange(before.len() + at, before.len() + at + part.len()));
    assert(is_part_at(all, part, before.len() + at));
}

/// What is added to a text occurs in it.
pub proof fn ends_are_parts(whole: Seq<char>, label: Seq<char>, value: Seq<char>)
    ensures
        has_part(whole + label + value, label + value),
{
    let part = label + value;
    let all = whole + label + value;
    assert(part =~= all.subrange(whole.len() as int, (whole.len() + part.len()) as int));
    assert(is_part_at(all, part, whole.len() as int));
}

/// What occurs in lines, the break before them counted in, occurs where they follow other
/// lines.
pub proof fn lines_stay(head: Seq<char>, above: Seq<char>, lines: Seq<char>, part: Seq<char>)
    requires
        above.len() > 0,
        above.last() == '\n',
        has_part("\n"@ + lines, part),
    ensures
        has_part(head + (above + lines), part),
{
    reveal_strlit("\n");
    let broken = "\n"@ + lines;
    let at = choose|at: int| is_part_at(broken, part, at);
    let all = head + (above + lines);
    let start = head.len() + above.len() - 1;
    assert(broken =~= all.subrange(start, start + broken.len()));
    assert(part =~= all.subrange(start + at, start + at + part.len()));
    assert(is_part_at(all, part, start + at));
}

/// A line added below other lines occurs among them, the break before it counted in, and
/// so does all that occurred there before.
pub proof fn lines_are_added(lines: Seq<char>, line: Seq<char>, part: Seq<char>)
    ensures
        lines.len() == 0 || lines.last() == '\n' ==> has_part(
            "\n"@ + (lines + line),
            "\n"@ + line,
        ),
        has_part("\n"@ + lines, part) ==> has_part("\n"@ + (lines + line), part),
        line.len() > 0 && line.last() == '\n' ==> (lines + line).last() == '\n',
{
    reveal_strlit("\n");
    let all = "\n"@ + (lines + line);
    if lines.len() == 0 || lines.last() == '\n' {
        let added = "\n"@ + line;
        let at = lines.len() as int;
        assert(added =~= all.subrange(at, at + added.len()));
        assert(is_part_at(all, added, at));
    }
    if has_part("\n"@ + lines, part) {
        parts_stay("\n"@ + lines, line, part);
        assert("\n"@ + lines + line =~= all);
    }
}

/// Every text is a part of itself.
pub proof fn texts_have_themselves(s: Seq<char>)
    ensures
        has_part(s, s),
{
    assert(s =~= s.subrange(0, s.len() as int));
    assert(is_part_at(s, s, 0));
}

/// The decimal numeral of a number denotes that number, with or without a plus sign.
pub proof fn numerals_are_read_back(n: u16)
    ensures
        parsed_u16(decimal(n as nat), 10) == Some(n),
        parsed_u16(seq!['+'] + decimal(n as nat), 10) == Some(n),
{
    decimal_has_value(n as nat);
    let plain = decimal(n as nat);
    assert(unsigned_part(plain) == plain);
    assert((seq!['+'] + plain).skip(1) =~= plain);
}

/// A decimal numeral has digits only, and the value of the number. So different numbers
/// have different numerals.
pub proof fn decimal_has_value(n: nat)
    ensures
        digits_value(decimal(n), 10) == Some(n as int),
        decimal(n).len() > 0,
        forall|i: int| 0 <= i < decimal(n).len() ==> '0' <= #[trigger] decimal(n)[i] <= '9',
    decreases n,
{
    if n < 10 {
        let s = decimal(n);
        assert(s.drop_last() =~= Seq::<char>::empty());
        assert(s.last() == digit_char(n as int));
        assert(digits_value(s.drop_last(), 10) == Some(0int));
    } else {
        decimal_has_value(n / 10);
        let s = decimal(n);
        assert(s.drop_last() =~= decimal(n / 10));
        assert(s.last() == digit_char((n % 10) as int));
    }
}

/// Trimming the end of a text takes away whitespace only, and all of it that stands
/// there.
pub proof fn trim_end_takes_whitespace(s: Seq<char>)
    ensures
        trim_end(s).is_prefix_of(s),
        forall|i: int| trim_end(s).len() <= i < s.len() ==> is_space(#[trigger] s[i]),
        trim_end(s).len() > 0 ==> !is_space(trim_end(s).last()),
    decreases s.len(),
{
    if s.len() > 0 && is_space(s.last()) {
        trim_end_takes_whitespace(s.drop_last());
        assert forall|i: int| trim_end(s).len() <= i < s.len() implies is_space(#[trigger] s[i]) by {
            if i < s.len() - 1 {
                assert(s[i] == s.drop_last()[i]);
            }
        }
    }
}

/// A word, whitespace and more text: the word comes first, and then the words of the
/// rest.
pub proof fn words_are_split_at_whitespace(word: Seq<char>, space: char, rest: Seq<char>)
    requires
        word.len() > 0,
        forall|i: int| 0 <= i < word.len() ==> !is_space(#[trigger] word[i]),
        is_space(space),
    ensures
        words(word) == seq![word],
        words(word.push(space) + rest) == seq![word] + words(rest),
        words(seq![space] + rest) == words(rest),
{
    let spaced = seq![space] + rest;
    assert(spaced.skip(1) =~= rest);
    assert(trim_start(spaced) == trim_start(rest));
    assert(words(spaced) == words(rest));
    word_before(word, Seq::empty());
    assert(word + Seq::<char>::empty() =~= word);
    assert(words(Seq::<char>::empty()) =~= Seq::<Seq<char>>::empty());
    assert(words(word) =~= seq![word]);
    word_before(word, spaced);
    assert(word + spaced =~= word.push(space) + rest);
}

proof fn word_before(word: Seq<char>, rest: Seq<char>)
    requires
        word.len() > 0,
        forall|i: int| 0 <= i < word.len() ==> !is_space(#[trigger] word[i]),
        rest.len() > 0 ==> is_space(rest[0]),
    ensures
        words(word + rest) == seq![word] + words(rest),
{
    let s = word + rest;
    assert(s[0] == word[0]);
    assert(trim_start(s) == s);
    word_length(word, rest);
    assert(s.take(word.len() as int) =~= word);
    assert(s.skip(word.len() as int) =~= rest);
}

proof fn word_length(word: Seq<char>, rest: Seq<char>)
    requires
        forall|i: int| 0 <= i < word.len() ==> !is_space(#[trigger] word[i]),
        rest.len() > 0 ==> is_space(rest[0]),
    ensures
        word_len(word + rest) == word.len(),
    decreases word.len(),
{
    let s = word + rest;
    if word.len() == 0 {
        assert(s =~= rest);
    } else {
        assert(s[0] == word[0]);
        assert(s.skip(1) =~= word.skip(1) + rest);
        word_length(word.skip(1), rest);
    }
}

/// Each joined part occurs in the text that joins them.
pub proof fn joined_parts_occur(parts: Seq<Seq<char>>, sep: Seq<char>, i: int)
    requires
        0 <= i < parts.len(),
    ensures
        has_part(join(parts, sep), parts[i]),
    decreases parts.len(),
{
    let before = join(parts.drop_last(), sep);
    if parts.len() == 1 {
        texts_have_themselves(parts[0]);
    } else if i == parts.len() - 1 {
        texts_have_themselves(parts[i]);
        ends_stay(before + sep, parts[i], parts[i]);
    } else {
        joined_parts_occur(parts.drop_last(), sep, i);
        parts_stay(before, sep, parts[i]);
        parts_stay(before + sep, parts.last(), parts[i]);
    }
}

/// The hexadecimal numeral of two bytes denotes the number that they make, most
/// significant first.
pub proof fn hex_numerals_are_read_back(high: u8, low: u8)
    ensures
        parsed_u16(hex(seq![high, low]), 16) == Some((high * 256 + low) as u16),
{
    let bytes = seq![high, low];
    let s = hex(bytes);
    assert(s.len() == 4);
    let a = s.take(1);
    let b = s.take(2);
    let c = s.take(3);
    assert(s[0] == digit_char((high / 16) as int));
    assert(s[1] == digit_char((high % 16) as int));
    assert(s[2] == digit_char((low / 16) as int));
    assert(s[3] == digit_char((low % 16) as int));
    digit_has_value((high / 16) as int);
    digit_has_value((high % 16) as int);
    digit_has_value((low / 16) as int);
    digit_has_value((low % 16) as int);
    assert(a.drop_last() =~= Seq::<char>::empty());
    assert(a.last() == s[0]);
    assert(b.drop_last() =~= a);
    assert(b.last() == s[1]);
    assert(c.drop_last() =~= b);
    assert(c.last() == s[2]);
    assert(s.drop_last() =~= c);
    assert(s.last() == s[3]);
    assert(digits_value(Seq::<char>::empty(), 16) == Some(0int));
    assert(digits_value(a, 16) == Some((high / 16) as int));
    assert(digits_value(b, 16) == Some(high as int));
    assert(digits_value(c, 16) == Some(high * 16 + low / 16));
    assert(digits_value(s, 16) == Some(high * 256 + low));
}

proof fn digit_has_value(d: int)
    requires
        0 <= d < 16,
    ensures
        digit_value(digit_char(d), 16) == Some(d),
        digit_char(d) != '+',
{
}

/// Trimming takes away the whitespace around a text that neither starts nor ends with
/// whitespace, and nothing else.
pub proof fn whitespace_around_is_trimmed(before: Seq<char>, s: Seq<char>, after: Seq<char>)
    requires
        s.len() > 0,
        !is_space(s[0]),
        !is_space(s.last()),
        forall|i: int| 0 <= i < before.len() ==> is_space(#[trigger] before[i]),
        forall|i: int| 0 <= i < after.len() ==> is_space(#[trigger] after[i]),
    ensures
        trim(before + s + after) == s,
{
    start_is_trimmed(before, s + after);
    assert(before + s + after =~= before + (s + after));
    end_is_trimmed(s, after);
}

proof fn start_is_trimmed(before: Seq<char>, s: Seq<char>)
    requires
        s.len() > 0,
        !is_space(s[0]),
        forall|i: int| 0 <= i < before.len() ==> is_space(#[trigger] before[i]),
    ensures
        trim_start(before + s) == s,
    decreases before.len(),
{
    if before.len() == 0 {
        assert(before + s =~= s);
    } else {
        assert((before + s)[0] == before[0]);
        assert((before + s).skip(1) =~= before.skip(1) + s);
        start_is_trimmed(before.skip(1), s);
    }
}

proof fn end_is_trimmed(s: Seq<char>, after: Seq<char>)
    requires
        s.len() > 0,
        !is_space(s.last()),
        forall|i: int| 0 <= i < after.len() ==> is_space(#[trigger] after[i]),
    ensures
        trim_end(s + after) == s,
    decreases after.len(),
{
    if after.len() == 0 {
        assert(s + after =~= s);
    } else {
        assert((s + after).last() == after.last());
        assert((s + after).drop_last() =~= s + after.drop_last());
        end_is_trimmed(s, after.drop_last());
    }
}

} // verus!
