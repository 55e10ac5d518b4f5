//! Lines as sequences of characters: white space, trimming, markers, the
//! escape of line ends and its inverse, decimal numerals, and widths in bytes.

use vstd::prelude::*;

verus! {

/// The characters with the Unicode property `White_Space`.
pub open spec fn is_space(c: char) -> bool {
    let u = c as u32;
    ||| 0x09 <= u <= 0x0D
    ||| u == 0x20
    ||| u == 0x85
    ||| u == 0xA0
    ||| u == 0x1680
    ||| 0x2000 <= u <= 0x200A
    ||| u == 0x2028
    ||| u == 0x2029
    ||| u == 0x202F
    ||| u == 0x205F
    ||| u == 0x3000
}

/// The character that marks command and annotation lines.
pub open spec fn is_marker(c: char) -> bool {
    c == '#'
}

/// How many characters at the start of `s` satisfy `p`.
pub open spec fn count_leading(s: Seq<char>, p: spec_fn(char) -> bool) -> nat
    decreases s.len(),
{
    if s.len() > 0 && p(s[0]) {
        1 + count_leading(s.drop_first(), p)
    } else {
        0
    }
}

/// How many characters at the end of `s` satisfy `p`.
pub open spec fn count_trailing(s: Seq<char>, p: spec_fn(char) -> bool) -> nat
    decreases s.len(),
{
    if s.len() > 0 && p(s.last()) {
        1 + count_trailing(s.drop_last(), p)
    } else {
        0
    }
}

/// `s` without the white space at its start.
pub open spec fn trimmed_start(s: Seq<char>) -> Seq<char> {
    s.skip(count_leading(s, |c: char| is_space(c)) as int)
}

/// `s` without the white space at its end.
pub open spec fn trimmed_end(s: Seq<char>) -> Seq<char> {
    s.take(s.len() - count_trailing(s, |c: char| is_space(c)))
}

/// `s` without the white space at its start and at its end.
pub open spec fn trimmed(s: Seq<char>) -> Seq<char> {
    trimmed_end(trimmed_start(s))
}

/// How many markers `s` starts with.
pub open spec fn leading_markers(s: Seq<char>) -> nat {
    count_leading(s, |c: char| is_marker(c))
}

/// `s` with every backslash that stands directly before a line feed taken
/// out, from left to right.
pub open spec fn unescaped(s: Seq<char>) -> Seq<char>
    decreases s.len(),
{
    if s.len() >= 2 && s[0] == '\\' && s[1] == '\n' {
        seq!['\n'] + unescaped(s.skip(2))
    } else if s.len() > 0 {
        seq![s[0]] + unescaped(s.skip(1))
    } else {
        Seq::empty()
    }
}

/// Whether `s` ends with a backslash and a line feed: the line goes on in the
/// next one.
pub open spec fn continues(s: Seq<char>) -> bool {
    s.len() >= 2 && s[s.len() - 2] == '\\' && s[s.len() - 1] == '\n'
}

/// The number of bytes of a character in UTF-8.
pub open spec fn utf8_width(c: char) -> nat {
    let u = c as u32;
    if u < 0x80 {
        1
    } else if u < 0x800 {
        2
    } else if u < 0x10000 {
        3
    } else {
        4
    }
}

/// The number of bytes of `s` in UTF-8.
pub open spec fn byte_len(s: Seq<char>) -> nat
    decreases s.len(),
{
    if s.len() == 0 {
        0
    } else {
        byte_len(s.drop_last()) + utf8_width(s.last())
    }
}

/// Where the first `n` characters satisfy `p` and the next one, if there is
/// one, does not, `n` is the count of leading characters that satisfy `p`.
pub proof fn lemma_count_leading(s: Seq<char>, p: spec_fn(char) -> bool, n: nat)
    requires
        n <= s.len(),
        forall|k: int| 0 <= k < n ==> p(#[trigger] s[k]),
        n == s.len() || !p(s[n as int]),
    ensures
        count_leading(s, p) == n,
    decreases n,
{
    if n > 0 {
        let rest = s.drop_first();
        assert forall|k: int| 0 <= k < n - 1 implies p(#[trigger] rest[k]) by {
            assert(rest[k] == s[k + 1]);
        }
        lemma_count_leading(rest, p, (n - 1) as nat);
    }
}

/// Where the last `n` characters satisfy `p` and the one before them, if
/// there is one, does not, `n` is the count of trailing characters that
/// satisfy `p`.
pub proof fn lemma_count_trailing(s: Seq<char>, p: spec_fn(char) -> bool, n: nat)
    requires
        n <= s.len(),
        forall|k: int| s.len() - n <= k < s.len() ==> p(#[trigger] s[k]),
        n == s.len() || !p(s[s.len() - n - 1]),
    ensures
        count_trailing(s, p) == n,
    decreases n,
{
    if n > 0 {
        let rest = s.drop_last();
        assert forall|k: int| rest.len() - (n - 1) <= k < rest.len() implies p(
            #[trigger] rest[k],
        ) by {
            assert(rest[k] == s[k]);
        }
        lemma_count_trailing(rest, p, (n - 1) as nat);
    }
}

/// The count of leading characters is at most the length, all counted
/// characters satisfy `p`, and the first one not counted does not.
pub proof fn lemma_count_leading_bounds(s: Seq<char>, p: spec_fn(char) -> bool)
    ensures
        count_leading(s, p) <= s.len(),
        forall|k: int| 0 <= k < count_leading(s, p) ==> p(#[trigger] s[k]),
        count_leading(s, p) < s.len() ==> !p(s[count_leading(s, p) as int]),
    decreases s.len(),
{
    if s.len() > 0 && p(s[0]) {
        let rest = s.drop_first();
        lemma_count_leading_bounds(rest, p);
        assert forall|k: int| 0 <= k < count_leading(s, p) implies p(#[trigger] s[k]) by {
            if k > 0 {
                assert(s[k] == rest[k - 1]);
            }
        }
        if count_leading(s, p) < s.len() {
            assert(s[count_leading(s, p) as int] == rest[count_leading(rest, p) as int]);
        }
    }
}

/// A text takes at most four bytes for each character.
pub proof fn lemma_byte_len_bound(s: Seq<char>)
    ensures
        s.len() <= byte_len(s) <= 4 * s.len(),
    decreases s.len(),
{
    if s.len() > 0 {
        lemma_byte_len_bound(s.drop_last());
    }
}

/// Whether `c` is white space.
pub fn char_is_space(c: char) -> (r: bool)
    ensures
        r == is_space(c),
{
    let u: u32 = c as u32;
    (0x09 <= u && u <= 0x0D) || u == 0x20 || u == 0x85 || u == 0xA0 || u == 0x1680 || (0x2000 <= u
        && u <= 0x200A) || u == 0x2028 || u == 0x2029 || u == 0x202F || u == 0x205F || u == 0x3000
}

/// The characters of a text, in order.
///
/// Rests on `str::chars` and `Iterator::collect`. A vector of characters
/// takes four bytes for each, and no vector takes more than `isize::MAX`
/// bytes.
#[verifier::external_body]
pub(crate) fn chars_of(s: &str) -> (r: Vec<char>)
    ensures
        r@ == s@,
        4 * r@.len() <= isize::MAX,
{
    s.chars().collect()
}

/// The text made of `chars`, in order. Rests on `String::from_iter`.
#[verifier::external_body]
pub(crate) fn string_of(chars: &Vec<char>) -> (r: String)
    ensures
        r@ == chars@,
{
    chars.iter().collect()
}

/// The half-open range of `chars` that is left when the white space at both
/// ends is taken away.
pub fn trim_bounds(chars: &Vec<char>) -> (r: (usize, usize))
    ensures
        r.0 <= r.1 <= chars.len(),
        r.0 == count_leading(chars@, |c: char| is_space(c)),
        chars@.subrange(r.0 as int, r.1 as int) == trimmed(chars@),
{
    let n = chars.len();
    let mut start: usize = 0;
    while start < n && char_is_space(chars[start])
        invariant
            start <= n,
            n == chars.len(),
            forall|k: int| 0 <= k < start ==> is_space(#[trigger] chars@[k]),
        decreases n - start,
    {
        start += 1;
    }
    let mut end: usize = n;
    while end > start && char_is_space(chars[end - 1])
        invariant
            start <= end <= n,
            n == chars.len(),
            forall|k: int| end <= k < n ==> is_space(#[trigger] chars@[k]),
        decreases end,
    {
        end -= 1;
    }
    proof {
        let p = |c: char| is_space(c);
        lemma_count_leading(chars@, p, start as nat);
        let rest = chars@.skip(start as int);
        assert(rest == trimmed_start(chars@));
        assert forall|k: int| rest.len() - (n - end) <= k < rest.len() implies p(
            #[trigger] rest[k],
        ) by {
            assert(rest[k] == chars@[k + start]);
        }
        if end > start {
            assert(rest[end - start - 1] == chars@[end - 1]);
        }
        lemma_count_trailing(rest, p, (n - end) as nat);
        assert(chars@.subrange(start as int, end as int) =~= rest.take(rest.len() - (n - end)));
    }
    (start, end)
}

/// The characters of `chars` from `from` up to `to`.
pub fn slice_of(chars: &Vec<char>, from: usize, to: usize) -> (r: Vec<char>)
    requires
        from <= to <= chars.len(),
    ensures
        r@ == chars@.subrange(from as int, to as int),
{
    let mut out: Vec<char> = Vec::new();
    let mut i: usize = from;
    while i < to
        invariant
            from <= i <= to <= chars.len(),
            out@ == chars@.subrange(from as int, i as int),
        decreases to - i,
    {
        out.push(chars[i]);
        assert(out@ =~= chars@.subrange(from as int, i + 1));
        i += 1;
    }
    out
}

/// `chars` without the white space at both ends.
pub fn trim(chars: &Vec<char>) -> (r: Vec<char>)
    ensures
        r@ == trimmed(chars@),
{
    let (start, end) = trim_bounds(chars);
    slice_of(chars, start, end)
}

/// How many markers `chars` starts with.
pub fn count_markers(chars: &Vec<char>) -> (r: usize)
    ensures
        r == leading_markers(chars@),
        r <= chars.len(),
{
    let n = chars.len();
    let mut i: usize = 0;
    while i < n && chars[i] == '#'
        invariant
            i <= n,
            n == chars.len(),
            forall|k: int| 0 <= k < i ==> is_marker(#[trigger] chars@[k]),
        decreases n - i,
    {
        i += 1;
    }
    proof {
        lemma_count_leading(chars@, |c: char| is_marker(c), i as nat);
    }
    i
}

/// `chars` with every backslash that stands directly before a line feed
/// taken out.
pub fn unescape(chars: &Vec<char>) -> (r: Vec<char>)
    ensures
        r@ == unescaped(chars@),
{
    let n = chars.len();
    let mut out: Vec<char> = Vec::new();
    let mut i: usize = 0;
    proof {
        assert(chars@.skip(0) =~= chars@);
        assert(out@ + unescaped(chars@) =~= unescaped(chars@));
    }
    while i < n
        invariant
            i <= n,
            n == chars.len(),
            out@ + unescaped(chars@.skip(i as int)) == unescaped(chars@),
        decreases n - i,
    {
        let ghost rest = chars@.skip(i as int);
        if chars[i] == '\\' && i + 1 < n && chars[i + 1] == '\n' {
            out.push('\n');
            proof {
                assert(rest[0] == '\\' && rest[1] == '\n');
                assert(rest.skip(2) =~= chars@.skip(i + 2));
                assert(out@ + unescaped(chars@.skip(i + 2)) =~= out@.drop_last() + unescaped(rest));
            }
            i += 2;
        } else {
            out.push(chars[i]);
            proof {
                assert(rest[0] == chars@[i as int]);
                if rest.len() >= 2 {
                    assert(rest[1] == chars@[i + 1]);
                }
                assert(rest.skip(1) =~= chars@.skip(i + 1));
                assert(out@ + unescaped(chars@.skip(i + 1)) =~= out@.drop_last() + unescaped(rest));
            }
            i += 1;
        }
    }
    assert(chars@.skip(n as int) =~= Seq::empty());
    assert(out@ + Seq::<char>::empty() =~= out@);
    out
}

/// Whether `chars` ends with a backslash and a line feed.
pub fn ends_with_continuation(chars: &Vec<char>) -> (r: bool)
    ensures
        r == continues(chars@),
{
    let n = chars.len();
    n >= 2 && chars[n - 2] == '\\' && chars[n - 1] == '\n'
}

/// The number of bytes of `c` in UTF-8.
pub fn char_width(c: char) -> (r: usize)
    ensures
        r == utf8_width(c),
{
    let u: u32 = c as u32;
    if u < 0x80 {
        1
    } else if u < 0x800 {
        2
    } else if u < 0x10000 {
        3
    } else {
        4
    }
}

/// The number of bytes of the first `count` characters of `chars` in UTF-8.
pub fn prefix_width(chars: &Vec<char>, count: usize) -> (r: usize)
    requires
        count <= chars.len(),
        4 * chars.len() <= usize::MAX,
    ensures
        r == byte_len(chars@.take(count as int)),
        r <= 4 * count,
{
    let mut width: usize = 0;
    let mut i: usize = 0;
    while i < count
        invariant
            i <= count <= chars.len(),
            4 * chars.len() <= usize::MAX,
            width == byte_len(chars@.take(i as int)),
            width <= 4 * i,
        decreases count - i,
    {
        proof {
            assert(chars@.take(i + 1).drop_last() =~= chars@.take(i as int));
            assert(chars@.take(i + 1).last() == chars@[i as int]);
        }
        width += char_width(chars[i]);
        i += 1;
    }
    width
}

/// `chars` without the white space at its end.
pub fn trim_end(chars: &Vec<char>) -> (r: Vec<char>)
    ensures
        r@ == trimmed_end(chars@),
{
    let n = chars.len();
    let mut end: usize = n;
    while end > 0 && char_is_space(chars[end - 1])
        invariant
            end <= n,
            n == chars.len(),
            forall|k: int| end <= k < n ==> is_space(#[trigger] chars@[k]),
        decreases end,
    {
        end -= 1;
    }
    proof {
        lemma_count_trailing(chars@, |c: char| is_space(c), (n - end) as nat);
        assert(chars@.subrange(0, end as int) =~= chars@.take(chars@.len() - (n - end)));
    }
    slice_of(chars, 0, end)
}

/// The character of a decimal digit.
pub open spec fn digit_char(d: nat) -> char {
    if d == 0 {
        '0'
    } else if d == 1 {
        '1'
    } else if d == 2 {
        '2'
    } else if d == 3 {
        '3'
    } else if d == 4 {
        '4'
    } else if d == 5 {
        '5'
    } else if d == 6 {
        '6'
    } else if d == 7 {
        '7'
    } else if d == 8 {
        '8'
    } else {
        '9'
    }
}

/// The decimal numeral of `n`: its digits, the highest first, without
/// leading zeros.
pub open spec fn decimal(n: nat) -> Seq<char>
    decreases n,
{
    if n < 10 {
        seq![digit_char(n)]
    } else {
        decimal(n / 10).push(digit_char(n % 10))
    }
}

/// The character of the decimal digit `d`.
fn digit(d: usize) -> (r: char)
    requires
        d < 10,
    ensures
        r == digit_char(d as nat),
{
    if d == 0 {
        '0'
    } else if d == 1 {
        '1'
    } else if d == 2 {
        '2'
    } else if d == 3 {
        '3'
    } else if d == 4 {
        '4'
    } else if d == 5 {
        '5'
    } else if d == 6 {
        '6'
    } else if d == 7 {
        '7'
    } else if d == 8 {
        '8'
    } else {
        '9'
    }
}

/// Adds the decimal numeral of `n` at the end of `out`.
pub fn push_decimal(n: usize, out: &mut Vec<char>)
    ensures
        final(out)@ == old(out)@ + decimal(n as nat),
    decreases n,
{
    if n >= 10 {
        push_decimal(n / 10, out);
    }
    out.push(digit(n % 10));
    assert(out@ =~= old(out)@ + decimal(n as nat));
}

/// Adds the characters of `s` at the end of `out`.
pub fn push_text(s: &str, out: &mut Vec<char>)
    ensures
        final(out)@ == old(out)@ + s@,
{
    let chars = chars_of(s);
    let mut i: usize = 0;
    while i < chars.len()
        invariant
            i <= chars.len(),
            chars@ == s@,
            out@ == old(out)@ + chars@.take(i as int),
        decreases chars.len() - i,
    {
        out.push(chars[i]);
        assert(out@ =~= old(out)@ + chars@.take(i + 1));
        i += 1;
    }
    assert(chars@.take(i as int) =~= chars@);
}

/// The decimal numeral of `n`.
pub fn to_decimal(n: usize) -> (r: String)
    ensures
        r@ == decimal(n as nat),
{
    let mut out: Vec<char> = Vec::new();
    push_decimal(n, &mut out);
    assert(out@ =~= decimal(n as nat));
    string_of(&out)
}

/// Whether `c` is a decimal digit.
pub open spec fn is_digit(c: char) -> bool {
    '0' <= c <= '9'
}

/// The number that a sequence of decimal digits stands for.
pub open spec fn digits_value(s: Seq<char>) -> nat
    decreases s.len(),
{
    if s.len() == 0 {
        0
    } else {
        digits_value(s.drop_last()) * 10 + (s.last() as u32 - '0' as u32) as nat
    }
}

/// Whether every character of `s` is a decimal digit.
pub open spec fn all_digits(s: Seq<char>) -> bool {
    forall|k: int| 0 <= k < s.len() ==> is_digit(#[trigger] s[k])
}

/// Whether `s` starts with a minus sign.
pub open spec fn has_sign(s: Seq<char>) -> bool {
    s.len() > 0 && s[0] == '-'
}

/// `s` without the minus sign that it may start with.
pub open spec fn unsigned_part(s: Seq<char>) -> Seq<char> {
    if has_sign(s) {
        s.skip(1)
    } else {
        s
    }
}

/// The integer that a sequence of digits with or without a minus sign
/// stands for.
pub open spec fn signed_value(s: Seq<char>) -> int {
    if has_sign(s) {
        -(digits_value(unsigned_part(s)) as int)
    } else {
        digits_value(unsigned_part(s)) as int
    }
}

/// The integer that `s` stands for, where `s` is a decimal integer that fits
/// 64 bits with a sign: digits, at least one, with a minus sign before them
/// or without.
pub open spec fn numeral_value(s: Seq<char>) -> Option<int> {
    if unsigned_part(s).len() > 0 && all_digits(unsigned_part(s)) && i64::MIN <= signed_value(s)
        <= i64::MAX {
        Some(signed_value(s))
    } else {
        None
    }
}

/// More digits do not make a smaller number.
pub proof fn lemma_digits_value_grows(s: Seq<char>, n: nat)
    requires
        n <= s.len(),
    ensures
        digits_value(s.take(n as int)) <= digits_value(s),
    decreases s.len() - n,
{
    if n < s.len() {
        assert(s.take((n + 1) as int).drop_last() =~= s.take(n as int));
        lemma_digits_value_grows(s, n + 1);
    } else {
        assert(s.take(n as int) =~= s);
    }
}

/// The number that the digits of `chars` from `first` on stand for, if they
/// are all digits and the number is at most 2 to the power of 63.
fn parse_digits(chars: &Vec<char>, first: usize) -> (r: Option<u128>)
    requires
        first <= chars.len(),
    ensures
        match r {
            Some(v) => all_digits(chars@.skip(first as int)) && v == digits_value(
                chars@.skip(first as int),
            ) && v <= 0x8000_0000_0000_0000,
            None => !all_digits(chars@.skip(first as int)) || digits_value(
                chars@.skip(first as int),
            ) > 0x8000_0000_0000_0000,
        },
{
    let n = chars.len();
    let ghost digits = chars@.skip(first as int);
    let mut acc: u128 = 0;
    let mut i: usize = first;
    proof {
        assert(digits.take(0) =~= Seq::empty());
    }
    while i < n
        invariant
            first <= i <= n,
            n == chars.len(),
            digits == chars@.skip(first as int),
            forall|k: int| 0 <= k < i - first ==> is_digit(#[trigger] digits[k]),
            acc == digits_value(digits.take(i - first)),
            acc <= 0x8000_0000_0000_0000,
        decreases n - i,
    {
        let c = chars[i];
        assert(digits[i - first] == c);
        if !('0' <= c && c <= '9') {
            assert(!is_digit(digits[i - first]));
            return None;
        }
        proof {
            assert(digits.take(i - first + 1).drop_last() =~= digits.take(i - first));
            assert(digits.take(i - first + 1).last() == c);
        }
        let next: u128 = acc * 10 + ((c as u32 - '0' as u32) as u128);
        if next > 0x8000_0000_0000_0000 {
            proof {
                if all_digits(digits) {
                    lemma_digits_value_grows(digits, (i - first + 1) as nat);
                }
            }
            return None;
        }
        acc = next;
        i += 1;
    }
    proof {
        assert(digits.take(n - first) =~= digits);
    }
    Some(acc)
}

/// The integer that `chars` stands for, if it is a decimal integer that fits.
pub fn parse_numeral(chars: &Vec<char>) -> (r: Option<i64>)
    ensures
        match r {
            Some(v) => numeral_value(chars@) == Some(v as int),
            None => numeral_value(chars@) is None,
        },
{
    let n = chars.len();
    let negative = n > 0 && chars[0] == '-';
    let first: usize = if negative {
        1
    } else {
        0
    };
    proof {
        assert(chars@.skip(0) =~= chars@);
        assert(unsigned_part(chars@) == chars@.skip(first as int));
    }
    if first == n {
        return None;
    }
    match parse_digits(chars, first) {
        None => None,
        Some(acc) => {
            if negative {
                if acc == 0x8000_0000_0000_0000 {
                    Some(i64::MIN)
                } else {
                    Some(-(acc as i64))
                }
            } else if acc == 0x8000_0000_0000_0000 {
                None
            } else {
                Some(acc as i64)
            }
        },
    }
}

/// `s` with a backslash put before every line feed.
pub open spec fn escaped_newlines(s: Seq<char>) -> Seq<char>
    decreases s.len(),
{
    if s.len() == 0 {
        Seq::empty()
    } else if s[0] == '\n' {
        seq!['\\', '\n'] + escaped_newlines(s.skip(1))
    } else {
        seq![s[0]] + escaped_newlines(s.skip(1))
    }
}

/// `s` as it is written on one logical line: a backslash before every line
/// feed, and one more backslash at the end where `s` ends with one, so that
/// the end of the line does not make it go on.
pub open spec fn escaped(s: Seq<char>) -> Seq<char> {
    let e = escaped_newlines(s);
    if e.len() > 0 && e.last() == '\\' {
        e.push('\\')
    } else {
        e
    }
}

/// Escaping keeps the first character, unless it is a line feed, and the
/// last character.
pub proof fn lemma_escaped_ends(s: Seq<char>)
    requires
        s.len() > 0,
    ensures
        escaped_newlines(s).len() >= s.len(),
        s[0] != '\n' ==> escaped_newlines(s)[0] == s[0],
        s[0] == '\n' ==> escaped_newlines(s)[0] == '\\',
        escaped_newlines(s).last() == s.last(),
    decreases s.len(),
{
    let rest = s.skip(1);
    if rest.len() > 0 {
        lemma_escaped_ends(rest);
        assert(rest.last() == s.last());
    } else {
        assert(escaped_newlines(rest) =~= Seq::empty());
    }
}

/// Taking the escapes out gives back what was escaped: of an escaped text
/// followed by `tail`, what is left is the text followed by what is left of
/// `tail`, unless the text ends with a backslash that `tail` follows with a
/// line feed.
pub proof fn lemma_unescaped_escaped(s: Seq<char>, tail: Seq<char>)
    requires
        !(s.len() > 0 && s.last() == '\\' && tail.len() > 0 && tail[0] == '\n'),
    ensures
        unescaped(escaped_newlines(s) + tail) == s + unescaped(tail),
    decreases s.len(),
{
    if s.len() == 0 {
        assert(escaped_newlines(s) + tail =~= tail);
        assert(s + unescaped(tail) =~= unescaped(tail));
    } else {
        let rest = s.skip(1);
        let after = escaped_newlines(rest) + tail;
        if rest.len() > 0 {
            assert(rest.last() == s.last());
            lemma_escaped_ends(rest);
        } else {
            assert(escaped_newlines(rest) =~= Seq::empty());
            assert(after =~= tail);
        }
        lemma_unescaped_escaped(rest, tail);
        if s[0] == '\n' {
            let whole = seq!['\\', '\n'] + after;
            assert(escaped_newlines(s) + tail =~= whole);
            assert(whole.skip(2) =~= after);
            assert(unescaped(whole) == seq!['\n'] + unescaped(after));
            assert(seq!['\n'] + (rest + unescaped(tail)) =~= s + unescaped(tail));
        } else {
            let whole = seq![s[0]] + after;
            assert(escaped_newlines(s) + tail =~= whole);
            assert(whole.skip(1) =~= after);
            if s[0] == '\\' && whole.len() >= 2 {
                assert(whole[1] == after[0]);
                if rest.len() > 0 {
                    assert(after[0] == escaped_newlines(rest)[0]);
                    assert(rest[0] == s[1]);
                } else {
                    assert(s.last() == s[0]);
                }
                assert(whole[1] != '\n');
            }
            assert(unescaped(whole) == seq![s[0]] + unescaped(after));
            assert(seq![s[0]] + (rest + unescaped(tail)) =~= s + unescaped(tail));
        }
    }
}

/// What is written of a text on one logical line, with its line feed, reads
/// back as the text with a line feed.
pub proof fn lemma_unescaped_written(s: Seq<char>)
    ensures
        unescaped(escaped(s) + seq!['\n']) == s + seq!['\n'],
{
    let e = escaped_newlines(s);
    let feed = seq!['\n'];
    assert(feed.skip(1) =~= Seq::empty());
    assert(unescaped(feed.skip(1)) =~= Seq::empty());
    assert(unescaped(feed) =~= feed);
    if s.len() > 0 {
        lemma_escaped_ends(s);
    } else {
        assert(e =~= Seq::empty());
    }
    if e.len() > 0 && e.last() == '\\' {
        let tail = seq!['\\', '\n'];
        assert(tail.skip(2) =~= Seq::empty());
        assert(unescaped(tail.skip(2)) =~= Seq::empty());
        assert(unescaped(tail) =~= feed);
        assert(escaped(s) + feed =~= e + tail);
        lemma_unescaped_escaped(s, tail);
    } else {
        lemma_unescaped_escaped(s, feed);
    }
}

/// Text without a backslash has no escapes to take out, whatever follows it.
pub proof fn lemma_unescaped_plain_prefix(plain: Seq<char>, rest: Seq<char>)
    requires
        forall|k: int| 0 <= k < plain.len() ==> plain[k] != '\\',
    ensures
        unescaped(plain + rest) == plain + unescaped(rest),
    decreases plain.len(),
{
    if plain.len() == 0 {
        assert(plain + rest =~= rest);
        assert(plain + unescaped(rest) =~= unescaped(rest));
    } else {
        let whole = plain + rest;
        assert(whole[0] == plain[0]);
        assert(whole.skip(1) =~= plain.skip(1) + rest);
        lemma_unescaped_plain_prefix(plain.skip(1), rest);
        assert(seq![plain[0]] + (plain.skip(1) + unescaped(rest)) =~= plain + unescaped(rest));
    }
}

/// Escaping leaves the characters before the first line feed as they are.
pub proof fn lemma_escaped_plain_prefix(s: Seq<char>, n: nat)
    requires
        n <= s.len(),
        forall|k: int| 0 <= k < n ==> s[k] != '\n',
    ensures
        escaped_newlines(s) == s.take(n as int) + escaped_newlines(s.skip(n as int)),
    decreases n,
{
    if n == 0 {
        assert(s.skip(0) =~= s);
        assert(s.take(0) + escaped_newlines(s) =~= escaped_newlines(s));
    } else {
        let rest = s.skip(1);
        assert forall|k: int| 0 <= k < n - 1 implies rest[k] != '\n' by {
            assert(rest[k] == s[k + 1]);
        }
        lemma_escaped_plain_prefix(rest, (n - 1) as nat);
        assert(rest.skip(n - 1) =~= s.skip(n as int));
        assert(seq![s[0]] + (rest.take(n - 1) + escaped_newlines(s.skip(n as int))) =~= s.take(
            n as int,
        ) + escaped_newlines(s.skip(n as int)));
    }
}

/// Where escaping brings in no backslash, it changes nothing.
pub proof fn lemma_escaped_without_backslash(s: Seq<char>)
    requires
        forall|k: int| 0 <= k < escaped(s).len() ==> escaped(s)[k] != '\\',
    ensures
        escaped(s) == s,
    decreases s.len(),
{
    let e = escaped_newlines(s);
    if s.len() > 0 {
        lemma_escaped_ends(s);
        assert(escaped(s)[e.len() - 1] == e.last());
        assert(escaped(s) == e);
        lemma_escaped_newlines_without_backslash(s);
    } else {
        assert(e =~= s);
    }
}

/// Where putting backslashes before line feeds brings in no backslash, there
/// was no line feed.
pub proof fn lemma_escaped_newlines_without_backslash(s: Seq<char>)
    requires
        forall|k: int| 0 <= k < escaped_newlines(s).len() ==> escaped_newlines(s)[k] != '\\',
    ensures
        escaped_newlines(s) == s,
    decreases s.len(),
{
    if s.len() > 0 {
        let rest = s.skip(1);
        let e = escaped_newlines(s);
        if s[0] == '\n' {
            assert(e[0] == '\\');
        } else {
            assert forall|k: int| 0 <= k < escaped_newlines(rest).len() implies escaped_newlines(
                rest,
            )[k] != '\\' by {
                assert(e[k + 1] == escaped_newlines(rest)[k]);
            }
            lemma_escaped_newlines_without_backslash(rest);
            assert(seq![s[0]] + rest =~= s);
        }
    } else {
        assert(escaped_newlines(s) =~= s);
    }
}

/// A text between white space, trimmed, is the text itself, where it neither
/// starts nor ends with white space.
pub proof fn lemma_trimmed_padded(before: Seq<char>, core: Seq<char>, after: Seq<char>)
    requires
        forall|k: int| 0 <= k < before.len() ==> is_space(#[trigger] before[k]),
        forall|k: int| 0 <= k < after.len() ==> is_space(#[trigger] after[k]),
        core.len() > 0,
        !is_space(core[0]),
        !is_space(core.last()),
    ensures
        trimmed(before + core + after) == core,
        count_leading(before + core + after, |c: char| is_space(c)) == before.len(),
{
    let whole = before + core + after;
    let p = |c: char| is_space(c);
    assert forall|k: int| 0 <= k < before.len() implies p(#[trigger] whole[k]) by {
        assert(whole[k] == before[k]);
    }
    assert(whole[before.len() as int] == core[0]);
    lemma_count_leading(whole, p, before.len());
    let rest = whole.skip(before.len() as int);
    assert(rest =~= core + after);
    assert forall|k: int| rest.len() - after.len() <= k < rest.len() implies p(
        #[trigger] rest[k],
    ) by {
        assert(rest[k] == after[k - core.len()]);
    }
    assert(rest[rest.len() - after.len() - 1] == core.last());
    lemma_count_trailing(rest, p, after.len());
    assert(rest.take(rest.len() - after.len()) =~= core);
}

/// Escaping does not change how many markers a text starts with.
pub proof fn lemma_markers_escaped(s: Seq<char>)
    ensures
        leading_markers(escaped(s)) == leading_markers(s),
{
    let p = |c: char| is_marker(c);
    let m = leading_markers(s);
    lemma_count_leading_bounds(s, p);
    assert forall|k: int| 0 <= k < m implies s[k] != '\n' by {
        assert(p(s[k]));
    }
    lemma_escaped_plain_prefix(s, m);
    let e = escaped_newlines(s);
    let rest = s.skip(m as int);
    assert(e == s.take(m as int) + escaped_newlines(rest));
    assert forall|k: int| 0 <= k < m implies p(#[trigger] escaped(s)[k]) by {
        assert(e[k] == s[k]);
        assert(p(s[k]));
    }
    if m < s.len() {
        lemma_escaped_ends(rest);
        assert(rest[0] == s[m as int]);
        assert(e[m as int] == escaped_newlines(rest)[0]);
        assert(escaped(s)[m as int] == e[m as int]);
        assert(!p(escaped(s)[m as int]));
    } else {
        assert(rest =~= Seq::empty());
        assert(escaped_newlines(rest) =~= Seq::empty());
        assert(e =~= s);
        if s.len() > 0 {
            assert(p(s[s.len() - 1]));
        }
        assert(escaped(s) == s);
    }
    lemma_count_leading(escaped(s), p, m);
}

/// A numeral holds no backslash.
pub proof fn lemma_numeral_has_no_backslash(s: Seq<char>)
    requires
        numeral_value(s) is Some,
    ensures
        forall|k: int| 0 <= k < s.len() ==> s[k] != '\\',
{
    let digits = unsigned_part(s);
    assert forall|k: int| 0 <= k < s.len() implies s[k] != '\\' by {
        if has_sign(s) {
            if k > 0 {
                assert(digits[k - 1] == s[k]);
                assert(is_digit(digits[k - 1]));
            }
        } else {
            assert(is_digit(digits[k]));
        }
    }
}

/// A run of `n` markers.
pub open spec fn markers(n: nat) -> Seq<char> {
    Seq::new(n, |i: int| '#')
}

/// An annotation as it is written on one logical line under `threshold`: the
/// escaped text as it is where, after white space, it starts with more
/// markers than the threshold; else one marker more than the threshold, a
/// blank and the escaped text.
pub open spec fn annotation_body(t: Seq<char>, threshold: nat) -> Seq<char> {
    if leading_markers(trimmed_start(t)) >= threshold + 1 {
        escaped(t)
    } else {
        markers(threshold + 1) + seq![' '] + escaped(t)
    }
}

} // verus!
