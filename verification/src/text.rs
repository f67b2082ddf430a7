//! Small helpers on text: characters of a string, decimal numbers,
//! white space and ASCII case.

use vstd::prelude::*;
use vstd::std_specs::iter::IteratorSpec;

verus! {

broadcast use vstd::string::group_string_axioms;

/// The characters of `s`.
pub fn chars_of(s: &str) -> (r: Vec<char>)
    ensures
        r@ == s@,
{
    let mut out: Vec<char> = Vec::new();
    let mut it = s.chars();
    loop
        invariant
            out@ + it.remaining() == s@,
            it.decrease() is Some,
        decreases it.decrease()->0,
    {
        let ghost before = it.remaining();
        match it.next() {
            Some(c) => {
                proof {
                    assert(out@.push(c) + before.drop_first() =~= out@ + before);
                }
                out.push(c);
            },
            None => {
                proof {
                    assert(out@ + before =~= out@);
                }
                return out;
            },
        }
    }
}

/// `String::from_iter` on the characters of a slice.
///
/// Claimed of it: the string holds exactly these characters, in order.
#[verifier::external_body]
pub(crate) fn string_from_chars(chars: &[char]) -> (s: String)
    ensures
        s@ == chars@,
{
    String::from_iter(chars.iter())
}

/// The string of the characters of `chars` from `from` up to `to`.
pub fn string_of(chars: &Vec<char>, from: usize, to: usize) -> (s: String)
    requires
        from <= to <= chars@.len(),
    ensures
        s@ == chars@.subrange(from as int, to as int),
{
    string_from_chars(vstd::slice::slice_subrange(chars.as_slice(), from, to))
}

/// The decimal digit `d` as a character.
pub open spec fn digit_char(d: int) -> char {
    ('0' as int + d) as char
}

/// `c` is one of `0` to `9`.
pub open spec fn is_digit(c: char) -> bool {
    '0' <= c <= '9'
}

/// `v` in decimal, without leading zeros.
pub open spec fn decimal(v: nat) -> Seq<char>
    decreases v,
{
    if v < 10 {
        seq![digit_char(v as int)]
    } else {
        decimal(v / 10).push(digit_char((v % 10) as int))
    }
}

/// The number that the decimal digits `s` spell; 0 for no digits.
pub open spec fn digits_value(s: Seq<char>) -> nat
    decreases s.len(),
{
    if s.len() == 0 {
        0
    } else {
        digits_value(s.drop_last()) * 10 + (s.last() as int - '0' as int) as nat
    }
}

/// All characters of `s` are decimal digits.
pub open spec fn all_digits(s: Seq<char>) -> bool {
    forall|i: int| 0 <= i < s.len() ==> is_digit(#[trigger] s[i])
}

/// The number that `s` spells for a reader who accepts one optional `+`
/// followed by at least one decimal digit and nothing else, as long as the
/// number fits 64 bits.
pub open spec fn parse_u64_spec(s: Seq<char>) -> Option<u64> {
    let digits = if s.len() > 0 && s[0] == '+' {
        s.drop_first()
    } else {
        s
    };
    digits_result(digits)
}

/// What a run of characters spells as a number: its value when it is a
/// non-empty run of digits that fits 64 bits.
pub open spec fn digits_result(digits: Seq<char>) -> Option<u64> {
    if digits.len() > 0 && all_digits(digits) && digits_value(digits) <= u64::MAX {
        Some(digits_value(digits) as u64)
    } else {
        None
    }
}

/// White space as Unicode defines it (the property `White_Space`).
pub open spec fn is_white_space(c: char) -> bool {
    let u = c as u32;
    ||| 0x09 <= u <= 0x0d
    ||| u == 0x20
    ||| u == 0x85
    ||| u == 0xa0
    ||| u == 0x1680
    ||| 0x2000 <= u <= 0x200a
    ||| u == 0x2028
    ||| u == 0x2029
    ||| u == 0x202f
    ||| u == 0x205f
    ||| u == 0x3000
}

/// How many characters at the front of `s` are white space.
pub open spec fn leading_space(s: Seq<char>) -> int
    decreases s.len(),
{
    if s.len() > 0 && is_white_space(s[0]) {
        1 + leading_space(s.drop_first())
    } else {
        0
    }
}

/// How many characters at the end of `s` are white space.
pub open spec fn trailing_space(s: Seq<char>) -> int
    decreases s.len(),
{
    if s.len() > 0 && is_white_space(s.last()) {
        1 + trailing_space(s.drop_last())
    } else {
        0
    }
}

/// `s` without the white space at its front and at its end.
pub open spec fn trimmed(s: Seq<char>) -> Seq<char> {
    if leading_space(s) >= s.len() {
        Seq::empty()
    } else {
        s.subrange(leading_space(s), s.len() - trailing_space(s))
    }
}

/// The lower-case form of an ASCII letter; any other character as it is.
pub open spec fn ascii_lower(c: char) -> char {
    if 'A' <= c <= 'Z' {
        ((c as int) + 32) as char
    } else {
        c
    }
}

/// `a` and `b` are the same text when ASCII letters are compared without
/// regard to case.
pub open spec fn same_ignoring_ascii_case(a: Seq<char>, b: Seq<char>) -> bool {
    a.len() == b.len() && forall|i: int|
        0 <= i < a.len() ==> ascii_lower(#[trigger] a[i]) == ascii_lower(b[i])
}

/// Whether `c` is white space.
pub fn white_space(c: char) -> (r: bool)
    ensures
        r == is_white_space(c),
{
    let u = c as u32;
    (0x09 <= u && u <= 0x0d) || u == 0x20 || u == 0x85 || u == 0xa0 || u == 0x1680 || (0x2000 <= u
        && u <= 0x200a) || u == 0x2028 || u == 0x2029 || u == 0x202f || u == 0x205f || u == 0x3000
}

/// Where the text of `chars` begins and ends once the white space around it
/// is left out: the trimmed text is `chars[from..to]`.
pub fn trim_bounds(chars: &Vec<char>) -> (r: (usize, usize))
    ensures
        r.0 <= r.1 <= chars@.len(),
        chars@.subrange(r.0 as int, r.1 as int) == trimmed(chars@),
{
    let n = chars.len();
    let mut from: usize = 0;
    proof {
        assert(chars@.skip(0) =~= chars@);
    }
    while from < n && white_space(chars[from])
        invariant
            from <= n,
            n == chars@.len(),
            leading_space(chars@) == from + leading_space(chars@.skip(from as int)),
        decreases n - from,
    {
        proof {
            assert(chars@.skip(from as int).drop_first() =~= chars@.skip(from + 1));
        }
        from = from + 1;
    }
    if from == n {
        proof {
            lemma_leading_space_bound(chars@.skip(from as int));
            assert(chars@.subrange(n as int, n as int) =~= Seq::<char>::empty());
        }
        return (n, n);
    }
    let mut to: usize = n;
    proof {
        assert(chars@.take(n as int) =~= chars@);
    }
    while to > from && white_space(chars[to - 1])
        invariant
            from < to <= n,
            n == chars@.len(),
            !is_white_space(chars@[from as int]),
            trailing_space(chars@) == (n - to) + trailing_space(chars@.take(to as int)),
        decreases to,
    {
        proof {
            assert(chars@.take(to as int).drop_last() =~= chars@.take(to - 1));
        }
        to = to - 1;
    }
    proof {
        assert(!is_white_space(chars@.skip(from as int)[0]));
        assert(leading_space(chars@) == from);
        assert(!is_white_space(chars@.take(to as int).last()));
        assert(trailing_space(chars@) == n - to);
    }
    (from, to)
}

/// Whether `c` is a decimal digit.
pub fn digit(c: char) -> (r: bool)
    ensures
        r == is_digit(c),
{
    '0' <= c && c <= '9'
}

/// Reads an unsigned decimal number: an optional `+`, then digits only.
pub fn parse_u64(chars: &Vec<char>, from: usize, to: usize) -> (r: Option<u64>)
    requires
        from <= to <= chars@.len(),
    ensures
        r == parse_u64_spec(chars@.subrange(from as int, to as int)),
{
    let ghost s = chars@.subrange(from as int, to as int);
    let mut i = from;
    if i < to && chars[i] == '+' {
        i = i + 1;
    }
    let first = i;
    let ghost digits = chars@.subrange(first as int, to as int);
    proof {
        if first > from {
            assert(s.drop_first() =~= digits);
        } else {
            assert(s =~= digits);
        }
    }
    if first == to {
        return None;
    }
    let mut value: u64 = 0;
    while i < to
        invariant
            first <= i <= to <= chars@.len(),
            from <= first,
            digits == chars@.subrange(first as int, to as int),
            digits.len() > 0,
            parse_u64_spec(chars@.subrange(from as int, to as int)) == digits_result(digits),
            all_digits(digits.take(i - first)),
            value == digits_value(digits.take(i - first)),
        decreases to - i,
    {
        let c = chars[i];
        proof {
            assert(digits.take(i - first + 1).drop_last() =~= digits.take(i - first));
            assert(digits.take(i - first + 1).last() == c);
        }
        if !digit(c) {
            proof {
                assert(digits[i - first] == c);
            }
            return None;
        }
        let d = (c as u32 - '0' as u32) as u64;
        if value > (u64::MAX - d) / 10 {
            proof {
                if all_digits(digits) {
                    lemma_digits_value_grows(digits, i - first + 1);
                }
            }
            return None;
        }
        value = value * 10 + d;
        i = i + 1;
    }
    proof {
        assert(digits.take(to - first) =~= digits);
    }
    Some(value)
}

/// `v` in decimal.
pub fn decimal_chars(v: u64) -> (r: Vec<char>)
    ensures
        r@ == decimal(v as nat),
{
    let mut rev: Vec<char> = Vec::new();
    let mut rest = v;
    while rest >= 10
        invariant
            decimal(v as nat) == decimal(rest as nat) + rev@.reverse(),
        decreases rest,
    {
        let c = digit_of((rest % 10) as u8);
        proof {
            assert(decimal((rest / 10) as nat).push(c) + rev@.reverse() =~= decimal(
                (rest / 10) as nat,
            ) + rev@.push(c).reverse());
        }
        rev.push(c);
        rest = rest / 10;
    }
    let mut out: Vec<char> = Vec::new();
    out.push(digit_of(rest as u8));
    let mut i = rev.len();
    while i > 0
        invariant
            i <= rev@.len(),
            out@ == decimal(rest as nat) + rev@.reverse().take(rev@.len() - i),
        decreases i,
    {
        i = i - 1;
        proof {
            let r = rev@.reverse();
            assert(r.take(rev@.len() - i) =~= r.take(rev@.len() - i - 1).push(rev@[i as int]));
        }
        out.push(rev[i]);
    }
    proof {
        assert(rev@.reverse().take(rev@.len() as int) =~= rev@.reverse());
    }
    out
}

/// The character of the decimal digit `d`.
pub fn digit_of(d: u8) -> (c: char)
    requires
        d < 10,
    ensures
        c == digit_char(d as int),
{
    (48u8 + d) as char
}

/// Appends the characters of `more` to `out`.
pub fn append_str(out: &mut Vec<char>, more: &str)
    ensures
        final(out)@ == old(out)@ + more@,
{
    let mut chars = chars_of(more);
    out.append(&mut chars);
}

/// Appends `v` in decimal to `out`.
pub fn append_decimal(out: &mut Vec<char>, v: u64)
    ensures
        final(out)@ == old(out)@ + decimal(v as nat),
{
    let mut chars = decimal_chars(v);
    out.append(&mut chars);
}

/// The lower-case form of an ASCII letter; any other character as it is.
pub fn to_ascii_lower(c: char) -> (r: char)
    ensures
        r == ascii_lower(c),
{
    if 'A' <= c && c <= 'Z' {
        ((c as u8) + 32) as char
    } else {
        c
    }
}

/// Whether `chars[from..to]` is `word` when ASCII letters are compared
/// without regard to case.
pub fn eq_ignore_ascii_case(chars: &Vec<char>, from: usize, to: usize, word: &str) -> (r: bool)
    requires
        from <= to <= chars@.len(),
    ensures
        r == same_ignoring_ascii_case(chars@.subrange(from as int, to as int), word@),
{
    let other = chars_of(word);
    if other.len() != to - from {
        return false;
    }
    let ghost a = chars@.subrange(from as int, to as int);
    let mut i: usize = 0;
    while i < other.len()
        invariant
            i <= other@.len(),
            other@.len() == to - from,
            from <= to <= chars@.len(),
            a == chars@.subrange(from as int, to as int),
            other@ == word@,
            forall|j: int| 0 <= j < i ==> ascii_lower(#[trigger] a[j]) == ascii_lower(other@[j]),
        decreases other@.len() - i,
    {
        if to_ascii_lower(chars[from + i]) != to_ascii_lower(other[i]) {
            proof {
                assert(a[i as int] == chars@[from + i]);
            }
            return false;
        }
        i = i + 1;
    }
    true
}

/// Whether `chars[from..to]` is exactly `word`.
pub fn eq_str(chars: &Vec<char>, from: usize, to: usize, word: &str) -> (r: bool)
    requires
        from <= to <= chars@.len(),
    ensures
        r == (chars@.subrange(from as int, to as int) == word@),
{
    let other = chars_of(word);
    if other.len() != to - from {
        return false;
    }
    let ghost a = chars@.subrange(from as int, to as int);
    let mut i: usize = 0;
    while i < other.len()
        invariant
            i <= other@.len(),
            other@.len() == to - from,
            from <= to <= chars@.len(),
            a == chars@.subrange(from as int, to as int),
            other@ == word@,
            forall|j: int| 0 <= j < i ==> #[trigger] a[j] == other@[j],
        decreases other@.len() - i,
    {
        if chars[from + i] != other[i] {
            proof {
                assert(a[i as int] == chars@[from + i]);
            }
            return false;
        }
        i = i + 1;
    }
    proof {
        assert(a =~= other@);
    }
    true
}

/// How many characters of `s` come before the first `c`; the length of `s`
/// when it holds no `c`.
pub open spec fn index_of(s: Seq<char>, c: char) -> int
    decreases s.len(),
{
    if s.len() == 0 || s[0] == c {
        0
    } else {
        1 + index_of(s.drop_first(), c)
    }
}

/// The position of the first `c` in `chars[from..to]`, or `to` when there
/// is none.
pub fn find_char(chars: &Vec<char>, from: usize, to: usize, c: char) -> (at: usize)
    requires
        from <= to <= chars@.len(),
    ensures
        from <= at <= to,
        at - from == index_of(chars@.subrange(from as int, to as int), c),
{
    let mut at = from;
    let ghost s = chars@.subrange(from as int, to as int);
    proof {
        assert(s.skip(0) =~= s);
    }
    while at < to && chars[at] != c
        invariant
            from <= at <= to <= chars@.len(),
            s == chars@.subrange(from as int, to as int),
            index_of(s, c) == (at - from) + index_of(s.skip(at - from), c),
        decreases to - at,
    {
        proof {
            assert(s.skip(at - from).drop_first() =~= s.skip(at - from + 1));
            assert(s.skip(at - from)[0] == chars@[at as int]);
        }
        at = at + 1;
    }
    proof {
        if at < to {
            assert(s.skip(at - from)[0] == chars@[at as int]);
        }
    }
    at
}

/// The text of an optional string.
pub open spec fn opt_text(s: Option<String>) -> Option<Seq<char>> {
    match s {
        Some(t) => Some(t@),
        None => None,
    }
}

/// The text of `s` behind its last `c`; all of `s` when it holds no `c`.
pub open spec fn after_last(s: Seq<char>, c: char) -> Seq<char>
    decreases s.len(),
{
    if s.len() == 0 || s.last() == c {
        Seq::empty()
    } else {
        after_last(s.drop_last(), c).push(s.last())
    }
}

/// The text of `s` before its first `c`; all of `s` when it holds no `c`.
pub open spec fn before_first(s: Seq<char>, c: char) -> Seq<char> {
    s.subrange(0, index_of(s, c))
}

/// Where the text behind the last `c` of `chars` begins: the whole of
/// `chars` when it holds no `c`.
pub fn after_last_from(chars: &Vec<char>, c: char) -> (from: usize)
    ensures
        from <= chars@.len(),
        chars@.subrange(from as int, chars@.len() as int) == after_last(chars@, c),
{
    let n = chars.len();
    let mut from = n;
    proof {
        assert(chars@.take(n as int) =~= chars@);
        assert(chars@.subrange(n as int, n as int) =~= Seq::<char>::empty());
    }
    while from > 0 && chars[from - 1] != c
        invariant
            from <= n,
            n == chars@.len(),
            after_last(chars@, c) == after_last(chars@.take(from as int), c) + chars@.subrange(
                from as int,
                n as int,
            ),
        decreases from,
    {
        proof {
            let t = chars@.take(from as int);
            assert(t.drop_last() =~= chars@.take(from - 1));
            assert(after_last(t.drop_last(), c).push(t.last()) + chars@.subrange(
                from as int,
                n as int,
            ) =~= after_last(t.drop_last(), c) + chars@.subrange(from - 1, n as int));
        }
        from = from - 1;
    }
    proof {
        assert(Seq::<char>::empty() + chars@.subrange(from as int, n as int) =~= chars@.subrange(
            from as int,
            n as int,
        ));
    }
    from
}

/// Whether `text` is exactly `word`.
pub fn str_is(text: &str, word: &str) -> (r: bool)
    ensures
        r == (text@ == word@),
{
    let chars = chars_of(text);
    proof {
        assert(chars@.subrange(0, chars@.len() as int) =~= chars@);
    }
    eq_str(&chars, 0, chars.len(), word)
}

/// Whether `chars[from..]` begins with `word`.
pub fn starts_with(chars: &Vec<char>, from: usize, word: &str) -> (r: bool)
    requires
        from <= chars@.len(),
    ensures
        r == (word@.len() <= chars@.len() - from && chars@.subrange(
            from as int,
            from + word@.len(),
        ) == word@),
{
    let n = word.unicode_len();
    if n > chars.len() - from {
        return false;
    }
    eq_str(chars, from, from + n, word)
}

/// Leading white space is no longer than the text.
pub proof fn lemma_leading_space_bound(s: Seq<char>)
    ensures
        0 <= leading_space(s) <= s.len(),
    decreases s.len(),
{
    if s.len() > 0 && is_white_space(s[0]) {
        lemma_leading_space_bound(s.drop_first());
    }
}

/// More digits spell no smaller a number.
pub proof fn lemma_digits_value_grows(s: Seq<char>, n: int)
    requires
        0 <= n <= s.len(),
        all_digits(s),
    ensures
        digits_value(s.take(n)) <= digits_value(s),
    decreases s.len() - n,
{
    if n < s.len() {
        lemma_digits_value_grows(s, n + 1);
        assert(s.take(n + 1).drop_last() =~= s.take(n));
        assert(is_digit(s[n]));
        assert(s.take(n + 1).last() == s[n]);
    } else {
        assert(s.take(n) =~= s);
    }
}

} // verus!
