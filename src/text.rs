//! Character-level building blocks: two-digit rendering, whitespace,
//! decimal `u8` tokens, scanning and line splitting.
use vstd::prelude::*;
use vstd::string::*;

verus! {

/// Relies on `String::push`: the character is appended at the end.
#[verifier::external_body]
pub(crate) fn push_char(s: &mut String, c: char)
    ensures
        final(s)@ == old(s)@.push(c),
{
    s.push(c)
}

/// The ASCII digit for a value below ten.
pub open spec fn digit_char(d: int) -> char {
    if d == 0 {
        '0'
    } else if d == 1 {
        '1'
    } else if d == 2 {
        '2'
    } else if d == 3 {
        '3'
    } else if d == 4 {
        '4'
    } else if d == 5 {
        '5'
    } else if d == 6 {
        '6'
    } else if d == 7 {
        '7'
    } else if d == 8 {
        '8'
    } else {
        '9'
    }
}

/// A number written in decimal, zero-padded to at least two digits.
pub open spec fn two_digits(n: u8) -> Seq<char> {
    if n < 10 {
        seq!['0', digit_char(n as int)]
    } else if n < 100 {
        seq![digit_char(n as int / 10), digit_char(n as int % 10)]
    } else {
        seq![digit_char(n as int / 100), digit_char((n as int / 10) % 10), digit_char(n as int % 10)]
    }
}

fn digit_of(d: u8) -> (c: char)
    requires
        d < 10,
    ensures
        c == digit_char(d as int),
{
    match d {
        0 => '0',
        1 => '1',
        2 => '2',
        3 => '3',
        4 => '4',
        5 => '5',
        6 => '6',
        7 => '7',
        8 => '8',
        _ => '9',
    }
}

/// Appends `n` zero-padded to two digits.
pub(crate) fn push_two_digits(s: &mut String, n: u8)
    ensures
        final(s)@ == old(s)@ + two_digits(n),
{
    let ghost start = s@;
    if n < 10 {
        push_char(s, '0');
        push_char(s, digit_of(n));
    } else if n < 100 {
        push_char(s, digit_of(n / 10));
        push_char(s, digit_of(n % 10));
    } else {
        push_char(s, digit_of(n / 100));
        push_char(s, digit_of((n / 10) % 10));
        push_char(s, digit_of(n % 10));
    }
    assert(s@ =~= start + two_digits(n));
}

/// Renders `n` zero-padded to two digits.
pub fn two_digit_string(n: u8) -> (r: String)
    ensures
        r@ == two_digits(n),
{
    let mut s = String::new();
    push_two_digits(&mut s, n);
    proof {
        assert(s@ =~= two_digits(n));
    }
    s
}

/// Appends all of `t` to `s`.
pub(crate) fn push_all(s: &mut String, t: &str)
    ensures
        final(s)@ == old(s)@ + t@,
{
    s.append(t);
}

/// The characters that Unicode gives the White_Space property.
pub open spec fn is_white(c: char) -> bool {
    ('\u{9}' <= c && c <= '\u{d}') || c == ' ' || c == '\u{85}' || c == '\u{a0}' || c
        == '\u{1680}' || ('\u{2000}' <= c && c <= '\u{200a}') || c == '\u{2028}' || c
        == '\u{2029}' || c == '\u{202f}' || c == '\u{205f}' || c == '\u{3000}'
}

/// Whether `c` is a whitespace character.
pub fn is_whitespace(c: char) -> (r: bool)
    ensures
        r == is_white(c),
{
    ('\u{9}' <= c && c <= '\u{d}') || c == ' ' || c == '\u{85}' || c == '\u{a0}' || c
        == '\u{1680}' || ('\u{2000}' <= c && c <= '\u{200a}') || c == '\u{2028}' || c
        == '\u{2029}' || c == '\u{202f}' || c == '\u{205f}' || c == '\u{3000}'
}

/// How many characters at the start of `s` satisfy `p`.
pub open spec fn prefix_len(s: Seq<char>, p: spec_fn(char) -> bool) -> nat
    decreases s.len(),
{
    if s.len() == 0 || !p(s[0]) {
        0
    } else {
        1 + prefix_len(s.drop_first(), p)
    }
}

/// How many characters at the end of `s` satisfy `p`.
pub open spec fn suffix_len(s: Seq<char>, p: spec_fn(char) -> bool) -> nat
    decreases s.len(),
{
    if s.len() == 0 || !p(s.last()) {
        0
    } else {
        1 + suffix_len(s.drop_last(), p)
    }
}

pub open spec fn white() -> spec_fn(char) -> bool {
    |c: char| is_white(c)
}

pub open spec fn other_than(x: char) -> spec_fn(char) -> bool {
    |c: char| c != x
}

/// `s` without its leading and trailing whitespace.
pub open spec fn trimmed(s: Seq<char>) -> Seq<char> {
    let t = s.subrange(prefix_len(s, white()) as int, s.len() as int);
    t.subrange(0, t.len() - suffix_len(t, white()))
}

pub proof fn lemma_prefix_len_bound(s: Seq<char>, p: spec_fn(char) -> bool)
    ensures
        prefix_len(s, p) <= s.len(),
    decreases s.len(),
{
    if s.len() > 0 && p(s[0]) {
        lemma_prefix_len_bound(s.drop_first(), p);
    }
}

pub proof fn lemma_suffix_len_bound(s: Seq<char>, p: spec_fn(char) -> bool)
    ensures
        suffix_len(s, p) <= s.len(),
    decreases s.len(),
{
    if s.len() > 0 && p(s.last()) {
        lemma_suffix_len_bound(s.drop_last(), p);
    }
}

/// The number of whitespace characters at the start of `s`.
pub fn leading_whitespace(s: &str) -> (n: usize)
    ensures
        n == prefix_len(s@, white()),
{
    let len = s.unicode_len();
    let mut i: usize = 0;
    assert(s@.subrange(0, len as int) =~= s@);
    while i < len && is_whitespace(s.get_char(i))
        invariant
            len == s@.len(),
            i <= len,
            prefix_len(s@, white()) == i + prefix_len(s@.subrange(i as int, len as int), white()),
        decreases len - i,
    {
        assert(s@.subrange(i as int, len as int).drop_first() =~= s@.subrange(
            i + 1,
            len as int,
        ));
        i = i + 1;
    }
    i
}

/// The number of whitespace characters at the end of `s`.
fn trailing_whitespace(s: &str) -> (n: usize)
    ensures
        n == suffix_len(s@, white()),
{
    let len = s.unicode_len();
    let mut j: usize = len;
    assert(s@.subrange(0, len as int) =~= s@);
    while j > 0 && is_whitespace(s.get_char(j - 1))
        invariant
            len == s@.len(),
            j <= len,
            suffix_len(s@, white()) == (len - j) + suffix_len(s@.subrange(0, j as int), white()),
        decreases j,
    {
        assert(s@.subrange(0, j as int).drop_last() =~= s@.subrange(0, j - 1));
        j = j - 1;
    }
    len - j
}

/// `s` with leading and trailing whitespace removed.
pub fn trim(s: &str) -> (r: &str)
    ensures
        r@ == trimmed(s@),
{
    let start = leading_whitespace(s);
    proof {
        lemma_prefix_len_bound(s@, white());
    }
    let rest = s.substring_char(start, s.unicode_len());
    let tail = trailing_whitespace(rest);
    proof {
        lemma_suffix_len_bound(rest@, white());
    }
    rest.substring_char(0, rest.unicode_len() - tail)
}

/// The position of the first `c` in `s`, or the length of `s` where there is none.
pub fn find_char(s: &str, c: char) -> (n: usize)
    ensures
        n == prefix_len(s@, other_than(c)),
        n <= s@.len(),
{
    let len = s.unicode_len();
    let mut i: usize = 0;
    assert(s@.subrange(0, len as int) =~= s@);
    while i < len && s.get_char(i) != c
        invariant
            len == s@.len(),
            i <= len,
            prefix_len(s@, other_than(c)) == i + prefix_len(
                s@.subrange(i as int, len as int),
                other_than(c),
            ),
        decreases len - i,
    {
        assert(s@.subrange(i as int, len as int).drop_first() =~= s@.subrange(
            i + 1,
            len as int,
        ));
        i = i + 1;
    }
    i
}

/// `s` cut at its first `c`: what stands before it and what follows it.
/// Where `s` holds no `c`, all of `s` and nothing.
pub open spec fn split_at_first(s: Seq<char>, c: char) -> (Seq<char>, Seq<char>) {
    let p = prefix_len(s, other_than(c));
    if p < s.len() {
        (s.take(p as int), s.skip(p as int + 1))
    } else {
        (s, Seq::empty())
    }
}

/// Cuts `s` at its first `c`.
pub fn split_once(s: &str, c: char) -> (r: (&str, &str))
    ensures
        (r.0@, r.1@) == split_at_first(s@, c),
{
    let p = find_char(s, c);
    let len = s.unicode_len();
    if p < len {
        let head = s.substring_char(0, p);
        let tail = s.substring_char(p + 1, len);
        proof {
            assert(head@ =~= s@.take(p as int));
            assert(tail@ =~= s@.skip(p + 1));
        }
        (head, tail)
    } else {
        let head = s.substring_char(0, len);
        let tail = s.substring_char(len, len);
        proof {
            assert(head@ =~= s@);
            assert(tail@ =~= Seq::<char>::empty());
        }
        (head, tail)
    }
}

pub open spec fn is_digit(c: char) -> bool {
    '0' <= c && c <= '9'
}

pub open spec fn digit_value(c: char) -> int {
    c as int - '0' as int
}

/// The number that a string of decimal digits denotes.
pub open spec fn decimal_value(s: Seq<char>) -> int
    decreases s.len(),
{
    if s.len() == 0 {
        0
    } else {
        decimal_value(s.drop_last()) * 10 + digit_value(s.last())
    }
}

pub open spec fn all_digits(s: Seq<char>) -> bool {
    forall|i: int| 0 <= i < s.len() ==> is_digit(#[trigger] s[i])
}

/// The value of a `u8` written in decimal: an optional `+`, then at least
/// one digit; `None` where the text is no such number or exceeds 255.
pub open spec fn u8_of(s: Seq<char>) -> Option<u8> {
    let d = if s.len() > 0 && s[0] == '+' {
        s.drop_first()
    } else {
        s
    };
    if d.len() > 0 && all_digits(d) && decimal_value(d) <= 255 {
        Some(decimal_value(d) as u8)
    } else {
        None
    }
}

proof fn lemma_decimal_prefix(s: Seq<char>, k: int)
    requires
        0 <= k <= s.len(),
        all_digits(s),
    ensures
        decimal_value(s.take(k)) <= decimal_value(s),
        0 <= decimal_value(s.take(k)),
    decreases s.len(),
{
    if s.len() > 0 {
        assert(all_digits(s.drop_last()));
        if k == s.len() {
            assert(s.take(k) =~= s);
            assert(s.drop_last().take(k - 1) =~= s.drop_last());
            lemma_decimal_prefix(s.drop_last(), k - 1);
        } else {
            assert(s.drop_last().take(k) =~= s.take(k));
            lemma_decimal_prefix(s.drop_last(), k);
            assert(s.drop_last().take(s.len() - 1) =~= s.drop_last());
            lemma_decimal_prefix(s.drop_last(), s.len() - 1);
        }
    } else {
        assert(s.take(k) =~= s);
    }
}

/// Reads a `u8` written in decimal.
pub fn parse_u8(s: &str) -> (r: Option<u8>)
    ensures
        r == u8_of(s@),
{
    let len = s.unicode_len();
    let start: usize = if len > 0 && s.get_char(0) == '+' {
        1
    } else {
        0
    };
    let ghost d = s@.skip(start as int);
    proof {
        if start == 1 {
            assert(d =~= s@.drop_first());
        } else {
            assert(d =~= s@);
        }
        assert(u8_of(s@) == (if d.len() > 0 && all_digits(d) && decimal_value(d) <= 255 {
            Some(decimal_value(d) as u8)
        } else {
            None
        }));
    }
    if start == len {
        return None;
    }
    let mut i: usize = start;
    let mut acc: u16 = 0;
    while i < len
        invariant
            len == s@.len(),
            start <= i <= len,
            d == s@.skip(start as int),
            all_digits(d.take(i - start)),
            acc as int == decimal_value(d.take(i - start)),
            acc <= 255,
            d.len() > 0,
            u8_of(s@) == (if all_digits(d) && decimal_value(d) <= 255 {
                Some(decimal_value(d) as u8)
            } else {
                None
            }),
        decreases len - i,
    {
        let c = s.get_char(i);
        if c < '0' || c > '9' {
            assert(d[i - start] == s@[i as int]);
            assert(!is_digit(d[i - start]));
            return None;
        }
        let v: u16 = (c as u32 - '0' as u32) as u16;
        let ghost before = d.take(i - start);
        assert(d.take(i - start + 1).drop_last() =~= before);
        acc = acc * 10 + v;
        i = i + 1;
        assert(all_digits(d.take(i - start)));
        if acc > 255 {
            proof {
                if all_digits(d) {
                    lemma_decimal_prefix(d, i - start);
                }
            }
            return None;
        }
    }
    assert(d.take(i - start) =~= d);
    Some(acc as u8)
}

/// The lines of `s`: split at each `\n`, with a `\r` that stands before the
/// `\n` removed; a final `\n` ends the last line and opens no new one.
pub open spec fn lines_of(s: Seq<char>) -> Seq<Seq<char>>
    decreases s.len(),
{
    if s.len() == 0 {
        Seq::empty()
    } else {
        let p = prefix_len(s, other_than('\n'));
        if p >= s.len() {
            seq![s]
        } else {
            seq![without_cr(s.take(p as int))] + lines_of(s.skip(p as int + 1))
        }
    }
}

/// `s` without one final `\r`.
pub open spec fn without_cr(s: Seq<char>) -> Seq<char> {
    if s.len() > 0 && s.last() == '\r' {
        s.drop_last()
    } else {
        s
    }
}

pub open spec fn views_of(v: Seq<&str>) -> Seq<Seq<char>> {
    v.map_values(|l: &str| l@)
}

/// Splits `s` into its lines.
pub fn split_lines(s: &str) -> (r: Vec<&str>)
    ensures
        views_of(r@) == lines_of(s@),
{
    let len = s.unicode_len();
    let mut out: Vec<&str> = Vec::new();
    let mut start: usize = 0;
    assert(s@.skip(0) =~= s@);
    while start < len
        invariant
            len == s@.len(),
            start <= len,
            views_of(out@) + lines_of(s@.skip(start as int)) == lines_of(s@),
        decreases len - start,
    {
        let rest = s.substring_char(start, len);
        assert(rest@ =~= s@.skip(start as int));
        let p = find_char(rest, '\n');
        if p >= rest.unicode_len() {
            proof {
                assert(views_of(out@.push(rest)) =~= views_of(out@) + seq![rest@]);
            }
            out.push(rest);
            start = len;
            assert(s@.skip(start as int) =~= Seq::<char>::empty());
        } else {
            let mut line = rest.substring_char(0, p);
            if p > 0 && rest.get_char(p - 1) == '\r' {
                line = rest.substring_char(0, p - 1);
                assert(line@ =~= without_cr(rest@.take(p as int)));
            } else {
                assert(line@ =~= without_cr(rest@.take(p as int)));
            }
            proof {
                assert(views_of(out@.push(line)) =~= views_of(out@) + seq![line@]);
                assert(rest@.skip(p + 1) =~= s@.skip(start + p + 1));
            }
            out.push(line);
            start = start + p + 1;
        }
    }
    assert(s@.skip(start as int) =~= Seq::<char>::empty());
    assert(views_of(out@) + Seq::<Seq<char>>::empty() =~= views_of(out@));
    out
}

} // verus!
