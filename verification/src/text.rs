//! The vocabulary every line of text shares: the two lengths of an event line, numbers as
//! decimal digits, and runs padded to a column width, left or right aligned.

use vstd::prelude::*;
use crate::font::{fit, spec_fit};
use vstd::utf8::{encode_scalar, encode_utf8};

verus! {

/// Cells a long line may take: the band's message line.
pub const LONG_CELLS: usize = 100;
/// Cells a short line may take: a roll-log row under the viewport.
pub const SHORT_CELLS: usize = 39;

/// Append one character to a string: `String::push`.
#[verifier::external_body]
pub(crate) fn push_char(s: &mut String, c: char)
    ensures
        final(s)@ == old(s)@.push(c),
{
    s.push(c);
}

/// How many bytes a character takes in UTF-8.
pub fn char_len(c: char) -> (r: usize)
    ensures
        r == encode_scalar(c as u32).len(),
        1 <= r <= 4,
{
    proof {
        vstd::utf8::char_is_scalar(c);
    }
    let v = c as u32;
    if v < 0x80 {
        1
    } else if v < 0x800 {
        2
    } else if v < 0x10000 {
        3
    } else {
        4
    }
}

/// The encoding of a text with one more character is the text's, then the character's.
pub proof fn lemma_utf8_push(text: Seq<char>, c: char)
    ensures
        encode_utf8(text.push(c)) == encode_utf8(text) + encode_scalar(c as u32),
    decreases text.len(),
{
    if text.len() == 0 {
        assert(text.push(c).drop_first() =~= Seq::<char>::empty());
        assert(text.push(c)[0] == c);
        assert(encode_utf8(Seq::<char>::empty()) =~= Seq::<u8>::empty());
        assert(encode_utf8(text.push(c)) == encode_scalar(c as u32) + encode_utf8(Seq::<char>::empty()));
        assert(encode_utf8(text.push(c)) =~= encode_scalar(c as u32) + Seq::<u8>::empty());
        assert(encode_utf8(text) + encode_scalar(c as u32) =~= encode_scalar(c as u32));
    } else {
        lemma_utf8_push(text.drop_first(), c);
        assert(text.push(c).drop_first() =~= text.drop_first().push(c));
        assert(text.push(c)[0] == text[0]);
        assert(encode_utf8(text.push(c)) =~= encode_scalar(text[0] as u32) + (encode_utf8(
            text.drop_first(),
        ) + encode_scalar(c as u32)));
    }
}

/// The encoding of a longer prefix is no shorter.
pub proof fn lemma_utf8_prefix_len(text: Seq<char>, j: int, k: int)
    requires
        0 <= j <= k <= text.len(),
    ensures
        encode_utf8(text.take(j)).len() <= encode_utf8(text.take(k)).len(),
    decreases k - j,
{
    if j < k {
        lemma_utf8_prefix_len(text, j, k - 1);
        assert(text.take(k) =~= text.take(k - 1).push(text[k - 1]));
        lemma_utf8_push(text.take(k - 1), text[k - 1]);
    }
}

/// Remove the last character of a string: `String::pop`. An empty string is left as it is
/// and gives nothing.
#[verifier::external_body]
pub(crate) fn pop_char(s: &mut String) -> (r: Option<char>)
    ensures
        old(s)@.len() == 0 ==> r is None && final(s)@ == old(s)@,
        old(s)@.len() > 0 ==> r == Some(old(s)@.last()) && final(s)@ == old(s)@.drop_last(),
{
    s.pop()
}

/// Append a string slice.
pub fn push_str(s: &mut String, t: &str)
    ensures
        final(s)@ == old(s)@ + t@,
{
    s.append(t);
}

/// The character of a decimal digit.
pub open spec fn digit_char(d: int) -> char {
    if d == 0 {
        '0'
    } else if d == 1 {
        '1'
    } else if d == 2 {
        '2'
    } else if d == 3 {
        '3'
    } else if d == 4 {
        '4'
    } else if d == 5 {
        '5'
    } else if d == 6 {
        '6'
    } else if d == 7 {
        '7'
    } else if d == 8 {
        '8'
    } else {
        '9'
    }
}

/// The decimal digits of a natural number, most significant first, without leading zeros
/// (zero is `0`).
pub open spec fn spec_digits(n: nat) -> Seq<char>
    decreases n,
{
    if n < 10 {
        seq![digit_char(n as int)]
    } else {
        spec_digits(n / 10).push(digit_char((n % 10) as int))
    }
}

/// An integer in decimal: a minus sign before the digits of a negative one.
pub open spec fn spec_decimal(n: int) -> Seq<char> {
    if n < 0 {
        seq!['-'] + spec_digits((-n) as nat)
    } else {
        spec_digits(n as nat)
    }
}

/// `n` spaces.
pub open spec fn spaces(n: int) -> Seq<char> {
    Seq::new(if n < 0 { 0 } else { n as nat }, |i: int| ' ')
}

/// A run left-aligned in `width` cells: spaces after it up to the width; a longer run is
/// kept whole.
pub open spec fn spec_pad_right(s: Seq<char>, width: int) -> Seq<char> {
    s + spaces(width - s.len())
}

/// A run right-aligned in `width` cells: spaces before it up to the width; a longer run is
/// kept whole.
pub open spec fn spec_pad_left(s: Seq<char>, width: int) -> Seq<char> {
    spaces(width - s.len()) + s
}

fn digit(d: u64) -> (c: char)
    requires
        d < 10,
    ensures
        c == digit_char(d as int),
{
    match d {
        0 => '0',
        1 => '1',
        2 => '2',
        3 => '3',
        4 => '4',
        5 => '5',
        6 => '6',
        7 => '7',
        8 => '8',
        _ => '9',
    }
}

/// Append the decimal digits of `n`.
pub fn push_digits(out: &mut String, n: u64)
    ensures
        final(out)@ == old(out)@ + spec_digits(n as nat),
    decreases n,
{
    if n >= 10 {
        push_digits(out, n / 10);
    }
    push_char(out, digit(n % 10));
    assert(n >= 10 ==> spec_digits(n as nat) == spec_digits((n / 10) as nat).push(
        digit_char((n % 10) as int),
    ));
}

/// Append an integer in decimal.
pub fn push_decimal(out: &mut String, n: i64)
    ensures
        final(out)@ == old(out)@ + spec_decimal(n as int),
{
    if n < 0 {
        push_char(out, '-');
        let magnitude: u64 = (-(n + 1)) as u64 + 1;
        push_digits(out, magnitude);
        assert(seq!['-'] + spec_digits(magnitude as nat) =~= seq!['-'].add(spec_digits(magnitude as nat)));
        assert(old(out)@.push('-') + spec_digits(magnitude as nat) =~= old(out)@ + (seq!['-']
            + spec_digits(magnitude as nat)));
    } else {
        push_digits(out, n as u64);
    }
}

/// An integer in decimal.
pub fn decimal(n: i64) -> (r: String)
    ensures
        r@ == spec_decimal(n as int),
{
    let mut out = String::new();
    push_decimal(&mut out, n);
    assert(Seq::<char>::empty() + spec_decimal(n as int) =~= spec_decimal(n as int));
    out
}

/// Append `n` spaces.
pub fn push_spaces(out: &mut String, n: usize)
    ensures
        final(out)@ == old(out)@ + spaces(n as int),
{
    let mut i: usize = 0;
    while i < n
        invariant
            i <= n,
            out@ == old(out)@ + spaces(i as int),
        decreases n - i,
    {
        push_char(out, ' ');
        i = i + 1;
        assert(old(out)@ + spaces(i - 1) + seq![' '] =~= old(out)@ + spaces(i as int));
    }
}

/// Append a run left-aligned in `width` cells.
pub fn push_padded_right(out: &mut String, s: &str, width: usize)
    ensures
        final(out)@ == old(out)@ + spec_pad_right(s@, width as int),
{
    let n = s.unicode_len();
    push_str(out, s);
    if n < width {
        push_spaces(out, width - n);
    } else {
        push_spaces(out, 0);
    }
    assert(old(out)@ + s@ + spaces(width - n) =~= old(out)@ + spec_pad_right(s@, width as int));
}

/// Append a run right-aligned in `width` cells.
pub fn push_padded_left(out: &mut String, s: &str, width: usize)
    ensures
        final(out)@ == old(out)@ + spec_pad_left(s@, width as int),
{
    let n = s.unicode_len();
    if n < width {
        push_spaces(out, width - n);
    } else {
        push_spaces(out, 0);
    }
    push_str(out, s);
    assert(old(out)@ + spaces(width - n) + s@ =~= old(out)@ + spec_pad_left(s@, width as int));
}

/// A run left-aligned in `width` cells.
pub fn pad_right(s: &str, width: usize) -> (r: String)
    ensures
        r@ == spec_pad_right(s@, width as int),
{
    let mut out = String::new();
    push_padded_right(&mut out, s, width);
    assert(Seq::<char>::empty() + spec_pad_right(s@, width as int) =~= spec_pad_right(s@, width as int));
    out
}

/// A run right-aligned in `width` cells.
pub fn pad_left(s: &str, width: usize) -> (r: String)
    ensures
        r@ == spec_pad_left(s@, width as int),
{
    let mut out = String::new();
    push_padded_left(&mut out, s, width);
    assert(Seq::<char>::empty() + spec_pad_left(s@, width as int) =~= spec_pad_left(s@, width as int));
    out
}

/// One event as text: the long form with the math, the short form with the outcome alone.
#[derive(Debug, Clone, PartialEq, Eq)]
pub struct Line {
    /// With the math, at most `LONG_CELLS`.
    pub long: String,
    /// The outcome alone, at most `SHORT_CELLS`.
    pub short: String,
}

impl Line {
    /// Both forms, each fitted to its length.
    pub fn new(long: String, short: String) -> (r: Line)
        ensures
            r.long@ == spec_fit(long@, LONG_CELLS as int),
            r.short@ == spec_fit(short@, SHORT_CELLS as int),
    {
        Line { long: fit(long.as_str(), LONG_CELLS), short: fit(short.as_str(), SHORT_CELLS) }
    }

    /// One text for both forms, each fitted to its length.
    pub fn same(text: String) -> (r: Line)
        ensures
            r.long@ == spec_fit(text@, LONG_CELLS as int),
            r.short@ == spec_fit(text@, SHORT_CELLS as int),
    {
        Line::new(text.clone(), text)
    }
}

/// An integer in decimal, right-aligned in `width` cells.
pub fn decimal_left(n: i64, width: usize) -> (r: String)
    ensures
        r@ == spec_pad_left(spec_decimal(n as int), width as int),
{
    let d = decimal(n);
    pad_left(d.as_str(), width)
}

/// An integer in decimal, left-aligned in `width` cells.
pub fn decimal_right(n: i64, width: usize) -> (r: String)
    ensures
        r@ == spec_pad_right(spec_decimal(n as int), width as int),
{
    let d = decimal(n);
    pad_right(d.as_str(), width)
}

/// Text fitted to `cells` and left-aligned in as many.
pub fn fit_right(text: &str, cells: usize) -> (r: String)
    ensures
        r@ == spec_pad_right(spec_fit(text@, cells as int), cells as int),
{
    let f = fit(text, cells);
    pad_right(f.as_str(), cells)
}

/// `v` clamped to `[lo, hi]`.
pub open spec fn spec_clamp(v: int, lo: int, hi: int) -> int {
    if v < lo {
        lo
    } else if v > hi {
        hi
    } else {
        v
    }
}

/// `v` clamped to `[lo, hi]`.
pub fn clamp(v: i64, lo: i64, hi: i64) -> (r: i64)
    requires
        lo <= hi,
    ensures
        r == spec_clamp(v as int, lo as int, hi as int),
{
    if v < lo {
        lo
    } else if v > hi {
        hi
    } else {
        v
    }
}

/// A number below ten takes one digit, below a hundred at most two, below a thousand at
/// most three.
pub proof fn lemma_digits_len(n: nat)
    ensures
        n < 10 ==> spec_digits(n).len() == 1,
        n < 100 ==> spec_digits(n).len() <= 2,
        n < 1000 ==> spec_digits(n).len() <= 3,
{
    if n >= 10 {
        let q = (n / 10) as nat;
        assert(spec_digits(n) == spec_digits(q).push(digit_char((n % 10) as int)));
        if q >= 10 {
            let r = (q / 10) as nat;
            assert(spec_digits(q) == spec_digits(r).push(digit_char((q % 10) as int)));
            if r < 10 {
                assert(spec_digits(r).len() == 1);
            }
        } else {
            assert(spec_digits(q).len() == 1);
        }
    }
}

/// Ten to the power `k`.
pub open spec fn pow10(k: nat) -> nat
    decreases k,
{
    if k == 0 {
        1
    } else {
        10 * pow10((k - 1) as nat)
    }
}

/// A number below ten to the power `k` takes at most `k` digits.
pub proof fn lemma_digits_below(n: nat, k: nat)
    requires
        1 <= k,
        n < pow10(k),
    ensures
        spec_digits(n).len() <= k,
    decreases k,
{
    if n >= 10 {
        if k == 1 {
            assert(pow10(1) == 10 * pow10(0));
        } else {
            let q = (n / 10) as nat;
            assert(q < pow10((k - 1) as nat));
            lemma_digits_below(q, (k - 1) as nat);
            assert(spec_digits(n) == spec_digits(q).push(digit_char((n % 10) as int)));
        }
    }
}

/// A 64-bit number, with its sign, takes at most twenty places.
pub proof fn lemma_decimal_short(n: int)
    requires
        i64::MIN <= n <= i64::MAX,
    ensures
        spec_decimal(n).len() <= 20,
{
    reveal_with_fuel(pow10, 20);
    assert(pow10(19) == 10_000_000_000_000_000_000);
    if n < 0 {
        lemma_digits_below((-n) as nat, 19);
    } else {
        lemma_digits_below(n as nat, 19);
    }
}

/// A padded run is as wide as the padding when it was no wider.
pub proof fn lemma_pad_len(s: Seq<char>, width: int)
    requires
        s.len() <= width,
    ensures
        spec_pad_right(s, width).len() == width,
        spec_pad_left(s, width).len() == width,
{
}

/// The texts of a run of strings.
pub open spec fn views(s: Seq<String>) -> Seq<Seq<char>> {
    s.map_values(|t: String| t@)
}

/// Run `parts` together with `sep` between each two.
pub open spec fn spec_join(parts: Seq<Seq<char>>, sep: Seq<char>) -> Seq<char>
    decreases parts.len(),
{
    if parts.len() == 0 {
        Seq::empty()
    } else if parts.len() == 1 {
        parts[0]
    } else {
        spec_join(parts.drop_last(), sep) + sep + parts.last()
    }
}

/// Append `parts` run together with `sep` between each two.
pub fn push_join(out: &mut String, parts: &[String], sep: &str)
    ensures
        final(out)@ == old(out)@ + spec_join(views(parts@), sep@),
{
    let mut i: usize = 0;
    let ghost start = out@;
    proof {
        assert(views(parts@).take(0) =~= Seq::<Seq<char>>::empty());
        assert(start + Seq::<char>::empty() =~= start);
    }
    while i < parts.len()
        invariant
            i <= parts@.len(),
            start == old(out)@,
            out@ == start + spec_join(views(parts@).take(i as int), sep@),
        decreases parts@.len() - i,
    {
        if i > 0 {
            push_str(out, sep);
        }
        push_str(out, parts[i].as_str());
        proof {
            let t = views(parts@).take(i + 1);
            assert(t.drop_last() =~= views(parts@).take(i as int));
            assert(t.last() == parts@[i as int]@);
            if i == 0 {
                assert(t.len() == 1);
                assert(out@ =~= start + spec_join(t, sep@));
            } else {
                assert(out@ =~= start + spec_join(t, sep@));
            }
        }
        i = i + 1;
    }
    proof {
        assert(views(parts@).take(parts@.len() as int) =~= views(parts@));
    }
}

} // verus!
