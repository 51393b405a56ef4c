//! Building text: numbers in decimal and hexadecimal, appended to strings.

use vstd::prelude::*;
use vstd::string::*;

verus! {

/// `String::push` appends the character.
pub assume_specification[ String::push ](s: &mut String, c: char)
    ensures
        final(s)@ == old(s)@.push(c),
;

/// `String::from_utf8` succeeds on valid UTF-8 only, and then holds the text
/// that those bytes encode.
#[verifier::external_body]
pub(crate) fn utf8_text(bytes: Vec<u8>) -> (r: Option<String>)
    ensures
        match r {
            Some(s) => vstd::utf8::valid_utf8(bytes@) && vstd::utf8::encode_utf8(s@) == bytes@,
            None => !vstd::utf8::valid_utf8(bytes@),
        },
{
    String::from_utf8(bytes).ok()
}

/// The text that `String::from_utf8_lossy` makes of bytes.
pub uninterp spec fn utf8_lossy(bytes: Seq<u8>) -> Seq<char>;

/// `String::from_utf8_lossy`: the text the bytes encode if they are valid UTF-8,
/// else a text with replacement characters that depends on the bytes alone.
#[verifier::external_body]
pub(crate) fn lossy_text(bytes: &[u8]) -> (r: String)
    ensures
        r@ == utf8_lossy(bytes@),
        vstd::utf8::valid_utf8(bytes@) ==> vstd::utf8::encode_utf8(r@) == bytes@,
{
    String::from_utf8_lossy(bytes).into_owned()
}

/// The decimal digit of a value below ten.
pub open spec fn decimal_digit(d: int) -> char {
    (48 + d) as char
}

/// A number in decimal, without leading zeros.
pub open spec fn decimal(n: nat) -> Seq<char>
    decreases n,
{
    if n < 10 {
        seq![decimal_digit(n as int)]
    } else {
        decimal(n / 10).push(decimal_digit((n % 10) as int))
    }
}

/// The lowercase hexadecimal digit of a value below sixteen.
pub open spec fn hex_digit_lower(d: int) -> char {
    if d < 10 {
        (48 + d) as char
    } else {
        (87 + d) as char
    }
}

/// The uppercase hexadecimal digit of a value below sixteen.
pub open spec fn hex_digit_upper(d: int) -> char {
    if d < 10 {
        (48 + d) as char
    } else {
        (55 + d) as char
    }
}

/// Bytes in lowercase hexadecimal, two digits each.
pub open spec fn hex_lower_of(bytes: Seq<u8>) -> Seq<char> {
    Seq::new(
        2 * bytes.len(),
        |i: int|
            if i % 2 == 0 {
                hex_digit_lower((bytes[i / 2] / 16) as int)
            } else {
                hex_digit_lower((bytes[i / 2] % 16) as int)
            },
    )
}

/// Bytes in uppercase hexadecimal, two digits each.
pub open spec fn hex_upper_of(bytes: Seq<u8>) -> Seq<char> {
    Seq::new(
        2 * bytes.len(),
        |i: int|
            if i % 2 == 0 {
                hex_digit_upper((bytes[i / 2] / 16) as int)
            } else {
                hex_digit_upper((bytes[i / 2] % 16) as int)
            },
    )
}

/// A number in lowercase hexadecimal, without leading zeros.
pub open spec fn hex(n: nat) -> Seq<char>
    decreases n,
{
    if n < 16 {
        seq![hex_digit_lower(n as int)]
    } else {
        hex(n / 16).push(hex_digit_lower((n % 16) as int))
    }
}

/// Append a number in lowercase hexadecimal.
pub fn push_hex(out: &mut String, n: u64)
    ensures
        final(out)@ == old(out)@ + hex(n as nat),
    decreases n,
{
    let ghost before = out@;
    if n >= 16 {
        push_hex(out, n / 16);
    }
    out.push(lower_digit((n % 16) as u8));
    assert(out@ =~= before + hex(n as nat));
}

/// Append a number in decimal.
pub fn push_decimal(out: &mut String, n: u64)
    ensures
        final(out)@ == old(out)@ + decimal(n as nat),
    decreases n,
{
    let ghost before = out@;
    if n >= 10 {
        push_decimal(out, n / 10);
    }
    let c: char = (48 + (n % 10) as u8) as char;
    out.push(c);
    assert(out@ =~= before + decimal(n as nat));
}

/// Append text.
pub fn push_text(out: &mut String, s: &str)
    ensures
        final(out)@ == old(out)@ + s@,
{
    out.append(s);
}

fn lower_digit(d: u8) -> (c: char)
    requires
        d < 16,
    ensures
        c == hex_digit_lower(d as int),
{
    if d < 10 {
        (48 + d) as char
    } else {
        (87 + d) as char
    }
}

fn upper_digit(d: u8) -> (c: char)
    requires
        d < 16,
    ensures
        c == hex_digit_upper(d as int),
{
    if d < 10 {
        (48 + d) as char
    } else {
        (55 + d) as char
    }
}

/// Bytes in lowercase hexadecimal.
pub fn hex_lower(bytes: &[u8]) -> (r: String)
    ensures
        r@ == hex_lower_of(bytes@),
{
    let mut out = String::new();
    let mut i: usize = 0;
    while i < bytes.len()
        invariant
            i <= bytes.len(),
            out@ =~= hex_lower_of(bytes@.take(i as int)),
        decreases bytes.len() - i,
    {
        out.push(lower_digit(bytes[i] / 16));
        out.push(lower_digit(bytes[i] % 16));
        i += 1;
    }
    assert(bytes@.take(i as int) =~= bytes@);
    out
}

/// Bytes in uppercase hexadecimal.
pub fn hex_upper(bytes: &[u8]) -> (r: String)
    ensures
        r@ == hex_upper_of(bytes@),
{
    let mut out = String::new();
    let mut i: usize = 0;
    while i < bytes.len()
        invariant
            i <= bytes.len(),
            out@ =~= hex_upper_of(bytes@.take(i as int)),
        decreases bytes.len() - i,
    {
        out.push(upper_digit(bytes[i] / 16));
        out.push(upper_digit(bytes[i] % 16));
        i += 1;
    }
    assert(bytes@.take(i as int) =~= bytes@);
    out
}

/// Whether Unicode counts a character as white space.
pub open spec fn white_space(c: char) -> bool {
    ||| '\u{9}' <= c <= '\u{d}'
    ||| c == ' '
    ||| c == '\u{85}'
    ||| c == '\u{a0}'
    ||| c == '\u{1680}'
    ||| '\u{2000}' <= c <= '\u{200a}'
    ||| c == '\u{2028}'
    ||| c == '\u{2029}'
    ||| c == '\u{202f}'
    ||| c == '\u{205f}'
    ||| c == '\u{3000}'
}

/// A text without the white space at its ends.
pub open spec fn trimmed(s: Seq<char>) -> Seq<char>
    decreases s.len(),
{
    if s.len() > 0 && white_space(s[0]) {
        trimmed(s.skip(1))
    } else if s.len() > 0 && white_space(s.last()) {
        trimmed(s.drop_last())
    } else {
        s
    }
}

fn is_white_space(c: char) -> (r: bool)
    ensures
        r == white_space(c),
{
    ('\u{9}' <= c && c <= '\u{d}') || c == ' ' || c == '\u{85}' || c == '\u{a0}' || c == '\u{1680}'
        || ('\u{2000}' <= c && c <= '\u{200a}') || c == '\u{2028}' || c == '\u{2029}'
        || c == '\u{202f}' || c == '\u{205f}' || c == '\u{3000}'
}

/// A text without the white space at its ends.
pub fn trim(s: &str) -> (r: String)
    ensures
        r@ == trimmed(s@),
{
    let n: usize = s.unicode_len();
    let mut from: usize = 0;
    assert(s@.subrange(0, n as int) =~= s@);
    while from < n && is_white_space(s.get_char(from))
        invariant
            n == s@.len(),
            from <= n,
            trimmed(s@) == trimmed(s@.subrange(from as int, n as int)),
        decreases n - from,
    {
        assert(s@.subrange(from as int, n as int).skip(1) =~= s@.subrange(from + 1, n as int));
        from += 1;
    }
    let mut to: usize = n;
    while to > from && is_white_space(s.get_char(to - 1))
        invariant
            n == s@.len(),
            from <= to <= n,
            to > from ==> !white_space(s@[from as int]),
            trimmed(s@) == trimmed(s@.subrange(from as int, to as int)),
        decreases to - from,
    {
        assert(s@.subrange(from as int, to as int).drop_last() =~= s@.subrange(
            from as int,
            to - 1,
        ));
        to -= 1;
    }
    s.substring_char(from, to).to_owned()
}

proof fn lemma_lower_digit(a: int, b: int)
    requires
        0 <= a < 16,
        0 <= b < 16,
        hex_digit_lower(a) == hex_digit_lower(b),
    ensures
        a == b,
{
    assert((48 + a) as char as int == 48 + a);
    assert((48 + b) as char as int == 48 + b);
    assert((87 + a) as char as int == 87 + a);
    assert((87 + b) as char as int == 87 + b);
}

/// Different bytes have different lowercase hexadecimal texts.
pub proof fn hex_lower_is_injective(a: Seq<u8>, b: Seq<u8>)
    requires
        hex_lower_of(a) == hex_lower_of(b),
    ensures
        a == b,
{
    assert(hex_lower_of(a).len() == 2 * a.len());
    assert(hex_lower_of(b).len() == 2 * b.len());
    assert forall|i: int| 0 <= i < a.len() implies a[i] == b[i] by {
        assert(hex_lower_of(a)[2 * i] == hex_lower_of(b)[2 * i]);
        assert(hex_lower_of(a)[2 * i + 1] == hex_lower_of(b)[2 * i + 1]);
        assert((2 * i) / 2 == i && (2 * i + 1) / 2 == i);
        assert((2 * i) % 2 == 0 && (2 * i + 1) % 2 == 1);
        assert(hex_lower_of(a)[2 * i] == hex_digit_lower((a[i] / 16) as int));
        assert(hex_lower_of(b)[2 * i] == hex_digit_lower((b[i] / 16) as int));
        assert(hex_lower_of(a)[2 * i + 1] == hex_digit_lower((a[i] % 16) as int));
        assert(hex_lower_of(b)[2 * i + 1] == hex_digit_lower((b[i] % 16) as int));
        lemma_lower_digit((a[i] / 16) as int, (b[i] / 16) as int);
        lemma_lower_digit((a[i] % 16) as int, (b[i] % 16) as int);
    }
    assert(a =~= b);
}

/// Different numbers have different decimal texts.
pub proof fn decimal_is_injective(a: nat, b: nat)
    requires
        decimal(a) == decimal(b),
    ensures
        a == b,
    decreases a,
{
    lemma_decimal_not_empty(a / 10);
    lemma_decimal_not_empty(b / 10);
    assert(decimal(a).last() == decimal(b).last());
    assert(decimal(a).last() == decimal_digit((a % 10) as int));
    assert(decimal(b).last() == decimal_digit((b % 10) as int));
    assert((48 + a % 10) as char as int == 48 + a % 10);
    assert((48 + b % 10) as char as int == 48 + b % 10);
    if a >= 10 && b >= 10 {
        assert(decimal(a).drop_last() =~= decimal(a / 10));
        assert(decimal(b).drop_last() =~= decimal(b / 10));
        decimal_is_injective(a / 10, b / 10);
    } else if a >= 10 {
        assert(decimal(a).len() > 1);
    } else if b >= 10 {
        assert(decimal(b).len() > 1);
    }
}

proof fn lemma_decimal_not_empty(n: nat)
    ensures
        decimal(n).len() >= 1,
{
}

/// A decimal text is read digit by digit: one more digit is ten times the number and the
/// digit.
pub proof fn decimal_goes_on_by_digits(n: nat, d: nat)
    requires
        d < 10,
    ensures
        decimal(d) =~= seq![(48 + d) as char],
        n > 0 ==> decimal(n * 10 + d) =~= decimal(n) + seq![(48 + d) as char],
{
    if n > 0 {
        assert((n * 10 + d) / 10 == n && (n * 10 + d) % 10 == d);
    }
}

/// A byte has two hexadecimal digits, the higher one first: 0 to 9, then letters.
pub proof fn hex_digits_of_a_byte(bytes: Seq<u8>, i: int)
    requires
        0 <= i < bytes.len(),
    ensures
        ({
            let high = bytes[i] / 16;
            let low = bytes[i] % 16;
            let upper = hex_upper_of(bytes);
            let lower = hex_lower_of(bytes);
            &&& upper.len() == 2 * bytes.len()
            &&& lower.len() == 2 * bytes.len()
            &&& high < 10 ==> upper[2 * i] == (48 + high) as char && lower[2 * i] == (48 + high) as char
            &&& high >= 10 ==> upper[2 * i] == (55 + high) as char && lower[2 * i] == (87 + high) as char
            &&& low < 10 ==> upper[2 * i + 1] == (48 + low) as char && lower[2 * i + 1] == (48
                + low) as char
            &&& low >= 10 ==> upper[2 * i + 1] == (55 + low) as char && lower[2 * i + 1] == (87
                + low) as char
        }),
{
    assert((2 * i) / 2 == i && (2 * i + 1) / 2 == i);
    assert((2 * i) % 2 == 0 && (2 * i + 1) % 2 == 1);
}

/// What is trimmed is a part of the text, without white space at its ends, and only white
/// space is left out. The result is where the part begins.
pub proof fn only_outer_space_is_trimmed(s: Seq<char>) -> (from: int)
    ensures
        ({
            let t = trimmed(s);
            &&& 0 <= from <= from + t.len() <= s.len()
            &&& t == s.subrange(from, from + t.len())
            &&& forall|i: int| 0 <= i < from ==> white_space(#[trigger] s[i])
            &&& forall|i: int| from + t.len() <= i < s.len() ==> white_space(#[trigger] s[i])
            &&& t.len() > 0 ==> !white_space(t[0]) && !white_space(t.last())
        }),
    decreases s.len(),
{
    if s.len() > 0 && white_space(s[0]) {
        let rest = s.skip(1);
        let from = only_outer_space_is_trimmed(rest);
        let t = trimmed(rest);
        assert(t =~= s.subrange(from + 1, from + 1 + t.len()));
        assert forall|i: int| 0 <= i < from + 1 implies white_space(#[trigger] s[i]) by {
            if i > 0 {
                assert(rest[i - 1] == s[i]);
            }
        }
        assert forall|i: int| from + 1 + t.len() <= i < s.len() implies white_space(#[trigger] s[i]) by {
            assert(rest[i - 1] == s[i]);
        }
        from + 1
    } else if s.len() > 0 && white_space(s.last()) {
        let rest = s.drop_last();
        let from = only_outer_space_is_trimmed(rest);
        let t = trimmed(rest);
        assert(t =~= s.subrange(from, from + t.len()));
        assert forall|i: int| 0 <= i < from implies white_space(#[trigger] s[i]) by {
            assert(rest[i] == s[i]);
        }
        assert forall|i: int| from + t.len() <= i < s.len() implies white_space(#[trigger] s[i]) by {
            if i < rest.len() {
                assert(rest[i] == s[i]);
            }
        }
        from
    } else {
        assert(s =~= s.subrange(0, s.len() as int));
        0
    }
}

/// A number in hexadecimal goes on by its digits, the highest first: `0` to `9` and `a` to
/// `f`. No number but zero starts with a zero.
pub proof fn hex_goes_on_by_digits(n: nat, d: nat)
    requires
        d < 16,
    ensures
        n > 0 ==> hex(16 * n + d).drop_last() == hex(n),
        n == 0 ==> hex(16 * n + d).len() == 1,
        d < 10 ==> hex(16 * n + d).last() as int == '0' as int + d,
        d >= 10 ==> hex(16 * n + d).last() as int == 'a' as int + (d - 10),
{
    let m = 16 * n + d;
    assert(m / 16 == n && m % 16 == d);
    if n > 0 {
        assert(hex(m) == hex(n).push(hex_digit_lower(d as int)));
        assert(hex(m).drop_last() =~= hex(n));
    }
}

} // verus!
