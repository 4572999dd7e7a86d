//! Small text builders used for diagnostics: hexadecimal and decimal rendering.
use vstd::prelude::*;

verus! {

/// `String::push` appends one character to the end of the string.
pub assume_specification[ String::push ](s: &mut String, ch: char)
    ensures
        final(s)@ == old(s)@.push(ch),
;

/// Upper-case hexadecimal digit for a value 0-15.
pub open spec fn hex_char(d: int) -> char {
    if d < 10 {
        (48 + d) as char
    } else {
        (55 + d) as char
    }
}

/// Two upper-case hex digits of a byte.
pub open spec fn hex2_seq(b: u8) -> Seq<char> {
    seq![hex_char(b as int / 16), hex_char(b as int % 16)]
}

/// Four upper-case hex digits of a 16-bit word.
pub open spec fn hex4_seq(w: u16) -> Seq<char> {
    hex2_seq((w as int / 256) as u8) + hex2_seq((w as int % 256) as u8)
}

/// Decimal digits of a natural number, without leading zeros.
pub open spec fn dec_seq(n: nat) -> Seq<char>
    decreases n,
{
    if n < 10 {
        seq![(48 + n) as char]
    } else {
        dec_seq(n / 10).push((48 + n % 10) as char)
    }
}

/// Upper-case hex digit of `d` (0-15).
pub fn hex_digit(d: u8) -> (c: char)
    requires
        d < 16,
    ensures
        c == hex_char(d as int),
{
    if d < 10 {
        (48u8 + d) as char
    } else {
        (55u8 + d) as char
    }
}

/// Append the two hex digits of `b` to `s`.
pub fn push_hex2(s: &mut String, b: u8)
    ensures
        final(s)@ == old(s)@ + hex2_seq(b),
{
    s.push(hex_digit(b / 16));
    s.push(hex_digit(b % 16));
    assert(final(s)@ =~= old(s)@ + hex2_seq(b));
}

/// Append the four hex digits of `w` to `s`.
pub fn push_hex4(s: &mut String, w: u16)
    ensures
        final(s)@ == old(s)@ + hex4_seq(w),
{
    let hi = (w / 256) as u8;
    let lo = (w % 256) as u8;
    push_hex2(s, hi);
    push_hex2(s, lo);
    assert(final(s)@ =~= old(s)@ + hex4_seq(w));
}

/// Append the decimal digits of `n` to `s`.
pub fn push_decimal(s: &mut String, n: u64)
    ensures
        final(s)@ == old(s)@ + dec_seq(n as nat),
    decreases n,
{
    if n < 10 {
        s.push(((48 + n) as u8) as char);
        assert(final(s)@ =~= old(s)@ + dec_seq(n as nat));
    } else {
        push_decimal(s, n / 10);
        s.push(((48 + n % 10) as u8) as char);
        assert(final(s)@ =~= old(s)@ + dec_seq(n as nat));
    }
}

/// `n` copies of `c` (none when `n` is not positive).
pub open spec fn repeat_char(c: char, n: int) -> Seq<char> {
    if n <= 0 {
        Seq::empty()
    } else {
        Seq::new(n as nat, |i: int| c)
    }
}

/// `s` right-aligned in a field of `w` characters, as `{:w}` prints a number.
pub open spec fn pad_left(s: Seq<char>, w: int) -> Seq<char> {
    repeat_char(' ', w - s.len()) + s
}

/// `s` left-aligned in a field of `w` characters, as `{:w}` prints a string.
pub open spec fn pad_right(s: Seq<char>, w: int) -> Seq<char> {
    s + repeat_char(' ', w - s.len())
}

/// `s` with leading zeros up to `w` characters, as `{:0w}` prints a number.
pub open spec fn zero_pad(s: Seq<char>, w: int) -> Seq<char> {
    repeat_char('0', w - s.len()) + s
}

/// Lower-case hexadecimal digit for a value 0-15.
pub open spec fn hex_char_lower(d: int) -> char {
    if d < 10 {
        (48 + d) as char
    } else {
        (87 + d) as char
    }
}

/// Four lower-case hex digits of a 16-bit word.
pub open spec fn hex4_lower_seq(w: u16) -> Seq<char> {
    seq![
        hex_char_lower(w as int / 4096),
        hex_char_lower(w as int / 256 % 16),
        hex_char_lower(w as int / 16 % 16),
        hex_char_lower(w as int % 16),
    ]
}

/// Append `n` copies of `c`.
pub fn push_repeat(s: &mut String, c: char, n: usize)
    ensures
        final(s)@ == old(s)@ + repeat_char(c, n as int),
{
    let mut i: usize = 0;
    while i < n
        invariant
            i <= n,
            s@ == old(s)@ + repeat_char(c, i as int),
        decreases n - i,
    {
        s.push(c);
        assert(repeat_char(c, i + 1) =~= repeat_char(c, i as int).push(c));
        i = i + 1;
    }
}

/// Append every character of `t` to `s`.
pub fn push_text(s: &mut String, t: &str)
    ensures
        final(s)@ == old(s)@ + t@,
{
    let n = t.unicode_len();
    let mut i: usize = 0;
    while i < n
        invariant
            n == t@.len(),
            i <= n,
            s@ == old(s)@ + t@.subrange(0, i as int),
        decreases n - i,
    {
        let c = t.get_char(i);
        s.push(c);
        assert(t@.subrange(0, i + 1) =~= t@.subrange(0, i as int).push(c));
        i = i + 1;
    }
    assert(t@.subrange(0, n as int) =~= t@);
}

/// Append `t` left-aligned in a field of `w` characters.
pub fn push_padded_right(s: &mut String, t: &str, w: usize)
    ensures
        final(s)@ == old(s)@ + pad_right(t@, w as int),
{
    push_text(s, t);
    let n = t.unicode_len();
    if n < w {
        push_repeat(s, ' ', w - n);
    } else {
        assert(repeat_char(' ', w - n) =~= Seq::<char>::empty());
    }
    assert(final(s)@ =~= old(s)@ + pad_right(t@, w as int));
}

/// Append the decimal digits of `n`, right-aligned in a field of `w`
/// characters, filled with zeros when `zeros` is set and spaces otherwise.
pub fn push_decimal_padded(s: &mut String, n: u64, w: usize, zeros: bool)
    ensures
        final(s)@ == old(s)@ + (if zeros { zero_pad(dec_seq(n as nat), w as int) } else { pad_left(dec_seq(n as nat), w as int) }),
{
    let mut digits = String::new();
    push_decimal(&mut digits, n);
    assert(digits@ =~= dec_seq(n as nat));
    let len = digits.as_str().unicode_len();
    let fill = if zeros { '0' } else { ' ' };
    if len < w {
        push_repeat(s, fill, w - len);
    } else {
        assert(repeat_char(fill, w - len) =~= Seq::<char>::empty());
    }
    push_text(s, digits.as_str());
    assert(final(s)@ =~= old(s)@ + repeat_char(fill, w - len) + dec_seq(n as nat));
}

/// Lower-case hex digit of `d` (0-15).
pub fn hex_digit_lower(d: u16) -> (c: char)
    requires
        d < 16,
    ensures
        c == hex_char_lower(d as int),
{
    if d < 10 {
        ((48u16 + d) as u8) as char
    } else {
        ((87u16 + d) as u8) as char
    }
}

/// Append the four lower-case hex digits of `w`.
pub fn push_hex4_lower(s: &mut String, w: u16)
    ensures
        final(s)@ == old(s)@ + hex4_lower_seq(w),
{
    s.push(hex_digit_lower(w / 4096));
    s.push(hex_digit_lower(w / 256 % 16));
    s.push(hex_digit_lower(w / 16 % 16));
    s.push(hex_digit_lower(w % 16));
    assert(final(s)@ =~= old(s)@ + hex4_lower_seq(w));
}

} // verus!
