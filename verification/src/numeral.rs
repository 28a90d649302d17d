//! Unsigned numerals: parsing them the way Rust's `from_str_radix` does, and
//! writing them in lowercase hexadecimal or in decimal.

use vstd::prelude::*;
use vstd::utf8::is_ascii_chars;

verus! {

/// `'0'`.
pub const ASCII_0: u8 = 0x30;
/// `'9'`.
pub const ASCII_9: u8 = 0x39;
/// `'a'`.
pub const ASCII_LOWER_A: u8 = 0x61;
/// `'z'`.
pub const ASCII_LOWER_Z: u8 = 0x7a;
/// `'A'`.
pub const ASCII_UPPER_A: u8 = 0x41;
/// `'Z'`.
pub const ASCII_UPPER_Z: u8 = 0x5a;
/// `'+'`.
pub const ASCII_PLUS: u8 = 0x2b;
/// `'x'`.
pub const ASCII_LOWER_X: u8 = 0x78;
/// `'X'`.
pub const ASCII_UPPER_X: u8 = 0x58;

/// Why an unsigned numeral was rejected (the kinds of `core::num::ParseIntError`).
#[derive(Clone, Copy, Debug, PartialEq, Eq, Structural)]
pub enum IntErrorKind {
    /// The text was empty.
    Empty,
    /// A character is not a digit of the radix (a lone sign included).
    InvalidDigit,
    /// The value does not fit in the target type.
    PosOverflow,
}

/// The value of one ASCII byte as a digit of `radix` (`char::to_digit`).
pub open spec fn digit_value(b: u8, radix: nat) -> Option<nat> {
    let v: int = if ASCII_0 <= b <= ASCII_9 {
        b - ASCII_0
    } else if ASCII_LOWER_A <= b <= ASCII_LOWER_Z {
        b - ASCII_LOWER_A + 10
    } else if ASCII_UPPER_A <= b <= ASCII_UPPER_Z {
        b - ASCII_UPPER_A + 10
    } else {
        36
    };
    if v < radix {
        Some(v as nat)
    } else {
        None
    }
}

/// Scans `digits` left to right, starting from the value `acc`, as Rust's
/// integer parser does: the first non-digit is an `InvalidDigit`, and a step
/// whose value passes `limit` is a `PosOverflow`.
pub open spec fn scan_digits(digits: Seq<u8>, radix: nat, limit: nat, acc: nat) -> Result<nat, IntErrorKind>
    decreases digits.len(),
{
    if digits.len() == 0 {
        Ok(acc)
    } else {
        match digit_value(digits[0], radix) {
            None => Err(IntErrorKind::InvalidDigit),
            Some(d) => if acc * radix + d > limit {
                Err(IntErrorKind::PosOverflow)
            } else {
                scan_digits(digits.drop_first(), radix, limit, acc * radix + d)
            },
        }
    }
}

/// `from_str_radix` for an unsigned type whose largest value is `limit`:
/// an optional leading `+`, then one or more digits.
pub open spec fn spec_parse_uint(s: Seq<u8>, radix: nat, limit: nat) -> Result<nat, IntErrorKind> {
    if s.len() == 0 {
        Err(IntErrorKind::Empty)
    } else if s[0] == ASCII_PLUS && s.len() > 1 {
        scan_digits(s.drop_first(), radix, limit, 0)
    } else {
        scan_digits(s, radix, limit, 0)
    }
}

fn digit_value_exec(b: u8, radix: u32) -> (r: Option<u32>)
    requires
        2 <= radix <= 36,
    ensures
        match digit_value(b, radix as nat) {
            Some(d) => r == Some(d as u32),
            None => r is None,
        },
{
    let v: u32 = if ASCII_0 <= b && b <= ASCII_9 {
        (b - ASCII_0) as u32
    } else if ASCII_LOWER_A <= b && b <= ASCII_LOWER_Z {
        (b - ASCII_LOWER_A) as u32 + 10
    } else if ASCII_UPPER_A <= b && b <= ASCII_UPPER_Z {
        (b - ASCII_UPPER_A) as u32 + 10
    } else {
        36
    };
    if v < radix {
        Some(v)
    } else {
        None
    }
}

/// Parses `s` as an unsigned numeral in `radix` whose value must not pass
/// `limit`, exactly as `from_str_radix` does for the type whose largest value
/// is `limit`.
pub(crate) fn parse_uint(s: &[u8], radix: u32, limit: u128) -> (r: Result<u128, IntErrorKind>)
    requires
        2 <= radix <= 36,
    ensures
        match r {
            Ok(v) => spec_parse_uint(s@, radix as nat, limit as nat) == Ok::<nat, IntErrorKind>(v as nat),
            Err(e) => spec_parse_uint(s@, radix as nat, limit as nat) == Err::<nat, IntErrorKind>(e),
        },
{
    let len = s.len();
    if len == 0 {
        return Err(IntErrorKind::Empty);
    }
    let start: usize = if s[0] == ASCII_PLUS && len > 1 { 1 } else { 0 };
    let mut i: usize = start;
    let mut acc: u128 = 0;
    assert(s@.subrange(start as int, len as int) =~= if start == 1 { s@.drop_first() } else { s@ });
    while i < len
        invariant
            start <= i <= len,
            len == s@.len(),
            2 <= radix <= 36,
            acc <= limit,
            spec_parse_uint(s@, radix as nat, limit as nat) == scan_digits(
                s@.subrange(i as int, len as int),
                radix as nat,
                limit as nat,
                acc as nat,
            ),
        decreases len - i,
    {
        let ghost rest = s@.subrange(i as int, len as int);
        assert(rest.drop_first() =~= s@.subrange(i + 1, len as int));
        match digit_value_exec(s[i], radix) {
            None => {
                return Err(IntErrorKind::InvalidDigit);
            },
            Some(d) => {
                let mul = acc.checked_mul(radix as u128);
                match mul {
                    None => {
                        return Err(IntErrorKind::PosOverflow);
                    },
                    Some(m) => {
                        if m > limit || d as u128 > limit - m {
                            return Err(IntErrorKind::PosOverflow);
                        }
                        acc = m + d as u128;
                    },
                }
            },
        }
        i = i + 1;
    }
    assert(s@.subrange(len as int, len as int).len() == 0);
    Ok(acc)
}


/// The lowercase digit character for a digit value below 16.
pub open spec fn digit_char(d: nat) -> char {
    if d < 10 {
        (d + 0x30) as char
    } else {
        (d - 10 + 0x61) as char
    }
}

/// `value` as exactly `width` lowercase hexadecimal digits, most significant
/// first, padded with `0` on the left (`format!("{value:0>width$x}")` once
/// `value` fits in `width` digits).
pub open spec fn fixed_hex(value: nat, width: nat) -> Seq<char>
    decreases width,
{
    if width == 0 {
        Seq::empty()
    } else {
        fixed_hex(value / 16, (width - 1) as nat).push(digit_char(value % 16))
    }
}

/// `value` in lowercase hexadecimal with no leading zeros (`format!("{value:x}")`).
pub open spec fn minimal_hex(value: nat) -> Seq<char>
    decreases value,
{
    if value < 16 {
        seq![digit_char(value)]
    } else {
        minimal_hex(value / 16).push(digit_char(value % 16))
    }
}

/// `value` in decimal with no leading zeros (`value.to_string()`).
pub open spec fn decimal(value: nat) -> Seq<char>
    decreases value,
{
    if value < 10 {
        seq![digit_char(value)]
    } else {
        decimal(value / 10).push(digit_char(value % 10))
    }
}

/// `String::push`: appends one character at the end of the string.
#[verifier::external_body]
pub(crate) fn push_char(s: &mut String, c: char)
    ensures
        final(s)@ == old(s)@.push(c),
{
    s.push(c);
}

fn digit_char_exec(d: u8) -> (c: char)
    requires
        d < 16,
    ensures
        c == digit_char(d as nat),
{
    if d < 10 {
        (d + ASCII_0) as char
    } else {
        (d - 10 + ASCII_LOWER_A) as char
    }
}

/// Appends `value` as `width` lowercase hexadecimal digits.
pub(crate) fn push_fixed_hex(s: &mut String, value: u128, width: usize)
    ensures
        final(s)@ == old(s)@ + fixed_hex(value as nat, width as nat),
    decreases width,
{
    if width == 0 {
        assert(old(s)@ + Seq::<char>::empty() =~= old(s)@);
        return;
    }
    push_fixed_hex(s, value / 16, width - 1);
    push_char(s, digit_char_exec((value % 16) as u8));
    assert(old(s)@ + fixed_hex(value as nat, width as nat) =~= old(s)@ + fixed_hex(
        (value / 16) as nat,
        (width - 1) as nat,
    ) + seq![digit_char((value % 16) as nat)]);
}

/// Appends `value` in lowercase hexadecimal with no leading zeros.
pub(crate) fn push_minimal_hex(s: &mut String, value: u128)
    ensures
        final(s)@ == old(s)@ + minimal_hex(value as nat),
    decreases value,
{
    if value >= 16 {
        push_minimal_hex(s, value / 16);
    }
    push_char(s, digit_char_exec((value % 16) as u8));
    if value >= 16 {
        assert(old(s)@ + minimal_hex(value as nat) =~= old(s)@ + minimal_hex((value / 16) as nat)
            + seq![digit_char((value % 16) as nat)]);
    } else {
        assert(old(s)@ + minimal_hex(value as nat) =~= old(s)@.push(digit_char(value as nat)));
    }
}

/// Appends `value` in decimal with no leading zeros.
pub(crate) fn push_decimal(s: &mut String, value: u128)
    ensures
        final(s)@ == old(s)@ + decimal(value as nat),
    decreases value,
{
    if value >= 10 {
        push_decimal(s, value / 10);
    }
    push_char(s, digit_char_exec((value % 10) as u8));
    if value >= 10 {
        assert(old(s)@ + decimal(value as nat) =~= old(s)@ + decimal((value / 10) as nat)
            + seq![digit_char((value % 10) as nat)]);
    } else {
        assert(old(s)@ + decimal(value as nat) =~= old(s)@.push(digit_char(value as nat)));
    }
}

/// `value.to_string()` for an unsigned integer.
pub fn decimal_string(value: u128) -> (r: String)
    ensures
        r@ == decimal(value as nat),
{
    let mut s = String::new();
    push_decimal(&mut s, value);
    assert(Seq::<char>::empty() + decimal(value as nat) =~= decimal(value as nat));
    s
}


/// The bytes of a string of ASCII characters.
pub open spec fn ascii_bytes(cs: Seq<char>) -> Seq<u8> {
    cs.map_values(|c: char| c as u8)
}

/// Every byte is a digit of `radix`.
pub open spec fn all_digits(ds: Seq<u8>, radix: nat) -> bool {
    forall|i: int| 0 <= i < ds.len() ==> (#[trigger] digit_value(ds[i], radix)) is Some
}

/// The value of the digits `ds`, read left to right after the value `acc`.
pub open spec fn digits_value(ds: Seq<u8>, radix: nat, acc: nat) -> nat
    decreases ds.len(),
{
    if ds.len() == 0 {
        acc
    } else {
        digits_value(ds.drop_first(), radix, acc * radix + digit_value(ds[0], radix).unwrap())
    }
}

/// `16` to the power `w`.
pub open spec fn pow16(w: nat) -> nat
    decreases w,
{
    if w == 0 {
        1
    } else {
        16 * pow16((w - 1) as nat)
    }
}

proof fn lemma_digits_value_monotone(ds: Seq<u8>, radix: nat, acc: nat)
    requires
        radix >= 1,
    ensures
        digits_value(ds, radix, acc) >= acc,
    decreases ds.len(),
{
    if ds.len() > 0 {
        let d = digit_value(ds[0], radix).unwrap();
        assert(acc * radix >= acc) by (nonlinear_arith)
            requires
                radix >= 1,
        ;
        lemma_digits_value_monotone(ds.drop_first(), radix, acc * radix + d);
    }
}

/// On digits alone, the scan fails only by overflow, and succeeds with the
/// value of the digits exactly when that value fits.
pub proof fn lemma_scan_digits(ds: Seq<u8>, radix: nat, limit: nat, acc: nat)
    requires
        radix >= 1,
        acc <= limit,
        all_digits(ds, radix),
    ensures
        scan_digits(ds, radix, limit, acc) == (if digits_value(ds, radix, acc) <= limit {
            Ok::<nat, IntErrorKind>(digits_value(ds, radix, acc))
        } else {
            Err::<nat, IntErrorKind>(IntErrorKind::PosOverflow)
        }),
    decreases ds.len(),
{
    if ds.len() > 0 {
        assert(digit_value(ds[0], radix) is Some);
        let d = digit_value(ds[0], radix).unwrap();
        let rest = ds.drop_first();
        assert forall|i: int| 0 <= i < rest.len() implies (#[trigger] digit_value(rest[i], radix)) is Some by {
            assert(rest[i] == ds[i + 1]);
            assert(digit_value(ds[i + 1], radix) is Some);
        }
        lemma_digits_value_monotone(rest, radix, acc * radix + d);
        assert(digits_value(ds, radix, acc) == digits_value(rest, radix, acc * radix + d));
        if acc * radix + d <= limit {
            lemma_scan_digits(rest, radix, limit, acc * radix + d);
        }
    }
}

proof fn lemma_digits_value_push(ds: Seq<u8>, b: u8, radix: nat, acc: nat)
    ensures
        digits_value(ds.push(b), radix, acc) == digits_value(ds, radix, acc) * radix + digit_value(
            b,
            radix,
        ).unwrap(),
    decreases ds.len(),
{
    if ds.len() == 0 {
        assert(ds.push(b).drop_first() =~= Seq::<u8>::empty());
        assert(ds.push(b)[0] == b);
        let a1 = acc * radix + digit_value(b, radix).unwrap();
        assert(digits_value(Seq::<u8>::empty(), radix, a1) == a1);
    } else {
        assert(ds.push(b).drop_first() =~= ds.drop_first().push(b));
        assert(ds.push(b)[0] == ds[0]);
        lemma_digits_value_push(
            ds.drop_first(),
            b,
            radix,
            acc * radix + digit_value(ds[0], radix).unwrap(),
        );
    }
}

proof fn lemma_digit_char_byte(d: nat, radix: nat)
    requires
        d < radix <= 16,
    ensures
        digit_value(digit_char(d) as u8, radix) == Some(d),
        '\0' <= digit_char(d) <= '\u{7f}',
{
}

proof fn lemma_ascii_bytes_push(cs: Seq<char>, c: char)
    ensures
        ascii_bytes(cs.push(c)) == ascii_bytes(cs).push(c as u8),
{
    assert(ascii_bytes(cs.push(c)) =~= ascii_bytes(cs).push(c as u8));
}

/// The digits of `fixed_hex(value, width)` are ASCII hexadecimal digits whose
/// value is `value`, when `value` fits in `width` digits.
pub proof fn lemma_fixed_hex_value(value: nat, width: nat)
    requires
        value < pow16(width),
    ensures
        is_ascii_chars(fixed_hex(value, width)),
        fixed_hex(value, width).len() == width,
        all_digits(ascii_bytes(fixed_hex(value, width)), 16),
        digits_value(ascii_bytes(fixed_hex(value, width)), 16, 0) == value,
    decreases width,
{
    if width > 0 {
        let p = pow16((width - 1) as nat);
        assert(value / 16 < p) by (nonlinear_arith)
            requires
                value < 16 * p,
        ;
        lemma_fixed_hex_value(value / 16, (width - 1) as nat);
        let prev = fixed_hex(value / 16, (width - 1) as nat);
        let c = digit_char(value % 16);
        lemma_digit_char_byte(value % 16, 16);
        lemma_ascii_bytes_push(prev, c);
        lemma_digits_value_push(ascii_bytes(prev), c as u8, 16, 0);
        assert(ascii_bytes(prev.push(c)) == ascii_bytes(prev).push(c as u8));
        assert forall|i: int| 0 <= i < prev.push(c).len() implies '\0' <= #[trigger] prev.push(c)[i] <= '\u{7f}' by {
            if i < prev.len() {
                assert(prev.push(c)[i] == prev[i]);
            }
        }
        assert forall|i: int| 0 <= i < ascii_bytes(prev.push(c)).len() implies (#[trigger] digit_value(ascii_bytes(prev.push(c))[i], 16)) is Some by {
            if i < prev.len() {
                assert(ascii_bytes(prev.push(c))[i] == ascii_bytes(prev)[i]);
            }
        }
        assert((value / 16) * 16 + value % 16 == value);
    } else {
        assert(value == 0);
    }
}


/// Helper: pushing one digit character keeps a digit string ASCII and valid.
proof fn lemma_push_digit(prev: Seq<char>, d: nat, radix: nat)
    requires
        d < radix <= 16,
        is_ascii_chars(prev),
        all_digits(ascii_bytes(prev), radix),
    ensures
        is_ascii_chars(prev.push(digit_char(d))),
        all_digits(ascii_bytes(prev.push(digit_char(d))), radix),
        digits_value(ascii_bytes(prev.push(digit_char(d))), radix, 0) == digits_value(
            ascii_bytes(prev),
            radix,
            0,
        ) * radix + d,
{
    let c = digit_char(d);
    lemma_digit_char_byte(d, radix);
    lemma_ascii_bytes_push(prev, c);
    lemma_digits_value_push(ascii_bytes(prev), c as u8, radix, 0);
    assert forall|i: int| 0 <= i < prev.push(c).len() implies '\0' <= #[trigger] prev.push(c)[i] <= '\u{7f}' by {
        if i < prev.len() {
            assert(prev.push(c)[i] == prev[i]);
        }
    }
    assert forall|i: int| 0 <= i < ascii_bytes(prev.push(c)).len() implies (#[trigger] digit_value(ascii_bytes(prev.push(c))[i], radix)) is Some by {
        if i < prev.len() {
            assert(ascii_bytes(prev.push(c))[i] == ascii_bytes(prev)[i]);
        }
    }
}

/// The digits of `minimal_hex(value)` are ASCII hexadecimal digits whose
/// value is `value`.
pub proof fn lemma_minimal_hex_value(value: nat)
    ensures
        is_ascii_chars(minimal_hex(value)),
        minimal_hex(value).len() > 0,
        all_digits(ascii_bytes(minimal_hex(value)), 16),
        digits_value(ascii_bytes(minimal_hex(value)), 16, 0) == value,
    decreases value,
{
    if value < 16 {
        lemma_push_digit(Seq::empty(), value, 16);
        assert(Seq::<char>::empty().push(digit_char(value)) =~= minimal_hex(value));
        assert(digits_value(ascii_bytes(Seq::<char>::empty()), 16, 0) == 0);
    } else {
        lemma_minimal_hex_value(value / 16);
        lemma_push_digit(minimal_hex(value / 16), value % 16, 16);
        assert((value / 16) * 16 + value % 16 == value);
    }
}

/// The digits of `decimal(value)` are ASCII decimal digits whose value is
/// `value`.
pub proof fn lemma_decimal_value(value: nat)
    ensures
        is_ascii_chars(decimal(value)),
        decimal(value).len() > 0,
        all_digits(ascii_bytes(decimal(value)), 10),
        digits_value(ascii_bytes(decimal(value)), 10, 0) == value,
    decreases value,
{
    if value < 10 {
        lemma_push_digit(Seq::empty(), value, 10);
        assert(Seq::<char>::empty().push(digit_char(value)) =~= decimal(value));
        assert(digits_value(ascii_bytes(Seq::<char>::empty()), 10, 0) == 0);
    } else {
        lemma_decimal_value(value / 10);
        lemma_push_digit(decimal(value / 10), value % 10, 10);
        assert((value / 10) * 10 + value % 10 == value);
    }
}

/// Every `u128` fits in 32 hexadecimal digits.
pub proof fn lemma_u128_fits_32_hex_digits(value: u128)
    ensures
        (value as nat) < pow16(32),
{
    reveal_with_fuel(pow16, 33);
    assert(pow16(32) == 0x1_0000_0000_0000_0000_0000_0000_0000_0000nat);
}

/// More digits hold at least as much.
pub proof fn lemma_pow16_monotone(a: nat, b: nat)
    requires
        a <= b,
    ensures
        pow16(a) <= pow16(b),
    decreases b,
{
    if a < b {
        lemma_pow16_monotone(a, (b - 1) as nat);
    }
}


/// `s` with every leading `0x` removed (`str::trim_start_matches("0x")`).
pub open spec fn strip_0x(s: Seq<u8>) -> Seq<u8>
    decreases s.len(),
{
    if s.len() >= 2 && s[0] == ASCII_0 && s[1] == ASCII_LOWER_X {
        strip_0x(s.skip(2))
    } else {
        s
    }
}

/// Removes every leading `0x` from the bytes `s`.
pub(crate) fn strip_0x_bytes(s: &[u8]) -> (r: &[u8])
    ensures
        r@ == strip_0x(s@),
{
    let len = s.len();
    let mut pos: usize = 0;
    assert(s@.subrange(0, len as int) =~= s@);
    while len - pos >= 2 && s[pos] == ASCII_0 && s[pos + 1] == ASCII_LOWER_X
        invariant
            pos <= len,
            len == s@.len(),
            strip_0x(s@) == strip_0x(s@.subrange(pos as int, len as int)),
        decreases len - pos,
    {
        assert(s@.subrange(pos as int, len as int).skip(2) =~= s@.subrange(pos + 2, len as int));
        pos = pos + 2;
    }
    let (_, rest) = s.split_at(pos);
    rest
}

/// What Rust's integer parser reports as text for each kind of failure.
pub open spec fn int_error_text(kind: IntErrorKind) -> Seq<char> {
    match kind {
        IntErrorKind::Empty => "cannot parse integer from empty string"@,
        IntErrorKind::InvalidDigit => "invalid digit found in string"@,
        IntErrorKind::PosOverflow => "number too large to fit in target type"@,
    }
}

impl IntErrorKind {
    /// The text Rust's `ParseIntError` displays for this kind.
    pub fn message(&self) -> (r: &'static str)
        ensures
            r@ == int_error_text(*self),
    {
        match self {
            IntErrorKind::Empty => "cannot parse integer from empty string",
            IntErrorKind::InvalidDigit => "invalid digit found in string",
            IntErrorKind::PosOverflow => "number too large to fit in target type",
        }
    }
}

} // verus!
