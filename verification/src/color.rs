//! The text colour option: `#RGB`, `#RRGGBB`, `RGB` or `RRGGBB` in hexadecimal.

use vstd::prelude::*;
use vstd::string::StringSliceAdditionalSpecFns;

verus! {

/// An opaque colour with one byte per channel.
#[derive(Clone, Copy, Debug, PartialEq, Eq, Structural)]
pub struct Color {
    pub red: u8,
    pub green: u8,
    pub blue: u8,
}

/// Why a colour option was refused.
#[derive(Clone, Copy, Debug, PartialEq, Eq, Structural)]
pub enum ColorError {
    /// After the optional `#`, the text is neither 3 nor 6 bytes long.
    Length,
    /// The text has the right length but is not a hexadecimal number.
    Digit,
}

pub open spec fn is_hex_digit(b: u8) -> bool {
    (48 <= b <= 57) || (65 <= b <= 70) || (97 <= b <= 102)
}

pub open spec fn hex_digit_value(b: u8) -> int {
    if 48 <= b <= 57 {
        b - 48
    } else if 65 <= b <= 70 {
        b - 55
    } else {
        b - 87
    }
}

pub open spec fn all_hex(s: Seq<u8>) -> bool {
    forall|i: int| 0 <= i < s.len() ==> #[trigger] is_hex_digit(s[i])
}

/// The number that a string of hexadecimal digits denotes.
pub open spec fn hex_value(s: Seq<u8>) -> int
    decreases s.len(),
{
    if s.len() == 0 {
        0
    } else {
        hex_value(s.drop_last()) * 16 + hex_digit_value(s.last())
    }
}

/// The text after one leading `#`, if there is one.
pub open spec fn strip_hash(input: Seq<u8>) -> Seq<u8> {
    if input.len() > 0 && input[0] == 35u8 {
        input.drop_first()
    } else {
        input
    }
}

/// `RGB` written out as `RRGGBB`.
pub open spec fn expand_short(s: Seq<u8>) -> Seq<u8> {
    seq![s[0], s[0], s[1], s[1], s[2], s[2]]
}

/// The hexadecimal digits that denote the colour, if the text after the
/// optional `#` is a colour: three digits, each doubled, or six digits.
pub open spec fn color_digits(hex: Seq<u8>) -> Option<Seq<u8>> {
    if hex.len() == 3 && all_hex(hex) {
        Some(expand_short(hex))
    } else if hex.len() == 6 && all_hex(hex) {
        Some(hex)
    } else {
        None
    }
}

/// The colour whose channels are the three bytes of `value`, red highest.
pub open spec fn color_of_value(value: int) -> Color {
    Color {
        red: (value / 65536 % 256) as u8,
        green: (value / 256 % 256) as u8,
        blue: (value % 256) as u8,
    }
}

/// What a colour option denotes, read from the bytes of its text.
pub open spec fn spec_parse_color(input: Seq<u8>) -> Result<Color, ColorError> {
    let hex = strip_hash(input);
    if hex.len() != 3 && hex.len() != 6 {
        Err(ColorError::Length)
    } else {
        match color_digits(hex) {
            Some(digits) => Ok(color_of_value(hex_value(digits))),
            None => Err(ColorError::Digit),
        }
    }
}

pub open spec fn pow16(n: nat) -> int
    decreases n,
{
    if n == 0 {
        1
    } else {
        16 * pow16((n - 1) as nat)
    }
}

/// The value of one hexadecimal digit, or `None` for any other byte.
fn hex_digit(b: u8) -> (result: Option<u32>)
    ensures
        match result {
            Some(d) => is_hex_digit(b) && d == hex_digit_value(b),
            None => !is_hex_digit(b),
        },
{
    if 48 <= b && b <= 57 {
        Some((b - 48) as u32)
    } else if 65 <= b && b <= 70 {
        Some((b - 55) as u32)
    } else if 97 <= b && b <= 102 {
        Some((b - 87) as u32)
    } else {
        None
    }
}

/// The number denoted by a short string of hexadecimal digits, or `None`
/// if one of its bytes is not a digit.
fn digits_value(digits: &Vec<u8>) -> (result: Option<u32>)
    requires
        digits.len() <= 6,
    ensures
        match result {
            Some(v) => all_hex(digits@) && v == hex_value(digits@),
            None => !all_hex(digits@),
        },
{
    let mut value: u32 = 0;
    let mut i: usize = 0;
    while i < digits.len()
        invariant
            i <= digits.len() <= 6,
            all_hex(digits@.take(i as int)),
            value == hex_value(digits@.take(i as int)),
            value < pow16(i as nat),
        decreases digits.len() - i,
    {
        let b = digits[i];
        match hex_digit(b) {
            Some(d) => {
                proof {
                    reveal_with_fuel(pow16, 7);
                    let next = digits@.take(i as int + 1);
                    assert(next.drop_last() =~= digits@.take(i as int));
                    assert(next.last() == b);
                }
                value = value * 16 + d;
                i = i + 1;
                proof {
                    let prefix = digits@.take(i as int);
                    assert forall|j: int| 0 <= j < prefix.len() implies #[trigger] is_hex_digit(
                        prefix[j],
                    ) by {
                        if j < prefix.len() - 1 {
                            assert(digits@.take(i as int - 1)[j] == prefix[j]);
                        }
                    }
                }
            },
            None => {
                assert(!is_hex_digit(digits@[i as int]));
                return None;
            },
        }
    }
    assert(digits@.take(digits.len() as int) =~= digits@);
    Some(value)
}

/// Reads a colour option: an optional `#`, then three or six hexadecimal
/// digits; `RGB` stands for `RRGGBB`.
pub fn parse_color(input: &str) -> (result: Result<Color, ColorError>)
    ensures
        result == spec_parse_color(input.spec_bytes()),
{
    let bytes = input.as_bytes();
    let ghost all = bytes@;
    let start: usize = if bytes.len() > 0 && bytes[0] == 35u8 {
        1
    } else {
        0
    };
    let ghost hex = strip_hash(all);
    assert(hex =~= all.subrange(start as int, all.len() as int));
    let n = bytes.len() - start;
    let mut digits: Vec<u8> = Vec::new();
    if n == 3 {
        let a = bytes[start];
        let b = bytes[start + 1];
        let c = bytes[start + 2];
        digits.push(a);
        digits.push(a);
        digits.push(b);
        digits.push(b);
        digits.push(c);
        digits.push(c);
        assert(digits@ =~= expand_short(hex));
        assert(all_hex(hex) <==> all_hex(digits@)) by {
            if all_hex(digits@) {
                assert(is_hex_digit(digits@[0]) && is_hex_digit(digits@[2]) && is_hex_digit(
                    digits@[4],
                ));
                assert forall|j: int| 0 <= j < hex.len() implies #[trigger] is_hex_digit(
                    hex[j],
                ) by {
                    assert(hex[j] == digits@[2 * j]);
                }
            }
            if all_hex(hex) {
                assert(is_hex_digit(hex[0]) && is_hex_digit(hex[1]) && is_hex_digit(hex[2]));
            }
        }
    } else if n == 6 {
        let mut k = start;
        while k < bytes.len()
            invariant
                start <= k <= bytes.len(),
                digits@ =~= bytes@.subrange(start as int, k as int),
            decreases bytes.len() - k,
        {
            digits.push(bytes[k]);
            k = k + 1;
        }
        assert(digits@ =~= hex);
    } else {
        return Err(ColorError::Length);
    }
    match digits_value(&digits) {
        Some(value) => Ok(
            Color {
                red: (value / 65536 % 256) as u8,
                green: (value / 256 % 256) as u8,
                blue: (value % 256) as u8,
            },
        ),
        None => Err(ColorError::Digit),
    }
}

impl ColorError {
    /// The text shown to the user for this error.
    pub fn message(&self) -> (text: String)
        ensures
            text@ == (match self {
                ColorError::Length => "expected #RGB, #RRGGBB, RGB, or RRGGBB"@,
                ColorError::Digit => "invalid hex color"@,
            }),
    {
        match self {
            ColorError::Length => "expected #RGB, #RRGGBB, RGB, or RRGGBB".to_owned(),
            ColorError::Digit => "invalid hex color".to_owned(),
        }
    }
}

/// The short form `RGB` denotes the same colour as `RRGGBB`, and is refused
/// for the same reason when it is refused.
pub proof fn lemma_short_form_doubles_digits(s: Seq<u8>)
    requires
        s.len() == 3,
    ensures
        spec_parse_color(s) == spec_parse_color(expand_short(s)),
{
    let e = expand_short(s);
    if s[0] == 35u8 {
        assert(strip_hash(e).len() == 5);
    } else {
        assert(strip_hash(e) == e);
        assert(strip_hash(s) == s);
        if all_hex(s) {
            assert forall|j: int| 0 <= j < 6 implies #[trigger] is_hex_digit(e[j]) by {
                assert(e[j] == s[j / 2]);
            }
        } else {
            let k = choose|k: int| 0 <= k < 3 && !#[trigger] is_hex_digit(s[k]);
            assert(e[2 * k] == s[k]);
        }
    }
}

/// A leading `#` may be left out: the text without it denotes the same
/// colour, or is refused for the same reason.
pub proof fn lemma_hash_is_optional(s: Seq<u8>)
    requires
        s.len() == 0 || s[0] != 35u8,
    ensures
        spec_parse_color(seq![35u8] + s) == spec_parse_color(s),
{
    assert((seq![35u8] + s).drop_first() =~= s);
}

/// Six hexadecimal digits `RRGGBB` give the red, green and blue channels
/// the values of the first, second and third pair of digits.
pub proof fn lemma_long_form_channels(s: Seq<u8>)
    requires
        s.len() == 6,
        all_hex(s),
    ensures
        spec_parse_color(s) == Ok::<Color, ColorError>(
            Color {
                red: (hex_digit_value(s[0]) * 16 + hex_digit_value(s[1])) as u8,
                green: (hex_digit_value(s[2]) * 16 + hex_digit_value(s[3])) as u8,
                blue: (hex_digit_value(s[4]) * 16 + hex_digit_value(s[5])) as u8,
            },
        ),
{
    assert(is_hex_digit(s[0]));
    assert(strip_hash(s) == s);
    let d0 = hex_digit_value(s[0]);
    let d1 = hex_digit_value(s[1]);
    let d2 = hex_digit_value(s[2]);
    let d3 = hex_digit_value(s[3]);
    let d4 = hex_digit_value(s[4]);
    let d5 = hex_digit_value(s[5]);
    assert(is_hex_digit(s[1]) && is_hex_digit(s[2]) && is_hex_digit(s[3]) && is_hex_digit(s[4])
        && is_hex_digit(s[5]));
    reveal_with_fuel(hex_value, 7);
    assert(s.drop_last().drop_last().drop_last().drop_last().drop_last().drop_last() =~= Seq::<
        u8,
    >::empty());
    let v = hex_value(s);
    assert(v == ((((d0 * 16 + d1) * 16 + d2) * 16 + d3) * 16 + d4) * 16 + d5);
    let r = d0 * 16 + d1;
    let g = d2 * 16 + d3;
    let b = d4 * 16 + d5;
    assert(0 <= r < 256 && 0 <= g < 256 && 0 <= b < 256);
    assert(v == r * 65536 + g * 256 + b);
    assert(v / 65536 % 256 == r && v / 256 % 256 == g && v % 256 == b) by (nonlinear_arith)
        requires
            v == r * 65536 + g * 256 + b,
            0 <= r < 256,
            0 <= g < 256,
            0 <= b < 256,
    ;
}

/// ASCII lowercase of a byte: `A`..`Z` become `a`..`z`, other bytes stay.
pub open spec fn ascii_lowercase(b: u8) -> u8 {
    if 65 <= b <= 90 {
        (b + 32) as u8
    } else {
        b
    }
}

proof fn lemma_hex_value_ignores_case(t: Seq<u8>)
    requires
        all_hex(t),
    ensures
        all_hex(t.map_values(|b: u8| ascii_lowercase(b))),
        hex_value(t.map_values(|b: u8| ascii_lowercase(b))) == hex_value(t),
    decreases t.len(),
{
    let m = t.map_values(|b: u8| ascii_lowercase(b));
    assert forall|i: int| 0 <= i < m.len() implies #[trigger] is_hex_digit(m[i]) by {
        assert(is_hex_digit(t[i]));
    }
    if t.len() > 0 {
        let d = t.drop_last();
        assert(all_hex(d)) by {
            assert forall|i: int| 0 <= i < d.len() implies #[trigger] is_hex_digit(d[i]) by {
                assert(d[i] == t[i]);
            }
        }
        lemma_hex_value_ignores_case(d);
        assert(m.drop_last() =~= d.map_values(|b: u8| ascii_lowercase(b)));
        assert(is_hex_digit(t[t.len() - 1]));
    }
}

/// Upper- and lowercase hexadecimal digits are the same: every text denotes
/// the same colour, or is refused for the same reason, as its ASCII
/// lowercase form.
pub proof fn lemma_digits_ignore_case(s: Seq<u8>)
    ensures
        spec_parse_color(s.map_values(|b: u8| ascii_lowercase(b))) == spec_parse_color(s),
{
    let low = |b: u8| ascii_lowercase(b);
    let m = s.map_values(low);
    let hex = strip_hash(s);
    let mhex = strip_hash(m);
    assert(mhex =~= hex.map_values(low)) by {
        if s.len() > 0 && s[0] == 35u8 {
            assert(m[0] == 35u8);
        }
    }
    if hex.len() == 3 || hex.len() == 6 {
        assert(all_hex(hex) <==> all_hex(mhex)) by {
            if all_hex(hex) {
                lemma_hex_value_ignores_case(hex);
            }
            if all_hex(mhex) {
                assert forall|i: int| 0 <= i < hex.len() implies #[trigger] is_hex_digit(
                    hex[i],
                ) by {
                    assert(is_hex_digit(mhex[i]));
                    assert(mhex[i] == ascii_lowercase(hex[i]));
                }
            }
        }
        if all_hex(hex) {
            if hex.len() == 3 {
                let e = expand_short(hex);
                assert(all_hex(e)) by {
                    assert forall|j: int| 0 <= j < 6 implies #[trigger] is_hex_digit(e[j]) by {
                        assert(e[j] == hex[j / 2]);
                    }
                }
                assert(expand_short(mhex) =~= e.map_values(low));
                lemma_hex_value_ignores_case(e);
            } else {
                lemma_hex_value_ignores_case(hex);
            }
        }
    }
}

/// Every byte `0`..`9`, `a`..`f` and `A`..`F` is a digit, worth 0..9,
/// 10..15 and 10..15: six of them, with or without `#`, give the colour
/// whose channels are the three pairs of digits.
pub proof fn lemma_every_hex_digit_accepted(s: Seq<u8>)
    requires
        s.len() == 6,
        forall|i: int|
            0 <= i < 6 ==> (48 <= #[trigger] s[i] <= 57 || 97 <= s[i] <= 102 || 65 <= s[i]
                <= 70),
    ensures
        ({
            let w = |b: u8|
                if b <= 57 {
                    b - 48
                } else if b <= 70 {
                    b - 55
                } else {
                    b - 87
                };
            let c = Color {
                red: (w(s[0]) * 16 + w(s[1])) as u8,
                green: (w(s[2]) * 16 + w(s[3])) as u8,
                blue: (w(s[4]) * 16 + w(s[5])) as u8,
            };
            &&& spec_parse_color(s) == Ok::<Color, ColorError>(c)
            &&& spec_parse_color(seq![35u8] + s) == Ok::<Color, ColorError>(c)
        }),
{
    assert(all_hex(s)) by {
        assert forall|i: int| 0 <= i < s.len() implies #[trigger] is_hex_digit(s[i]) by {
            assert(48 <= s[i] <= 57 || 97 <= s[i] <= 102 || 65 <= s[i] <= 70);
        }
    }
    lemma_long_form_channels(s);
    assert(48 <= s[0] <= 57 || 97 <= s[0] <= 102 || 65 <= s[0] <= 70);
    lemma_hash_is_optional(s);
}

/// A text of three or six bytes (after an optional `#`) with a byte that
/// is not `0`..`9`, `a`..`f` or `A`..`F` is refused as a digit error.
pub proof fn lemma_other_bytes_refused(s: Seq<u8>, k: int)
    requires
        s.len() == 3 || s.len() == 6,
        s[0] != 35u8,
        0 <= k < s.len(),
        !(48 <= s[k] <= 57 || 97 <= s[k] <= 102 || 65 <= s[k] <= 70),
    ensures
        spec_parse_color(s) == Err::<Color, ColorError>(ColorError::Digit),
        spec_parse_color(seq![35u8] + s) == Err::<Color, ColorError>(ColorError::Digit),
{
    assert(!is_hex_digit(s[k]));
    lemma_hash_is_optional(s);
}

} // verus!
