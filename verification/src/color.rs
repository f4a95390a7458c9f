//! The color converter: hex color strings plus an opacity fraction,
//! turned into an `rgba(r, g, b, a)` text or into four normalized
//! decimal components.
//!
//! Opacity travels as decimal text (`"0"`, `"0.8"`, `"1.0"`), the form a
//! caller obtains by printing its fraction: a single integer digit,
//! optionally followed by `'.'` and fraction digits, with a value of at
//! most one. All arithmetic on it here is exact.

use vstd::prelude::*;

use crate::digits::{
    append_dec, append_padded, dec_rep, digit_val, is_digit, is_digit_exec, pad_digits,
    trim_trailing_zeros, trim_zeros,
};
use crate::text::{append_str, chars_of, string_of};

verus! {

/// Why a conversion was refused.
#[derive(Clone, Copy, Debug, PartialEq, Eq, Structural)]
pub enum ColorError {
    /// The hex color does not have the form `#RGB` or `#RRGGBB`.
    InvalidFormat,
    /// The opacity is not a decimal fraction in the closed interval
    /// from zero to one.
    OutOfRange,
}

impl ColorError {
    /// A short message naming the error, for callers that report it.
    pub fn text(&self) -> (s: String)
        ensures
            *self == ColorError::InvalidFormat ==> s@
                == "Invalid hex code format. Must be in the format #RRGGBB or #RGB."@,
            *self == ColorError::OutOfRange ==> s@ == "Opacity must be between 0 and 1."@,
    {
        match self {
            ColorError::InvalidFormat => String::from_str(
                "Invalid hex code format. Must be in the format #RRGGBB or #RGB.",
            ),
            ColorError::OutOfRange => String::from_str("Opacity must be between 0 and 1."),
        }
    }
}

/// A hex digit, upper or lower case.
pub open spec fn is_hex_digit(c: char) -> bool {
    ||| '0' as u32 <= c as u32 && c as u32 <= '9' as u32
    ||| 'a' as u32 <= c as u32 && c as u32 <= 'f' as u32
    ||| 'A' as u32 <= c as u32 && c as u32 <= 'F' as u32
}

/// The numeric value of a hex digit.
pub open spec fn hex_val(c: char) -> int {
    if '0' as u32 <= c as u32 && c as u32 <= '9' as u32 {
        c as u32 - '0' as u32
    } else if 'a' as u32 <= c as u32 && c as u32 <= 'f' as u32 {
        c as u32 - 'a' as u32 + 10
    } else {
        c as u32 - 'A' as u32 + 10
    }
}

/// A valid hex color: `#` followed by exactly three or exactly six hex
/// digits.
pub open spec fn valid_hex(s: Seq<char>) -> bool {
    &&& (s.len() == 4 || s.len() == 7)
    &&& s[0] == '#'
    &&& forall|i: int| 1 <= i < s.len() ==> is_hex_digit(#[trigger] s[i])
}

/// The red byte of a valid hex color: the first digit pair of a six-digit
/// color, or the first digit duplicated for a three-digit one.
pub open spec fn hex_red(s: Seq<char>) -> int {
    if s.len() == 7 {
        16 * hex_val(s[1]) + hex_val(s[2])
    } else {
        16 * hex_val(s[1]) + hex_val(s[1])
    }
}

/// The green byte of a valid hex color.
pub open spec fn hex_green(s: Seq<char>) -> int {
    if s.len() == 7 {
        16 * hex_val(s[3]) + hex_val(s[4])
    } else {
        16 * hex_val(s[2]) + hex_val(s[2])
    }
}

/// The blue byte of a valid hex color.
pub open spec fn hex_blue(s: Seq<char>) -> int {
    if s.len() == 7 {
        16 * hex_val(s[5]) + hex_val(s[6])
    } else {
        16 * hex_val(s[3]) + hex_val(s[3])
    }
}

/// The six-digit form of a three-digit hex color: each nibble duplicated.
pub open spec fn expand_hex(s: Seq<char>) -> Seq<char> {
    seq!['#', s[1], s[1], s[2], s[2], s[3], s[3]]
}

/// The shape of opacity text: one integer digit, optionally followed by
/// `'.'` and at least one fraction digit.
pub open spec fn opacity_shape(s: Seq<char>) -> bool {
    &&& s.len() >= 1
    &&& is_digit(s[0])
    &&& (s.len() == 1 || (s.len() >= 3 && s[1] == '.' && forall|i: int|
        2 <= i < s.len() ==> is_digit(#[trigger] s[i])))
}

/// Every character of `s` is `'0'`.
pub open spec fn all_zeros(s: Seq<char>) -> bool {
    forall|i: int| 0 <= i < s.len() ==> s[i] == '0'
}

/// A valid opacity text: well-shaped, with a value of at most one.
pub open spec fn valid_opacity(s: Seq<char>) -> bool {
    &&& opacity_shape(s)
    &&& (s[0] == '0' || (s[0] == '1' && (s.len() == 1 || all_zeros(s.subrange(2, s.len() as int)))))
}

/// The opacity multiplied by one hundred and truncated to an integer:
/// the integer digit scaled, plus the first two fraction digits.
pub open spec fn opacity_percent(s: Seq<char>) -> int {
    let d1 = if s.len() >= 3 {
        digit_val(s[2])
    } else {
        0
    };
    let d2 = if s.len() >= 4 {
        digit_val(s[3])
    } else {
        0
    };
    100 * digit_val(s[0]) + 10 * d1 + d2
}

/// The text `rgba(r, g, b, a)` with the three bytes in decimal and the
/// opacity text as given.
pub open spec fn rgba_text(r: int, g: int, b: int, opacity: Seq<char>) -> Seq<char> {
    "rgba("@ + dec_rep(r) + ", "@ + dec_rep(g) + ", "@ + dec_rep(b) + ", "@ + opacity + ")"@
}

/// The rgba text of a valid hex color and opacity text.
pub open spec fn hex_rgba_text(hex: Seq<char>, opacity: Seq<char>) -> Seq<char> {
    rgba_text(hex_red(hex), hex_green(hex), hex_blue(hex), opacity)
}

/// One billionth steps of a color byte scaled into the unit interval:
/// the byte times ten to the ninth, divided by 255 and truncated.
pub open spec fn norm_num(b: int) -> int {
    b * 1000000000 / 255
}

/// The decimal text of a color byte divided by 255: `"0"` and `"1"` at
/// the ends of the range, otherwise `"0."` followed by nine truncated
/// fraction digits with trailing zeros removed.
pub open spec fn norm_text(b: int) -> Seq<char> {
    if b == 0 {
        "0"@
    } else if b == 255 {
        "1"@
    } else {
        "0."@ + trim_zeros(pad_digits(norm_num(b), 9))
    }
}

/// The four normalized components of a color: each byte divided by 255
/// as decimal text, and the opacity text unchanged.
#[derive(Debug)]
pub struct NormalizedRgba {
    /// Red, in `[0, 1]`.
    pub red: String,
    /// Green, in `[0, 1]`.
    pub green: String,
    /// Blue, in `[0, 1]`.
    pub blue: String,
    /// The opacity text, as given.
    pub alpha: String,
}

fn is_hex_digit_exec(c: char) -> (b: bool)
    ensures
        b == is_hex_digit(c),
{
    let u = c as u32;
    ('0' as u32 <= u && u <= '9' as u32) || ('a' as u32 <= u && u <= 'f' as u32) || ('A' as u32
        <= u && u <= 'F' as u32)
}

fn hex_val_exec(c: char) -> (v: u32)
    requires
        is_hex_digit(c),
    ensures
        v == hex_val(c),
        v <= 15,
{
    let u = c as u32;
    if '0' as u32 <= u && u <= '9' as u32 {
        u - '0' as u32
    } else if 'a' as u32 <= u && u <= 'f' as u32 {
        u - 'a' as u32 + 10
    } else {
        u - 'A' as u32 + 10
    }
}

/// Whether `v` is a valid hex color.
fn check_hex(v: &Vec<char>) -> (b: bool)
    ensures
        b == valid_hex(v@),
{
    if v.len() != 4 && v.len() != 7 {
        return false;
    }
    if v[0] != '#' {
        return false;
    }
    let mut i: usize = 1;
    while i < v.len()
        invariant
            1 <= i <= v@.len(),
            forall|j: int| 1 <= j < i ==> is_hex_digit(#[trigger] v@[j]),
        decreases v@.len() - i,
    {
        if !is_hex_digit_exec(v[i]) {
            return false;
        }
        i += 1;
    }
    true
}

/// Whether `v` is a valid opacity text.
fn check_opacity(v: &Vec<char>) -> (b: bool)
    ensures
        b == valid_opacity(v@),
{
    if v.len() == 0 {
        return false;
    }
    if !is_digit_exec(v[0]) {
        return false;
    }
    if v.len() == 1 {
        return v[0] == '0' || v[0] == '1';
    }
    if v.len() == 2 || v[1] != '.' {
        return false;
    }
    let mut i: usize = 2;
    while i < v.len()
        invariant
            2 <= i <= v@.len(),
            v@.len() >= 3,
            is_digit(v@[0]),
            v@[1] == '.',
            forall|j: int| 2 <= j < i ==> is_digit(#[trigger] v@[j]),
        decreases v@.len() - i,
    {
        if !is_digit_exec(v[i]) {
            return false;
        }
        i += 1;
    }
    if v[0] == '0' {
        return true;
    }
    if v[0] != '1' {
        return false;
    }
    let mut k: usize = 2;
    while k < v.len()
        invariant
            2 <= k <= v@.len(),
            opacity_shape(v@),
            v@[0] == '1',
            v@.len() >= 3,
            forall|j: int| 2 <= j < k ==> v@[j] == '0',
        decreases v@.len() - k,
    {
        if v[k] != '0' {
            proof {
                let sub = v@.subrange(2, v@.len() as int);
                assert(sub[k - 2] == v@[k as int]);
                assert(!all_zeros(sub)) by {
                    assert(sub[k - 2] != '0');
                }
            }
            return false;
        }
        k += 1;
    }
    proof {
        assert forall|j: int| 0 <= j < v@.subrange(2, v@.len() as int).len() implies v@.subrange(
            2,
            v@.len() as int,
        )[j] == '0' by {
            assert(v@[j + 2] == '0');
        }
    }
    true
}

/// Whether the text is a valid hex color.
pub fn hex_is_valid(hex_code: &str) -> (b: bool)
    ensures
        b == valid_hex(hex_code@),
{
    let v = chars_of(hex_code);
    check_hex(&v)
}

/// Whether the text is a valid opacity.
pub fn opacity_is_valid(opacity: &str) -> (b: bool)
    ensures
        b == valid_opacity(opacity@),
{
    let v = chars_of(opacity);
    check_opacity(&v)
}

/// The three bytes of a valid hex color.
fn hex_bytes(v: &Vec<char>) -> (rgb: (u32, u32, u32))
    requires
        valid_hex(v@),
    ensures
        rgb.0 == hex_red(v@),
        rgb.1 == hex_green(v@),
        rgb.2 == hex_blue(v@),
        rgb.0 <= 255 && rgb.1 <= 255 && rgb.2 <= 255,
{
    if v.len() == 7 {
        let r = 16 * hex_val_exec(v[1]) + hex_val_exec(v[2]);
        let g = 16 * hex_val_exec(v[3]) + hex_val_exec(v[4]);
        let b = 16 * hex_val_exec(v[5]) + hex_val_exec(v[6]);
        (r, g, b)
    } else {
        let r = 17 * hex_val_exec(v[1]);
        let g = 17 * hex_val_exec(v[2]);
        let b = 17 * hex_val_exec(v[3]);
        (r, g, b)
    }
}

/// The `rgba(r, g, b, a)` text of a hex color and an opacity text.
///
/// Checks the hex color first, as the conversion the caller sees fail
/// first: a malformed hex color answers `InvalidFormat` even when the
/// opacity is also bad.
pub fn hex_to_rgba(hex_code: &str, opacity: &str) -> (r: Result<String, ColorError>)
    ensures
        r is Ok <==> valid_hex(hex_code@) && valid_opacity(opacity@),
        !valid_hex(hex_code@) ==> r == Result::<String, ColorError>::Err(ColorError::InvalidFormat),
        valid_hex(hex_code@) && !valid_opacity(opacity@) ==> r == Result::<
            String,
            ColorError,
        >::Err(ColorError::OutOfRange),
        r matches Ok(s) ==> s@ == hex_rgba_text(hex_code@, opacity@),
{
    let hv = chars_of(hex_code);
    if !check_hex(&hv) {
        return Err(ColorError::InvalidFormat);
    }
    let ov = chars_of(opacity);
    if !check_opacity(&ov) {
        return Err(ColorError::OutOfRange);
    }
    let (red, green, blue) = hex_bytes(&hv);
    let mut out: Vec<char> = Vec::new();
    append_str(&mut out, "rgba(");
    append_dec(&mut out, red as u64);
    append_str(&mut out, ", ");
    append_dec(&mut out, green as u64);
    append_str(&mut out, ", ");
    append_dec(&mut out, blue as u64);
    append_str(&mut out, ", ");
    proof {
        assert(out@ =~= "rgba("@ + dec_rep(hex_red(hv@)) + ", "@ + dec_rep(hex_green(hv@)) + ", "@
            + dec_rep(hex_blue(hv@)) + ", "@ + ov@.subrange(0, 0));
    }
    let mut i: usize = 0;
    while i < ov.len()
        invariant
            i <= ov@.len(),
            out@ == "rgba("@ + dec_rep(hex_red(hv@)) + ", "@ + dec_rep(hex_green(hv@)) + ", "@
                + dec_rep(hex_blue(hv@)) + ", "@ + ov@.subrange(0, i as int),
        decreases ov@.len() - i,
    {
        out.push(ov[i]);
        i += 1;
        proof {
            assert(out@ =~= "rgba("@ + dec_rep(hex_red(hv@)) + ", "@ + dec_rep(hex_green(hv@))
                + ", "@ + dec_rep(hex_blue(hv@)) + ", "@ + ov@.subrange(0, i as int));
        }
    }
    append_str(&mut out, ")");
    proof {
        assert(ov@.subrange(0, ov@.len() as int) =~= ov@);
        assert(out@ =~= hex_rgba_text(hex_code@, opacity@));
    }
    Ok(string_of(&out))
}

/// The normalized component text of one color byte.
fn norm_component(b: u32) -> (s: String)
    requires
        b <= 255,
    ensures
        s@ == norm_text(b as int),
{
    if b == 0 {
        let mut v: Vec<char> = Vec::new();
        append_str(&mut v, "0");
        proof {
            assert(v@ =~= norm_text(b as int));
        }
        string_of(&v)
    } else if b == 255 {
        let mut v: Vec<char> = Vec::new();
        append_str(&mut v, "1");
        proof {
            assert(v@ =~= norm_text(b as int));
        }
        string_of(&v)
    } else {
        let n: u64 = (b as u64) * 1000000000 / 255;
        let mut frac: Vec<char> = Vec::new();
        append_padded(&mut frac, n, 9);
        trim_trailing_zeros(&mut frac);
        let mut v: Vec<char> = Vec::new();
        append_str(&mut v, "0.");
        proof {
            assert(v@ =~= "0."@ + frac@.subrange(0, 0));
        }
        let mut i: usize = 0;
        while i < frac.len()
            invariant
                i <= frac@.len(),
                v@ == "0."@ + frac@.subrange(0, i as int),
            decreases frac@.len() - i,
        {
            v.push(frac[i]);
            i += 1;
            proof {
                assert(v@ =~= "0."@ + frac@.subrange(0, i as int));
            }
        }
        proof {
            assert(frac@.subrange(0, frac@.len() as int) =~= frac@);
            assert(v@ =~= norm_text(b as int));
        }
        string_of(&v)
    }
}

/// The four normalized components of a hex color and an opacity text:
/// each byte divided by 255 and truncated to nine decimal digits, and
/// the opacity text passed through unchanged.
///
/// Validates exactly as `hex_to_rgba` does.
pub fn hex_to_normalized_rgba(hex_code: &str, opacity: &str) -> (r: Result<
    NormalizedRgba,
    ColorError,
>)
    ensures
        r is Ok <==> valid_hex(hex_code@) && valid_opacity(opacity@),
        !valid_hex(hex_code@) ==> r == Result::<NormalizedRgba, ColorError>::Err(
            ColorError::InvalidFormat,
        ),
        valid_hex(hex_code@) && !valid_opacity(opacity@) ==> r == Result::<
            NormalizedRgba,
            ColorError,
        >::Err(ColorError::OutOfRange),
        r matches Ok(n) ==> n.red@ == norm_text(hex_red(hex_code@)) && n.green@ == norm_text(
            hex_green(hex_code@),
        ) && n.blue@ == norm_text(hex_blue(hex_code@)) && n.alpha@ == opacity@,
{
    let hv = chars_of(hex_code);
    if !check_hex(&hv) {
        return Err(ColorError::InvalidFormat);
    }
    let ov = chars_of(opacity);
    if !check_opacity(&ov) {
        return Err(ColorError::OutOfRange);
    }
    let (red, green, blue) = hex_bytes(&hv);
    Ok(
        NormalizedRgba {
            red: norm_component(red),
            green: norm_component(green),
            blue: norm_component(blue),
            alpha: string_of(&ov),
        },
    )
}

/// The opacity as a whole percentage, truncated: the numeric policy for
/// `.rc` menu files.
pub fn opacity_to_percent(v: &Vec<char>) -> (p: u32)
    requires
        valid_opacity(v@),
    ensures
        p == opacity_percent(v@),
        p <= 100,
{
    proof {
        if v@[0] == '1' && v@.len() >= 3 {
            assert(v@.subrange(2, v@.len() as int)[0] == v@[2]);
            if v@.len() >= 4 {
                assert(v@.subrange(2, v@.len() as int)[1] == v@[3]);
            }
        }
    }
    let d0 = v[0] as u32 - '0' as u32;
    let d1: u32 = if v.len() >= 3 {
        v[2] as u32 - '0' as u32
    } else {
        0
    };
    let d2: u32 = if v.len() >= 4 {
        v[3] as u32 - '0' as u32
    } else {
        0
    };
    100 * d0 + 10 * d1 + d2
}


/// Law: for a valid six-digit hex color, the rgba text carries exactly
/// the three byte values parsed from the digit pairs, and the opacity
/// text as given.
pub proof fn lemma_rgba_text_six_digit(hex: Seq<char>, opacity: Seq<char>)
    requires
        valid_hex(hex),
        hex.len() == 7,
    ensures
        hex_rgba_text(hex, opacity) == rgba_text(
            16 * hex_val(hex[1]) + hex_val(hex[2]),
            16 * hex_val(hex[3]) + hex_val(hex[4]),
            16 * hex_val(hex[5]) + hex_val(hex[6]),
            opacity,
        ),
{
}

/// Law: a three-digit hex color is a valid color and converts exactly as
/// its six-digit expansion with every nibble duplicated.
pub proof fn lemma_three_digit_expands(hex: Seq<char>, opacity: Seq<char>)
    requires
        valid_hex(hex),
        hex.len() == 4,
    ensures
        valid_hex(expand_hex(hex)),
        hex_rgba_text(hex, opacity) == hex_rgba_text(expand_hex(hex), opacity),
{
    let e = expand_hex(hex);
    assert(is_hex_digit(hex[1]) && is_hex_digit(hex[2]) && is_hex_digit(hex[3]));
    assert(e.len() == 7);
    assert(e[0] == '#');
    assert forall|i: int| 1 <= i < e.len() implies is_hex_digit(#[trigger] e[i]) by {
        assert(e[1] == hex[1] && e[2] == hex[1] && e[3] == hex[2] && e[4] == hex[2] && e[5]
            == hex[3] && e[6] == hex[3]);
    }
    assert(hex_red(e) == hex_red(hex));
    assert(hex_green(e) == hex_green(hex));
    assert(hex_blue(e) == hex_blue(hex));
}

/// Law: the truncated normalized numerator is exact to within one step:
/// scaled back by 255, it brackets the exact product of the byte and one
/// billion.
pub proof fn lemma_norm_num_accuracy(b: int)
    requires
        0 <= b <= 255,
    ensures
        255 * norm_num(b) <= b * 1000000000,
        b * 1000000000 < 255 * (norm_num(b) + 1),
{
    let x = b * 1000000000;
    vstd::arithmetic::div_mod::lemma_fundamental_div_mod(x, 255);
    vstd::arithmetic::div_mod::lemma_mod_division_less_than_divisor(x, 255);
}

/// Law: a valid opacity yields a truncated percentage between zero and
/// one hundred, one hundred exactly on an opacity of one.
pub proof fn lemma_opacity_percent_range(s: Seq<char>)
    requires
        valid_opacity(s),
    ensures
        0 <= opacity_percent(s) <= 100,
{
    if s[0] == '1' && s.len() >= 3 {
        assert(s.subrange(2, s.len() as int)[0] == s[2]);
        if s.len() >= 4 {
            assert(s.subrange(2, s.len() as int)[1] == s[3]);
        }
    }
}

} // verus!
