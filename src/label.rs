//! Axis label text.
//!
//! A label is chosen by the decimal exponent of the magnitude it shows
//! (`floor(log10(|x|))`): scientific form for large and for very small
//! magnitudes, "0" below the smallest one shown, and a width-capped fixed form
//! otherwise. The decimal renderings of the magnitude itself (a two-digit
//! mantissa, a six-digit fixed form) come from the caller; this module decides
//! and composes.

use vstd::prelude::*;

verus! {

/// Width of a fixed-form label, sign and decimal point included.
pub const FIXED_LABEL_WIDTH: usize = 5;

/// How a label renders its number.
#[derive(Debug, Clone, Copy, PartialEq, Eq, Structural)]
pub enum LabelForm {
    /// `mantissa` "e" `exponent`.
    Scientific,
    /// The plain text "0".
    Zero,
    /// The fixed-point rendering cut to the label width.
    Fixed,
}

/// The form for a magnitude with decimal exponent `exponent`; `None` stands for
/// the magnitude zero. Magnitudes of at least 10^4 and those in [10^-6, 10^-4)
/// are scientific, those under 10^-6 are zero.
pub open spec fn form_of(exponent: Option<int>) -> LabelForm {
    match exponent {
        None => LabelForm::Zero,
        Some(e) => if e >= 4 || e == -5 || e == -6 {
            LabelForm::Scientific
        } else if e < -6 {
            LabelForm::Zero
        } else {
            LabelForm::Fixed
        },
    }
}

pub open spec fn sign_text(negative: bool) -> Seq<char> {
    if negative {
        seq!['-']
    } else {
        Seq::empty()
    }
}

pub open spec fn digit_char(d: int) -> char {
    if d == 0 {
        '0'
    } else if d == 1 {
        '1'
    } else if d == 2 {
        '2'
    } else if d == 3 {
        '3'
    } else if d == 4 {
        '4'
    } else if d == 5 {
        '5'
    } else if d == 6 {
        '6'
    } else if d == 7 {
        '7'
    } else if d == 8 {
        '8'
    } else {
        '9'
    }
}

/// The decimal digits of a natural number, most significant first.
pub open spec fn digits_of(n: nat) -> Seq<char>
    decreases n,
{
    if n < 10 {
        seq![digit_char(n as int)]
    } else {
        digits_of(n / 10).push(digit_char((n % 10) as int))
    }
}

/// The decimal text of an integer.
pub open spec fn decimal_text(n: int) -> Seq<char> {
    if n < 0 {
        seq!['-'] + digits_of((-n) as nat)
    } else {
        digits_of(n as nat)
    }
}

/// `s` without its trailing '.' characters.
pub open spec fn trim_dots(s: Seq<char>) -> Seq<char>
    decreases s.len(),
{
    if s.len() > 0 && s.last() == '.' {
        trim_dots(s.drop_last())
    } else {
        s
    }
}

/// The first `n` characters of `s`, or all of them when it is shorter.
pub open spec fn take_chars(s: Seq<char>, n: nat) -> Seq<char> {
    if s.len() <= n {
        s
    } else {
        s.subrange(0, n as int)
    }
}

pub open spec fn scientific_text(negative: bool, mantissa: Seq<char>, exponent: int) -> Seq<char> {
    sign_text(negative) + mantissa + seq!['e'] + decimal_text(exponent)
}

/// The first `FIXED_LABEL_WIDTH` characters of the signed fixed rendering,
/// without trailing '.'.
pub open spec fn fixed_text(negative: bool, unsigned_fixed: Seq<char>) -> Seq<char> {
    trim_dots(take_chars(sign_text(negative) + unsigned_fixed, FIXED_LABEL_WIDTH as nat))
}

/// The whole label for a number with the given sign and decimal exponent.
pub open spec fn label_text(
    negative: bool,
    exponent: Option<int>,
    mantissa: Seq<char>,
    unsigned_fixed: Seq<char>,
) -> Seq<char> {
    match form_of(exponent) {
        LabelForm::Scientific => scientific_text(negative, mantissa, exponent.unwrap()),
        LabelForm::Zero => seq!['0'],
        LabelForm::Fixed => fixed_text(negative, unsigned_fixed),
    }
}

pub open spec fn option_int(e: Option<i32>) -> Option<int> {
    match e {
        Some(v) => Some(v as int),
        None => None,
    }
}

/// Chooses the form of a label from the decimal exponent of its magnitude.
pub fn label_form(exponent: Option<i32>) -> (r: LabelForm)
    ensures
        r == form_of(option_int(exponent)),
{
    match exponent {
        None => LabelForm::Zero,
        Some(e) => if e >= 4 || e == -5 || e == -6 {
            LabelForm::Scientific
        } else if e < -6 {
            LabelForm::Zero
        } else {
            LabelForm::Fixed
        },
    }
}


/// Appends the decimal digit `d`.
fn push_digit(s: &mut String, d: u32)
    requires
        d < 10,
    ensures
        final(s)@ == old(s)@.push(digit_char(d as int)),
{
    let all = "0123456789";
    proof {
        reveal_strlit("0123456789");
    }
    let one = all.substring_char(d as usize, d as usize + 1);
    assert(one@ =~= seq![digit_char(d as int)]) by {
        assert(one@.len() == 1);
        assert(one@[0] == all@[d as int]);
    }
    s.append(one);
}

/// Appends the decimal digits of `n`.
fn push_digits(s: &mut String, n: u32)
    ensures
        final(s)@ == old(s)@ + digits_of(n as nat),
    decreases n,
{
    if n < 10 {
        push_digit(s, n);
        assert(final(s)@ =~= old(s)@ + digits_of(n as nat));
    } else {
        push_digits(s, n / 10);
        push_digit(s, n % 10);
        assert(final(s)@ =~= old(s)@ + digits_of(n as nat));
    }
}

/// Appends `"-"` when `negative` holds.
fn push_sign(s: &mut String, negative: bool)
    ensures
        final(s)@ == old(s)@ + sign_text(negative),
{
    if negative {
        let minus = "-";
        proof {
            reveal_strlit("-");
        }
        s.append(minus);
    } else {
        assert(s@ =~= s@ + sign_text(negative));
    }
}

/// Appends the decimal text of `n`.
fn push_decimal(s: &mut String, n: i32)
    ensures
        final(s)@ == old(s)@ + decimal_text(n as int),
{
    if n < 0 {
        push_sign(s, true);
        let magnitude: i64 = -(n as i64);
        push_digits(s, magnitude as u32);
        assert(final(s)@ =~= old(s)@ + decimal_text(n as int));
    } else {
        push_digits(s, n as u32);
    }
}

/// The decimal text of an integer, as in an exponent of a scientific label.
pub fn decimal_string(n: i32) -> (r: String)
    ensures
        r@ == decimal_text(n as int),
{
    let mut s = String::new();
    push_decimal(&mut s, n);
    assert(s@ =~= decimal_text(n as int));
    s
}

/// A scientific label: the sign, the mantissa as rendered by the caller, 'e' and
/// the decimal exponent.
pub fn scientific_label(negative: bool, mantissa: &str, exponent: i32) -> (r: String)
    ensures
        r@ == scientific_text(negative, mantissa@, exponent as int),
{
    let mut s = String::new();
    push_sign(&mut s, negative);
    s.append(mantissa);
    let e = "e";
    proof {
        reveal_strlit("e");
    }
    s.append(e);
    push_decimal(&mut s, exponent);
    assert(s@ =~= scientific_text(negative, mantissa@, exponent as int));
    s
}

/// A fixed-form label: the sign followed by the unsigned fixed-point
/// rendering, cut to the label width, without trailing '.'.
pub fn fixed_label(negative: bool, unsigned_fixed: &str) -> (r: String)
    ensures
        r@ == fixed_text(negative, unsigned_fixed@),
{
    let mut signed = String::new();
    push_sign(&mut signed, negative);
    signed.append(unsigned_fixed);
    let text = signed.as_str();
    let ghost t = text@;
    let ghost kept = take_chars(t, FIXED_LABEL_WIDTH as nat);
    assert(t =~= sign_text(negative) + unsigned_fixed@);
    let len = text.unicode_len();
    let mut n: usize = if len <= FIXED_LABEL_WIDTH {
        len
    } else {
        FIXED_LABEL_WIDTH
    };
    assert(t.subrange(0, n as int) =~= kept);
    while n > 0 && text.get_char(n - 1) == '.'
        invariant
            n <= t.len(),
            t == text@,
            trim_dots(t.subrange(0, n as int)) == trim_dots(kept),
        decreases n,
    {
        assert(t.subrange(0, n as int).drop_last() =~= t.subrange(0, n - 1));
        n = n - 1;
    }
    let r = String::from_str(text.substring_char(0, n));
    assert(r@ =~= trim_dots(kept));
    r
}

/// The label of a number: its sign, the decimal exponent of its magnitude
/// (`None` for zero), and the caller's two decimal renderings of the magnitude,
/// with two fractional digits after scaling by `10^-exponent` and with six
/// fractional digits unscaled.
pub fn compose_label(negative: bool, exponent: Option<i32>, mantissa: &str, unsigned_fixed: &str) -> (r: String)
    ensures
        r@ == label_text(negative, option_int(exponent), mantissa@, unsigned_fixed@),
{
    match label_form(exponent) {
        LabelForm::Scientific => {
            let e = exponent.unwrap();
            scientific_label(negative, mantissa, e)
        },
        LabelForm::Zero => {
            let zero = "0";
            proof {
                reveal_strlit("0");
            }
            let r = String::from_str(zero);
            assert(r@ =~= seq!['0']);
            r
        },
        LabelForm::Fixed => fixed_label(negative, unsigned_fixed),
    }
}

} // verus!
