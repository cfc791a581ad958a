//! Numeric values of the language: IEEE-754 binary64 numbers, carried as
//! their bit patterns so that every decision about them is verified, while
//! the floating-point operations themselves are performed by the
//! `rustc_apfloat` software implementation behind trusted wrappers.

use vstd::prelude::*;
use rustc_apfloat::Float;
use rustc_apfloat::ieee::Double;
use crate::string_util::push_char;
use crate::string_util::str_eq;

verus! {

/// A numeric value: the bit pattern of an IEEE-754 binary64 number.
#[derive(Clone, Copy, Debug, PartialEq, Eq, Structural)]
pub struct Number {
    pub bits: u64,
}

/// The bit pattern of positive zero.
pub const ZERO_BITS: u64 = 0;

pub open spec fn is_digit_char(c: char) -> bool {
    '0' <= c && c <= '9'
}

pub open spec fn all_digit_chars(s: Seq<char>) -> bool {
    forall|i: int| 0 <= i < s.len() ==> is_digit_char(#[trigger] s[i])
}

/// The shape of a numeric lexeme produced by the scanner: a run of digits,
/// optionally followed by a dot and at least one more digit.
pub open spec fn is_number_lexeme(s: Seq<char>) -> bool {
    ||| (s.len() >= 1 && all_digit_chars(s))
    ||| (exists|k: int|
        1 <= k < s.len() - 1 && #[trigger] s[k] == '.' && all_digit_chars(s.subrange(0, k))
            && all_digit_chars(s.subrange(k + 1, s.len() as int)))
}

/// The binary64 value, if any, that `rustc_apfloat` reads from a piece of
/// text, rounding to nearest with ties to even.
pub uninterp spec fn double_of_text(s: Seq<char>) -> Option<u64>;

/// The decimal rendering that `rustc_apfloat` gives a binary64 value when
/// asked for the given number of significant digits.
pub uninterp spec fn double_text(bits: u64, digits: int) -> Seq<char>;

/// The binary64 sum of two values, rounded to nearest, ties to even.
pub uninterp spec fn double_add(a: u64, b: u64) -> u64;

/// The binary64 difference of two values, rounded to nearest, ties to even.
pub uninterp spec fn double_sub(a: u64, b: u64) -> u64;

/// The binary64 product of two values, rounded to nearest, ties to even.
pub uninterp spec fn double_mul(a: u64, b: u64) -> u64;

/// The binary64 quotient of two values, rounded to nearest, ties to even.
pub uninterp spec fn double_div(a: u64, b: u64) -> u64;

/// The binary64 value with the sign flipped.
pub uninterp spec fn double_neg(a: u64) -> u64;

/// IEEE-754 equality of two binary64 values (zeros of either sign are
/// equal, nothing is equal to a NaN).
pub uninterp spec fn double_eq(a: u64, b: u64) -> bool;

/// The IEEE-754 ordering test `a < b` on binary64 values.
pub uninterp spec fn double_lt(a: u64, b: u64) -> bool;

/// The IEEE-754 ordering test `a <= b` on binary64 values.
pub uninterp spec fn double_le(a: u64, b: u64) -> bool;

/// Relies on `rustc_apfloat::ieee::Double`'s `FromStr`, which reads a
/// decimal string as a binary64 value, rounding to nearest with ties to
/// even, and fails only on text that does not have the shape of a number;
/// a digit run with an optional fraction is always accepted.
#[verifier::external_body]
pub fn parse_double(text: &str) -> (r: Option<u64>)
    ensures
        r == double_of_text(text@),
        is_number_lexeme(text@) ==> r is Some,
{
    match text.parse::<Double>() {
        Ok(value) => Some(value.to_bits() as u64),
        Err(_) => None,
    }
}

/// Relies on `rustc_apfloat::ieee::Double`'s `Display`, which renders the
/// value in decimal with the requested number of significant digits,
/// falling back to scientific notation for extreme exponents.
#[verifier::external_body]
fn format_double(bits: u64, digits: usize) -> (r: String)
    requires
        digits >= 1,
    ensures
        r@ == double_text(bits, digits as int),
{
    format!("{:.*}", digits, Double::from_bits(bits as u128))
}

/// Relies on `rustc_apfloat::ieee::Double` addition, rounded to nearest,
/// ties to even.
#[verifier::external_body]
pub fn add_double(a: u64, b: u64) -> (r: u64)
    ensures
        r == double_add(a, b),
{
    (Double::from_bits(a as u128) + Double::from_bits(b as u128)).value.to_bits() as u64
}

/// Relies on `rustc_apfloat::ieee::Double` subtraction, rounded to nearest,
/// ties to even.
#[verifier::external_body]
pub fn sub_double(a: u64, b: u64) -> (r: u64)
    ensures
        r == double_sub(a, b),
{
    (Double::from_bits(a as u128) - Double::from_bits(b as u128)).value.to_bits() as u64
}

/// Relies on `rustc_apfloat::ieee::Double` multiplication, rounded to
/// nearest, ties to even.
#[verifier::external_body]
pub fn mul_double(a: u64, b: u64) -> (r: u64)
    ensures
        r == double_mul(a, b),
{
    (Double::from_bits(a as u128) * Double::from_bits(b as u128)).value.to_bits() as u64
}

/// Relies on `rustc_apfloat::ieee::Double` division, rounded to nearest,
/// ties to even; division by zero gives an infinity or a NaN, as IEEE-754
/// prescribes, never a failure.
#[verifier::external_body]
pub fn div_double(a: u64, b: u64) -> (r: u64)
    ensures
        r == double_div(a, b),
{
    (Double::from_bits(a as u128) / Double::from_bits(b as u128)).value.to_bits() as u64
}

/// Relies on `rustc_apfloat::ieee::Double` negation, which flips the sign
/// bit.
#[verifier::external_body]
pub fn neg_double(a: u64) -> (r: u64)
    ensures
        r == double_neg(a),
{
    (-Double::from_bits(a as u128)).to_bits() as u64
}

/// Relies on `rustc_apfloat::ieee::Double`'s `PartialEq`: IEEE-754
/// equality, under which zeros of either sign are equal and a NaN equals
/// nothing.
#[verifier::external_body]
pub fn eq_double(a: u64, b: u64) -> (r: bool)
    ensures
        r == double_eq(a, b),
{
    Double::from_bits(a as u128) == Double::from_bits(b as u128)
}

/// Relies on `rustc_apfloat::ieee::Double`'s `PartialOrd`: the IEEE-754
/// ordering, under which a comparison with a NaN is false.
#[verifier::external_body]
pub fn lt_double(a: u64, b: u64) -> (r: bool)
    ensures
        r == double_lt(a, b),
{
    Double::from_bits(a as u128) < Double::from_bits(b as u128)
}

/// Relies on `rustc_apfloat::ieee::Double`'s `PartialOrd`: the IEEE-754
/// ordering, under which a comparison with a NaN is false.
#[verifier::external_body]
pub fn le_double(a: u64, b: u64) -> (r: bool)
    ensures
        r == double_le(a, b),
{
    Double::from_bits(a as u128) <= Double::from_bits(b as u128)
}

/// The first index at or after `i` holding the exponent marker, or the
/// end of the text.
pub open spec fn exp_marker_index(s: Seq<char>, i: int) -> int
    decreases s.len() - i,
{
    if 0 <= i < s.len() && s[i] != 'E' {
        exp_marker_index(s, i + 1)
    } else if 0 <= i < s.len() {
        i
    } else {
        s.len() as int
    }
}

/// The value of a run of decimal digits.
pub open spec fn spec_dec_value(s: Seq<char>) -> int
    decreases s.len(),
{
    if s.len() == 0 {
        0
    } else {
        spec_dec_value(s.drop_last()) * 10 + (s.last() as int - '0' as int)
    }
}

/// A run of zero characters.
pub open spec fn spec_zeroes(n: int) -> Seq<char> {
    Seq::new(n as nat, |i: int| '0')
}

/// Whether a rendering without its sign has the scientific shape the
/// formatter produces: one digit, a dot and a fraction, the exponent
/// marker, a sign, and one to three exponent digits.
pub open spec fn sci_shaped(s: Seq<char>) -> bool {
    let ei = exp_marker_index(s, 0);
    &&& 3 <= ei < s.len() - 2
    &&& s.len() - (ei + 2) <= 3
    &&& is_digit_char(s[0])
    &&& s[1] == '.'
    &&& all_digit_chars(s.subrange(2, ei))
    &&& (s[ei + 1] == '+' || s[ei + 1] == '-')
    &&& all_digit_chars(s.subrange(ei + 2, s.len() as int))
}

/// The significant digits of a scientific-shaped rendering: the leading
/// digit and the fraction, except that a lone zero fraction is the
/// formatter's filler and carries no digit.
pub open spec fn sci_digits(s: Seq<char>) -> Seq<char> {
    let ei = exp_marker_index(s, 0);
    if s.subrange(2, ei) == seq!['0'] {
        seq![s[0]]
    } else {
        seq![s[0]] + s.subrange(2, ei)
    }
}

/// The signed exponent of a scientific-shaped rendering.
pub open spec fn sci_exponent(s: Seq<char>) -> int {
    let ei = exp_marker_index(s, 0);
    let magnitude = spec_dec_value(s.subrange(ei + 2, s.len() as int));
    if s[ei + 1] == '-' {
        -magnitude
    } else {
        magnitude
    }
}

/// Positional decimal notation for significant digits standing at a
/// decimal exponent.
pub open spec fn spec_positional(digits: Seq<char>, exp: int) -> Seq<char> {
    if exp >= 0 {
        if digits.len() <= exp + 1 {
            digits + spec_zeroes(exp + 1 - digits.len())
        } else {
            digits.subrange(0, exp + 1) + seq!['.'] + digits.subrange(
                exp + 1,
                digits.len() as int,
            )
        }
    } else {
        seq!['0', '.'] + spec_zeroes(-exp - 1) + digits
    }
}

/// A scientific rendering rewritten in positional decimal notation; any
/// other text is kept as it is.
pub open spec fn spec_expand_sci(s: Seq<char>) -> Seq<char> {
    let signed = s.len() > 0 && s[0] == '-';
    let body = if signed {
        s.subrange(1, s.len() as int)
    } else {
        s
    };
    if exp_marker_index(body, 0) == body.len() {
        s
    } else if sci_shaped(body) {
        let expanded = spec_positional(sci_digits(body), sci_exponent(body));
        if signed {
            seq!['-'] + expanded
        } else {
            expanded
        }
    } else {
        s
    }
}

/// Renderings of the infinities are folded to the customary lower-case
/// spelling; a scientific rendering is rewritten in positional decimal
/// notation; everything else is kept as it is.
pub open spec fn spec_adjust_text(s: Seq<char>) -> Seq<char> {
    if s == "+Inf"@ {
        "inf"@
    } else if s == "-Inf"@ {
        "-inf"@
    } else {
        spec_expand_sci(s)
    }
}

/// The rendering of a value with the fewest significant digits, at most
/// seventeen, that reads back as the same value.
pub open spec fn spec_probe_text(bits: u64, digits: int) -> Seq<char>
    decreases 17 - digits,
{
    if digits >= 17 {
        spec_adjust_text(double_text(bits, 17))
    } else if double_of_text(double_text(bits, digits)) == Some(bits) {
        spec_adjust_text(double_text(bits, digits))
    } else {
        spec_probe_text(bits, digits + 1)
    }
}

/// The display text of a numeric value.
pub open spec fn spec_value_text(bits: u64) -> Seq<char> {
    spec_probe_text(bits, 1)
}

pub open spec fn plain_integer_chars(s: Seq<char>) -> bool {
    forall|i: int| 0 <= i < s.len() ==> (is_digit_char(#[trigger] s[i]) || s[i] == '-')
}

/// The literal text of a numeric value: its display text, with `.0`
/// appended when the display text is a bare integer.
pub open spec fn spec_literal_text(bits: u64) -> Seq<char> {
    if plain_integer_chars(spec_value_text(bits)) {
        spec_value_text(bits) + ".0"@
    } else {
        spec_value_text(bits)
    }
}

fn digit_value(c: char) -> (r: usize)
    requires
        is_digit_char(c),
    ensures
        r == c as int - '0' as int,
        r <= 9,
{
    (c as u32 - '0' as u32) as usize
}

fn push_zeroes(out: &mut String, count: usize)
    ensures
        final(out)@ == old(out)@ + spec_zeroes(count as int),
{
    let mut k: usize = 0;
    while k < count
        invariant
            0 <= k <= count,
            out@ == old(out)@ + spec_zeroes(k as int),
        decreases count - k,
    {
        push_char(out, '0');
        proof {
            assert(out@ =~= old(out)@ + spec_zeroes(k + 1int));
        }
        k += 1;
    }
}

#[verifier::rlimit(100)]
#[verifier::loop_isolation(false)]
fn expand_sci(s: String) -> (r: String)
    ensures
        r@ == spec_expand_sci(s@),
{
    let n = s.as_str().unicode_len();
    let signed = n > 0 && s.as_str().get_char(0) == '-';
    let body: &str = if signed {
        s.as_str().substring_char(1, n)
    } else {
        s.as_str()
    };
    let ghost bv = body@;
    proof {
        if signed {
            assert(bv =~= s@.subrange(1, s@.len() as int));
        }
    }
    let bn = body.unicode_len();

    let mut ei: usize = 0;
    while ei < bn && body.get_char(ei) != 'E'
        invariant
            bn == bv.len(),
            body@ == bv,
            0 <= ei <= bn,
            exp_marker_index(bv, ei as int) == exp_marker_index(bv, 0),
        decreases bn - ei,
    {
        ei += 1;
    }
    proof {
        assert(exp_marker_index(bv, 0) == ei);
    }
    if ei >= bn {
        return s;
    }
    if !(3 <= ei && bn >= 3 && ei < bn - 2 && bn - ei - 2 <= 3) {
        return s;
    }
    let c0 = body.get_char(0);
    if !('0' <= c0 && c0 <= '9') {
        return s;
    }
    if body.get_char(1) != '.' {
        return s;
    }
    let mut j: usize = 2;
    while j < ei
        invariant
            bn == bv.len(),
            body@ == bv,
            2 <= j <= ei < bn,
            forall|k: int| 2 <= k < j ==> is_digit_char(#[trigger] bv[k]),
        decreases ei - j,
    {
        let c = body.get_char(j);
        if !('0' <= c && c <= '9') {
            proof {
                assert(!all_digit_chars(bv.subrange(2, ei as int))) by {
                    assert(bv.subrange(2, ei as int)[j - 2] == bv[j as int]);
                }
            }
            return s;
        }
        j += 1;
    }
    proof {
        assert(all_digit_chars(bv.subrange(2, ei as int))) by {
            assert forall|k: int| 0 <= k < ei - 2 implies is_digit_char(
                #[trigger] bv.subrange(2, ei as int)[k],
            ) by {
                assert(bv.subrange(2, ei as int)[k] == bv[k + 2]);
            }
        }
    }
    let sign_char = body.get_char(ei + 1);
    if !(sign_char == '+' || sign_char == '-') {
        return s;
    }
    let mut j2: usize = ei + 2;
    while j2 < bn
        invariant
            bn == bv.len(),
            body@ == bv,
            ei + 2 <= j2 <= bn,
            forall|k: int| ei + 2 <= k < j2 ==> is_digit_char(#[trigger] bv[k]),
        decreases bn - j2,
    {
        let c = body.get_char(j2);
        if !('0' <= c && c <= '9') {
            proof {
                assert(!all_digit_chars(bv.subrange(ei + 2, bn as int))) by {
                    assert(bv.subrange(ei + 2, bn as int)[j2 - (ei + 2)] == bv[j2 as int]);
                }
            }
            return s;
        }
        j2 += 1;
    }
    proof {
        assert(all_digit_chars(bv.subrange(ei + 2, bn as int))) by {
            assert forall|k: int| 0 <= k < bn - (ei + 2) implies is_digit_char(
                #[trigger] bv.subrange(ei + 2, bn as int)[k],
            ) by {
                assert(bv.subrange(ei + 2, bn as int)[k] == bv[k + ei + 2]);
            }
        }
        assert(sci_shaped(bv));
    }

    // The exponent holds at most three digits, so its magnitude fits
    // comfortably.
    let mut magnitude = digit_value(body.get_char(ei + 2));
    proof {
        reveal_with_fuel(spec_dec_value, 3);
        assert(bv.subrange(ei + 2, ei + 3int).drop_last() =~= Seq::<char>::empty());
        assert(bv.subrange(ei + 2, ei + 3int).last() == bv[ei + 2]);
        assert(magnitude == spec_dec_value(bv.subrange(ei + 2, ei + 3int)));
    }
    if ei + 3 < bn {
        magnitude = magnitude * 10 + digit_value(body.get_char(ei + 3));
        proof {
            reveal_with_fuel(spec_dec_value, 3);
            assert(bv.subrange(ei + 2, ei + 4int).drop_last() =~= bv.subrange(ei + 2, ei + 3int));
            assert(bv.subrange(ei + 2, ei + 4int).last() == bv[ei + 3]);
            assert(magnitude == spec_dec_value(bv.subrange(ei + 2, ei + 4int)));
        }
    }
    if ei + 2 < bn - 2 {
        magnitude = magnitude * 10 + digit_value(body.get_char(ei + 4));
        proof {
            reveal_with_fuel(spec_dec_value, 3);
            assert(bv.subrange(ei + 2, ei + 5int).drop_last() =~= bv.subrange(ei + 2, ei + 4int));
            assert(bv.subrange(ei + 2, ei + 5int).last() == bv[ei + 4]);
            assert(magnitude == spec_dec_value(bv.subrange(ei + 2, ei + 5int)));
        }
    }
    proof {
        assert(bv.subrange(ei + 2, bn as int) =~= bv.subrange(ei + 2, ei + 2 + (bn - (ei
            + 2))));
        assert(magnitude == spec_dec_value(bv.subrange(ei + 2, bn as int)));
        assert(magnitude <= 999);
    }

    let fraction = body.substring_char(2, ei);
    let mut digits = String::from_str(body.substring_char(0, 1));
    if !str_eq(fraction, "0") {
        digits.append(fraction);
    }
    proof {
        reveal_strlit("0");
        assert("0"@ =~= seq!['0']);
        assert(fraction@ == bv.subrange(2, ei as int));
        assert(seq![bv[0]] =~= bv.subrange(0, 1));
        if fraction@ == seq!['0'] {
            assert(digits@ == bv.subrange(0, 1));
            assert(digits@ =~= sci_digits(bv));
        } else {
            assert(digits@ == bv.subrange(0, 1) + fraction@);
            assert(digits@ =~= sci_digits(bv));
        }
    }

    let dn = digits.as_str().unicode_len();
    let mut expanded: String;
    if sign_char == '-' && magnitude > 0 {
        expanded = String::from_str("0.");
        push_zeroes(&mut expanded, magnitude - 1);
        expanded.append(digits.as_str());
        proof {
            reveal_strlit("0.");
            assert("0."@ =~= seq!['0', '.']);
            assert(expanded@ =~= spec_positional(sci_digits(bv), sci_exponent(bv)));
        }
    } else {
        let int_len = magnitude + 1;
        if dn <= int_len {
            expanded = digits;
            push_zeroes(&mut expanded, int_len - dn);
            proof {
                assert(expanded@ =~= spec_positional(sci_digits(bv), sci_exponent(bv)));
            }
        } else {
            expanded = String::from_str(digits.as_str().substring_char(0, int_len));
            push_char(&mut expanded, '.');
            expanded.append(digits.as_str().substring_char(int_len, dn));
            proof {
                assert(expanded@ =~= spec_positional(sci_digits(bv), sci_exponent(bv)));
            }
        }
    }

    if signed {
        let mut out = String::from_str("-");
        out.append(expanded.as_str());
        proof {
            reveal_strlit("-");
            assert(out@ =~= spec_expand_sci(s@));
        }
        out
    } else {
        proof {
            assert(expanded@ =~= spec_expand_sci(s@));
        }
        expanded
    }
}

fn adjust_text(s: String) -> (r: String)
    ensures
        r@ == spec_adjust_text(s@),
{
    if str_eq(s.as_str(), "+Inf") {
        String::from_str("inf")
    } else if str_eq(s.as_str(), "-Inf") {
        String::from_str("-inf")
    } else {
        expand_sci(s)
    }
}

/// The display text of a numeric value, as the evaluator prints it: the
/// shortest decimal rendering that reads back as the same value.
pub fn value_text(bits: u64) -> (r: String)
    ensures
        r@ == spec_value_text(bits),
{
    let mut digits: usize = 1;
    while digits < 17
        invariant
            1 <= digits <= 17,
            spec_value_text(bits) == spec_probe_text(bits, digits as int),
        decreases 17 - digits,
    {
        let candidate = format_double(bits, digits);
        let parsed = parse_double(candidate.as_str());
        match parsed {
            Some(back) if back == bits => {
                return adjust_text(candidate);
            },
            _ => {},
        }
        digits += 1;
    }
    adjust_text(format_double(bits, 17))
}

fn plain_integer_text(s: &String) -> (r: bool)
    ensures
        r == plain_integer_chars(s@),
{
    let n = s.as_str().unicode_len();
    let mut i: usize = 0;
    while i < n
        invariant
            n == s@.len(),
            0 <= i <= n,
            forall|j: int|
                0 <= j < i ==> (is_digit_char(#[trigger] s@[j]) || s@[j] == '-'),
        decreases n - i,
    {
        let c = s.as_str().get_char(i);
        if !(('0' <= c && c <= '9') || c == '-') {
            return false;
        }
        i += 1;
    }
    true
}

/// The literal text of a numeric value, as tokens and syntax trees print
/// it: the display text, with `.0` appended for a whole number.
pub fn literal_text(bits: u64) -> (r: String)
    ensures
        r@ == spec_literal_text(bits),
{
    let text = value_text(bits);
    if plain_integer_text(&text) {
        text.concat(".0")
    } else {
        text
    }
}

} // verus!
