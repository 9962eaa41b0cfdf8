//! Textual presentation of the figures: locale-grouped numbers with two
//! decimal places, and a `HH:MM:SS` duration.
//!
//! Values arrive in the thousandth-scaled integer form the statistics use.
//! The thousands grouping itself comes from the `num-format` crate; the
//! digits around it are built here.

use vstd::prelude::*;

use num_format::Locale;
use num_format::ToFormattedString;

use vstd::arithmetic::div_mod::lemma_fundamental_div_mod;

use crate::protocol::dec_digits;
use crate::protocol::is_dec_digit;
use crate::protocol::lemma_dec_digits_value;

verus! {

/// The characters of an ASCII byte string.
pub open spec fn ascii_chars(s: Seq<u8>) -> Seq<char> {
    s.map_values(|b: u8| b as char)
}

/// Relies on `String::from_utf8`: ASCII bytes decode to exactly one
/// character each, with the same code points.
#[verifier::external_body]
fn ascii_string(bytes: Vec<u8>) -> (r: String)
    requires
        forall|i: int| 0 <= i < bytes@.len() ==> bytes@[i] < 128,
    ensures
        r@ == ascii_chars(bytes@),
{
    String::from_utf8(bytes).unwrap()
}

/// The digit string `ds` with a dot before each group of three digits,
/// counted from the right.
pub open spec fn dot_grouped(ds: Seq<u8>) -> Seq<u8>
    decreases ds.len(),
{
    if ds.len() <= 3 {
        ds
    } else {
        dot_grouped(ds.take(ds.len() - 3)) + seq![46u8] + ds.skip(ds.len() - 3)
    }
}

/// The `de`-locale rendering of a `u64`: its decimal digits in groups of
/// three separated by dots.
pub open spec fn spec_grouped_de(n: u64) -> Seq<char> {
    ascii_chars(dot_grouped(dec_digits(n as nat)))
}

/// Relies on `ToFormattedString::to_formatted_string` with `Locale::de`,
/// whose locale table is a compile-time constant: a dot separator and
/// standard grouping, so the rendering is the decimal digits of `n` with
/// a dot before each group of three.
#[verifier::external_body]
fn fmt_grouped_de(n: u64) -> (r: String)
    ensures
        r@ == spec_grouped_de(n),
{
    n.to_formatted_string(&Locale::de)
}

/// The digits of `n`, left-padded with one zero to at least two places.
pub open spec fn pad2_digits(n: nat) -> Seq<u8> {
    if n < 10 {
        seq![48u8] + dec_digits(n)
    } else {
        dec_digits(n)
    }
}

proof fn lemma_pad2_ascii(n: nat)
    ensures
        forall|i: int| 0 <= i < pad2_digits(n).len() ==> is_dec_digit(#[trigger] pad2_digits(n)[i]),
        pad2_digits(n).len() >= 2,
{
    lemma_dec_digits_value(n);
    if n < 10 {
        assert(forall|i: int|
            0 <= i < pad2_digits(n).len() ==> is_dec_digit(#[trigger] pad2_digits(n)[i]));
    } else {
        lemma_dec_digits_value(n / 10);
        assert(dec_digits(n) == dec_digits(n / 10).push((48 + n % 10) as u8));
    }
}

/// Append the at-least-two-digit decimal form of `n`.
fn push_pad2(out: &mut Vec<u8>, n: u64)
    ensures
        final (out)@ == old(out)@ + pad2_digits(n as nat),
{
    let ghost pre = out@;
    if n < 10 {
        out.push(48);
    }
    let mut ds = crate::protocol::u64_to_dec(n);
    out.append(&mut ds);
    proof {
        assert(out@ =~= pre + pad2_digits(n as nat));
    }
}

/// The `HH:MM:SS` rendering of a duration of whole seconds, each part
/// zero-padded to two places (hours take more places when they need them).
pub open spec fn spec_hms(total_secs: u64) -> Seq<char> {
    let h = total_secs as nat / 3600;
    let m = (total_secs as nat % 3600) / 60;
    let s = total_secs as nat % 60;
    ascii_chars(pad2_digits(h) + seq![58u8] + pad2_digits(m) + seq![58u8] + pad2_digits(s))
}

/// Render a duration as `HH:MM:SS`, as the reports show elapsed times.
pub fn format_duration_hms(total_secs: u64) -> (r: String)
    ensures
        r@ == spec_hms(total_secs),
{
    let hours = total_secs / 3600;
    let minutes = (total_secs % 3600) / 60;
    let seconds = total_secs % 60;
    let mut bytes: Vec<u8> = Vec::new();
    push_pad2(&mut bytes, hours);
    bytes.push(58);
    push_pad2(&mut bytes, minutes);
    bytes.push(58);
    push_pad2(&mut bytes, seconds);
    proof {
        lemma_pad2_ascii(hours as nat);
        lemma_pad2_ascii(minutes as nat);
        lemma_pad2_ascii(seconds as nat);
        assert(bytes@ =~= pad2_digits(hours as nat) + seq![58u8] + pad2_digits(minutes as nat)
            + seq![58u8] + pad2_digits(seconds as nat));
        assert(forall|i: int| 0 <= i < bytes@.len() ==> bytes@[i] < 128);
    }
    ascii_string(bytes)
}

/// The rendering of a thousandth-scaled value: the grouped whole part
/// and, when the thousandths are not all zero, a comma and the
/// thousandths rounded to two places — rounding up into the whole part
/// when they reach one.
pub open spec fn spec_format_number_milli(v: u64) -> Seq<char> {
    let whole = (v / 1000) as u64;
    let frac = v % 1000;
    if frac == 0 {
        spec_grouped_de(whole)
    } else {
        let hundredths = (frac + 5) / 10;
        if hundredths == 100 {
            spec_grouped_de((whole + 1) as u64) + ascii_chars(seq![44u8] + pad2_digits(0))
        } else {
            spec_grouped_de(whole) + ascii_chars(seq![44u8] + pad2_digits(hundredths as nat))
        }
    }
}

/// Render a thousandth-scaled figure the way the reports print numbers:
/// thousands grouped with dots, a decimal comma, two rounded decimal
/// places, and no decimal part at all for a whole number.
pub fn format_number_milli(v: u64) -> (r: String)
    ensures
        r@ == spec_format_number_milli(v),
{
    let whole = v / 1000;
    let frac = v % 1000;
    if frac == 0 {
        return fmt_grouped_de(whole);
    }
    let hundredths = (frac + 5) / 10;
    let shown: u64;
    let grouped: String;
    if hundredths == 100 {
        proof {
            lemma_fundamental_div_mod(v as int, 1000);
        }
        grouped = fmt_grouped_de(whole + 1);
        shown = 0;
    } else {
        grouped = fmt_grouped_de(whole);
        shown = hundredths;
    }
    let mut tail: Vec<u8> = Vec::new();
    tail.push(44);
    push_pad2(&mut tail, shown);
    proof {
        lemma_pad2_ascii(shown as nat);
        assert(tail@ =~= seq![44u8] + pad2_digits(shown as nat));
        assert(forall|i: int| 0 <= i < tail@.len() ==> tail@[i] < 128);
    }
    let tail_str = ascii_string(tail);
    grouped.concat(tail_str.as_str())
}

} // verus!
