//! Digit groups and the underscores in them.

use crate::chars::{is_digit, is_radix_digit, Radix};
use crate::grammar::{
    digits_end, group_end, has_char, has_digit, has_multiplier, is_digit_group, punctuation_at,
    scan_at, scan_exponent, scan_fraction, scan_scaled, scan_word, underscores_between_digits,
    Scan,
};
use crate::theorems::coverage::{lemma_punctuation_text, lemma_token_text};
use vstd::prelude::*;

verus! {

/// The shape of a digit group after its first digit: up to its end every
/// character is a digit or a `_` between two digits, and at its end stands
/// neither a digit nor a `_` before a digit.
proof fn lemma_group_shape(s: Seq<char>, j: int, radix: Radix)
    requires
        0 < j <= s.len(),
        has_digit(s, j - 1, radix),
    ensures
        ({
            let end = group_end(s, j, radix);
            &&& j <= end <= s.len()
            &&& has_digit(s, end - 1, radix)
            &&& !has_digit(s, end, radix)
            &&& !(has_char(s, end, '_') && has_digit(s, end + 1, radix))
            &&& forall|k: int|
                j <= k < end ==> has_digit(s, k, radix) || (#[trigger] s[k] == '_' && k + 1 < end
                    && has_digit(s, k - 1, radix) && has_digit(s, k + 1, radix))
        }),
    decreases s.len() - j,
{
    if has_digit(s, j, radix) {
        lemma_group_shape(s, j + 1, radix);
    } else if has_char(s, j, '_') && has_digit(s, j + 1, radix) {
        lemma_group_shape(s, j + 2, radix);
    }
}

/// Underscore grouping: the digit group that the scanner takes at a
/// position is empty or well formed, so that no `_` stands at its start, at
/// its end or beside another `_`; and it is the longest such group there.
pub proof fn theorem_digit_group(s: Seq<char>, i: int, radix: Radix)
    requires
        0 <= i <= s.len(),
    ensures
        ({
            let end = digits_end(s, i, radix);
            &&& i <= end <= s.len()
            &&& end == i || is_digit_group(s.subrange(i, end), radix)
            &&& underscores_between_digits(s, i, end, radix)
            &&& forall|longer: int|
                end < longer <= s.len() ==> !is_digit_group(
                    #[trigger] s.subrange(i, longer),
                    radix,
                )
        }),
{
    let end = digits_end(s, i, radix);
    if has_digit(s, i, radix) {
        lemma_group_shape(s, i + 1, radix);
        let t = s.subrange(i, end);
        assert forall|k: int| 0 <= k < t.len() implies is_radix_digit(
            radix,
            #[trigger] t[k],
        ) || (t[k] == '_' && 0 < k < t.len() - 1 && is_radix_digit(radix, t[k - 1])
            && is_radix_digit(radix, t[k + 1])) by {
            assert(t[k] == s[i + k]);
            if k > 0 && k + 1 < t.len() {
                assert(t[k - 1] == s[i + k - 1]);
                assert(t[k + 1] == s[i + k + 1]);
            }
        }
        assert forall|k: int| i <= k < end && #[trigger] s[k] == '_' implies i < k && k + 1 < end
            && has_digit(s, k - 1, radix) && has_digit(s, k + 1, radix) by {
            assert(!is_radix_digit(radix, '_'));
        }
    }
    assert forall|longer: int| end < longer <= s.len() implies !is_digit_group(
        #[trigger] s.subrange(i, longer),
        radix,
    ) by {
        let t = s.subrange(i, longer);
        if is_digit_group(t, radix) {
            assert(t[0] == s[i]);
            assert(is_radix_digit(radix, t[0]));
            let k = end - i;
            assert(t[k] == s[end]);
            if k + 1 < t.len() {
                assert(t[k + 1] == s[end + 1]);
            }
            assert(is_radix_digit(radix, t[k]) || (t[k] == '_' && 0 < k < t.len() - 1
                && is_radix_digit(radix, t[k - 1]) && is_radix_digit(
                radix,
                t[k + 1],
            )));
            assert(false);
        }
    }
}

/// In a scaled integer whose digits are grouped well the underscores are
/// grouped well.
proof fn lemma_scaled_underscores(s: Seq<char>, start: int, marker: int)
    requires
        0 <= start <= marker < s.len(),
        has_multiplier(s, marker),
        underscores_between_digits(s, start, marker, Radix::Decimal),
    ensures
        scan_scaled(s, start, marker) matches Scan::Token { token, end }
            && underscores_between_digits(s, start, end, Radix::Decimal),
{
}

/// In a float with an exponent whose mantissa is grouped well the
/// underscores are grouped well.
proof fn lemma_exponent_underscores(s: Seq<char>, start: int, marker: int)
    requires
        0 <= start <= marker < s.len(),
        has_char(s, marker, 'e') || has_char(s, marker, 'E'),
        underscores_between_digits(s, start, marker, Radix::Decimal),
    ensures
        scan_exponent(s, start, marker) matches Scan::Token { token, end }
            && underscores_between_digits(s, start, end, Radix::Decimal),
{
    let digits = if has_char(s, marker + 1, '+') || has_char(s, marker + 1, '-') {
        marker + 2
    } else {
        marker + 1
    };
    theorem_digit_group(s, digits, Radix::Decimal);
}

/// In a number with a fraction whose integer part is grouped well the
/// underscores are grouped well.
proof fn lemma_fraction_underscores(s: Seq<char>, start: int, fraction: int)
    requires
        0 <= start < fraction <= s.len(),
        has_char(s, fraction - 1, '.'),
        underscores_between_digits(s, start, fraction - 1, Radix::Decimal),
    ensures
        scan_fraction(s, start, fraction) matches Scan::Token { token, end }
            && underscores_between_digits(s, start, end, Radix::Decimal),
{
    theorem_digit_group(s, fraction, Radix::Decimal);
    let group = digits_end(s, fraction, Radix::Decimal);
    assert(underscores_between_digits(s, start, group, Radix::Decimal));
    if group > fraction && has_multiplier(s, group) {
        lemma_scaled_underscores(s, start, group);
    } else if has_char(s, group, 'e') || has_char(s, group, 'E') {
        lemma_exponent_underscores(s, start, group);
    }
}

/// Underscore grouping in literals: in every numeric literal that the
/// scanner finds, each `_` stands between two digits of the literal's radix.
/// The literal's text keeps them as written.
pub proof fn theorem_literal_underscores(s: Seq<char>, i: int)
    requires
        0 <= i < s.len(),
    ensures
        scan_at(s, i) matches Scan::Token { token, end } ==> (token is IntLit || token is FloatLit)
            ==> token.text() == s.subrange(i, end) && underscores_between_digits(
            s,
            i,
            end,
            token.radix(),
        ),
{
    lemma_token_text(s, i);
    lemma_punctuation_text(s, i);
    let c = s[i];
    if c == '0' && has_char(s, i + 1, 'b') {
        theorem_digit_group(s, i + 2, Radix::Binary);
    } else if c == '0' && has_char(s, i + 1, 'o') {
        theorem_digit_group(s, i + 2, Radix::Octal);
    } else if c == '0' && (has_char(s, i + 1, 'x') || has_char(s, i + 1, 'X')) {
        theorem_digit_group(s, i + 2, Radix::Hexadecimal);
    } else if is_digit(c) {
        theorem_digit_group(s, i, Radix::Decimal);
        let group = digits_end(s, i, Radix::Decimal);
        if has_char(s, group, '.') {
            lemma_fraction_underscores(s, i, group + 1);
        } else if has_char(s, group, 'e') || has_char(s, group, 'E') {
            lemma_exponent_underscores(s, i, group);
        } else if has_multiplier(s, group) {
            lemma_scaled_underscores(s, i, group);
        }
    } else if c == '.' && has_digit(s, i + 1, Radix::Decimal) {
        assert(underscores_between_digits(s, i, i, Radix::Decimal));
        lemma_fraction_underscores(s, i, i + 1);
    } else if punctuation_at(s, i) is Some {
    } else {
        assert forall|marker: int| 0 <= marker <= 2 implies (#[trigger] scan_word(s, i, marker)
            matches Scan::Token { token, end } && !(token is IntLit) && !(token is FloatLit)) by {}
    }
}

} // verus!
