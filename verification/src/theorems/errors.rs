//! When the scanner reports an error, and which.

use crate::chars::{is_digit, is_letter, white_space, Radix};
use crate::error::LexErrorView;
use crate::grammar::{
    digits_end, has_char, has_letter, has_multiplier, lemma_group_end_bounds,
    lemma_scan_advances, punctuation_at, scan_at, scan_fraction, scan_word, tokens_between,
    tokens_from, Scan,
};
use crate::theorems::coverage::{lemma_number_text, lemma_punctuation_text};
use crate::token::{IntLitView, TokenView};
use vstd::prelude::*;

verus! {

/// Leading zeros: a decimal integer that the scanner finds is `0` alone or
/// does not start with `0`. It reports a leading zero exactly where a `0`
/// starts a digit group of more than one character that is followed by no
/// point, exponent or magnitude marker; then the error holds that group and
/// the position.
pub proof fn theorem_leading_zero(s: Seq<char>, i: int)
    requires
        0 <= i < s.len(),
    ensures
        scan_at(s, i) matches Scan::Token {
            token: TokenView::IntLit(IntLitView::DecimalLit(text)),
            ..
        } ==> text.len() >= 1 && is_digit(text[0]) && (text[0] == '0' ==> text.len()
            == 1),
        ({
            let end = digits_end(s, i, Radix::Decimal);
            (scan_at(s, i) matches Scan::Error {
                error: LexErrorView::LeadingZero { .. },
            }) <==> (s[i] == '0' && end > i + 1 && !has_char(s, end, '.') && !has_char(s, end, 'e')
                && !has_char(s, end, 'E') && !has_multiplier(s, end))
        }),
        scan_at(s, i) matches Scan::Error {
            error: LexErrorView::LeadingZero { text, position },
        } ==> position == i && text == s.subrange(i, digits_end(s, i, Radix::Decimal)),
{
    lemma_punctuation_text(s, i);
    lemma_number_text(s, i);
    lemma_group_end_bounds(s, i, Radix::Decimal);
    let end = digits_end(s, i, Radix::Decimal);
    if is_digit(s[i]) {
        lemma_group_end_bounds(s, i + 1, Radix::Decimal);
        assert(s.subrange(i, end)[0] == s[i]);
    }
    assert forall|marker: int| 0 <= marker <= 2 implies (#[trigger] scan_word(s, i, marker)
        matches Scan::Token { token, end } && !(token is IntLit)) by {}
    assert forall|fraction: int| i < fraction <= s.len() implies !(#[trigger] scan_fraction(
        s,
        i,
        fraction,
    ) matches Scan::Token {
        token: TokenView::IntLit(IntLitView::DecimalLit(_)),
        ..
    }) by {}
}

/// Unexpected characters: the scanner reports one exactly where no rule
/// applies, and then the error holds the character and its position.
pub proof fn theorem_unexpected_character(s: Seq<char>, i: int)
    requires
        0 <= i < s.len(),
    ensures
        (scan_at(s, i) matches Scan::Error {
            error: LexErrorView::UnexpectedCharacter { .. },
        }) <==> (!is_digit(s[i]) && punctuation_at(s, i) is None && !(s[i] == '#'
            && has_letter(s, i + 1)) && !is_letter(s[i]) && !white_space(s[i])),
        scan_at(s, i) matches Scan::Error {
            error: LexErrorView::UnexpectedCharacter { character, position },
        } ==> character == s[i] && position == i,
        scan_at(s, i) is Blank <==> (!is_digit(s[i]) && punctuation_at(s, i) is None
            && !(s[i] == '#' && has_letter(s, i + 1)) && !is_letter(s[i])
            && white_space(s[i])),
{
    lemma_number_text(s, i);
}

/// The first error: where a text does not scan, the error is what the
/// scanner finds at the error's position, and everything before that
/// position scans.
pub proof fn theorem_first_error(s: Seq<char>, i: int)
    requires
        0 <= i <= s.len(),
    ensures
        tokens_from(s, i) matches Err(error) ==> {
            &&& i <= error.position() < s.len()
            &&& scan_at(s, error.position()) == (Scan::Error { error })
            &&& tokens_between(s, i, error.position()) is Some
        },
    decreases s.len() - i,
{
    if i < s.len() {
        lemma_scan_advances(s, i);
        theorem_leading_zero(s, i);
        theorem_unexpected_character(s, i);
        match scan_at(s, i) {
            Scan::Token { token, end } => {
                theorem_first_error(s, end);
            },
            Scan::Blank => {
                theorem_first_error(s, i + 1);
            },
            Scan::Error { error } => {
                assert(tokens_between(s, i, i) is Some);
            },
        }
    }
}

} // verus!
