//! Longest match and idempotence: a token depends on its own characters
//! alone.

use crate::chars::{is_digit, is_identifier_part, is_letter, Radix};
use crate::error::LexErrorView;
use crate::grammar::{
    digits_end, group_end, has_char, has_digit, has_letter, has_multiplier, identifier_end,
    lemma_group_end_bounds, lemma_identifier_end_bounds, lemma_scan_advances, punctuation_at,
    scan_at, scan_decimal, scan_exponent, scan_fraction, scan_radix, scan_scaled, scan_word,
    spans_of, tokens_from, tokens_of, Scan,
};
use crate::theorems::coverage::{lemma_punctuation_text, lemma_spans_from, lemma_token_text};
use crate::token::TokenView;
use vstd::prelude::*;

verus! {

/// A digit group does not depend on the text after it: it is the same in
/// the piece of the text from `a` up to `b`, if it ends in that piece.
proof fn lemma_group_end_local(s: Seq<char>, a: int, b: int, j: int, radix: Radix)
    requires
        0 <= a <= j <= b <= s.len(),
        group_end(s, j, radix) <= b,
    ensures
        group_end(s.subrange(a, b), j - a, radix) == group_end(s, j, radix) - a,
    decreases s.len() - j,
{
    let u = s.subrange(a, b);
    lemma_group_end_bounds(s, j, radix);
    if has_digit(s, j, radix) {
        lemma_group_end_bounds(s, j + 1, radix);
        assert(u[j - a] == s[j]);
        lemma_group_end_local(s, a, b, j + 1, radix);
    } else if has_char(s, j, '_') && has_digit(s, j + 1, radix) {
        lemma_group_end_bounds(s, j + 2, radix);
        assert(u[j - a] == s[j]);
        assert(u[j + 1 - a] == s[j + 1]);
        lemma_group_end_local(s, a, b, j + 2, radix);
    } else {
        if j < b {
            assert(u[j - a] == s[j]);
            if j + 1 < b {
                assert(u[j + 1 - a] == s[j + 1]);
            }
        }
    }
}

/// A digit group is the same in the piece of the text from `a` up to `b`,
/// if it ends in that piece.
proof fn lemma_digits_end_local(s: Seq<char>, a: int, b: int, j: int, radix: Radix)
    requires
        0 <= a <= j <= b <= s.len(),
        digits_end(s, j, radix) <= b,
    ensures
        digits_end(s.subrange(a, b), j - a, radix) == digits_end(s, j, radix) - a,
{
    let u = s.subrange(a, b);
    if has_digit(s, j, radix) {
        lemma_group_end_bounds(s, j + 1, radix);
        assert(u[j - a] == s[j]);
        lemma_group_end_local(s, a, b, j + 1, radix);
    } else {
        if j < b {
            assert(u[j - a] == s[j]);
        }
    }
}

/// A run of identifier characters is the same in the piece of the text from
/// `a` up to `b`, if it ends in that piece.
proof fn lemma_identifier_end_local(s: Seq<char>, a: int, b: int, j: int)
    requires
        0 <= a <= j <= b <= s.len(),
        identifier_end(s, j) <= b,
    ensures
        identifier_end(s.subrange(a, b), j - a) == identifier_end(s, j) - a,
    decreases s.len() - j,
{
    let u = s.subrange(a, b);
    lemma_identifier_end_bounds(s, j);
    if 0 <= j < s.len() && is_identifier_part(s[j]) {
        lemma_identifier_end_bounds(s, j + 1);
        assert(u[j - a] == s[j]);
        lemma_identifier_end_local(s, a, b, j + 1);
    } else {
        if j < b {
            assert(u[j - a] == s[j]);
        }
    }
}

/// A scaled integer is the same in a piece of the text that holds it.
proof fn lemma_scan_scaled_local(s: Seq<char>, start: int, marker: int, b: int)
    requires
        0 <= start <= marker < s.len(),
        b <= s.len(),
        scan_scaled(s, start, marker) matches Scan::Token { end, .. } && end <= b,
    ensures
        scan_scaled(s, start, marker) matches Scan::Token { token, end } && scan_scaled(
            s.subrange(start, b),
            0,
            marker - start,
        ) == (Scan::Token { token, end: end - start }),
{
    let u = s.subrange(start, b);
    let m = marker - start;
    if marker + 1 < b {
        assert(u[m + 1] == s[marker + 1]);
    }
    let end = if has_char(s, marker + 1, 'i') {
        marker + 2
    } else {
        marker + 1
    };
    assert(u.subrange(0, m) =~= s.subrange(start, marker));
    assert(u.subrange(m, end - start) =~= s.subrange(marker, end));
}

/// A float with an exponent is the same in a piece of the text that holds
/// it.
proof fn lemma_scan_exponent_local(s: Seq<char>, start: int, marker: int, b: int)
    requires
        0 <= start <= marker < s.len(),
        b <= s.len(),
        scan_exponent(s, start, marker) matches Scan::Token { end, .. } && end <= b,
    ensures
        scan_exponent(s, start, marker) matches Scan::Token { token, end } && scan_exponent(
            s.subrange(start, b),
            0,
            marker - start,
        ) == (Scan::Token { token, end: end - start }),
{
    let u = s.subrange(start, b);
    let m = marker - start;
    let digits = if has_char(s, marker + 1, '+') || has_char(s, marker + 1, '-') {
        marker + 2
    } else {
        marker + 1
    };
    lemma_group_end_bounds(s, digits, Radix::Decimal);
    let end = digits_end(s, digits, Radix::Decimal);
    if marker + 1 < b {
        assert(u[m + 1] == s[marker + 1]);
    }
    lemma_digits_end_local(s, start, b, digits, Radix::Decimal);
    assert(u.subrange(0, m) =~= s.subrange(start, marker));
    assert(u.subrange(m, end - start) =~= s.subrange(marker, end));
}

/// A number with a fraction is the same in a piece of the text that holds
/// it.
proof fn lemma_scan_fraction_local(s: Seq<char>, start: int, fraction: int, b: int)
    requires
        0 <= start < fraction <= s.len(),
        b <= s.len(),
        scan_fraction(s, start, fraction) matches Scan::Token { end, .. } && end <= b,
    ensures
        scan_fraction(s, start, fraction) matches Scan::Token { token, end } && scan_fraction(
            s.subrange(start, b),
            0,
            fraction - start,
        ) == (Scan::Token { token, end: end - start }),
{
    let u = s.subrange(start, b);
    lemma_group_end_bounds(s, fraction, Radix::Decimal);
    let group = digits_end(s, fraction, Radix::Decimal);
    if group < s.len() {
        lemma_group_end_bounds(s, group + 1, Radix::Decimal);
        if group + 1 < s.len() {
            lemma_group_end_bounds(s, group + 2, Radix::Decimal);
        }
    }
    lemma_digits_end_local(s, start, b, fraction, Radix::Decimal);
    if group < b {
        assert(u[group - start] == s[group]);
    }
    if group > fraction && has_multiplier(s, group) {
        lemma_scan_scaled_local(s, start, group, b);
    } else if has_char(s, group, 'e') || has_char(s, group, 'E') {
        lemma_scan_exponent_local(s, start, group, b);
    } else {
        assert(u.subrange(0, group - start) =~= s.subrange(start, group));
    }
}

/// A number that starts with a decimal digit is the same in a piece of the
/// text that holds it.
proof fn lemma_scan_decimal_local(s: Seq<char>, start: int, b: int)
    requires
        0 <= start < s.len(),
        b <= s.len(),
        scan_decimal(s, start) matches Scan::Token { end, .. } && end <= b,
    ensures
        scan_decimal(s, start) matches Scan::Token { token, end } && scan_decimal(
            s.subrange(start, b),
            0,
        ) == (Scan::Token { token, end: end - start }),
{
    let u = s.subrange(start, b);
    lemma_group_end_bounds(s, start, Radix::Decimal);
    let group = digits_end(s, start, Radix::Decimal);
    if group < s.len() {
        lemma_group_end_bounds(s, group + 1, Radix::Decimal);
        let fraction = digits_end(s, group + 1, Radix::Decimal);
        if fraction < s.len() {
            lemma_group_end_bounds(s, fraction + 1, Radix::Decimal);
            if fraction + 1 < s.len() {
                lemma_group_end_bounds(s, fraction + 2, Radix::Decimal);
            }
        }
        if group + 1 < s.len() {
            lemma_group_end_bounds(s, group + 2, Radix::Decimal);
        }
    }
    lemma_digits_end_local(s, start, b, start, Radix::Decimal);
    if start < b {
        assert(u[0] == s[start]);
    }
    if group < b {
        assert(u[group - start] == s[group]);
    }
    if has_char(s, group, '.') {
        lemma_scan_fraction_local(s, start, group + 1, b);
    } else if has_char(s, group, 'e') || has_char(s, group, 'E') {
        lemma_scan_exponent_local(s, start, group, b);
    } else if has_multiplier(s, group) {
        lemma_scan_scaled_local(s, start, group, b);
    } else {
        assert(u.subrange(0, group - start) =~= s.subrange(start, group));
    }
}

/// A literal with a radix prefix is the same in a piece of the text that
/// holds it.
proof fn lemma_scan_radix_local(s: Seq<char>, start: int, radix: Radix, b: int)
    requires
        0 <= start,
        start + 2 <= s.len(),
        b <= s.len(),
        scan_radix(s, start, radix) matches Scan::Token { end, .. } && end <= b,
    ensures
        scan_radix(s, start, radix) matches Scan::Token { token, end } && scan_radix(
            s.subrange(start, b),
            0,
            radix,
        ) == (Scan::Token { token, end: end - start }),
{
    let u = s.subrange(start, b);
    lemma_group_end_bounds(s, start + 2, radix);
    let end = digits_end(s, start + 2, radix);
    lemma_digits_end_local(s, start, b, start + 2, radix);
    assert(u.subrange(0, end - start) =~= s.subrange(start, end));
}

/// A word is the same in a piece of the text that holds it.
proof fn lemma_scan_word_local(s: Seq<char>, start: int, marker: int, b: int)
    requires
        0 <= start,
        0 <= marker,
        start + marker <= s.len(),
        b <= s.len(),
        scan_word(s, start, marker) matches Scan::Token { end, .. } && end <= b,
    ensures
        scan_word(s, start, marker) matches Scan::Token { token, end } && scan_word(
            s.subrange(start, b),
            0,
            marker,
        ) == (Scan::Token { token, end: end - start }),
{
    let u = s.subrange(start, b);
    lemma_identifier_end_bounds(s, start + marker);
    let end = identifier_end(s, start + marker);
    lemma_identifier_end_local(s, start, b, start + marker);
    assert(u.subrange(0, end - start) =~= s.subrange(start, end));
}

/// An operator or punctuation mark is the same in a piece of the text that
/// holds it, and where none stands in the text none stands in the piece.
proof fn lemma_punctuation_local(s: Seq<char>, i: int, b: int)
    requires
        0 <= i < b <= s.len(),
        punctuation_at(s, i) matches Some((_, len)) ==> i + len <= b,
    ensures
        punctuation_at(s.subrange(i, b), 0) == punctuation_at(s, i),
{
    let u = s.subrange(i, b);
    assert(u[0] == s[i]);
    if i + 1 < b {
        assert(u[1] == s[i + 1]);
    }
    if i + 2 < b {
        assert(u[2] == s[i + 2]);
    }
}

/// What the scanner finds at a position depends on the token's own
/// characters alone: it finds the same token in every piece of the text
/// that starts at the position and holds the token.
pub proof fn lemma_scan_local(s: Seq<char>, i: int, b: int)
    requires
        0 <= i < s.len(),
        b <= s.len(),
        scan_at(s, i) matches Scan::Token { end, .. } && end <= b,
    ensures
        scan_at(s, i) matches Scan::Token { token, end } && scan_at(s.subrange(i, b), 0) == (
        Scan::Token { token, end: end - i }),
{
    let u = s.subrange(i, b);
    lemma_scan_advances(s, i);
    assert(u[0] == s[i]);
    if i + 1 < b {
        assert(u[1] == s[i + 1]);
    }
    if i + 2 < b {
        assert(u[2] == s[i + 2]);
    }
    let c = s[i];
    if c == '0' && has_char(s, i + 1, 'b') {
        lemma_group_end_bounds(s, i + 2, Radix::Binary);
        lemma_scan_radix_local(s, i, Radix::Binary, b);
    } else if c == '0' && has_char(s, i + 1, 'o') {
        lemma_group_end_bounds(s, i + 2, Radix::Octal);
        lemma_scan_radix_local(s, i, Radix::Octal, b);
    } else if c == '0' && (has_char(s, i + 1, 'x') || has_char(s, i + 1, 'X')) {
        lemma_group_end_bounds(s, i + 2, Radix::Hexadecimal);
        lemma_scan_radix_local(s, i, Radix::Hexadecimal, b);
    } else if is_digit(c) {
        lemma_scan_decimal_local(s, i, b);
    } else if c == '.' && has_digit(s, i + 1, Radix::Decimal) {
        lemma_group_end_bounds(s, i + 1, Radix::Decimal);
        lemma_group_end_bounds(s, i + 2, Radix::Decimal);
        lemma_scan_fraction_local(s, i, i + 1, b);
    } else if punctuation_at(s, i) is Some {
        lemma_punctuation_local(s, i, b);
    } else {
        lemma_punctuation_text(s, i);
        lemma_punctuation_local(s, i, b);
        if c == '#' && has_letter(s, i + 1) {
            lemma_identifier_end_bounds(s, i + 1);
            lemma_identifier_end_bounds(s, i + 2);
            lemma_scan_word_local(s, i, 1, b);
        } else if c == '_' && has_char(s, i + 1, '#') && has_letter(s, i + 2) {
            lemma_identifier_end_bounds(s, i + 2);
            lemma_identifier_end_bounds(s, i + 3);
            lemma_scan_word_local(s, i, 2, b);
        } else if is_letter(c) {
            lemma_scan_word_local(s, i, 0, b);
        }
    }
}

/// Longest match: the token that the scanner finds at a position is the
/// longest piece of the text there that is one token. Cut the text anywhere
/// after the token, and the scanner finds in the piece the same token with
/// the same end; so no longer piece is a token as a whole.
pub proof fn theorem_longest_match(s: Seq<char>, i: int, b: int)
    requires
        0 <= i < s.len(),
        b <= s.len(),
        scan_at(s, i) matches Scan::Token { end, .. } && end <= b,
    ensures
        scan_at(s, i) matches Scan::Token { token, end } && scan_at(s.subrange(i, b), 0) == (
        Scan::Token { token, end: end - i }),
        scan_at(s, i) matches Scan::Token { end, .. } && (end < b ==> !(scan_at(
            s.subrange(i, b),
            0,
        ) matches Scan::Token { end: other, .. } && other == b - i)),
{
    lemma_scan_local(s, i, b);
}

/// Scanning a token's own text yields that token and nothing else.
pub proof fn theorem_rescan(s: Seq<char>, i: int)
    requires
        0 <= i < s.len(),
        scan_at(s, i) is Token,
    ensures
        scan_at(s, i) matches Scan::Token { token, end } && tokens_of(token.text()) == Ok::<
            Seq<TokenView>,
            LexErrorView,
        >(seq![token]),
{
    lemma_scan_advances(s, i);
    lemma_token_text(s, i);
    match scan_at(s, i) {
        Scan::Token { token, end } => {
            lemma_scan_local(s, i, end);
            let u = s.subrange(i, end);
            assert(u == token.text());
            assert(scan_at(u, 0) == (Scan::Token { token, end: end - i }));
            assert(tokens_from(u, end - i) == Ok::<Seq<TokenView>, LexErrorView>(
                Seq::empty(),
            ));
            assert(seq![token] + Seq::<TokenView>::empty() =~= seq![token]);
        },
        _ => {},
    }
}

/// Idempotence: each token of a text that scans without error, written
/// out and scanned by itself, yields exactly that token.
pub proof fn theorem_idempotence(s: Seq<char>)
    requires
        tokens_of(s) is Ok,
    ensures
        forall|k: int|
            0 <= k < (tokens_of(s)->Ok_0).len() ==> tokens_of(
                (#[trigger] (tokens_of(s)->Ok_0)[k]).text(),
            ) == Ok::<Seq<TokenView>, LexErrorView>(seq![(tokens_of(s)->Ok_0)[k]]),
{
    lemma_spans_from(s, 0);
    let tokens = tokens_of(s)->Ok_0;
    let spans = spans_of(s);
    assert forall|k: int| 0 <= k < tokens.len() implies tokens_of((#[trigger] tokens[k]).text())
        == Ok::<Seq<TokenView>, LexErrorView>(seq![tokens[k]]) by {
        let span = spans[k];
        theorem_rescan(s, span.0);
    }
}

} // verus!
