//! The lexical grammar: what the scanner finds at a position of a text, and
//! the tokens of a whole text.
//!
//! A text is a sequence of characters and a position is an index into it.
//! Each rule looks at the character at the position and at up to two
//! characters after it, and takes the longest token that starts there.

use crate::chars::{
    is_digit, is_identifier_part, is_letter, is_multiplier, is_radix_digit, white_space, Radix,
};
use crate::error::LexErrorView;
use crate::token::{FloatLitView, IntLitView, TokenView};
use vstd::prelude::*;

verus! {

/// What the scanner finds at one position.
pub ghost enum Scan {
    /// A token, and the position just past its last character.
    Token { token: TokenView, end: int },
    /// One character of white space, which yields no token.
    Blank,
    /// No token starts here, or the one that does is malformed.
    Error { error: LexErrorView },
}

/// Whether the text has the character `c` at position `i`.
pub open spec fn has_char(s: Seq<char>, i: int, c: char) -> bool {
    0 <= i < s.len() && s[i] == c
}

/// Whether the text has a digit of `radix` at position `i`.
pub open spec fn has_digit(s: Seq<char>, i: int, radix: Radix) -> bool {
    0 <= i < s.len() && is_radix_digit(radix, s[i])
}

/// Whether the text has a letter, `_` or `$` at position `i`.
pub open spec fn has_letter(s: Seq<char>, i: int) -> bool {
    0 <= i < s.len() && is_letter(s[i])
}

/// Whether the text has a magnitude marker at position `i`.
pub open spec fn has_multiplier(s: Seq<char>, i: int) -> bool {
    0 <= i < s.len() && is_multiplier(s[i])
}

/// Where the digit group that starts at `i` ends. A digit group is a run of
/// digits of `radix` in which one `_` may stand between two digits. Where no
/// digit stands at `i` the group is empty and the result is `i`.
pub open spec fn digits_end(s: Seq<char>, i: int, radix: Radix) -> int {
    if has_digit(s, i, radix) {
        group_end(s, i + 1, radix)
    } else {
        i
    }
}

/// Where a digit group ends of which the character before `i` is a digit.
pub open spec fn group_end(s: Seq<char>, i: int, radix: Radix) -> int
    decreases s.len() - i,
{
    if has_digit(s, i, radix) {
        group_end(s, i + 1, radix)
    } else if has_char(s, i, '_') && has_digit(s, i + 1, radix) {
        group_end(s, i + 2, radix)
    } else {
        i
    }
}

/// Whether `t` is a well-formed digit group of `radix`: it is not empty,
/// and each of its characters is a digit, or a `_` that has a digit on
/// either side.
pub open spec fn is_digit_group(t: Seq<char>, radix: Radix) -> bool {
    &&& t.len() > 0
    &&& forall|k: int|
        0 <= k < t.len() ==> is_radix_digit(radix, #[trigger] t[k]) || (t[k] == '_' && 0 < k
            < t.len() - 1 && is_radix_digit(radix, t[k - 1]) && is_radix_digit(radix, t[k + 1]))
}

/// Whether every `_` of the text from `a` up to `b` has a digit of `radix`
/// on either side, both in that piece.
pub open spec fn underscores_between_digits(s: Seq<char>, a: int, b: int, radix: Radix) -> bool {
    forall|k: int|
        a <= k < b && #[trigger] s[k] == '_' ==> a < k && k + 1 < b && has_digit(s, k - 1, radix)
            && has_digit(s, k + 1, radix)
}

/// Where the run of identifier characters that starts at `i` ends.
pub open spec fn identifier_end(s: Seq<char>, i: int) -> int
    decreases s.len() - i,
{
    if 0 <= i < s.len() && is_identifier_part(s[i]) {
        identifier_end(s, i + 1)
    } else {
        i
    }
}

/// Whether `word` is one of the nine fixed keywords.
pub open spec fn is_fixed_keyword(word: Seq<char>) -> bool {
    word == "null"@ || word == "true"@ || word == "false"@ || word == "package"@ || word
        == "import"@ || word == "for"@ || word == "in"@ || word == "if"@ || word == "let"@
}

/// The token that a word is: a fixed keyword, a reserved name (one that
/// starts with two underscores), or an identifier.
pub open spec fn classify_word(word: Seq<char>) -> TokenView {
    if word == "null"@ {
        TokenView::Null
    } else if word == "true"@ {
        TokenView::BConst(true)
    } else if word == "false"@ {
        TokenView::BConst(false)
    } else if word == "package"@ {
        TokenView::Package
    } else if word == "import"@ {
        TokenView::Import
    } else if word == "for"@ {
        TokenView::For
    } else if word == "in"@ {
        TokenView::In
    } else if word == "if"@ {
        TokenView::If
    } else if word == "let"@ {
        TokenView::Let
    } else if word.len() >= 2 && word[0] == '_' && word[1] == '_' {
        TokenView::Keyword(word)
    } else {
        TokenView::Identifier(word)
    }
}

/// The word that starts at `start` with a marker of `marker` characters
/// (none, `#` or `_#`): it runs on through every identifier character.
pub open spec fn scan_word(s: Seq<char>, start: int, marker: int) -> Scan {
    let end = identifier_end(s, start + marker);
    Scan::Token { token: classify_word(s.subrange(start, end)), end }
}

/// The literal with a radix prefix (`0b`, `0o`, `0x`, `0X`) at `start`: the
/// prefix and the digit group after it.
pub open spec fn scan_radix(s: Seq<char>, start: int, radix: Radix) -> Scan {
    let end = digits_end(s, start + 2, radix);
    let text = s.subrange(start, end);
    let literal = match radix {
        Radix::Binary => IntLitView::BinaryLit(text),
        Radix::Octal => IntLitView::OctalLit(text),
        Radix::Hexadecimal => IntLitView::HexLit(text),
        Radix::Decimal => IntLitView::DecimalLit(text),
    };
    Scan::Token { token: TokenView::IntLit(literal), end }
}

/// The scaled integer that starts at `start` and has its magnitude marker
/// at `marker`. An `i` right after the marker belongs to the unit.
pub open spec fn scan_scaled(s: Seq<char>, start: int, marker: int) -> Scan {
    let end = if has_char(s, marker + 1, 'i') {
        marker + 2
    } else {
        marker + 1
    };
    Scan::Token {
        token: TokenView::IntLit(
            IntLitView::SiLit(s.subrange(start, marker), s.subrange(marker, end)),
        ),
        end,
    }
}

/// The float that starts at `start` and has its `e` or `E` at `marker`:
/// after the marker one sign at most, then a digit group.
pub open spec fn scan_exponent(s: Seq<char>, start: int, marker: int) -> Scan {
    let digits = if has_char(s, marker + 1, '+') || has_char(s, marker + 1, '-') {
        marker + 2
    } else {
        marker + 1
    };
    let end = digits_end(s, digits, Radix::Decimal);
    Scan::Token {
        token: TokenView::FloatLit(
            FloatLitView::WithExp(s.subrange(start, marker), s.subrange(marker, end)),
        ),
        end,
    }
}

/// The number that starts at `start` and has its fraction, the part after
/// the point, at `fraction`. A magnitude marker right after a digit of the
/// fraction makes it a scaled integer, an `e` or `E` after the fraction a
/// float with an exponent.
pub open spec fn scan_fraction(s: Seq<char>, start: int, fraction: int) -> Scan {
    let end = digits_end(s, fraction, Radix::Decimal);
    if end > fraction && has_multiplier(s, end) {
        scan_scaled(s, start, end)
    } else if has_char(s, end, 'e') || has_char(s, end, 'E') {
        scan_exponent(s, start, end)
    } else {
        Scan::Token {
            token: TokenView::FloatLit(FloatLitView::WithoutExp(s.subrange(start, end))),
            end,
        }
    }
}

/// The number that starts with the decimal digit at `start`. After its
/// digit group a point leads to a fraction, an `e` or `E` to an exponent,
/// a magnitude marker to a scaled integer. Otherwise it is a decimal
/// integer, which must not have a `0` before other characters.
pub open spec fn scan_decimal(s: Seq<char>, start: int) -> Scan {
    let end = digits_end(s, start, Radix::Decimal);
    if has_char(s, end, '.') {
        scan_fraction(s, start, end + 1)
    } else if has_char(s, end, 'e') || has_char(s, end, 'E') {
        scan_exponent(s, start, end)
    } else if has_multiplier(s, end) {
        scan_scaled(s, start, end)
    } else if has_char(s, start, '0') && end - start > 1 {
        Scan::Error {
            error: LexErrorView::LeadingZero { text: s.subrange(start, end), position: start },
        }
    } else {
        Scan::Token {
            token: TokenView::IntLit(IntLitView::DecimalLit(s.subrange(start, end))),
            end,
        }
    }
}

/// The operator or punctuation mark at `i`, with its length, if one stands
/// there. Of two marks that start alike the longer one is taken.
pub open spec fn punctuation_at(s: Seq<char>, i: int) -> Option<(TokenView, int)> {
    let c = s[i];
    if c == '+' {
        Some((TokenView::Add, 1))
    } else if c == '-' {
        Some((TokenView::Sub, 1))
    } else if c == '*' {
        Some((TokenView::Mul, 1))
    } else if c == '/' {
        Some((TokenView::Div, 1))
    } else if c == '&' {
        if has_char(s, i + 1, '&') {
            Some((TokenView::BolAnd, 2))
        } else {
            Some((TokenView::And, 1))
        }
    } else if c == '|' {
        if has_char(s, i + 1, '|') {
            Some((TokenView::BolOr, 2))
        } else {
            Some((TokenView::Or, 1))
        }
    } else if c == '=' {
        if has_char(s, i + 1, '=') {
            Some((TokenView::Eq, 2))
        } else if has_char(s, i + 1, '~') {
            Some((TokenView::PatternEq, 2))
        } else {
            Some((TokenView::Assign, 1))
        }
    } else if c == '!' {
        if has_char(s, i + 1, '=') {
            Some((TokenView::NotEq, 2))
        } else if has_char(s, i + 1, '~') {
            Some((TokenView::PatternNotEq, 2))
        } else {
            Some((TokenView::Exlamation, 1))
        }
    } else if c == '<' {
        if has_char(s, i + 1, '=') {
            Some((TokenView::LessEq, 2))
        } else {
            Some((TokenView::Less, 1))
        }
    } else if c == '>' {
        if has_char(s, i + 1, '=') {
            Some((TokenView::GreaterEq, 2))
        } else {
            Some((TokenView::Greater, 1))
        }
    } else if c == ':' {
        Some((TokenView::Colon, 1))
    } else if c == '?' {
        Some((TokenView::Question, 1))
    } else if c == '(' {
        Some((TokenView::LParen, 1))
    } else if c == ')' {
        Some((TokenView::RParen, 1))
    } else if c == '{' {
        Some((TokenView::LBrace, 1))
    } else if c == '}' {
        Some((TokenView::RBrace, 1))
    } else if c == '[' {
        Some((TokenView::LBracket, 1))
    } else if c == ']' {
        Some((TokenView::RBracket, 1))
    } else if c == ',' {
        Some((TokenView::Comma, 1))
    } else if c == '.' {
        if has_char(s, i + 1, '.') && has_char(s, i + 2, '.') {
            Some((TokenView::Ellipsis, 3))
        } else {
            Some((TokenView::Dot, 1))
        }
    } else if c == '_' && has_char(s, i + 1, '|') && has_char(s, i + 2, '_') {
        Some((TokenView::Bottom, 3))
    } else {
        None
    }
}

/// What the scanner finds at position `i` of the text. The rules are tried
/// in this order: numbers, operators and punctuation, words, white space.
pub open spec fn scan_at(s: Seq<char>, i: int) -> Scan
    recommends
        0 <= i < s.len(),
{
    let c = s[i];
    if c == '0' && has_char(s, i + 1, 'b') {
        scan_radix(s, i, Radix::Binary)
    } else if c == '0' && has_char(s, i + 1, 'o') {
        scan_radix(s, i, Radix::Octal)
    } else if c == '0' && (has_char(s, i + 1, 'x') || has_char(s, i + 1, 'X')) {
        scan_radix(s, i, Radix::Hexadecimal)
    } else if is_digit(c) {
        scan_decimal(s, i)
    } else if c == '.' && has_digit(s, i + 1, Radix::Decimal) {
        scan_fraction(s, i, i + 1)
    } else if let Some((token, len)) = punctuation_at(s, i) {
        Scan::Token { token, end: i + len }
    } else if c == '#' && has_letter(s, i + 1) {
        scan_word(s, i, 1)
    } else if c == '_' && has_char(s, i + 1, '#') && has_letter(s, i + 2) {
        scan_word(s, i, 2)
    } else if is_letter(c) {
        scan_word(s, i, 0)
    } else if white_space(c) {
        Scan::Blank
    } else {
        Scan::Error { error: LexErrorView::UnexpectedCharacter { character: c, position: i } }
    }
}

/// The tokens of the text from position `i` on, or the first error.
pub open spec fn tokens_from(s: Seq<char>, i: int) -> Result<Seq<TokenView>, LexErrorView>
    decreases s.len() - i,
    via tokens_from_decreases
{
    if 0 <= i < s.len() {
        match scan_at(s, i) {
            Scan::Token { token, end } => match tokens_from(s, end) {
                Ok(rest) => Ok(seq![token] + rest),
                Err(error) => Err(error),
            },
            Scan::Blank => tokens_from(s, i + 1),
            Scan::Error { error } => Err(error),
        }
    } else {
        Ok(Seq::empty())
    }
}

#[via_fn]
proof fn tokens_from_decreases(s: Seq<char>, i: int) {
    if 0 <= i < s.len() {
        lemma_scan_advances(s, i);
    }
}

/// The tokens of a whole text, or the first error in it.
pub open spec fn tokens_of(s: Seq<char>) -> Result<Seq<TokenView>, LexErrorView> {
    tokens_from(s, 0)
}

/// The tokens of the text between the positions `i` and `j`, where the
/// scanner, started at `i`, stops at `j` between two tokens without having
/// met an error; otherwise `None`.
pub open spec fn tokens_between(s: Seq<char>, i: int, j: int) -> Option<Seq<TokenView>>
    decreases s.len() - i,
    via tokens_between_decreases
{
    if i == j {
        Some(Seq::empty())
    } else if 0 <= i < j <= s.len() {
        match scan_at(s, i) {
            Scan::Token { token, end } => match tokens_between(s, end, j) {
                Some(rest) => Some(seq![token] + rest),
                None => None,
            },
            Scan::Blank => tokens_between(s, i + 1, j),
            Scan::Error { error } => None,
        }
    } else {
        None
    }
}

#[via_fn]
proof fn tokens_between_decreases(s: Seq<char>, i: int, j: int) {
    if 0 <= i < s.len() {
        lemma_scan_advances(s, i);
    }
}

/// Where the tokens of the text from position `i` on stand: for each token
/// the position of its first character and the position after its last.
pub open spec fn spans_from(s: Seq<char>, i: int) -> Seq<(int, int)>
    decreases s.len() - i,
    via spans_from_decreases
{
    if 0 <= i < s.len() {
        match scan_at(s, i) {
            Scan::Token { token, end } => seq![(i, end)] + spans_from(s, end),
            Scan::Blank => spans_from(s, i + 1),
            Scan::Error { error } => Seq::empty(),
        }
    } else {
        Seq::empty()
    }
}

#[via_fn]
proof fn spans_from_decreases(s: Seq<char>, i: int) {
    if 0 <= i < s.len() {
        lemma_scan_advances(s, i);
    }
}

/// Where the tokens of a whole text stand.
pub open spec fn spans_of(s: Seq<char>) -> Seq<(int, int)> {
    spans_from(s, 0)
}

/// Whether position `p` lies in one of the spans.
pub open spec fn covers(spans: Seq<(int, int)>, p: int) -> bool {
    exists|k: int| 0 <= k < spans.len() && (#[trigger] spans[k]).0 <= p < spans[k].1
}

/// A digit group ends in the text, not before its start.
pub proof fn lemma_group_end_bounds(s: Seq<char>, i: int, radix: Radix)
    requires
        0 <= i <= s.len(),
    ensures
        i <= group_end(s, i, radix) <= s.len(),
        i <= digits_end(s, i, radix) <= s.len(),
    decreases s.len() - i,
{
    if has_digit(s, i, radix) {
        lemma_group_end_bounds(s, i + 1, radix);
    } else if has_char(s, i, '_') && has_digit(s, i + 1, radix) {
        lemma_group_end_bounds(s, i + 2, radix);
    }
}

/// A run of identifier characters ends in the text, not before its start.
pub proof fn lemma_identifier_end_bounds(s: Seq<char>, i: int)
    requires
        0 <= i <= s.len(),
    ensures
        i <= identifier_end(s, i) <= s.len(),
    decreases s.len() - i,
{
    if 0 <= i < s.len() && is_identifier_part(s[i]) {
        lemma_identifier_end_bounds(s, i + 1);
    }
}

/// A token has at least one character and ends in the text.
pub proof fn lemma_scan_advances(s: Seq<char>, i: int)
    requires
        0 <= i < s.len(),
    ensures
        scan_at(s, i) matches Scan::Token { end, .. } ==> i < end <= s.len(),
{
    lemma_group_end_bounds(s, i, Radix::Decimal);
    lemma_group_end_bounds(s, i + 1, Radix::Decimal);
    if i + 2 <= s.len() {
        lemma_group_end_bounds(s, i + 2, Radix::Binary);
        lemma_group_end_bounds(s, i + 2, Radix::Octal);
        lemma_group_end_bounds(s, i + 2, Radix::Hexadecimal);
        lemma_identifier_end_bounds(s, i + 2);
    }
    lemma_identifier_end_bounds(s, i);
    lemma_identifier_end_bounds(s, i + 1);
    let d = digits_end(s, i, Radix::Decimal);
    if d < s.len() {
        lemma_group_end_bounds(s, d + 1, Radix::Decimal);
        let f = digits_end(s, d + 1, Radix::Decimal);
        lemma_exponent_bounds(s, f);
    }
    lemma_exponent_bounds(s, d);
    let g = digits_end(s, i + 1, Radix::Decimal);
    lemma_exponent_bounds(s, g);
}

/// The digit group of an exponent whose marker stands at `marker` ends in
/// the text, after the marker.
proof fn lemma_exponent_bounds(s: Seq<char>, marker: int)
    requires
        0 <= marker <= s.len(),
    ensures
        marker < s.len() ==> marker < digits_end(s, marker + 1, Radix::Decimal) <= s.len(),
        marker + 1 < s.len() ==> marker + 1 < digits_end(s, marker + 2, Radix::Decimal) <= s.len(),
{
    if marker < s.len() {
        lemma_group_end_bounds(s, marker + 1, Radix::Decimal);
    }
    if marker + 1 < s.len() {
        lemma_group_end_bounds(s, marker + 2, Radix::Decimal);
    }
}

/// One more step of the scanner: where the tokens between `i` and `j` are
/// known and the text goes on at `j`, a token found at `j` joins them, and
/// white space at `j` leaves them as they are.
pub proof fn lemma_tokens_extend(s: Seq<char>, i: int, j: int)
    requires
        0 <= i <= j < s.len(),
        tokens_between(s, i, j) is Some,
    ensures
        match scan_at(s, j) {
            Scan::Token { token, end } => tokens_between(s, i, end) == Some(
                (tokens_between(s, i, j)->Some_0).push(token),
            ),
            Scan::Blank => tokens_between(s, i, j + 1) == tokens_between(s, i, j),
            Scan::Error { error } => true,
        },
    decreases j - i,
{
    lemma_scan_advances(s, j);
    if i == j {
        match scan_at(s, j) {
            Scan::Token { token, end } => {
                assert(tokens_between(s, end, end) == Some(Seq::<TokenView>::empty()));
                assert(seq![token] + Seq::<TokenView>::empty() =~= Seq::<TokenView>::empty().push(
                    token,
                ));
            },
            Scan::Blank => {
                assert(tokens_between(s, j + 1, j + 1) == Some(Seq::<TokenView>::empty()));
            },
            Scan::Error { error } => {},
        }
    } else {
        lemma_scan_advances(s, i);
        let found = tokens_between(s, i, j)->Some_0;
        match scan_at(s, i) {
            Scan::Token { token: first, end: next } => {
                let rest = tokens_between(s, next, j)->Some_0;
                assert(tokens_between(s, next, j) is Some);
                assert(found == seq![first] + rest);
                lemma_tokens_extend(s, next, j);
                match scan_at(s, j) {
                    Scan::Token { token, end } => {
                        assert(tokens_between(s, next, end) == Some(rest.push(token)));
                        assert(tokens_between(s, i, end) == Some(seq![first] + rest.push(token)));
                        assert(seq![first] + rest.push(token) =~= found.push(token));
                    },
                    Scan::Blank => {
                        assert(tokens_between(s, next, j + 1) == Some(rest));
                        assert(tokens_between(s, i, j + 1) == Some(seq![first] + rest));
                    },
                    Scan::Error { error } => {},
                }
            },
            Scan::Blank => {
                assert(tokens_between(s, i + 1, j) == Some(found));
                lemma_tokens_extend(s, i + 1, j);
                match scan_at(s, j) {
                    Scan::Token { token, end } => {
                        assert(tokens_between(s, i + 1, end) == Some(found.push(token)));
                        assert(tokens_between(s, i, end) == Some(found.push(token)));
                    },
                    Scan::Blank => {
                        assert(tokens_between(s, i + 1, j + 1) == Some(found));
                        assert(tokens_between(s, i, j + 1) == Some(found));
                    },
                    Scan::Error { error } => {},
                }
            },
            Scan::Error { error } => {},
        }
    }
}

/// The tokens from `i` on are the tokens between `i` and `j` followed by
/// the tokens from `j` on, and the first error from `i` on is the first
/// error from `j` on.
pub proof fn lemma_tokens_split(s: Seq<char>, i: int, j: int)
    requires
        0 <= i <= j <= s.len(),
        tokens_between(s, i, j) is Some,
    ensures
        tokens_from(s, i) == match tokens_from(s, j) {
            Ok(rest) => Ok::<Seq<TokenView>, LexErrorView>(tokens_between(s, i, j)->Some_0 + rest),
            Err(error) => Err(error),
        },
    decreases j - i,
{
    if i == j {
        match tokens_from(s, j) {
            Ok(rest) => {
                assert(Seq::<TokenView>::empty() + rest =~= rest);
            },
            Err(error) => {},
        }
    } else {
        lemma_scan_advances(s, i);
        match scan_at(s, i) {
            Scan::Token { token, end } => {
                lemma_tokens_split(s, end, j);
                let middle = tokens_between(s, end, j)->Some_0;
                match tokens_from(s, j) {
                    Ok(rest) => {
                        assert(seq![token] + (middle + rest) =~= (seq![token] + middle) + rest);
                    },
                    Err(error) => {},
                }
            },
            Scan::Blank => {
                lemma_tokens_split(s, i + 1, j);
            },
            Scan::Error { error } => {},
        }
    }
}

} // verus!
