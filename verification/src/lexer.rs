//! The scanner.

use crate::chars::{
    is_digit, is_identifier_part, is_letter, is_multiplier, is_radix_digit, Radix,
};
use crate::error::{LexError, LexErrorView};
use crate::grammar::{
    classify_word, digits_end, group_end, has_char, has_digit, identifier_end,
    lemma_scan_advances, lemma_tokens_extend, lemma_tokens_split, scan_at, scan_decimal,
    scan_exponent, scan_fraction, scan_radix, scan_scaled, tokens_between, tokens_of, Scan,
};
use crate::text::{chars_of, string_of};
use crate::token::{lemma_views_push, views, TokenView};
pub use crate::token::{FloatLit, IntLit, Token};
use vstd::prelude::*;

verus! {

/// A scanner over one text. It holds the text, the position of the next
/// character to scan, and the tokens found before that position.
pub struct Lexer {
    input: Vec<char>,
    current_position: usize,
    tokens: Vec<Token>,
}

impl Lexer {
    /// The text that is scanned.
    pub closed spec fn source(&self) -> Seq<char> {
        self.input@
    }

    /// The position of the next character to scan.
    pub closed spec fn cursor(&self) -> int {
        self.current_position as int
    }

    /// The tokens found so far.
    pub closed spec fn emitted(&self) -> Seq<TokenView> {
        views(self.tokens@)
    }

    /// The scanner's invariant: the cursor lies in the text, between two
    /// tokens, and the tokens found so far are those of the text before it.
    pub open spec fn wf(&self) -> bool {
        &&& 0 <= self.cursor() <= self.source().len()
        &&& tokens_between(self.source(), 0, self.cursor()) == Some(self.emitted())
    }

    /// Whether `self` is `before` with one more token, `token`, found and
    /// the cursor moved to `end`.
    spec fn follows(&self, before: &Lexer, token: TokenView, end: int) -> bool {
        &&& self.input@ == before.input@
        &&& self.current_position == end
        &&& views(self.tokens@) == views(before.tokens@).push(token)
    }

    /// A scanner at the start of `input`.
    pub fn new(input: &str) -> (lexer: Lexer)
        ensures
            lexer.wf(),
            lexer.source() == input@,
            lexer.cursor() == 0,
            lexer.emitted() == Seq::<TokenView>::empty(),
    {
        let lexer = Self { input: chars_of(input), current_position: 0, tokens: Vec::new() };
        assert(views(lexer.tokens@) =~= Seq::<TokenView>::empty());
        lexer
    }

    /// The character at position `i`, if the text has one there.
    fn get(&self, i: usize) -> (c: Option<char>)
        ensures
            c == if i < self.input.len() {
                Some(self.input@[i as int])
            } else {
                None
            },
    {
        if i < self.input.len() {
            Some(self.input[i])
        } else {
            None
        }
    }

    /// The text from position `i` up to position `j`.
    fn getstr(&self, i: usize, j: usize) -> (text: String)
        requires
            i <= j <= self.input.len(),
        ensures
            text@ == self.input@.subrange(i as int, j as int),
    {
        string_of(&self.input, i, j)
    }

    /// Whether the whole text has been scanned.
    fn exhausted(&self) -> (b: bool)
        ensures
            b == (self.current_position >= self.input.len()),
    {
        self.check_pos(self.current_position)
    }

    /// Whether position `i` lies past the last character.
    fn check_pos(&self, i: usize) -> (b: bool)
        ensures
            b == (i >= self.input.len()),
    {
        i >= self.input.len()
    }

    /// Whether the text has the character `c` at position `i`.
    fn verify(&self, i: usize, c: char) -> (b: bool)
        ensures
            b == has_char(self.input@, i as int, c),
    {
        !self.check_pos(i) && self.get(i).unwrap() == c
    }

    /// Whether the text has at position `i` a character of which `f` holds.
    fn verify_predicat<F: Fn(char) -> bool>(&self, i: usize, f: F) -> (b: bool)
        requires
            forall|c: char| f.requires((c,)),
        ensures
            b ==> i < self.input.len() && f.ensures((self.input@[i as int],), true),
            !b ==> i >= self.input.len() || f.ensures((self.input@[i as int],), false),
    {
        !self.check_pos(i) && f(self.get(i).unwrap())
    }

    /// Whether the text has a digit of `radix` at position `i`.
    fn verify_digit(&self, i: usize, radix: Radix) -> (b: bool)
        ensures
            b == has_digit(self.input@, i as int, radix),
    {
        !self.check_pos(i) && is_radix_digit(radix, self.get(i).unwrap())
    }

    /// Whether the text from `i` up to `j` is `word`.
    fn verify_word(&self, i: usize, j: usize, word: &str) -> (b: bool)
        requires
            i <= j <= self.input.len(),
        ensures
            b == (self.input@.subrange(i as int, j as int) == word@),
    {
        let n = word.unicode_len();
        if j - i != n {
            return false;
        }
        let mut k: usize = 0;
        while k < n
            invariant
                i <= j <= self.input.len(),
                j - i == n == word@.len(),
                k <= n,
                forall|m: int| 0 <= m < k ==> self.input@[i + m] == word@[m],
            decreases n - k,
        {
            if self.input[i + k] != word.get_char(k) {
                assert(self.input@.subrange(i as int, j as int)[k as int] != word@[k as int]);
                return false;
            }
            k += 1;
        }
        assert(self.input@.subrange(i as int, j as int) =~= word@);
        true
    }

    /// Where the digit group ends of which the character before `i` is a
    /// digit of `radix`.
    fn group_end(&self, i: usize, radix: Radix) -> (end: usize)
        requires
            i <= self.input.len(),
        ensures
            end == group_end(self.input@, i as int, radix),
            i <= end <= self.input.len(),
    {
        let mut j = i;
        loop
            invariant
                i <= j <= self.input.len(),
                group_end(self.input@, j as int, radix) == group_end(self.input@, i as int, radix),
            ensures
                i <= j <= self.input.len(),
                j == group_end(self.input@, i as int, radix),
            decreases self.input.len() - j,
        {
            if self.verify_digit(j, radix) {
                j += 1;
            } else if self.verify(j, '_') && self.verify_digit(j + 1, radix) {
                j += 2;
            } else {
                break;
            }
        }
        j
    }

    /// Where the digit group of `radix` that starts at `i` ends.
    fn digits_end(&self, i: usize, radix: Radix) -> (end: usize)
        requires
            i <= self.input.len(),
        ensures
            end == digits_end(self.input@, i as int, radix),
            i <= end <= self.input.len(),
    {
        if self.verify_digit(i, radix) {
            self.group_end(i + 1, radix)
        } else {
            i
        }
    }

    /// Adds `token` to the tokens found and moves the cursor to `end`.
    fn emit(&mut self, token: Token, end: usize)
        ensures
            final(self).follows(old(self), token@, end as int),
    {
        proof {
            lemma_views_push(self.tokens@, token);
        }
        self.tokens.push(token);
        self.current_position = end;
    }

    /// Scans the word that starts at the cursor and of which the characters
    /// before `i` have been seen.
    fn lex_identifier(&mut self, i: usize)
        requires
            old(self).current_position < i <= old(self).input.len(),
        ensures
            final(self).follows(
                old(self),
                classify_word(
                    old(self).input@.subrange(
                        old(self).current_position as int,
                        identifier_end(old(self).input@, i as int),
                    ),
                ),
                identifier_end(old(self).input@, i as int),
            ),
    {
        let mut end = i;
        while self.verify_predicat(end, is_identifier_part)
            invariant
                self.current_position < end <= self.input.len(),
                identifier_end(self.input@, end as int) == identifier_end(self.input@, i as int),
            decreases self.input.len() - end,
        {
            end += 1;
        }
        let start = self.current_position;
        let token = if self.verify_word(start, end, "null") {
            Token::Null
        } else if self.verify_word(start, end, "true") {
            Token::BConst(true)
        } else if self.verify_word(start, end, "false") {
            Token::BConst(false)
        } else if self.verify_word(start, end, "package") {
            Token::Package
        } else if self.verify_word(start, end, "import") {
            Token::Import
        } else if self.verify_word(start, end, "for") {
            Token::For
        } else if self.verify_word(start, end, "in") {
            Token::In
        } else if self.verify_word(start, end, "if") {
            Token::If
        } else if self.verify_word(start, end, "let") {
            Token::Let
        } else if end - start >= 2 && self.verify(start, '_') && self.verify(start + 1, '_') {
            Token::Keyword(self.getstr(start, end))
        } else {
            Token::Identifier(self.getstr(start, end))
        };
        self.emit(token, end);
    }

    /// Scans the binary literal that starts at the cursor, of which `i` is
    /// the position after the prefix.
    fn lex_binary(&mut self, i: usize)
        requires
            old(self).current_position + 2 == i <= old(self).input.len(),
        ensures
            scan_radix(old(self).input@, old(self).current_position as int, Radix::Binary)
                matches Scan::Token { token, end } && final(self).follows(old(self), token, end),
    {
        let end = self.digits_end(i, Radix::Binary);
        let binding = self.getstr(self.current_position, end);
        self.emit(Token::IntLit(IntLit::BinaryLit(binding)), end);
    }

    /// Scans the octal literal that starts at the cursor, of which `i` is
    /// the position after the prefix.
    fn lex_octal(&mut self, i: usize)
        requires
            old(self).current_position + 2 == i <= old(self).input.len(),
        ensures
            scan_radix(old(self).input@, old(self).current_position as int, Radix::Octal)
                matches Scan::Token { token, end } && final(self).follows(old(self), token, end),
    {
        let end = self.digits_end(i, Radix::Octal);
        let binding = self.getstr(self.current_position, end);
        self.emit(Token::IntLit(IntLit::OctalLit(binding)), end);
    }

    /// Scans the hexadecimal literal that starts at the cursor, of which
    /// `i` is the position after the prefix.
    fn lex_hex(&mut self, i: usize)
        requires
            old(self).current_position + 2 == i <= old(self).input.len(),
        ensures
            scan_radix(old(self).input@, old(self).current_position as int, Radix::Hexadecimal)
                matches Scan::Token { token, end } && final(self).follows(old(self), token, end),
    {
        let end = self.digits_end(i, Radix::Hexadecimal);
        let binding = self.getstr(self.current_position, end);
        self.emit(Token::IntLit(IntLit::HexLit(binding)), end);
    }

    /// Scans the number that starts with the decimal digit at the cursor;
    /// `i` is the position after that digit.
    fn lex_decimal(&mut self, i: usize) -> (result: Result<(), LexError>)
        requires
            old(self).current_position + 1 == i <= old(self).input.len(),
            is_digit(old(self).input@[old(self).current_position as int]),
        ensures
            match scan_decimal(old(self).input@, old(self).current_position as int) {
                Scan::Token { token, end } => result is Ok && final(self).follows(
                    old(self),
                    token,
                    end,
                ),
                Scan::Error { error } => result matches Err(e) && e@ == error && *final(self)
                    == *old(self),
                Scan::Blank => false,
            },
    {
        let end = self.group_end(i, Radix::Decimal);
        if self.verify(end, '.') {
            self.lex_point_decimal(end + 1);
            Ok(())
        } else if self.verify(end, 'e') || self.verify(end, 'E') {
            self.lex_float(end + 1);
            Ok(())
        } else if self.verify_predicat(end, is_multiplier) {
            self.lex_si(end + 1);
            Ok(())
        } else {
            let start = self.current_position;
            let binding = self.getstr(start, end);
            if self.verify(start, '0') && end - start > 1 {
                Err(LexError::LeadingZero { text: binding, position: start })
            } else {
                self.emit(Token::IntLit(IntLit::DecimalLit(binding)), end);
                Ok(())
            }
        }
    }

    /// Scans the rest of the number that starts at the cursor and has its
    /// fraction at `i`, the position after the point.
    fn lex_point_decimal(&mut self, i: usize)
        requires
            old(self).current_position < i <= old(self).input.len(),
        ensures
            scan_fraction(old(self).input@, old(self).current_position as int, i as int)
                matches Scan::Token { token, end } && final(self).follows(old(self), token, end),
    {
        let end = self.digits_end(i, Radix::Decimal);
        if end > i && self.verify_predicat(end, is_multiplier) {
            self.lex_si(end + 1);
        } else if self.verify(end, 'e') || self.verify(end, 'E') {
            self.lex_float(end + 1);
        } else {
            let binding = self.getstr(self.current_position, end);
            self.emit(Token::FloatLit(FloatLit::WithoutExp(binding)), end);
        }
    }

    /// Scans the unit of the scaled integer that starts at the cursor; `i`
    /// is the position after its magnitude marker.
    fn lex_si(&mut self, i: usize)
        requires
            old(self).current_position < i <= old(self).input.len(),
        ensures
            scan_scaled(old(self).input@, old(self).current_position as int, i - 1)
                matches Scan::Token { token, end } && final(self).follows(old(self), token, end),
    {
        let binding = self.getstr(self.current_position, i - 1);
        if self.verify(i, 'i') {
            let multiplier = self.getstr(i - 1, i + 1);
            self.emit(Token::IntLit(IntLit::SiLit(binding, multiplier)), i + 1);
        } else {
            let multiplier = self.getstr(i - 1, i);
            self.emit(Token::IntLit(IntLit::SiLit(binding, multiplier)), i);
        }
    }

    /// Scans the exponent of the float that starts at the cursor; `i` is
    /// the position after its `e` or `E`.
    fn lex_float(&mut self, i: usize)
        requires
            old(self).current_position < i <= old(self).input.len(),
        ensures
            scan_exponent(old(self).input@, old(self).current_position as int, i - 1)
                matches Scan::Token { token, end } && final(self).follows(old(self), token, end),
    {
        let exp_start = i - 1;
        let digits = if self.verify(i, '+') || self.verify(i, '-') {
            i + 1
        } else {
            i
        };
        let end = self.digits_end(digits, Radix::Decimal);
        let exp = self.getstr(exp_start, end);
        let binding = self.getstr(self.current_position, exp_start);
        self.emit(Token::FloatLit(FloatLit::WithExp(binding, exp)), end);
    }

    /// Scans from the cursor to the end of the text, or to the first error.
    /// At each position one rule is chosen by the character there and by up
    /// to two characters after it.
    fn lexer(&mut self) -> (result: Result<(), LexError>)
        requires
            old(self).wf(),
        ensures
            final(self).wf(),
            final(self).source() == old(self).source(),
            old(self).cursor() <= final(self).cursor(),
            old(self).emitted().is_prefix_of(final(self).emitted()),
            match result {
                Ok(()) => final(self).cursor() == final(self).source().len(),
                Err(e) => final(self).cursor() < final(self).source().len() && scan_at(
                    final(self).source(),
                    final(self).cursor(),
                ) == (Scan::Error { error: e@ }),
            },
    {
        while !self.exhausted()
            invariant
                self.wf(),
                self.input@ == old(self).input@,
                old(self).current_position <= self.current_position,
                views(old(self).tokens@).is_prefix_of(views(self.tokens@)),
            decreases self.input.len() - self.current_position,
        {
            let i = self.current_position;
            let ghost before = *self;
            proof {
                lemma_scan_advances(self.input@, i as int);
                lemma_tokens_extend(self.input@, 0, i as int);
            }
            match self.get(i).unwrap() {
                '0' if self.verify(i + 1, 'b') => self.lex_binary(i + 2),
                '0' if self.verify(i + 1, 'o') => self.lex_octal(i + 2),
                '0' if self.verify(i + 1, 'x') || self.verify(i + 1, 'X') => self.lex_hex(i + 2),
                c if is_digit(c) => {
                    match self.lex_decimal(i + 1) {
                        Ok(()) => {},
                        Err(e) => {
                            return Err(e);
                        },
                    }
                },
                '.' if self.verify_predicat(i + 1, is_digit) => self.lex_point_decimal(i + 1),
                '+' => self.emit(Token::Add, i + 1),
                '-' => self.emit(Token::Sub, i + 1),
                '*' => self.emit(Token::Mul, i + 1),
                '/' => self.emit(Token::Div, i + 1),
                '&' if self.verify(i + 1, '&') => self.emit(Token::BolAnd, i + 2),
                '&' => self.emit(Token::And, i + 1),
                '|' if self.verify(i + 1, '|') => self.emit(Token::BolOr, i + 2),
                '|' => self.emit(Token::Or, i + 1),
                '=' if self.verify(i + 1, '=') => self.emit(Token::Eq, i + 2),
                '=' if self.verify(i + 1, '~') => self.emit(Token::PatternEq, i + 2),
                '=' => self.emit(Token::Assign, i + 1),
                '!' if self.verify(i + 1, '=') => self.emit(Token::NotEq, i + 2),
                '!' if self.verify(i + 1, '~') => self.emit(Token::PatternNotEq, i + 2),
                '!' => self.emit(Token::Exlamation, i + 1),
                '<' if self.verify(i + 1, '=') => self.emit(Token::LessEq, i + 2),
                '<' => self.emit(Token::Less, i + 1),
                '>' if self.verify(i + 1, '=') => self.emit(Token::GreaterEq, i + 2),
                '>' => self.emit(Token::Greater, i + 1),
                ':' => self.emit(Token::Colon, i + 1),
                '?' => self.emit(Token::Question, i + 1),
                '(' => self.emit(Token::LParen, i + 1),
                ')' => self.emit(Token::RParen, i + 1),
                '{' => self.emit(Token::LBrace, i + 1),
                '}' => self.emit(Token::RBrace, i + 1),
                '[' => self.emit(Token::LBracket, i + 1),
                ']' => self.emit(Token::RBracket, i + 1),
                ',' => self.emit(Token::Comma, i + 1),
                '.' if self.verify(i + 1, '.') && self.verify(i + 2, '.') => self.emit(
                    Token::Ellipsis,
                    i + 3,
                ),
                '.' => self.emit(Token::Dot, i + 1),
                '_' if self.verify(i + 1, '|') && self.verify(i + 2, '_') => self.emit(
                    Token::Bottom,
                    i + 3,
                ),
                '#' if self.verify_predicat(i + 1, is_letter) => self.lex_identifier(i + 2),
                '_' if self.verify(i + 1, '#') && self.verify_predicat(i + 2, is_letter) => {
                    self.lex_identifier(i + 3)
                },
                c if is_letter(c) => self.lex_identifier(i + 1),
                c if c.is_whitespace() => {
                    self.current_position = i + 1;
                },
                c => {
                    return Err(LexError::UnexpectedCharacter { character: c, position: i });
                },
            }
            assert(self.input@ == before.input@);
            assert(self.wf());
            assert(views(before.tokens@).is_prefix_of(views(self.tokens@)));
        }
        Ok(())
    }

    /// Scans the text and returns its tokens, or the first lexical error in
    /// it. After an error the scanner stays where the error lies.
    pub fn lex(&mut self) -> (result: Result<Vec<Token>, LexError>)
        requires
            old(self).wf(),
        ensures
            final(self).wf(),
            final(self).source() == old(self).source(),
            old(self).cursor() <= final(self).cursor(),
            old(self).emitted().is_prefix_of(final(self).emitted()),
            match result {
                Ok(tokens) => {
                    &&& tokens_of(final(self).source()) == Ok::<Seq<TokenView>, LexErrorView>(
                        views(tokens@),
                    )
                    &&& final(self).emitted() == views(tokens@)
                    &&& final(self).cursor() == final(self).source().len()
                },
                Err(e) => {
                    &&& tokens_of(final(self).source()) == Err::<Seq<TokenView>, LexErrorView>(e@)
                    &&& final(self).cursor() == e@.position()
                },
            },
    {
        let result = self.lexer();
        proof {
            lemma_tokens_split(self.input@, 0, self.current_position as int);
        }
        match result {
            Ok(()) => {
                let tokens = self.tokens.clone();
                assert(views(tokens@) =~= views(self.tokens@));
                assert(self.emitted() + Seq::<TokenView>::empty() =~= self.emitted());
                Ok(tokens)
            },
            Err(e) => Err(e),
        }
    }
}

/// The tokens of `input`, or the first lexical error in it.
pub fn tokenize(input: &str) -> (result: Result<Vec<Token>, LexError>)
    ensures
        match result {
            Ok(tokens) => tokens_of(input@) == Ok::<Seq<TokenView>, LexErrorView>(views(tokens@)),
            Err(e) => tokens_of(input@) == Err::<Seq<TokenView>, LexErrorView>(e@),
        },
{
    let mut lexer = Lexer::new(input);
    lexer.lex()
}

} // verus!
