use cue_lexer::chars::{
    is_binary_digit, is_digit, is_hex_digit, is_identifier_part, is_letter, is_multiplier,
    is_newline, is_octal_digit, is_radix_digit, is_unicode_char, is_unicode_digit,
    is_unicode_letter, Category, Radix,
};
use cue_lexer::error::LexError;
use cue_lexer::lexer::{tokenize, FloatLit, IntLit, Lexer, Token};
use cue_lexer::text::{chars_of, string_of};

fn ident(text: &str) -> Token {
    Token::Identifier(text.to_string())
}

fn decimal(text: &str) -> Token {
    Token::IntLit(IntLit::DecimalLit(text.to_string()))
}

fn scaled(mantissa: &str, unit: &str) -> Token {
    Token::IntLit(IntLit::SiLit(mantissa.to_string(), unit.to_string()))
}

fn float(text: &str) -> Token {
    Token::FloatLit(FloatLit::WithoutExp(text.to_string()))
}

fn float_exp(mantissa: &str, exponent: &str) -> Token {
    Token::FloatLit(FloatLit::WithExp(mantissa.to_string(), exponent.to_string()))
}

fn written(token: &Token) -> String {
    match token {
        Token::Identifier(text) | Token::Keyword(text) => text.clone(),
        Token::Null => "null".to_string(),
        Token::BConst(true) => "true".to_string(),
        Token::BConst(false) => "false".to_string(),
        Token::Package => "package".to_string(),
        Token::Import => "import".to_string(),
        Token::For => "for".to_string(),
        Token::In => "in".to_string(),
        Token::If => "if".to_string(),
        Token::Let => "let".to_string(),
        Token::Add => "+".to_string(),
        Token::Sub => "-".to_string(),
        Token::Mul => "*".to_string(),
        Token::Div => "/".to_string(),
        Token::BolAnd => "&&".to_string(),
        Token::BolOr => "||".to_string(),
        Token::And => "&".to_string(),
        Token::Or => "|".to_string(),
        Token::Eq => "==".to_string(),
        Token::NotEq => "!=".to_string(),
        Token::PatternEq => "=~".to_string(),
        Token::PatternNotEq => "!~".to_string(),
        Token::Less => "<".to_string(),
        Token::Greater => ">".to_string(),
        Token::LessEq => "<=".to_string(),
        Token::GreaterEq => ">=".to_string(),
        Token::Assign => "=".to_string(),
        Token::Colon => ":".to_string(),
        Token::Question => "?".to_string(),
        Token::Exlamation => "!".to_string(),
        Token::LParen => "(".to_string(),
        Token::RParen => ")".to_string(),
        Token::LBrace => "{".to_string(),
        Token::RBrace => "}".to_string(),
        Token::LBracket => "[".to_string(),
        Token::RBracket => "]".to_string(),
        Token::Bottom => "_|_".to_string(),
        Token::Ellipsis => "...".to_string(),
        Token::Comma => ",".to_string(),
        Token::Dot => ".".to_string(),
        Token::IntLit(IntLit::SiLit(mantissa, unit)) => format!("{}{}", mantissa, unit),
        Token::IntLit(IntLit::DecimalLit(text))
        | Token::IntLit(IntLit::OctalLit(text))
        | Token::IntLit(IntLit::BinaryLit(text))
        | Token::IntLit(IntLit::HexLit(text)) => text.clone(),
        Token::FloatLit(FloatLit::WithExp(mantissa, exponent)) => {
            format!("{}{}", mantissa, exponent)
        }
        Token::FloatLit(FloatLit::WithoutExp(text)) => text.clone(),
        Token::Top | Token::StringLit(_) | Token::ByteLit(_) => String::new(),
    }
}

const MIXED: &str = "package x\nimport y for a in b { if !c && d || e { let f = 1.5e-3 + 0x1F * 7Ki } }\n_#h: #d & __r | null, true, false ... _|_ . [0b1_0, 0o7] (x.y) a =~ b !~ c == d != e <= f >= g < h > i ? j : k / l - m 2.5G .5 1_000 αβ١";

#[test]
fn empty_text_has_no_tokens() {
    assert_eq!(tokenize(""), Ok(vec![]));
    assert_eq!(tokenize(" \t\n  "), Ok(vec![]));
}

#[test]
fn tokens_cover_the_text_but_for_white_space() {
    let tokens = tokenize(MIXED).unwrap();
    let mut joined = String::new();
    for token in &tokens {
        joined.push_str(&written(token));
    }
    let stripped: String = MIXED.chars().filter(|c| !c.is_whitespace()).collect();
    assert_eq!(joined, stripped);
    assert_eq!(tokens.len(), 80);
}

#[test]
fn each_token_scans_to_itself() {
    let tokens = tokenize(MIXED).unwrap();
    for token in tokens {
        assert_eq!(tokenize(&written(&token)), Ok(vec![token.clone()]));
    }
}

#[test]
fn longest_match_is_taken() {
    assert_eq!(tokenize("1.5G"), Ok(vec![scaled("1.5", "G")]));
    assert_eq!(tokenize("..."), Ok(vec![Token::Ellipsis]));
    assert_eq!(tokenize("&&"), Ok(vec![Token::BolAnd]));
    assert_eq!(tokenize("&&&"), Ok(vec![Token::BolAnd, Token::And]));
    assert_eq!(tokenize("|||"), Ok(vec![Token::BolOr, Token::Or]));
    assert_eq!(tokenize(".."), Ok(vec![Token::Dot, Token::Dot]));
    assert_eq!(tokenize("...."), Ok(vec![Token::Ellipsis, Token::Dot]));
    assert_eq!(tokenize("==="), Ok(vec![Token::Eq, Token::Assign]));
    assert_eq!(tokenize("_|_|_"), Ok(vec![Token::Bottom, Token::Or, ident("_")]));
    assert_eq!(tokenize("_|"), Ok(vec![ident("_"), Token::Or]));
}

#[test]
fn a_token_is_the_same_whatever_follows_it() {
    assert_eq!(tokenize("1.5G+x"), Ok(vec![scaled("1.5", "G"), Token::Add, ident("x")]));
    assert_eq!(tokenize("1.5G x"), Ok(vec![scaled("1.5", "G"), ident("x")]));
    assert_eq!(tokenize("1.5Gx"), Ok(vec![scaled("1.5", "G"), ident("x")]));
}

#[test]
fn leading_zero_is_rejected_in_decimal_integers_only() {
    assert_eq!(tokenize("0"), Ok(vec![decimal("0")]));
    assert_eq!(
        tokenize("07"),
        Err(LexError::LeadingZero { text: "07".to_string(), position: 0 })
    );
    assert_eq!(tokenize("0.7"), Ok(vec![float("0.7")]));
    assert_eq!(tokenize("0x07"), Ok(vec![Token::IntLit(IntLit::HexLit("0x07".to_string()))]));
    assert_eq!(tokenize("0X07"), Ok(vec![Token::IntLit(IntLit::HexLit("0X07".to_string()))]));
    assert_eq!(tokenize("0o07"), Ok(vec![Token::IntLit(IntLit::OctalLit("0o07".to_string()))]));
    assert_eq!(tokenize("0b01"), Ok(vec![Token::IntLit(IntLit::BinaryLit("0b01".to_string()))]));
    assert_eq!(tokenize("07K"), Ok(vec![scaled("07", "K")]));
    assert_eq!(tokenize("07e1"), Ok(vec![float_exp("07", "e1")]));
    assert_eq!(
        tokenize("00"),
        Err(LexError::LeadingZero { text: "00".to_string(), position: 0 })
    );
    assert_eq!(
        tokenize("0_1"),
        Err(LexError::LeadingZero { text: "0_1".to_string(), position: 0 })
    );
    assert_eq!(
        tokenize("x 12 007 y"),
        Err(LexError::LeadingZero { text: "007".to_string(), position: 5 })
    );
}

#[test]
fn underscores_group_digits() {
    assert_eq!(tokenize("1_000"), Ok(vec![decimal("1_000")]));
    assert_eq!(
        tokenize("0xBad_Face"),
        Ok(vec![Token::IntLit(IntLit::HexLit("0xBad_Face".to_string()))])
    );
    assert_eq!(
        tokenize("0b0101_0001"),
        Ok(vec![Token::IntLit(IntLit::BinaryLit("0b0101_0001".to_string()))])
    );
    assert_eq!(tokenize("1.2_5"), Ok(vec![float("1.2_5")]));
    assert_eq!(tokenize("1e1_0"), Ok(vec![float_exp("1", "e1_0")]));
    assert_eq!(tokenize("1.2_5G"), Ok(vec![scaled("1.2_5", "G")]));
}

#[test]
fn stray_underscores_are_left_out_of_literals() {
    assert_eq!(tokenize("1_"), Ok(vec![decimal("1"), ident("_")]));
    assert_eq!(tokenize("1_ 2"), Ok(vec![decimal("1"), ident("_"), decimal("2")]));
    assert_eq!(
        tokenize("1__0"),
        Ok(vec![decimal("1"), Token::Keyword("__0".to_string())])
    );
    assert_eq!(tokenize("_1"), Ok(vec![ident("_1")]));
    assert_eq!(
        tokenize("0x_1"),
        Ok(vec![Token::IntLit(IntLit::HexLit("0x".to_string())), ident("_1")])
    );
    assert_eq!(
        tokenize("0b1_"),
        Ok(vec![Token::IntLit(IntLit::BinaryLit("0b1".to_string())), ident("_")])
    );
    assert_eq!(tokenize("1._5"), Ok(vec![float("1."), ident("_5")]));
    assert_eq!(tokenize("1e_5"), Ok(vec![float_exp("1", "e"), ident("_5")]));
    assert_eq!(tokenize("1.5_G"), Ok(vec![float("1.5"), ident("_G")]));
}

#[test]
fn digits_of_another_radix_end_a_literal() {
    assert_eq!(
        tokenize("0b012"),
        Ok(vec![Token::IntLit(IntLit::BinaryLit("0b01".to_string())), decimal("2")])
    );
    assert_eq!(
        tokenize("0o78"),
        Ok(vec![Token::IntLit(IntLit::OctalLit("0o7".to_string())), decimal("8")])
    );
    assert_eq!(
        tokenize("0xfg"),
        Ok(vec![Token::IntLit(IntLit::HexLit("0xf".to_string())), ident("g")])
    );
    assert_eq!(tokenize("0x"), Ok(vec![Token::IntLit(IntLit::HexLit("0x".to_string()))]));
    assert_eq!(tokenize("0B1"), Ok(vec![decimal("0"), ident("B1")]));
}

#[test]
fn keywords_are_whole_words() {
    assert_eq!(tokenize("let"), Ok(vec![Token::Let]));
    assert_eq!(tokenize("true"), Ok(vec![Token::BConst(true)]));
    assert_eq!(tokenize("false"), Ok(vec![Token::BConst(false)]));
    assert_eq!(tokenize("null"), Ok(vec![Token::Null]));
    assert_eq!(tokenize("package"), Ok(vec![Token::Package]));
    assert_eq!(tokenize("import"), Ok(vec![Token::Import]));
    assert_eq!(tokenize("for"), Ok(vec![Token::For]));
    assert_eq!(tokenize("in"), Ok(vec![Token::In]));
    assert_eq!(tokenize("if"), Ok(vec![Token::If]));
    assert_eq!(tokenize("lets"), Ok(vec![ident("lets")]));
    assert_eq!(tokenize("iff"), Ok(vec![ident("iff")]));
    assert_eq!(tokenize("nulls"), Ok(vec![ident("nulls")]));
    assert_eq!(tokenize("truefalse"), Ok(vec![ident("truefalse")]));
    assert_eq!(tokenize("let1"), Ok(vec![ident("let1")]));
    assert_eq!(tokenize("_let"), Ok(vec![ident("_let")]));
    assert_eq!(tokenize("#let"), Ok(vec![ident("#let")]));
    assert_eq!(tokenize("Let"), Ok(vec![ident("Let")]));
    assert_eq!(tokenize("let s"), Ok(vec![Token::Let, ident("s")]));
}

#[test]
fn reserved_names_start_with_two_underscores() {
    assert_eq!(tokenize("__x"), Ok(vec![Token::Keyword("__x".to_string())]));
    assert_eq!(tokenize("__"), Ok(vec![Token::Keyword("__".to_string())]));
    assert_eq!(tokenize("_x"), Ok(vec![ident("_x")]));
    assert_eq!(tokenize("_"), Ok(vec![ident("_")]));
    assert_eq!(tokenize("_#x"), Ok(vec![ident("_#x")]));
    assert_eq!(tokenize("#x"), Ok(vec![ident("#x")]));
    assert_eq!(tokenize("#_x1"), Ok(vec![ident("#_x1")]));
    assert_eq!(tokenize("$x"), Ok(vec![ident("$x")]));
    assert_eq!(tokenize("x$y_z"), Ok(vec![ident("x$y_z")]));
}

#[test]
fn identifiers_hold_unicode_letters_and_digits() {
    assert_eq!(tokenize("αβ"), Ok(vec![ident("αβ")]));
    assert_eq!(tokenize("x١٢"), Ok(vec![ident("x١٢")]));
    assert_eq!(tokenize("名前"), Ok(vec![ident("名前")]));
    assert_eq!(
        tokenize("١"),
        Err(LexError::UnexpectedCharacter { character: '١', position: 0 })
    );
}

#[test]
fn example_of_words() {
    assert_eq!(
        tokenize("fn _#lol x let y Int αβ Int x  y "),
        Ok(vec![
            ident("fn"),
            ident("_#lol"),
            ident("x"),
            Token::Let,
            ident("y"),
            ident("Int"),
            ident("αβ"),
            ident("Int"),
            ident("x"),
            ident("y"),
        ])
    );
}

#[test]
fn example_of_integers() {
    assert_eq!(
        tokenize("42 1.5G 1.3Ki 0xBad_Face 0o755 0b0101_0001"),
        Ok(vec![
            decimal("42"),
            scaled("1.5", "G"),
            scaled("1.3", "Ki"),
            Token::IntLit(IntLit::HexLit("0xBad_Face".to_string())),
            Token::IntLit(IntLit::OctalLit("0o755".to_string())),
            Token::IntLit(IntLit::BinaryLit("0b0101_0001".to_string())),
        ])
    );
}

#[test]
fn example_of_floats() {
    assert_eq!(
        tokenize("0. 1.e+0 1E6 .25"),
        Ok(vec![float("0."), float_exp("1.", "e+0"), float_exp("1", "E6"), float(".25")])
    );
}

#[test]
fn scaled_integers_take_a_marker_and_an_i() {
    assert_eq!(tokenize("1K"), Ok(vec![scaled("1", "K")]));
    assert_eq!(tokenize("2Mi"), Ok(vec![scaled("2", "Mi")]));
    assert_eq!(tokenize("3T"), Ok(vec![scaled("3", "T")]));
    assert_eq!(tokenize("4Pi"), Ok(vec![scaled("4", "Pi")]));
    assert_eq!(tokenize("1.5Mi"), Ok(vec![scaled("1.5", "Mi")]));
    assert_eq!(tokenize(".5G"), Ok(vec![scaled(".5", "G")]));
    assert_eq!(tokenize("1Kib"), Ok(vec![scaled("1", "Ki"), ident("b")]));
    assert_eq!(tokenize("1KI"), Ok(vec![scaled("1", "K"), ident("I")]));
    assert_eq!(tokenize("1k"), Ok(vec![decimal("1"), ident("k")]));
    assert_eq!(tokenize("1.G"), Ok(vec![float("1."), ident("G")]));
    assert_eq!(tokenize("1_G"), Ok(vec![decimal("1"), ident("_G")]));
}

#[test]
fn floats_take_a_point_or_an_exponent() {
    assert_eq!(tokenize("1."), Ok(vec![float("1.")]));
    assert_eq!(tokenize(".5"), Ok(vec![float(".5")]));
    assert_eq!(tokenize("1e"), Ok(vec![float_exp("1", "e")]));
    assert_eq!(tokenize("1e+"), Ok(vec![float_exp("1", "e+")]));
    assert_eq!(tokenize("1e-7"), Ok(vec![float_exp("1", "e-7")]));
    assert_eq!(tokenize("1e+-7"), Ok(vec![float_exp("1", "e+"), Token::Sub, decimal("7")]));
    assert_eq!(tokenize("2.5e10"), Ok(vec![float_exp("2.5", "e10")]));
    assert_eq!(tokenize("1.2.3"), Ok(vec![float("1.2"), float(".3")]));
    assert_eq!(tokenize("1..2"), Ok(vec![float("1."), float(".2")]));
    assert_eq!(tokenize("1.x"), Ok(vec![float("1."), ident("x")]));
    assert_eq!(tokenize(". 5"), Ok(vec![Token::Dot, decimal("5")]));
    assert_eq!(tokenize(".5_5"), Ok(vec![float(".5_5")]));
    assert_eq!(tokenize(".5e3"), Ok(vec![float_exp(".5", "e3")]));
    assert_eq!(tokenize(".e3"), Ok(vec![Token::Dot, ident("e3")]));
}

#[test]
fn every_operator_and_mark_is_found() {
    assert_eq!(
        tokenize("+ - * / && || & | == != =~ !~ < > <= >= = : ? ! ( ) { } [ ] _|_ ... , ."),
        Ok(vec![
            Token::Add,
            Token::Sub,
            Token::Mul,
            Token::Div,
            Token::BolAnd,
            Token::BolOr,
            Token::And,
            Token::Or,
            Token::Eq,
            Token::NotEq,
            Token::PatternEq,
            Token::PatternNotEq,
            Token::Less,
            Token::Greater,
            Token::LessEq,
            Token::GreaterEq,
            Token::Assign,
            Token::Colon,
            Token::Question,
            Token::Exlamation,
            Token::LParen,
            Token::RParen,
            Token::LBrace,
            Token::RBrace,
            Token::LBracket,
            Token::RBracket,
            Token::Bottom,
            Token::Ellipsis,
            Token::Comma,
            Token::Dot,
        ])
    );
    assert_eq!(
        tokenize("a<=b!=c"),
        Ok(vec![ident("a"), Token::LessEq, ident("b"), Token::NotEq, ident("c")])
    );
}

#[test]
fn unexpected_characters_are_reported_with_their_position() {
    assert_eq!(
        tokenize("a @ b"),
        Err(LexError::UnexpectedCharacter { character: '@', position: 2 })
    );
    assert_eq!(
        tokenize("#"),
        Err(LexError::UnexpectedCharacter { character: '#', position: 0 })
    );
    assert_eq!(
        tokenize("x #1"),
        Err(LexError::UnexpectedCharacter { character: '#', position: 2 })
    );
    assert_eq!(
        tokenize("αβ \"s\""),
        Err(LexError::UnexpectedCharacter { character: '"', position: 3 })
    );
    assert_eq!(
        tokenize("1 ~"),
        Err(LexError::UnexpectedCharacter { character: '~', position: 2 })
    );
    assert_eq!(
        tokenize("% 07"),
        Err(LexError::UnexpectedCharacter { character: '%', position: 0 })
    );
}

#[test]
fn errors_tell_their_position() {
    assert_eq!(LexError::LeadingZero { text: "07".to_string(), position: 4 }.position(), 4);
    assert_eq!(LexError::UnexpectedCharacter { character: '@', position: 9 }.position(), 9);
    let error = tokenize("ab 012").unwrap_err();
    assert_eq!(error.position(), 3);
    assert_eq!(error.clone(), error);
}

#[test]
fn what_is_no_white_space_is_not_skipped() {
    assert_eq!(
        tokenize("a\u{200b}b"),
        Err(LexError::UnexpectedCharacter { character: '\u{200b}', position: 1 })
    );
    assert_eq!(
        tokenize("\u{0}"),
        Err(LexError::UnexpectedCharacter { character: '\u{0}', position: 0 })
    );
}

#[test]
fn white_space_of_every_kind_is_skipped() {
    assert_eq!(
        tokenize("a\tb\nc\r\nd\u{a0}e\u{3000}f\u{2028}g"),
        Ok(vec![
            ident("a"),
            ident("b"),
            ident("c"),
            ident("d"),
            ident("e"),
            ident("f"),
            ident("g"),
        ])
    );
}

#[test]
fn a_scanner_can_be_asked_again() {
    let mut lexer = Lexer::new("a + 1");
    let first = lexer.lex();
    assert_eq!(first, Ok(vec![ident("a"), Token::Add, decimal("1")]));
    assert_eq!(lexer.lex(), first);

    let mut failing = Lexer::new("a + 01 b");
    let error = failing.lex();
    assert_eq!(error, Err(LexError::LeadingZero { text: "01".to_string(), position: 4 }));
    assert_eq!(failing.lex(), error);
}

#[test]
fn scanning_is_a_function_of_the_text() {
    assert_eq!(tokenize(MIXED), Lexer::new(MIXED).lex());
    assert_eq!(tokenize(MIXED), tokenize(MIXED));
    assert_eq!(tokenize("a 09"), tokenize("a 09"));
}

#[test]
fn tokens_can_be_copied() {
    let tokens = tokenize(MIXED).unwrap();
    let copies: Vec<Token> = tokens.iter().map(|token| token.clone()).collect();
    assert_eq!(copies, tokens);
    let bytes = Token::ByteLit(vec![1, 2, 3]);
    assert_eq!(bytes.clone(), bytes);
    let string = Token::StringLit("s".to_string());
    assert_eq!(string.clone(), string);
    assert_eq!(Token::Top.clone(), Token::Top);
}

#[test]
fn ascii_classes() {
    assert!(is_newline('\n'));
    assert!(!is_newline('\r'));
    assert!(is_unicode_char('a'));
    assert!(!is_unicode_char('\n'));
    for c in ['0', '5', '9'] {
        assert!(is_digit(c));
    }
    for c in ['/', ':', 'a', '١'] {
        assert!(!is_digit(c));
    }
    assert!(is_binary_digit('0') && is_binary_digit('1') && !is_binary_digit('2'));
    assert!(is_octal_digit('0') && is_octal_digit('7'));
    assert!(!is_octal_digit('8') && !is_octal_digit('9') && !is_octal_digit('a'));
    for c in ['0', '9', 'a', 'f', 'A', 'F'] {
        assert!(is_hex_digit(c));
    }
    for c in ['g', 'G', '/', ':', '@', '`', '_'] {
        assert!(!is_hex_digit(c));
    }
    for c in ['K', 'M', 'G', 'T', 'P'] {
        assert!(is_multiplier(c));
    }
    for c in ['k', 'm', 'E', 'i', '1'] {
        assert!(!is_multiplier(c));
    }
    assert!(is_radix_digit(Radix::Binary, '1') && !is_radix_digit(Radix::Binary, '7'));
    assert!(is_radix_digit(Radix::Octal, '7') && !is_radix_digit(Radix::Octal, '9'));
    assert!(is_radix_digit(Radix::Decimal, '9') && !is_radix_digit(Radix::Decimal, 'a'));
    assert!(is_radix_digit(Radix::Hexadecimal, 'a') && !is_radix_digit(Radix::Hexadecimal, 'g'));
}

#[test]
fn unicode_classes() {
    for c in ['A', 'z', 'α', 'ǅ', 'ʰ', '名'] {
        assert!(is_unicode_letter(c));
        assert!(is_letter(c));
        assert!(is_identifier_part(c));
        assert!(!is_unicode_digit(c));
    }
    for c in ['0', '9', '١', '０'] {
        assert!(is_unicode_digit(c));
        assert!(is_identifier_part(c));
        assert!(!is_unicode_letter(c));
        assert!(!is_letter(c));
    }
    for c in ['_', '$'] {
        assert!(is_letter(c));
        assert!(!is_unicode_letter(c));
    }
    for c in ['+', '#', ' ', 'Ⅷ', '²', '\u{301}'] {
        assert!(!is_letter(c));
        assert!(!is_unicode_digit(c));
        assert!(!is_identifier_part(c));
    }
}

#[test]
fn categories_of_letters_and_digits() {
    for category in [
        Category::UppercaseLetter,
        Category::LowercaseLetter,
        Category::TitlecaseLetter,
        Category::ModifierLetter,
        Category::OtherLetter,
    ] {
        assert!(category.is_letter());
        assert!(!category.is_decimal_number());
    }
    assert!(Category::DecimalNumber.is_decimal_number());
    assert!(!Category::DecimalNumber.is_letter());
    assert!(!Category::Other.is_letter());
    assert!(!Category::Other.is_decimal_number());
}

#[test]
fn strings_and_characters_convert() {
    assert_eq!(chars_of("aβ1"), vec!['a', 'β', '1']);
    assert_eq!(chars_of(""), Vec::<char>::new());
    let chars = vec!['a', 'β', 'c', 'd'];
    assert_eq!(string_of(&chars, 1, 3), "βc");
    assert_eq!(string_of(&chars, 0, 4), "aβcd");
    assert_eq!(string_of(&chars, 2, 2), "");
}

#[test]
fn sums_are_exact() {
    assert_eq!(cue_lexer::add(0, 0), 0);
    assert_eq!(cue_lexer::add(40, 2), 42);
    assert_eq!(cue_lexer::add(usize::MAX - 1, 1), usize::MAX);
}
