//! The tokens that the scanner produces, and their mathematical models.

use crate::chars::Radix;
use vstd::prelude::*;

verus! {

/// An integer literal, by the form in which it is written. Each form carries
/// the literal's text as written, prefix and `_` separators included.
#[derive(PartialEq, Debug)]
pub enum IntLit {
    DecimalLit(String),
    /// A scaled integer: the mantissa, and the unit (`K`, `Mi`, ...).
    SiLit(String, String),
    OctalLit(String),
    BinaryLit(String),
    HexLit(String),
}

/// A floating-point literal, by the form in which it is written.
#[derive(PartialEq, Debug)]
pub enum FloatLit {
    /// The mantissa, and the exponent with its `e` or `E` and its sign.
    WithExp(String, String),
    WithoutExp(String),
}

/// One lexical unit.
#[derive(PartialEq, Debug)]
pub enum Token {
    Identifier(String),
    Keyword(String),
    Null,
    BConst(bool),
    Package,
    Import,
    For,
    In,
    If,
    Let,
    Add,
    Sub,
    Mul,
    Div,
    BolAnd,
    BolOr,
    And,
    Or,
    Eq,
    NotEq,
    PatternEq,
    PatternNotEq,
    Less,
    Greater,
    LessEq,
    GreaterEq,
    Assign,
    Colon,
    Question,
    Exlamation,
    LParen,
    RParen,
    LBrace,
    RBrace,
    LBracket,
    RBracket,
    Bottom,
    Top,
    Ellipsis,
    Comma,
    Dot,
    IntLit(IntLit),
    FloatLit(FloatLit),
    StringLit(String),
    ByteLit(Vec<u8>),
}

/// The model of an [`IntLit`]: its texts as sequences of characters.
pub ghost enum IntLitView {
    DecimalLit(Seq<char>),
    SiLit(Seq<char>, Seq<char>),
    OctalLit(Seq<char>),
    BinaryLit(Seq<char>),
    HexLit(Seq<char>),
}

/// The model of a [`FloatLit`].
pub ghost enum FloatLitView {
    WithExp(Seq<char>, Seq<char>),
    WithoutExp(Seq<char>),
}

/// The model of a [`Token`].
pub ghost enum TokenView {
    Identifier(Seq<char>),
    Keyword(Seq<char>),
    Null,
    BConst(bool),
    Package,
    Import,
    For,
    In,
    If,
    Let,
    Add,
    Sub,
    Mul,
    Div,
    BolAnd,
    BolOr,
    And,
    Or,
    Eq,
    NotEq,
    PatternEq,
    PatternNotEq,
    Less,
    Greater,
    LessEq,
    GreaterEq,
    Assign,
    Colon,
    Question,
    Exlamation,
    LParen,
    RParen,
    LBrace,
    RBrace,
    LBracket,
    RBracket,
    Bottom,
    Top,
    Ellipsis,
    Comma,
    Dot,
    IntLit(IntLitView),
    FloatLit(FloatLitView),
    StringLit(Seq<char>),
    ByteLit(Seq<u8>),
}

impl View for IntLit {
    type V = IntLitView;

    open spec fn view(&self) -> IntLitView {
        match *self {
            IntLit::DecimalLit(text) => IntLitView::DecimalLit(text@),
            IntLit::SiLit(mantissa, unit) => IntLitView::SiLit(mantissa@, unit@),
            IntLit::OctalLit(text) => IntLitView::OctalLit(text@),
            IntLit::BinaryLit(text) => IntLitView::BinaryLit(text@),
            IntLit::HexLit(text) => IntLitView::HexLit(text@),
        }
    }
}

impl View for FloatLit {
    type V = FloatLitView;

    open spec fn view(&self) -> FloatLitView {
        match *self {
            FloatLit::WithExp(mantissa, exponent) => FloatLitView::WithExp(mantissa@, exponent@),
            FloatLit::WithoutExp(text) => FloatLitView::WithoutExp(text@),
        }
    }
}

impl View for Token {
    type V = TokenView;

    open spec fn view(&self) -> TokenView {
        match *self {
            Token::Identifier(text) => TokenView::Identifier(text@),
            Token::Keyword(text) => TokenView::Keyword(text@),
            Token::Null => TokenView::Null,
            Token::BConst(value) => TokenView::BConst(value),
            Token::Package => TokenView::Package,
            Token::Import => TokenView::Import,
            Token::For => TokenView::For,
            Token::In => TokenView::In,
            Token::If => TokenView::If,
            Token::Let => TokenView::Let,
            Token::Add => TokenView::Add,
            Token::Sub => TokenView::Sub,
            Token::Mul => TokenView::Mul,
            Token::Div => TokenView::Div,
            Token::BolAnd => TokenView::BolAnd,
            Token::BolOr => TokenView::BolOr,
            Token::And => TokenView::And,
            Token::Or => TokenView::Or,
            Token::Eq => TokenView::Eq,
            Token::NotEq => TokenView::NotEq,
            Token::PatternEq => TokenView::PatternEq,
            Token::PatternNotEq => TokenView::PatternNotEq,
            Token::Less => TokenView::Less,
            Token::Greater => TokenView::Greater,
            Token::LessEq => TokenView::LessEq,
            Token::GreaterEq => TokenView::GreaterEq,
            Token::Assign => TokenView::Assign,
            Token::Colon => TokenView::Colon,
            Token::Question => TokenView::Question,
            Token::Exlamation => TokenView::Exlamation,
            Token::LParen => TokenView::LParen,
            Token::RParen => TokenView::RParen,
            Token::LBrace => TokenView::LBrace,
            Token::RBrace => TokenView::RBrace,
            Token::LBracket => TokenView::LBracket,
            Token::RBracket => TokenView::RBracket,
            Token::Bottom => TokenView::Bottom,
            Token::Top => TokenView::Top,
            Token::Ellipsis => TokenView::Ellipsis,
            Token::Comma => TokenView::Comma,
            Token::Dot => TokenView::Dot,
            Token::IntLit(literal) => TokenView::IntLit(literal@),
            Token::FloatLit(literal) => TokenView::FloatLit(literal@),
            Token::StringLit(text) => TokenView::StringLit(text@),
            Token::ByteLit(bytes) => TokenView::ByteLit(bytes@),
        }
    }
}

impl Clone for IntLit {
    fn clone(&self) -> (copy: Self)
        ensures
            copy@ == self@,
    {
        match self {
            IntLit::DecimalLit(text) => IntLit::DecimalLit(text.clone()),
            IntLit::SiLit(mantissa, unit) => IntLit::SiLit(mantissa.clone(), unit.clone()),
            IntLit::OctalLit(text) => IntLit::OctalLit(text.clone()),
            IntLit::BinaryLit(text) => IntLit::BinaryLit(text.clone()),
            IntLit::HexLit(text) => IntLit::HexLit(text.clone()),
        }
    }
}

impl Clone for FloatLit {
    fn clone(&self) -> (copy: Self)
        ensures
            copy@ == self@,
    {
        match self {
            FloatLit::WithExp(mantissa, exponent) => FloatLit::WithExp(
                mantissa.clone(),
                exponent.clone(),
            ),
            FloatLit::WithoutExp(text) => FloatLit::WithoutExp(text.clone()),
        }
    }
}

impl Clone for Token {
    fn clone(&self) -> (copy: Self)
        ensures
            copy@ == self@,
    {
        match self {
            Token::Identifier(text) => Token::Identifier(text.clone()),
            Token::Keyword(text) => Token::Keyword(text.clone()),
            Token::Null => Token::Null,
            Token::BConst(value) => Token::BConst(*value),
            Token::Package => Token::Package,
            Token::Import => Token::Import,
            Token::For => Token::For,
            Token::In => Token::In,
            Token::If => Token::If,
            Token::Let => Token::Let,
            Token::Add => Token::Add,
            Token::Sub => Token::Sub,
            Token::Mul => Token::Mul,
            Token::Div => Token::Div,
            Token::BolAnd => Token::BolAnd,
            Token::BolOr => Token::BolOr,
            Token::And => Token::And,
            Token::Or => Token::Or,
            Token::Eq => Token::Eq,
            Token::NotEq => Token::NotEq,
            Token::PatternEq => Token::PatternEq,
            Token::PatternNotEq => Token::PatternNotEq,
            Token::Less => Token::Less,
            Token::Greater => Token::Greater,
            Token::LessEq => Token::LessEq,
            Token::GreaterEq => Token::GreaterEq,
            Token::Assign => Token::Assign,
            Token::Colon => Token::Colon,
            Token::Question => Token::Question,
            Token::Exlamation => Token::Exlamation,
            Token::LParen => Token::LParen,
            Token::RParen => Token::RParen,
            Token::LBrace => Token::LBrace,
            Token::RBrace => Token::RBrace,
            Token::LBracket => Token::LBracket,
            Token::RBracket => Token::RBracket,
            Token::Bottom => Token::Bottom,
            Token::Top => Token::Top,
            Token::Ellipsis => Token::Ellipsis,
            Token::Comma => Token::Comma,
            Token::Dot => Token::Dot,
            Token::IntLit(literal) => Token::IntLit(literal.clone()),
            Token::FloatLit(literal) => Token::FloatLit(literal.clone()),
            Token::StringLit(text) => Token::StringLit(text.clone()),
            Token::ByteLit(bytes) => Token::ByteLit(bytes.clone()),
        }
    }
}

impl IntLitView {
    /// The literal as it is written.
    pub open spec fn text(self) -> Seq<char> {
        match self {
            IntLitView::DecimalLit(text) => text,
            IntLitView::SiLit(mantissa, unit) => mantissa + unit,
            IntLitView::OctalLit(text) => text,
            IntLitView::BinaryLit(text) => text,
            IntLitView::HexLit(text) => text,
        }
    }
}

impl FloatLitView {
    /// The literal as it is written.
    pub open spec fn text(self) -> Seq<char> {
        match self {
            FloatLitView::WithExp(mantissa, exponent) => mantissa + exponent,
            FloatLitView::WithoutExp(text) => text,
        }
    }
}

impl TokenView {
    /// Whether the scanner has a rule that yields this token. It has none
    /// for string literals, byte literals and `Top`.
    pub open spec fn is_scannable(self) -> bool {
        !(self is StringLit || self is ByteLit || self is Top)
    }

    /// Whether the token is one that a word can be: an identifier, a
    /// reserved name or a fixed keyword.
    pub open spec fn is_word(self) -> bool {
        match self {
            TokenView::Identifier(_)
            | TokenView::Keyword(_)
            | TokenView::Null
            | TokenView::BConst(_)
            | TokenView::Package
            | TokenView::Import
            | TokenView::For
            | TokenView::In
            | TokenView::If
            | TokenView::Let => true,
            _ => false,
        }
    }

    /// The radix in which the digits of a numeric literal are written.
    pub open spec fn radix(self) -> Radix {
        match self {
            TokenView::IntLit(IntLitView::BinaryLit(_)) => Radix::Binary,
            TokenView::IntLit(IntLitView::OctalLit(_)) => Radix::Octal,
            TokenView::IntLit(IntLitView::HexLit(_)) => Radix::Hexadecimal,
            _ => Radix::Decimal,
        }
    }

    /// The token as it is written in a text. The tokens for which the
    /// scanner has no rule have no written form: their text is empty.
    pub open spec fn text(self) -> Seq<char> {
        match self {
            TokenView::Identifier(text) => text,
            TokenView::Keyword(text) => text,
            TokenView::Null => "null"@,
            TokenView::BConst(value) => if value {
                "true"@
            } else {
                "false"@
            },
            TokenView::Package => "package"@,
            TokenView::Import => "import"@,
            TokenView::For => "for"@,
            TokenView::In => "in"@,
            TokenView::If => "if"@,
            TokenView::Let => "let"@,
            TokenView::Add => "+"@,
            TokenView::Sub => "-"@,
            TokenView::Mul => "*"@,
            TokenView::Div => "/"@,
            TokenView::BolAnd => "&&"@,
            TokenView::BolOr => "||"@,
            TokenView::And => "&"@,
            TokenView::Or => "|"@,
            TokenView::Eq => "=="@,
            TokenView::NotEq => "!="@,
            TokenView::PatternEq => "=~"@,
            TokenView::PatternNotEq => "!~"@,
            TokenView::Less => "<"@,
            TokenView::Greater => ">"@,
            TokenView::LessEq => "<="@,
            TokenView::GreaterEq => ">="@,
            TokenView::Assign => "="@,
            TokenView::Colon => ":"@,
            TokenView::Question => "?"@,
            TokenView::Exlamation => "!"@,
            TokenView::LParen => "("@,
            TokenView::RParen => ")"@,
            TokenView::LBrace => "{"@,
            TokenView::RBrace => "}"@,
            TokenView::LBracket => "["@,
            TokenView::RBracket => "]"@,
            TokenView::Bottom => "_|_"@,
            TokenView::Ellipsis => "..."@,
            TokenView::Comma => ","@,
            TokenView::Dot => "."@,
            TokenView::IntLit(literal) => literal.text(),
            TokenView::FloatLit(literal) => literal.text(),
            TokenView::Top => Seq::empty(),
            TokenView::StringLit(_) => Seq::empty(),
            TokenView::ByteLit(_) => Seq::empty(),
        }
    }
}

/// The models of a sequence of tokens, in order.
pub open spec fn views(tokens: Seq<Token>) -> Seq<TokenView> {
    tokens.map_values(|token: Token| token@)
}

/// The model of a sequence with one more token is the model of the sequence
/// with the model of the token at its end.
pub proof fn lemma_views_push(tokens: Seq<Token>, token: Token)
    ensures
        views(tokens.push(token)) == views(tokens).push(token@),
{
    assert(views(tokens.push(token)) =~= views(tokens).push(token@));
}

} // verus!
