//! Character classes of the lexical grammar.

use unicode_general_category::{get_general_category, GeneralCategory};
use vstd::prelude::*;

verus! {

/// The Unicode general categories that the grammar tells apart. Every
/// category that is neither a letter category nor `DecimalNumber` is `Other`.
#[derive(Clone, Copy, Debug, PartialEq, Eq, Structural)]
pub enum Category {
    UppercaseLetter,
    LowercaseLetter,
    TitlecaseLetter,
    ModifierLetter,
    OtherLetter,
    DecimalNumber,
    Other,
}

/// The general category that the Unicode character database gives to `c`,
/// as far as [`Category`] tells categories apart.
pub uninterp spec fn general_category(c: char) -> Category;

/// Whether `c` has the Unicode property `White_Space`.
pub uninterp spec fn white_space(c: char) -> bool;

/// Looks `c` up with `unicode_general_category::get_general_category`.
///
/// Trusted: the lookup is a pure function of `c` (two constant tables, or
/// `PrivateUse` past the last code point of the tables), so its result has
/// the name [`general_category`]. The five letter categories and
/// `DecimalNumber` are handed on as they are; all others become `Other`.
#[verifier::external_body]
pub(crate) fn category_of(c: char) -> (category: Category)
    ensures
        category == general_category(c),
{
    match get_general_category(c) {
        GeneralCategory::UppercaseLetter => Category::UppercaseLetter,
        GeneralCategory::LowercaseLetter => Category::LowercaseLetter,
        GeneralCategory::TitlecaseLetter => Category::TitlecaseLetter,
        GeneralCategory::ModifierLetter => Category::ModifierLetter,
        GeneralCategory::OtherLetter => Category::OtherLetter,
        GeneralCategory::DecimalNumber => Category::DecimalNumber,
        _ => Category::Other,
    }
}

/// `char::is_whitespace` of std: true exactly for the characters with the
/// Unicode property `White_Space`. Trusted; the set is named, not listed.
pub assume_specification[ char::is_whitespace ](c: char) -> (b: bool)
    ensures
        b == white_space(c),
;

/// What [`is_newline`] computes.
pub open spec fn spec_is_newline(c: char) -> bool {
    c == '\n'
}

/// Whether `c` is a line feed.
#[verifier::when_used_as_spec(spec_is_newline)]
pub fn is_newline(c: char) -> (b: bool)
    ensures
        b == spec_is_newline(c),
{
    c == '\n'
}

/// What [`is_digit`] computes.
pub open spec fn spec_is_digit(c: char) -> bool {
    '0' <= c <= '9'
}

/// Whether `c` is one of the ASCII digits `0` to `9`.
#[verifier::when_used_as_spec(spec_is_digit)]
pub fn is_digit(c: char) -> (b: bool)
    ensures
        b == spec_is_digit(c),
{
    '0' <= c && c <= '9'
}

impl Category {
    /// What [`Category::is_letter`] computes.
    pub open spec fn spec_is_letter(self) -> bool {
        match self {
            Category::UppercaseLetter
            | Category::LowercaseLetter
            | Category::TitlecaseLetter
            | Category::ModifierLetter
            | Category::OtherLetter => true,
            _ => false,
        }
    }

    /// Whether the category is one of the five letter categories.
    #[verifier::when_used_as_spec(spec_is_letter)]
    pub fn is_letter(self) -> (b: bool)
        ensures
            b == self.spec_is_letter(),
    {
        match self {
            Category::UppercaseLetter => true,
            Category::LowercaseLetter => true,
            Category::TitlecaseLetter => true,
            Category::ModifierLetter => true,
            Category::OtherLetter => true,
            _ => false,
        }
    }

    /// What [`Category::is_decimal_number`] computes.
    pub open spec fn spec_is_decimal_number(self) -> bool {
        self == Category::DecimalNumber
    }

    /// Whether the category is `DecimalNumber`.
    #[verifier::when_used_as_spec(spec_is_decimal_number)]
    pub fn is_decimal_number(self) -> (b: bool)
        ensures
            b == self.spec_is_decimal_number(),
    {
        match self {
            Category::DecimalNumber => true,
            _ => false,
        }
    }
}

/// What [`is_unicode_letter`] computes.
pub open spec fn spec_is_unicode_letter(c: char) -> bool {
    general_category(c).is_letter()
}

/// Whether the general category of `c` is one of the five letter categories.
#[verifier::when_used_as_spec(spec_is_unicode_letter)]
pub fn is_unicode_letter(c: char) -> (b: bool)
    ensures
        b == spec_is_unicode_letter(c),
{
    category_of(c).is_letter()
}

/// What [`is_unicode_char`] computes.
pub open spec fn spec_is_unicode_char(c: char) -> bool {
    !spec_is_newline(c)
}

/// Whether `c` is any character but a line feed.
#[verifier::when_used_as_spec(spec_is_unicode_char)]
pub fn is_unicode_char(c: char) -> (b: bool)
    ensures
        b == spec_is_unicode_char(c),
{
    !is_newline(c)
}

/// What [`is_unicode_digit`] computes.
pub open spec fn spec_is_unicode_digit(c: char) -> bool {
    general_category(c).is_decimal_number()
}

/// Whether the general category of `c` is `DecimalNumber`.
#[verifier::when_used_as_spec(spec_is_unicode_digit)]
pub fn is_unicode_digit(c: char) -> (b: bool)
    ensures
        b == spec_is_unicode_digit(c),
{
    category_of(c).is_decimal_number()
}

/// What [`is_letter`] computes.
pub open spec fn spec_is_letter(c: char) -> bool {
    spec_is_unicode_letter(c) || c == '_' || c == '$'
}

/// Whether `c` may start an identifier: a Unicode letter, `_` or `$`.
#[verifier::when_used_as_spec(spec_is_letter)]
pub fn is_letter(c: char) -> (b: bool)
    ensures
        b == spec_is_letter(c),
{
    is_unicode_letter(c) || c == '_' || c == '$'
}

/// What [`is_binary_digit`] computes.
pub open spec fn spec_is_binary_digit(c: char) -> bool {
    c == '0' || c == '1'
}

/// Whether `c` is `0` or `1`.
#[verifier::when_used_as_spec(spec_is_binary_digit)]
pub fn is_binary_digit(c: char) -> (b: bool)
    ensures
        b == spec_is_binary_digit(c),
{
    c == '0' || c == '1'
}

/// What [`is_octal_digit`] computes.
pub open spec fn spec_is_octal_digit(c: char) -> bool {
    '0' <= c <= '7'
}

/// Whether `c` is one of the digits `0` to `7`.
#[verifier::when_used_as_spec(spec_is_octal_digit)]
pub fn is_octal_digit(c: char) -> (b: bool)
    ensures
        b == spec_is_octal_digit(c),
{
    is_digit(c) && c != '8' && c != '9'
}

/// What [`is_hex_digit`] computes.
pub open spec fn spec_is_hex_digit(c: char) -> bool {
    '0' <= c <= '9' || 'a' <= c <= 'f' || 'A' <= c <= 'F'
}

/// Whether `c` is an ASCII hexadecimal digit, in either case.
#[verifier::when_used_as_spec(spec_is_hex_digit)]
pub fn is_hex_digit(c: char) -> (b: bool)
    ensures
        b == spec_is_hex_digit(c),
{
    ('0' <= c && c <= '9') || ('a' <= c && c <= 'f') || ('A' <= c && c <= 'F')
}

/// What [`is_multiplier`] computes.
pub open spec fn spec_is_multiplier(c: char) -> bool {
    c == 'K' || c == 'M' || c == 'G' || c == 'T' || c == 'P'
}

/// Whether `c` is one of the magnitude markers `K`, `M`, `G`, `T`, `P`.
#[verifier::when_used_as_spec(spec_is_multiplier)]
pub fn is_multiplier(c: char) -> (b: bool)
    ensures
        b == spec_is_multiplier(c),
{
    c == 'K' || c == 'M' || c == 'G' || c == 'T' || c == 'P'
}

/// What [`is_identifier_part`] computes.
pub open spec fn spec_is_identifier_part(c: char) -> bool {
    spec_is_letter(c) || spec_is_unicode_digit(c)
}

/// Whether `c` may continue an identifier: a letter in the sense of
/// [`is_letter`], or a Unicode decimal digit.
#[verifier::when_used_as_spec(spec_is_identifier_part)]
pub fn is_identifier_part(c: char) -> (b: bool)
    ensures
        b == spec_is_identifier_part(c),
{
    is_letter(c) || is_unicode_digit(c)
}

/// The number bases in which a digit group can be written.
#[derive(Clone, Copy, Debug, PartialEq, Eq, Structural)]
pub enum Radix {
    Binary,
    Octal,
    Decimal,
    Hexadecimal,
}

/// What [`is_radix_digit`] computes.
pub open spec fn spec_is_radix_digit(radix: Radix, c: char) -> bool {
    match radix {
        Radix::Binary => spec_is_binary_digit(c),
        Radix::Octal => spec_is_octal_digit(c),
        Radix::Decimal => spec_is_digit(c),
        Radix::Hexadecimal => spec_is_hex_digit(c),
    }
}

/// Whether `c` is a digit of `radix`.
#[verifier::when_used_as_spec(spec_is_radix_digit)]
pub fn is_radix_digit(radix: Radix, c: char) -> (b: bool)
    ensures
        b == spec_is_radix_digit(radix, c),
{
    match radix {
        Radix::Binary => is_binary_digit(c),
        Radix::Octal => is_octal_digit(c),
        Radix::Decimal => is_digit(c),
        Radix::Hexadecimal => is_hex_digit(c),
    }
}

} // verus!
