//! Identifiers, reserved names and keywords.

use crate::chars::is_identifier_part;
use crate::grammar::{
    classify_word, identifier_end, is_fixed_keyword, punctuation_at, scan_at, Scan,
};
use crate::theorems::coverage::{lemma_number_text, lemma_punctuation_text};
use crate::token::TokenView;
use vstd::prelude::*;

verus! {

/// A run of identifier characters holds identifier characters only and is
/// not followed by one.
proof fn lemma_identifier_run(s: Seq<char>, j: int)
    requires
        0 <= j <= s.len(),
    ensures
        ({
            let end = identifier_end(s, j);
            &&& j <= end <= s.len()
            &&& end == s.len() || !is_identifier_part(s[end])
            &&& forall|k: int| j <= k < end ==> is_identifier_part(#[trigger] s[k])
        }),
    decreases s.len() - j,
{
    if j < s.len() && is_identifier_part(s[j]) {
        lemma_identifier_run(s, j + 1);
    }
}

/// Keywords and identifiers: each fixed keyword is its own token, never an
/// identifier; every other word is a reserved name if it starts with two
/// underscores and an identifier if not, and carries the word as written.
pub proof fn theorem_classify_word(word: Seq<char>)
    ensures
        classify_word("null"@) == TokenView::Null,
        classify_word("true"@) == TokenView::BConst(true),
        classify_word("false"@) == TokenView::BConst(false),
        classify_word("package"@) == TokenView::Package,
        classify_word("import"@) == TokenView::Import,
        classify_word("for"@) == TokenView::For,
        classify_word("in"@) == TokenView::In,
        classify_word("if"@) == TokenView::If,
        classify_word("let"@) == TokenView::Let,
        classify_word(word).is_word(),
        classify_word(word).text() == word,
        is_fixed_keyword(word) <==> !(classify_word(word) is Identifier || classify_word(word)
            is Keyword),
        classify_word(word) is Keyword <==> !is_fixed_keyword(word) && word.len() >= 2 && word[0]
            == '_' && word[1] == '_',
{
    reveal_strlit("null");
    reveal_strlit("true");
    reveal_strlit("false");
    reveal_strlit("package");
    reveal_strlit("import");
    reveal_strlit("for");
    reveal_strlit("in");
    reveal_strlit("if");
    reveal_strlit("let");
    assert("null"@.len() == 4 && "null"@[0] == 'n');
    assert("true"@.len() == 4 && "true"@[0] == 't');
    assert("false"@.len() == 5 && "false"@[0] == 'f');
    assert("package"@.len() == 7 && "package"@[0] == 'p');
    assert("import"@.len() == 6 && "import"@[0] == 'i');
    assert("for"@.len() == 3 && "for"@[0] == 'f');
    assert("in"@.len() == 2 && "in"@[0] == 'i' && "in"@[1] == 'n');
    assert("if"@.len() == 2 && "if"@[0] == 'i' && "if"@[1] == 'f');
    assert("let"@.len() == 3 && "let"@[0] == 'l');
}

/// Words are taken whole: where the scanner finds an identifier, a reserved
/// name or a fixed keyword, the token is what the whole word is, and the
/// word ends where the text ends or a character follows that no identifier
/// can hold. So a keyword at the start of a longer word is no keyword.
/// After a marker of two characters at most the word holds identifier
/// characters only.
pub proof fn theorem_words(s: Seq<char>, i: int)
    requires
        0 <= i < s.len(),
    ensures
        scan_at(s, i) matches Scan::Token { token, end } ==> token.is_word() ==> {
            &&& token == classify_word(s.subrange(i, end))
            &&& end == s.len() || !is_identifier_part(s[end])
            &&& forall|k: int| i + 2 <= k < end ==> is_identifier_part(#[trigger] s[k])
        },
{
    lemma_punctuation_text(s, i);
    lemma_number_text(s, i);
    assert forall|j: int| 0 <= j <= s.len() implies ({
        let end = #[trigger] identifier_end(s, j);
        &&& j <= end <= s.len()
        &&& end == s.len() || !is_identifier_part(s[end])
        &&& forall|k: int| j <= k < end ==> is_identifier_part(#[trigger] s[k])
    }) by {
        lemma_identifier_run(s, j);
    }
    if punctuation_at(s, i) is Some {
        assert(!(punctuation_at(s, i)->Some_0.0).is_word());
    }
}

} // verus!
