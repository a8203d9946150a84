//! Total coverage: the tokens of a text are the text, but for white space.

use crate::chars::{white_space, Radix};
use crate::grammar::{
    classify_word, covers, digits_end, has_char, identifier_end, lemma_group_end_bounds,
    lemma_scan_advances, punctuation_at, scan_at, scan_decimal, scan_exponent, scan_fraction,
    scan_radix, scan_scaled, scan_word, spans_from, spans_of, tokens_from, tokens_of, Scan,
};
use vstd::prelude::*;

verus! {

/// An operator or punctuation mark is written as the characters that the
/// scanner found it in.
pub(crate) proof fn lemma_punctuation_text(s: Seq<char>, i: int)
    requires
        0 <= i < s.len(),
    ensures
        punctuation_at(s, i) matches Some((token, len)) ==> {
            &&& 1 <= len <= 3
            &&& i + len <= s.len()
            &&& token.text() == s.subrange(i, i + len)
            &&& token.is_scannable()
        },
{
    reveal_strlit("+");
    reveal_strlit("-");
    reveal_strlit("*");
    reveal_strlit("/");
    reveal_strlit("&&");
    reveal_strlit("||");
    reveal_strlit("&");
    reveal_strlit("|");
    reveal_strlit("==");
    reveal_strlit("!=");
    reveal_strlit("=~");
    reveal_strlit("!~");
    reveal_strlit("<");
    reveal_strlit(">");
    reveal_strlit("<=");
    reveal_strlit(">=");
    reveal_strlit("=");
    reveal_strlit(":");
    reveal_strlit("?");
    reveal_strlit("!");
    reveal_strlit("(");
    reveal_strlit(")");
    reveal_strlit("{");
    reveal_strlit("}");
    reveal_strlit("[");
    reveal_strlit("]");
    reveal_strlit("_|_");
    reveal_strlit("...");
    reveal_strlit(",");
    reveal_strlit(".");
    match punctuation_at(s, i) {
        Some((token, len)) => {
            assert(token.text() =~= s.subrange(i, i + len));
        },
        None => {},
    }
}

/// A word is written as the characters that the scanner found it in.
proof fn lemma_word_text(word: Seq<char>)
    ensures
        classify_word(word).text() == word,
        classify_word(word).is_scannable(),
{
}

/// A number is written as the characters that the scanner found it in.
pub(crate) proof fn lemma_number_text(s: Seq<char>, start: int)
    requires
        0 <= start < s.len(),
    ensures
        scan_decimal(s, start) matches Scan::Token { token, end } ==> token.text() == s.subrange(
            start,
            end,
        ) && token.is_scannable(),
        forall|fraction: int|
            start < fraction <= s.len() ==> (#[trigger] scan_fraction(s, start, fraction)
                matches Scan::Token { token, end } && token.text() == s.subrange(start, end)
                && token.is_scannable()),
        forall|radix: Radix|
            start + 2 <= s.len() ==> (#[trigger] scan_radix(s, start, radix) matches Scan::Token {
                token,
                end,
            } && token.text() == s.subrange(start, end) && token.is_scannable()),
{
    assert forall|marker: int| start <= marker < s.len() implies (#[trigger] scan_scaled(
        s,
        start,
        marker,
    ) matches Scan::Token { token, end } && token.text() == s.subrange(start, end)
        && token.is_scannable()) by {
        let end = if has_char(s, marker + 1, 'i') {
            marker + 2
        } else {
            marker + 1
        };
        assert(s.subrange(start, marker) + s.subrange(marker, end) =~= s.subrange(start, end));
    }
    assert forall|marker: int| start <= marker < s.len() implies (#[trigger] scan_exponent(
        s,
        start,
        marker,
    ) matches Scan::Token { token, end } && token.text() == s.subrange(start, end)
        && token.is_scannable()) by {
        let digits = if has_char(s, marker + 1, '+') || has_char(s, marker + 1, '-') {
            marker + 2
        } else {
            marker + 1
        };
        lemma_group_end_bounds(s, digits, Radix::Decimal);
        let end = digits_end(s, digits, Radix::Decimal);
        assert(s.subrange(start, marker) + s.subrange(marker, end) =~= s.subrange(start, end));
    }
    assert forall|fraction: int| start < fraction <= s.len() implies (#[trigger] scan_fraction(
        s,
        start,
        fraction,
    ) matches Scan::Token { token, end } && token.text() == s.subrange(start, end)
        && token.is_scannable()) by {
        lemma_group_end_bounds(s, fraction, Radix::Decimal);
    }
    lemma_group_end_bounds(s, start, Radix::Decimal);
}

/// Every token is written as the characters that the scanner found it in,
/// and the scanner finds no token for which it has no rule.
pub proof fn lemma_token_text(s: Seq<char>, i: int)
    requires
        0 <= i < s.len(),
    ensures
        scan_at(s, i) matches Scan::Token { token, end } ==> {
            &&& i < end <= s.len()
            &&& token.text() == s.subrange(i, end)
            &&& token.is_scannable()
        },
{
    lemma_scan_advances(s, i);
    lemma_number_text(s, i);
    lemma_punctuation_text(s, i);
    assert forall|marker: int| 0 <= marker <= 2 implies (#[trigger] scan_word(s, i, marker)
        matches Scan::Token { token, end } && token.text() == s.subrange(i, end)
        && token.is_scannable()) by {
        lemma_word_text(s.subrange(i, identifier_end(s, i + marker)));
    }
}

/// The tokens of a text, and where they stand. There is one span for each
/// token; at the start of each span the scanner finds that token, which
/// ends where the span ends; the spans follow one another without
/// overlapping; and every character outside the spans is white space.
pub proof fn lemma_spans_from(s: Seq<char>, i: int)
    requires
        0 <= i <= s.len(),
        tokens_from(s, i) is Ok,
    ensures
        ({
            let tokens = tokens_from(s, i)->Ok_0;
            let spans = spans_from(s, i);
            &&& spans.len() == tokens.len()
            &&& forall|k: int|
                0 <= k < spans.len() ==> i <= (#[trigger] spans[k]).0 < spans[k].1 <= s.len()
                    && scan_at(s, spans[k].0) == (Scan::Token {
                    token: tokens[k],
                    end: spans[k].1,
                })
            &&& forall|k: int|
                0 <= k < spans.len() - 1 ==> (#[trigger] spans[k]).1 <= spans[k + 1].0
            &&& forall|p: int| i <= p < s.len() ==> white_space(#[trigger] s[p]) || covers(spans, p)
        }),
    decreases s.len() - i,
{
    if i < s.len() {
        lemma_scan_advances(s, i);
        let tokens = tokens_from(s, i)->Ok_0;
        let spans = spans_from(s, i);
        match scan_at(s, i) {
            Scan::Token { token, end } => {
                lemma_spans_from(s, end);
                let rest_tokens = tokens_from(s, end)->Ok_0;
                let rest_spans = spans_from(s, end);
                assert(tokens == seq![token] + rest_tokens);
                assert(spans == seq![(i, end)] + rest_spans);
                assert forall|k: int| 0 <= k < spans.len() implies i <= (#[trigger] spans[k]).0
                    < spans[k].1 <= s.len() && scan_at(s, spans[k].0) == (Scan::Token {
                    token: tokens[k],
                    end: spans[k].1,
                }) by {
                    if k > 0 {
                        assert(spans[k] == rest_spans[k - 1]);
                        assert(tokens[k] == rest_tokens[k - 1]);
                    }
                }
                assert forall|k: int| 0 <= k < spans.len() - 1 implies (#[trigger] spans[k]).1
                    <= spans[k + 1].0 by {
                    assert(spans[k + 1] == rest_spans[k]);
                    if k > 0 {
                        assert(spans[k] == rest_spans[k - 1]);
                    }
                }
                assert forall|p: int| i <= p < s.len() implies white_space(#[trigger] s[p])
                    || covers(spans, p) by {
                    if p < end {
                        assert(spans[0].0 <= p < spans[0].1);
                    } else if !white_space(s[p]) {
                        let k = choose|k: int|
                            0 <= k < rest_spans.len() && (#[trigger] rest_spans[k]).0 <= p
                                < rest_spans[k].1;
                        assert(spans[k + 1] == rest_spans[k]);
                    }
                }
            },
            Scan::Blank => {
                lemma_spans_from(s, i + 1);
            },
            Scan::Error { error } => {},
        }
    }
}

/// Total coverage: the tokens of a text that scans without error are, in
/// order, the text itself with nothing left out but white space. Each token
/// is written exactly as the characters of its span, the spans do not
/// overlap, and what lies outside them is white space. No token among them
/// is one for which the scanner has no rule.
pub proof fn theorem_total_coverage(s: Seq<char>)
    requires
        tokens_of(s) is Ok,
    ensures
        ({
            let tokens = tokens_of(s)->Ok_0;
            let spans = spans_of(s);
            &&& spans.len() == tokens.len()
            &&& forall|k: int|
                0 <= k < spans.len() ==> 0 <= (#[trigger] spans[k]).0 < spans[k].1 <= s.len()
                    && tokens[k].text() == s.subrange(spans[k].0, spans[k].1)
                    && tokens[k].is_scannable()
            &&& forall|k: int|
                0 <= k < spans.len() - 1 ==> (#[trigger] spans[k]).1 <= spans[k + 1].0
            &&& forall|p: int| 0 <= p < s.len() ==> white_space(#[trigger] s[p]) || covers(spans, p)
        }),
{
    lemma_spans_from(s, 0);
    let tokens = tokens_of(s)->Ok_0;
    let spans = spans_of(s);
    assert forall|k: int| 0 <= k < spans.len() implies tokens[k].text() == s.subrange(
        (#[trigger] spans[k]).0,
        spans[k].1,
    ) && tokens[k].is_scannable() by {
        lemma_token_text(s, spans[k].0);
    }
}

} // verus!
