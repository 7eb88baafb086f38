//! Laws of the lexical grammar, proved of the specification that the
//! executable lexer is verified against.

use vstd::prelude::*;
use crate::chars::{
    is_digit, is_letter, is_line_end, is_name_char, is_name_start, is_quote, is_whitespace,
};
use crate::grammar::{
    keyword, lemma_next_token_advances, lemma_run_end, lemma_run_end_unique,
    lemma_token_at_advances, next_token, scan_name, skip_whitespace, string_body,
    token_at, token_stream, word, Step,
};
use crate::locality::{
    is_comment, is_unterminated, lemma_run_end_alike, lemma_token_at_alike,
    lemma_token_stream_alike, reads_alike,
};
use crate::token::{LexError, Outcome, TokenModel};

verus! {

/// Every keyword is spelled with lower-case ASCII letters only, and with at
/// least two and at most six of them.
pub proof fn lemma_keyword_spelling(k: Seq<char>)
    requires
        keyword(k) is Some,
    ensures
        2 <= k.len() <= 6,
        forall|i: int| 0 <= i < k.len() ==> 'a' <= #[trigger] k[i] <= 'z',
{
    reveal_strlit("if");
    reveal_strlit("else");
    reveal_strlit("return");
    reveal_strlit("fn");
    reveal_strlit("loop");
    reveal_strlit("for");
    reveal_strlit("in");
    reveal_strlit("let");
    reveal_strlit("const");
}

/// No keyword is another keyword with one more character behind it.
pub proof fn lemma_keyword_not_extended(k: Seq<char>, c: char)
    requires
        keyword(k) is Some,
    ensures
        keyword(k.push(c)) is None,
{
    reveal_strlit("if");
    reveal_strlit("else");
    reveal_strlit("return");
    reveal_strlit("fn");
    reveal_strlit("loop");
    reveal_strlit("for");
    reveal_strlit("in");
    reveal_strlit("let");
    reveal_strlit("const");
    let longer = k.push(c);
    assert(longer.len() == k.len() + 1);
    assert(longer[0] == k[0]);
    assert(longer[1] == k[1]);
}

/// An input that is one run of identifier characters, the first of them a
/// letter or an underscore, is lexed as one word: the keyword that it spells,
/// or else one name that holds all of it.
pub proof fn lemma_single_word(s: Seq<char>)
    requires
        s.len() > 0,
        is_name_start(s[0]),
        forall|i: int| 0 <= i < s.len() ==> is_name_char(#[trigger] s[i]),
    ensures
        token_stream(s, 0) == seq![Ok::<TokenModel, LexError>(word(s))],
{
    let len = s.len() as int;
    lemma_run_end_unique(s, 0, |c: char| is_name_char(c), len);
    assert(s.subrange(0, len) =~= s);
    assert(next_token(s, 0) == Some(scan_name(s, 0)));
    assert(next_token(s, len) is None);
    assert(token_stream(s, len) =~= Seq::<Outcome>::empty());
}

/// A keyword that stands alone is lexed as exactly one token, the keyword
/// itself, and never as a name.
pub proof fn lemma_keyword_alone(k: Seq<char>)
    requires
        keyword(k) is Some,
    ensures
        token_stream(k, 0) == seq![Ok::<TokenModel, LexError>(keyword(k)->0)],
{
    lemma_keyword_spelling(k);
    assert(is_name_start(k[0]));
    lemma_single_word(k);
}

/// Maximal munch: a keyword with one more letter or digit behind it is lexed
/// as a single name that holds the whole spelling, not as the keyword and a
/// rest.
pub proof fn lemma_keyword_prefix_is_name(k: Seq<char>, c: char)
    requires
        keyword(k) is Some,
        is_letter(c) || is_digit(c),
    ensures
        token_stream(k.push(c), 0) == seq![
            Ok::<TokenModel, LexError>(TokenModel::Name(k.push(c))),
        ],
{
    lemma_keyword_spelling(k);
    lemma_keyword_not_extended(k, c);
    let longer = k.push(c);
    assert(is_name_start(longer[0]));
    assert forall|i: int| 0 <= i < longer.len() implies is_name_char(#[trigger] longer[i]) by {
        if i < k.len() {
            assert(longer[i] == k[i]);
        }
    }
    lemma_single_word(longer);
}

/// A text that is whitespace throughout.
pub open spec fn all_whitespace(w: Seq<char>) -> bool {
    forall|k: int| 0 <= k < w.len() ==> is_whitespace(#[trigger] w[k])
}

/// The input `s` with `w` put in before position `e`.
pub open spec fn insert_at(s: Seq<char>, e: int, w: Seq<char>) -> Seq<char> {
    s.subrange(0, e) + w + s.subrange(e, s.len() as int)
}

/// Whether position `e` lies between tokens when `s` is lexed from `c`: in
/// the whitespace before a token or directly in front of it, or behind the
/// last token.
pub open spec fn between_tokens(s: Seq<char>, c: int, e: int) -> bool
    decreases s.len() - c,
{
    if 0 <= c <= e <= s.len() {
        if e <= skip_whitespace(s, c) {
            true
        } else {
            match next_token(s, c) {
                Some(step) => c < step.end <= e && between_tokens(s, step.end, e),
                None => false,
            }
        }
    } else {
        false
    }
}

/// Whether one of the tokens of `s`, lexed from `c`, is a comment that ends
/// exactly at position `e`.
pub open spec fn comment_ends_at(s: Seq<char>, c: int, e: int) -> bool
    decreases s.len() - c,
{
    &&& 0 <= c <= e <= s.len()
    &&& next_token(s, c) matches Some(step)
    &&& c < step.end <= e
    &&& if step.end == e {
        is_comment(step.outcome)
    } else {
        comment_ends_at(s, step.end, e)
    }
}

/// Whitespace in front of a token is skipped: the tokens from a position are
/// those from the first position behind it that holds no whitespace.
pub proof fn lemma_leading_whitespace(s: Seq<char>, c: int)
    requires
        0 <= c <= s.len(),
    ensures
        token_stream(s, c) == token_stream(s, skip_whitespace(s, c)),
{
    let start = skip_whitespace(s, c);
    lemma_run_end(s, c, |c: char| is_whitespace(c));
    lemma_run_end_unique(s, start, |c: char| is_whitespace(c), start);
    assert(next_token(s, c) == next_token(s, start));
}

/// How an input with text put in reads against the input without it.
proof fn lemma_insert_at(s: Seq<char>, e: int, w: Seq<char>)
    requires
        0 <= e <= s.len(),
    ensures
        insert_at(s, e, w).len() == s.len() + w.len(),
        reads_alike(s, insert_at(s, e, w), 0, 0, e),
        reads_alike(s, insert_at(s, e, w), w.len() as int, e, s.len() as int),
        forall|k: int| e <= k < e + w.len() ==> #[trigger] insert_at(s, e, w)[k] == w[k - e],
{
}

/// A string literal that the end of input cuts short stays cut short when
/// whitespace is put behind it.
proof fn lemma_unterminated_stays(s: Seq<char>, t: Seq<char>, p: int, quote: char)
    requires
        0 <= p,
        s.len() <= t.len(),
        forall|k: int| p <= k < s.len() ==> #[trigger] s[k] == t[k],
        forall|k: int| s.len() <= k < t.len() ==> is_whitespace(#[trigger] t[k]),
        is_quote(quote),
        string_body(s, p, quote) is None,
    ensures
        string_body(t, p, quote) is None,
    decreases t.len() - p,
{
    if p < t.len() {
        if p < s.len() {
            assert(s[p] == t[p]);
            if s[p] == '\\' {
                if p + 1 < t.len() {
                    if p + 1 < s.len() {
                        assert(s[p + 1] == t[p + 1]);
                    }
                    lemma_unterminated_stays(s, t, p + 2, quote);
                }
            } else {
                lemma_unterminated_stays(s, t, p + 1, quote);
            }
        } else {
            assert(is_whitespace(t[p]));
            lemma_unterminated_stays(s, t, p + 1, quote);
        }
    }
}

/// Whitespace put in where whitespace is skipped anyway, in front of the
/// token that is scanned next from `c`, changes nothing from `c` on.
proof fn lemma_whitespace_before_token(s: Seq<char>, c: int, e: int, w: Seq<char>)
    requires
        0 <= c <= e <= skip_whitespace(s, c),
        c <= s.len(),
        all_whitespace(w),
    ensures
        token_stream(insert_at(s, e, w), c) == token_stream(s, c),
{
    let t = insert_at(s, e, w);
    let d = w.len() as int;
    let blank = |c: char| is_whitespace(c);
    let start = skip_whitespace(s, c);
    lemma_run_end(s, c, blank);
    lemma_insert_at(s, e, w);
    assert forall|k: int| c <= k < start + d implies blank(#[trigger] t[k]) by {
        if k < e {
            assert(s[k] == t[k + 0]);
        } else if k < e + d {
            assert(is_whitespace(w[k - e]));
        } else {
            assert(s[k - d] == t[k - d + d]);
        }
    }
    if start < s.len() {
        assert(s[start] == t[start + d]);
    }
    lemma_run_end_unique(t, c, blank, start + d);
    lemma_leading_whitespace(t, c);
    lemma_leading_whitespace(s, c);
    lemma_token_stream_alike(s, t, d, start);
}

/// A string literal that the end of input cuts short is the last thing
/// lexed, also with whitespace behind it.
proof fn lemma_whitespace_behind_unterminated(s: Seq<char>, c: int, w: Seq<char>)
    requires
        next_token(s, c) matches Some(step) && is_unterminated(step.outcome),
        0 <= c <= s.len(),
        all_whitespace(w),
    ensures
        token_stream(insert_at(s, s.len() as int, w), c) == token_stream(s, c),
{
    let e = s.len() as int;
    let t = insert_at(s, e, w);
    let blank = |c: char| is_whitespace(c);
    let start = skip_whitespace(s, c);
    let step = token_at(s, start);
    lemma_insert_at(s, e, w);
    lemma_run_end(s, c, blank);
    assert(s[start] == t[start + 0]);
    lemma_run_end_alike(s, t, 0, c, blank);
    assert forall|k: int| s.len() <= k < t.len() implies is_whitespace(#[trigger] t[k]) by {
        assert(is_whitespace(w[k - e]));
    }
    assert forall|k: int| start + 1 <= k < s.len() implies #[trigger] s[k] == t[k] by {
        assert(s[k] == t[k + 0]);
    }
    lemma_unterminated_stays(s, t, start + 1, s[start]);
    assert(token_at(t, start) == (Step { outcome: step.outcome, end: t.len() as int }));
    assert(token_stream(t, t.len() as int) =~= Seq::<Outcome>::empty());
    assert(token_stream(s, s.len() as int) =~= Seq::<Outcome>::empty());
}

/// A token that ends at or before the place where whitespace is put in is
/// scanned as before, unless the whitespace would lengthen it.
proof fn lemma_whitespace_behind_token(s: Seq<char>, c: int, e: int, w: Seq<char>)
    requires
        0 <= c <= s.len(),
        next_token(s, c) matches Some(step) && step.end <= e && !is_unterminated(step.outcome)
            && (step.end == e && is_comment(step.outcome) ==> is_line_end(w[0])),
        e <= s.len(),
        all_whitespace(w),
        w.len() > 0,
    ensures
        next_token(insert_at(s, e, w), c) == next_token(s, c),
{
    let t = insert_at(s, e, w);
    let blank = |c: char| is_whitespace(c);
    let start = skip_whitespace(s, c);
    let n = token_at(s, start).end;
    lemma_run_end(s, c, blank);
    lemma_token_at_advances(s, start);
    lemma_insert_at(s, e, w);
    assert(s[start] == t[start + 0]);
    lemma_run_end_alike(s, t, 0, c, blank);
    if n < e {
        assert(s[n] == t[n + 0]);
    } else {
        assert(is_whitespace(w[0]));
        assert(t[e] == w[e - e]);
    }
    lemma_token_at_alike(s, t, 0, start);
}

/// The law of [`lemma_whitespace_between_tokens`] for the tokens from any
/// position `c` on.
proof fn lemma_whitespace_between_tokens_from(s: Seq<char>, c: int, e: int, w: Seq<char>)
    requires
        between_tokens(s, c, e),
        all_whitespace(w),
        w.len() > 0,
        comment_ends_at(s, c, e) ==> is_line_end(w[0]),
    ensures
        token_stream(insert_at(s, e, w), c) == token_stream(s, c),
    decreases s.len() - c,
{
    if e <= skip_whitespace(s, c) {
        lemma_whitespace_before_token(s, c, e, w);
    } else {
        let step = next_token(s, c)->0;
        lemma_next_token_advances(s, c);
        if is_unterminated(step.outcome) {
            assert(step.end == s.len());
            lemma_whitespace_behind_unterminated(s, c, w);
        } else {
            lemma_whitespace_behind_token(s, c, e, w);
            lemma_whitespace_between_tokens_from(s, step.end, e, w);
        }
    }
}

/// Whitespace between tokens does not matter: putting whitespace in at a
/// position that lies between two tokens, before the first or behind the
/// last, leaves the sequence of tokens as it is. Read from right to left,
/// taking such whitespace out leaves it as it is, too.
///
/// One place is different: a comment runs up to the end of its line, so
/// whitespace put directly behind a comment must begin with a line
/// terminator, or it would become part of the comment.
pub proof fn lemma_whitespace_between_tokens(s: Seq<char>, e: int, w: Seq<char>)
    requires
        between_tokens(s, 0, e),
        all_whitespace(w),
        comment_ends_at(s, 0, e) ==> w.len() == 0 || is_line_end(w[0]),
    ensures
        token_stream(insert_at(s, e, w), 0) == token_stream(s, 0),
{
    if w.len() == 0 {
        assert(insert_at(s, e, w) =~= s);
    } else {
        lemma_whitespace_between_tokens_from(s, 0, e, w);
    }
}

} // verus!
