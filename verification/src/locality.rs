//! A token depends only on its own characters and on the one character
//! behind them.
//!
//! The lemmas here compare two inputs `s` and `t` where `t`, read `d` places
//! further on, shows the same characters as `s` over some stretch. They say
//! that what is scanned from that stretch is the same in both.

use vstd::prelude::*;
use crate::chars::{
    is_digit, is_line_end, is_name_char, is_name_start, is_quote, is_whitespace,
};
use crate::grammar::{
    decimal_value, lemma_run_end, lemma_run_end_unique, lemma_string_body_end,
    lemma_token_at_advances, run_end, skip_whitespace, string_body, token_at, token_stream, Step,
};
use crate::token::{LexError, Outcome, TokenModel};

verus! {

/// `t` holds at `k + d` what `s` holds at `k`, for every `k` from `lo` up to,
/// and without, `hi`.
pub open spec fn reads_alike(s: Seq<char>, t: Seq<char>, d: int, lo: int, hi: int) -> bool {
    &&& 0 <= lo <= hi <= s.len()
    &&& 0 <= lo + d
    &&& hi + d <= t.len()
    &&& forall|k: int| lo <= k < hi ==> #[trigger] s[k] == t[k + d]
}

/// A run that reads alike in both inputs, and is followed in `t` by the end
/// of input or by a character outside the class, ends at the same place.
pub proof fn lemma_run_end_alike(
    s: Seq<char>,
    t: Seq<char>,
    d: int,
    p: int,
    class: spec_fn(char) -> bool,
)
    requires
        reads_alike(s, t, d, p, run_end(s, p, class)),
        run_end(s, p, class) + d == t.len() || !class(t[run_end(s, p, class) + d]),
    ensures
        run_end(t, p + d, class) == run_end(s, p, class) + d,
{
    let n = run_end(s, p, class);
    lemma_run_end(s, p, class);
    assert forall|j: int| p + d <= j < n + d implies class(#[trigger] t[j]) by {
        assert(s[j - d] == t[j - d + d]);
    }
    lemma_run_end_unique(t, p + d, class, n + d);
}

/// Digits that read alike denote the same number.
pub proof fn lemma_decimal_value_alike(s: Seq<char>, t: Seq<char>, d: int, p: int, n: int)
    requires
        reads_alike(s, t, d, p, n),
    ensures
        decimal_value(t, p + d, n + d) == decimal_value(s, p, n),
    decreases n - p,
{
    if p < n {
        lemma_decimal_value_alike(s, t, d, p, n - 1);
        assert(s[n - 1] == t[n - 1 + d]);
    }
}

/// Stretches that read alike are the same text.
pub proof fn lemma_subrange_alike(s: Seq<char>, t: Seq<char>, d: int, p: int, n: int)
    requires
        reads_alike(s, t, d, p, n),
    ensures
        t.subrange(p + d, n + d) == s.subrange(p, n),
{
    assert forall|k: int| 0 <= k < n - p implies t.subrange(p + d, n + d)[k] == s.subrange(
        p,
        n,
    )[k] by {
        assert(s[p + k] == t[p + k + d]);
    }
    assert(t.subrange(p + d, n + d) =~= s.subrange(p, n));
}

/// A string literal that closes in `s` closes alike in `t` with the same
/// content, where the two read alike up to its end. One that does not close
/// in `s` does not close in `t` either, where the two read alike to their
/// common end.
pub proof fn lemma_string_body_alike(s: Seq<char>, t: Seq<char>, d: int, p: int, quote: char)
    requires
        match string_body(s, p, quote) {
            Some((_, end)) => reads_alike(s, t, d, p, end),
            None => reads_alike(s, t, d, p, s.len() as int) && t.len() == s.len() + d,
        },
    ensures
        string_body(t, p + d, quote) == match string_body(s, p, quote) {
            Some((text, end)) => Some((text, end + d)),
            None => None,
        },
    decreases s.len() - p,
{
    lemma_string_body_end(s, p, quote);
    if p < s.len() {
        assert(s[p] == t[p + d]);
        if s[p] == '\\' {
            if p + 1 < s.len() {
                lemma_string_body_end(s, p + 2, quote);
                assert(s[p + 1] == t[p + 1 + d]);
                lemma_string_body_alike(s, t, d, p + 2, quote);
            }
        } else if s[p] != quote {
            lemma_string_body_end(s, p + 1, quote);
            lemma_string_body_alike(s, t, d, p + 1, quote);
        }
    }
}

/// Whether a step yields a comment.
pub open spec fn is_comment(outcome: Outcome) -> bool {
    outcome matches Ok(TokenModel::Comment(_))
}

/// Whether a step reports a string literal that the end of input cut short.
pub open spec fn is_unterminated(outcome: Outcome) -> bool {
    outcome == Err::<TokenModel, LexError>(LexError::UnterminatedStringLiteral)
}

/// Whether what follows a token in `t` ends it as what follows it in `s`
/// does: the same character, the end of input in both, or whitespace in `t`.
/// Whitespace ends every token but two: a comment, which only a line
/// terminator ends, and an unterminated string literal.
pub open spec fn stops_alike(s: Seq<char>, t: Seq<char>, d: int, step: Step) -> bool {
    let n = step.end;
    ||| n < s.len() && n + d < t.len() && t[n + d] == s[n]
    ||| n == s.len() && n + d == t.len()
    ||| {
        &&& n + d < t.len()
        &&& is_whitespace(t[n + d])
        &&& is_comment(step.outcome) ==> is_line_end(t[n + d])
        &&& !is_unterminated(step.outcome)
    }
}

/// The token at `p` in `s` is found again at `p + d` in `t` where the two
/// read alike over its characters and what follows it ends it alike.
pub proof fn lemma_token_at_alike(s: Seq<char>, t: Seq<char>, d: int, p: int)
    requires
        0 <= p < s.len(),
        reads_alike(s, t, d, p, token_at(s, p).end),
        stops_alike(s, t, d, token_at(s, p)),
    ensures
        token_at(t, p + d) == (Step { outcome: token_at(s, p).outcome, end: token_at(s, p).end + d }),
{
    let step = token_at(s, p);
    let n = step.end;
    lemma_token_at_advances(s, p);
    assert(s[p] == t[p + d]);
    let c = s[p];
    if is_digit(c) {
        lemma_run_end(s, p, |c: char| is_digit(c));
        lemma_run_end_alike(s, t, d, p, |c: char| is_digit(c));
        lemma_decimal_value_alike(s, t, d, p, n);
    } else if c == '-' {
        if p + 1 < s.len() && is_digit(s[p + 1]) {
            lemma_run_end(s, p + 1, |c: char| is_digit(c));
            assert(s[p + 1] == t[p + 1 + d]);
            lemma_run_end_alike(s, t, d, p + 1, |c: char| is_digit(c));
            lemma_decimal_value_alike(s, t, d, p + 1, n);
        } else if p + 1 < s.len() && s[p + 1] == '>' {
            assert(s[p + 1] == t[p + 1 + d]);
        }
    } else if is_name_start(c) {
        lemma_run_end(s, p, |c: char| is_name_char(c));
        lemma_run_end_alike(s, t, d, p, |c: char| is_name_char(c));
        lemma_subrange_alike(s, t, d, p, n);
    } else if is_quote(c) {
        lemma_string_body_end(s, p + 1, c);
        lemma_string_body_alike(s, t, d, p + 1, c);
    } else if c == '#' {
        lemma_run_end(s, p + 1, |c: char| !is_line_end(c));
        lemma_run_end_alike(s, t, d, p + 1, |c: char| !is_line_end(c));
        lemma_subrange_alike(s, t, d, p + 1, n);
    }
}

/// The tokens from `p` on depend only on the characters from `p` on: where
/// `t` from `p + d` to its end reads as `s` from `p` to its end, both give
/// the same tokens.
pub proof fn lemma_token_stream_alike(s: Seq<char>, t: Seq<char>, d: int, p: int)
    requires
        reads_alike(s, t, d, p, s.len() as int),
        t.len() == s.len() + d,
    ensures
        token_stream(t, p + d) == token_stream(s, p),
    decreases s.len() - p,
{
    let start = skip_whitespace(s, p);
    lemma_run_end(s, p, |c: char| is_whitespace(c));
    if start < s.len() {
        assert(s[start] == t[start + d]);
    }
    lemma_run_end_alike(s, t, d, p, |c: char| is_whitespace(c));
    assert(skip_whitespace(t, p + d) == start + d);
    if start < s.len() {
        let step = token_at(s, start);
        lemma_token_at_advances(s, start);
        if step.end < s.len() {
            assert(s[step.end] == t[step.end + d]);
        }
        lemma_token_at_alike(s, t, d, start);
        lemma_token_stream_alike(s, t, d, step.end);
    }
}

} // verus!
