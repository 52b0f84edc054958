//! Whitespace separates: no token reaches across it, so a buffer that is
//! cut before a whitespace byte can be tokenized piece by piece.

use vstd::prelude::*;
use crate::chars::ByteClass;
use crate::grammar::{
    lemma_next_token_advances, lemma_run_end, lemma_run_end_is, lemma_token_at_advances,
    next_token, resolve_keyword, run_end, token_at, tokenize, tokens_from, Tokens,
};
use crate::token::{LexError, TokenView};

verus! {

/// A run in `b` is the same run in `p + b`, moved by the length of `p`.
pub proof fn lemma_run_end_after_prefix(p: Seq<u8>, b: Seq<u8>, i: int, class: ByteClass)
    requires
        0 <= i <= b.len(),
    ensures
        run_end(p + b, p.len() + i, class) == p.len() + run_end(b, i, class),
{
    lemma_run_end(b, i, class);
    let end = run_end(b, i, class);
    assert forall|k: int| p.len() + i <= k < p.len() + end implies class.has(
        #[trigger] (p + b)[k],
    ) by {
        assert((p + b)[k] == b[k - p.len()]);
    }
    if end < b.len() {
        assert((p + b)[p.len() + end] == b[end]);
    }
    lemma_run_end_is(p + b, p.len() + i, p.len() + end, class);
}

/// A token in `b` is the same token in `p + b`, moved by the length of `p`.
pub proof fn lemma_token_at_after_prefix(p: Seq<u8>, b: Seq<u8>, i: int)
    requires
        0 <= i < b.len(),
    ensures
        token_at(p + b, p.len() + i) == match token_at(b, i) {
            Ok((token, next)) => Ok((token, p.len() + next)),
            Err(e) => Err(e),
        },
{
    let s = p + b;
    let n = p.len() as int;
    assert(s[n + i] == b[i]);
    if i + 1 < b.len() {
        assert(s[n + i + 1] == b[i + 1]);
    }
    if i + 2 < b.len() {
        assert(s[n + i + 2] == b[i + 2]);
    }
    lemma_run_end_after_prefix(p, b, i, ByteClass::Digit);
    lemma_run_end_after_prefix(p, b, i + 1, ByteClass::Ident);
    lemma_run_end(b, i, ByteClass::Digit);
    lemma_run_end(b, i + 1, ByteClass::Ident);
    assert(s.subrange(n + i, n + run_end(b, i, ByteClass::Digit)) =~= b.subrange(
        i,
        run_end(b, i, ByteClass::Digit),
    ));
    assert(s.subrange(n + i, n + run_end(b, i + 1, ByteClass::Ident)) =~= b.subrange(
        i,
        run_end(b, i + 1, ByteClass::Ident),
    ));
}

/// The tokens of `b` are the tokens of `p + b` from the end of `p` on.
pub proof fn lemma_tokens_after_prefix(p: Seq<u8>, b: Seq<u8>, i: int)
    requires
        0 <= i <= b.len(),
    ensures
        tokens_from(p + b, p.len() + i) == tokens_from(b, i),
    decreases b.len() - i,
{
    lemma_run_end(b, i, ByteClass::Whitespace);
    lemma_run_end_after_prefix(p, b, i, ByteClass::Whitespace);
    let start = run_end(b, i, ByteClass::Whitespace);
    if start < b.len() {
        lemma_token_at_after_prefix(p, b, start);
        lemma_token_at_advances(b, start);
        if let Ok((_, next)) = token_at(b, start) {
            lemma_tokens_after_prefix(p, b, next);
        }
    }
}

/// A run in `a` of a class that the first byte of `b` is not in is the
/// same run in `a + b`.
pub proof fn lemma_run_end_before_other(a: Seq<u8>, b: Seq<u8>, i: int, class: ByteClass)
    requires
        0 <= i <= a.len(),
        b.len() > 0 ==> !class.has(b[0]),
    ensures
        run_end(a + b, i, class) == run_end(a, i, class),
{
    lemma_run_end(a, i, class);
    let end = run_end(a, i, class);
    assert forall|k: int| i <= k < end implies class.has(#[trigger] (a + b)[k]) by {
        assert((a + b)[k] == a[k]);
    }
    if end < a.len() {
        assert((a + b)[end] == a[end]);
    } else if b.len() > 0 {
        assert((a + b)[end] == b[0]);
    }
    lemma_run_end_is(a + b, i, end, class);
}

/// A token in `a` is the same token in `a + b`, where `b` begins with
/// whitespace.
pub proof fn lemma_token_at_before_whitespace(a: Seq<u8>, b: Seq<u8>, i: int)
    requires
        0 <= i < a.len(),
        b.len() > 0 ==> ByteClass::Whitespace.has(b[0]),
        token_at(a, i) is Ok,
    ensures
        token_at(a + b, i) == token_at(a, i),
{
    let s = a + b;
    assert(s[i] == a[i]);
    if i + 1 < a.len() {
        assert(s[i + 1] == a[i + 1]);
    }
    if i + 2 < a.len() {
        assert(s[i + 2] == a[i + 2]);
    }
    lemma_run_end_before_other(a, b, i, ByteClass::Digit);
    lemma_run_end_before_other(a, b, i + 1, ByteClass::Ident);
    lemma_run_end(a, i, ByteClass::Digit);
    lemma_run_end(a, i + 1, ByteClass::Ident);
    assert(s.subrange(i, run_end(a, i, ByteClass::Digit)) =~= a.subrange(
        i,
        run_end(a, i, ByteClass::Digit),
    ));
    assert(s.subrange(i, run_end(a, i + 1, ByteClass::Ident)) =~= a.subrange(
        i,
        run_end(a, i + 1, ByteClass::Ident),
    ));
}

/// The tokens of `a + b`, where `a` has no error and `b` begins with
/// whitespace, are those of `a` and then those of `b`.
pub proof fn lemma_tokens_before_whitespace(a: Seq<u8>, b: Seq<u8>, i: int)
    requires
        0 <= i <= a.len(),
        b.len() > 0 ==> ByteClass::Whitespace.has(b[0]),
        tokens_from(a, i) is Ok,
    ensures
        tokens_from(a + b, i) == match tokens_from(b, 0) {
            Ok(rest) => Ok(tokens_from(a, i)->Ok_0 + rest),
            Err(e) => Err(e),
        },
    decreases a.len() - i,
{
    let s = a + b;
    lemma_run_end(a, i, ByteClass::Whitespace);
    let start = run_end(a, i, ByteClass::Whitespace);
    if start < a.len() {
        assert forall|k: int| i <= k < start implies ByteClass::Whitespace.has(#[trigger] s[k]) by {
            assert(s[k] == a[k]);
        }
        assert(s[start] == a[start]);
        lemma_run_end_is(s, i, start, ByteClass::Whitespace);
        lemma_token_at_before_whitespace(a, b, start);
        lemma_token_at_advances(a, start);
        let (token, next) = token_at(a, start)->Ok_0;
        lemma_tokens_before_whitespace(a, b, next);
        if let Ok(rest) = tokens_from(b, 0) {
            assert((seq![token] + tokens_from(a, next)->Ok_0) + rest =~= seq![token] + (tokens_from(
                a,
                next,
            )->Ok_0 + rest));
        }
    } else {
        lemma_run_end_after_prefix(a, b, 0, ByteClass::Whitespace);
        lemma_run_end(b, 0, ByteClass::Whitespace);
        let end = a.len() + run_end(b, 0, ByteClass::Whitespace);
        assert forall|k: int| i <= k < end implies ByteClass::Whitespace.has(#[trigger] s[k]) by {
            if k < a.len() {
                assert(s[k] == a[k]);
            } else {
                assert(s[k] == b[k - a.len()]);
            }
        }
        if end < s.len() {
            assert(s[end] == b[end - a.len()]);
        }
        lemma_run_end_is(s, i, end, ByteClass::Whitespace);
        assert(next_token(s, i) == next_token(s, a.len() as int));
        lemma_tokens_same_next(s, i, a.len() as int);
        lemma_tokens_after_prefix(a, b, 0);
        if let Ok(rest) = tokens_from(b, 0) {
            assert(Seq::<TokenView>::empty() + rest =~= rest);
        }
    }
}

/// Two positions with the same next token have the same tokens after them.
pub proof fn lemma_tokens_same_next(s: Seq<u8>, i: int, j: int)
    requires
        next_token(s, i) == next_token(s, j),
    ensures
        tokens_from(s, i) == tokens_from(s, j),
{
    lemma_next_token_advances(s, i);
    lemma_next_token_advances(s, j);
}

/// Whitespace before a buffer changes nothing.
pub proof fn leading_whitespace_is_skipped(p: Seq<u8>, b: Seq<u8>)
    requires
        forall|k: int| 0 <= k < p.len() ==> ByteClass::Whitespace.has(#[trigger] p[k]),
    ensures
        tokenize(p + b) == tokenize(b),
{
    let s = p + b;
    let n = p.len() as int;
    lemma_run_end(s, n, ByteClass::Whitespace);
    let end = run_end(s, n, ByteClass::Whitespace);
    assert forall|k: int| 0 <= k < end implies ByteClass::Whitespace.has(#[trigger] s[k]) by {
        if k < n {
            assert(s[k] == p[k]);
        }
    }
    lemma_run_end_is(s, 0, end, ByteClass::Whitespace);
    lemma_tokens_same_next(s, 0, n);
    lemma_tokens_after_prefix(p, b, 0);
}

/// Two buffers put together, the first without an error and the second
/// beginning with whitespace (or empty), have the tokens of the first and
/// then those of the second, or the second's error.
pub proof fn whitespace_separates(a: Seq<u8>, b: Seq<u8>)
    requires
        tokenize(a) is Ok,
        b.len() > 0 ==> ByteClass::Whitespace.has(b[0]),
    ensures
        tokenize(a + b) == match tokenize(b) {
            Ok(rest) => Ok(tokenize(a)->Ok_0 + rest),
            Err(e) => Tokens::Err(e),
        },
{
    lemma_tokens_before_whitespace(a, b, 0);
    if let Ok(rest) = tokens_from(b, 0) {
        let first = tokens_from(a, 0)->Ok_0;
        let resolve = |token: TokenView| resolve_keyword(token);
        assert((first + rest).map_values(resolve) =~= first.map_values(resolve) + rest.map_values(
            resolve,
        ));
    }
}

} // verus!
