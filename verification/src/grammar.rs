//! The lexical grammar, stated over sequences of bytes.
//!
//! [`tokenize`] says what the tokens of a buffer are. Nothing here is
//! executable: positions are mathematical integers, and the definitions
//! describe each lexeme by where it lies in the buffer.

use vstd::prelude::*;
use crate::chars::ByteClass;
use crate::token::{LexError, TokenView};

verus! {

/// What tokenizing comes to: the tokens, or the first error.
pub type Tokens = Result<Seq<TokenView>, LexError>;

/// What reading one token comes to: the token and the position after it, or
/// the error.
pub type Scan = Result<(TokenView, int), LexError>;

/// Where the longest run of `class` bytes that begins at `i` ends: the first
/// position from `i` on that holds no byte of the class.
pub open spec fn run_end(s: Seq<u8>, i: int, class: ByteClass) -> int
    decreases s.len() - i,
{
    if 0 <= i < s.len() && class.has(s[i]) {
        run_end(s, i + 1, class)
    } else {
        i
    }
}

/// The number that a sequence of digits denotes in base ten.
pub open spec fn decimal_value(digits: Seq<u8>) -> nat
    decreases digits.len(),
{
    if digits.len() == 0 {
        0
    } else {
        decimal_value(digits.drop_last()) * 10 + (digits.last() - '0' as u8) as nat
    }
}

/// The text that a sequence of ASCII bytes spells.
pub open spec fn ascii_text(bytes: Seq<u8>) -> Seq<char> {
    Seq::new(bytes.len(), |i: int| bytes[i] as char)
}

/// The token that a punctuation byte stands for; `None` for any other byte.
pub open spec fn punctuation(c: u8) -> Option<TokenView> {
    if c == '<' as u8 {
        Some(TokenView::MoveLeft)
    } else if c == '>' as u8 {
        Some(TokenView::MoveRight)
    } else if c == '#' as u8 {
        Some(TokenView::Print)
    } else if c == '=' as u8 {
        Some(TokenView::Equals)
    } else if c == '[' as u8 {
        Some(TokenView::ActionOpen)
    } else if c == ']' as u8 {
        Some(TokenView::ActionClose)
    } else if c == '(' as u8 {
        Some(TokenView::ParensOpen)
    } else if c == ')' as u8 {
        Some(TokenView::ParensClose)
    } else if c == '{' as u8 {
        Some(TokenView::BracesOpen)
    } else if c == '}' as u8 {
        Some(TokenView::BracesClose)
    } else if c == '|' as u8 {
        Some(TokenView::Bar)
    } else if c == '@' as u8 {
        Some(TokenView::Exec)
    } else {
        None
    }
}

/// A quoted symbol whose opening quote stands just before `i`: one byte of
/// symbol content, then the closing quote. Gives the token and the position
/// after the closing quote.
pub open spec fn quoted_symbol(s: Seq<u8>, i: int) -> Scan {
    if i >= s.len() {
        Err(LexError::UnclosedSym)
    } else if !ByteClass::SymContent.has(s[i]) {
        Err(LexError::InvalidSymContent(s[i]))
    } else if i + 1 < s.len() && s[i + 1] == '\'' as u8 {
        Ok((TokenView::Sym(s[i]), i + 2))
    } else {
        Err(LexError::UnclosedSym)
    }
}

/// A numeric symbol that begins at `i`: the longest run of digits from
/// there, which must denote a number up to 255. Gives the token and the
/// position after the run.
pub open spec fn numeric_symbol(s: Seq<u8>, i: int) -> Scan {
    let end = run_end(s, i, ByteClass::Digit);
    let value = decimal_value(s.subrange(i, end));
    if value <= 255 {
        Ok((TokenView::Sym(value as u8), end))
    } else {
        Err(LexError::SymNumberTooBig)
    }
}

/// An identifier that begins at `i`: its first byte and the longest run of
/// identifier bytes after it. Gives the token and the position after the run.
pub open spec fn identifier(s: Seq<u8>, i: int) -> (TokenView, int) {
    let end = run_end(s, i + 1, ByteClass::Ident);
    (TokenView::Ident(ascii_text(s.subrange(i, end))), end)
}

/// The token that begins at `i`, with the position after it, or the reason
/// why none does. Keywords are still identifiers here.
pub open spec fn token_at(s: Seq<u8>, i: int) -> Scan
    recommends
        0 <= i < s.len(),
{
    let c = s[i];
    if punctuation(c) is Some {
        Ok((punctuation(c)->0, i + 1))
    } else if c == '\'' as u8 {
        quoted_symbol(s, i + 1)
    } else if ByteClass::Digit.has(c) {
        numeric_symbol(s, i)
    } else if ByteClass::IdentStart.has(c) {
        Ok(identifier(s, i))
    } else {
        Err(LexError::UnexpectedChar(c))
    }
}

/// The next token from `i` on, after any whitespace: `Ok(None)` where only
/// whitespace is left.
pub open spec fn next_token(s: Seq<u8>, i: int) -> Result<Option<(TokenView, int)>, LexError> {
    let start = run_end(s, i, ByteClass::Whitespace);
    if 0 <= start < s.len() {
        match token_at(s, start) {
            Ok(found) => Ok(Some(found)),
            Err(e) => Err(e),
        }
    } else {
        Ok(None)
    }
}

/// All tokens from `i` on, keywords not yet told from identifiers, or the
/// first error met on the way.
pub open spec fn tokens_from(s: Seq<u8>, i: int) -> Tokens
    decreases s.len() - i,
    via tokens_from_terminates
{
    match next_token(s, i) {
        Ok(Some((token, next))) => match tokens_from(s, next) {
            Ok(rest) => Ok(seq![token] + rest),
            Err(e) => Err(e),
        },
        Ok(None) => Ok(Seq::empty()),
        Err(e) => Err(e),
    }
}

#[via_fn]
proof fn tokens_from_terminates(s: Seq<u8>, i: int) {
    lemma_next_token_advances(s, i);
}

/// The reserved word that an identifier's text spells, or the token itself
/// where it is no identifier or spells none.
pub open spec fn resolve_keyword(token: TokenView) -> TokenView {
    match token {
        TokenView::Ident(text) => {
            if text == "let"@ {
                TokenView::Let
            } else if text == "accept"@ {
                TokenView::Accept
            } else if text == "reject"@ {
                TokenView::Reject
            } else {
                token
            }
        },
        _ => token,
    }
}

/// The tokens of a whole buffer, or the first error in it.
pub open spec fn tokenize(s: Seq<u8>) -> Tokens {
    match tokens_from(s, 0) {
        Ok(raw) => Ok(raw.map_values(|token: TokenView| resolve_keyword(token))),
        Err(e) => Err(e),
    }
}

/// A run ends no earlier than it begins and within the buffer; all bytes in
/// it are of the class, and the byte at its end, if there is one, is not.
pub proof fn lemma_run_end(s: Seq<u8>, i: int, class: ByteClass)
    requires
        0 <= i <= s.len(),
    ensures
        i <= run_end(s, i, class) <= s.len(),
        forall|k: int| i <= k < run_end(s, i, class) ==> class.has(#[trigger] s[k]),
        run_end(s, i, class) < s.len() ==> !class.has(s[run_end(s, i, class)]),
    decreases s.len() - i,
{
    if i < s.len() && class.has(s[i]) {
        lemma_run_end(s, i + 1, class);
    }
}

/// A run that begins where every byte up to `end` is of the class, and
/// where `end` is the end of the buffer or holds a byte that is not, ends
/// at `end`.
pub proof fn lemma_run_end_is(s: Seq<u8>, i: int, end: int, class: ByteClass)
    requires
        0 <= i <= end <= s.len(),
        forall|k: int| i <= k < end ==> class.has(#[trigger] s[k]),
        end < s.len() ==> !class.has(s[end]),
    ensures
        run_end(s, i, class) == end,
    decreases end - i,
{
    if i < end {
        lemma_run_end_is(s, i + 1, end, class);
    }
}

/// One more digit multiplies the number by ten and adds the digit.
pub proof fn lemma_decimal_value_step(s: Seq<u8>, start: int, end: int)
    requires
        0 <= start <= end < s.len(),
        ByteClass::Digit.has(s[end]),
    ensures
        decimal_value(s.subrange(start, end + 1)) == decimal_value(s.subrange(start, end)) * 10 + (
        s[end] - '0' as u8),
{
    assert(s.subrange(start, end + 1).drop_last() =~= s.subrange(start, end));
}

/// A run of digits denotes no less than any of its prefixes.
pub proof fn lemma_decimal_value_grows(s: Seq<u8>, start: int, mid: int, end: int)
    requires
        0 <= start <= mid <= end <= s.len(),
        forall|k: int| start <= k < end ==> ByteClass::Digit.has(#[trigger] s[k]),
    ensures
        decimal_value(s.subrange(start, mid)) <= decimal_value(s.subrange(start, end)),
    decreases end - mid,
{
    if mid < end {
        lemma_decimal_value_grows(s, start, mid, end - 1);
        lemma_decimal_value_step(s, start, end - 1);
    }
}

/// A token is at least one byte long and ends within the buffer.
pub proof fn lemma_token_at_advances(s: Seq<u8>, i: int)
    requires
        0 <= i < s.len(),
    ensures
        token_at(s, i) matches Ok((_, next)) ==> i < next <= s.len(),
{
    lemma_run_end(s, i, ByteClass::Digit);
    lemma_run_end(s, i + 1, ByteClass::Ident);
}

/// The next token ends after the position the search for it began at, and
/// within the buffer.
pub proof fn lemma_next_token_advances(s: Seq<u8>, i: int)
    ensures
        next_token(s, i) matches Ok(Some((_, next))) ==> i < next <= s.len(),
{
    if 0 <= i <= s.len() {
        lemma_run_end(s, i, ByteClass::Whitespace);
        let start = run_end(s, i, ByteClass::Whitespace);
        if start < s.len() {
            lemma_token_at_advances(s, start);
        }
    }
}

} // verus!
