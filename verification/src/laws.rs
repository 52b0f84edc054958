//! What holds of every buffer: laws of [`tokenize`], and with it of
//! [`lex`](crate::lex::lex), whose results are those of `tokenize`.

use vstd::prelude::*;
use crate::chars::ByteClass;
use crate::grammar::{
    ascii_text, decimal_value, lemma_run_end_is, punctuation, resolve_keyword, token_at, tokenize,
    tokens_from, Scan, Tokens,
};
use crate::lex::result_view;
use crate::token::{LexError, Token, TokenView};

verus! {

/// Where only whitespace is left, no token is.
pub proof fn lemma_no_tokens_in_whitespace(s: Seq<u8>, i: int)
    requires
        0 <= i <= s.len(),
        forall|k: int| i <= k < s.len() ==> ByteClass::Whitespace.has(#[trigger] s[k]),
    ensures
        tokens_from(s, i) == Tokens::Ok(Seq::empty()),
{
    lemma_run_end_is(s, i, s.len() as int, ByteClass::Whitespace);
}

/// A buffer that is one token from its first byte to its last, without
/// whitespace before it, has that token alone, keywords resolved.
pub proof fn lemma_single_token(s: Seq<u8>, token: TokenView)
    requires
        s.len() > 0,
        !ByteClass::Whitespace.has(s[0]),
        token_at(s, 0) == Scan::Ok((token, s.len() as int)),
    ensures
        tokenize(s) == Tokens::Ok(seq![resolve_keyword(token)]),
{
    lemma_no_tokens_in_whitespace(s, s.len() as int);
    assert(tokens_from(s, 0) == Tokens::Ok(seq![token])) by {
        assert(seq![token] + Seq::<TokenView>::empty() =~= seq![token]);
    }
    assert(seq![token].map_values(|t: TokenView| resolve_keyword(t)) =~= seq![
        resolve_keyword(token),
    ]);
}

/// A buffer whose first token cannot be read has that token's error.
pub proof fn lemma_first_token_fails(s: Seq<u8>, e: LexError)
    requires
        s.len() > 0,
        !ByteClass::Whitespace.has(s[0]),
        token_at(s, 0) == Scan::Err(e),
    ensures
        tokenize(s) == Tokens::Err(e),
{
}

/// A buffer of nothing but whitespace has no tokens.
pub proof fn whitespace_has_no_tokens(s: Seq<u8>)
    requires
        forall|k: int| 0 <= k < s.len() ==> ByteClass::Whitespace.has(#[trigger] s[k]),
    ensures
        tokenize(s) == Tokens::Ok(Seq::empty()),
{
    lemma_no_tokens_in_whitespace(s, 0);
    assert(Seq::<TokenView>::empty().map_values(|t: TokenView| resolve_keyword(t))
        =~= Seq::<TokenView>::empty());
}

/// A buffer of one punctuation byte has one token: the one that the byte
/// stands for.
pub proof fn punctuation_is_one_token(c: u8)
    requires
        punctuation(c) is Some,
    ensures
        tokenize(seq![c]) == Tokens::Ok(seq![punctuation(c)->0]),
{
    lemma_single_token(seq![c], punctuation(c)->0);
}

/// A buffer that is one identifier has one token, which holds the
/// buffer's text: the keyword that the text spells, or else an identifier.
pub proof fn identifier_is_one_token(s: Seq<u8>)
    requires
        s.len() > 0,
        ByteClass::IdentStart.has(s[0]),
        forall|k: int| 0 <= k < s.len() ==> ByteClass::Ident.has(#[trigger] s[k]),
    ensures
        tokenize(s) == Tokens::Ok(
            seq![resolve_keyword(TokenView::Ident(ascii_text(s)))],
        ),
{
    lemma_run_end_is(s, 1, s.len() as int, ByteClass::Ident);
    assert(s.subrange(0, s.len() as int) =~= s);
    lemma_single_token(s, TokenView::Ident(ascii_text(s)));
}

/// An identifier that spells no reserved word comes back as it is: one
/// identifier token with the buffer's text.
pub proof fn identifier_round_trip(s: Seq<u8>)
    requires
        s.len() > 0,
        ByteClass::IdentStart.has(s[0]),
        forall|k: int| 0 <= k < s.len() ==> ByteClass::Ident.has(#[trigger] s[k]),
        ascii_text(s) != "let"@,
        ascii_text(s) != "accept"@,
        ascii_text(s) != "reject"@,
    ensures
        tokenize(s) == Tokens::Ok(seq![TokenView::Ident(ascii_text(s))]),
{
    identifier_is_one_token(s);
}

/// A symbol between quotes is that symbol's token.
pub proof fn quoted_symbol_round_trip(c: u8)
    requires
        ByteClass::SymContent.has(c),
    ensures
        tokenize(seq!['\'' as u8, c, '\'' as u8]) == Tokens::Ok(
            seq![TokenView::Sym(c)],
        ),
{
    lemma_single_token(seq!['\'' as u8, c, '\'' as u8], TokenView::Sym(c));
}

/// A buffer of digits is the symbol with the number they denote, as long
/// as that is at most 255, and too big a number beyond.
pub proof fn number_is_symbol_up_to_255(s: Seq<u8>)
    requires
        s.len() > 0,
        forall|k: int| 0 <= k < s.len() ==> ByteClass::Digit.has(#[trigger] s[k]),
    ensures
        tokenize(s) == if decimal_value(s) <= 255 {
            Tokens::Ok(seq![TokenView::Sym(decimal_value(s) as u8)])
        } else {
            Tokens::Err(LexError::SymNumberTooBig)
        },
{
    lemma_run_end_is(s, 0, s.len() as int, ByteClass::Digit);
    assert(s.subrange(0, s.len() as int) =~= s);
    if decimal_value(s) <= 255 {
        lemma_single_token(s, TokenView::Sym(decimal_value(s) as u8));
    } else {
        lemma_first_token_fails(s, LexError::SymNumberTooBig);
    }
}

/// A buffer that begins with a byte of no class is refused for that byte,
/// whatever follows.
pub proof fn unexpected_byte_is_reported(s: Seq<u8>)
    requires
        s.len() > 0,
        !ByteClass::Whitespace.has(s[0]),
        punctuation(s[0]) is None,
        s[0] != '\'' as u8,
        !ByteClass::Digit.has(s[0]),
        !ByteClass::IdentStart.has(s[0]),
    ensures
        tokenize(s) == Tokens::Err(LexError::UnexpectedChar(s[0])),
{
    lemma_first_token_fails(s, LexError::UnexpectedChar(s[0]));
}

/// A quote followed by a byte that cannot be a symbol is refused for that
/// byte, whatever follows.
pub proof fn invalid_symbol_content_is_reported(s: Seq<u8>)
    requires
        s.len() >= 2,
        s[0] == '\'' as u8,
        !ByteClass::SymContent.has(s[1]),
    ensures
        tokenize(s) == Tokens::Err(LexError::InvalidSymContent(s[1])),
{
    lemma_first_token_fails(s, LexError::InvalidSymContent(s[1]));
}

/// A quote and a symbol without the closing quote after them, and a quote
/// at the very end of the buffer, are unclosed symbols.
pub proof fn missing_quote_is_reported(s: Seq<u8>)
    requires
        s.len() >= 1,
        s[0] == '\'' as u8,
        s.len() >= 2 ==> ByteClass::SymContent.has(s[1]),
        s.len() >= 3 ==> s[2] != '\'' as u8,
    ensures
        tokenize(s) == Tokens::Err(LexError::UnclosedSym),
{
    lemma_first_token_fails(s, LexError::UnclosedSym);
}

/// Tokenizing is a function of the bytes: two results for buffers that hold
/// the same bytes hold the same tokens, or the same error.
pub proof fn lex_is_deterministic(
    a: Seq<u8>,
    b: Seq<u8>,
    first: Result<Vec<Token>, LexError>,
    second: Result<Vec<Token>, LexError>,
)
    requires
        a == b,
        result_view(first) == tokenize(a),
        result_view(second) == tokenize(b),
    ensures
        result_view(first) == result_view(second),
{
}

} // verus!
