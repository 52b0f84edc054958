//! The keyword resolver: identifiers that spell a reserved word become that
//! word's token.

use vstd::prelude::*;
use crate::grammar::resolve_keyword;
use crate::text::str_eq;
use crate::token::{Token, TokenView};

verus! {

/// The token of the reserved word that `text` spells, if it spells one.
pub(crate) fn keyword(text: &str) -> (token: Option<Token>)
    ensures
        token is Some <==> resolve_keyword(TokenView::Ident(text@)) != TokenView::Ident(text@),
        token matches Some(t) ==> t@ == resolve_keyword(TokenView::Ident(text@)),
{
    if str_eq(text, "let") {
        Some(Token::Let)
    } else if str_eq(text, "accept") {
        Some(Token::Accept)
    } else if str_eq(text, "reject") {
        Some(Token::Reject)
    } else {
        None
    }
}

/// Rewrites, in place, every identifier that spells a reserved word into
/// that word's token. All other tokens stay as they are, each in its place.
pub(crate) fn replace_keywords(tokens: &mut Vec<Token>)
    ensures
        final(tokens).deep_view() == old(tokens).deep_view().map_values(
            |token: TokenView| resolve_keyword(token),
        ),
{
    let mut i: usize = 0;
    while i < tokens.len()
        invariant
            i <= tokens.len(),
            tokens.len() == old(tokens).len(),
            forall|k: int|
                0 <= k < i ==> (#[trigger] tokens@[k])@ == resolve_keyword(old(tokens)@[k]@),
            forall|k: int|
                i <= k < tokens.len() ==> (#[trigger] tokens@[k])@ == old(tokens)@[k]@,
        decreases tokens.len() - i,
    {
        let maybe_keyword = match &tokens[i] {
            Token::Ident(text) => keyword(text.as_str()),
            _ => None,
        };
        if let Some(new_tok) = maybe_keyword {
            tokens[i] = new_tok;
        }
        i += 1;
    }
    assert(tokens.deep_view() =~= old(tokens).deep_view().map_values(
        |token: TokenView| resolve_keyword(token),
    ));
}

} // verus!
