//! The entry point: a whole buffer in, its tokens out.

use vstd::prelude::*;
use crate::grammar::{lemma_next_token_advances, tokenize, tokens_from, Tokens};
use crate::keywords::replace_keywords;
use crate::scanner::Lexer;
pub use crate::token::{LexError, Token};
use crate::token::TokenView;

verus! {

/// What a result of [`lex`] stands for in contracts: the views of the tokens,
/// or the error.
pub open spec fn result_view(res: Result<Vec<Token>, LexError>) -> Tokens {
    match res {
        Ok(tokens) => Ok(tokens.deep_view()),
        Err(e) => Err(e),
    }
}

/// Tokenizes `buf`: the tokens in the order in which they stand in the
/// buffer, or the first error in it. Nothing of the tokens before an error
/// is handed out.
pub fn lex(buf: &[u8]) -> (res: Result<Vec<Token>, LexError>)
    ensures
        result_view(res) == tokenize(buf@),
{
    let mut lx = Lexer::new(buf);
    let mut tokens: Vec<Token> = Vec::new();
    loop
        invariant
            lx.wf(),
            lx.buf@ == buf@,
            tokens_from(buf@, 0) == match tokens_from(buf@, lx.pos as int) {
                Ok(rest) => Ok(tokens.deep_view() + rest),
                Err(e) => Err(e),
            },
        ensures
            tokens_from(buf@, 0) == Tokens::Ok(tokens.deep_view()),
        decreases buf@.len() - lx.pos,
    {
        let ghost before = lx.pos as int;
        let ghost done = tokens.deep_view();
        match lx.next_token() {
            Ok(Some(token)) => {
                tokens.push(token);
                proof {
                    lemma_next_token_advances(buf@, before);
                    assert(tokens.deep_view() =~= done.push(token@));
                    if let Ok(rest) = tokens_from(buf@, lx.pos as int) {
                        assert(done + (seq![token@] + rest) =~= done.push(token@) + rest);
                    }
                }
            },
            Ok(None) => {
                assert(done + Seq::<TokenView>::empty() =~= done);
                break ;
            },
            Err(e) => {
                return Err(e);
            },
        }
    }
    replace_keywords(&mut tokens);
    Ok(tokens)
}

} // verus!
