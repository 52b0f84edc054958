//! Tokens, scanning errors, and their mathematical views.

use vstd::prelude::*;

verus! {

/// One token of the language.
#[derive(Debug)]
pub enum Token {
    /// The keyword `let`.
    Let,
    /// The keyword `accept`.
    Accept,
    /// The keyword `reject`.
    Reject,
    /// A name, with its text.
    Ident(String),
    /// `=`
    Equals,
    /// `@`
    Exec,
    /// `[`
    ActionOpen,
    /// `]`
    ActionClose,
    /// `(`
    ParensOpen,
    /// `)`
    ParensClose,
    /// `{`
    BracesOpen,
    /// `}`
    BracesClose,
    /// `|`
    Bar,
    /// `<`
    MoveLeft,
    /// `>`
    MoveRight,
    /// `#`
    Print,
    /// A symbol of the tape alphabet, written `'c'` or as a decimal number.
    Sym(u8),
}

/// What a [`Token`] stands for in contracts: the same tags, with the text of
/// an identifier as a sequence of characters.
pub enum TokenView {
    Let,
    Accept,
    Reject,
    Ident(Seq<char>),
    Equals,
    Exec,
    ActionOpen,
    ActionClose,
    ParensOpen,
    ParensClose,
    BracesOpen,
    BracesClose,
    Bar,
    MoveLeft,
    MoveRight,
    Print,
    Sym(u8),
}

impl View for Token {
    type V = TokenView;

    open spec fn view(&self) -> TokenView {
        match self {
            Token::Let => TokenView::Let,
            Token::Accept => TokenView::Accept,
            Token::Reject => TokenView::Reject,
            Token::Ident(text) => TokenView::Ident(text@),
            Token::Equals => TokenView::Equals,
            Token::Exec => TokenView::Exec,
            Token::ActionOpen => TokenView::ActionOpen,
            Token::ActionClose => TokenView::ActionClose,
            Token::ParensOpen => TokenView::ParensOpen,
            Token::ParensClose => TokenView::ParensClose,
            Token::BracesOpen => TokenView::BracesOpen,
            Token::BracesClose => TokenView::BracesClose,
            Token::Bar => TokenView::Bar,
            Token::MoveLeft => TokenView::MoveLeft,
            Token::MoveRight => TokenView::MoveRight,
            Token::Print => TokenView::Print,
            Token::Sym(c) => TokenView::Sym(*c),
        }
    }
}

impl DeepView for Token {
    type V = TokenView;

    open spec fn deep_view(&self) -> TokenView {
        self@
    }
}

impl Clone for Token {
    fn clone(&self) -> (copy: Token)
        ensures
            copy == *self,
    {
        match self {
            Token::Let => Token::Let,
            Token::Accept => Token::Accept,
            Token::Reject => Token::Reject,
            Token::Ident(text) => Token::Ident(text.clone()),
            Token::Equals => Token::Equals,
            Token::Exec => Token::Exec,
            Token::ActionOpen => Token::ActionOpen,
            Token::ActionClose => Token::ActionClose,
            Token::ParensOpen => Token::ParensOpen,
            Token::ParensClose => Token::ParensClose,
            Token::BracesOpen => Token::BracesOpen,
            Token::BracesClose => Token::BracesClose,
            Token::Bar => Token::Bar,
            Token::MoveLeft => Token::MoveLeft,
            Token::MoveRight => Token::MoveRight,
            Token::Print => Token::Print,
            Token::Sym(c) => Token::Sym(*c),
        }
    }
}

impl PartialEq for Token {
    /// Two tokens are equal when they have the same tag and, where the tag
    /// has one, the same text or symbol.
    fn eq(&self, other: &Token) -> (same: bool) {
        match (self, other) {
            (Token::Let, Token::Let) => true,
            (Token::Accept, Token::Accept) => true,
            (Token::Reject, Token::Reject) => true,
            (Token::Ident(a), Token::Ident(b)) => *a == *b,
            (Token::Equals, Token::Equals) => true,
            (Token::Exec, Token::Exec) => true,
            (Token::ActionOpen, Token::ActionOpen) => true,
            (Token::ActionClose, Token::ActionClose) => true,
            (Token::ParensOpen, Token::ParensOpen) => true,
            (Token::ParensClose, Token::ParensClose) => true,
            (Token::BracesOpen, Token::BracesOpen) => true,
            (Token::BracesClose, Token::BracesClose) => true,
            (Token::Bar, Token::Bar) => true,
            (Token::MoveLeft, Token::MoveLeft) => true,
            (Token::MoveRight, Token::MoveRight) => true,
            (Token::Print, Token::Print) => true,
            (Token::Sym(a), Token::Sym(b)) => *a == *b,
            _ => false,
        }
    }
}

impl Eq for Token {

}

impl vstd::std_specs::cmp::PartialEqSpecImpl for Token {
    open spec fn obeys_eq_spec() -> bool {
        true
    }

    open spec fn eq_spec(&self, other: &Token) -> bool {
        self@ == other@
    }
}

/// Why a buffer could not be tokenized.
#[derive(Debug, Clone, Copy, PartialEq, Eq, Structural)]
pub enum LexError {
    /// A byte that begins no token.
    UnexpectedChar(u8),
    /// The byte after an opening quote cannot be a symbol.
    InvalidSymContent(u8),
    /// A quoted symbol without its closing quote.
    UnclosedSym,
    /// A numeric symbol above 255.
    SymNumberTooBig,
}

} // verus!
