//! The scanner: a cursor over the buffer that reads one token at a time.
//!
//! Reading is by single bytes, and the byte read last can be pushed back.
//! That is all the lookahead the grammar needs: a lexeme ends at the first
//! byte that cannot continue it, and that byte is handed back to begin the
//! next one.

use vstd::prelude::*;
use crate::chars::{is_digit, is_ident, is_ident_start, is_sym, is_whitespace, ByteClass};
use crate::grammar::{
    decimal_value, identifier, lemma_decimal_value_grows, lemma_decimal_value_step, lemma_run_end,
    next_token, numeric_symbol, punctuation, quoted_symbol, run_end,
};
use crate::text::ascii_string;
use crate::token::{LexError, Token};

verus! {

/// How many of the first `n` bytes of `s` are newlines.
pub(crate) open spec fn newlines_before(s: Seq<u8>, n: int) -> nat
    decreases n,
{
    if n <= 0 {
        0
    } else {
        newlines_before(s, n - 1) + if s[n - 1] == '\n' as u8 { 1nat } else { 0nat }
    }
}

/// There are no more newlines among `n` bytes than bytes.
pub(crate) proof fn lemma_newlines_bound(s: Seq<u8>, n: int)
    requires
        0 <= n,
    ensures
        newlines_before(s, n) <= n,
    decreases n,
{
    if n > 0 {
        lemma_newlines_bound(s, n - 1);
    }
}

/// A cursor over a buffer.
pub(crate) struct Lexer<'a> {
    /// The buffer being scanned.
    pub(crate) buf: &'a [u8],
    /// How many bytes have been read.
    pub(crate) pos: usize,
    /// The index of the line the cursor is on, counting from zero: how many
    /// newlines have been read.
    pub(crate) line: usize,
}

impl<'a> Lexer<'a> {
    /// The cursor lies within the buffer, and the line index agrees with it.
    pub(crate) open spec fn wf(&self) -> bool {
        &&& self.pos <= self.buf@.len()
        &&& self.line == newlines_before(self.buf@, self.pos as int)
    }

    /// A cursor at the beginning of `buf`.
    pub(crate) fn new(buf: &'a [u8]) -> (lx: Lexer<'a>)
        ensures
            lx.wf(),
            lx.buf@ == buf@,
            lx.pos == 0,
    {
        Lexer { buf, pos: 0, line: 0 }
    }

    /// Reads the next byte, or `None` at the end of the buffer, where the
    /// cursor stays.
    pub(crate) fn getch(&mut self) -> (c: Option<u8>)
        requires
            old(self).wf(),
        ensures
            final(self).wf(),
            final(self).buf@ == old(self).buf@,
            match c {
                Some(byte) => {
                    &&& old(self).pos < old(self).buf@.len()
                    &&& byte == old(self).buf@[old(self).pos as int]
                    &&& final(self).pos == old(self).pos + 1
                },
                None => {
                    &&& old(self).pos == old(self).buf@.len()
                    &&& final(self).pos == old(self).pos
                },
            },
    {
        if self.pos < self.buf.len() {
            let c = self.buf[self.pos];
            proof {
                lemma_newlines_bound(self.buf@, self.pos as int);
            }
            if c == '\n' as u8 {
                self.line += 1;
            }
            self.pos += 1;
            Some(c)
        } else {
            None
        }
    }

    /// Pushes the byte read last back.
    pub(crate) fn ungetch(&mut self)
        requires
            old(self).wf(),
            old(self).pos > 0,
        ensures
            final(self).wf(),
            final(self).buf@ == old(self).buf@,
            final(self).pos == old(self).pos - 1,
    {
        self.pos -= 1;
        if self.buf[self.pos] == '\n' as u8 {
            self.line -= 1;
        }
    }

    /// Skips the whitespace at the cursor: afterwards the cursor stands at
    /// the first byte that is none, or at the end of the buffer.
    pub(crate) fn remove_whitespace(&mut self)
        requires
            old(self).wf(),
        ensures
            final(self).wf(),
            final(self).buf@ == old(self).buf@,
            final(self).pos == run_end(old(self).buf@, old(self).pos as int, ByteClass::Whitespace),
    {
        loop
            invariant
                self.wf(),
                self.buf@ == old(self).buf@,
                run_end(self.buf@, self.pos as int, ByteClass::Whitespace) == run_end(
                    old(self).buf@,
                    old(self).pos as int,
                    ByteClass::Whitespace,
                ),
            ensures
                self.pos == run_end(old(self).buf@, old(self).pos as int, ByteClass::Whitespace),
            decreases self.buf@.len() - self.pos,
        {
            match self.getch() {
                Some(c) if is_whitespace(c) => {},
                Some(_) => {
                    self.ungetch();
                    break ;
                },
                None => {
                    break ;
                },
            }
        }
    }

    /// Reads the rest of an identifier whose first byte was just read.
    pub(crate) fn collect_ident(&mut self) -> (token: Token)
        requires
            old(self).wf(),
            old(self).pos > 0,
            ByteClass::IdentStart.has(old(self).buf@[old(self).pos - 1]),
        ensures
            final(self).wf(),
            final(self).buf@ == old(self).buf@,
            (token@, final(self).pos as int) == identifier(old(self).buf@, old(self).pos - 1),
    {
        let idx_start = self.pos - 1;
        loop
            invariant
                self.wf(),
                self.buf@ == old(self).buf@,
                run_end(self.buf@, self.pos as int, ByteClass::Ident) == run_end(
                    old(self).buf@,
                    old(self).pos as int,
                    ByteClass::Ident,
                ),
            ensures
                self.pos == run_end(old(self).buf@, old(self).pos as int, ByteClass::Ident),
            decreases self.buf@.len() - self.pos,
        {
            match self.getch() {
                Some(c) if is_ident(c) => {},
                Some(_) => {
                    self.ungetch();
                    break ;
                },
                None => {
                    break ;
                },
            }
        }
        let idx_end = self.pos;
        proof {
            lemma_run_end(self.buf@, old(self).pos as int, ByteClass::Ident);
        }
        Token::Ident(ascii_string(&self.buf[idx_start..idx_end]))
    }

    /// Reads the rest of a numeric symbol whose first digit was just read.
    /// Where the number grows past 255 the cursor stays behind the digit
    /// that took it there.
    pub(crate) fn collect_num(&mut self, first_digit: u8) -> (res: Result<Token, LexError>)
        requires
            old(self).wf(),
            old(self).pos > 0,
            first_digit == old(self).buf@[old(self).pos - 1],
            ByteClass::Digit.has(first_digit),
        ensures
            final(self).wf(),
            final(self).buf@ == old(self).buf@,
            match numeric_symbol(old(self).buf@, old(self).pos - 1) {
                Ok((symbol, next)) => {
                    &&& res matches Ok(token) && token@ == symbol
                    &&& final(self).pos == next
                },
                Err(e) => {
                    &&& res matches Err(err) && err == e
                    &&& old(self).pos < final(self).pos
                    &&& decimal_value(
                        old(self).buf@.subrange(old(self).pos - 1, final(self).pos - 1),
                    ) <= 255
                    &&& decimal_value(
                        old(self).buf@.subrange(old(self).pos - 1, final(self).pos as int),
                    ) > 255
                },
            },
    {
        let ghost start = self.pos - 1;
        let ghost end = run_end(self.buf@, start, ByteClass::Digit);
        let mut num: usize = (first_digit - '0' as u8) as usize;
        proof {
            lemma_decimal_value_step(self.buf@, start, start);
        }
        loop
            invariant
                self.wf(),
                self.buf@ == old(self).buf@,
                start == old(self).pos - 1,
                0 <= start < self.pos,
                forall|k: int|
                    start <= k < self.pos ==> ByteClass::Digit.has(#[trigger] self.buf@[k]),
                end == run_end(self.buf@, start, ByteClass::Digit),
                end == run_end(self.buf@, self.pos as int, ByteClass::Digit),
                num == decimal_value(self.buf@.subrange(start, self.pos as int)),
                num <= 255,
            decreases self.buf@.len() - self.pos,
        {
            match self.getch() {
                Some(c) if is_digit(c) => {
                    proof {
                        lemma_decimal_value_step(self.buf@, start, self.pos - 1);
                    }
                    num = num * 10 + (c - '0' as u8) as usize;
                    if num > 255 {
                        proof {
                            lemma_run_end(self.buf@, self.pos as int, ByteClass::Digit);
                            lemma_decimal_value_grows(self.buf@, start, self.pos as int, end);
                        }
                        return Err(LexError::SymNumberTooBig);
                    }
                },
                Some(_) => {
                    self.ungetch();
                    return Ok(Token::Sym(num as u8));
                },
                None => {
                    return Ok(Token::Sym(num as u8));
                },
            }
        }
    }

    /// Reads the rest of a quoted symbol whose opening quote was just read.
    /// Where it fails, the cursor has passed the symbol if there was one, and
    /// nothing else.
    pub(crate) fn collect_sym(&mut self) -> (res: Result<Token, LexError>)
        requires
            old(self).wf(),
        ensures
            final(self).wf(),
            final(self).buf@ == old(self).buf@,
            match quoted_symbol(old(self).buf@, old(self).pos as int) {
                Ok((symbol, next)) => {
                    &&& res matches Ok(token) && token@ == symbol
                    &&& final(self).pos == next
                },
                Err(e) => {
                    &&& res matches Err(err) && err == e
                    &&& final(self).pos == if old(self).pos < old(self).buf@.len()
                        && ByteClass::SymContent.has(old(self).buf@[old(self).pos as int]) {
                        old(self).pos + 1
                    } else {
                        old(self).pos as int
                    }
                },
            },
    {
        match self.getch() {
            Some(c) if is_sym(c) => match self.getch() {
                Some(close) if close == '\'' as u8 => Ok(Token::Sym(c)),
                Some(_) => {
                    self.ungetch();
                    Err(LexError::UnclosedSym)
                },
                None => Err(LexError::UnclosedSym),
            },
            Some(other) => {
                self.ungetch();
                Err(LexError::InvalidSymContent(other))
            },
            None => Err(LexError::UnclosedSym),
        }
    }

    /// Skips whitespace and reads one token: `Ok(None)` at the end of the
    /// buffer. Keywords come out as identifiers. After an error the cursor
    /// stands somewhere behind the first byte of the lexeme that failed.
    pub(crate) fn next_token(&mut self) -> (res: Result<Option<Token>, LexError>)
        requires
            old(self).wf(),
        ensures
            final(self).wf(),
            final(self).buf@ == old(self).buf@,
            match next_token(old(self).buf@, old(self).pos as int) {
                Ok(Some((found, next))) => {
                    &&& res matches Ok(Some(token)) && token@ == found
                    &&& final(self).pos == next
                },
                Ok(None) => res matches Ok(None) && final(self).pos == old(self).buf@.len(),
                Err(e) => {
                    &&& res matches Err(err) && err == e
                    &&& final(self).pos > run_end(
                        old(self).buf@,
                        old(self).pos as int,
                        ByteClass::Whitespace,
                    )
                },
            },
    {
        proof {
            lemma_run_end(self.buf@, self.pos as int, ByteClass::Whitespace);
        }
        self.remove_whitespace();
        let c = match self.getch() {
            Some(c) => c,
            None => {
                return Ok(None);
            },
        };
        if let Some(token) = punctuation_token(c) {
            Ok(Some(token))
        } else if c == '\'' as u8 {
            Ok(Some(self.collect_sym()?))
        } else if is_digit(c) {
            Ok(Some(self.collect_num(c)?))
        } else if is_ident_start(c) {
            Ok(Some(self.collect_ident()))
        } else {
            Err(LexError::UnexpectedChar(c))
        }
    }
}

/// The token that a punctuation byte stands for.
pub(crate) fn punctuation_token(c: u8) -> (token: Option<Token>)
    ensures
        match token {
            Some(t) => punctuation(c) == Some(t@),
            None => punctuation(c) is None,
        },
{
    if c == '<' as u8 {
        Some(Token::MoveLeft)
    } else if c == '>' as u8 {
        Some(Token::MoveRight)
    } else if c == '#' as u8 {
        Some(Token::Print)
    } else if c == '=' as u8 {
        Some(Token::Equals)
    } else if c == '[' as u8 {
        Some(Token::ActionOpen)
    } else if c == ']' as u8 {
        Some(Token::ActionClose)
    } else if c == '(' as u8 {
        Some(Token::ParensOpen)
    } else if c == ')' as u8 {
        Some(Token::ParensClose)
    } else if c == '{' as u8 {
        Some(Token::BracesOpen)
    } else if c == '}' as u8 {
        Some(Token::BracesClose)
    } else if c == '|' as u8 {
        Some(Token::Bar)
    } else if c == '@' as u8 {
        Some(Token::Exec)
    } else {
        None
    }
}

} // verus!
