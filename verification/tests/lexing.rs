use turmeric::lex::{lex, LexError, Token};

fn ident(text: &str) -> Token {
    Token::Ident(text.to_string())
}

#[test]
fn empty_buffer_has_no_tokens() {
    assert_eq!(lex(b""), Ok(vec![]));
}

#[test]
fn whitespace_only_has_no_tokens() {
    assert_eq!(lex(b" "), Ok(vec![]));
    assert_eq!(lex(b"\n"), Ok(vec![]));
    assert_eq!(lex(b"\t"), Ok(vec![]));
    assert_eq!(lex(b" \n\t  \n\n\t "), Ok(vec![]));
}

#[test]
fn each_punctuation_byte_is_its_token() {
    assert_eq!(lex(b"<"), Ok(vec![Token::MoveLeft]));
    assert_eq!(lex(b">"), Ok(vec![Token::MoveRight]));
    assert_eq!(lex(b"#"), Ok(vec![Token::Print]));
    assert_eq!(lex(b"="), Ok(vec![Token::Equals]));
    assert_eq!(lex(b"["), Ok(vec![Token::ActionOpen]));
    assert_eq!(lex(b"]"), Ok(vec![Token::ActionClose]));
    assert_eq!(lex(b"("), Ok(vec![Token::ParensOpen]));
    assert_eq!(lex(b")"), Ok(vec![Token::ParensClose]));
    assert_eq!(lex(b"{"), Ok(vec![Token::BracesOpen]));
    assert_eq!(lex(b"}"), Ok(vec![Token::BracesClose]));
    assert_eq!(lex(b"|"), Ok(vec![Token::Bar]));
    assert_eq!(lex(b"@"), Ok(vec![Token::Exec]));
}

#[test]
fn punctuation_needs_no_whitespace_between() {
    assert_eq!(
        lex(b"<>#=[](){}|@"),
        Ok(vec![
            Token::MoveLeft,
            Token::MoveRight,
            Token::Print,
            Token::Equals,
            Token::ActionOpen,
            Token::ActionClose,
            Token::ParensOpen,
            Token::ParensClose,
            Token::BracesOpen,
            Token::BracesClose,
            Token::Bar,
            Token::Exec,
        ])
    );
}

#[test]
fn identifier_comes_back_with_its_text() {
    assert_eq!(lex(b"x"), Ok(vec![ident("x")]));
    assert_eq!(lex(b"_"), Ok(vec![ident("_")]));
    assert_eq!(lex(b"foo_bar1"), Ok(vec![ident("foo_bar1")]));
    assert_eq!(lex(b"_9"), Ok(vec![ident("_9")]));
    assert_eq!(lex(b"AZaz_09"), Ok(vec![ident("AZaz_09")]));
}

#[test]
fn identifier_ends_at_the_first_other_byte() {
    assert_eq!(lex(b"ab cd"), Ok(vec![ident("ab"), ident("cd")]));
    assert_eq!(lex(b"ab=cd"), Ok(vec![ident("ab"), Token::Equals, ident("cd")]));
    assert_eq!(lex(b"ab'c'"), Ok(vec![ident("ab"), Token::Sym(99)]));
    assert_eq!(lex(b"  tape\n"), Ok(vec![ident("tape")]));
}

#[test]
fn keywords_are_their_tokens() {
    assert_eq!(lex(b"let"), Ok(vec![Token::Let]));
    assert_eq!(lex(b"accept"), Ok(vec![Token::Accept]));
    assert_eq!(lex(b"reject"), Ok(vec![Token::Reject]));
    assert_eq!(
        lex(b"reject let accept"),
        Ok(vec![Token::Reject, Token::Let, Token::Accept])
    );
}

#[test]
fn keyword_must_be_the_whole_identifier() {
    assert_eq!(lex(b"letter"), Ok(vec![ident("letter")]));
    assert_eq!(lex(b"le"), Ok(vec![ident("le")]));
    assert_eq!(lex(b"lets"), Ok(vec![ident("lets")]));
    assert_eq!(lex(b"_let"), Ok(vec![ident("_let")]));
    assert_eq!(lex(b"accepted"), Ok(vec![ident("accepted")]));
    assert_eq!(lex(b"rejects"), Ok(vec![ident("rejects")]));
    assert_eq!(lex(b"let1"), Ok(vec![ident("let1")]));
}

#[test]
fn keywords_are_case_sensitive() {
    assert_eq!(lex(b"Let"), Ok(vec![ident("Let")]));
    assert_eq!(lex(b"LET"), Ok(vec![ident("LET")]));
    assert_eq!(lex(b"Accept"), Ok(vec![ident("Accept")]));
    assert_eq!(lex(b"rejecT"), Ok(vec![ident("rejecT")]));
}

#[test]
fn quoted_symbol_is_its_byte() {
    assert_eq!(lex(b"'a'"), Ok(vec![Token::Sym(97)]));
    assert_eq!(lex(b"' '"), Ok(vec![Token::Sym(32)]));
    assert_eq!(lex(b"'~'"), Ok(vec![Token::Sym(126)]));
    assert_eq!(lex(b"'`'"), Ok(vec![Token::Sym(96)]));
    assert_eq!(lex(b"'0'"), Ok(vec![Token::Sym(48)]));
}

#[test]
fn quoted_symbols_in_a_row() {
    assert_eq!(lex(b"'a''b'"), Ok(vec![Token::Sym(97), Token::Sym(98)]));
    assert_eq!(lex(b"'a' 'b'"), Ok(vec![Token::Sym(97), Token::Sym(98)]));
}

#[test]
fn number_is_the_symbol_with_that_code() {
    assert_eq!(lex(b"0"), Ok(vec![Token::Sym(0)]));
    assert_eq!(lex(b"9"), Ok(vec![Token::Sym(9)]));
    assert_eq!(lex(b"97"), Ok(vec![Token::Sym(97)]));
    assert_eq!(lex(b"255"), Ok(vec![Token::Sym(255)]));
}

#[test]
fn number_above_255_is_too_big() {
    assert_eq!(lex(b"256"), Err(LexError::SymNumberTooBig));
    assert_eq!(lex(b"260"), Err(LexError::SymNumberTooBig));
    assert_eq!(lex(b"1000"), Err(LexError::SymNumberTooBig));
    assert_eq!(lex(b"99999999999999999999999999999999"), Err(LexError::SymNumberTooBig));
}

#[test]
fn leading_zeros_do_not_count() {
    assert_eq!(lex(b"007"), Ok(vec![Token::Sym(7)]));
    assert_eq!(lex(b"000255"), Ok(vec![Token::Sym(255)]));
    assert_eq!(lex(b"0000000000000000000000000"), Ok(vec![Token::Sym(0)]));
    assert_eq!(lex(b"0256"), Err(LexError::SymNumberTooBig));
}

#[test]
fn number_ends_at_the_first_other_byte() {
    assert_eq!(lex(b"25 6"), Ok(vec![Token::Sym(25), Token::Sym(6)]));
    assert_eq!(lex(b"255a"), Ok(vec![Token::Sym(255), ident("a")]));
    assert_eq!(lex(b"1_"), Ok(vec![Token::Sym(1), ident("_")]));
    assert_eq!(lex(b"12>"), Ok(vec![Token::Sym(12), Token::MoveRight]));
    assert_eq!(lex(b"a1"), Ok(vec![ident("a1")]));
}

#[test]
fn quote_without_closing_quote_is_unclosed() {
    assert_eq!(lex(b"'ab'"), Err(LexError::UnclosedSym));
    assert_eq!(lex(b"'a"), Err(LexError::UnclosedSym));
    assert_eq!(lex(b"'a "), Err(LexError::UnclosedSym));
    assert_eq!(lex(b"'a\n'"), Err(LexError::UnclosedSym));
}

#[test]
fn quote_at_the_end_is_unclosed() {
    assert_eq!(lex(b"'"), Err(LexError::UnclosedSym));
    assert_eq!(lex(b"x = '"), Err(LexError::UnclosedSym));
}

#[test]
fn quote_before_an_unprintable_byte_is_invalid() {
    assert_eq!(lex(b"'\n"), Err(LexError::InvalidSymContent(10)));
    assert_eq!(lex(b"'\n'"), Err(LexError::InvalidSymContent(10)));
    assert_eq!(lex(b"'\t'"), Err(LexError::InvalidSymContent(9)));
    assert_eq!(lex(&[39, 0, 39]), Err(LexError::InvalidSymContent(0)));
    assert_eq!(lex(&[39, 31, 39]), Err(LexError::InvalidSymContent(31)));
    assert_eq!(lex(&[39, 127, 39]), Err(LexError::InvalidSymContent(127)));
    assert_eq!(lex(&[39, 128, 39]), Err(LexError::InvalidSymContent(128)));
    assert_eq!(lex(&[39, 255, 39]), Err(LexError::InvalidSymContent(255)));
}

#[test]
fn quote_before_a_quote_is_invalid() {
    assert_eq!(lex(b"''"), Err(LexError::InvalidSymContent(39)));
    assert_eq!(lex(b"'''"), Err(LexError::InvalidSymContent(39)));
}

#[test]
fn let_binding_is_four_tokens() {
    assert_eq!(
        lex(b"let x = 'a'"),
        Ok(vec![Token::Let, ident("x"), Token::Equals, Token::Sym(97)])
    );
}

#[test]
fn a_state_with_actions() {
    assert_eq!(
        lex(b"let scan = {\n\t'0' | 49 [ > # '1' ] (scan)\n\t' ' [ < @ halt ] accept\n}\n"),
        Ok(vec![
            Token::Let,
            ident("scan"),
            Token::Equals,
            Token::BracesOpen,
            Token::Sym(48),
            Token::Bar,
            Token::Sym(49),
            Token::ActionOpen,
            Token::MoveRight,
            Token::Print,
            Token::Sym(49),
            Token::ActionClose,
            Token::ParensOpen,
            ident("scan"),
            Token::ParensClose,
            Token::Sym(32),
            Token::ActionOpen,
            Token::MoveLeft,
            Token::Exec,
            ident("halt"),
            Token::ActionClose,
            Token::Accept,
            Token::BracesClose,
        ])
    );
}

#[test]
fn byte_of_no_class_is_unexpected() {
    assert_eq!(lex(b"`"), Err(LexError::UnexpectedChar(96)));
    assert_eq!(lex(b"-"), Err(LexError::UnexpectedChar(45)));
    assert_eq!(lex(b"\""), Err(LexError::UnexpectedChar(34)));
    assert_eq!(lex(b"\r"), Err(LexError::UnexpectedChar(13)));
    assert_eq!(lex(&[0]), Err(LexError::UnexpectedChar(0)));
    assert_eq!(lex(&[255]), Err(LexError::UnexpectedChar(255)));
}

#[test]
fn byte_of_no_class_after_tokens_is_unexpected() {
    assert_eq!(lex(b"let x = `"), Err(LexError::UnexpectedChar(96)));
    assert_eq!(lex(b"a.b"), Err(LexError::UnexpectedChar(46)));
    assert_eq!(lex(b"12;"), Err(LexError::UnexpectedChar(59)));
    assert_eq!(lex(b"a\r\nb"), Err(LexError::UnexpectedChar(13)));
}

#[test]
fn text_beyond_ascii_is_unexpected() {
    assert_eq!(lex("é".as_bytes()), Err(LexError::UnexpectedChar(0xc3)));
    assert_eq!(lex("caf\u{e9}".as_bytes()), Err(LexError::UnexpectedChar(0xc3)));
    assert_eq!(lex("'\u{e9}'".as_bytes()), Err(LexError::InvalidSymContent(0xc3)));
}

#[test]
fn the_first_error_is_the_one_reported() {
    assert_eq!(lex(b"256 `"), Err(LexError::SymNumberTooBig));
    assert_eq!(lex(b"` 256"), Err(LexError::UnexpectedChar(96)));
    assert_eq!(lex(b"'ab' ''"), Err(LexError::UnclosedSym));
    assert_eq!(lex(b"'' 'ab'"), Err(LexError::InvalidSymContent(39)));
}

#[test]
fn same_buffer_gives_same_result() {
    let source = b"let a = { 'x' [ > ] (a) 12 accept } `";
    assert_eq!(lex(source), lex(source));
    let copy = source.to_vec();
    assert_eq!(lex(source), lex(&copy));
    let fine = b"let a = { 'x' [ > ] (a) 12 accept }";
    assert_eq!(lex(fine), lex(fine));
    assert!(lex(fine).is_ok());
}

#[test]
fn tokens_compare_by_tag_and_payload() {
    assert_eq!(ident("a"), ident("a"));
    assert_ne!(ident("a"), ident("b"));
    assert_ne!(ident("let"), Token::Let);
    assert_eq!(Token::Sym(1), Token::Sym(1));
    assert_ne!(Token::Sym(1), Token::Sym(2));
    assert_ne!(Token::MoveLeft, Token::MoveRight);
    assert_eq!(Token::Bar, Token::Bar);
}

#[test]
fn clone_of_a_token_is_equal_to_it() {
    let tokens = lex(b"let x = 'a' 7 [ ] ( ) { } | < > # @ accept reject").unwrap();
    assert_eq!(tokens.len(), 18);
    for token in &tokens {
        assert_eq!(&token.clone(), token);
    }
}

#[test]
fn errors_compare_by_variant_and_byte() {
    assert_eq!(LexError::UnexpectedChar(1), LexError::UnexpectedChar(1));
    assert_ne!(LexError::UnexpectedChar(1), LexError::UnexpectedChar(2));
    assert_ne!(LexError::UnexpectedChar(1), LexError::InvalidSymContent(1));
    assert_ne!(LexError::UnclosedSym, LexError::SymNumberTooBig);
}

#[test]
fn tokens_and_errors_print_for_debugging() {
    assert_eq!(format!("{:?}", ident("x")), "Ident(\"x\")");
    assert_eq!(format!("{:?}", Token::Sym(97)), "Sym(97)");
    assert_eq!(format!("{:?}", Token::Let), "Let");
    assert_eq!(format!("{:?}", LexError::UnexpectedChar(96)), "UnexpectedChar(96)");
    assert_eq!(format!("{:?}", LexError::UnclosedSym), "UnclosedSym");
}

#[test]
fn long_buffer_of_newlines_has_no_tokens() {
    let source = vec![b'\n'; 100_000];
    assert_eq!(lex(&source), Ok(vec![]));
}

#[test]
fn long_identifier_comes_back_whole() {
    let source = vec![b'a'; 50_000];
    let tokens = lex(&source).unwrap();
    assert_eq!(tokens, vec![Token::Ident("a".repeat(50_000))]);
}

#[test]
fn buffers_joined_at_whitespace_join_their_tokens() {
    let first: &[u8] = b"let x = 12";
    let second: &[u8] = b" 34 'a' accept";
    let mut joined = first.to_vec();
    joined.extend_from_slice(second);
    let mut expected = lex(first).unwrap();
    expected.extend(lex(second).unwrap());
    assert_eq!(lex(&joined), Ok(expected));
    assert_eq!(
        lex(&joined),
        Ok(vec![
            Token::Let,
            ident("x"),
            Token::Equals,
            Token::Sym(12),
            Token::Sym(34),
            Token::Sym(97),
            Token::Accept,
        ])
    );
}

#[test]
fn buffers_joined_at_whitespace_keep_the_second_error() {
    let first: &[u8] = b"let x";
    let second: &[u8] = b"\n= 256";
    let mut joined = first.to_vec();
    joined.extend_from_slice(second);
    assert_eq!(lex(second), Err(LexError::SymNumberTooBig));
    assert_eq!(lex(&joined), Err(LexError::SymNumberTooBig));
}

#[test]
fn buffers_joined_elsewhere_may_merge_tokens() {
    assert_eq!(lex(b"12"), Ok(vec![Token::Sym(12)]));
    assert_eq!(lex(b"34"), Ok(vec![Token::Sym(34)]));
    assert_eq!(lex(b"1234"), Err(LexError::SymNumberTooBig));
    assert_eq!(lex(b"le"), Ok(vec![ident("le")]));
    assert_eq!(lex(b"t"), Ok(vec![ident("t")]));
    assert_eq!(lex(b"let"), Ok(vec![Token::Let]));
}

#[test]
fn whitespace_around_tokens_changes_nothing() {
    assert_eq!(lex(b"  \n\tlet"), lex(b"let"));
    assert_eq!(lex(b"let \n\t "), lex(b"let"));
    assert_eq!(lex(b"\n\n'a'\n\n"), Ok(vec![Token::Sym(97)]));
    assert_eq!(lex(b" \t`"), Err(LexError::UnexpectedChar(96)));
    assert_eq!(lex(b" \t256"), Err(LexError::SymNumberTooBig));
}
