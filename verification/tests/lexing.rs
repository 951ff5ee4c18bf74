use reggae::lex::{LexError, Lexer, Token};

#[test]
fn whitespace_only_yields_no_tokens() {
    let mut lx = Lexer::new(" \t\n\r  ");
    let toks = lx.tokens();
    assert!(toks.is_empty());
    let mut lx2 = Lexer::new(" \t\n\r  ");
    let r = lx2.lex();
    assert!(matches!(r, Ok(Token::EOF)));
}

#[test]
fn empty_input_is_end_of_input() {
    let mut lx = Lexer::new("");
    assert!(matches!(lx.lex(), Ok(Token::EOF)));
    let mut lx2 = Lexer::new("");
    assert!(lx2.tokens().is_empty());
}

#[test]
fn number_one_point_five() {
    let mut lx = Lexer::new("1.5");
    let toks = lx.tokens();
    assert_eq!(toks.len(), 1);
    match &toks[0] {
        Token::Number(t) => {
            assert_eq!(t, "1.5");
            let v: f64 = t.parse().unwrap();
            assert_eq!(v, 1.5f64);
        }
        other => panic!("expected a number token, got {:?}", other),
    }
}

#[test]
fn string_escapes_decode() {
    let mut lx = Lexer::new("\"a\\nb\"");
    let toks = lx.tokens();
    assert_eq!(toks.len(), 1);
    assert_eq!(toks[0], Token::Str("a\nb".to_string()));

    let mut lx2 = Lexer::new("\"\\\\ \\t \\r \\\" \\' \\0\"");
    let toks2 = lx2.tokens();
    assert_eq!(toks2[0], Token::Str("\\ \t \r \" ' \0".to_string()));
}

#[test]
fn unterminated_string_is_lex_error() {
    let mut lx = Lexer::new("\"abc");
    let r = lx.lex();
    match r {
        Err(e) => assert_eq!(e.error, "unclosed string"),
        Ok(t) => panic!("expected a lex error, got {:?}", t),
    }
    let mut lx2 = Lexer::new("\"abc");
    assert!(lx2.tokens().is_empty());
}

#[test]
fn unknown_escape_is_lex_error() {
    let mut lx = Lexer::new("\"a\\qb\"");
    match lx.lex() {
        Err(e) => assert_eq!(e.error, "unknown escape char"),
        Ok(t) => panic!("expected a lex error, got {:?}", t),
    }
}

#[test]
fn hex_letters_make_invalid_number() {
    let mut lx = Lexer::new("1a2");
    match lx.lex() {
        Err(e) => {
            assert_eq!(e.error, "invalid number literal");
            assert_eq!(e.index, 0);
        }
        Ok(t) => panic!("expected a lex error, got {:?}", t),
    }
}

#[test]
fn lone_dot_is_invalid_number() {
    let mut lx = Lexer::new(".");
    match lx.lex() {
        Err(e) => assert_eq!(e.error, "invalid number literal"),
        Ok(t) => panic!("expected a lex error, got {:?}", t),
    }
}

#[test]
fn trailing_and_leading_dot_numbers() {
    let mut lx = Lexer::new("1. .5");
    let toks = lx.tokens();
    assert_eq!(
        toks,
        vec![
            Token::Number("1.".to_string()),
            Token::Number(".5".to_string())
        ]
    );
}

#[test]
fn comments_become_comment_tokens() {
    let mut lx = Lexer::new("// hello\n1");
    let toks = lx.tokens();
    assert_eq!(toks, vec![Token::Comment, Token::Number("1".to_string())]);

    let mut lx2 = Lexer::new("/* x ** y */ 2");
    let toks2 = lx2.tokens();
    assert_eq!(toks2, vec![Token::Comment, Token::Number("2".to_string())]);

    let mut lx3 = Lexer::new("// runs to the end");
    assert_eq!(lx3.tokens(), vec![Token::Comment]);
}

#[test]
fn keywords_and_identifiers() {
    let mut lx = Lexer::new("fn extern if then else for in unary binary var mot lru mru lfu mfu foo _bar x9");
    let toks = lx.tokens();
    assert_eq!(
        toks,
        vec![
            Token::Fn,
            Token::Extern,
            Token::If,
            Token::Then,
            Token::Else,
            Token::For,
            Token::In,
            Token::Unary,
            Token::Binary,
            Token::Var,
            Token::Mot,
            Token::Lru,
            Token::Mru,
            Token::Lfu,
            Token::Mfu,
            Token::Ident("foo".to_string()),
            Token::Ident("_bar".to_string()),
            Token::Ident("x9".to_string()),
        ]
    );
}

#[test]
fn comma_ends_an_identifier() {
    let mut lx = Lexer::new("a,b");
    let toks = lx.tokens();
    assert_eq!(
        toks,
        vec![
            Token::Ident("a".to_string()),
            Token::Comma,
            Token::Ident("b".to_string()),
        ]
    );
}

#[test]
fn punctuation_tokens() {
    let mut lx = Lexer::new("(){},!:");
    let toks = lx.tokens();
    assert_eq!(
        toks,
        vec![
            Token::LParen,
            Token::RParen,
            Token::LBrace,
            Token::RBrace,
            Token::Comma,
            Token::Bang,
            Token::Colon,
        ]
    );
}

#[test]
fn operator_tokens() {
    let mut lx = Lexer::new("+ - * / % | =");
    let toks = lx.tokens();
    assert_eq!(
        toks,
        vec![
            Token::Op('+'),
            Token::Op('-'),
            Token::Op('*'),
            Token::Op('/'),
            Token::Op('%'),
            Token::Op('|'),
            Token::Op('='),
        ]
    );
}

#[test]
fn slash_alone_is_an_operator() {
    let mut lx = Lexer::new("1/2");
    let toks = lx.tokens();
    assert_eq!(
        toks,
        vec![
            Token::Number("1".to_string()),
            Token::Op('/'),
            Token::Number("2".to_string()),
        ]
    );
}

#[test]
fn read_escaped_char_decodes() {
    let mut lx = Lexer::new("\\n");
    assert_eq!(lx.read_escaped_char().unwrap(), '\n');
    let mut lx2 = Lexer::new("x");
    assert_eq!(lx2.read_escaped_char().unwrap(), 'x');
    let mut lx3 = Lexer::new("");
    match lx3.read_escaped_char() {
        Err(e) => assert_eq!(e.error, "no input"),
        Ok(c) => panic!("expected an error, got {:?}", c),
    }
    let mut lx4 = Lexer::new("\\");
    match lx4.read_escaped_char() {
        Err(e) => assert_eq!(e.error, "no input"),
        Ok(c) => panic!("expected an error, got {:?}", c),
    }
}

#[test]
fn lex_error_constructors() {
    let e = LexError::new("msg");
    assert_eq!(e.error, "msg");
    assert_eq!(e.index, 0);
    let e2 = LexError::with_index("msg", 7);
    assert_eq!(e2.error, "msg");
    assert_eq!(e2.index, 7);
}

#[test]
fn next_stops_at_end_and_at_errors() {
    let mut lx = Lexer::new("ab 12");
    assert_eq!(lx.next(), Some(Token::Ident("ab".to_string())));
    assert_eq!(lx.next(), Some(Token::Number("12".to_string())));
    assert_eq!(lx.next(), None);

    let mut lx2 = Lexer::new("\"unclosed");
    assert_eq!(lx2.next(), None);
}
