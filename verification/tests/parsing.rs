use reggae::ast::{Cache, Expr, Function, Prototype};
use reggae::lex::Token;
use reggae::parse::{ParseError, Parser};
use reggae::table::PrecTable;

fn default_table() -> PrecTable {
    let mut t = PrecTable::new();
    t.insert('=', 2);
    t.insert('<', 10);
    t.insert('+', 20);
    t.insert('-', 20);
    t.insert('*', 40);
    t.insert('/', 40);
    t
}

fn parse_one(src: &str) -> Result<Function, ParseError> {
    let mut table = default_table();
    Parser::new(src.to_string()).parse(&mut table)
}

fn num(t: &str) -> Expr {
    Expr::Number(t.to_string())
}

fn var(n: &str) -> Expr {
    Expr::Variable(n.to_string())
}

fn bin(op: char, l: Expr, r: Expr) -> Expr {
    Expr::Binary {
        op,
        left: Box::new(l),
        right: Box::new(r),
    }
}

#[test]
fn multiplication_binds_tighter_than_addition() {
    let f = parse_one("1+2*3").unwrap();
    assert!(f.is_anon);
    assert_eq!(f.prototype.name, "anonymous");
    assert_eq!(
        f.body,
        Some(bin('+', num("1"), bin('*', num("2"), num("3"))))
    );
}

#[test]
fn equal_precedence_associates_left() {
    let f = parse_one("1+2+3").unwrap();
    assert_eq!(
        f.body,
        Some(bin('+', bin('+', num("1"), num("2")), num("3")))
    );
}

#[test]
fn binary_declaration_updates_shared_table() {
    let mut table = default_table();
    let f = Parser::new("binary| 5 (a: num, b: num) { a }".to_string())
        .parse(&mut table)
        .unwrap();
    assert_eq!(f.prototype.name, "binary|");
    assert!(f.prototype.is_op);
    assert_eq!(f.prototype.prec, 5);
    assert_eq!(table.get('|'), Some(5));

    // A later parse sharing the table resolves `|` at strength 5:
    // weaker than `+`, so the right side groups first.
    let g = Parser::new("1|2+3".to_string()).parse(&mut table).unwrap();
    assert_eq!(
        g.body,
        Some(bin('|', num("1"), bin('+', num("2"), num("3"))))
    );

    // Without the declaration an unknown operator binds at 100,
    // tighter than `+`.
    let mut fresh = default_table();
    let h = Parser::new("1|2+3".to_string()).parse(&mut fresh).unwrap();
    assert_eq!(
        h.body,
        Some(bin('+', bin('|', num("1"), num("2")), num("3")))
    );
}

#[test]
fn extern_declaration_has_no_body_and_no_cache() {
    let f = parse_one("extern foo(x: num)").unwrap();
    assert_eq!(
        f.prototype,
        Prototype {
            name: "foo".to_string(),
            args: vec![("x".to_string(), "num".to_string())],
            is_op: false,
            prec: 0,
        }
    );
    assert_eq!(f.body, None);
    assert!(!f.is_anon);
    assert_eq!(f.cache, Cache::Off);
}

#[test]
fn lru_with_capacity_three() {
    let f = parse_one("lru!3 fn add(x: num, y: num) { x+y }").unwrap();
    assert_eq!(f.cache, Cache::Lru(3));
    assert_eq!(f.prototype.name, "add");
    assert_eq!(
        f.prototype.args,
        vec![
            ("x".to_string(), "num".to_string()),
            ("y".to_string(), "num".to_string()),
        ]
    );
    assert_eq!(f.body, Some(bin('+', var("x"), var("y"))));
}

#[test]
fn other_cache_policies_carry_capacities() {
    assert_eq!(
        parse_one("mru!2 fn g(x: num) { x }").unwrap().cache,
        Cache::Mru(2)
    );
    assert_eq!(
        parse_one("lfu!7 fn g(x: num) { x }").unwrap().cache,
        Cache::Lfu(7)
    );
    assert_eq!(
        parse_one("mfu fn g(x: num) { x }").unwrap().cache,
        Cache::Mfu(-1)
    );
}

#[test]
fn plain_fn_defaults_to_lru_unspecified() {
    let f = parse_one("fn f(a: num) { a }").unwrap();
    assert_eq!(f.cache, Cache::Lru(-1));
    assert!(!f.is_anon);
}

#[test]
fn huge_capacity_saturates() {
    let f = parse_one("lru!99999999999999999999999999 fn f(a: num) { a }").unwrap();
    assert_eq!(f.cache, Cache::Lru(isize::MAX));
}

#[test]
fn missing_closing_brace_names_expected_token() {
    let e = parse_one("fn f(a: num) { a").unwrap_err();
    assert_eq!(
        e,
        ParseError::Expected {
            expected: Token::RBrace,
            found: Token::EOF,
        }
    );
}

#[test]
fn reparsing_same_text_is_deterministic() {
    let src = "fn f(a: num) { a+1*2 }";
    let mut t1 = default_table();
    let mut t2 = default_table();
    let f1 = Parser::new(src.to_string()).parse(&mut t1).unwrap();
    let f2 = Parser::new(src.to_string()).parse(&mut t2).unwrap();
    assert_eq!(f1, f2);

    let decl = "binary| 5 (a: num, b: num) { a }";
    let mut t3 = default_table();
    let mut t4 = default_table();
    let g1 = Parser::new(decl.to_string()).parse(&mut t3).unwrap();
    let g2 = Parser::new(decl.to_string()).parse(&mut t4).unwrap();
    assert_eq!(g1, g2);
    assert_eq!(t3.get('|'), t4.get('|'));
}

#[test]
fn conditional_requires_all_three_clauses() {
    let f = parse_one("if 1 then 2 else 3").unwrap();
    assert_eq!(
        f.body,
        Some(Expr::Conditional {
            cond: Box::new(num("1")),
            consequence: Box::new(num("2")),
            alternative: Box::new(num("3")),
        })
    );
    let e = parse_one("if 1 2 else 3").unwrap_err();
    assert_eq!(e, ParseError::ExpectedThen);
    assert_eq!(e.message(), "Expected 'then' keyword.");
    let e2 = parse_one("if 1 then 2").unwrap_err();
    assert_eq!(e2, ParseError::ExpectedElse);
}

#[test]
fn for_loop_with_and_without_step() {
    let f = parse_one("for i = 1, 10, 2 in i").unwrap();
    assert_eq!(
        f.body,
        Some(Expr::For {
            var_name: "i".to_string(),
            start: Box::new(num("1")),
            end: Box::new(num("10")),
            step: Some(Box::new(num("2"))),
            body: Box::new(var("i")),
        })
    );
    let g = parse_one("for i = 1, 10 in i").unwrap();
    assert_eq!(
        g.body,
        Some(Expr::For {
            var_name: "i".to_string(),
            start: Box::new(num("1")),
            end: Box::new(num("10")),
            step: None,
            body: Box::new(var("i")),
        })
    );
}

#[test]
fn var_in_binds_names() {
    let f = parse_one("var x = 1, y in x+y").unwrap();
    assert_eq!(
        f.body,
        Some(Expr::VarIn {
            variables: vec![
                ("x".to_string(), Some(num("1"))),
                ("y".to_string(), None),
            ],
            body: Box::new(bin('+', var("x"), var("y"))),
        })
    );
}

#[test]
fn unary_operator_becomes_call() {
    let f = parse_one("!x").unwrap();
    assert_eq!(
        f.body,
        Some(Expr::Call {
            fn_name: "unary!".to_string(),
            args: vec![var("x")],
            bang: false,
        })
    );
    let g = parse_one("-x").unwrap();
    assert_eq!(
        g.body,
        Some(Expr::Call {
            fn_name: "unary-".to_string(),
            args: vec![var("x")],
            bang: false,
        })
    );
}

#[test]
fn calls_with_arguments_and_bang() {
    let f = parse_one("f(1, x)").unwrap();
    assert_eq!(
        f.body,
        Some(Expr::Call {
            fn_name: "f".to_string(),
            args: vec![num("1"), var("x")],
            bang: false,
        })
    );
    let g = parse_one("f()").unwrap();
    assert_eq!(
        g.body,
        Some(Expr::Call {
            fn_name: "f".to_string(),
            args: vec![],
            bang: false,
        })
    );
    let h = parse_one("f(1)!").unwrap();
    assert_eq!(
        h.body,
        Some(Expr::Call {
            fn_name: "f".to_string(),
            args: vec![num("1")],
            bang: true,
        })
    );
    let k = parse_one("f()!").unwrap();
    assert_eq!(
        k.body,
        Some(Expr::Call {
            fn_name: "f".to_string(),
            args: vec![],
            bang: true,
        })
    );
}

#[test]
fn parentheses_group() {
    let f = parse_one("(1+2)*3").unwrap();
    assert_eq!(
        f.body,
        Some(bin('*', bin('+', num("1"), num("2")), num("3")))
    );
}

#[test]
fn string_literal_expression() {
    let f = parse_one("\"hi\"").unwrap();
    assert_eq!(f.body, Some(Expr::Str("hi".to_string())));
}

#[test]
fn leftover_token_is_an_error() {
    let e = parse_one("1 2").unwrap_err();
    assert_eq!(e, ParseError::ExtraToken);
    assert_eq!(e.message(), "Unexpected token after parsed expression.");
}

#[test]
fn comment_inside_expression_aborts_parse() {
    let e = parse_one("1 + // note\n 2").unwrap_err();
    assert_eq!(e, ParseError::UnknownExpr);
}

#[test]
fn unknown_operator_binds_at_hundred() {
    let f = parse_one("1+2%3").unwrap();
    assert_eq!(
        f.body,
        Some(bin('+', num("1"), bin('%', num("2"), num("3"))))
    );
}

#[test]
fn binary_declaration_without_precedence_defaults_to_zero() {
    let mut table = default_table();
    let f = Parser::new("binary& (a: num, b: num) { a }".to_string())
        .parse(&mut table)
        .unwrap();
    assert_eq!(f.prototype.name, "binary&");
    assert_eq!(f.prototype.prec, 0);
    assert_eq!(table.get('&'), Some(0));
}

#[test]
fn unary_declaration_synthesizes_name() {
    let f = parse_one("unary- (v: num) { 0-v }").unwrap();
    assert_eq!(f.prototype.name, "unary-");
    assert!(f.prototype.is_op);
    assert_eq!(f.prototype.prec, 0);
}

#[test]
fn parameter_colon_is_required() {
    let e = parse_one("fn f(a num) { a }").unwrap_err();
    assert_eq!(
        e,
        ParseError::Expected {
            expected: Token::Colon,
            found: Token::Ident("num".to_string()),
        }
    );
}

#[test]
fn missing_parameter_type_is_an_error() {
    let e = parse_one("fn f(a: ) { a }").unwrap_err();
    assert_eq!(e, ParseError::ExpectedParamType);
}

#[test]
fn empty_input_is_an_error() {
    let e = parse_one("").unwrap_err();
    assert_eq!(e, ParseError::UnexpectedEof);
    assert_eq!(e.message(), "Unexpected end of file.");
}

#[test]
fn lex_failure_truncates_tokens_before_parse() {
    // The token buffer stops at the lexical failure, so the parse
    // sees only what came before it.
    let e = parse_one("1 + \"abc").unwrap_err();
    assert_eq!(e, ParseError::UnexpectedEof);
}

#[test]
fn table_insert_overwrites() {
    let mut t = PrecTable::new();
    assert_eq!(t.get('+'), None);
    t.insert('+', 20);
    assert_eq!(t.get('+'), Some(20));
    t.insert('+', 30);
    assert_eq!(t.get('+'), Some(30));
    t.insert('-', 5);
    assert_eq!(t.get('-'), Some(5));
    assert_eq!(t.get('+'), Some(30));
}
