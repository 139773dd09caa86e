use rewriter::error::Error;
use rewriter::parser::expect_token_kind;
use rewriter::rewrite::Rule;
use rewriter::session::{Context, Report};
use rewriter::term::Expr;
use rewriter::token::{Loc, Token, TokenKind, TokenKindSet, TokenStream};

fn sym(name: &str) -> Expr {
    Expr::Sym(name.to_string())
}

fn fun(name: &str, args: Vec<Expr>) -> Expr {
    Expr::Fun(name.to_string(), args)
}

fn kind_of(text: &str) -> TokenKind {
    match text {
        "(" => TokenKind::OpenParen,
        ")" => TokenKind::CloseParen,
        "," => TokenKind::Comma,
        "=" => TokenKind::Equals,
        "rule" => TokenKind::Rule,
        "shape" => TokenKind::Shape,
        "apply" => TokenKind::Apply,
        "done" => TokenKind::Done,
        "" => TokenKind::End,
        _ => TokenKind::Sym,
    }
}

/// A stream of the given words, one column apart, with the end marker after
/// them.
fn stream(words: &[&str]) -> TokenStream {
    let mut tokens = Vec::new();
    for (i, w) in words.iter().enumerate() {
        tokens.push(Token { kind: kind_of(w), text: w.to_string(), loc: Loc { row: 0, col: i } });
    }
    tokens.push(Token { kind: TokenKind::End, text: String::new(), loc: Loc { row: 0, col: words.len() } });
    TokenStream::new(tokens)
}

fn run(ctx: &mut Context, words: &[&str]) -> Result<Report, Error> {
    let mut lexer = stream(words);
    assert!(lexer.is_terminated());
    let r = ctx.process_command(&mut lexer)?;
    assert_eq!(lexer.peek_kind(), None);
    Ok(r)
}

#[test]
fn parse_atom() {
    let mut s = stream(&["a"]);
    assert_eq!(Expr::parse(&mut s).unwrap(), sym("a"));
    assert_eq!(s.peek_kind(), Some(TokenKind::End));
}

#[test]
fn parse_empty_argument_list() {
    let mut s = stream(&["f", "(", ")"]);
    assert_eq!(Expr::parse_peekable(&mut s).unwrap(), fun("f", vec![]));
    assert_eq!(s.peek_kind(), Some(TokenKind::End));
}

#[test]
fn parse_nested_term() {
    let mut s = stream(&["f", "(", "a", ",", "g", "(", "b", ",", "h", "(", ")", ")", ",", "c", ")", "="]);
    let expected = fun("f", vec![sym("a"), fun("g", vec![sym("b"), fun("h", vec![])]), sym("c")]);
    assert_eq!(Expr::parse(&mut s).unwrap(), expected);
    assert_eq!(s.peek_kind(), Some(TokenKind::Equals));
}

#[test]
fn parse_leaves_trailing_tokens() {
    let mut s = stream(&["a", "b"]);
    assert_eq!(Expr::parse(&mut s).unwrap(), sym("a"));
    let next = s.next().unwrap();
    assert_eq!(next.kind, TokenKind::Sym);
    assert_eq!(next.text, "b");
}

#[test]
fn parse_expects_symbol() {
    let mut s = stream(&["(", "a", ")"]);
    match Expr::parse(&mut s) {
        Err(Error::UnexpectedToken(expected, actual)) => {
            assert_eq!(expected, TokenKindSet::single(TokenKind::Sym));
            assert_eq!(actual.kind, TokenKind::OpenParen);
            assert_eq!(actual.loc, Loc { row: 0, col: 0 });
        },
        other => panic!("unexpected result {:?}", other),
    }
    let mut e = stream(&[]);
    match Expr::parse(&mut e) {
        Err(Error::UnexpectedToken(expected, actual)) => {
            assert!(expected.contains(TokenKind::Sym));
            assert_eq!(actual.kind, TokenKind::End);
        },
        other => panic!("unexpected result {:?}", other),
    }
}

#[test]
fn parse_expects_symbol_after_comma() {
    let mut s = stream(&["f", "(", "a", ",", ")"]);
    match Expr::parse(&mut s) {
        Err(Error::UnexpectedToken(expected, actual)) => {
            assert_eq!(expected, TokenKindSet::single(TokenKind::Sym));
            assert_eq!(actual.kind, TokenKind::CloseParen);
            assert_eq!(actual.loc.col, 4);
        },
        other => panic!("unexpected result {:?}", other),
    }
}

#[test]
fn parse_expects_close_paren() {
    let mut s = stream(&["f", "(", "a", "b", ")"]);
    match Expr::parse(&mut s) {
        Err(Error::UnexpectedToken(expected, actual)) => {
            assert_eq!(expected, TokenKindSet::single(TokenKind::CloseParen));
            assert_eq!(actual.kind, TokenKind::Sym);
            assert_eq!(actual.text, "b");
            assert_eq!(actual.loc.col, 3);
        },
        other => panic!("unexpected result {:?}", other),
    }
    let mut t = stream(&["f", "(", "a"]);
    match Expr::parse(&mut t) {
        Err(Error::UnexpectedToken(expected, actual)) => {
            assert!(expected.contains(TokenKind::CloseParen));
            assert!(!expected.contains(TokenKind::Sym));
            assert_eq!(actual.kind, TokenKind::End);
        },
        other => panic!("unexpected result {:?}", other),
    }
}

#[test]
fn written_form_reads_back() {
    let t = fun("f", vec![fun("g", vec![sym("a"), sym("b")]), fun("h", vec![]), sym("c")]);
    let mut s = stream(&["f", "(", "g", "(", "a", ",", "b", ")", ",", "h", "(", ")", ",", "c", ")"]);
    assert_eq!(t.to_string(), "f(g(a, b), h(), c)");
    assert_eq!(Expr::parse(&mut s).unwrap(), t);
    assert_eq!(s.peek_kind(), Some(TokenKind::End));
}

#[test]
fn expect_token_kind_takes_one_token() {
    let mut s = stream(&["a", "="]);
    let kinds = TokenKindSet::empty().set(TokenKind::Sym).set(TokenKind::Comma);
    let t = expect_token_kind(&mut s, kinds).unwrap();
    assert_eq!(t.kind, TokenKind::Sym);
    assert_eq!(t.text, "a");
    match expect_token_kind(&mut s, kinds) {
        Err(Error::UnexpectedToken(expected, actual)) => {
            assert_eq!(expected, kinds);
            assert_eq!(actual.kind, TokenKind::Equals);
        },
        other => panic!("unexpected result {:?}", other),
    }
    assert_eq!(s.peek_kind(), Some(TokenKind::End));
}

#[test]
fn token_kind_sets() {
    let e = TokenKindSet::empty();
    assert!(!e.contains(TokenKind::Sym));
    assert!(!e.contains(TokenKind::End));
    let s = e.set(TokenKind::Rule).set(TokenKind::Done);
    assert!(s.contains(TokenKind::Rule));
    assert!(s.contains(TokenKind::Done));
    assert!(!s.contains(TokenKind::Shape));
    assert_eq!(TokenKindSet::single(TokenKind::Comma), e.set(TokenKind::Comma));
    assert_eq!(s.set(TokenKind::Rule), s);
}

#[test]
fn token_stream_cursor() {
    let mut s = stream(&["a", ","]);
    assert!(s.is_terminated());
    assert!(!s.next_if_kind(TokenKind::Comma));
    assert!(s.next_if_kind(TokenKind::Sym));
    assert_eq!(s.take().kind, TokenKind::Comma);
    assert!(s.is_terminated());
    assert_eq!(s.next().unwrap().kind, TokenKind::End);
    assert!(!s.is_terminated());
    assert_eq!(s.peek_kind(), None);
    assert!(s.next().is_none());
    assert!(!TokenStream::new(vec![]).is_terminated());
}

#[test]
fn session_transitions() {
    let mut ctx = Context::new();
    assert!(!ctx.is_shaping());
    assert!(matches!(ctx.apply(&"anything".to_string()), Err(Error::NoShapingInPlace)));
    assert!(matches!(ctx.done(), Err(Error::NoShapingInPlace)));
    assert!(!ctx.is_shaping());
    let t = fun("f", vec![sym("x")]);
    assert!(ctx.shape(t.clone()).is_ok());
    assert_eq!(ctx.current(), Some(&t));
    assert!(matches!(ctx.shape(sym("other")), Err(Error::AlreadyShaping)));
    assert_eq!(ctx.current(), Some(&t));
    assert_eq!(ctx.done().unwrap(), t);
    assert!(!ctx.is_shaping());
    assert_eq!(ctx.current(), None);
}

#[test]
fn duplicate_rule_keeps_first_definition() {
    let mut ctx = Context::default();
    let first = Rule { loc: Loc { row: 0, col: 0 }, head: fun("f", vec![sym("a")]), body: sym("a") };
    let second = Rule { loc: Loc { row: 1, col: 0 }, head: fun("g", vec![sym("a")]), body: sym("b") };
    assert!(ctx.define_rule("r".to_string(), Loc { row: 0, col: 5 }, first).is_ok());
    match ctx.define_rule("r".to_string(), Loc { row: 1, col: 5 }, second) {
        Err(Error::RuleAlreadyExists(name, new_loc, old_loc)) => {
            assert_eq!(name, "r");
            assert_eq!(new_loc, Loc { row: 1, col: 5 });
            assert_eq!(old_loc, Loc { row: 0, col: 0 });
        },
        other => panic!("unexpected result {:?}", other),
    }
    let kept = ctx.rule(&"r".to_string()).unwrap();
    assert_eq!(kept.head, fun("f", vec![sym("a")]));
    assert_eq!(kept.body, sym("a"));
    assert_eq!(kept.loc, Loc { row: 0, col: 0 });
}

#[test]
fn apply_unknown_rule_leaves_term() {
    let mut ctx = Context::new();
    ctx.shape(sym("x")).unwrap();
    match ctx.apply(&"nope".to_string()) {
        Err(Error::RuleDoesNotExist(name)) => assert_eq!(name, "nope"),
        other => panic!("unexpected result {:?}", other),
    }
    assert_eq!(ctx.current(), Some(&sym("x")));
}

#[test]
fn apply_that_gets_stuck_leaves_term() {
    let mut ctx = Context::new();
    let r = Rule {
        loc: Loc { row: 0, col: 0 },
        head: fun("call", vec![sym("f"), sym("x")]),
        body: fun("f", vec![sym("x")]),
    };
    ctx.define_rule("call".to_string(), Loc { row: 0, col: 5 }, r).unwrap();
    let t = fun("call", vec![fun("g", vec![]), sym("y")]);
    ctx.shape(t.clone()).unwrap();
    assert!(matches!(ctx.apply(&"call".to_string()), Err(Error::FunctorNotSymbol(_))));
    assert_eq!(ctx.current(), Some(&t));
}

#[test]
fn stray_token_fails_shape_and_changes_nothing() {
    let mut ctx = Context::new();
    let mut lexer = stream(&["shape", "f", "(", "x", ")", "y"]);
    match ctx.process_command(&mut lexer) {
        Err(Error::UnexpectedToken(expected, actual)) => {
            assert_eq!(expected, TokenKindSet::single(TokenKind::End));
            assert_eq!(actual.kind, TokenKind::Sym);
            assert_eq!(actual.text, "y");
            assert_eq!(actual.loc.col, 5);
        },
        other => panic!("unexpected result {:?}", other),
    }
    assert!(!ctx.is_shaping());
    assert_eq!(ctx.current(), None);
    assert_eq!(lexer.peek_kind(), Some(TokenKind::End));
}

#[test]
fn stray_token_fails_rule_and_changes_nothing() {
    let mut ctx = Context::new();
    match run(&mut ctx, &["rule", "r", "f", "(", "a", ")", "=", "a", "b"]) {
        Err(Error::UnexpectedToken(expected, actual)) => {
            assert_eq!(expected, TokenKindSet::single(TokenKind::End));
            assert_eq!(actual.text, "b");
        },
        other => panic!("unexpected result {:?}", other),
    }
    assert!(ctx.rule(&"r".to_string()).is_none());
    assert!(matches!(
        run(&mut ctx, &["rule", "r", "f", "(", "a", ")", "=", "a", "="]),
        Err(Error::UnexpectedToken(_, _))
    ));
    assert!(ctx.rule(&"r".to_string()).is_none());
}

#[test]
fn stray_token_fails_apply_and_done_and_changes_nothing() {
    let mut ctx = Context::new();
    assert!(run(&mut ctx, &["rule", "r", "f", "(", "a", ")", "=", "a"]).is_ok());
    assert!(run(&mut ctx, &["shape", "f", "(", "x", ")"]).is_ok());
    let t = fun("f", vec![sym("x")]);
    match run(&mut ctx, &["apply", "r", ","]) {
        Err(Error::UnexpectedToken(expected, actual)) => {
            assert_eq!(expected, TokenKindSet::single(TokenKind::End));
            assert_eq!(actual.kind, TokenKind::Comma);
        },
        other => panic!("unexpected result {:?}", other),
    }
    assert_eq!(ctx.current(), Some(&t));
    match run(&mut ctx, &["done", "done"]) {
        Err(Error::UnexpectedToken(expected, actual)) => {
            assert_eq!(expected, TokenKindSet::single(TokenKind::End));
            assert_eq!(actual.kind, TokenKind::Done);
            assert_eq!(actual.loc.col, 1);
        },
        other => panic!("unexpected result {:?}", other),
    }
    assert_eq!(ctx.current(), Some(&t));
    // an unknown rule is found before the stray token is
    match run(&mut ctx, &["apply", "q", ","]) {
        Err(Error::RuleDoesNotExist(name)) => assert_eq!(name, "q"),
        other => panic!("unexpected result {:?}", other),
    }
    assert!(matches!(run(&mut ctx, &["apply", "r"]), Ok(Report::Applied(_))));
    assert_eq!(ctx.current(), Some(&sym("x")));
    assert!(matches!(run(&mut ctx, &["done"]), Ok(Report::Finished(_))));
    assert!(!ctx.is_shaping());
}

#[test]
fn commands_define_shape_apply_done() {
    let mut ctx = Context::new();
    match run(&mut ctx, &["rule", "swap", "swap", "(", "pair", "(", "a", ",", "b", ")", ")", "=", "pair", "(", "b", ",", "a", ")"]) {
        Ok(Report::Defined(rule)) => {
            assert_eq!(rule.to_string(), "swap(pair(a, b)) = pair(b, a)");
            assert_eq!(rule.loc, Loc { row: 0, col: 0 });
        },
        other => panic!("unexpected result {:?}", other),
    }
    assert!(ctx.rule(&"swap".to_string()).is_some());
    match run(&mut ctx, &["shape", "foo", "(", "swap", "(", "pair", "(", "x", ",", "y", ")", ")", ")"]) {
        Ok(Report::Shaping(t)) => assert_eq!(t.to_string(), "foo(swap(pair(x, y)))"),
        other => panic!("unexpected result {:?}", other),
    }
    match run(&mut ctx, &["apply", "swap"]) {
        Ok(Report::Applied(t)) => assert_eq!(t.to_string(), "foo(pair(y, x))"),
        other => panic!("unexpected result {:?}", other),
    }
    assert_eq!(ctx.current().unwrap().to_string(), "foo(pair(y, x))");
    match run(&mut ctx, &["done"]) {
        Ok(Report::Finished(t)) => assert_eq!(t.to_string(), "foo(pair(y, x))"),
        other => panic!("unexpected result {:?}", other),
    }
    assert!(!ctx.is_shaping());
}

#[test]
fn commands_fail_in_order_and_change_nothing() {
    let mut ctx = Context::new();
    // no keyword
    match run(&mut ctx, &["f", "(", ")"]) {
        Err(Error::UnexpectedToken(expected, actual)) => {
            let kinds = TokenKindSet::empty()
                .set(TokenKind::Rule)
                .set(TokenKind::Shape)
                .set(TokenKind::Apply)
                .set(TokenKind::Done);
            assert_eq!(expected, kinds);
            assert_eq!(actual.kind, TokenKind::Sym);
        },
        other => panic!("unexpected result {:?}", other),
    }
    assert!(matches!(run(&mut ctx, &["apply", "r"]), Err(Error::NoShapingInPlace)));
    assert!(matches!(run(&mut ctx, &["apply", "("]), Err(Error::NoShapingInPlace)));
    assert!(matches!(run(&mut ctx, &["done"]), Err(Error::NoShapingInPlace)));
    // a rule whose body is malformed is not defined
    assert!(matches!(
        run(&mut ctx, &["rule", "r", "f", "(", "a", ")", "=", ")"]),
        Err(Error::UnexpectedToken(_, _))
    ));
    assert!(ctx.rule(&"r".to_string()).is_none());
    match run(&mut ctx, &["rule", "r", "f", "(", "a", ")", "a"]) {
        Err(Error::UnexpectedToken(expected, actual)) => {
            assert_eq!(expected, TokenKindSet::single(TokenKind::Equals));
            assert_eq!(actual.text, "a");
        },
        other => panic!("unexpected result {:?}", other),
    }
    assert!(run(&mut ctx, &["rule", "r", "f", "(", "a", ")", "=", "a"]).is_ok());
    // the name is checked before head and body are read
    match run(&mut ctx, &["rule", "r", ")", ")"]) {
        Err(Error::RuleAlreadyExists(name, new_loc, old_loc)) => {
            assert_eq!(name, "r");
            assert_eq!(new_loc.col, 1);
            assert_eq!(old_loc.col, 0);
        },
        other => panic!("unexpected result {:?}", other),
    }
    assert_eq!(ctx.rule(&"r".to_string()).unwrap().to_string(), "f(a) = a");
    assert!(run(&mut ctx, &["shape", "f", "(", "x", ")"]).is_ok());
    // shaping is checked before the term is read
    assert!(matches!(run(&mut ctx, &["shape", ")"]), Err(Error::AlreadyShaping)));
    assert_eq!(ctx.current(), Some(&fun("f", vec![sym("x")])));
    match run(&mut ctx, &["apply", "q"]) {
        Err(Error::RuleDoesNotExist(name)) => assert_eq!(name, "q"),
        other => panic!("unexpected result {:?}", other),
    }
    assert!(matches!(run(&mut ctx, &["apply", "="]), Err(Error::UnexpectedToken(_, _))));
    assert_eq!(ctx.current(), Some(&fun("f", vec![sym("x")])));
    // a token after the command fails it, and the term stays
    match run(&mut ctx, &["apply", "r", "r"]) {
        Err(Error::UnexpectedToken(expected, actual)) => {
            assert_eq!(expected, TokenKindSet::single(TokenKind::End));
            assert_eq!(actual.loc.col, 2);
        },
        other => panic!("unexpected result {:?}", other),
    }
    assert_eq!(ctx.current(), Some(&fun("f", vec![sym("x")])));
}
