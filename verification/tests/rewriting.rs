use rewriter::error::Error;
use rewriter::matcher::pattern_match;
use rewriter::name_map::NameMap;
use rewriter::rewrite::Rule;
use rewriter::subst::substitute_bindings;
use rewriter::term::Expr;
use rewriter::token::Loc;

fn sym(name: &str) -> Expr {
    Expr::Sym(name.to_string())
}

fn fun(name: &str, args: Vec<Expr>) -> Expr {
    Expr::Fun(name.to_string(), args)
}

fn rule(head: Expr, body: Expr) -> Rule {
    Rule { loc: Loc { row: 0, col: 0 }, head, body }
}

#[test]
fn rule_apply_all() {
    // swap(pair(a, b)) = pair(b, a)
    let swap = rule(
        fun("swap", vec![fun("pair", vec![sym("a"), sym("b")])]),
        fun("pair", vec![sym("b"), sym("a")]),
    );

    let input = fun(
        "foo",
        vec![
            fun("swap", vec![fun("pair", vec![fun("f", vec![sym("a")]), fun("g", vec![sym("b")])])]),
            fun("swap", vec![fun("pair", vec![fun("q", vec![sym("c")]), fun("z", vec![sym("d")])])]),
        ],
    );

    let expected = fun(
        "foo",
        vec![
            fun("pair", vec![fun("g", vec![sym("b")]), fun("f", vec![sym("a")])]),
            fun("pair", vec![fun("z", vec![sym("d")]), fun("q", vec![sym("c")])]),
        ],
    );

    assert_eq!(swap.apply_all(&input).unwrap(), expected);
}

#[test]
fn structural_equality() {
    assert_eq!(sym("a"), sym("a"));
    assert_ne!(sym("a"), sym("b"));
    assert_ne!(sym("f"), fun("f", vec![]));
    assert_eq!(fun("f", vec![sym("a"), sym("b")]), fun("f", vec![sym("a"), sym("b")]));
    assert_ne!(fun("f", vec![sym("a"), sym("b")]), fun("f", vec![sym("b"), sym("a")]));
    assert_ne!(fun("f", vec![sym("a")]), fun("f", vec![sym("a"), sym("a")]));
    assert_ne!(fun("f", vec![sym("a")]), fun("g", vec![sym("a")]));
    assert!(fun("f", vec![sym("a")]).same(&fun("f", vec![sym("a")])));
    assert!(!fun("f", vec![sym("a")]).same(&sym("f")));
}

#[test]
fn clone_is_deep_and_equal() {
    let t = fun("f", vec![fun("g", vec![sym("x")]), sym("y")]);
    assert_eq!(t.clone(), t);
    assert_eq!(t.duplicate(), t);
}

#[test]
fn atom_pattern_binds_value() {
    let value = fun("g", vec![sym("x")]);
    let b = pattern_match(&sym("a"), &value).unwrap();
    assert_eq!(b.get(&"a".to_string()), Some(&value));
    assert_eq!(b.get(&"g".to_string()), None);
}

#[test]
fn compound_pattern_threads_bindings() {
    let p = fun("f", vec![sym("a"), fun("g", vec![sym("b")])]);
    let v = fun("f", vec![sym("x"), fun("g", vec![fun("h", vec![])])]);
    let b = pattern_match(&p, &v).unwrap();
    assert_eq!(b.get(&"a".to_string()), Some(&sym("x")));
    assert_eq!(b.get(&"b".to_string()), Some(&fun("h", vec![])));
    assert_eq!(b.get(&"f".to_string()), None);
}

#[test]
fn variable_consistency() {
    let p = fun("f", vec![sym("a"), sym("a")]);
    assert!(pattern_match(&p, &fun("f", vec![sym("x"), sym("y")])).is_none());
    let b = pattern_match(&p, &fun("f", vec![sym("x"), sym("x")])).unwrap();
    assert_eq!(b.get(&"a".to_string()), Some(&sym("x")));
}

#[test]
fn mismatches_fail() {
    let p = fun("f", vec![sym("a")]);
    assert!(pattern_match(&p, &sym("f")).is_none());
    assert!(pattern_match(&p, &fun("g", vec![sym("x")])).is_none());
    assert!(pattern_match(&p, &fun("f", vec![])).is_none());
    assert!(pattern_match(&p, &fun("f", vec![sym("x"), sym("y")])).is_none());
    assert!(pattern_match(&fun("f", vec![]), &fun("f", vec![])).is_some());
}

#[test]
fn later_argument_is_held_to_earlier_binding() {
    let p = fun("f", vec![sym("a"), fun("g", vec![sym("a")])]);
    assert!(pattern_match(&p, &fun("f", vec![sym("x"), fun("g", vec![sym("x")])])).is_some());
    assert!(pattern_match(&p, &fun("f", vec![sym("x"), fun("g", vec![sym("y")])])).is_none());
}

#[test]
fn match_then_instantiate_gives_value_back() {
    let p = fun("f", vec![sym("a"), fun("g", vec![sym("b"), sym("a")])]);
    let v = fun("f", vec![fun("h", vec![sym("x")]), fun("g", vec![sym("y"), fun("h", vec![sym("x")])])]);
    let b = pattern_match(&p, &v).unwrap();
    assert_eq!(substitute_bindings(&b, &p).unwrap(), v);
}

#[test]
fn substitution_replaces_bound_atoms_only() {
    let mut b: NameMap<Expr> = NameMap::new();
    b.insert("a".to_string(), fun("g", vec![sym("x")]));
    let t = fun("f", vec![sym("a"), sym("c"), fun("h", vec![sym("a")])]);
    let expected = fun(
        "f",
        vec![fun("g", vec![sym("x")]), sym("c"), fun("h", vec![fun("g", vec![sym("x")])])],
    );
    assert_eq!(substitute_bindings(&b, &t).unwrap(), expected);
    assert_eq!(substitute_bindings(&b, &sym("a")).unwrap(), fun("g", vec![sym("x")]));
    assert_eq!(substitute_bindings(&b, &sym("z")).unwrap(), sym("z"));
}

#[test]
fn substitution_renames_functor_bound_to_atom() {
    let mut b: NameMap<Expr> = NameMap::new();
    b.insert("f".to_string(), sym("k"));
    let t = fun("f", vec![sym("f"), fun("f", vec![])]);
    assert_eq!(
        substitute_bindings(&b, &t).unwrap(),
        fun("k", vec![sym("k"), fun("k", vec![])])
    );
}

#[test]
fn substitution_fails_on_functor_bound_to_compound() {
    let mut b: NameMap<Expr> = NameMap::new();
    b.insert("g".to_string(), fun("p", vec![]));
    b.insert("h".to_string(), fun("q", vec![]));
    let t = fun("f", vec![sym("g"), fun("h", vec![fun("g", vec![])]), fun("g", vec![])]);
    match substitute_bindings(&b, &t) {
        Err(Error::FunctorNotSymbol(name)) => assert_eq!(name, "h"),
        other => panic!("unexpected result {:?}", other),
    }
}

#[test]
fn rewrite_without_match_is_identity() {
    let r = rule(fun("swap", vec![sym("a")]), sym("a"));
    let t = fun("foo", vec![fun("bar", vec![sym("x")]), sym("swap"), fun("swap", vec![])]);
    assert_eq!(r.apply_all(&t).unwrap(), t);
    assert_eq!(r.apply_all(&sym("x")).unwrap(), sym("x"));
}

#[test]
fn rewrite_is_outermost_and_single_layer() {
    // s(a) = a on s(s(s(x))): only the outermost place is rewritten.
    let r = rule(fun("s", vec![sym("a")]), sym("a"));
    let t = fun("s", vec![fun("s", vec![fun("s", vec![sym("x")])])]);
    assert_eq!(r.apply_all(&t).unwrap(), fun("s", vec![fun("s", vec![sym("x")])]));
    // below a node that does not match, each argument is rewritten.
    let u = fun("p", vec![fun("s", vec![fun("s", vec![sym("x")])]), fun("s", vec![sym("y")])]);
    assert_eq!(r.apply_all(&u).unwrap(), fun("p", vec![fun("s", vec![sym("x")]), sym("y")]));
}

#[test]
fn rewrite_does_not_look_into_what_it_produced() {
    // w(a) = w(w(a)) applied once wraps once.
    let r = rule(fun("w", vec![sym("a")]), fun("w", vec![fun("w", vec![sym("a")])]));
    assert_eq!(
        r.apply_all(&fun("w", vec![sym("x")])).unwrap(),
        fun("w", vec![fun("w", vec![sym("x")])])
    );
}

#[test]
fn atom_head_matches_everything() {
    let r = rule(sym("a"), fun("id", vec![sym("a")]));
    let t = fun("f", vec![sym("x")]);
    assert_eq!(r.apply_all(&t).unwrap(), fun("id", vec![fun("f", vec![sym("x")])]));
}

#[test]
fn rewrite_reports_functor_bound_to_compound() {
    // call(f, x) = f(x) with f bound to a compound cannot be instantiated.
    let r = rule(fun("call", vec![sym("f"), sym("x")]), fun("f", vec![sym("x")]));
    let ok = fun("call", vec![sym("g"), sym("y")]);
    assert_eq!(r.apply_all(&ok).unwrap(), fun("g", vec![sym("y")]));
    let bad = fun("top", vec![fun("call", vec![fun("g", vec![]), sym("y")])]);
    match r.apply_all(&bad) {
        Err(Error::FunctorNotSymbol(name)) => assert_eq!(name, "f"),
        other => panic!("unexpected result {:?}", other),
    }
}

#[test]
fn name_map_insert_get_replace() {
    let mut m: NameMap<Expr> = NameMap::new();
    assert!(!m.contains(&"a".to_string()));
    m.insert("a".to_string(), sym("x"));
    m.insert("b".to_string(), sym("y"));
    assert!(m.contains(&"a".to_string()));
    assert_eq!(m.get(&"a".to_string()), Some(&sym("x")));
    assert_eq!(m.get(&"b".to_string()), Some(&sym("y")));
    m.insert("a".to_string(), sym("z"));
    assert_eq!(m.get(&"a".to_string()), Some(&sym("z")));
    assert_eq!(m.get(&"b".to_string()), Some(&sym("y")));
    assert_eq!(m.get(&"c".to_string()), None);
}

#[test]
fn terms_and_rules_as_text() {
    assert_eq!(sym("a").to_string(), "a");
    assert_eq!(fun("f", vec![]).to_string(), "f()");
    assert_eq!(fun("f", vec![sym("a")]).to_string(), "f(a)");
    assert_eq!(
        fun("f", vec![sym("a"), fun("g", vec![sym("b"), sym("c")]), fun("h", vec![])]).to_string(),
        "f(a, g(b, c), h())"
    );
    let r = rule(
        fun("swap", vec![fun("pair", vec![sym("a"), sym("b")])]),
        fun("pair", vec![sym("b"), sym("a")]),
    );
    assert_eq!(r.to_string(), "swap(pair(a, b)) = pair(b, a)");
}

#[test]
fn functor_that_is_also_bound_is_renamed() {
    // f(f) against f(x) binds f to x, and f(f) then instantiates to x(x).
    let p = fun("f", vec![sym("f")]);
    let v = fun("f", vec![sym("x")]);
    let b = pattern_match(&p, &v).unwrap();
    assert_eq!(b.get(&"f".to_string()), Some(&sym("x")));
    assert_eq!(substitute_bindings(&b, &p).unwrap(), fun("x", vec![sym("x")]));
}
