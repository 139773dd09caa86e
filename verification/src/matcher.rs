//! One-directional matching of a pattern against a value. Every atom of the
//! pattern is a binder; an atom that occurs again must meet an equal value.

use vstd::prelude::*;
use crate::name_map::NameMap;
use crate::term::{lemma_view_fun, views, Expr, Term};

verus! {

/// The bindings a match produces, in memory.
pub type Bindings = NameMap<Expr>;

/// Bindings as a mathematical map from atom names to terms.
pub type Env = Map<Seq<char>, Term>;

/// Matching `pattern` against `value` on top of the bindings `env`: the
/// extended bindings, or `None` where the two do not match.
pub open spec fn match_into(pattern: Term, value: Term, env: Env) -> Option<Env>
    decreases pattern, 0nat,
{
    match pattern {
        Term::Atom(name) => if env.contains_key(name) {
            if env[name] == value {
                Some(env)
            } else {
                None
            }
        } else {
            Some(env.insert(name, value))
        },
        Term::Compound(name, ps) => match value {
            Term::Compound(other, vs) => if name == other && ps.len() == vs.len() {
                match_args(ps, vs, 0, env)
            } else {
                None
            },
            Term::Atom(_) => None,
        },
    }
}

/// Matching the patterns `ps` against the values `vs` pairwise from position
/// `from` on, each pair on top of the bindings that the pairs before it left.
pub open spec fn match_args(ps: Seq<Term>, vs: Seq<Term>, from: nat, env: Env) -> Option<Env>
    decreases ps, ps.len() - from,
{
    if from >= ps.len() {
        Some(env)
    } else {
        match match_into(ps[from as int], vs[from as int], env) {
            Some(next) => match_args(ps, vs, from + 1, next),
            None => None,
        }
    }
}

/// Matching `pattern` against `value`, starting without bindings.
pub open spec fn match_term(pattern: Term, value: Term) -> Option<Env> {
    match_into(pattern, value, Map::empty())
}

/// Matches `pattern` against `value` on top of `bindings`. Where the match
/// fails, `bindings` may hold a part of what was bound on the way.
#[verifier::loop_isolation(false)]
pub fn pattern_match_impl(pattern: &Expr, value: &Expr, bindings: &mut Bindings) -> (ok: bool)
    requires
        old(bindings).wf(),
    ensures
        final(bindings).wf(),
        match match_into(pattern@, value@, old(bindings)@) {
            Some(env) => ok && final(bindings)@ == env,
            None => !ok,
        },
    decreases pattern,
{
    proof {
        lemma_view_fun(*pattern);
        lemma_view_fun(*value);
    }
    match (pattern, value) {
        (Expr::Sym(name), _) => {
            match bindings.get(name) {
                Some(bound) => bound.same(value),
                None => {
                    bindings.insert(name.clone(), value.clone());
                    true
                },
            }
        },
        (Expr::Fun(name1, args1), Expr::Fun(name2, args2)) => {
            if *name1 == *name2 && args1.len() == args2.len() {
                let ghost ps = views(args1@);
                let ghost vs = views(args2@);
                let mut i: usize = 0;
                while i < args1.len()
                    invariant
                        i <= args1.len(),
                        args1.len() == args2.len(),
                        ps == views(args1@),
                        vs == views(args2@),
                        bindings.wf(),
                        match_args(ps, vs, i as nat, bindings@) == match_args(
                            ps,
                            vs,
                            0,
                            old(bindings)@,
                        ),
                    decreases args1.len() - i,
                {
                    assert(decreases_to!(args1 => args1[i as int]));
                    assert(ps[i as int] == args1[i as int]@);
                    assert(vs[i as int] == args2[i as int]@);
                    if !pattern_match_impl(&args1[i], &args2[i], bindings) {
                        return false;
                    }
                    i += 1;
                }
                true
            } else {
                false
            }
        },
        _ => false,
    }
}

/// Matches `pattern` against `value`: the bindings of the pattern's atoms
/// where the two match, `None` where they do not.
pub fn pattern_match(pattern: &Expr, value: &Expr) -> (r: Option<Bindings>)
    ensures
        match match_term(pattern@, value@) {
            Some(env) => r is Some && r->Some_0.wf() && r->Some_0@ == env,
            None => r is None,
        },
{
    let mut bindings = NameMap::new();
    if pattern_match_impl(pattern, value, &mut bindings) {
        Some(bindings)
    } else {
        None
    }
}

} // verus!
