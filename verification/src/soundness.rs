//! What a successful match says about instantiation: the bindings it found
//! turn the pattern back into the value it was matched against.

use vstd::prelude::*;
use crate::matcher::{match_args, match_into, match_term, Env};
use crate::subst::{
    blocked_functor,
    blocked_functor_from,
    functor_blocked,
    functor_name,
    instantiate,
};
use crate::term::Term;

verus! {

/// Every binding of `small` is a binding of `big`.
pub open spec fn extends(big: Env, small: Env) -> bool {
    forall|k: Seq<char>| #[trigger]
        small.contains_key(k) ==> big.contains_key(k) && big[k] == small[k]
}

/// Instantiation under `env` leaves every functor of `t` under its own name:
/// each is unbound, or bound to the atom of that name.
pub open spec fn functors_kept(env: Env, t: Term) -> bool
    decreases t,
{
    match t {
        Term::Atom(_) => true,
        Term::Compound(name, args) => {
            &&& !functor_blocked(env, name)
            &&& functor_name(env, name) == name
            &&& forall|i: int| 0 <= i < args.len() ==> functors_kept(env, #[trigger] args[i])
        },
    }
}

/// A match only adds bindings.
pub proof fn lemma_match_extends(pattern: Term, value: Term, env: Env)
    requires
        match_into(pattern, value, env) is Some,
    ensures
        extends(match_into(pattern, value, env)->Some_0, env),
    decreases pattern, 0nat,
{
    match pattern {
        Term::Atom(_) => {},
        Term::Compound(_, ps) => {
            lemma_match_args_extends(ps, value->Compound_1, 0, env);
        },
    }
}

/// A pairwise match only adds bindings.
pub proof fn lemma_match_args_extends(ps: Seq<Term>, vs: Seq<Term>, from: nat, env: Env)
    requires
        match_args(ps, vs, from, env) is Some,
    ensures
        extends(match_args(ps, vs, from, env)->Some_0, env),
    decreases ps, ps.len() - from,
{
    if from < ps.len() {
        let next = match_into(ps[from as int], vs[from as int], env)->Some_0;
        lemma_match_extends(ps[from as int], vs[from as int], env);
        lemma_match_args_extends(ps, vs, from + 1, next);
    }
}

/// Under any bindings that hold those of a successful match and keep the
/// pattern's functors, the pattern instantiates to the matched value.
pub proof fn lemma_match_then_instantiate(pattern: Term, value: Term, env: Env, big: Env)
    requires
        match_into(pattern, value, env) is Some,
        extends(big, match_into(pattern, value, env)->Some_0),
        functors_kept(big, pattern),
    ensures
        instantiate(big, pattern) == value,
        blocked_functor(big, pattern) is None,
    decreases pattern, 0nat,
{
    match pattern {
        Term::Atom(name) => {
            let found = match_into(pattern, value, env)->Some_0;
            assert(found.contains_key(name) && found[name] == value);
        },
        Term::Compound(name, ps) => {
            let vs = value->Compound_1;
            lemma_match_args_then_instantiate(ps, vs, 0, env, big);
            assert(instantiate(big, pattern)->Compound_1 =~= vs);
            lemma_none_blocked_from(big, ps, 0);
        },
    }
}

/// The same for a pairwise match, on every pair from `from` on.
pub proof fn lemma_match_args_then_instantiate(
    ps: Seq<Term>,
    vs: Seq<Term>,
    from: nat,
    env: Env,
    big: Env,
)
    requires
        ps.len() == vs.len(),
        match_args(ps, vs, from, env) is Some,
        extends(big, match_args(ps, vs, from, env)->Some_0),
        forall|i: int| 0 <= i < ps.len() ==> functors_kept(big, #[trigger] ps[i]),
    ensures
        forall|j: int|
            from <= j < ps.len() ==> instantiate(big, #[trigger] ps[j]) == vs[j] && blocked_functor(
                big,
                ps[j],
            ) is None,
    decreases ps, ps.len() - from,
{
    if from < ps.len() {
        let next = match_into(ps[from as int], vs[from as int], env)->Some_0;
        lemma_match_args_extends(ps, vs, from + 1, next);
        lemma_match_then_instantiate(ps[from as int], vs[from as int], env, big);
        lemma_match_args_then_instantiate(ps, vs, from + 1, next, big);
    }
}

/// Where no term of `args` holds a blocked functor, the run over them finds
/// none.
pub proof fn lemma_none_blocked_from(env: Env, args: Seq<Term>, from: nat)
    requires
        forall|i: int| 0 <= i < args.len() ==> blocked_functor(env, #[trigger] args[i]) is None,
    ensures
        blocked_functor_from(env, args, from) is None,
    decreases args.len() - from,
{
    if from < args.len() {
        lemma_none_blocked_from(env, args, from + 1);
    }
}

/// Where a term of `args` at or after `from` holds a blocked functor, the
/// run over them from `from` on finds one.
pub proof fn lemma_some_blocked_from(env: Env, args: Seq<Term>, from: nat, at: int)
    requires
        from <= at < args.len(),
        blocked_functor(env, args[at]) is Some,
    ensures
        blocked_functor_from(env, args, from) is Some,
    decreases args.len() - from,
{
    if from < at {
        lemma_some_blocked_from(env, args, from + 1, at);
    }
}

/// Under bindings that do not keep the functors of a pattern that matched
/// a value, the pattern does not instantiate to that value: the
/// instantiation gets stuck or gives another term.
pub proof fn lemma_renamed_functor_breaks(pattern: Term, value: Term, env: Env, big: Env)
    requires
        match_into(pattern, value, env) is Some,
        !functors_kept(big, pattern),
    ensures
        blocked_functor(big, pattern) is Some || instantiate(big, pattern) != value,
    decreases pattern, 0nat,
{
    match pattern {
        Term::Atom(_) => {},
        Term::Compound(name, ps) => {
            let vs = value->Compound_1;
            if !functor_blocked(big, name) && functor_name(big, name) == name {
                let at = choose|i: int| 0 <= i < ps.len() && !functors_kept(big, #[trigger] ps[i]);
                lemma_renamed_functor_breaks_in(ps, vs, 0, env, big, at);
                if blocked_functor(big, ps[at]) is Some {
                    lemma_some_blocked_from(big, ps, 0, at);
                } else {
                    assert(instantiate(big, pattern)->Compound_1[at] == instantiate(big, ps[at]));
                }
            }
        },
    }
}

/// The same for the pattern at position `at` of a pairwise match.
pub proof fn lemma_renamed_functor_breaks_in(
    ps: Seq<Term>,
    vs: Seq<Term>,
    from: nat,
    env: Env,
    big: Env,
    at: int,
)
    requires
        match_args(ps, vs, from, env) is Some,
        from <= at < ps.len(),
        !functors_kept(big, ps[at]),
    ensures
        blocked_functor(big, ps[at]) is Some || instantiate(big, ps[at]) != vs[at],
    decreases ps, ps.len() - from,
{
    if from == at {
        lemma_renamed_functor_breaks(ps[at], vs[at], env, big);
    } else {
        let next = match_into(ps[from as int], vs[from as int], env)->Some_0;
        lemma_renamed_functor_breaks_in(ps, vs, from + 1, next, big, at);
    }
}

/// Variable consistency: the pattern `f(a, a)` matches `f(x, y)` exactly
/// where `x` and `y` are equal, and then binds `a` to `x` and nothing else.
pub proof fn lemma_variable_consistency(f: Seq<char>, a: Seq<char>, x: Term, y: Term)
    ensures
        match_term(
            Term::Compound(f, seq![Term::Atom(a), Term::Atom(a)]),
            Term::Compound(f, seq![x, y]),
        ) == if x == y {
            Some(Map::<Seq<char>, Term>::empty().insert(a, x))
        } else {
            None
        },
{
    let ps = seq![Term::Atom(a), Term::Atom(a)];
    let vs = seq![x, y];
    let none = Map::<Seq<char>, Term>::empty();
    let bound = none.insert(a, x);
    let last = if x == y {
        Some(bound)
    } else {
        None
    };
    assert(ps.len() == 2 && vs.len() == 2);
    assert(match_into(ps[0], vs[0], none) == Some(bound));
    assert(match_into(ps[1], vs[1], bound) == last);
    assert(match_args(ps, vs, 2, bound) == Some(bound));
    assert(match_args(ps, vs, 1, bound) == last);
    assert(match_args(ps, vs, 0, none) == last);
}

/// Match soundness: where `pattern` matches `value` and the bindings found
/// keep the pattern's functors, instantiating the pattern under them gives
/// `value` back, and the instantiation does not get stuck.
pub proof fn lemma_match_sound(pattern: Term, value: Term)
    requires
        match_term(pattern, value) is Some,
        functors_kept(match_term(pattern, value)->Some_0, pattern),
    ensures
        blocked_functor(match_term(pattern, value)->Some_0, pattern) is None,
        instantiate(match_term(pattern, value)->Some_0, pattern) == value,
{
    let found = match_term(pattern, value)->Some_0;
    lemma_match_then_instantiate(pattern, value, Map::empty(), found);
}

/// The bindings of a successful match give the value back exactly where they
/// keep the pattern's functors.
pub proof fn lemma_match_sound_exactly(pattern: Term, value: Term)
    requires
        match_term(pattern, value) is Some,
    ensures
        functors_kept(match_term(pattern, value)->Some_0, pattern) <==> (blocked_functor(
            match_term(pattern, value)->Some_0,
            pattern,
        ) is None && instantiate(match_term(pattern, value)->Some_0, pattern) == value),
{
    let found = match_term(pattern, value)->Some_0;
    if functors_kept(found, pattern) {
        lemma_match_sound(pattern, value);
    } else {
        lemma_renamed_functor_breaks(pattern, value, Map::empty(), found);
    }
}

} // verus!
