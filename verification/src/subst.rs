//! Instantiating a template under bindings. Bound atoms are replaced by what
//! they are bound to; a functor whose name is bound to an atom takes that
//! atom's name; a functor whose name is bound to a compound cannot be
//! instantiated.

use vstd::prelude::*;
use crate::error::{Error, ErrorView};
use crate::matcher::{Bindings, Env};
use crate::term::{lemma_view_fun, views, Expr, Term};

verus! {

/// The name a functor `name` has after instantiation under `env`.
pub open spec fn functor_name(env: Env, name: Seq<char>) -> Seq<char> {
    if env.contains_key(name) {
        match env[name] {
            Term::Atom(to) => to,
            Term::Compound(_, _) => name,
        }
    } else {
        name
    }
}

/// Whether the functor `name` is bound to a compound under `env`.
pub open spec fn functor_blocked(env: Env, name: Seq<char>) -> bool {
    env.contains_key(name) && env[name] is Compound
}

/// The template `t` with every bound atom replaced and every functor
/// renamed as `env` says.
pub open spec fn instantiate(env: Env, t: Term) -> Term
    decreases t,
{
    match t {
        Term::Atom(name) => if env.contains_key(name) {
            env[name]
        } else {
            t
        },
        Term::Compound(name, args) => Term::Compound(
            functor_name(env, name),
            Seq::new(
                args.len(),
                |i: int|
                    if 0 <= i < args.len() {
                        instantiate(env, args[i])
                    } else {
                        t
                    },
            ),
        ),
    }
}

/// The first functor of `t`, parents before children and children from left
/// to right, whose name is bound to a compound under `env`.
pub open spec fn blocked_functor(env: Env, t: Term) -> Option<Seq<char>>
    decreases t, 0nat,
{
    match t {
        Term::Atom(_) => None,
        Term::Compound(name, args) => if functor_blocked(env, name) {
            Some(name)
        } else {
            blocked_functor_from(env, args, 0)
        },
    }
}

/// The first such functor in the terms of `args` from position `from` on.
pub open spec fn blocked_functor_from(env: Env, args: Seq<Term>, from: nat) -> Option<Seq<char>>
    decreases args, args.len() - from,
{
    if from >= args.len() {
        None
    } else {
        match blocked_functor(env, args[from as int]) {
            Some(name) => Some(name),
            None => blocked_functor_from(env, args, from + 1),
        }
    }
}

/// Instantiates the template `expr` under `bindings`. Fails with
/// `FunctorNotSymbol` on the first functor whose name is bound to a compound.
#[verifier::loop_isolation(false)]
pub fn substitute_bindings(bindings: &Bindings, expr: &Expr) -> (r: Result<Expr, Error>)
    requires
        bindings.wf(),
    ensures
        match blocked_functor(bindings@, expr@) {
            None => r is Ok && r->Ok_0@ == instantiate(bindings@, expr@),
            Some(name) => r is Err && r->Err_0@ == ErrorView::FunctorNotSymbol(name),
        },
    decreases expr,
{
    proof {
        lemma_view_fun(*expr);
    }
    match expr {
        Expr::Sym(name) => {
            match bindings.get(name) {
                Some(value) => Ok(value.clone()),
                None => Ok(expr.clone()),
            }
        },
        Expr::Fun(name, args) => {
            let new_name = match bindings.get(name) {
                Some(Expr::Sym(to)) => to.clone(),
                None => name.clone(),
                Some(_) => {
                    return Err(Error::FunctorNotSymbol(name.clone()));
                },
            };
            let ghost env = bindings@;
            let ghost ts = views(args@);
            let mut new_args: Vec<Expr> = Vec::new();
            let mut i: usize = 0;
            while i < args.len()
                invariant
                    i <= args.len(),
                    ts == views(args@),
                    new_args@.len() == i,
                    forall|j: int| 0 <= j < i ==> new_args@[j]@ == instantiate(env, ts[j]),
                    blocked_functor_from(env, ts, i as nat) == blocked_functor_from(env, ts, 0),
                decreases args.len() - i,
            {
                assert(decreases_to!(args => args[i as int]));
                assert(ts[i as int] == args[i as int]@);
                match substitute_bindings(bindings, &args[i]) {
                    Ok(arg) => new_args.push(arg),
                    Err(e) => {
                        return Err(e);
                    },
                }
                i += 1;
            }
            let r = Expr::Fun(new_name, new_args);
            proof {
                lemma_view_fun(r);
                assert(views(new_args@) =~= instantiate(env, expr@)->Compound_1);
            }
            Ok(r)
        },
    }
}

} // verus!
