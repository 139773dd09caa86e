//! Rules and their application: one layer of simultaneous rewrites at the
//! outermost places where the rule's head matches.

use vstd::prelude::*;
use crate::error::{Error, ErrorView};
use crate::matcher::{match_term, pattern_match};
use crate::subst::{blocked_functor, instantiate, substitute_bindings};
use crate::term::{lemma_view_fun, views, Expr, Term};
use crate::token::Loc;

verus! {

/// A rewrite rule: where it was defined, the pattern it rewrites and the
/// template it rewrites to.
#[derive(Debug)]
pub struct Rule {
    pub loc: Loc,
    pub head: Expr,
    pub body: Expr,
}

/// A rule as a mathematical value.
pub struct RuleView {
    pub loc: Loc,
    pub head: Term,
    pub body: Term,
}

impl View for Rule {
    type V = RuleView;

    open spec fn view(&self) -> RuleView {
        RuleView { loc: self.loc, head: self.head@, body: self.body@ }
    }
}

impl Clone for Rule {
    fn clone(&self) -> (r: Rule)
        ensures
            r@ == self@,
    {
        Rule { loc: self.loc, head: self.head.clone(), body: self.body.clone() }
    }
}

/// The term `t` after one application of the rule `head = body`: where
/// `head` matches `t`, the instantiated `body`; otherwise `t` with each of
/// its arguments rewritten in the same way. What a rewrite produced is not
/// looked into again.
pub open spec fn rewrite(head: Term, body: Term, t: Term) -> Term
    decreases t,
{
    match match_term(head, t) {
        Some(env) => instantiate(env, body),
        None => match t {
            Term::Atom(_) => t,
            Term::Compound(name, args) => Term::Compound(
                name,
                Seq::new(
                    args.len(),
                    |i: int|
                        if 0 <= i < args.len() {
                            rewrite(head, body, args[i])
                        } else {
                            t
                        },
                ),
            ),
        },
    }
}

/// The functor at which that application gets stuck, if it does: the first
/// one, in the order in which the places are rewritten, whose name is bound
/// to a compound.
pub open spec fn rewrite_blocked(head: Term, body: Term, t: Term) -> Option<Seq<char>>
    decreases t, 0nat,
{
    match match_term(head, t) {
        Some(env) => blocked_functor(env, body),
        None => match t {
            Term::Atom(_) => None,
            Term::Compound(_, args) => rewrite_blocked_from(head, body, args, 0),
        },
    }
}

/// The same for the terms of `args` from position `from` on.
pub open spec fn rewrite_blocked_from(head: Term, body: Term, args: Seq<Term>, from: nat) -> Option<
    Seq<char>,
>
    decreases args, args.len() - from,
{
    if from >= args.len() {
        None
    } else {
        match rewrite_blocked(head, body, args[from as int]) {
            Some(name) => Some(name),
            None => rewrite_blocked_from(head, body, args, from + 1),
        }
    }
}

/// Whether `head` matches `t` or a term inside `t`.
pub open spec fn matches_within(head: Term, t: Term) -> bool
    decreases t,
{
    if match_term(head, t) is Some {
        true
    } else {
        match t {
            Term::Atom(_) => false,
            Term::Compound(_, args) => exists|i: int|
                0 <= i < args.len() && matches_within(head, #[trigger] args[i]),
        }
    }
}

impl Rule {
    /// Applies the rule once to `expr`, at every outermost place where its
    /// head matches. Fails with `FunctorNotSymbol` where an instantiation of
    /// the body does.
    #[verifier::loop_isolation(false)]
    pub fn apply_all(&self, expr: &Expr) -> (r: Result<Expr, Error>)
        ensures
            match rewrite_blocked(self.head@, self.body@, expr@) {
                None => r is Ok && r->Ok_0@ == rewrite(self.head@, self.body@, expr@),
                Some(name) => r is Err && r->Err_0@ == ErrorView::FunctorNotSymbol(name),
            },
        decreases expr,
    {
        proof {
            lemma_view_fun(*expr);
        }
        if let Some(bindings) = pattern_match(&self.head, expr) {
            substitute_bindings(&bindings, &self.body)
        } else {
            match expr {
                Expr::Sym(_) => Ok(expr.clone()),
                Expr::Fun(name, args) => {
                    let ghost head = self.head@;
                    let ghost body = self.body@;
                    let ghost ts = views(args@);
                    let mut new_args: Vec<Expr> = Vec::new();
                    let mut i: usize = 0;
                    while i < args.len()
                        invariant
                            i <= args.len(),
                            ts == views(args@),
                            new_args@.len() == i,
                            forall|j: int| 0 <= j < i ==> new_args@[j]@ == rewrite(head, body, ts[j]),
                            rewrite_blocked_from(head, body, ts, i as nat) == rewrite_blocked_from(
                                head,
                                body,
                                ts,
                                0,
                            ),
                        decreases args.len() - i,
                    {
                        assert(decreases_to!(args => args[i as int]));
                        assert(ts[i as int] == args[i as int]@);
                        match self.apply_all(&args[i]) {
                            Ok(arg) => new_args.push(arg),
                            Err(e) => {
                                return Err(e);
                            },
                        }
                        i += 1;
                    }
                    let r = Expr::Fun(name.clone(), new_args);
                    proof {
                        lemma_view_fun(r);
                        assert(views(new_args@) =~= rewrite(head, body, expr@)->Compound_1);
                    }
                    Ok(r)
                },
            }
        }
    }
}

/// A rule whose head matches nowhere in `t` leaves `t` as it is, and its
/// application does not get stuck.
pub proof fn lemma_rewrite_identity(head: Term, body: Term, t: Term)
    requires
        !matches_within(head, t),
    ensures
        rewrite(head, body, t) == t,
        rewrite_blocked(head, body, t) is None,
    decreases t,
{
    match t {
        Term::Atom(_) => {},
        Term::Compound(name, args) => {
            assert forall|i: int| 0 <= i < args.len() implies rewrite(head, body, args[i])
                == args[i] && rewrite_blocked(head, body, args[i]) is None by {
                assert(!matches_within(head, args[i]));
                lemma_rewrite_identity(head, body, args[i]);
            }
            assert(rewrite(head, body, t)->Compound_1 =~= args);
            lemma_not_blocked_from(head, body, args, 0);
        },
    }
}

/// Where none of the terms of `args` gets a rule stuck, the run over them
/// does not either.
proof fn lemma_not_blocked_from(head: Term, body: Term, args: Seq<Term>, from: nat)
    requires
        forall|i: int| 0 <= i < args.len() ==> rewrite_blocked(head, body, args[i]) is None,
    ensures
        rewrite_blocked_from(head, body, args, from) is None,
    decreases args.len() - from,
{
    if from < args.len() {
        lemma_not_blocked_from(head, body, args, from + 1);
    }
}

} // verus!
