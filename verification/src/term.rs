//! The term model: executable terms, their mathematical view, and the
//! structural operations on them.

use vstd::prelude::*;

verus! {

/// A symbolic term as a mathematical value.
pub enum Term {
    /// An identifier with no arguments.
    Atom(Seq<char>),
    /// A functor applied to an ordered sequence of arguments.
    Compound(Seq<char>, Seq<Term>),
}

/// A symbolic term as held in memory.
#[derive(Debug)]
pub enum Expr {
    Sym(String),
    Fun(String, Vec<Expr>),
}

impl View for Expr {
    type V = Term;

    open spec fn view(&self) -> Term
        decreases self,
    {
        match self {
            Expr::Sym(name) => Term::Atom(name@),
            Expr::Fun(name, args) => Term::Compound(
                name@,
                Seq::new(
                    args.len() as nat,
                    |i: int|
                        if 0 <= i < args.len() {
                            args[i]@
                        } else {
                            Term::Atom(Seq::empty())
                        },
                ),
            ),
        }
    }
}

/// The views of a sequence of terms, position by position.
pub open spec fn views(args: Seq<Expr>) -> Seq<Term> {
    Seq::new(args.len(), |i: int| args[i]@)
}

/// The view of a compound is its name with the views of its arguments.
pub proof fn lemma_view_fun(e: Expr)
    ensures
        match e {
            Expr::Sym(name) => e@ == Term::Atom(name@),
            Expr::Fun(name, args) => e@ == Term::Compound(name@, views(args@)),
        },
{
    match e {
        Expr::Sym(name) => {},
        Expr::Fun(name, args) => {
            assert(e@->Compound_1 =~= views(args@));
        },
    }
}

impl Expr {
    /// A deep copy of the term.
    #[verifier::loop_isolation(false)]
    pub fn duplicate(&self) -> (r: Expr)
        ensures
            r@ == self@,
        decreases self,
    {
        match self {
            Expr::Sym(name) => Expr::Sym(name.clone()),
            Expr::Fun(name, args) => {
                let mut out: Vec<Expr> = Vec::new();
                let mut i: usize = 0;
                while i < args.len()
                    invariant
                        i <= args.len(),
                        out@.len() == i,
                        forall|j: int| 0 <= j < i ==> out@[j]@ == args@[j]@,
                    decreases args.len() - i,
                {
                    assert(decreases_to!(args => args[i as int]));
                    out.push(args[i].duplicate());
                    i += 1;
                }
                assert(views(out@) =~= views(args@));
                let r = Expr::Fun(name.clone(), out);
                proof {
                    lemma_view_fun(r);
                    lemma_view_fun(*self);
                }
                r
            },
        }
    }

    /// Structural equality: same name and, for compounds, the same number of
    /// pairwise equal arguments.
    #[verifier::loop_isolation(false)]
    pub fn same(&self, other: &Expr) -> (r: bool)
        ensures
            r == (self@ == other@),
        decreases self,
    {
        proof {
            lemma_view_fun(*self);
            lemma_view_fun(*other);
        }
        match (self, other) {
            (Expr::Sym(a), Expr::Sym(b)) => *a == *b,
            (Expr::Fun(a, xs), Expr::Fun(b, ys)) => {
                if !(*a == *b) || xs.len() != ys.len() {
                    assert(views(xs@).len() == xs.len() && views(ys@).len() == ys.len());
                    return false;
                }
                let mut i: usize = 0;
                while i < xs.len()
                    invariant
                        i <= xs.len(),
                        xs.len() == ys.len(),
                        forall|j: int| 0 <= j < i ==> xs@[j]@ == ys@[j]@,
                    decreases xs.len() - i,
                {
                    assert(decreases_to!(xs => xs[i as int]));
                    if !xs[i].same(&ys[i]) {
                        assert(views(xs@)[i as int] != views(ys@)[i as int]);
                        return false;
                    }
                    i += 1;
                }
                assert(views(xs@) =~= views(ys@));
                true
            },
            _ => false,
        }
    }
}

impl Clone for Expr {
    fn clone(&self) -> (r: Expr)
        ensures
            r@ == self@,
    {
        self.duplicate()
    }
}

impl PartialEq for Expr {
    fn eq(&self, other: &Expr) -> (r: bool) {
        self.same(other)
    }
}

impl vstd::std_specs::cmp::PartialEqSpecImpl for Expr {
    open spec fn obeys_eq_spec() -> bool {
        true
    }

    open spec fn eq_spec(&self, other: &Expr) -> bool {
        self@ == other@
    }
}

} // verus!
