//! Terms and rules as text: `name` for an atom, `name(arg, arg, ...)` for a
//! compound, `head = body` for a rule.

use vstd::prelude::*;
use vstd::string::StringExecFns;
use crate::rewrite::{Rule, RuleView};
use crate::term::{lemma_view_fun, views, Expr, Term};

verus! {

/// The text of `t`.
pub open spec fn render(t: Term) -> Seq<char>
    decreases t, 0nat,
{
    match t {
        Term::Atom(name) => name,
        Term::Compound(name, args) => name + seq!['('] + render_args(args, args.len()) + seq![')'],
    }
}

/// The text of the first `upto` terms of `args`, with a comma and a space
/// between each two.
pub open spec fn render_args(args: Seq<Term>, upto: nat) -> Seq<char>
    decreases args, upto,
{
    if upto == 0 || upto > args.len() {
        Seq::empty()
    } else if upto == 1 {
        render(args[0])
    } else {
        render_args(args, (upto - 1) as nat) + seq![',', ' '] + render(args[upto - 1])
    }
}

/// The text of the rule `rule`.
pub open spec fn render_rule(rule: RuleView) -> Seq<char> {
    render(rule.head) + seq![' ', '=', ' '] + render(rule.body)
}

impl Expr {
    /// Appends the text of the term to `out`.
    #[verifier::loop_isolation(false)]
    pub fn write_to(&self, out: &mut String)
        ensures
            final(out)@ == old(out)@ + render(self@),
        decreases self,
    {
        proof {
            lemma_view_fun(*self);
        }
        match self {
            Expr::Sym(name) => {
                out.append(name.as_str());
            },
            Expr::Fun(name, args) => {
                let ghost ts = views(args@);
                out.append(name.as_str());
                out.append("(");
                let ghost base = out@;
                proof {
                    reveal_strlit("(");
                    reveal_strlit(", ");
                    reveal_strlit(")");
                    assert("("@ =~= seq!['(']);
                    assert(", "@ =~= seq![',', ' ']);
                    assert(")"@ =~= seq![')']);
                    assert(base =~= old(out)@ + (name@ + seq!['(']));
                    assert(base + render_args(ts, 0) =~= base);
                }
                let mut i: usize = 0;
                while i < args.len()
                    invariant
                        i <= args.len(),
                        ts == views(args@),
                        out@ == base + render_args(ts, i as nat),
                    decreases args.len() - i,
                {
                    let ghost before = out@;
                    if i > 0 {
                        out.append(", ");
                    }
                    assert(decreases_to!(args => args[i as int]));
                    assert(ts[i as int] == args[i as int]@);
                    args[i].write_to(out);
                    proof {
                        if i > 0 {
                            assert(out@ =~= base + (render_args(ts, i as nat) + seq![',', ' ']
                                + render(ts[i as int])));
                        } else {
                            assert(out@ =~= base + render(ts[0]));
                        }
                    }
                    i += 1;
                }
                out.append(")");
                proof {
                    assert(out@ =~= old(out)@ + (name@ + seq!['('] + render_args(ts, ts.len())
                        + seq![')']));
                }
            },
        }
    }

    /// The text of the term.
    pub fn to_string(&self) -> (r: String)
        ensures
            r@ == render(self@),
    {
        let mut out = String::new();
        self.write_to(&mut out);
        assert(out@ =~= render(self@));
        out
    }
}

impl Rule {
    /// The text of the rule.
    pub fn to_string(&self) -> (r: String)
        ensures
            r@ == render_rule(self@),
    {
        let mut out = String::new();
        self.head.write_to(&mut out);
        out.append(" = ");
        self.body.write_to(&mut out);
        proof {
            reveal_strlit(" = ");
            assert(" = "@ =~= seq![' ', '=', ' ']);
            assert(out@ =~= render_rule(self@));
        }
        out
    }
}

} // verus!
