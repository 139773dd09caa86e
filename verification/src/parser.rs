//! The term parser: recursive descent over a token stream with one token of
//! lookahead, for the grammar
//! `term := Sym | Sym '(' (term (',' term)*)? ')'`.

use vstd::prelude::*;
use crate::error::{Error, ErrorView};
use crate::term::{lemma_view_fun, views, Expr, Term};
use crate::token::{ends_with_marker, Token, TokenKind, TokenKindSet, TokenStream, TokenView};

verus! {

/// What reading one term from a run of tokens comes to.
pub enum Parsed {
    /// A term, and the position after its last token.
    Built(Term, int),
    /// A token of another kind than the expected ones, and the position
    /// after it.
    Unexpected(Set<TokenKind>, TokenView, int),
    /// The tokens ran out.
    Exhausted,
}

/// The set that holds `kind` alone.
pub open spec fn only(kind: TokenKind) -> Set<TokenKind> {
    Set::<TokenKind>::empty().insert(kind)
}

/// Reading one term from `ts` at position `pos`.
pub open spec fn parse_term(ts: Seq<TokenView>, pos: int) -> Parsed
    decreases ts.len() - pos, 0nat,
{
    if !(0 <= pos < ts.len()) {
        Parsed::Exhausted
    } else if ts[pos].kind != TokenKind::Sym {
        Parsed::Unexpected(only(TokenKind::Sym), ts[pos], pos + 1)
    } else if pos + 1 < ts.len() && ts[pos + 1].kind == TokenKind::OpenParen {
        if pos + 2 < ts.len() && ts[pos + 2].kind == TokenKind::CloseParen {
            Parsed::Built(Term::Compound(ts[pos].text, Seq::empty()), pos + 3)
        } else {
            match parse_term(ts, pos + 2) {
                Parsed::Built(first, next) => if pos < next <= ts.len() {
                    parse_more(ts, next, ts[pos].text, Seq::empty().push(first))
                } else {
                    Parsed::Exhausted
                },
                other => other,
            }
        }
    } else {
        Parsed::Built(Term::Atom(ts[pos].text), pos + 1)
    }
}

/// Reading the rest of the arguments of the compound `name`, of which
/// `args` have been read, from `ts` at position `pos`: a comma and one more
/// argument, as often as a comma comes, then the closing parenthesis.
pub open spec fn parse_more(ts: Seq<TokenView>, pos: int, name: Seq<char>, args: Seq<Term>) -> Parsed
    decreases ts.len() - pos, 1nat,
{
    if !(0 <= pos < ts.len()) {
        Parsed::Exhausted
    } else if ts[pos].kind == TokenKind::Comma {
        match parse_term(ts, pos + 1) {
            Parsed::Built(arg, next) => if pos < next <= ts.len() {
                parse_more(ts, next, name, args.push(arg))
            } else {
                Parsed::Exhausted
            },
            other => other,
        }
    } else if ts[pos].kind == TokenKind::CloseParen {
        Parsed::Built(Term::Compound(name, args), pos + 1)
    } else {
        Parsed::Unexpected(only(TokenKind::CloseParen), ts[pos], pos + 1)
    }
}

/// On tokens that end with the end marker, reading a term never runs out
/// of tokens: it gives a term and stops before the marker, or it stops after
/// a token of a wrong kind.
pub proof fn lemma_parse_term_ends(ts: Seq<TokenView>, pos: int)
    requires
        ends_with_marker(ts, pos),
    ensures
        match parse_term(ts, pos) {
            Parsed::Built(_, next) => pos < next < ts.len(),
            Parsed::Unexpected(_, _, next) => pos < next <= ts.len(),
            Parsed::Exhausted => false,
        },
    decreases ts.len() - pos, 0nat,
{
    if ts[pos].kind == TokenKind::Sym && ts[pos + 1].kind == TokenKind::OpenParen && ts[pos
        + 2].kind != TokenKind::CloseParen {
        lemma_parse_term_ends(ts, pos + 2);
        match parse_term(ts, pos + 2) {
            Parsed::Built(first, next) => {
                lemma_parse_more_ends(ts, next, ts[pos].text, Seq::empty().push(first));
            },
            _ => {},
        }
    }
}

/// The same for the rest of a compound's arguments.
pub proof fn lemma_parse_more_ends(ts: Seq<TokenView>, pos: int, name: Seq<char>, args: Seq<Term>)
    requires
        ends_with_marker(ts, pos),
    ensures
        match parse_more(ts, pos, name, args) {
            Parsed::Built(_, next) => pos < next < ts.len(),
            Parsed::Unexpected(_, _, next) => pos < next <= ts.len(),
            Parsed::Exhausted => false,
        },
    decreases ts.len() - pos, 1nat,
{
    if ts[pos].kind == TokenKind::Comma {
        lemma_parse_term_ends(ts, pos + 1);
        match parse_term(ts, pos + 1) {
            Parsed::Built(arg, next) => {
                lemma_parse_more_ends(ts, next, name, args.push(arg));
            },
            _ => {},
        }
    }
}

/// Consumes one token and returns it where its kind is one of `kinds`;
/// fails with `UnexpectedToken` where it is not.
pub fn expect_token_kind(lexer: &mut TokenStream, kinds: TokenKindSet) -> (r: Result<Token, Error>)
    requires
        old(lexer).wf(),
        old(lexer).pos() < old(lexer).tokens().len(),
    ensures
        final(lexer).wf(),
        final(lexer).tokens() == old(lexer).tokens(),
        final(lexer).pos() == old(lexer).pos() + 1,
        ({
            let token = old(lexer).tokens()[old(lexer).pos() as int];
            if kinds@.contains(token.kind) {
                r is Ok && r->Ok_0@ == token
            } else {
                r is Err && r->Err_0@ == ErrorView::UnexpectedToken(kinds@, token)
            }
        }),
{
    let token = lexer.take();
    if kinds.contains(token.kind) {
        Ok(token)
    } else {
        Err(Error::UnexpectedToken(kinds, token))
    }
}

impl Expr {
    /// Reads one term from `lexer` and leaves it after the term's last
    /// token. Where a token of a wrong kind comes, fails with
    /// `UnexpectedToken` and leaves `lexer` after that token.
    #[verifier::loop_isolation(false)]
    pub fn parse_peekable(lexer: &mut TokenStream) -> (r: Result<Expr, Error>)
        requires
            old(lexer).terminated(),
        ensures
            final(lexer).wf(),
            final(lexer).tokens() == old(lexer).tokens(),
            match parse_term(old(lexer).tokens(), old(lexer).pos() as int) {
                Parsed::Built(t, next) => r is Ok && r->Ok_0@ == t && final(lexer).pos() == next
                    && next > old(lexer).pos() && final(lexer).terminated(),
                Parsed::Unexpected(kinds, token, next) => r is Err && r->Err_0@
                    == ErrorView::UnexpectedToken(kinds, token) && final(lexer).pos() == next,
                Parsed::Exhausted => false,
            },
        decreases old(lexer).tokens().len() - old(lexer).pos(),
    {
        let ghost ts = lexer.tokens();
        let ghost start = lexer.pos() as int;
        let name = lexer.take();
        match name.kind {
            TokenKind::Sym => {
                if lexer.next_if_kind(TokenKind::OpenParen) {
                    let mut args: Vec<Expr> = Vec::new();
                    if lexer.next_if_kind(TokenKind::CloseParen) {
                        let r = Expr::Fun(name.text, args);
                        proof {
                            lemma_view_fun(r);
                            assert(views(args@) =~= Seq::<Term>::empty());
                        }
                        return Ok(r);
                    }
                    match Expr::parse_peekable(lexer) {
                        Ok(first) => {
                            args.push(first);
                        },
                        Err(e) => {
                            return Err(e);
                        },
                    }
                    assert(views(args@) =~= Seq::<Term>::empty().push(args@[0]@));
                    let mut more = lexer.next_if_kind(TokenKind::Comma);
                    while more
                        invariant
                            lexer.terminated(),
                            lexer.tokens() == ts,
                            start < lexer.pos(),
                            more ==> ts[lexer.pos() - 1].kind == TokenKind::Comma,
                            !more ==> ts[lexer.pos() as int].kind != TokenKind::Comma,
                            parse_more(
                                ts,
                                if more {
                                    lexer.pos() - 1
                                } else {
                                    lexer.pos() as int
                                },
                                name@.text,
                                views(args@),
                            ) == parse_term(ts, start),
                        decreases ts.len() - lexer.pos(),
                    {
                        let ghost before = views(args@);
                        match Expr::parse_peekable(lexer) {
                            Ok(arg) => {
                                args.push(arg);
                            },
                            Err(e) => {
                                return Err(e);
                            },
                        }
                        assert(views(args@) =~= before.push(args@[args@.len() - 1]@));
                        more = lexer.next_if_kind(TokenKind::Comma);
                    }
                    let close_paren = lexer.take();
                    if close_paren.kind == TokenKind::CloseParen {
                        let r = Expr::Fun(name.text, args);
                        proof {
                            lemma_view_fun(r);
                        }
                        Ok(r)
                    } else {
                        Err(Error::UnexpectedToken(TokenKindSet::single(TokenKind::CloseParen), close_paren))
                    }
                } else {
                    Ok(Expr::Sym(name.text))
                }
            },
            _ => Err(Error::UnexpectedToken(TokenKindSet::single(TokenKind::Sym), name)),
        }
    }

    /// Reads one term from `lexer`, as `parse_peekable` does.
    pub fn parse(lexer: &mut TokenStream) -> (r: Result<Expr, Error>)
        requires
            old(lexer).terminated(),
        ensures
            final(lexer).wf(),
            final(lexer).tokens() == old(lexer).tokens(),
            match parse_term(old(lexer).tokens(), old(lexer).pos() as int) {
                Parsed::Built(t, next) => r is Ok && r->Ok_0@ == t && final(lexer).pos() == next
                    && next > old(lexer).pos() && final(lexer).terminated(),
                Parsed::Unexpected(kinds, token, next) => r is Err && r->Err_0@
                    == ErrorView::UnexpectedToken(kinds, token) && final(lexer).pos() == next,
                Parsed::Exhausted => false,
            },
    {
        Expr::parse_peekable(lexer)
    }
}

} // verus!
