//! The session: the table of rules and the term that is being shaped, and
//! the four commands that change them. A command that fails changes nothing.

use vstd::prelude::*;
use crate::error::{Error, ErrorView};
use crate::name_map::NameMap;
use crate::parser::{
    expect_token_kind,
    lemma_parse_term_ends,
    only,
    parse_term,
    Parsed,
};
use crate::rewrite::{rewrite, rewrite_blocked, Rule, RuleView};
use crate::term::{Expr, Term};
use crate::token::{ends_with_marker, Loc, TokenKind, TokenKindSet, TokenStream, TokenView};

verus! {

/// A session. It is idle while it holds no term, and shaping while it holds
/// one.
pub struct Context {
    rules: NameMap<Rule>,
    current_expr: Option<Expr>,
}

/// A session as a mathematical value.
pub struct ContextView {
    pub rules: Map<Seq<char>, RuleView>,
    pub current: Option<Term>,
}

/// What a command that succeeded has to show.
#[derive(Debug)]
pub enum Report {
    /// The rule that was defined.
    Defined(Rule),
    /// The term whose shaping began.
    Shaping(Expr),
    /// The term after a rule was applied.
    Applied(Expr),
    /// The term whose shaping ended.
    Finished(Expr),
}

/// A report as a mathematical value.
pub enum ReportView {
    Defined(RuleView),
    Shaping(Term),
    Applied(Term),
    Finished(Term),
}

impl View for Report {
    type V = ReportView;

    open spec fn view(&self) -> ReportView {
        match self {
            Report::Defined(rule) => ReportView::Defined(rule@),
            Report::Shaping(t) => ReportView::Shaping(t@),
            Report::Applied(t) => ReportView::Applied(t@),
            Report::Finished(t) => ReportView::Finished(t@),
        }
    }
}

/// What a command comes to: its result, the session after it, and the
/// position in the tokens at which reading stopped.
pub struct Outcome {
    pub result: Result<ReportView, ErrorView>,
    pub ctx: ContextView,
    pub pos: int,
}

/// The outcome of a command that fails with `error`, having read up to
/// `pos`: the session stays as it was.
pub open spec fn fails(ctx: ContextView, error: ErrorView, pos: int) -> Outcome {
    Outcome { result: Err(error), ctx, pos }
}

/// The four kinds that begin a command.
pub open spec fn command_kinds() -> Set<TokenKind> {
    Set::<TokenKind>::empty().insert(TokenKind::Rule).insert(TokenKind::Shape).insert(
        TokenKind::Apply,
    ).insert(TokenKind::Done)
}

/// Why no rule can be defined under `name`, which stood at `name_loc`: a
/// rule of that name exists.
pub open spec fn define_refused(ctx: ContextView, name: Seq<char>, name_loc: Loc) -> Option<
    ErrorView,
> {
    if ctx.rules.contains_key(name) {
        Some(ErrorView::RuleAlreadyExists(name, name_loc, ctx.rules[name].loc))
    } else {
        None
    }
}

/// Defining `rule` under `name`, which stood at `name_loc`.
pub open spec fn define(ctx: ContextView, name: Seq<char>, name_loc: Loc, rule: RuleView) -> (
    Result<(), ErrorView>,
    ContextView,
) {
    match define_refused(ctx, name, name_loc) {
        Some(error) => (Err(error), ctx),
        None => (Ok(()), ContextView { rules: ctx.rules.insert(name, rule), current: ctx.current }),
    }
}

/// Why no term can be taken to shape: one is being shaped.
pub open spec fn begin_refused(ctx: ContextView) -> Option<ErrorView> {
    if ctx.current is Some {
        Some(ErrorView::AlreadyShaping)
    } else {
        None
    }
}

/// Beginning to shape `t`.
pub open spec fn begin(ctx: ContextView, t: Term) -> (Result<(), ErrorView>, ContextView) {
    match begin_refused(ctx) {
        Some(error) => (Err(error), ctx),
        None => (Ok(()), ContextView { rules: ctx.rules, current: Some(t) }),
    }
}

/// Ending the shaping.
pub open spec fn finish(ctx: ContextView) -> (Result<Term, ErrorView>, ContextView) {
    match ctx.current {
        None => (Err(ErrorView::NoShapingInPlace), ctx),
        Some(t) => (Ok(t), ContextView { rules: ctx.rules, current: None }),
    }
}

/// Applying the rule named `name` to the term that is being shaped.
pub open spec fn apply_rule(ctx: ContextView, name: Seq<char>) -> (Result<Term, ErrorView>, ContextView) {
    match ctx.current {
        None => (Err(ErrorView::NoShapingInPlace), ctx),
        Some(t) => if !ctx.rules.contains_key(name) {
            (Err(ErrorView::RuleDoesNotExist(name)), ctx)
        } else {
            let rule = ctx.rules[name];
            match rewrite_blocked(rule.head, rule.body, t) {
                Some(functor) => (Err(ErrorView::FunctorNotSymbol(functor)), ctx),
                None => {
                    let new = rewrite(rule.head, rule.body, t);
                    (Ok(new), ContextView { rules: ctx.rules, current: Some(new) })
                },
            }
        },
    }
}

/// `rule <name> <head> = <body>`, read from `ts` at `pos` after the keyword
/// that stood at `keyword_loc`, up to the end marker.
pub open spec fn run_rule(ctx: ContextView, ts: Seq<TokenView>, pos: int, keyword_loc: Loc) -> Outcome {
    let name = ts[pos];
    if name.kind != TokenKind::Sym {
        fails(ctx, ErrorView::UnexpectedToken(only(TokenKind::Sym), name), pos + 1)
    } else {
        match define_refused(ctx, name.text, name.loc) {
            Some(error) => fails(ctx, error, pos + 1),
            None => match parse_term(ts, pos + 1) {
                Parsed::Built(head, at) => if ts[at].kind != TokenKind::Equals {
                    fails(ctx, ErrorView::UnexpectedToken(only(TokenKind::Equals), ts[at]), at + 1)
                } else {
                    match parse_term(ts, at + 1) {
                        Parsed::Built(body, end) => {
                            let rule = RuleView { loc: keyword_loc, head, body };
                            Outcome {
                                result: Ok(ReportView::Defined(rule)),
                                ctx: define(ctx, name.text, name.loc, rule).1,
                                pos: end,
                            }
                        },
                        Parsed::Unexpected(kinds, token, end) => fails(
                            ctx,
                            ErrorView::UnexpectedToken(kinds, token),
                            end,
                        ),
                        Parsed::Exhausted => arbitrary(),
                    }
                },
                Parsed::Unexpected(kinds, token, at) => fails(
                    ctx,
                    ErrorView::UnexpectedToken(kinds, token),
                    at,
                ),
                Parsed::Exhausted => arbitrary(),
            },
        }
    }
}

/// `shape <term>`, read from `ts` at `pos` after the keyword, up to the end
/// marker.
pub open spec fn run_shape(ctx: ContextView, ts: Seq<TokenView>, pos: int) -> Outcome {
    match begin_refused(ctx) {
        Some(error) => fails(ctx, error, pos),
        None => match parse_term(ts, pos) {
            Parsed::Built(t, end) => Outcome {
                result: Ok(ReportView::Shaping(t)),
                ctx: begin(ctx, t).1,
                pos: end,
            },
            Parsed::Unexpected(kinds, token, end) => fails(
                ctx,
                ErrorView::UnexpectedToken(kinds, token),
                end,
            ),
            Parsed::Exhausted => arbitrary(),
        },
    }
}

/// `apply <name>`, read from `ts` at `pos` after the keyword, up to the end
/// marker.
pub open spec fn run_apply(ctx: ContextView, ts: Seq<TokenView>, pos: int) -> Outcome {
    if ctx.current is None {
        fails(ctx, ErrorView::NoShapingInPlace, pos)
    } else if ts[pos].kind != TokenKind::Sym {
        fails(ctx, ErrorView::UnexpectedToken(only(TokenKind::Sym), ts[pos]), pos + 1)
    } else {
        match apply_rule(ctx, ts[pos].text).0 {
            Ok(new) => Outcome {
                result: Ok(ReportView::Applied(new)),
                ctx: apply_rule(ctx, ts[pos].text).1,
                pos: pos + 1,
            },
            Err(error) => fails(ctx, error, pos + 1),
        }
    }
}

/// `done`, after the keyword, which ended before `pos`, up to the end
/// marker.
pub open spec fn run_done(ctx: ContextView, pos: int) -> Outcome {
    match finish(ctx).0 {
        Ok(t) => Outcome { result: Ok(ReportView::Finished(t)), ctx: finish(ctx).1, pos },
        Err(error) => fails(ctx, error, pos),
    }
}

/// One command, read from `ts` at `pos`, up to the end marker: its result,
/// the session that it leaves once the marker is found, and the position at
/// which the marker has to stand.
pub open spec fn attempt(ctx: ContextView, ts: Seq<TokenView>, pos: int) -> Outcome {
    let keyword = ts[pos];
    match keyword.kind {
        TokenKind::Rule => run_rule(ctx, ts, pos + 1, keyword.loc),
        TokenKind::Shape => run_shape(ctx, ts, pos + 1),
        TokenKind::Apply => run_apply(ctx, ts, pos + 1),
        TokenKind::Done => run_done(ctx, pos + 1),
        _ => fails(ctx, ErrorView::UnexpectedToken(command_kinds(), keyword), pos + 1),
    }
}

/// One command, read from `ts` at `pos` and carried out on `ctx`. The end
/// marker has to follow the command: where another token stands in its
/// place the command fails, and the session stays as it was.
pub open spec fn run(ctx: ContextView, ts: Seq<TokenView>, pos: int) -> Outcome {
    let out = attempt(ctx, ts, pos);
    match out.result {
        Err(_) => out,
        Ok(_) => if ts[out.pos].kind == TokenKind::End {
            Outcome { result: out.result, ctx: out.ctx, pos: out.pos + 1 }
        } else {
            fails(
                ctx,
                ErrorView::UnexpectedToken(only(TokenKind::End), ts[out.pos]),
                out.pos + 1,
            )
        },
    }
}

/// The transitions of a session. An idle session refuses to apply a rule and
/// to end the shaping, and takes a term to shape. A session that shapes a
/// term refuses another and keeps the first; ending the shaping gives the
/// term and leaves the session idle, with the same rules.
pub proof fn lemma_session_transitions(ctx: ContextView, name: Seq<char>, t: Term, other: Term)
    requires
        ctx.current is None,
    ensures
        apply_rule(ctx, name) == (Err::<Term, ErrorView>(ErrorView::NoShapingInPlace), ctx),
        finish(ctx) == (Err::<Term, ErrorView>(ErrorView::NoShapingInPlace), ctx),
        begin(ctx, t).0 is Ok,
        begin(ctx, t).1 == (ContextView { rules: ctx.rules, current: Some(t) }),
        begin(begin(ctx, t).1, other) == (
            Err::<(), ErrorView>(ErrorView::AlreadyShaping),
            begin(ctx, t).1,
        ),
        finish(begin(ctx, t).1) == (Ok::<Term, ErrorView>(t), ctx),
{
}

/// A rule's name can be defined once. The second definition under a name
/// fails and names the place of the first, and the table keeps the first.
pub proof fn lemma_duplicate_rule(
    ctx: ContextView,
    name: Seq<char>,
    first_loc: Loc,
    first: RuleView,
    second_loc: Loc,
    second: RuleView,
)
    requires
        define(ctx, name, first_loc, first).0 is Ok,
    ensures
        ({
            let defined = define(ctx, name, first_loc, first).1;
            &&& defined.rules.contains_key(name)
            &&& defined.rules[name] == first
            &&& define(defined, name, second_loc, second) == (
                Err::<(), ErrorView>(ErrorView::RuleAlreadyExists(name, second_loc, first.loc)),
                defined,
            )
        }),
{
}

/// On tokens that end with the end marker, a command that fails before the
/// marker leaves the session as it was, and one that succeeds has read at
/// least its keyword and stops at a token.
proof fn lemma_attempt_ends(ctx: ContextView, ts: Seq<TokenView>, pos: int)
    requires
        ends_with_marker(ts, pos),
    ensures
        attempt(ctx, ts, pos).result is Err ==> attempt(ctx, ts, pos).ctx == ctx,
        attempt(ctx, ts, pos).result is Ok ==> pos < attempt(ctx, ts, pos).pos && ends_with_marker(
            ts,
            attempt(ctx, ts, pos).pos,
        ),
{
    match ts[pos].kind {
        TokenKind::Rule => {
            if ts[pos + 1].kind == TokenKind::Sym && !ctx.rules.contains_key(ts[pos + 1].text) {
                lemma_parse_term_ends(ts, pos + 2);
                match parse_term(ts, pos + 2) {
                    Parsed::Built(_, at) => {
                        if ts[at].kind == TokenKind::Equals {
                            lemma_parse_term_ends(ts, at + 1);
                        }
                    },
                    _ => {},
                }
            }
        },
        TokenKind::Shape => {
            if ctx.current is None {
                lemma_parse_term_ends(ts, pos + 1);
            }
        },
        _ => {},
    }
}

/// A command that fails leaves the session as it was, whatever it had read
/// before it failed, a token in the end marker's place included.
pub proof fn lemma_failure_changes_nothing(ctx: ContextView, ts: Seq<TokenView>, pos: int)
    requires
        ends_with_marker(ts, pos),
        run(ctx, ts, pos).result is Err,
    ensures
        run(ctx, ts, pos).ctx == ctx,
{
    lemma_attempt_ends(ctx, ts, pos);
}

/// A command that succeeds has read its tokens and the end marker after
/// them, and nothing else.
pub proof fn lemma_success_reads_marker(ctx: ContextView, ts: Seq<TokenView>, pos: int)
    requires
        ends_with_marker(ts, pos),
        run(ctx, ts, pos).result is Ok,
    ensures
        pos < run(ctx, ts, pos).pos - 1 < ts.len(),
        ts[run(ctx, ts, pos).pos - 1].kind == TokenKind::End,
        run(ctx, ts, pos).ctx == attempt(ctx, ts, pos).ctx,
{
    lemma_attempt_ends(ctx, ts, pos);
}

impl View for Context {
    type V = ContextView;

    closed spec fn view(&self) -> ContextView {
        ContextView {
            rules: self.rules@,
            current: match self.current_expr {
                Some(t) => Some(t@),
                None => None,
            },
        }
    }
}

impl Default for Context {
    fn default() -> (r: Context)
        ensures
            r.wf(),
            r@ == (ContextView { rules: Map::empty(), current: None }),
    {
        Context::new()
    }
}

impl Context {
    /// The rule table is well formed.
    pub closed spec fn wf(&self) -> bool {
        self.rules.wf()
    }

    /// An idle session without rules.
    pub fn new() -> (r: Context)
        ensures
            r.wf(),
            r@ == (ContextView { rules: Map::empty(), current: None }),
    {
        Context { rules: NameMap::new(), current_expr: None }
    }

    /// Whether a term is being shaped.
    pub fn is_shaping(&self) -> (r: bool)
        ensures
            r == (self@.current is Some),
    {
        self.current_expr.is_some()
    }

    /// The term that is being shaped, if there is one.
    pub fn current(&self) -> (r: Option<&Expr>)
        ensures
            match r {
                Some(t) => self@.current == Some(t@),
                None => self@.current is None,
            },
    {
        self.current_expr.as_ref()
    }

    /// The rule defined under `name`, if there is one.
    pub fn rule(&self, name: &String) -> (r: Option<&Rule>)
        requires
            self.wf(),
        ensures
            match r {
                Some(rule) => self@.rules.contains_key(name@) && self@.rules[name@] == rule@,
                None => !self@.rules.contains_key(name@),
            },
    {
        self.rules.get(name)
    }

    /// Defines `rule` under `name`, which stood at `name_loc`. Fails with
    /// `RuleAlreadyExists` where a rule of that name exists; the existing
    /// rule then stays.
    pub fn define_rule(&mut self, name: String, name_loc: Loc, rule: Rule) -> (r: Result<(), Error>)
        requires
            old(self).wf(),
        ensures
            final(self).wf(),
            final(self)@ == define(old(self)@, name@, name_loc, rule@).1,
            match define(old(self)@, name@, name_loc, rule@).0 {
                Ok(_) => r is Ok,
                Err(error) => r is Err && r->Err_0@ == error,
            },
    {
        match self.rules.get(&name) {
            Some(existing) => {
                let existing_loc = existing.loc;
                Err(Error::RuleAlreadyExists(name, name_loc, existing_loc))
            },
            None => {
                self.rules.insert(name, rule);
                Ok(())
            },
        }
    }

    /// Begins to shape `term`. Fails with `AlreadyShaping` where a term is
    /// being shaped; that term then stays.
    pub fn shape(&mut self, term: Expr) -> (r: Result<(), Error>)
        requires
            old(self).wf(),
        ensures
            final(self).wf(),
            final(self)@ == begin(old(self)@, term@).1,
            match begin(old(self)@, term@).0 {
                Ok(_) => r is Ok,
                Err(error) => r is Err && r->Err_0@ == error,
            },
    {
        if self.current_expr.is_some() {
            Err(Error::AlreadyShaping)
        } else {
            self.current_expr = Some(term);
            Ok(())
        }
    }

    /// The term that is being shaped after one application of the rule
    /// named `name`. The session stays as it is. Fails as `apply` does.
    pub fn rewritten(&self, name: &String) -> (r: Result<Expr, Error>)
        requires
            self.wf(),
        ensures
            match apply_rule(self@, name@).0 {
                Ok(new) => r is Ok && r->Ok_0@ == new,
                Err(error) => r is Err && r->Err_0@ == error,
            },
    {
        match &self.current_expr {
            None => Err(Error::NoShapingInPlace),
            Some(expr) => match self.rules.get(name) {
                None => Err(Error::RuleDoesNotExist(name.clone())),
                Some(rule) => rule.apply_all(expr),
            },
        }
    }

    /// Applies the rule named `name` once to the term that is being shaped
    /// and returns the new term. Fails with `NoShapingInPlace` where no term
    /// is being shaped, with `RuleDoesNotExist` where no rule has that name,
    /// and with `FunctorNotSymbol` where the rule's application does.
    pub fn apply(&mut self, name: &String) -> (r: Result<Expr, Error>)
        requires
            old(self).wf(),
        ensures
            final(self).wf(),
            final(self)@ == apply_rule(old(self)@, name@).1,
            match apply_rule(old(self)@, name@).0 {
                Ok(new) => r is Ok && r->Ok_0@ == new,
                Err(error) => r is Err && r->Err_0@ == error,
            },
    {
        let new_expr = match self.rewritten(name) {
            Ok(new_expr) => new_expr,
            Err(e) => {
                return Err(e);
            },
        };
        let shown = new_expr.clone();
        self.current_expr = Some(new_expr);
        Ok(shown)
    }

    /// Ends the shaping and returns the term. Fails with `NoShapingInPlace`
    /// where no term is being shaped.
    pub fn done(&mut self) -> (r: Result<Expr, Error>)
        requires
            old(self).wf(),
        ensures
            final(self).wf(),
            final(self)@ == finish(old(self)@).1,
            match finish(old(self)@).0 {
                Ok(t) => r is Ok && r->Ok_0@ == t,
                Err(error) => r is Err && r->Err_0@ == error,
            },
    {
        match self.current_expr.take() {
            None => Err(Error::NoShapingInPlace),
            Some(expr) => Ok(expr),
        }
    }

    /// Reads one command from `lexer`, asks for the end marker after it, and
    /// only then carries the command out. The checks come in this order: the
    /// keyword; for `rule`, the name, then that no rule has it, then head,
    /// `=` and body; for `shape`, that the session is idle, then the term;
    /// for `apply`, that a term is being shaped, then the name, then that a
    /// rule has it and can be applied; for `done`, that a term is being
    /// shaped; for each, last, the end marker. A command that fails changes
    /// nothing in the session.
    pub fn process_command(&mut self, lexer: &mut TokenStream) -> (r: Result<Report, Error>)
        requires
            old(self).wf(),
            old(lexer).terminated(),
        ensures
            final(self).wf(),
            final(lexer).wf(),
            final(lexer).tokens() == old(lexer).tokens(),
            ({
                let out = run(old(self)@, old(lexer).tokens(), old(lexer).pos() as int);
                &&& final(self)@ == out.ctx
                &&& final(lexer).pos() == out.pos
                &&& match out.result {
                    Ok(report) => r is Ok && r->Ok_0@ == report,
                    Err(error) => r is Err && r->Err_0@ == error && final(self)@ == old(self)@,
                }
            }),
    {
        let expected_tokens = TokenKindSet::empty().set(TokenKind::Rule).set(TokenKind::Shape).set(
            TokenKind::Apply,
        ).set(TokenKind::Done);
        let keyword = match expect_token_kind(lexer, expected_tokens) {
            Ok(token) => token,
            Err(e) => {
                return Err(e);
            },
        };
        match keyword.kind {
            TokenKind::Rule => {
                let name = match expect_token_kind(lexer, TokenKindSet::single(TokenKind::Sym)) {
                    Ok(token) => token,
                    Err(e) => {
                        return Err(e);
                    },
                };
                if let Some(existing_rule) = self.rules.get(&name.text) {
                    let existing_loc = existing_rule.loc;
                    return Err(Error::RuleAlreadyExists(name.text, name.loc, existing_loc));
                }
                let head = match Expr::parse_peekable(lexer) {
                    Ok(head) => head,
                    Err(e) => {
                        return Err(e);
                    },
                };
                match expect_token_kind(lexer, TokenKindSet::single(TokenKind::Equals)) {
                    Ok(_) => {},
                    Err(e) => {
                        return Err(e);
                    },
                }
                let body = match Expr::parse_peekable(lexer) {
                    Ok(body) => body,
                    Err(e) => {
                        return Err(e);
                    },
                };
                match expect_token_kind(lexer, TokenKindSet::single(TokenKind::End)) {
                    Ok(_) => {},
                    Err(e) => {
                        return Err(e);
                    },
                }
                let rule = Rule { loc: keyword.loc, head, body };
                let shown = rule.clone();
                self.rules.insert(name.text, rule);
                Ok(Report::Defined(shown))
            },
            TokenKind::Shape => {
                if self.current_expr.is_some() {
                    return Err(Error::AlreadyShaping);
                }
                let expr = match Expr::parse_peekable(lexer) {
                    Ok(expr) => expr,
                    Err(e) => {
                        return Err(e);
                    },
                };
                match expect_token_kind(lexer, TokenKindSet::single(TokenKind::End)) {
                    Ok(_) => {},
                    Err(e) => {
                        return Err(e);
                    },
                }
                let shown = expr.clone();
                self.current_expr = Some(expr);
                Ok(Report::Shaping(shown))
            },
            TokenKind::Apply => {
                if self.current_expr.is_none() {
                    return Err(Error::NoShapingInPlace);
                }
                let name = match expect_token_kind(lexer, TokenKindSet::single(TokenKind::Sym)) {
                    Ok(token) => token,
                    Err(e) => {
                        return Err(e);
                    },
                };
                let new_expr = match self.rewritten(&name.text) {
                    Ok(new_expr) => new_expr,
                    Err(e) => {
                        return Err(e);
                    },
                };
                match expect_token_kind(lexer, TokenKindSet::single(TokenKind::End)) {
                    Ok(_) => {},
                    Err(e) => {
                        return Err(e);
                    },
                }
                let shown = new_expr.clone();
                self.current_expr = Some(new_expr);
                Ok(Report::Applied(shown))
            },
            TokenKind::Done => {
                if self.current_expr.is_none() {
                    return Err(Error::NoShapingInPlace);
                }
                match expect_token_kind(lexer, TokenKindSet::single(TokenKind::End)) {
                    Ok(_) => {},
                    Err(e) => {
                        return Err(e);
                    },
                }
                match self.done() {
                    Ok(expr) => Ok(Report::Finished(expr)),
                    Err(e) => Err(e),
                }
            },
            _ => {
                assert(expected_tokens@.contains(keyword.kind));
                unreached()
            },
        }
    }
}

} // verus!
