//! Tokens as a lexer hands them over, sets of token kinds, and a stream of
//! tokens with one token of lookahead.

use vstd::prelude::*;

verus! {

/// A position in the input: line and column.
#[derive(Debug, Clone, Copy, PartialEq, Eq, Structural)]
pub struct Loc {
    pub row: usize,
    pub col: usize,
}

/// The kinds of token.
#[derive(Debug, Clone, Copy, PartialEq, Eq, Structural)]
pub enum TokenKind {
    Sym,
    OpenParen,
    CloseParen,
    Comma,
    Equals,
    Rule,
    Shape,
    Apply,
    Done,
    End,
}

/// A set of token kinds, one flag per kind.
#[derive(Debug, Clone, Copy, PartialEq, Eq, Structural)]
pub struct TokenKindSet {
    sym: bool,
    open_paren: bool,
    close_paren: bool,
    comma: bool,
    equals: bool,
    rule: bool,
    shape: bool,
    apply: bool,
    done: bool,
    end: bool,
}

impl View for TokenKindSet {
    type V = Set<TokenKind>;

    closed spec fn view(&self) -> Set<TokenKind> {
        Set::new(|k: TokenKind| self.has(k))
    }
}

impl TokenKindSet {
    spec fn has(&self, kind: TokenKind) -> bool {
        match kind {
            TokenKind::Sym => self.sym,
            TokenKind::OpenParen => self.open_paren,
            TokenKind::CloseParen => self.close_paren,
            TokenKind::Comma => self.comma,
            TokenKind::Equals => self.equals,
            TokenKind::Rule => self.rule,
            TokenKind::Shape => self.shape,
            TokenKind::Apply => self.apply,
            TokenKind::Done => self.done,
            TokenKind::End => self.end,
        }
    }

    /// The set without members.
    pub fn empty() -> (r: TokenKindSet)
        ensures
            r@ == Set::<TokenKind>::empty(),
    {
        let r = TokenKindSet {
            sym: false,
            open_paren: false,
            close_paren: false,
            comma: false,
            equals: false,
            rule: false,
            shape: false,
            apply: false,
            done: false,
            end: false,
        };
        assert(r@ =~= Set::<TokenKind>::empty());
        r
    }

    /// The set with `kind` added.
    pub fn set(self, kind: TokenKind) -> (r: TokenKindSet)
        ensures
            r@ == self@.insert(kind),
    {
        let mut r = self;
        match kind {
            TokenKind::Sym => r.sym = true,
            TokenKind::OpenParen => r.open_paren = true,
            TokenKind::CloseParen => r.close_paren = true,
            TokenKind::Comma => r.comma = true,
            TokenKind::Equals => r.equals = true,
            TokenKind::Rule => r.rule = true,
            TokenKind::Shape => r.shape = true,
            TokenKind::Apply => r.apply = true,
            TokenKind::Done => r.done = true,
            TokenKind::End => r.end = true,
        }
        assert(r@ =~= self@.insert(kind));
        r
    }

    /// The set whose one member is `kind`.
    pub fn single(kind: TokenKind) -> (r: TokenKindSet)
        ensures
            r@ == Set::<TokenKind>::empty().insert(kind),
    {
        TokenKindSet::empty().set(kind)
    }

    /// Whether `kind` is a member.
    pub fn contains(&self, kind: TokenKind) -> (r: bool)
        ensures
            r == self@.contains(kind),
    {
        match kind {
            TokenKind::Sym => self.sym,
            TokenKind::OpenParen => self.open_paren,
            TokenKind::CloseParen => self.close_paren,
            TokenKind::Comma => self.comma,
            TokenKind::Equals => self.equals,
            TokenKind::Rule => self.rule,
            TokenKind::Shape => self.shape,
            TokenKind::Apply => self.apply,
            TokenKind::Done => self.done,
            TokenKind::End => self.end,
        }
    }
}

/// A token: its kind, its text and where it stood.
#[derive(Debug)]
pub struct Token {
    pub kind: TokenKind,
    pub text: String,
    pub loc: Loc,
}

/// A token as a mathematical value.
pub struct TokenView {
    pub kind: TokenKind,
    pub text: Seq<char>,
    pub loc: Loc,
}

impl View for Token {
    type V = TokenView;

    open spec fn view(&self) -> TokenView {
        TokenView { kind: self.kind, text: self.text@, loc: self.loc }
    }
}

impl Clone for Token {
    fn clone(&self) -> (r: Token)
        ensures
            r@ == self@,
    {
        Token { kind: self.kind, text: self.text.clone(), loc: self.loc }
    }
}

/// A token stands at `pos` and the last token of `ts` marks the end of
/// input.
pub open spec fn ends_with_marker(ts: Seq<TokenView>, pos: int) -> bool {
    0 <= pos < ts.len() && ts.last().kind == TokenKind::End
}

/// A finite run of tokens and a cursor into it.
pub struct TokenStream {
    tokens: Vec<Token>,
    pos: usize,
}

impl TokenStream {
    /// All tokens of the stream, consumed or not.
    pub closed spec fn tokens(&self) -> Seq<TokenView> {
        Seq::new(self.tokens.len() as nat, |i: int| self.tokens[i]@)
    }

    /// How many tokens have been consumed.
    pub closed spec fn pos(&self) -> nat {
        self.pos as nat
    }

    /// The cursor lies within the stream.
    pub closed spec fn wf(&self) -> bool {
        self.pos <= self.tokens.len()
    }

    /// A token is still to come and the stream's last token marks the end of
    /// input.
    pub open spec fn terminated(&self) -> bool {
        &&& self.wf()
        &&& ends_with_marker(self.tokens(), self.pos() as int)
    }

    /// A stream over `tokens`, with nothing consumed.
    pub fn new(tokens: Vec<Token>) -> (r: TokenStream)
        ensures
            r.wf(),
            r.pos() == 0,
            r.tokens() == Seq::new(tokens.len() as nat, |i: int| tokens[i]@),
    {
        TokenStream { tokens, pos: 0 }
    }

    /// Whether a token is still to come and the stream's last token marks
    /// the end of input.
    pub fn is_terminated(&self) -> (r: bool)
        requires
            self.wf(),
        ensures
            r == self.terminated(),
    {
        let n = self.tokens.len();
        if self.pos < n {
            assert(self.tokens().last() == self.tokens[n - 1]@);
            self.tokens[n - 1].kind == TokenKind::End
        } else {
            false
        }
    }

    /// Consumes and returns the next token, if one is left.
    pub fn next(&mut self) -> (r: Option<Token>)
        requires
            old(self).wf(),
        ensures
            final(self).wf(),
            final(self).tokens() == old(self).tokens(),
            match r {
                Some(t) => old(self).pos() < old(self).tokens().len()
                    && t@ == old(self).tokens()[old(self).pos() as int]
                    && final(self).pos() == old(self).pos() + 1,
                None => old(self).pos() >= old(self).tokens().len()
                    && final(self).pos() == old(self).pos(),
            },
    {
        if self.pos < self.tokens.len() {
            let t = self.tokens[self.pos].clone();
            self.pos += 1;
            Some(t)
        } else {
            None
        }
    }

    /// Consumes and returns the next token of a stream that has one left.
    pub fn take(&mut self) -> (r: Token)
        requires
            old(self).wf(),
            old(self).pos() < old(self).tokens().len(),
        ensures
            final(self).wf(),
            final(self).tokens() == old(self).tokens(),
            final(self).pos() == old(self).pos() + 1,
            r@ == old(self).tokens()[old(self).pos() as int],
    {
        let t = self.tokens[self.pos].clone();
        self.pos += 1;
        t
    }

    /// The kind of the next token, if one is left. Nothing is consumed.
    pub fn peek_kind(&self) -> (r: Option<TokenKind>)
        requires
            self.wf(),
        ensures
            match r {
                Some(k) => self.pos() < self.tokens().len() && k == self.tokens()[self.pos() as int].kind,
                None => self.pos() >= self.tokens().len(),
            },
    {
        if self.pos < self.tokens.len() {
            Some(self.tokens[self.pos].kind)
        } else {
            None
        }
    }

    /// Consumes the next token if it is of kind `kind`, and says whether it
    /// did.
    pub fn next_if_kind(&mut self, kind: TokenKind) -> (r: bool)
        requires
            old(self).wf(),
        ensures
            final(self).wf(),
            final(self).tokens() == old(self).tokens(),
            r == (old(self).pos() < old(self).tokens().len()
                && old(self).tokens()[old(self).pos() as int].kind == kind),
            final(self).pos() == if r { old(self).pos() + 1 } else { old(self).pos() },
    {
        if self.pos < self.tokens.len() && self.tokens[self.pos].kind == kind {
            self.pos += 1;
            true
        } else {
            false
        }
    }
}

} // verus!
