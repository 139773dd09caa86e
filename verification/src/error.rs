//! What can go wrong while a command is read and carried out.

use vstd::prelude::*;
use crate::token::{Loc, Token, TokenKindSet, TokenView, TokenKind};

verus! {

/// The failures of a command. Each ends the command and leaves the session
/// as it was.
#[derive(Debug)]
pub enum Error {
    /// A token of another kind than the expected ones was read.
    UnexpectedToken(TokenKindSet, Token),
    /// A rule of this name exists: the name, where the new definition
    /// stands, where the existing one stands.
    RuleAlreadyExists(String, Loc, Loc),
    /// No rule of this name exists.
    RuleDoesNotExist(String),
    /// A term is being shaped already.
    AlreadyShaping,
    /// No term is being shaped.
    NoShapingInPlace,
    /// A functor of this name would have to be replaced by a compound term.
    FunctorNotSymbol(String),
}

/// An error as a mathematical value.
pub enum ErrorView {
    UnexpectedToken(Set<TokenKind>, TokenView),
    RuleAlreadyExists(Seq<char>, Loc, Loc),
    RuleDoesNotExist(Seq<char>),
    AlreadyShaping,
    NoShapingInPlace,
    FunctorNotSymbol(Seq<char>),
}

impl View for Error {
    type V = ErrorView;

    open spec fn view(&self) -> ErrorView {
        match self {
            Error::UnexpectedToken(kinds, token) => ErrorView::UnexpectedToken(kinds@, token@),
            Error::RuleAlreadyExists(name, new_loc, old_loc) => ErrorView::RuleAlreadyExists(
                name@,
                *new_loc,
                *old_loc,
            ),
            Error::RuleDoesNotExist(name) => ErrorView::RuleDoesNotExist(name@),
            Error::AlreadyShaping => ErrorView::AlreadyShaping,
            Error::NoShapingInPlace => ErrorView::NoShapingInPlace,
            Error::FunctorNotSymbol(name) => ErrorView::FunctorNotSymbol(name@),
        }
    }
}

} // verus!
