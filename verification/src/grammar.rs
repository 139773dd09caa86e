//! The written form of a term as a run of lexemes, and the law that reading
//! a term's written form gives the term back.

use vstd::prelude::*;
use crate::parser::{parse_more, parse_term, Parsed};
use crate::render::{render, render_args};
use crate::term::Term;
use crate::token::{TokenKind, TokenView};

verus! {

/// A token without its place: kind and text.
pub struct Lexeme {
    pub kind: TokenKind,
    pub text: Seq<char>,
}

/// The lexeme of the symbol `name`.
pub open spec fn symbol(name: Seq<char>) -> Lexeme {
    Lexeme { kind: TokenKind::Sym, text: name }
}

/// The lexeme of the one-character mark `c` of kind `kind`.
pub open spec fn mark(kind: TokenKind, c: char) -> Lexeme {
    Lexeme { kind, text: seq![c] }
}

/// The written form of `t`: an atom is its name; a compound is its name, an
/// opening parenthesis, its arguments with a comma between each two, and a
/// closing parenthesis.
pub open spec fn lexemes(t: Term) -> Seq<Lexeme>
    decreases t, 0nat,
{
    match t {
        Term::Atom(name) => seq![symbol(name)],
        Term::Compound(name, args) => seq![symbol(name), mark(TokenKind::OpenParen, '(')] + (
        if args.len() == 0 {
            seq![mark(TokenKind::CloseParen, ')')]
        } else {
            lexemes(args[0]) + lexemes_after(args, 1)
        }),
    }
}

/// What is written after the first `done` arguments of a compound with the
/// arguments `args`: a comma and an argument for each that is left, then
/// the closing parenthesis.
pub open spec fn lexemes_after(args: Seq<Term>, done: nat) -> Seq<Lexeme>
    decreases args, args.len() - done,
{
    if done >= args.len() {
        seq![mark(TokenKind::CloseParen, ')')]
    } else {
        seq![mark(TokenKind::Comma, ',')] + (lexemes(args[done as int]) + lexemes_after(
            args,
            done + 1,
        ))
    }
}

/// A lexeme as it stands in a text: its own text, and a space after a
/// comma.
pub open spec fn written(l: Lexeme) -> Seq<char> {
    if l.kind == TokenKind::Comma {
        l.text + seq![' ']
    } else {
        l.text
    }
}

/// The lexemes `lx` as they stand in a text, one after the other.
pub open spec fn spell_out(lx: Seq<Lexeme>) -> Seq<char>
    decreases lx.len(),
{
    if lx.len() == 0 {
        Seq::empty()
    } else {
        spell_out(lx.drop_last()) + written(lx.last())
    }
}

/// One lexeme spelled out is that lexeme as written.
pub proof fn lemma_spell_out_one(l: Lexeme)
    ensures
        spell_out(seq![l]) == written(l),
{
    let one = seq![l];
    assert(one.drop_last() =~= Seq::<Lexeme>::empty());
    assert(spell_out(one.drop_last()) =~= Seq::<char>::empty());
    assert(spell_out(one) =~= written(l));
}

/// Spelling out two runs of lexemes, one after the other, is spelling out
/// the first and then the second.
pub proof fn lemma_spell_out_concat(front: Seq<Lexeme>, back: Seq<Lexeme>)
    ensures
        spell_out(front + back) == spell_out(front) + spell_out(back),
    decreases back.len(),
{
    if back.len() == 0 {
        assert(front + back =~= front);
        assert(spell_out(front) + spell_out(back) =~= spell_out(front));
    } else {
        let whole = front + back;
        assert(whole.drop_last() =~= front + back.drop_last());
        assert(whole.last() == back.last());
        lemma_spell_out_concat(front, back.drop_last());
        assert(spell_out(whole) =~= spell_out(front) + spell_out(back));
    }
}

/// The written form of a term, spelled out, is the term's text.
pub proof fn lemma_written_form_is_text(t: Term)
    ensures
        spell_out(lexemes(t)) == render(t),
    decreases t, 0nat,
{
    match t {
        Term::Atom(name) => {
            lemma_spell_out_one(symbol(name));
        },
        Term::Compound(name, args) => {
            let open = mark(TokenKind::OpenParen, '(');
            let close = mark(TokenKind::CloseParen, ')');
            let front = seq![symbol(name), open];
            let back = if args.len() == 0 {
                seq![close]
            } else {
                lexemes(args[0]) + lexemes_after(args, 1)
            };
            assert(lexemes(t) == front + back);
            assert(front =~= seq![symbol(name)] + seq![open]);
            lemma_spell_out_concat(seq![symbol(name)], seq![open]);
            lemma_spell_out_one(symbol(name));
            lemma_spell_out_one(open);
            lemma_spell_out_concat(front, back);
            assert(spell_out(front) =~= name + seq!['(']);
            if args.len() == 0 {
                lemma_spell_out_one(close);
                assert(render(t) =~= name + seq!['('] + seq![')']);
            } else {
                lemma_spell_out_concat(lexemes(args[0]), lexemes_after(args, 1));
                lemma_written_form_is_text(args[0]);
                lemma_rest_is_text(args, 1);
                assert(render_args(args, 1) == render(args[0]));
                assert(spell_out(back) == render_args(args, args.len()) + seq![')']);
                assert(render(t) =~= name + seq!['('] + (render_args(args, args.len()) + seq![
                    ')',
                ]));
            }
        },
    }
}

/// The text of the first `done` arguments, followed by what is written
/// after them, is the text of all arguments and the closing parenthesis.
pub proof fn lemma_rest_is_text(args: Seq<Term>, done: nat)
    requires
        1 <= done <= args.len(),
    ensures
        render_args(args, done) + spell_out(lexemes_after(args, done)) == render_args(
            args,
            args.len(),
        ) + seq![')'],
    decreases args, args.len() - done,
{
    let close = mark(TokenKind::CloseParen, ')');
    if done >= args.len() {
        lemma_spell_out_one(close);
    } else {
        let comma = mark(TokenKind::Comma, ',');
        let arg = lexemes(args[done as int]);
        let rest = lexemes_after(args, done + 1);
        assert(lexemes_after(args, done) == seq![comma] + (arg + rest));
        lemma_spell_out_concat(seq![comma], arg + rest);
        lemma_spell_out_concat(arg, rest);
        lemma_spell_out_one(comma);
        lemma_written_form_is_text(args[done as int]);
        lemma_rest_is_text(args, done + 1);
        assert(written(comma) =~= seq![',', ' ']);
        assert(render_args(args, done + 1) == render_args(args, done) + seq![',', ' '] + render(
            args[done as int],
        ));
        assert(render_args(args, done) + spell_out(lexemes_after(args, done)) =~= render_args(
            args,
            done + 1,
        ) + spell_out(rest));
    }
}

/// The tokens of `ts` from `pos` on are, in kind and text, the lexemes `lx`.
pub open spec fn spells(ts: Seq<TokenView>, pos: int, lx: Seq<Lexeme>) -> bool {
    &&& 0 <= pos
    &&& pos + lx.len() <= ts.len()
    &&& forall|j: int|
        0 <= j < lx.len() ==> ts[pos + j].kind == (#[trigger] lx[j]).kind && ts[pos + j].text
            == lx[j].text
}

/// Tokens that spell a run of lexemes spell its front part, and after that
/// its back part.
pub proof fn lemma_spells_split(ts: Seq<TokenView>, pos: int, front: Seq<Lexeme>, back: Seq<Lexeme>)
    requires
        spells(ts, pos, front + back),
    ensures
        spells(ts, pos, front),
        spells(ts, pos + front.len(), back),
{
    let whole = front + back;
    assert forall|j: int| 0 <= j < front.len() implies ts[pos + j].kind == (#[trigger] front[j]).kind
        && ts[pos + j].text == front[j].text by {
        assert(whole[j] == front[j]);
    }
    assert forall|j: int| 0 <= j < back.len() implies ts[pos + front.len() + j].kind == (
    #[trigger] back[j]).kind && ts[pos + front.len() + j].text == back[j].text by {
        assert(whole[front.len() + j] == back[j]);
    }
}

/// A written form begins with a symbol.
pub proof fn lemma_lexemes_begin(t: Term)
    ensures
        lexemes(t).len() >= 1,
        lexemes(t)[0].kind == TokenKind::Sym,
{
}

/// What follows an argument begins with a comma or a closing parenthesis.
pub proof fn lemma_lexemes_after_begin(args: Seq<Term>, done: nat)
    ensures
        lexemes_after(args, done).len() >= 1,
        lexemes_after(args, done)[0].kind == TokenKind::Comma || lexemes_after(args, done)[0].kind
            == TokenKind::CloseParen,
{
}

/// Round trip: where the tokens from `pos` on spell the written form of `t`
/// and no opening parenthesis follows them, reading a term at `pos` gives
/// `t` and ends after its last token.
pub proof fn lemma_parse_written(ts: Seq<TokenView>, pos: int, t: Term)
    requires
        spells(ts, pos, lexemes(t)),
        pos + lexemes(t).len() < ts.len() ==> ts[pos + lexemes(t).len()].kind
            != TokenKind::OpenParen,
    ensures
        parse_term(ts, pos) == Parsed::Built(t, pos + lexemes(t).len()),
    decreases t, 0nat,
{
    lemma_lexemes_begin(t);
    assert(ts[pos + 0].kind == lexemes(t)[0].kind && ts[pos + 0].text == lexemes(t)[0].text);
    match t {
        Term::Atom(name) => {},
        Term::Compound(name, args) => {
            let front = seq![symbol(name), mark(TokenKind::OpenParen, '(')];
            let back = if args.len() == 0 {
                seq![mark(TokenKind::CloseParen, ')')]
            } else {
                lexemes(args[0]) + lexemes_after(args, 1)
            };
            assert(lexemes(t) == front + back);
            lemma_spells_split(ts, pos, front, back);
            assert(ts[pos + 1].kind == front[1].kind);
            if args.len() == 0 {
                assert(ts[pos + 2 + 0].kind == back[0].kind);
                assert(args =~= Seq::<Term>::empty());
            } else {
                let first = lexemes(args[0]);
                let rest = lexemes_after(args, 1);
                lemma_spells_split(ts, pos + 2, first, rest);
                lemma_lexemes_begin(args[0]);
                lemma_lexemes_after_begin(args, 1);
                assert(ts[pos + 2 + 0].kind == first[0].kind);
                assert(ts[pos + 2 + first.len() + 0].kind == rest[0].kind);
                lemma_parse_written(ts, pos + 2, args[0]);
                lemma_parse_more_written(ts, pos + 2 + first.len(), name, args, 1);
                assert(args.subrange(0, 1) =~= Seq::<Term>::empty().push(args[0]));
            }
        },
    }
}

/// The same for the rest of a compound: where `done` of the arguments
/// `args` have been read and the tokens from `pos` on spell what is written
/// after them, reading on gives the compound of all of `args`.
pub proof fn lemma_parse_more_written(
    ts: Seq<TokenView>,
    pos: int,
    name: Seq<char>,
    args: Seq<Term>,
    done: nat,
)
    requires
        done <= args.len(),
        spells(ts, pos, lexemes_after(args, done)),
    ensures
        parse_more(ts, pos, name, args.subrange(0, done as int)) == Parsed::Built(
            Term::Compound(name, args),
            pos + lexemes_after(args, done).len(),
        ),
    decreases args, args.len() - done,
{
    lemma_lexemes_after_begin(args, done);
    let whole = lexemes_after(args, done);
    assert(ts[pos + 0].kind == whole[0].kind);
    if done >= args.len() {
        assert(args.subrange(0, done as int) =~= args);
    } else {
        let comma = seq![mark(TokenKind::Comma, ',')];
        let arg = lexemes(args[done as int]);
        let rest = lexemes_after(args, done + 1);
        assert(whole == comma + (arg + rest));
        lemma_spells_split(ts, pos, comma, arg + rest);
        lemma_spells_split(ts, pos + 1, arg, rest);
        lemma_lexemes_after_begin(args, done + 1);
        assert(ts[pos + 1 + arg.len() + 0].kind == rest[0].kind);
        lemma_parse_written(ts, pos + 1, args[done as int]);
        lemma_parse_more_written(ts, pos + 1 + arg.len(), name, args, done + 1);
        assert(args.subrange(0, done as int).push(args[done as int]) =~= args.subrange(
            0,
            done as int + 1,
        ));
    }
}

} // verus!
