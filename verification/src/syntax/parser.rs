//! The parser of type expressions: recursive descent over a slice of
//! tokens, after the grammar of [`crate::syntax::grammar`].

use vstd::prelude::*;

use crate::syntax::derivation::{lemma_parsed_sound, spells_type};
use crate::syntax::exact::lemma_parsed_exact;
use crate::syntax::error::{ParseError, ParseErrorKind};
use crate::syntax::grammar;
use crate::syntax::grammar::{lemma_parsed_miss, BinderMode, Miss, Outcome};
use crate::syntax::kinds::{lemma_listed, lemma_ordinals, listed, KindSet, KIND_COUNT};
use crate::syntax::text::{lexeme_to_string, parse_number, unquote};
use crate::syntax::token::{Token, TokenKind};
use crate::syntax::tree::{
    lemma_tuple_model, models, Binder, BinderView, TypeExpr, TypeExprView,
};
use crate::syntax::SourceSpan;

verus! {

/// The farthest place at which a token was asked for in vain, with the
/// kinds asked for there.
#[derive(Clone, Copy, Debug)]
pub struct Missed {
    pub at: usize,
    pub expected: KindSet,
}

impl View for Missed {
    type V = Miss;

    open spec fn view(&self) -> Miss {
        Miss { at: self.at as nat, expected: self.expected@ }
    }
}

impl Missed {
    /// No token was asked for in vain.
    pub fn none() -> (miss: Missed)
        ensures
            miss@ == Miss::none(),
    {
        Missed { at: 0, expected: KindSet::empty() }
    }

    /// A token of kind `kind` was asked for at `at`.
    pub fn one(at: usize, kind: TokenKind) -> (miss: Missed)
        ensures
            miss@ == Miss::one(at as nat, kind),
    {
        Missed { at, expected: KindSet::empty().with(kind) }
    }

    /// Of two misses the farther one; at the same place, the kinds of both.
    pub fn join(self, other: Missed) -> (miss: Missed)
        ensures
            miss@ == self@.join(other@),
    {
        if self.at > other.at {
            self
        } else if other.at > self.at {
            other
        } else {
            Missed { at: self.at, expected: self.expected.union(other.expected) }
        }
    }
}

/// What a parsing function hands back stands for the outcome `want`.
pub open spec fn agrees<T: View>(got: (Option<(T, usize)>, Missed), want: Outcome<T::V>) -> bool {
    &&& got.1@ == want.miss
    &&& match got.0 {
        Some((value, end)) => want.result == Some((value@, end as nat)),
        None => want.result is None,
    }
}

/// Says whether a token of kind `kind` stands at place `i`.
pub fn token_is(tokens: &[(Token, SourceSpan)], i: usize, kind: TokenKind) -> (found: bool)
    ensures
        found == (grammar::kind_at(tokens@, i as nat) == Some(kind)),
        found ==> i < tokens@.len() <= usize::MAX,
{
    i < tokens.len() && tokens[i].0.kind == kind
}

/// The error that reports a token of kind `found`, or the end of the
/// input where `found` is `None`, at `span`, where one of `expected` was
/// asked for.
pub fn unexpected(span: SourceSpan, expected: Vec<TokenKind>, found: Option<TokenKind>) -> (error:
    ParseError)
    ensures
        error.span == span,
        error.expected == expected,
        error.found == found,
        error.kind == if found is None {
            ParseErrorKind::UnexpectedEndOfInput
        } else {
            ParseErrorKind::UnexpectedToken
        },
{
    let kind = match found {
        None => ParseErrorKind::UnexpectedEndOfInput,
        Some(_) => ParseErrorKind::UnexpectedToken,
    };
    ParseError { kind, span, expected, found }
}

/// Parses `tokens`, all of them, as one type expression. Where the
/// tokens spell a type expression, returns its tree and no error; where
/// they spell none, returns no tree and the one error that reports the
/// farthest place at which the parser could not go on. `eoi_span` is the
/// span to report where that place is the end of the input.
pub fn parse<'a>(tokens: &[(Token<'a>, SourceSpan)], eoi_span: SourceSpan) -> (out: (
    Option<TypeExpr>,
    Vec<ParseError>,
))
    ensures
        match grammar::parsed(tokens@) {
            Ok(tree) => out.0 matches Some(found) && found@ == tree && out.1@.len() == 0,
            Err(miss) => {
                &&& out.0 is None
                &&& out.1@.len() == 1
                &&& grammar::reports(out.1@[0], tokens@, eoi_span, miss)
            },
        },
        out.0 is None ==> out.1@.len() > 0 && out.1@[0].expected@.len() > 0,
        out.0 is None ==> forall|kind: TokenKind|
            out.1@[0].expected@.contains(kind) && kind != TokenKind::EndOfFile ==> out.1@[0].found
                != Some(kind),
        out.0 matches Some(found) ==> spells_type(tokens@, 0, tokens@.len() as nat, found@),
        forall|tree: TypeExprView| #[trigger]
            spells_type(tokens@, 0, tokens@.len() as nat, tree) ==> (out.0 matches Some(found)
                && found@ == tree),
{
    proof {
        lemma_parsed_sound(tokens@);
        lemma_parsed_miss(tokens@);
        lemma_ordinals();
        if let Err(miss) = grammar::parsed(tokens@) {
            lemma_listed(miss.expected, KIND_COUNT as nat);
            let asked = choose|kind: TokenKind| miss.expected.contains(kind);
            assert(listed(miss.expected, KIND_COUNT as nat).contains(asked));
        }
        assert forall|tree: TypeExprView| #[trigger]
            spells_type(tokens@, 0, tokens@.len() as nat, tree) implies grammar::parsed(tokens@)
            == Ok::<TypeExprView, Miss>(tree) by {
            lemma_parsed_exact(tokens@, tree);
        }
    }
    let (whole, miss) = type_expr(tokens, 0);
    let mut errors: Vec<ParseError> = Vec::new();
    let miss = match whole {
        Some((tree, end)) => {
            if end == tokens.len() {
                return (Some(tree), errors);
            }
            miss.join(Missed::one(end, TokenKind::EndOfFile))
        },
        None => miss,
    };
    let (span, found) = if miss.at < tokens.len() {
        (tokens[miss.at].1, Some(tokens[miss.at].0.kind))
    } else {
        (eoi_span, None)
    };
    errors.push(unexpected(span, miss.expected.to_vec(), found));
    (None, errors)
}

/// Parses a type expression that begins at place `i`: a Pi type, or else
/// a Sigma type, or else a chain of applications.
pub fn type_expr<'a>(tokens: &[(Token<'a>, SourceSpan)], i: usize) -> (out: (
    Option<(TypeExpr, usize)>,
    Missed,
))
    requires
        i <= tokens@.len(),
    ensures
        agrees(out, grammar::type_expr(tokens@, i as nat)),
        out.0 matches Some((_, end)) ==> i < end <= tokens@.len(),
    decreases tokens@.len() - i, 3nat,
{
    let (head, head_miss) = binder(tokens, i);
    let before: Missed = match head {
        None => head_miss.join(head_miss),
        Some((bound, end)) => {
            if token_is(tokens, end, TokenKind::Arrow) {
                let (body, body_miss) = type_expr(tokens, end + 1);
                let pi_miss = head_miss.join(body_miss);
                match body {
                    Some((inner, stop)) => {
                        return (Some((TypeExpr::Pi(bound, Box::new(inner)), stop)), pi_miss);
                    },
                    None => pi_miss.join(head_miss.join(Missed::one(end, TokenKind::Product))),
                }
            } else if token_is(tokens, end, TokenKind::Product) {
                let pi_miss = head_miss.join(Missed::one(end, TokenKind::Arrow));
                let (body, body_miss) = type_expr(tokens, end + 1);
                let sigma_miss = head_miss.join(body_miss);
                match body {
                    Some((inner, stop)) => {
                        return (
                            Some((TypeExpr::Sigma(bound, Box::new(inner)), stop)),
                            pi_miss.join(sigma_miss),
                        );
                    },
                    None => pi_miss.join(sigma_miss),
                }
            } else {
                head_miss.join(Missed::one(end, TokenKind::Arrow)).join(
                    head_miss.join(Missed::one(end, TokenKind::Product)),
                )
            }
        },
    };
    let (tree, chain_miss) = chain(tokens, i);
    (tree, before.join(chain_miss))
}

/// Parses a binder that begins at place `i`.
fn binder<'a>(tokens: &[(Token<'a>, SourceSpan)], i: usize) -> (out: (
    Option<(Binder, usize)>,
    Missed,
))
    requires
        i <= tokens@.len(),
    ensures
        agrees(out, grammar::binder(tokens@, i as nat)),
        out.0 matches Some((_, end)) ==> i < end <= tokens@.len(),
    decreases tokens@.len() - i, 0nat,
{
    let starts = KindSet::empty().with(TokenKind::LParen).with(TokenKind::LBrace).with(
        TokenKind::LBracket,
    );
    if i >= tokens.len() {
        return (None, Missed { at: i, expected: starts });
    }
    let mode = match tokens[i].0.kind {
        TokenKind::LParen => BinderMode::Explicit,
        TokenKind::LBrace => BinderMode::Implicit,
        TokenKind::LBracket => BinderMode::Instance,
        _ => {
            return (None, Missed { at: i, expected: starts });
        },
    };
    if !token_is(tokens, i + 1, TokenKind::LowerIdentifier) {
        return (None, Missed::one(i + 1, TokenKind::LowerIdentifier));
    }
    if !token_is(tokens, i + 2, TokenKind::Colon) {
        return (None, Missed::one(i + 2, TokenKind::Colon));
    }
    let (ty, ty_miss) = type_expr(tokens, i + 3);
    match ty {
        None => (None, ty_miss),
        Some((bound, end)) => {
            let close = match mode {
                BinderMode::Explicit => TokenKind::RParen,
                BinderMode::Implicit => TokenKind::RBrace,
                BinderMode::Instance => TokenKind::RBracket,
            };
            if !token_is(tokens, end, close) {
                return (None, ty_miss.join(Missed::one(end, close)));
            }
            let name = lexeme_to_string(tokens[i + 1].0.lexeme);
            let made = match mode {
                BinderMode::Explicit => Binder::Explicit(name, Box::new(bound)),
                BinderMode::Implicit => Binder::Implicit(name, Box::new(bound)),
                BinderMode::Instance => Binder::Instance(name, Box::new(bound)),
            };
            (Some((made, end + 1)), ty_miss)
        },
    }
}

/// Parses a chain of applications that begins at place `i`.
fn chain<'a>(tokens: &[(Token<'a>, SourceSpan)], i: usize) -> (out: (
    Option<(TypeExpr, usize)>,
    Missed,
))
    requires
        i <= tokens@.len(),
    ensures
        agrees(out, grammar::chain(tokens@, i as nat)),
        out.0 matches Some((_, end)) ==> i < end <= tokens@.len(),
    decreases tokens@.len() - i, 2nat,
{
    let (head, head_miss) = application(tokens, i);
    let (mut left, mut j) = match head {
        None => {
            return (None, head_miss);
        },
        Some(found) => found,
    };
    let mut miss = head_miss;
    loop
        invariant
            i < j <= tokens@.len(),
            grammar::chain(tokens@, i as nat) == grammar::chain_more(
                tokens@,
                j as nat,
                left@,
                miss@,
            ),
        decreases tokens@.len() - j,
    {
        if j >= tokens.len() {
            miss = miss.join(operator_missed(j));
            return (Some((left, j)), miss);
        }
        let operator = tokens[j].0.kind;
        let is_arrow = match operator {
            TokenKind::Arrow => true,
            TokenKind::Product => false,
            _ => {
                miss = miss.join(operator_missed(j));
                return (Some((left, j)), miss);
            },
        };
        let (next, next_miss) = application(tokens, j + 1);
        miss = miss.join(next_miss);
        match next {
            None => {
                return (Some((left, j)), miss);
            },
            Some((right, end)) => {
                left =
                if is_arrow {
                    TypeExpr::Arrow(Box::new(left), Box::new(right))
                } else {
                    let nameless = "_".to_owned();
                    proof {
                        reveal_strlit("_");
                        assert(nameless@ =~= seq!['_']);
                    }
                    let pair = Binder::Explicit(nameless, Box::new(left));
                    assert(pair@ == BinderView::Explicit(seq!['_'], Box::new(left@)));
                    TypeExpr::Sigma(pair, Box::new(right))
                };
                j = end;
            },
        }
    }
}

/// The miss of an arrow or a product at place `j`.
fn operator_missed(j: usize) -> (miss: Missed)
    ensures
        miss@ == grammar::operator_miss(j as nat),
{
    Missed { at: j, expected: KindSet::empty().with(TokenKind::Arrow).with(TokenKind::Product) }
}

/// Parses an application that begins at place `i`.
fn application<'a>(tokens: &[(Token<'a>, SourceSpan)], i: usize) -> (out: (
    Option<(TypeExpr, usize)>,
    Missed,
))
    requires
        i <= tokens@.len(),
    ensures
        agrees(out, grammar::application(tokens@, i as nat)),
        out.0 matches Some((_, end)) ==> i < end <= tokens@.len(),
    decreases tokens@.len() - i, 1nat,
{
    let (head, head_miss) = type_atom(tokens, i);
    let (mut function, mut j) = match head {
        None => {
            return (None, head_miss);
        },
        Some(found) => found,
    };
    let mut miss = head_miss;
    loop
        invariant
            i < j <= tokens@.len(),
            grammar::application(tokens@, i as nat) == grammar::application_more(
                tokens@,
                j as nat,
                function@,
                miss@,
            ),
        decreases tokens@.len() - j,
    {
        let (next, next_miss) = type_atom(tokens, j);
        miss = miss.join(next_miss);
        match next {
            None => {
                return (Some((function, j)), miss);
            },
            Some((argument, end)) => {
                function = TypeExpr::App(Box::new(function), Box::new(argument));
                j = end;
            },
        }
    }
}

/// Parses an atom that begins at place `i`.
pub fn type_atom<'a>(tokens: &[(Token<'a>, SourceSpan)], i: usize) -> (out: (
    Option<(TypeExpr, usize)>,
    Missed,
))
    requires
        i <= tokens@.len(),
    ensures
        agrees(out, grammar::type_atom(tokens@, i as nat)),
        out.0 matches Some((_, end)) ==> i < end <= tokens@.len(),
    decreases tokens@.len() - i, 0nat,
{
    let starts = KindSet::empty().with(TokenKind::LowerIdentifier).with(
        TokenKind::UpperIdentifier,
    ).with(TokenKind::Number).with(TokenKind::String).with(TokenKind::LParen);
    if i >= tokens.len() {
        return (None, Missed { at: i, expected: starts });
    }
    let lexeme = tokens[i].0.lexeme;
    match tokens[i].0.kind {
        TokenKind::LowerIdentifier => (
            Some((TypeExpr::Var(lexeme_to_string(lexeme)), i + 1)),
            Missed::none(),
        ),
        TokenKind::UpperIdentifier => (
            Some((TypeExpr::Constructor(lexeme_to_string(lexeme)), i + 1)),
            Missed::none(),
        ),
        TokenKind::Number => (Some((TypeExpr::Nat(parse_number(lexeme)), i + 1)), Missed::none()),
        TokenKind::String => (
            Some((TypeExpr::String(lexeme_to_string(unquote(lexeme))), i + 1)),
            Missed::none(),
        ),
        TokenKind::LParen => {
            let (mut list, end, list_miss) = items(tokens, i + 1);
            if !token_is(tokens, end, TokenKind::RParen) {
                return (None, list_miss.join(Missed::one(end, TokenKind::RParen)));
            }
            let tree = if list.len() == 1 {
                let ghost whole = list@;
                let only = list.pop().unwrap();
                assert(only == whole[0]);
                only
            } else {
                proof {
                    lemma_tuple_model(list);
                }
                TypeExpr::Tuple(list)
            };
            (Some((tree, end + 1)), list_miss)
        },
        _ => (None, Missed { at: i, expected: starts }),
    }
}

/// Parses the type expressions, separated by commas, that begin at place
/// `i`: returns them, the place behind them, and the farthest miss.
fn items<'a>(tokens: &[(Token<'a>, SourceSpan)], i: usize) -> (out: (
    Vec<TypeExpr>,
    usize,
    Missed,
))
    requires
        i <= tokens@.len(),
    ensures
        grammar::items(tokens@, i as nat) == Outcome::ok(models(out.0@), out.1 as nat, out.2@),
        i <= out.1 <= tokens@.len(),
    decreases tokens@.len() - i, 4nat,
{
    let mut list: Vec<TypeExpr> = Vec::new();
    let (first, first_miss) = type_expr(tokens, i);
    let mut miss = first_miss;
    let mut j: usize = match first {
        None => {
            assert(models(list@) =~= Seq::empty());
            return (list, i, miss);
        },
        Some((item, end)) => {
            list.push(item);
            assert(models(list@) =~= seq![item@]);
            end
        },
    };
    loop
        invariant
            i < j <= tokens@.len(),
            grammar::items(tokens@, i as nat) == grammar::items_more(
                tokens@,
                j as nat,
                models(list@),
                miss@,
            ),
        decreases tokens@.len() - j,
    {
        if !token_is(tokens, j, TokenKind::Comma) {
            miss = miss.join(Missed::one(j, TokenKind::Comma));
            return (list, j, miss);
        }
        let (next, next_miss) = type_expr(tokens, j + 1);
        miss = miss.join(next_miss);
        match next {
            None => {
                return (list, j, miss);
            },
            Some((item, end)) => {
                let ghost before = list@;
                list.push(item);
                assert(models(list@) =~= models(before).push(item@));
                j = end;
            },
        }
    }
}

} // verus!
