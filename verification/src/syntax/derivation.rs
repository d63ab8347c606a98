//! What it means for a stretch of tokens to spell a type expression, said
//! without a word on how a parser goes about it; and the proof that the
//! grammar functions yield only trees that the tokens they took up spell.

use vstd::prelude::*;

use crate::syntax::grammar::{
    application, application_more, bind, binder, chain, chain_more, chained, closing, items,
    items_more, kind_at, lemma_application_within, lemma_binder_within, lemma_items_within,
    lemma_type_atom_within, lemma_type_expr_within, lexeme_at, opened_by, parsed, quantifier,
    type_atom, type_expr, Miss,
};
use crate::syntax::text::{number_value, unquoted, utf8_lossy};
use crate::syntax::token::{Token, TokenKind};
use crate::syntax::tree::{BinderView, TypeExprView};
use crate::syntax::SourceSpan;

verus! {

/// The tokens from place `i` up to place `j` spell the atom `tree`: they
/// are one token that names it, or parentheses around a list that stands
/// for it.
pub open spec fn spells_atom(
    tokens: Seq<(Token, SourceSpan)>,
    i: nat,
    j: nat,
    tree: TypeExprView,
) -> bool
    decreases j - i, 1nat,
{
    if j <= i || j > tokens.len() {
        false
    } else {
        match kind_at(tokens, i) {
            Some(TokenKind::LowerIdentifier) => j == i + 1 && tree == TypeExprView::Var(
                utf8_lossy(lexeme_at(tokens, i)),
            ),
            Some(TokenKind::UpperIdentifier) => j == i + 1 && tree == TypeExprView::Constructor(
                utf8_lossy(lexeme_at(tokens, i)),
            ),
            Some(TokenKind::Number) => j == i + 1 && tree == TypeExprView::Nat(
                number_value(lexeme_at(tokens, i)),
            ),
            Some(TokenKind::String) => j == i + 1 && tree == TypeExprView::String(
                utf8_lossy(unquoted(lexeme_at(tokens, i))),
            ),
            Some(TokenKind::LParen) => {
                &&& i + 2 <= j
                &&& kind_at(tokens, (j - 1) as nat) == Some(TokenKind::RParen)
                &&& {
                    ||| spells_type(tokens, i + 1, (j - 1) as nat, tree)
                    ||| tree matches TypeExprView::Tuple(elements) && elements.len() != 1
                        && spells_items(tokens, i + 1, (j - 1) as nat, elements)
                }
            },
            _ => false,
        }
    }
}

/// The tokens from place `i` up to place `j` spell the type expressions
/// `elements`, with a comma between each two.
pub open spec fn spells_items(
    tokens: Seq<(Token, SourceSpan)>,
    i: nat,
    j: nat,
    elements: Seq<TypeExprView>,
) -> bool
    decreases j - i, 5nat, elements.len(),
{
    if elements.len() == 0 {
        i == j
    } else if elements.len() == 1 {
        spells_type(tokens, i, j, elements[0])
    } else {
        exists|k: nat|
            i < k < j && #[trigger] kind_at(tokens, k) == Some(TokenKind::Comma) && spells_items(
                tokens,
                i,
                k,
                elements.drop_last(),
            ) && spells_type(tokens, k + 1, j, elements.last())
    }
}

/// The tokens from place `i` up to place `j` spell the application
/// `tree`: an atom, or an application and the atom it is applied to.
pub open spec fn spells_application(
    tokens: Seq<(Token, SourceSpan)>,
    i: nat,
    j: nat,
    tree: TypeExprView,
) -> bool
    decreases j - i, 2nat,
{
    ||| spells_atom(tokens, i, j, tree)
    ||| tree matches TypeExprView::App(function, argument) && exists|k: nat|
        i < k < j && #[trigger] kind_at(tokens, k) is Some && spells_application(
            tokens,
            i,
            k,
            *function,
        ) && spells_atom(tokens, k, j, *argument)
}

/// The tokens from place `i` up to place `j` spell the chain `tree`: an
/// application, or a chain, an arrow or a product, and an application.
pub open spec fn spells_chain(
    tokens: Seq<(Token, SourceSpan)>,
    i: nat,
    j: nat,
    tree: TypeExprView,
) -> bool
    decreases j - i, 3nat,
{
    ||| spells_application(tokens, i, j, tree)
    ||| tree matches TypeExprView::Arrow(left, right) && exists|k: nat|
        i < k < j && #[trigger] kind_at(tokens, k) == Some(TokenKind::Arrow) && spells_chain(
            tokens,
            i,
            k,
            *left,
        ) && spells_application(tokens, k + 1, j, *right)
    ||| tree matches TypeExprView::Sigma(BinderView::Explicit(name, left), right) && name
        == seq!['_'] && exists|k: nat|
        i < k < j && #[trigger] kind_at(tokens, k) == Some(TokenKind::Product) && spells_chain(
            tokens,
            i,
            k,
            *left,
        ) && spells_application(tokens, k + 1, j, *right)
}

/// The tokens from place `i` up to place `j` spell the binder `bound`.
pub open spec fn spells_binder(
    tokens: Seq<(Token, SourceSpan)>,
    i: nat,
    j: nat,
    bound: BinderView,
) -> bool
    decreases j - i, 0nat,
{
    &&& i + 5 <= j <= tokens.len()
    &&& opened_by(kind_at(tokens, i)) matches Some(mode)
    &&& kind_at(tokens, i + 1) == Some(TokenKind::LowerIdentifier)
    &&& kind_at(tokens, i + 2) == Some(TokenKind::Colon)
    &&& kind_at(tokens, (j - 1) as nat) == Some(closing(mode))
    &&& bound == bind(mode, utf8_lossy(lexeme_at(tokens, i + 1)), type_of(bound))
    &&& spells_type(tokens, i + 3, (j - 1) as nat, type_of(bound))
}

/// The type that a binder gives to its variable.
pub open spec fn type_of(bound: BinderView) -> TypeExprView {
    match bound {
        BinderView::Explicit(_, ty) => *ty,
        BinderView::Implicit(_, ty) => *ty,
        BinderView::Instance(_, ty) => *ty,
    }
}

/// The tokens from place `i` up to place `j` spell the type expression
/// `tree`: a binder, an arrow and the body of a Pi type; a binder, a
/// product and the body of a Sigma type; or a chain.
pub open spec fn spells_type(
    tokens: Seq<(Token, SourceSpan)>,
    i: nat,
    j: nat,
    tree: TypeExprView,
) -> bool
    decreases j - i, 4nat,
{
    ||| tree matches TypeExprView::Pi(bound, body) && exists|k: nat|
        i < k < j && #[trigger] kind_at(tokens, k) == Some(TokenKind::Arrow) && spells_binder(
            tokens,
            i,
            k,
            bound,
        ) && spells_type(tokens, k + 1, j, *body)
    ||| tree matches TypeExprView::Sigma(bound, body) && exists|k: nat|
        i < k < j && #[trigger] kind_at(tokens, k) == Some(TokenKind::Product) && spells_binder(
            tokens,
            i,
            k,
            bound,
        ) && spells_type(tokens, k + 1, j, *body)
    ||| spells_chain(tokens, i, j, tree)
}

/// An atom that is read is spelled by the tokens it takes up.
pub proof fn lemma_type_atom_sound(tokens: Seq<(Token, SourceSpan)>, i: nat)
    requires
        i <= tokens.len(),
    ensures
        type_atom(tokens, i).result matches Some((tree, end)) ==> spells_atom(tokens, i, end, tree),
    decreases tokens.len() - i, 0nat,
{
    if kind_at(tokens, i) == Some(TokenKind::LParen) {
        lemma_items_within(tokens, i + 1);
        lemma_items_sound(tokens, i + 1);
    }
}

/// A list that is read is spelled by the tokens it takes up.
pub proof fn lemma_items_sound(tokens: Seq<(Token, SourceSpan)>, i: nat)
    requires
        i <= tokens.len(),
    ensures
        items(tokens, i).result matches Some((elements, end)) ==> spells_items(
            tokens,
            i,
            end,
            elements,
        ),
    decreases tokens.len() - i, 4nat,
{
    lemma_type_expr_within(tokens, i);
    lemma_type_expr_sound(tokens, i);
    let first = type_expr(tokens, i);
    match first.result {
        Some((item, end)) => {
            lemma_items_more_sound(tokens, i, end, seq![item], first.miss);
        },
        None => {},
    }
}

/// The rest of a list adds to what the tokens so far spell.
pub proof fn lemma_items_more_sound(
    tokens: Seq<(Token, SourceSpan)>,
    start: nat,
    j: nat,
    so_far: Seq<TypeExprView>,
    miss: Miss,
)
    requires
        start < j <= tokens.len(),
        so_far.len() >= 1,
        spells_items(tokens, start, j, so_far),
    ensures
        items_more(tokens, j, so_far, miss).result matches Some((elements, end)) ==> spells_items(
            tokens,
            start,
            end,
            elements,
        ),
    decreases tokens.len() - j, 4nat,
{
    if kind_at(tokens, j) == Some(TokenKind::Comma) {
        lemma_type_expr_within(tokens, j + 1);
        lemma_type_expr_sound(tokens, j + 1);
        let next = type_expr(tokens, j + 1);
        match next.result {
            Some((item, end)) => {
                let longer = so_far.push(item);
                assert(longer.drop_last() == so_far);
                lemma_items_more_sound(tokens, start, end, longer, miss.join(next.miss));
            },
            None => {},
        }
    }
}

/// An application that is read is spelled by the tokens it takes up.
pub proof fn lemma_application_sound(tokens: Seq<(Token, SourceSpan)>, i: nat)
    requires
        i <= tokens.len(),
    ensures
        application(tokens, i).result matches Some((tree, end)) ==> spells_application(
            tokens,
            i,
            end,
            tree,
        ),
    decreases tokens.len() - i, 1nat,
{
    lemma_type_atom_within(tokens, i);
    lemma_type_atom_sound(tokens, i);
    let head = type_atom(tokens, i);
    match head.result {
        Some((function, end)) => {
            lemma_application_more_sound(tokens, i, end, function, head.miss);
        },
        None => {},
    }
}

/// The rest of an application adds to what the tokens so far spell.
pub proof fn lemma_application_more_sound(
    tokens: Seq<(Token, SourceSpan)>,
    start: nat,
    j: nat,
    function: TypeExprView,
    miss: Miss,
)
    requires
        start < j <= tokens.len(),
        spells_application(tokens, start, j, function),
    ensures
        application_more(tokens, j, function, miss).result matches Some((tree, end))
            ==> spells_application(tokens, start, end, tree),
    decreases tokens.len() - j, 1nat,
{
    lemma_type_atom_within(tokens, j);
    lemma_type_atom_sound(tokens, j);
    let next = type_atom(tokens, j);
    match next.result {
        Some((argument, end)) => {
            let applied = TypeExprView::App(Box::new(function), Box::new(argument));
            assert(kind_at(tokens, j) is Some);
            lemma_application_more_sound(tokens, start, end, applied, miss.join(next.miss));
        },
        None => {},
    }
}

/// A chain that is read is spelled by the tokens it takes up.
pub proof fn lemma_chain_sound(tokens: Seq<(Token, SourceSpan)>, i: nat)
    requires
        i <= tokens.len(),
    ensures
        chain(tokens, i).result matches Some((tree, end)) ==> spells_chain(tokens, i, end, tree),
    decreases tokens.len() - i, 2nat,
{
    lemma_application_within(tokens, i);
    lemma_application_sound(tokens, i);
    let head = application(tokens, i);
    match head.result {
        Some((left, end)) => {
            lemma_chain_more_sound(tokens, i, end, left, head.miss);
        },
        None => {},
    }
}

/// The rest of a chain adds to what the tokens so far spell.
pub proof fn lemma_chain_more_sound(
    tokens: Seq<(Token, SourceSpan)>,
    start: nat,
    j: nat,
    left: TypeExprView,
    miss: Miss,
)
    requires
        start < j <= tokens.len(),
        spells_chain(tokens, start, j, left),
    ensures
        chain_more(tokens, j, left, miss).result matches Some((tree, end)) ==> spells_chain(
            tokens,
            start,
            end,
            tree,
        ),
    decreases tokens.len() - j, 2nat,
{
    match kind_at(tokens, j) {
        Some(operator) => {
            if operator == TokenKind::Arrow || operator == TokenKind::Product {
                lemma_application_within(tokens, j + 1);
                lemma_application_sound(tokens, j + 1);
                let next = application(tokens, j + 1);
                match next.result {
                    Some((right, end)) => {
                        let joined = chained(operator, left, right);
                        lemma_chain_more_sound(tokens, start, end, joined, miss.join(next.miss));
                    },
                    None => {},
                }
            }
        },
        None => {},
    }
}

/// A binder that is read is spelled by the tokens it takes up.
pub proof fn lemma_binder_sound(tokens: Seq<(Token, SourceSpan)>, i: nat)
    requires
        i <= tokens.len(),
    ensures
        binder(tokens, i).result matches Some((bound, end)) ==> spells_binder(
            tokens,
            i,
            end,
            bound,
        ),
    decreases tokens.len() - i, 0nat,
{
    if opened_by(kind_at(tokens, i)) is Some && kind_at(tokens, i + 1) == Some(
        TokenKind::LowerIdentifier,
    ) && kind_at(tokens, i + 2) == Some(TokenKind::Colon) {
        lemma_type_expr_within(tokens, i + 3);
        lemma_type_expr_sound(tokens, i + 3);
    }
}

/// A Pi or Sigma type that is read is spelled by the tokens it takes up.
pub proof fn lemma_quantifier_sound(
    tokens: Seq<(Token, SourceSpan)>,
    i: nat,
    operator: TokenKind,
)
    requires
        i <= tokens.len(),
        operator == TokenKind::Arrow || operator == TokenKind::Product,
    ensures
        quantifier(tokens, i, operator).result matches Some((tree, end)) ==> spells_type(
            tokens,
            i,
            end,
            tree,
        ),
    decreases tokens.len() - i, 1nat,
{
    lemma_binder_within(tokens, i);
    lemma_binder_sound(tokens, i);
    let head = binder(tokens, i);
    match head.result {
        Some((bound, end)) => {
            if kind_at(tokens, end) == Some(operator) {
                lemma_type_expr_within(tokens, end + 1);
                lemma_type_expr_sound(tokens, end + 1);
            }
        },
        None => {},
    }
}

/// A type expression that is read is spelled by the tokens it takes up.
pub proof fn lemma_type_expr_sound(tokens: Seq<(Token, SourceSpan)>, i: nat)
    requires
        i <= tokens.len(),
    ensures
        type_expr(tokens, i).result matches Some((tree, end)) ==> spells_type(tokens, i, end, tree),
    decreases tokens.len() - i, 3nat,
{
    lemma_quantifier_sound(tokens, i, TokenKind::Arrow);
    lemma_quantifier_sound(tokens, i, TokenKind::Product);
    lemma_chain_sound(tokens, i);
}

/// The tree that comes out of a parse is one that the tokens, from the
/// first to the last, spell.
pub proof fn lemma_parsed_sound(tokens: Seq<(Token, SourceSpan)>)
    ensures
        parsed(tokens) matches Ok(tree) ==> spells_type(tokens, 0, tokens.len(), tree),
{
    lemma_type_expr_sound(tokens, 0);
}

} // verus!
