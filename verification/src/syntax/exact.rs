//! The parser reads exactly what the tokens spell: whatever stretch of
//! tokens spells a type expression is read as that expression, so that
//! no stretch of tokens spells two.

use vstd::prelude::*;

use crate::syntax::derivation::{
    spells_application, spells_atom, spells_binder, spells_chain, spells_items, spells_type,
    type_of,
};
use crate::syntax::grammar::{
    application, application_more, binder, chain, chain_more, chained, items, items_more, kind_at,
    opened_by, parsed, quantifier, type_atom, type_expr, Miss,
};
use crate::syntax::token::{Token, TokenKind};
use crate::syntax::tree::{BinderView, TypeExprView};
use crate::syntax::SourceSpan;

verus! {

/// A token of this kind begins an atom.
pub open spec fn starts_atom(kind: Option<TokenKind>) -> bool {
    kind == Some(TokenKind::LowerIdentifier) || kind == Some(TokenKind::UpperIdentifier) || kind
        == Some(TokenKind::Number) || kind == Some(TokenKind::String) || kind == Some(
        TokenKind::LParen,
    )
}

/// A token of this kind joins two applications of a chain.
pub open spec fn is_operator(kind: Option<TokenKind>) -> bool {
    kind == Some(TokenKind::Arrow) || kind == Some(TokenKind::Product)
}

/// A chain cannot go on with a token of this kind, nor with the end of
/// the input.
pub open spec fn ends_chain(kind: Option<TokenKind>) -> bool {
    !starts_atom(kind) && !is_operator(kind)
}

/// The three tokens from place `i` on are the beginning of a binder.
pub open spec fn begins_binder(tokens: Seq<(Token, SourceSpan)>, i: nat) -> bool {
    &&& opened_by(kind_at(tokens, i)) is Some
    &&& kind_at(tokens, i + 1) == Some(TokenKind::LowerIdentifier)
    &&& kind_at(tokens, i + 2) == Some(TokenKind::Colon)
}

/// What the rest of a list is read as does not hang on the misses so far.
pub proof fn lemma_items_more_result(
    tokens: Seq<(Token, SourceSpan)>,
    j: nat,
    so_far: Seq<TypeExprView>,
    a: Miss,
    b: Miss,
)
    ensures
        items_more(tokens, j, so_far, a).result == items_more(tokens, j, so_far, b).result,
    decreases tokens.len() - j,
{
    if kind_at(tokens, j) == Some(TokenKind::Comma) {
        let next = type_expr(tokens, j + 1);
        match next.result {
            Some((item, end)) => {
                if j < end <= tokens.len() {
                    lemma_items_more_result(
                        tokens,
                        end,
                        so_far.push(item),
                        a.join(next.miss),
                        b.join(next.miss),
                    );
                }
            },
            None => {},
        }
    }
}

/// What the rest of an application is read as does not hang on the
/// misses so far.
pub proof fn lemma_application_more_result(
    tokens: Seq<(Token, SourceSpan)>,
    j: nat,
    function: TypeExprView,
    a: Miss,
    b: Miss,
)
    ensures
        application_more(tokens, j, function, a).result == application_more(
            tokens,
            j,
            function,
            b,
        ).result,
    decreases tokens.len() - j,
{
    let next = type_atom(tokens, j);
    match next.result {
        Some((argument, end)) => {
            if j < end <= tokens.len() {
                lemma_application_more_result(
                    tokens,
                    end,
                    TypeExprView::App(Box::new(function), Box::new(argument)),
                    a.join(next.miss),
                    b.join(next.miss),
                );
            }
        },
        None => {},
    }
}

/// What the rest of a chain is read as does not hang on the misses so
/// far.
pub proof fn lemma_chain_more_result(
    tokens: Seq<(Token, SourceSpan)>,
    j: nat,
    left: TypeExprView,
    a: Miss,
    b: Miss,
)
    ensures
        chain_more(tokens, j, left, a).result == chain_more(tokens, j, left, b).result,
    decreases tokens.len() - j,
{
    match kind_at(tokens, j) {
        Some(operator) => {
            if operator == TokenKind::Arrow || operator == TokenKind::Product {
                let next = application(tokens, j + 1);
                match next.result {
                    Some((right, end)) => {
                        if j < end <= tokens.len() {
                            lemma_chain_more_result(
                                tokens,
                                end,
                                chained(operator, left, right),
                                a.join(next.miss),
                                b.join(next.miss),
                            );
                        }
                    },
                    None => {},
                }
            }
        },
        None => {},
    }
}

/// What spells an application begins with a token that begins an atom
/// and takes up at least one token of the input.
pub proof fn lemma_application_begins(
    tokens: Seq<(Token, SourceSpan)>,
    i: nat,
    j: nat,
    tree: TypeExprView,
)
    requires
        spells_application(tokens, i, j, tree),
    ensures
        starts_atom(kind_at(tokens, i)),
        i < j <= tokens.len(),
        kind_at(tokens, i) == Some(TokenKind::LowerIdentifier) ==> j == i + 1 || starts_atom(
            kind_at(tokens, i + 1),
        ),
        !begins_binder(tokens, i),
    decreases j - i, 1nat,
{
    if spells_atom(tokens, i, j, tree) {
        lemma_atom_begins(tokens, i, j, tree);
    } else {
        let function = *tree->App_0;
        let argument = *tree->App_1;
        let k = choose|k: nat|
            i < k < j && #[trigger] kind_at(tokens, k) is Some && spells_application(
                tokens,
                i,
                k,
                function,
            ) && spells_atom(tokens, k, j, argument);
        lemma_application_begins(tokens, i, k, function);
    }
}

/// What spells an atom is no beginning of a binder.
pub proof fn lemma_atom_begins(
    tokens: Seq<(Token, SourceSpan)>,
    i: nat,
    j: nat,
    tree: TypeExprView,
)
    requires
        spells_atom(tokens, i, j, tree),
    ensures
        starts_atom(kind_at(tokens, i)),
        i < j <= tokens.len(),
        kind_at(tokens, i) == Some(TokenKind::LowerIdentifier) ==> j == i + 1,
        !begins_binder(tokens, i),
    decreases j - i, 0nat,
{
    if begins_binder(tokens, i) {
        let inner = (j - 1) as nat;
        if spells_type(tokens, i + 1, inner, tree) {
            lemma_type_begins(tokens, i + 1, inner, tree);
        } else {
            let elements = tree->Tuple_0;
            if elements.len() > 0 {
                lemma_items_begin(tokens, i + 1, inner, elements);
            }
        }
    }
}

/// What spells a chain begins with a token that begins an atom.
pub proof fn lemma_chain_begins(
    tokens: Seq<(Token, SourceSpan)>,
    i: nat,
    j: nat,
    tree: TypeExprView,
)
    requires
        spells_chain(tokens, i, j, tree),
    ensures
        starts_atom(kind_at(tokens, i)),
        i < j <= tokens.len(),
        kind_at(tokens, i) == Some(TokenKind::LowerIdentifier) ==> j == i + 1 || starts_atom(
            kind_at(tokens, i + 1),
        ) || is_operator(kind_at(tokens, i + 1)),
        !begins_binder(tokens, i),
    decreases j - i, 2nat,
{
    if spells_application(tokens, i, j, tree) {
        lemma_application_begins(tokens, i, j, tree);
    } else if tree is Arrow && exists|k: nat|
        i < k < j && #[trigger] kind_at(tokens, k) == Some(TokenKind::Arrow) && spells_chain(
            tokens,
            i,
            k,
            *tree->Arrow_0,
        ) && spells_application(tokens, k + 1, j, *tree->Arrow_1) {
        let k = choose|k: nat|
            i < k < j && #[trigger] kind_at(tokens, k) == Some(TokenKind::Arrow) && spells_chain(
                tokens,
                i,
                k,
                *tree->Arrow_0,
            ) && spells_application(tokens, k + 1, j, *tree->Arrow_1);
        lemma_chain_begins(tokens, i, k, *tree->Arrow_0);
        lemma_application_begins(tokens, k + 1, j, *tree->Arrow_1);
    } else {
        let left = type_of(tree->Sigma_0);
        let right = *tree->Sigma_1;
        let k = choose|k: nat|
            i < k < j && #[trigger] kind_at(tokens, k) == Some(TokenKind::Product) && spells_chain(
                tokens,
                i,
                k,
                left,
            ) && spells_application(tokens, k + 1, j, right);
        lemma_chain_begins(tokens, i, k, left);
        lemma_application_begins(tokens, k + 1, j, right);
    }
}

/// What spells a type expression takes up at least one token of the
/// input, and behind a lower-case name at its head comes its end, an
/// atom or an operator.
pub proof fn lemma_type_begins(
    tokens: Seq<(Token, SourceSpan)>,
    i: nat,
    j: nat,
    tree: TypeExprView,
)
    requires
        spells_type(tokens, i, j, tree),
    ensures
        i < j <= tokens.len(),
        kind_at(tokens, i) == Some(TokenKind::LowerIdentifier) ==> j == i + 1 || starts_atom(
            kind_at(tokens, i + 1),
        ) || is_operator(kind_at(tokens, i + 1)),
    decreases j - i, 3nat,
{
    if spells_chain(tokens, i, j, tree) {
        lemma_chain_begins(tokens, i, j, tree);
    } else if tree is Pi && exists|k: nat|
        i < k < j && #[trigger] kind_at(tokens, k) == Some(TokenKind::Arrow) && spells_binder(
            tokens,
            i,
            k,
            tree->Pi_0,
        ) && spells_type(tokens, k + 1, j, *tree->Pi_1) {
        let k = choose|k: nat|
            i < k < j && #[trigger] kind_at(tokens, k) == Some(TokenKind::Arrow) && spells_binder(
                tokens,
                i,
                k,
                tree->Pi_0,
            ) && spells_type(tokens, k + 1, j, *tree->Pi_1);
        lemma_type_begins(tokens, k + 1, j, *tree->Pi_1);
    } else {
        let k = choose|k: nat|
            i < k < j && #[trigger] kind_at(tokens, k) == Some(TokenKind::Product) && spells_binder(
                tokens,
                i,
                k,
                tree->Sigma_0,
            ) && spells_type(tokens, k + 1, j, *tree->Sigma_1);
        lemma_type_begins(tokens, k + 1, j, *tree->Sigma_1);
    }
}

/// What spells a list of one item or more takes up at least one token of
/// the input, and behind a lower-case name at its head comes its end, an
/// atom, an operator or a comma.
pub proof fn lemma_items_begin(
    tokens: Seq<(Token, SourceSpan)>,
    i: nat,
    j: nat,
    elements: Seq<TypeExprView>,
)
    requires
        spells_items(tokens, i, j, elements),
        elements.len() >= 1,
    ensures
        i < j <= tokens.len(),
        kind_at(tokens, i) == Some(TokenKind::LowerIdentifier) ==> j == i + 1 || starts_atom(
            kind_at(tokens, i + 1),
        ) || is_operator(kind_at(tokens, i + 1)) || kind_at(tokens, i + 1) == Some(
            TokenKind::Comma,
        ),
    decreases j - i, 4nat, elements.len(),
{
    if elements.len() == 1 {
        lemma_type_begins(tokens, i, j, elements[0]);
    } else {
        let k = choose|k: nat|
            i < k < j && #[trigger] kind_at(tokens, k) == Some(TokenKind::Comma) && spells_items(
                tokens,
                i,
                k,
                elements.drop_last(),
            ) && spells_type(tokens, k + 1, j, elements.last());
        lemma_items_begin(tokens, i, k, elements.drop_last());
        lemma_type_begins(tokens, k + 1, j, elements.last());
    }
}

/// The tokens that spell an atom are read as that atom.
pub proof fn lemma_type_atom_exact(
    tokens: Seq<(Token, SourceSpan)>,
    i: nat,
    j: nat,
    tree: TypeExprView,
)
    requires
        spells_atom(tokens, i, j, tree),
    ensures
        type_atom(tokens, i).result == Some((tree, j)),
    decreases j - i, 1nat,
{
    if kind_at(tokens, i) == Some(TokenKind::LParen) {
        let inner = (j - 1) as nat;
        if spells_type(tokens, i + 1, inner, tree) {
            lemma_type_expr_exact(tokens, i + 1, inner, tree);
            lemma_type_begins(tokens, i + 1, inner, tree);
            assert(items(tokens, i + 1).result == Some((seq![tree], inner)));
        } else {
            let elements = tree->Tuple_0;
            if elements.len() == 0 {
                assert(type_expr(tokens, i + 1).result is None);
                assert(elements == Seq::<TypeExprView>::empty());
            } else {
                lemma_items_exact(tokens, i + 1, inner, elements);
            }
        }
    }
}

/// The tokens that spell the items of a list, with a closing parenthesis
/// behind them, are read as those items.
pub proof fn lemma_items_exact(
    tokens: Seq<(Token, SourceSpan)>,
    i: nat,
    j: nat,
    elements: Seq<TypeExprView>,
)
    requires
        spells_items(tokens, i, j, elements),
        elements.len() >= 1,
        kind_at(tokens, j) == Some(TokenKind::RParen),
    ensures
        items(tokens, i).result == Some((elements, j)),
    decreases j - i, 8nat,
{
    lemma_items_reach(tokens, i, j, elements);
}

/// Reading a list gets to every place up to which the tokens spell items
/// of it, with those items read.
pub proof fn lemma_items_reach(
    tokens: Seq<(Token, SourceSpan)>,
    i: nat,
    k: nat,
    so_far: Seq<TypeExprView>,
)
    requires
        spells_items(tokens, i, k, so_far),
        so_far.len() >= 1,
        kind_at(tokens, k) == Some(TokenKind::RParen) || kind_at(tokens, k) == Some(
            TokenKind::Comma,
        ),
    ensures
        items(tokens, i).result == items_more(tokens, k, so_far, Miss::none()).result,
    decreases k - i, 7nat, so_far.len(),
{
    if so_far.len() == 1 {
        lemma_type_expr_exact(tokens, i, k, so_far[0]);
        lemma_type_begins(tokens, i, k, so_far[0]);
        assert(seq![so_far[0]] == so_far);
        lemma_items_more_result(tokens, k, so_far, type_expr(tokens, i).miss, Miss::none());
    } else {
        let cut = choose|cut: nat|
            i < cut < k && #[trigger] kind_at(tokens, cut) == Some(TokenKind::Comma)
                && spells_items(tokens, i, cut, so_far.drop_last()) && spells_type(
                tokens,
                cut + 1,
                k,
                so_far.last(),
            );
        lemma_items_reach(tokens, i, cut, so_far.drop_last());
        lemma_type_expr_exact(tokens, cut + 1, k, so_far.last());
        lemma_type_begins(tokens, cut + 1, k, so_far.last());
        assert(so_far.drop_last().push(so_far.last()) == so_far);
        lemma_items_more_result(
            tokens,
            k,
            so_far,
            Miss::none().join(type_expr(tokens, cut + 1).miss),
            Miss::none(),
        );
    }
}

/// The tokens that spell an application, with no atom behind them, are
/// read as that application.
pub proof fn lemma_application_exact(
    tokens: Seq<(Token, SourceSpan)>,
    i: nat,
    j: nat,
    tree: TypeExprView,
)
    requires
        spells_application(tokens, i, j, tree),
        !starts_atom(kind_at(tokens, j)),
    ensures
        application(tokens, i).result == Some((tree, j)),
    decreases j - i, 3nat,
{
    lemma_application_reach(tokens, i, j, tree);
    assert(type_atom(tokens, j).result is None);
}

/// Reading an application gets to every place up to which the tokens
/// spell an application, with that application read.
pub proof fn lemma_application_reach(
    tokens: Seq<(Token, SourceSpan)>,
    i: nat,
    k: nat,
    function: TypeExprView,
)
    requires
        spells_application(tokens, i, k, function),
    ensures
        application(tokens, i).result == application_more(
            tokens,
            k,
            function,
            Miss::none(),
        ).result,
    decreases k - i, 2nat,
{
    if spells_atom(tokens, i, k, function) {
        lemma_type_atom_exact(tokens, i, k, function);
        lemma_atom_begins(tokens, i, k, function);
        lemma_application_more_result(
            tokens,
            k,
            function,
            type_atom(tokens, i).miss,
            Miss::none(),
        );
    } else {
        let head = *function->App_0;
        let argument = *function->App_1;
        let cut = choose|cut: nat|
            i < cut < k && #[trigger] kind_at(tokens, cut) is Some && spells_application(
                tokens,
                i,
                cut,
                head,
            ) && spells_atom(tokens, cut, k, argument);
        lemma_application_reach(tokens, i, cut, head);
        lemma_type_atom_exact(tokens, cut, k, argument);
        lemma_atom_begins(tokens, cut, k, argument);
        assert(TypeExprView::App(Box::new(head), Box::new(argument)) == function);
        lemma_application_more_result(
            tokens,
            k,
            function,
            Miss::none().join(type_atom(tokens, cut).miss),
            Miss::none(),
        );
    }
}

/// The tokens that spell a chain, with nothing behind them that a chain
/// could go on with, are read as that chain.
pub proof fn lemma_chain_exact(
    tokens: Seq<(Token, SourceSpan)>,
    i: nat,
    j: nat,
    tree: TypeExprView,
)
    requires
        spells_chain(tokens, i, j, tree),
        ends_chain(kind_at(tokens, j)),
    ensures
        chain(tokens, i).result == Some((tree, j)),
    decreases j - i, 5nat,
{
    lemma_chain_reach(tokens, i, j, tree);
}

/// Reading a chain gets to every place up to which the tokens spell a
/// chain and at which no atom begins, with that chain read.
pub proof fn lemma_chain_reach(
    tokens: Seq<(Token, SourceSpan)>,
    i: nat,
    k: nat,
    left: TypeExprView,
)
    requires
        spells_chain(tokens, i, k, left),
        !starts_atom(kind_at(tokens, k)),
    ensures
        chain(tokens, i).result == chain_more(tokens, k, left, Miss::none()).result,
    decreases k - i, 4nat,
{
    if spells_application(tokens, i, k, left) {
        lemma_application_exact(tokens, i, k, left);
        lemma_application_begins(tokens, i, k, left);
        lemma_chain_more_result(tokens, k, left, application(tokens, i).miss, Miss::none());
    } else if left is Arrow && exists|cut: nat|
        i < cut < k && #[trigger] kind_at(tokens, cut) == Some(TokenKind::Arrow) && spells_chain(
            tokens,
            i,
            cut,
            *left->Arrow_0,
        ) && spells_application(tokens, cut + 1, k, *left->Arrow_1) {
        let before = *left->Arrow_0;
        let right = *left->Arrow_1;
        let cut = choose|cut: nat|
            i < cut < k && #[trigger] kind_at(tokens, cut) == Some(TokenKind::Arrow)
                && spells_chain(tokens, i, cut, before) && spells_application(
                tokens,
                cut + 1,
                k,
                right,
            );
        lemma_chain_reach(tokens, i, cut, before);
        lemma_application_exact(tokens, cut + 1, k, right);
        lemma_application_begins(tokens, cut + 1, k, right);
        assert(chained(TokenKind::Arrow, before, right) == left);
        lemma_chain_more_result(
            tokens,
            k,
            left,
            Miss::none().join(application(tokens, cut + 1).miss),
            Miss::none(),
        );
    } else {
        let before = type_of(left->Sigma_0);
        let right = *left->Sigma_1;
        let cut = choose|cut: nat|
            i < cut < k && #[trigger] kind_at(tokens, cut) == Some(TokenKind::Product)
                && spells_chain(tokens, i, cut, before) && spells_application(
                tokens,
                cut + 1,
                k,
                right,
            );
        lemma_chain_reach(tokens, i, cut, before);
        lemma_application_exact(tokens, cut + 1, k, right);
        lemma_application_begins(tokens, cut + 1, k, right);
        assert(chained(TokenKind::Product, before, right) == left);
        lemma_chain_more_result(
            tokens,
            k,
            left,
            Miss::none().join(application(tokens, cut + 1).miss),
            Miss::none(),
        );
    }
}

/// The tokens that spell a binder are read as that binder.
pub proof fn lemma_binder_exact(
    tokens: Seq<(Token, SourceSpan)>,
    i: nat,
    j: nat,
    bound: BinderView,
)
    requires
        spells_binder(tokens, i, j, bound),
    ensures
        binder(tokens, i).result == Some((bound, j)),
    decreases j - i, 0nat,
{
    lemma_type_expr_exact(tokens, i + 3, (j - 1) as nat, type_of(bound));
}

/// The tokens that spell a type expression, with nothing behind them
/// that a chain could go on with, are read as that type expression.
pub proof fn lemma_type_expr_exact(
    tokens: Seq<(Token, SourceSpan)>,
    i: nat,
    j: nat,
    tree: TypeExprView,
)
    requires
        spells_type(tokens, i, j, tree),
        ends_chain(kind_at(tokens, j)),
    ensures
        type_expr(tokens, i).result == Some((tree, j)),
    decreases j - i, 6nat,
{
    if tree is Pi && exists|k: nat|
        i < k < j && #[trigger] kind_at(tokens, k) == Some(TokenKind::Arrow) && spells_binder(
            tokens,
            i,
            k,
            tree->Pi_0,
        ) && spells_type(tokens, k + 1, j, *tree->Pi_1) {
        let k = choose|k: nat|
            i < k < j && #[trigger] kind_at(tokens, k) == Some(TokenKind::Arrow) && spells_binder(
                tokens,
                i,
                k,
                tree->Pi_0,
            ) && spells_type(tokens, k + 1, j, *tree->Pi_1);
        lemma_binder_exact(tokens, i, k, tree->Pi_0);
        lemma_type_expr_exact(tokens, k + 1, j, *tree->Pi_1);
    } else if tree is Sigma && exists|k: nat|
        i < k < j && #[trigger] kind_at(tokens, k) == Some(TokenKind::Product) && spells_binder(
            tokens,
            i,
            k,
            tree->Sigma_0,
        ) && spells_type(tokens, k + 1, j, *tree->Sigma_1) {
        let k = choose|k: nat|
            i < k < j && #[trigger] kind_at(tokens, k) == Some(TokenKind::Product)
                && spells_binder(tokens, i, k, tree->Sigma_0) && spells_type(
                tokens,
                k + 1,
                j,
                *tree->Sigma_1,
            );
        lemma_binder_exact(tokens, i, k, tree->Sigma_0);
        lemma_type_expr_exact(tokens, k + 1, j, *tree->Sigma_1);
    } else {
        lemma_chain_begins(tokens, i, j, tree);
        lemma_chain_exact(tokens, i, j, tree);
        assert(binder(tokens, i).result is None);
    }
}

/// Whatever type expression the tokens spell from the first to the last
/// is what the parser reads.
pub proof fn lemma_parsed_exact(tokens: Seq<(Token, SourceSpan)>, tree: TypeExprView)
    requires
        spells_type(tokens, 0, tokens.len(), tree),
    ensures
        parsed(tokens) == Ok::<TypeExprView, Miss>(tree),
{
    lemma_type_expr_exact(tokens, 0, tokens.len(), tree);
}

/// No tokens spell two type expressions.
pub proof fn lemma_unambiguous(
    tokens: Seq<(Token, SourceSpan)>,
    one: TypeExprView,
    other: TypeExprView,
)
    requires
        spells_type(tokens, 0, tokens.len(), one),
        spells_type(tokens, 0, tokens.len(), other),
    ensures
        one == other,
{
    lemma_parsed_exact(tokens, one);
    lemma_parsed_exact(tokens, other);
}

} // verus!
