//! The grammar of type expressions, stated as functions from a sequence of
//! tokens and a place in it to what the parser makes of the tokens from
//! that place on.
//!
//! From the tightest to the loosest: an atom; an application, atoms side
//! by side, nested to the left; a chain of applications joined by arrows
//! and products, nested to the left; a Pi or a Sigma type, a binder in
//! front of an arrow or a product and a type expression. Where several
//! forms are possible the first that fits is taken, and a repetition takes
//! as many items as fit. A repetition goes on only behind an item that
//! took up tokens; the lemmas at the end show that every item does.
//!
//! Next to its result every function gives the farthest place at which a
//! token was asked for and not found, with the kinds asked for there. That
//! is what a failed parse reports.
//!
//! [`crate::syntax::derivation`] says what it is for tokens to spell a
//! type expression, and [`crate::syntax::exact`] shows that these
//! functions read just that.

use vstd::prelude::*;

use crate::syntax::error::{ParseError, ParseErrorKind};
use crate::syntax::kinds::{listed, KIND_COUNT};
use crate::syntax::text::{number_value, unquoted, utf8_lossy};
use crate::syntax::token::{Token, TokenKind};
use crate::syntax::tree::{BinderView, TypeExprView};
use crate::syntax::SourceSpan;

verus! {

/// The farthest place at which the parser asked for a token in vain, and
/// the kinds it asked for there.
pub struct Miss {
    pub at: nat,
    pub expected: Set<TokenKind>,
}

impl Miss {
    /// No token was asked for in vain.
    pub open spec fn none() -> Miss {
        Miss { at: 0, expected: Set::empty() }
    }

    /// A token of kind `kind` was asked for at `at`.
    pub open spec fn one(at: nat, kind: TokenKind) -> Miss {
        Miss { at, expected: Set::empty().insert(kind) }
    }

    /// Of two misses the farther one; at the same place, the kinds of both.
    pub open spec fn join(self, other: Miss) -> Miss {
        if self.at > other.at {
            self
        } else if other.at > self.at {
            other
        } else {
            Miss { at: self.at, expected: self.expected.union(other.expected) }
        }
    }

    /// Some kind was asked for.
    pub open spec fn asked(self) -> bool {
        exists|kind: TokenKind| self.expected.contains(kind)
    }

    /// No kind that was asked for is the kind of the token at the place of
    /// the miss. The kind `EndOfFile` is left aside: it is also asked for
    /// where the input should end.
    pub open spec fn honest(self, tokens: Seq<(Token, SourceSpan)>) -> bool {
        forall|kind: TokenKind|
            self.expected.contains(kind) && kind != TokenKind::EndOfFile ==> kind_at(
                tokens,
                self.at,
            ) != Some(kind)
    }

    /// The miss lies at one of the tokens or at the end of the input,
    /// unless it lies at the first token some kind was asked for, and it
    /// is honest.
    pub open spec fn bounded(self, tokens: Seq<(Token, SourceSpan)>) -> bool {
        self.at <= tokens.len() && (self.at > 0 ==> self.asked()) && self.honest(tokens)
    }

    /// A join of misses within bounds is within bounds, and asks for
    /// something where either side does.
    pub proof fn lemma_join(self, other: Miss, tokens: Seq<(Token, SourceSpan)>)
        requires
            self.bounded(tokens),
            other.bounded(tokens),
        ensures
            self.join(other).bounded(tokens),
            self.asked() || other.asked() ==> self.join(other).asked(),
    {
        if self.at == other.at {
            if self.asked() {
                let kind = choose|kind: TokenKind| self.expected.contains(kind);
                assert(self.join(other).expected.contains(kind));
            }
            if other.asked() {
                let kind = choose|kind: TokenKind| other.expected.contains(kind);
                assert(self.join(other).expected.contains(kind));
            }
        }
    }

    /// A miss of one kind asks for that kind.
    pub proof fn lemma_one(at: nat, kind: TokenKind)
        ensures
            Miss::one(at, kind).asked(),
    {
        assert(Miss::one(at, kind).expected.contains(kind));
    }

}

/// What a grammar function makes of the tokens from some place on: the
/// value it read with the place behind it, or nothing; and the farthest
/// miss on the way.
pub struct Outcome<T> {
    pub result: Option<(T, nat)>,
    pub miss: Miss,
}

impl<T> Outcome<T> {
    /// The value `value` was read, up to place `end`.
    pub open spec fn ok(value: T, end: nat, miss: Miss) -> Outcome<T> {
        Outcome { result: Some((value, end)), miss }
    }

    /// Nothing was read.
    pub open spec fn fail(miss: Miss) -> Outcome<T> {
        Outcome { result: None, miss }
    }

    /// This outcome, with the misses that came before it.
    pub open spec fn after(self, miss: Miss) -> Outcome<T> {
        Outcome { result: self.result, miss: miss.join(self.miss) }
    }
}

/// The three ways in which a Pi or a Sigma type binds its variable.
#[derive(Clone, Copy, Debug, PartialEq, Eq, Structural)]
pub enum BinderMode {
    Explicit,
    Implicit,
    Instance,
}

/// The mode of the binder that a token of kind `kind` opens.
pub open spec fn opened_by(kind: Option<TokenKind>) -> Option<BinderMode> {
    match kind {
        Some(TokenKind::LParen) => Some(BinderMode::Explicit),
        Some(TokenKind::LBrace) => Some(BinderMode::Implicit),
        Some(TokenKind::LBracket) => Some(BinderMode::Instance),
        _ => None,
    }
}

/// The kind of token that closes a binder of mode `mode`.
pub open spec fn closing(mode: BinderMode) -> TokenKind {
    match mode {
        BinderMode::Explicit => TokenKind::RParen,
        BinderMode::Implicit => TokenKind::RBrace,
        BinderMode::Instance => TokenKind::RBracket,
    }
}

/// The binder of mode `mode` that gives `name` the type `ty`.
pub open spec fn bind(mode: BinderMode, name: Seq<char>, ty: TypeExprView) -> BinderView {
    match mode {
        BinderMode::Explicit => BinderView::Explicit(name, Box::new(ty)),
        BinderMode::Implicit => BinderView::Implicit(name, Box::new(ty)),
        BinderMode::Instance => BinderView::Instance(name, Box::new(ty)),
    }
}

/// The kind of the token at place `i`, or `None` behind the last token.
pub open spec fn kind_at(tokens: Seq<(Token, SourceSpan)>, i: nat) -> Option<TokenKind> {
    if i < tokens.len() {
        Some(tokens[i as int].0.kind)
    } else {
        None
    }
}

/// The bytes of the token at place `i`.
pub open spec fn lexeme_at(tokens: Seq<(Token, SourceSpan)>, i: nat) -> Seq<u8> {
    tokens[i as int].0.lexeme@
}

/// The kinds of token with which an atom can begin.
pub open spec fn atom_starts() -> Set<TokenKind> {
    Set::empty().insert(TokenKind::LowerIdentifier).insert(TokenKind::UpperIdentifier).insert(
        TokenKind::Number,
    ).insert(TokenKind::String).insert(TokenKind::LParen)
}

/// The kinds of token with which a binder can begin.
pub open spec fn binder_starts() -> Set<TokenKind> {
    Set::empty().insert(TokenKind::LParen).insert(TokenKind::LBrace).insert(TokenKind::LBracket)
}

/// An atom was asked for at `at`.
pub open spec fn atom_miss(at: nat) -> Miss {
    Miss { at, expected: atom_starts() }
}

/// A binder was asked for at `at`.
pub open spec fn binder_miss(at: nat) -> Miss {
    Miss { at, expected: binder_starts() }
}

/// What a list in parentheses stands for: the item itself where there is
/// one, a tuple of the items where there are none or several.
pub open spec fn grouped(items: Seq<TypeExprView>) -> TypeExprView {
    if items.len() == 1 {
        items[0]
    } else {
        TypeExprView::Tuple(items)
    }
}

/// What `operator` makes of its two sides in a chain: an arrow type, or
/// the pair type that a Sigma with the nameless binder `_` stands for.
pub open spec fn chained(
    operator: TokenKind,
    left: TypeExprView,
    right: TypeExprView,
) -> TypeExprView {
    if operator == TokenKind::Arrow {
        TypeExprView::Arrow(Box::new(left), Box::new(right))
    } else {
        TypeExprView::Sigma(BinderView::Explicit(seq!['_'], Box::new(left)), Box::new(right))
    }
}

/// What `operator` makes of a binder and a body: a Pi type for an arrow, a
/// Sigma type for a product.
pub open spec fn quantified(
    operator: TokenKind,
    binder: BinderView,
    body: TypeExprView,
) -> TypeExprView {
    if operator == TokenKind::Arrow {
        TypeExprView::Pi(binder, Box::new(body))
    } else {
        TypeExprView::Sigma(binder, Box::new(body))
    }
}

/// An atom: a name, a number, a string, or a list of type expressions in
/// parentheses.
pub open spec fn type_atom(tokens: Seq<(Token, SourceSpan)>, i: nat) -> Outcome<TypeExprView>
    decreases tokens.len() - i, 0nat,
{
    match kind_at(tokens, i) {
        Some(TokenKind::LowerIdentifier) => Outcome::ok(
            TypeExprView::Var(utf8_lossy(lexeme_at(tokens, i))),
            i + 1,
            Miss::none(),
        ),
        Some(TokenKind::UpperIdentifier) => Outcome::ok(
            TypeExprView::Constructor(utf8_lossy(lexeme_at(tokens, i))),
            i + 1,
            Miss::none(),
        ),
        Some(TokenKind::Number) => Outcome::ok(
            TypeExprView::Nat(number_value(lexeme_at(tokens, i))),
            i + 1,
            Miss::none(),
        ),
        Some(TokenKind::String) => Outcome::ok(
            TypeExprView::String(utf8_lossy(unquoted(lexeme_at(tokens, i)))),
            i + 1,
            Miss::none(),
        ),
        Some(TokenKind::LParen) => {
            let list = items(tokens, i + 1);
            match list.result {
                Some((elements, end)) => if kind_at(tokens, end) == Some(TokenKind::RParen) {
                    Outcome::ok(grouped(elements), end + 1, list.miss)
                } else {
                    Outcome::fail(list.miss.join(Miss::one(end, TokenKind::RParen)))
                },
                None => Outcome::fail(list.miss),
            }
        },
        _ => Outcome::fail(atom_miss(i)),
    }
}

/// Type expressions separated by commas, as many as there are, none
/// included. Always succeeds.
pub open spec fn items(tokens: Seq<(Token, SourceSpan)>, i: nat) -> Outcome<Seq<TypeExprView>>
    decreases tokens.len() - i, 4nat,
{
    let first = type_expr(tokens, i);
    match first.result {
        Some((item, end)) => if i < end <= tokens.len() {
            items_more(tokens, end, seq![item], first.miss)
        } else {
            Outcome::ok(Seq::empty(), i, first.miss)
        },
        None => Outcome::ok(Seq::empty(), i, first.miss),
    }
}

/// The rest of a list whose items so far are `so_far`: a comma and one
/// more item, as often as both are there.
pub open spec fn items_more(
    tokens: Seq<(Token, SourceSpan)>,
    j: nat,
    so_far: Seq<TypeExprView>,
    miss: Miss,
) -> Outcome<Seq<TypeExprView>>
    decreases tokens.len() - j, 4nat,
{
    if kind_at(tokens, j) == Some(TokenKind::Comma) {
        let next = type_expr(tokens, j + 1);
        match next.result {
            Some((item, end)) => if j < end <= tokens.len() {
                items_more(tokens, end, so_far.push(item), miss.join(next.miss))
            } else {
                Outcome::ok(so_far, j, miss.join(next.miss))
            },
            None => Outcome::ok(so_far, j, miss.join(next.miss)),
        }
    } else {
        Outcome::ok(so_far, j, miss.join(Miss::one(j, TokenKind::Comma)))
    }
}

/// An application: one atom, applied to the atoms that follow it, one
/// after the other.
pub open spec fn application(tokens: Seq<(Token, SourceSpan)>, i: nat) -> Outcome<TypeExprView>
    decreases tokens.len() - i, 1nat,
{
    let head = type_atom(tokens, i);
    match head.result {
        Some((function, end)) => if i < end <= tokens.len() {
            application_more(tokens, end, function, head.miss)
        } else {
            Outcome::fail(head.miss)
        },
        None => Outcome::fail(head.miss),
    }
}

/// The rest of an application whose atoms so far make up `function`.
pub open spec fn application_more(
    tokens: Seq<(Token, SourceSpan)>,
    j: nat,
    function: TypeExprView,
    miss: Miss,
) -> Outcome<TypeExprView>
    decreases tokens.len() - j, 1nat,
{
    let next = type_atom(tokens, j);
    match next.result {
        Some((argument, end)) => if j < end <= tokens.len() {
            application_more(
                tokens,
                end,
                TypeExprView::App(Box::new(function), Box::new(argument)),
                miss.join(next.miss),
            )
        } else {
            Outcome::ok(function, j, miss.join(next.miss))
        },
        None => Outcome::ok(function, j, miss.join(next.miss)),
    }
}

/// A chain: one application, joined to the applications that follow it by
/// arrows and products, one after the other.
pub open spec fn chain(tokens: Seq<(Token, SourceSpan)>, i: nat) -> Outcome<TypeExprView>
    decreases tokens.len() - i, 2nat,
{
    let head = application(tokens, i);
    match head.result {
        Some((left, end)) => if i < end <= tokens.len() {
            chain_more(tokens, end, left, head.miss)
        } else {
            Outcome::fail(head.miss)
        },
        None => Outcome::fail(head.miss),
    }
}

/// The rest of a chain whose applications so far make up `left`.
pub open spec fn chain_more(
    tokens: Seq<(Token, SourceSpan)>,
    j: nat,
    left: TypeExprView,
    miss: Miss,
) -> Outcome<TypeExprView>
    decreases tokens.len() - j, 2nat,
{
    match kind_at(tokens, j) {
        Some(operator) => if operator == TokenKind::Arrow || operator == TokenKind::Product {
            let next = application(tokens, j + 1);
            match next.result {
                Some((right, end)) => if j < end <= tokens.len() {
                    chain_more(tokens, end, chained(operator, left, right), miss.join(next.miss))
                } else {
                    Outcome::ok(left, j, miss.join(next.miss))
                },
                None => Outcome::ok(left, j, miss.join(next.miss)),
            }
        } else {
            Outcome::ok(left, j, miss.join(operator_miss(j)))
        },
        None => Outcome::ok(left, j, miss.join(operator_miss(j))),
    }
}

/// An arrow or a product was asked for at `j`.
pub open spec fn operator_miss(j: nat) -> Miss {
    Miss { at: j, expected: Set::empty().insert(TokenKind::Arrow).insert(TokenKind::Product) }
}

/// A binder: a lower-case name, a colon and a type expression, between
/// parentheses, braces or brackets.
pub open spec fn binder(tokens: Seq<(Token, SourceSpan)>, i: nat) -> Outcome<BinderView>
    decreases tokens.len() - i, 0nat,
{
    match opened_by(kind_at(tokens, i)) {
        None => Outcome::fail(binder_miss(i)),
        Some(mode) => if kind_at(tokens, i + 1) != Some(TokenKind::LowerIdentifier) {
            Outcome::fail(Miss::one(i + 1, TokenKind::LowerIdentifier))
        } else if kind_at(tokens, i + 2) != Some(TokenKind::Colon) {
            Outcome::fail(Miss::one(i + 2, TokenKind::Colon))
        } else {
            let ty = type_expr(tokens, i + 3);
            match ty.result {
                Some((bound, end)) => if kind_at(tokens, end) == Some(closing(mode)) {
                    Outcome::ok(
                        bind(mode, utf8_lossy(lexeme_at(tokens, i + 1)), bound),
                        end + 1,
                        ty.miss,
                    )
                } else {
                    Outcome::fail(ty.miss.join(Miss::one(end, closing(mode))))
                },
                None => Outcome::fail(ty.miss),
            }
        },
    }
}

/// A binder, the operator `operator`, and a type expression: a Pi type
/// where the operator is an arrow, a Sigma type where it is a product.
pub open spec fn quantifier(
    tokens: Seq<(Token, SourceSpan)>,
    i: nat,
    operator: TokenKind,
) -> Outcome<TypeExprView>
    decreases tokens.len() - i, 1nat,
{
    let head = binder(tokens, i);
    match head.result {
        Some((bound, end)) => if kind_at(tokens, end) != Some(operator) {
            Outcome::fail(head.miss.join(Miss::one(end, operator)))
        } else if i <= end {
            let body = type_expr(tokens, end + 1);
            match body.result {
                Some((inner, stop)) => Outcome::ok(
                    quantified(operator, bound, inner),
                    stop,
                    head.miss.join(body.miss),
                ),
                None => Outcome::fail(head.miss.join(body.miss)),
            }
        } else {
            Outcome::fail(head.miss)
        },
        None => Outcome::fail(head.miss),
    }
}

/// A type expression: a Pi type, or else a Sigma type, or else a chain.
pub open spec fn type_expr(tokens: Seq<(Token, SourceSpan)>, i: nat) -> Outcome<TypeExprView>
    decreases tokens.len() - i, 3nat,
{
    let pi = quantifier(tokens, i, TokenKind::Arrow);
    if pi.result is Some {
        pi
    } else {
        let sigma = quantifier(tokens, i, TokenKind::Product);
        if sigma.result is Some {
            sigma.after(pi.miss)
        } else {
            chain(tokens, i).after(pi.miss.join(sigma.miss))
        }
    }
}

/// Joins keep misses within bounds, and every miss that the grammar
/// records asks for some kind.
pub proof fn lemma_misses(tokens: Seq<(Token, SourceSpan)>)
    ensures
        forall|a: Miss, b: Miss|
            #![trigger a.join(b)]
            a.bounded(tokens) && b.bounded(tokens) ==> a.join(b).bounded(tokens) && (a.asked()
                || b.asked() ==> a.join(b).asked()),
        forall|at: nat, kind: TokenKind|
            #![trigger Miss::one(at, kind)]
            Miss::one(at, kind).asked(),
        forall|at: nat| (#[trigger] atom_miss(at)).asked(),
        forall|at: nat| (#[trigger] binder_miss(at)).asked(),
        forall|at: nat| (#[trigger] operator_miss(at)).asked(),
        Miss::none().bounded(tokens),
{
    assert forall|a: Miss, b: Miss|
        #![trigger a.join(b)]
        a.bounded(tokens) && b.bounded(tokens) implies a.join(b).bounded(tokens) && (a.asked()
        || b.asked() ==> a.join(b).asked()) by {
        a.lemma_join(b, tokens);
    }
    assert forall|at: nat, kind: TokenKind| #![trigger Miss::one(at, kind)]
        Miss::one(at, kind).asked() by {
        Miss::lemma_one(at, kind);
    }
    assert forall|at: nat| (#[trigger] atom_miss(at)).asked() by {
        assert(atom_miss(at).expected.contains(TokenKind::LParen));
    }
    assert forall|at: nat| (#[trigger] binder_miss(at)).asked() by {
        assert(binder_miss(at).expected.contains(TokenKind::LParen));
    }
    assert forall|at: nat| (#[trigger] operator_miss(at)).asked() by {
        assert(operator_miss(at).expected.contains(TokenKind::Arrow));
    }
}

/// The outcome of parsing from place `i` stays inside the tokens: a value
/// takes up at least one token and ends at or before the last, and no
/// token is missed behind the end of the input.
pub open spec fn within<T>(
    outcome: Outcome<T>,
    tokens: Seq<(Token, SourceSpan)>,
    i: nat,
) -> bool {
    &&& outcome.miss.bounded(tokens)
    &&& outcome.result is None ==> outcome.miss.asked()
    &&& outcome.result matches Some((_, end)) ==> i < end <= tokens.len()
}

/// The outcome of a repetition that stands at place `j` stays inside the
/// tokens: it has a value, which ends at `j` or behind it.
pub open spec fn goes_on<T>(
    outcome: Outcome<T>,
    tokens: Seq<(Token, SourceSpan)>,
    j: nat,
) -> bool {
    &&& outcome.miss.bounded(tokens)
    &&& outcome.result matches Some((_, end)) && j <= end <= tokens.len()
}

/// An atom takes up at least one token and stays inside the input.
pub proof fn lemma_type_atom_within(tokens: Seq<(Token, SourceSpan)>, i: nat)
    requires
        i <= tokens.len(),
    ensures
        within(type_atom(tokens, i), tokens, i),
    decreases tokens.len() - i, 0nat,
{
    lemma_misses(tokens);
    if kind_at(tokens, i) == Some(TokenKind::LParen) {
        lemma_items_within(tokens, i + 1);
    }
}

/// A list in parentheses may be empty, and stays inside the input.
pub proof fn lemma_items_within(tokens: Seq<(Token, SourceSpan)>, i: nat)
    requires
        i <= tokens.len(),
    ensures
        goes_on(items(tokens, i), tokens, i),
    decreases tokens.len() - i, 4nat,
{
    lemma_misses(tokens);
    lemma_type_expr_within(tokens, i);
    let first = type_expr(tokens, i);
    match first.result {
        Some((item, end)) => {
            lemma_items_more_within(tokens, end, seq![item], first.miss);
        },
        None => {},
    }
}

/// The rest of a list stays inside the input.
pub proof fn lemma_items_more_within(
    tokens: Seq<(Token, SourceSpan)>,
    j: nat,
    so_far: Seq<TypeExprView>,
    miss: Miss,
)
    requires
        j <= tokens.len(),
        miss.bounded(tokens),
    ensures
        goes_on(items_more(tokens, j, so_far, miss), tokens, j),
    decreases tokens.len() - j, 4nat,
{
    lemma_misses(tokens);
    if kind_at(tokens, j) == Some(TokenKind::Comma) {
        lemma_type_expr_within(tokens, j + 1);
        let next = type_expr(tokens, j + 1);
        match next.result {
            Some((item, end)) => {
                lemma_items_more_within(tokens, end, so_far.push(item), miss.join(next.miss));
            },
            None => {},
        }
    }
}

/// An application takes up at least one token and stays inside the input.
pub proof fn lemma_application_within(tokens: Seq<(Token, SourceSpan)>, i: nat)
    requires
        i <= tokens.len(),
    ensures
        within(application(tokens, i), tokens, i),
    decreases tokens.len() - i, 1nat,
{
    lemma_misses(tokens);
    lemma_type_atom_within(tokens, i);
    let head = type_atom(tokens, i);
    match head.result {
        Some((function, end)) => {
            lemma_application_more_within(tokens, end, function, head.miss);
        },
        None => {},
    }
}

/// The rest of an application stays inside the input.
pub proof fn lemma_application_more_within(
    tokens: Seq<(Token, SourceSpan)>,
    j: nat,
    function: TypeExprView,
    miss: Miss,
)
    requires
        j <= tokens.len(),
        miss.bounded(tokens),
    ensures
        goes_on(application_more(tokens, j, function, miss), tokens, j),
    decreases tokens.len() - j, 1nat,
{
    lemma_misses(tokens);
    lemma_type_atom_within(tokens, j);
    let next = type_atom(tokens, j);
    match next.result {
        Some((argument, end)) => {
            lemma_application_more_within(
                tokens,
                end,
                TypeExprView::App(Box::new(function), Box::new(argument)),
                miss.join(next.miss),
            );
        },
        None => {},
    }
}

/// A chain takes up at least one token and stays inside the input.
pub proof fn lemma_chain_within(tokens: Seq<(Token, SourceSpan)>, i: nat)
    requires
        i <= tokens.len(),
    ensures
        within(chain(tokens, i), tokens, i),
    decreases tokens.len() - i, 2nat,
{
    lemma_misses(tokens);
    lemma_application_within(tokens, i);
    let head = application(tokens, i);
    match head.result {
        Some((left, end)) => {
            lemma_chain_more_within(tokens, end, left, head.miss);
        },
        None => {},
    }
}

/// The rest of a chain stays inside the input.
pub proof fn lemma_chain_more_within(
    tokens: Seq<(Token, SourceSpan)>,
    j: nat,
    left: TypeExprView,
    miss: Miss,
)
    requires
        j <= tokens.len(),
        miss.bounded(tokens),
    ensures
        goes_on(chain_more(tokens, j, left, miss), tokens, j),
    decreases tokens.len() - j, 2nat,
{
    lemma_misses(tokens);
    match kind_at(tokens, j) {
        Some(operator) => {
            if operator == TokenKind::Arrow || operator == TokenKind::Product {
                lemma_application_within(tokens, j + 1);
                let next = application(tokens, j + 1);
                match next.result {
                    Some((right, end)) => {
                        lemma_chain_more_within(
                            tokens,
                            end,
                            chained(operator, left, right),
                            miss.join(next.miss),
                        );
                    },
                    None => {},
                }
            }
        },
        None => {},
    }
}

/// A binder takes up at least one token and stays inside the input.
pub proof fn lemma_binder_within(tokens: Seq<(Token, SourceSpan)>, i: nat)
    requires
        i <= tokens.len(),
    ensures
        within(binder(tokens, i), tokens, i),
    decreases tokens.len() - i, 0nat,
{
    lemma_misses(tokens);
    if opened_by(kind_at(tokens, i)) is Some && kind_at(tokens, i + 1) == Some(
        TokenKind::LowerIdentifier,
    ) && kind_at(tokens, i + 2) == Some(TokenKind::Colon) {
        lemma_type_expr_within(tokens, i + 3);
    }
}

/// A Pi or Sigma type takes up at least one token and stays inside the
/// input.
pub proof fn lemma_quantifier_within(
    tokens: Seq<(Token, SourceSpan)>,
    i: nat,
    operator: TokenKind,
)
    requires
        i <= tokens.len(),
    ensures
        within(quantifier(tokens, i, operator), tokens, i),
    decreases tokens.len() - i, 1nat,
{
    lemma_misses(tokens);
    lemma_binder_within(tokens, i);
    let head = binder(tokens, i);
    match head.result {
        Some((bound, end)) => {
            if kind_at(tokens, end) == Some(operator) {
                lemma_type_expr_within(tokens, end + 1);
            }
        },
        None => {},
    }
}

/// A type expression takes up at least one token and stays inside the
/// input.
pub proof fn lemma_type_expr_within(tokens: Seq<(Token, SourceSpan)>, i: nat)
    requires
        i <= tokens.len(),
    ensures
        within(type_expr(tokens, i), tokens, i),
    decreases tokens.len() - i, 3nat,
{
    lemma_misses(tokens);
    lemma_quantifier_within(tokens, i, TokenKind::Arrow);
    lemma_quantifier_within(tokens, i, TokenKind::Product);
    lemma_chain_within(tokens, i);
}

/// Where the tokens spell no type expression, the miss that is reported
/// lies at a token or at the end of the input, it names at least one kind
/// that was asked for there, and the token found there is of none of
/// those kinds.
pub proof fn lemma_parsed_miss(tokens: Seq<(Token, SourceSpan)>)
    ensures
        parsed(tokens) matches Err(miss) ==> miss.at <= tokens.len() && miss.asked()
            && miss.honest(tokens),
{
    lemma_misses(tokens);
    lemma_type_expr_within(tokens, 0);
}

/// What the parser makes of the whole of `tokens`: the tree of the type
/// expression that they spell from the first to the last, or else the
/// farthest miss. Where a type expression ends before the tokens do, the
/// end of the input was asked for in vain; the kind `EndOfFile` stands for
/// it.
pub open spec fn parsed(tokens: Seq<(Token, SourceSpan)>) -> Result<TypeExprView, Miss> {
    let whole = type_expr(tokens, 0);
    match whole.result {
        Some((tree, end)) => if end == tokens.len() {
            Ok(tree)
        } else {
            Err(whole.miss.join(Miss::one(end, TokenKind::EndOfFile)))
        },
        None => Err(whole.miss),
    }
}

/// `error` reports the miss `miss` in `tokens`: the token found there and
/// its span, or none and the span `eoi_span` behind the last token, and
/// the kinds asked for, each once, in the order of their declaration.
pub open spec fn reports(
    error: ParseError,
    tokens: Seq<(Token, SourceSpan)>,
    eoi_span: SourceSpan,
    miss: Miss,
) -> bool {
    &&& error.found == kind_at(tokens, miss.at)
    &&& error.kind == if miss.at < tokens.len() {
        ParseErrorKind::UnexpectedToken
    } else {
        ParseErrorKind::UnexpectedEndOfInput
    }
    &&& error.span == if miss.at < tokens.len() {
        tokens[miss.at as int].1
    } else {
        eoi_span
    }
    &&& error.expected@ == listed(miss.expected, KIND_COUNT as nat)
}

} // verus!
