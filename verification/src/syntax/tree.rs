//! The surface syntax tree: type expressions with their binders, and
//! expressions indexed by the phase that produced them.

use vstd::prelude::*;

verus! {

/// A stage of the front end. It fixes what every expression node and
/// every type position is annotated with, so that a tree of one phase
/// cannot be passed where another is expected.
pub trait Phase: core::fmt::Debug + Clone + PartialEq + Eq {
    type ExprAnn: core::fmt::Debug + Clone + PartialEq + Eq;

    type TyAnn: core::fmt::Debug + Clone + PartialEq + Eq;
}

/// The annotation of a phase that records nothing.
#[derive(Debug, Clone, Copy, PartialEq, Eq)]
pub struct NoAnn;

/// The phase of a tree as the parser built it.
#[derive(Debug, Clone, PartialEq, Eq)]
pub struct Parsed;

/// The phase of a tree whose names are resolved and whose types are known.
#[derive(Debug, Clone, PartialEq, Eq)]
pub struct Typed;

impl Phase for Parsed {
    type ExprAnn = NoAnn;

    type TyAnn = NoAnn;
}

impl Phase for Typed {
    type ExprAnn = NoAnn;

    type TyAnn = NoAnn;
}

/// An expression of the surface language, with the annotation of its
/// phase.
#[derive(Debug, PartialEq, Eq)]
pub struct Expr<P: Phase> {
    pub ann: P::ExprAnn,
    pub kind: ExprKind<P>,
}

/// What an expression is: the root of a file, a definition, a variable
/// or an application.
#[derive(Debug, PartialEq, Eq)]
pub enum ExprKind<P: Phase> {
    Root(Vec<Expr<P>>),
    Def { name: String, binders: Vec<Binder>, return_type: TypeExpr },
    Var(String),
    App(Box<Expr<P>>, Box<Expr<P>>),
}

/// A literal of the surface language.
#[derive(Debug, Clone, PartialEq, Eq)]
pub enum Literal {
    Nat(u64),
    String(String),
}

/// A type expression of the surface language. Every node owns its
/// children.
#[derive(Debug, PartialEq, Eq)]
pub enum TypeExpr {
    Var(String),
    Constructor(String),
    App(Box<TypeExpr>, Box<TypeExpr>),
    Arrow(Box<TypeExpr>, Box<TypeExpr>),
    Tuple(Vec<TypeExpr>),
    List(Box<TypeExpr>),
    Pi(Binder, Box<TypeExpr>),
    Sigma(Binder, Box<TypeExpr>),
    Nat(u64),
    String(String),
}

/// A variable bound by a Pi or Sigma type, with the mode in which its
/// argument is passed.
#[derive(Debug, PartialEq, Eq)]
pub enum Binder {
    Explicit(String, Box<TypeExpr>),
    Implicit(String, Box<TypeExpr>),
    Instance(String, Box<TypeExpr>),
}

/// Mathematical model of a [`TypeExpr`].
pub enum TypeExprView {
    Var(Seq<char>),
    Constructor(Seq<char>),
    App(Box<TypeExprView>, Box<TypeExprView>),
    Arrow(Box<TypeExprView>, Box<TypeExprView>),
    Tuple(Seq<TypeExprView>),
    List(Box<TypeExprView>),
    Pi(BinderView, Box<TypeExprView>),
    Sigma(BinderView, Box<TypeExprView>),
    Nat(nat),
    String(Seq<char>),
}

/// Mathematical model of a [`Binder`].
pub enum BinderView {
    Explicit(Seq<char>, Box<TypeExprView>),
    Implicit(Seq<char>, Box<TypeExprView>),
    Instance(Seq<char>, Box<TypeExprView>),
}

impl TypeExpr {
    /// The tree that this expression stands for.
    pub open spec fn model(&self) -> TypeExprView
        decreases self,
    {
        match self {
            TypeExpr::Var(name) => TypeExprView::Var(name@),
            TypeExpr::Constructor(name) => TypeExprView::Constructor(name@),
            TypeExpr::App(function, argument) => TypeExprView::App(
                Box::new(function.model()),
                Box::new(argument.model()),
            ),
            TypeExpr::Arrow(domain, codomain) => TypeExprView::Arrow(
                Box::new(domain.model()),
                Box::new(codomain.model()),
            ),
            TypeExpr::Tuple(items) => TypeExprView::Tuple(
                Seq::new(
                    items@.len(),
                    |i: int|
                        if 0 <= i < items@.len() {
                            items@[i].model()
                        } else {
                            arbitrary()
                        },
                ),
            ),
            TypeExpr::List(element) => TypeExprView::List(Box::new(element.model())),
            TypeExpr::Pi(binder, body) => TypeExprView::Pi(binder.model(), Box::new(body.model())),
            TypeExpr::Sigma(binder, body) => TypeExprView::Sigma(
                binder.model(),
                Box::new(body.model()),
            ),
            TypeExpr::Nat(value) => TypeExprView::Nat(*value as nat),
            TypeExpr::String(text) => TypeExprView::String(text@),
        }
    }
}

impl Binder {
    /// The binder that this value stands for.
    pub open spec fn model(&self) -> BinderView
        decreases self,
    {
        match self {
            Binder::Explicit(name, ty) => BinderView::Explicit(name@, Box::new(ty.model())),
            Binder::Implicit(name, ty) => BinderView::Implicit(name@, Box::new(ty.model())),
            Binder::Instance(name, ty) => BinderView::Instance(name@, Box::new(ty.model())),
        }
    }
}

impl TypeExpr {
    /// A copy of this tree, node by node.
    pub fn duplicate(&self) -> (copy: TypeExpr)
        ensures
            copy@ == self@,
        decreases self,
    {
        match self {
            TypeExpr::Var(name) => TypeExpr::Var(name.clone()),
            TypeExpr::Constructor(name) => TypeExpr::Constructor(name.clone()),
            TypeExpr::App(function, argument) => TypeExpr::App(
                Box::new(function.duplicate()),
                Box::new(argument.duplicate()),
            ),
            TypeExpr::Arrow(domain, codomain) => TypeExpr::Arrow(
                Box::new(domain.duplicate()),
                Box::new(codomain.duplicate()),
            ),
            TypeExpr::Tuple(items) => {
                let mut copies: Vec<TypeExpr> = Vec::new();
                let mut i: usize = 0;
                while i < items.len()
                    invariant
                        i <= items@.len(),
                        copies@.len() == i,
                        self is Tuple,
                        self->Tuple_0 == *items,
                        forall|k: int|
                            0 <= k < i ==> (#[trigger] copies@[k]).model() == items@[k].model(),
                    decreases items@.len() - i,
                {
                    proof {
                        vstd::std_specs::vec::axiom_vec_index_decreases(*items, i as int);
                    }
                    copies.push(items[i].duplicate());
                    i += 1;
                }
                let copy = TypeExpr::Tuple(copies);
                assert(copy@->Tuple_0 =~= self@->Tuple_0);
                copy
            },
            TypeExpr::List(element) => TypeExpr::List(Box::new(element.duplicate())),
            TypeExpr::Pi(binder, body) => TypeExpr::Pi(
                binder.duplicate(),
                Box::new(body.duplicate()),
            ),
            TypeExpr::Sigma(binder, body) => TypeExpr::Sigma(
                binder.duplicate(),
                Box::new(body.duplicate()),
            ),
            TypeExpr::Nat(value) => TypeExpr::Nat(*value),
            TypeExpr::String(text) => TypeExpr::String(text.clone()),
        }
    }
}

impl Binder {
    /// A copy of this binder and of the type it carries.
    pub fn duplicate(&self) -> (copy: Binder)
        ensures
            copy@ == self@,
        decreases self,
    {
        match self {
            Binder::Explicit(name, ty) => Binder::Explicit(name.clone(), Box::new(ty.duplicate())),
            Binder::Implicit(name, ty) => Binder::Implicit(name.clone(), Box::new(ty.duplicate())),
            Binder::Instance(name, ty) => Binder::Instance(name.clone(), Box::new(ty.duplicate())),
        }
    }
}

impl Clone for TypeExpr {
    fn clone(&self) -> (copy: Self)
        ensures
            copy@ == self@,
    {
        self.duplicate()
    }
}

impl Clone for Binder {
    fn clone(&self) -> (copy: Self)
        ensures
            copy@ == self@,
    {
        self.duplicate()
    }
}

/// The shape of an [`Expr`]: the tree without its annotations.
pub enum ExprShape {
    Root(Seq<ExprShape>),
    Def { name: Seq<char>, binders: Seq<BinderView>, return_type: TypeExprView },
    Var(Seq<char>),
    App(Box<ExprShape>, Box<ExprShape>),
}

impl<P: Phase> Expr<P> {
    /// The tree without its annotations.
    pub open spec fn shape(&self) -> ExprShape
        decreases self,
    {
        self.kind.shape()
    }

    /// A copy of this tree, node by node; each annotation is copied by
    /// its own `clone`.
    pub fn duplicate(&self) -> (copy: Expr<P>)
        ensures
            copy.shape() == self.shape(),
        decreases self,
    {
        Expr { ann: self.ann.clone(), kind: self.kind.duplicate() }
    }
}

impl<P: Phase> ExprKind<P> {
    /// The node and what is below it, without annotations.
    pub open spec fn shape(&self) -> ExprShape
        decreases self,
    {
        match self {
            ExprKind::Root(items) => ExprShape::Root(
                Seq::new(
                    items@.len(),
                    |i: int|
                        if 0 <= i < items@.len() {
                            items@[i].shape()
                        } else {
                            arbitrary()
                        },
                ),
            ),
            ExprKind::Def { name, binders, return_type } => ExprShape::Def {
                name: name@,
                binders: Seq::new(binders@.len(), |i: int| binders@[i].model()),
                return_type: return_type.model(),
            },
            ExprKind::Var(name) => ExprShape::Var(name@),
            ExprKind::App(function, argument) => ExprShape::App(
                Box::new(function.shape()),
                Box::new(argument.shape()),
            ),
        }
    }

    /// A copy of this node and of what is below it.
    pub fn duplicate(&self) -> (copy: ExprKind<P>)
        ensures
            copy.shape() == self.shape(),
        decreases self,
    {
        match self {
            ExprKind::Root(items) => {
                let mut copies: Vec<Expr<P>> = Vec::new();
                let mut i: usize = 0;
                while i < items.len()
                    invariant
                        i <= items@.len(),
                        copies@.len() == i,
                        self is Root,
                        self->Root_0 == *items,
                        forall|k: int|
                            0 <= k < i ==> (#[trigger] copies@[k]).shape() == items@[k].shape(),
                    decreases items@.len() - i,
                {
                    proof {
                        vstd::std_specs::vec::axiom_vec_index_decreases(*items, i as int);
                    }
                    copies.push(items[i].duplicate());
                    i += 1;
                }
                let copy = ExprKind::Root(copies);
                assert(copy.shape()->Root_0 =~= self.shape()->Root_0);
                copy
            },
            ExprKind::Def { name, binders, return_type } => {
                let mut copies: Vec<Binder> = Vec::new();
                let mut i: usize = 0;
                while i < binders.len()
                    invariant
                        i <= binders@.len(),
                        copies@.len() == i,
                        forall|k: int|
                            0 <= k < i ==> (#[trigger] copies@[k]).model() == binders@[k].model(),
                    decreases binders@.len() - i,
                {
                    copies.push(binders[i].duplicate());
                    i += 1;
                }
                let copy = ExprKind::Def {
                    name: name.clone(),
                    binders: copies,
                    return_type: return_type.duplicate(),
                };
                assert(copy.shape()->binders =~= self.shape()->binders);
                copy
            },
            ExprKind::Var(name) => ExprKind::Var(name.clone()),
            ExprKind::App(function, argument) => ExprKind::App(
                Box::new(function.duplicate()),
                Box::new(argument.duplicate()),
            ),
        }
    }
}

impl<P: Phase> Clone for Expr<P> {
    fn clone(&self) -> (copy: Self)
        ensures
            copy.shape() == self.shape(),
    {
        self.duplicate()
    }
}

impl<P: Phase> Clone for ExprKind<P> {
    fn clone(&self) -> (copy: Self)
        ensures
            copy.shape() == self.shape(),
    {
        self.duplicate()
    }
}

/// The trees that the expressions of `items` stand for, one by one.
pub open spec fn models(items: Seq<TypeExpr>) -> Seq<TypeExprView> {
    Seq::new(items.len(), |i: int| items[i].model())
}

/// A tuple stands for the tuple of what its items stand for.
pub proof fn lemma_tuple_model(items: Vec<TypeExpr>)
    ensures
        TypeExpr::Tuple(items)@ == TypeExprView::Tuple(models(items@)),
{
    assert(TypeExpr::Tuple(items).model()->Tuple_0 =~= models(items@));
}

impl View for TypeExpr {
    type V = TypeExprView;

    open spec fn view(&self) -> TypeExprView {
        self.model()
    }
}

impl View for Binder {
    type V = BinderView;

    open spec fn view(&self) -> BinderView {
        self.model()
    }
}

} // verus!
