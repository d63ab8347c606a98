//! The core terms that elaboration produces: names are resolved, bound
//! variables are de Bruijn indices, and what is not yet known is a
//! metavariable.

use vstd::prelude::*;

use crate::module::name::Name;
use crate::syntax::tree::Literal;

verus! {

/// A core term. `Lam`, the codomain of `Pi`, the second type of `Sigma`
/// and the body of `Let` each stand under one more binder than the term
/// that holds them. `Meta` is an index into a store that the solver owns.
pub enum Term {
    Ref(Name),
    App(Box<Term>, Box<Term>),
    Lam(Box<Term>),
    Pi(Box<Term>, Box<Term>),
    Sigma(Box<Term>, Box<Term>),
    Let(Box<Term>, Box<Term>, Box<Term>),
    Lit(Literal),
    Meta(usize),
}

impl Term {
    /// Under `depth` binders no variable of this term points outside:
    /// the index of each is below the number of binders around it.
    pub open spec fn well_scoped(&self, depth: nat) -> bool
        decreases self,
    {
        match self {
            Term::Ref(Name::Variable { de_bruijn_idx, .. }) => *de_bruijn_idx < depth,
            Term::Ref(_) => true,
            Term::App(function, argument) => function.well_scoped(depth) && argument.well_scoped(
                depth,
            ),
            Term::Lam(body) => body.well_scoped(depth + 1),
            Term::Pi(domain, codomain) => domain.well_scoped(depth) && codomain.well_scoped(
                depth + 1,
            ),
            Term::Sigma(first, second) => first.well_scoped(depth) && second.well_scoped(
                depth + 1,
            ),
            Term::Let(bound_type, bound_value, body) => bound_type.well_scoped(depth)
                && bound_value.well_scoped(depth) && body.well_scoped(depth + 1),
            Term::Lit(_) => true,
            Term::Meta(_) => true,
        }
    }

    /// A term that is well scoped under some binders stays so under more.
    pub proof fn lemma_well_scoped_deeper(&self, depth: nat, deeper: nat)
        requires
            self.well_scoped(depth),
            depth <= deeper,
        ensures
            self.well_scoped(deeper),
        decreases self,
    {
        match self {
            Term::App(function, argument) => {
                function.lemma_well_scoped_deeper(depth, deeper);
                argument.lemma_well_scoped_deeper(depth, deeper);
            },
            Term::Lam(body) => {
                body.lemma_well_scoped_deeper(depth + 1, deeper + 1);
            },
            Term::Pi(domain, codomain) => {
                domain.lemma_well_scoped_deeper(depth, deeper);
                codomain.lemma_well_scoped_deeper(depth + 1, deeper + 1);
            },
            Term::Sigma(first, second) => {
                first.lemma_well_scoped_deeper(depth, deeper);
                second.lemma_well_scoped_deeper(depth + 1, deeper + 1);
            },
            Term::Let(bound_type, bound_value, body) => {
                bound_type.lemma_well_scoped_deeper(depth, deeper);
                bound_value.lemma_well_scoped_deeper(depth, deeper);
                body.lemma_well_scoped_deeper(depth + 1, deeper + 1);
            },
            _ => {},
        }
    }

    /// Under more binders than an index can count, every term is well
    /// scoped.
    pub proof fn lemma_well_scoped_beyond(&self, depth: nat)
        requires
            depth > usize::MAX,
        ensures
            self.well_scoped(depth),
        decreases self,
    {
        match self {
            Term::App(function, argument) => {
                function.lemma_well_scoped_beyond(depth);
                argument.lemma_well_scoped_beyond(depth);
            },
            Term::Lam(body) => {
                body.lemma_well_scoped_beyond(depth + 1);
            },
            Term::Pi(domain, codomain) => {
                domain.lemma_well_scoped_beyond(depth);
                codomain.lemma_well_scoped_beyond(depth + 1);
            },
            Term::Sigma(first, second) => {
                first.lemma_well_scoped_beyond(depth);
                second.lemma_well_scoped_beyond(depth + 1);
            },
            Term::Let(bound_type, bound_value, body) => {
                bound_type.lemma_well_scoped_beyond(depth);
                bound_value.lemma_well_scoped_beyond(depth);
                body.lemma_well_scoped_beyond(depth + 1);
            },
            _ => {},
        }
    }

    /// Says whether this term is well scoped under `depth` binders.
    pub fn is_well_scoped(&self, depth: usize) -> (scoped: bool)
        ensures
            scoped == self.well_scoped(depth as nat),
        decreases self, 0nat,
    {
        match self {
            Term::Ref(Name::Variable { de_bruijn_idx, .. }) => *de_bruijn_idx < depth,
            Term::Ref(_) => true,
            Term::App(function, argument) => function.is_well_scoped(depth)
                && argument.is_well_scoped(depth),
            Term::Lam(body) => body.is_well_scoped_below(depth),
            Term::Pi(domain, codomain) => domain.is_well_scoped(depth)
                && codomain.is_well_scoped_below(depth),
            Term::Sigma(first, second) => first.is_well_scoped(depth)
                && second.is_well_scoped_below(depth),
            Term::Let(bound_type, bound_value, body) => bound_type.is_well_scoped(depth)
                && bound_value.is_well_scoped(depth) && body.is_well_scoped_below(depth),
            Term::Lit(_) => true,
            Term::Meta(_) => true,
        }
    }

    /// Says whether this term is well scoped under one binder more than
    /// `depth`.
    fn is_well_scoped_below(&self, depth: usize) -> (scoped: bool)
        ensures
            scoped == self.well_scoped((depth + 1) as nat),
        decreases self, 1nat,
    {
        if depth < usize::MAX {
            self.is_well_scoped(depth + 1)
        } else {
            proof {
                self.lemma_well_scoped_beyond((depth + 1) as nat);
            }
            true
        }
    }
}

} // verus!
