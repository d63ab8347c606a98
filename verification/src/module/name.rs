//! Names as they stand after resolution.

use vstd::prelude::*;

use vstd::std_specs::cmp::{PartialEqSpecImpl, PartialOrdSpecImpl};
use core::cmp::Ordering;

use crate::module::unique::{Identity, Unique};
use crate::syntax::SourceSpan;

verus! {

/// A resolved name: the symbol it refers to and the span at which it
/// stands in the source.
pub enum Name {
    Variable { unique: Unique, de_bruijn_idx: usize, span: SourceSpan },
    Intrinsic { unique: Unique, span: SourceSpan },
    Struct { unique: Unique, name: String, span: SourceSpan },
}

impl Name {
    /// The symbol of this name.
    pub open spec fn symbol(&self) -> Unique {
        match self {
            Name::Variable { unique, .. } => *unique,
            Name::Intrinsic { unique, .. } => *unique,
            Name::Struct { unique, .. } => *unique,
        }
    }

    /// The span of this name.
    pub open spec fn place(&self) -> SourceSpan {
        match self {
            Name::Variable { span, .. } => *span,
            Name::Intrinsic { span, .. } => *span,
            Name::Struct { span, .. } => *span,
        }
    }

    /// The symbol that this name refers to.
    pub fn unique(&self) -> (unique: &Unique)
        ensures
            *unique == self.symbol(),
    {
        match self {
            Name::Variable { unique, .. } => unique,
            Name::Intrinsic { unique, .. } => unique,
            Name::Struct { unique, .. } => unique,
        }
    }

    /// Where this name stands in the source.
    pub fn span(&self) -> (span: &SourceSpan)
        ensures
            *span == self.place(),
    {
        match self {
            Name::Variable { span, .. } => span,
            Name::Intrinsic { span, .. } => span,
            Name::Struct { span, .. } => span,
        }
    }
}

/// A symbol as the key of a symbol table: compared and ordered by its
/// identity alone.
#[derive(Debug, Clone)]
pub struct QualifiedName {
    pub unique: Unique,
}

impl View for QualifiedName {
    type V = Identity;

    open spec fn view(&self) -> Identity {
        self.unique@
    }
}

impl QualifiedName {
    /// The key for the symbol `unique`.
    pub fn new(unique: Unique) -> (name: Self)
        ensures
            name.unique == unique,
    {
        Self { unique }
    }

    /// The symbol behind this key.
    pub fn unique(&self) -> (unique: &Unique)
        ensures
            *unique == self.unique,
    {
        &self.unique
    }
}

impl PartialEq for QualifiedName {
    fn eq(&self, other: &Self) -> (equal: bool) {
        self.unique == other.unique
    }
}

impl PartialEqSpecImpl for QualifiedName {
    open spec fn obeys_eq_spec() -> bool {
        true
    }

    open spec fn eq_spec(&self, other: &Self) -> bool {
        self@ == other@
    }
}

impl Eq for QualifiedName {

}

impl PartialOrd for QualifiedName {
    fn partial_cmp(&self, other: &Self) -> (order: Option<Ordering>) {
        self.unique.partial_cmp(&other.unique)
    }
}

impl PartialOrdSpecImpl for QualifiedName {
    open spec fn obeys_partial_cmp_spec() -> bool {
        true
    }

    open spec fn partial_cmp_spec(&self, other: &Self) -> Option<Ordering> {
        if self@.before(other@) {
            Some(Ordering::Less)
        } else if other@.before(self@) {
            Some(Ordering::Greater)
        } else {
            Some(Ordering::Equal)
        }
    }
}

} // verus!
