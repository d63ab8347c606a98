//! The names that are built in. They have the numbers 0 to 3 of the
//! module `prim`, and nothing else may have those.

use vstd::prelude::*;

use crate::module::name::QualifiedName;
use crate::module::unique::{Identity, Unique};

verus! {

/// The module of the built-in names.
pub const PRIM_MODULE_ID: &'static str = "prim";

/// The identity of the built-in name with the number `id`.
pub open spec fn prim_identity(id: nat) -> Identity {
    Identity { id, module_id: PRIM_MODULE_ID@ }
}

/// An identity that only a built-in name may have.
pub open spec fn reserved(identity: Identity) -> bool {
    identity.module_id == PRIM_MODULE_ID@ && identity.id <= 3
}

/// The type of natural numbers.
pub fn prim_nat() -> (name: QualifiedName)
    ensures
        name@ == prim_identity(0),
        name.unique.display_name matches Some(shown) && shown@ == "Nat"@,
{
    QualifiedName::new(Unique::new(0, PRIM_MODULE_ID.to_owned(), Some("Nat".to_owned())))
}

/// The type of strings.
pub fn prim_string() -> (name: QualifiedName)
    ensures
        name@ == prim_identity(1),
        name.unique.display_name matches Some(shown) && shown@ == "String"@,
{
    QualifiedName::new(Unique::new(1, PRIM_MODULE_ID.to_owned(), Some("String".to_owned())))
}

/// The type of types.
pub fn prim_type() -> (name: QualifiedName)
    ensures
        name@ == prim_identity(2),
        name.unique.display_name matches Some(shown) && shown@ == "Type"@,
{
    QualifiedName::new(Unique::new(2, PRIM_MODULE_ID.to_owned(), Some("Type".to_owned())))
}

/// The family of finite types.
pub fn prim_fin() -> (name: QualifiedName)
    ensures
        name@ == prim_identity(3),
        name.unique.display_name matches Some(shown) && shown@ == "Fin"@,
{
    QualifiedName::new(Unique::new(3, PRIM_MODULE_ID.to_owned(), Some("Fin".to_owned())))
}

} // verus!
