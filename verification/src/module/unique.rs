//! Identities of symbols.

use vstd::prelude::*;

use vstd::std_specs::cmp::{PartialEqSpec, PartialEqSpecImpl, PartialOrdSpecImpl};
use core::cmp::Ordering;

use crate::module::ModuleId;

verus! {

/// What makes a symbol the symbol it is: a number and the module that gave
/// it out.
pub struct Identity {
    pub id: nat,
    pub module_id: Seq<char>,
}

/// `a` comes before `b` byte by byte, and a string of bytes before each
/// of its extensions.
pub open spec fn bytes_before(a: Seq<u8>, b: Seq<u8>) -> bool
    decreases a.len(),
{
    if b.len() == 0 {
        false
    } else if a.len() == 0 {
        true
    } else if a[0] == b[0] {
        bytes_before(a.drop_first(), b.drop_first())
    } else {
        a[0] < b[0]
    }
}

/// `a` comes before `b` in the order of strings, which is the order of
/// their bytes in UTF-8.
pub open spec fn text_before(a: Seq<char>, b: Seq<char>) -> bool {
    bytes_before(vstd::utf8::encode_utf8(a), vstd::utf8::encode_utf8(b))
}

impl Identity {
    /// The order of identities: by number, and among equal numbers by
    /// module.
    pub open spec fn before(self, other: Identity) -> bool {
        self.id < other.id || (self.id == other.id && text_before(
            self.module_id,
            other.module_id,
        ))
    }
}

/// No string of bytes comes before itself.
pub proof fn lemma_bytes_before_irreflexive(a: Seq<u8>)
    ensures
        !bytes_before(a, a),
    decreases a.len(),
{
    if a.len() > 0 {
        lemma_bytes_before_irreflexive(a.drop_first());
    }
}

/// Of two different strings of bytes one comes before the other, and not
/// the other before the one.
pub proof fn lemma_bytes_before_total(a: Seq<u8>, b: Seq<u8>)
    ensures
        bytes_before(a, b) || bytes_before(b, a) || a == b,
        !(bytes_before(a, b) && bytes_before(b, a)),
    decreases a.len(),
{
    if a.len() > 0 && b.len() > 0 {
        if a[0] == b[0] {
            lemma_bytes_before_total(a.drop_first(), b.drop_first());
            if a.drop_first() == b.drop_first() {
                assert(a =~= seq![a[0]] + a.drop_first());
                assert(b =~= seq![b[0]] + b.drop_first());
            }
        }
    } else if a.len() == 0 && b.len() == 0 {
        assert(a =~= b);
    }
}

/// What comes before a string of bytes comes before all that the string
/// comes before.
pub proof fn lemma_bytes_before_transitive(a: Seq<u8>, b: Seq<u8>, c: Seq<u8>)
    requires
        bytes_before(a, b),
        bytes_before(b, c),
    ensures
        bytes_before(a, c),
    decreases a.len(),
{
    if a.len() > 0 {
        if a[0] == b[0] && b[0] == c[0] {
            lemma_bytes_before_transitive(a.drop_first(), b.drop_first(), c.drop_first());
        }
    }
}

/// Of two different strings one comes before the other, and not the
/// other before the one.
pub proof fn lemma_text_before_total(a: Seq<char>, b: Seq<char>)
    ensures
        text_before(a, b) || text_before(b, a) || a == b,
        !(text_before(a, b) && text_before(b, a)),
{
    lemma_bytes_before_total(vstd::utf8::encode_utf8(a), vstd::utf8::encode_utf8(b));
    vstd::utf8::encode_utf8_decode_utf8(a);
    vstd::utf8::encode_utf8_decode_utf8(b);
}

/// The order of identities is a strict total order.
pub proof fn lemma_identity_order(a: Identity, b: Identity, c: Identity)
    ensures
        !a.before(a),
        a.before(b) || b.before(a) || a == b,
        !(a.before(b) && b.before(a)),
        a.before(b) && b.before(c) ==> a.before(c),
{
    lemma_bytes_before_irreflexive(vstd::utf8::encode_utf8(a.module_id));
    lemma_text_before_total(a.module_id, b.module_id);
    if a.before(b) && b.before(c) {
        if a.id == b.id && b.id == c.id {
            lemma_bytes_before_transitive(
                vstd::utf8::encode_utf8(a.module_id),
                vstd::utf8::encode_utf8(b.module_id),
                vstd::utf8::encode_utf8(c.module_id),
            );
        }
    }
}

/// Says whether the bytes `a` come before the bytes `b`.
pub fn bytes_lt(a: &[u8], b: &[u8]) -> (before: bool)
    ensures
        before == bytes_before(a@, b@),
{
    let mut i: usize = 0;
    assert(a@.skip(0) == a@ && b@.skip(0) == b@);
    while i < a.len() && i < b.len()
        invariant
            i <= a@.len(),
            i <= b@.len(),
            bytes_before(a@, b@) == bytes_before(a@.skip(i as int), b@.skip(i as int)),
        decreases a@.len() - i,
    {
        if a[i] != b[i] {
            return a[i] < b[i];
        }
        assert(a@.skip(i as int).drop_first() == a@.skip(i + 1));
        assert(b@.skip(i as int).drop_first() == b@.skip(i + 1));
        i += 1;
    }
    i < b.len()
}

/// Says whether `a` comes before `b` in the order of strings.
pub fn text_lt(a: &String, b: &String) -> (before: bool)
    ensures
        before == text_before(a@, b@),
{
    bytes_lt(a.as_str().as_bytes(), b.as_str().as_bytes())
}

/// The identity of a symbol, with the name under which diagnostics show
/// it. Two values with the same number and module are the same symbol,
/// whatever name they show.
#[derive(Debug, Clone)]
pub struct Unique {
    pub id: usize,
    pub module_id: ModuleId,
    pub display_name: Option<String>,
}

impl View for Unique {
    type V = Identity;

    open spec fn view(&self) -> Identity {
        Identity { id: self.id as nat, module_id: self.module_id@ }
    }
}

impl Unique {
    /// The symbol with the number `id` of the module `module_id`, shown as
    /// `display_name`. The caller sees to it that no two symbols of a
    /// module get the same number.
    pub fn new(id: usize, module_id: ModuleId, display_name: Option<String>) -> (unique: Self)
        ensures
            unique.id == id,
            unique.module_id == module_id,
            unique.display_name == display_name,
    {
        Self { id, module_id, display_name }
    }

    /// The symbol with the number `id` of the module `module_id`, with no
    /// name to show.
    pub fn unnamed(id: usize, module_id: ModuleId) -> (unique: Self)
        ensures
            unique.id == id,
            unique.module_id == module_id,
            unique.display_name is None,
    {
        Self { id, module_id, display_name: None }
    }

    /// Two symbols with the same number and module are equal whatever
    /// names they show, and two with different numbers never are.
    pub proof fn lemma_names_do_not_count(a: Unique, b: Unique)
        ensures
            a.id == b.id && a.module_id@ == b.module_id@ ==> PartialEqSpec::eq_spec(&a, &b),
            a.id != b.id ==> !PartialEqSpec::eq_spec(&a, &b),
            PartialEqSpec::eq_spec(&a, &b) <==> a@ == b@,
    {
    }
}

impl PartialEq for Unique {
    fn eq(&self, other: &Self) -> (equal: bool) {
        self.id == other.id && self.module_id == other.module_id
    }
}

impl PartialEqSpecImpl for Unique {
    open spec fn obeys_eq_spec() -> bool {
        true
    }

    open spec fn eq_spec(&self, other: &Self) -> bool {
        self@ == other@
    }
}

impl Eq for Unique {

}

impl PartialOrd for Unique {
    fn partial_cmp(&self, other: &Self) -> (order: Option<Ordering>) {
        proof {
            lemma_text_before_total(self.module_id@, other.module_id@);
        }
        if self.id < other.id {
            Some(Ordering::Less)
        } else if self.id > other.id {
            Some(Ordering::Greater)
        } else if text_lt(&self.module_id, &other.module_id) {
            Some(Ordering::Less)
        } else if text_lt(&other.module_id, &self.module_id) {
            Some(Ordering::Greater)
        } else {
            Some(Ordering::Equal)
        }
    }
}

impl PartialOrdSpecImpl for Unique {
    open spec fn obeys_partial_cmp_spec() -> bool {
        true
    }

    open spec fn partial_cmp_spec(&self, other: &Self) -> Option<Ordering> {
        if self@.before(other@) {
            Some(Ordering::Less)
        } else if other@.before(self@) {
            Some(Ordering::Greater)
        } else {
            Some(Ordering::Equal)
        }
    }
}

} // verus!
