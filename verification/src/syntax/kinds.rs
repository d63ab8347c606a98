//! Finite sets of token kinds, kept as one bit per kind.

use vstd::prelude::*;

use crate::syntax::token::TokenKind;

verus! {

/// How many kinds of token there are.
pub const KIND_COUNT: u8 = 15;

impl TokenKind {
    /// The place of this kind in the order in which the kinds are declared.
    pub open spec fn ordinal(self) -> nat {
        match self {
            TokenKind::Number => 0,
            TokenKind::String => 1,
            TokenKind::LowerIdentifier => 2,
            TokenKind::UpperIdentifier => 3,
            TokenKind::LParen => 4,
            TokenKind::RParen => 5,
            TokenKind::LBrace => 6,
            TokenKind::RBrace => 7,
            TokenKind::LBracket => 8,
            TokenKind::RBracket => 9,
            TokenKind::Colon => 10,
            TokenKind::Comma => 11,
            TokenKind::Arrow => 12,
            TokenKind::Product => 13,
            TokenKind::EndOfFile => 14,
        }
    }

    /// The kind declared at place `index`; past the last place, the last
    /// kind.
    pub open spec fn of_ordinal(index: nat) -> TokenKind {
        if index == 0 {
            TokenKind::Number
        } else if index == 1 {
            TokenKind::String
        } else if index == 2 {
            TokenKind::LowerIdentifier
        } else if index == 3 {
            TokenKind::UpperIdentifier
        } else if index == 4 {
            TokenKind::LParen
        } else if index == 5 {
            TokenKind::RParen
        } else if index == 6 {
            TokenKind::LBrace
        } else if index == 7 {
            TokenKind::RBrace
        } else if index == 8 {
            TokenKind::LBracket
        } else if index == 9 {
            TokenKind::RBracket
        } else if index == 10 {
            TokenKind::Colon
        } else if index == 11 {
            TokenKind::Comma
        } else if index == 12 {
            TokenKind::Arrow
        } else if index == 13 {
            TokenKind::Product
        } else {
            TokenKind::EndOfFile
        }
    }

    /// The place of this kind in the order of declaration, from 0.
    pub fn index(self) -> (index: u8)
        ensures
            index == self.ordinal(),
            index < KIND_COUNT,
            TokenKind::of_ordinal(index as nat) == self,
    {
        match self {
            TokenKind::Number => 0,
            TokenKind::String => 1,
            TokenKind::LowerIdentifier => 2,
            TokenKind::UpperIdentifier => 3,
            TokenKind::LParen => 4,
            TokenKind::RParen => 5,
            TokenKind::LBrace => 6,
            TokenKind::RBrace => 7,
            TokenKind::LBracket => 8,
            TokenKind::RBracket => 9,
            TokenKind::Colon => 10,
            TokenKind::Comma => 11,
            TokenKind::Arrow => 12,
            TokenKind::Product => 13,
            TokenKind::EndOfFile => 14,
        }
    }

    /// The kind declared at place `index`; past the last place, the last
    /// kind.
    pub fn from_index(index: u8) -> (kind: TokenKind)
        ensures
            kind == TokenKind::of_ordinal(index as nat),
            index < KIND_COUNT ==> kind.ordinal() == index,
    {
        if index == 0 {
            TokenKind::Number
        } else if index == 1 {
            TokenKind::String
        } else if index == 2 {
            TokenKind::LowerIdentifier
        } else if index == 3 {
            TokenKind::UpperIdentifier
        } else if index == 4 {
            TokenKind::LParen
        } else if index == 5 {
            TokenKind::RParen
        } else if index == 6 {
            TokenKind::LBrace
        } else if index == 7 {
            TokenKind::RBrace
        } else if index == 8 {
            TokenKind::LBracket
        } else if index == 9 {
            TokenKind::RBracket
        } else if index == 10 {
            TokenKind::Colon
        } else if index == 11 {
            TokenKind::Comma
        } else if index == 12 {
            TokenKind::Arrow
        } else if index == 13 {
            TokenKind::Product
        } else {
            TokenKind::EndOfFile
        }
    }
}

/// The bit that stands for the kind at place `index`.
pub open spec fn bit(index: u8) -> u16 {
    1u16 << index
}

/// A set of token kinds.
#[derive(Clone, Copy, Debug, PartialEq, Eq, Structural)]
pub struct KindSet {
    bits: u16,
}

/// The kinds of `set` whose place is below `n`, in the order of their
/// declaration.
pub open spec fn listed(set: Set<TokenKind>, n: nat) -> Seq<TokenKind>
    decreases n,
{
    if n == 0 {
        Seq::empty()
    } else {
        let kind = TokenKind::of_ordinal((n - 1) as nat);
        if set.contains(kind) {
            listed(set, (n - 1) as nat).push(kind)
        } else {
            listed(set, (n - 1) as nat)
        }
    }
}

/// Kinds and places correspond one to one.
pub proof fn lemma_ordinals()
    ensures
        forall|kind: TokenKind|
            (#[trigger] kind.ordinal()) < KIND_COUNT && TokenKind::of_ordinal(kind.ordinal())
                == kind,
        forall|n: nat| n < KIND_COUNT ==> (#[trigger] TokenKind::of_ordinal(n)).ordinal() == n,
{
}

/// A listing holds each kind of the set once, in the order of
/// declaration, and nothing else.
pub proof fn lemma_listed(set: Set<TokenKind>, n: nat)
    requires
        n <= KIND_COUNT,
    ensures
        forall|kind: TokenKind|
            #![trigger listed(set, n).contains(kind)]
            listed(set, n).contains(kind) <==> (set.contains(kind) && kind.ordinal() < n),
        forall|i: int, j: int|
            #![trigger listed(set, n)[i], listed(set, n)[j]]
            0 <= i < j < listed(set, n).len() ==> listed(set, n)[i].ordinal() < listed(
                set,
                n,
            )[j].ordinal(),
        listed(set, n).len() <= n,
    decreases n,
{
    lemma_ordinals();
    if n > 0 {
        let m = (n - 1) as nat;
        let kind = TokenKind::of_ordinal(m);
        lemma_listed(set, m);
        let shorter = listed(set, m);
        let longer = listed(set, n);
        assert(kind.ordinal() == m);
        if set.contains(kind) {
            assert(longer == shorter.push(kind));
            assert(longer[shorter.len() as int] == kind);
            assert forall|k: TokenKind| longer.contains(k) implies set.contains(k) && k.ordinal()
                < n by {
                let w = choose|w: int| 0 <= w < longer.len() && longer[w] == k;
                if w < shorter.len() {
                    assert(shorter[w] == k);
                    assert(shorter.contains(k));
                }
            }
            assert forall|k: TokenKind| set.contains(k) && k.ordinal() < n implies longer.contains(
                k,
            ) by {
                if k.ordinal() < m {
                    assert(shorter.contains(k));
                    let w = choose|w: int| 0 <= w < shorter.len() && shorter[w] == k;
                    assert(longer[w] == k);
                } else {
                    assert(k == kind);
                }
            }
            assert forall|i: int, j: int| 0 <= i < j < longer.len() implies longer[i].ordinal()
                < longer[j].ordinal() by {
                assert(longer[i] == shorter[i]);
                assert(shorter.contains(shorter[i]));
                if j < shorter.len() {
                    assert(longer[j] == shorter[j]);
                }
            }
        } else {
            assert(longer == shorter);
            assert forall|k: TokenKind| set.contains(k) && k.ordinal() < n implies longer.contains(
                k,
            ) by {
                assert(k != kind);
            }
        }
    }
}

impl View for KindSet {
    type V = Set<TokenKind>;

    closed spec fn view(&self) -> Set<TokenKind> {
        Set::new(|kind: TokenKind| self.bits & bit(kind.ordinal() as u8) != 0)
    }
}

impl KindSet {
    /// The set of no kinds.
    pub fn empty() -> (set: KindSet)
        ensures
            set@ == Set::<TokenKind>::empty(),
    {
        let set = KindSet { bits: 0 };
        proof {
            assert forall|kind: TokenKind| !set@.contains(kind) by {
                let b = bit(kind.ordinal() as u8);
                assert(0u16 & b == 0) by (bit_vector);
            }
            assert(set@ =~= Set::<TokenKind>::empty());
        }
        set
    }

    /// Says whether `kind` is in this set.
    pub fn contains(&self, kind: TokenKind) -> (found: bool)
        ensures
            found == self@.contains(kind),
    {
        let index: u8 = kind.index();
        self.bits & (1u16 << index) != 0
    }

    /// This set and `kind`.
    pub fn with(self, kind: TokenKind) -> (set: KindSet)
        ensures
            set@ == self@.insert(kind),
    {
        let index: u8 = kind.index();
        let set = KindSet { bits: self.bits | (1u16 << index) };
        proof {
            assert forall|other: TokenKind|
                set@.contains(other) == self@.insert(kind).contains(other) by {
                let i = kind.ordinal() as u8;
                let j = other.ordinal() as u8;
                let old_bits = self.bits;
                assert(i < 16 && j < 16 ==> (((old_bits | (1u16 << i)) & (1u16 << j) != 0) <==> (
                old_bits & (1u16 << j) != 0 || i == j))) by (bit_vector);
            }
            assert(set@ =~= self@.insert(kind));
        }
        set
    }

    /// The kinds of either set.
    pub fn union(self, other: KindSet) -> (set: KindSet)
        ensures
            set@ == self@.union(other@),
    {
        let set = KindSet { bits: self.bits | other.bits };
        proof {
            assert forall|kind: TokenKind|
                set@.contains(kind) == self@.union(other@).contains(kind) by {
                let b = bit(kind.ordinal() as u8);
                let x = self.bits;
                let y = other.bits;
                assert(((x | y) & b != 0) <==> (x & b != 0 || y & b != 0)) by (bit_vector);
            }
            assert(set@ =~= self@.union(other@));
        }
        set
    }

    /// The kinds of this set, each once, in the order of declaration.
    pub fn to_vec(&self) -> (kinds: Vec<TokenKind>)
        ensures
            kinds@ == listed(self@, KIND_COUNT as nat),
    {
        let mut kinds: Vec<TokenKind> = Vec::new();
        let mut index: u8 = 0;
        while index < KIND_COUNT
            invariant
                index <= KIND_COUNT,
                kinds@ == listed(self@, index as nat),
            decreases KIND_COUNT - index,
        {
            let kind = TokenKind::from_index(index);
            if self.contains(kind) {
                kinds.push(kind);
            }
            index += 1;
        }
        kinds
    }
}

} // verus!
