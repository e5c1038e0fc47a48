//! Construction helpers: lift plain data into terms, and fold sequences
//! into `Append` chains (terms) or `And` chains (record types), so that
//! callers never hand-construct malformed trees.

use vstd::prelude::*;

use crate::term::GenType;
use crate::term::Key;
use crate::term::KeyV;
use crate::term::PrimType;
use crate::term::PrimV;
use crate::term::Primitive;
use crate::term::Term;
use crate::term::TermV;
use crate::term::Type;
use crate::term::TypeV;
use crate::term::view_term;
use crate::term::view_type;

verus! {

/// Lifts a datum into the term it denotes.
pub trait ToTerm: Sized {
    /// The term this datum denotes.
    spec fn term_view(self) -> TermV;

    /// Builds the term this datum denotes.
    fn to_term(self) -> (r: Term)
        ensures
            r@ == self.term_view(),
    ;
}

impl ToTerm for Term {
    open spec fn term_view(self) -> TermV {
        view_term(self)
    }

    fn to_term(self) -> (r: Term) {
        self
    }
}

impl ToTerm for u64 {
    open spec fn term_view(self) -> TermV {
        TermV::Prim(PrimV::Long(self))
    }

    fn to_term(self) -> (r: Term) {
        Term::Prim(Primitive::Long(self))
    }
}

impl ToTerm for String {
    open spec fn term_view(self) -> TermV {
        TermV::Prim(PrimV::Text(self@))
    }

    fn to_term(self) -> (r: Term) {
        Term::Prim(Primitive::Text(self))
    }
}

impl ToTerm for &str {
    open spec fn term_view(self) -> TermV {
        TermV::Prim(PrimV::Text(self@))
    }

    fn to_term(self) -> (r: Term) {
        Term::Prim(Primitive::Text(self.to_string()))
    }
}

impl ToTerm for Primitive {
    open spec fn term_view(self) -> TermV {
        TermV::Prim(self@)
    }

    fn to_term(self) -> (r: Term) {
        Term::Prim(self)
    }
}

impl ToTerm for Type {
    open spec fn term_view(self) -> TermV {
        TermV::Type(view_type(self))
    }

    fn to_term(self) -> (r: Term) {
        Term::Type(self)
    }
}

impl ToTerm for PrimType {
    open spec fn term_view(self) -> TermV {
        TermV::Type(TypeV::Prim(self))
    }

    fn to_term(self) -> (r: Term) {
        proof {
            assert(view_type(GenType::<Term>::Prim(self)) == TypeV::Prim(self));
        }
        Term::Type(GenType::Prim(self))
    }
}

impl<A: ToTerm> ToTerm for (String, A) {
    /// A `(name, value)` pair denotes a singleton field binder.
    open spec fn term_view(self) -> TermV {
        TermV::Bind { name: KeyV::Name(self.0@), value: Box::new(self.1.term_view()) }
    }

    fn to_term(self) -> (r: Term) {
        let (name, value) = self;
        Term::Bind { name: Key::Name(name), value: Box::new(value.to_term()) }
    }
}

impl<A: ToTerm> ToTerm for (&str, A) {
    /// A `(name, value)` pair denotes a singleton field binder.
    open spec fn term_view(self) -> TermV {
        TermV::Bind { name: KeyV::Name(self.0@), value: Box::new(self.1.term_view()) }
    }

    fn to_term(self) -> (r: Term) {
        let (name, value) = self;
        Term::Bind { name: Key::name(name), value: Box::new(value.to_term()) }
    }
}

/// Marks a datum as denoting a type-level term.
pub struct AsTyp<A>(pub A);

impl ToTerm for AsTyp<Term> {
    open spec fn term_view(self) -> TermV {
        view_term(self.0)
    }

    fn to_term(self) -> (r: Term) {
        self.0
    }
}

impl ToTerm for AsTyp<(String, Term)> {
    /// A type-level `(name, type)` pair denotes a single-field constraint.
    open spec fn term_view(self) -> TermV {
        TermV::Type(
            TypeV::Field { name: KeyV::Name(self.0.0@), typ: Box::new(view_term(self.0.1)) },
        )
    }

    fn to_term(self) -> (r: Term) {
        let AsTyp((name, typ)) = self;
        let k = Key::Name(name);
        let ghost gk = k@;
        let ghost gt = typ@;
        proof {
            assert(view_type(GenType::Field { name: k, typ: Box::new(typ) }) == (TypeV::Field {
                name: gk,
                typ: Box::new(gt),
            }));
        }
        Term::Type(GenType::Field { name: k, typ: Box::new(typ) })
    }
}

impl ToTerm for AsTyp<(&str, Term)> {
    /// A type-level `(name, type)` pair denotes a single-field constraint.
    open spec fn term_view(self) -> TermV {
        TermV::Type(
            TypeV::Field { name: KeyV::Name(self.0.0@), typ: Box::new(view_term(self.0.1)) },
        )
    }

    fn to_term(self) -> (r: Term) {
        let AsTyp((name, typ)) = self;
        let k = Key::name(name);
        let ghost gk = k@;
        let ghost gt = typ@;
        proof {
            assert(view_type(GenType::Field { name: k, typ: Box::new(typ) }) == (TypeV::Field {
                name: gk,
                typ: Box::new(gt),
            }));
        }
        Term::Type(GenType::Field { name: k, typ: Box::new(typ) })
    }
}

/// The view of a term vector, element by element.
pub open spec fn terms_view(s: Seq<Term>) -> Seq<TermV> {
    Seq::new(s.len(), |i: int| view_term(s[i]))
}

/// What left-folding terms into an `Append` chain denotes; the empty
/// sequence denotes `Empty`, the chain's identity.
pub open spec fn append_chain_spec(s: Seq<TermV>) -> TermV
    decreases s.len(),
{
    if s.len() == 0 {
        TermV::Empty
    } else if s.len() == 1 {
        s[0]
    } else {
        TermV::Append {
            left: Box::new(append_chain_spec(s.drop_last())),
            right: Box::new(s.last()),
        }
    }
}

/// What left-folding type terms into an `And` chain denotes; the empty
/// sequence denotes `Universe`, the chain's identity.
pub open spec fn and_chain_spec(s: Seq<TermV>) -> TermV
    decreases s.len(),
{
    if s.len() == 0 {
        TermV::Type(TypeV::Prim(PrimType::Universe))
    } else if s.len() == 1 {
        s[0]
    } else {
        TermV::Type(
            TypeV::And {
                left: Box::new(and_chain_spec(s.drop_last())),
                right: Box::new(s.last()),
            },
        )
    }
}

/// Left-folds terms into an `Append` chain, in input order; an empty vector
/// yields `Empty`.
pub fn append_chain(items: Vec<Term>) -> (r: Term)
    ensures
        r@ == append_chain_spec(terms_view(items@)),
{
    if items.len() == 0 {
        return Term::Empty;
    }
    let mut acc = items[0].clone();
    let mut i: usize = 1;
    while i < items.len()
        invariant
            1 <= i <= items@.len(),
            acc@ == append_chain_spec(terms_view(items@).take(i as int)),
        decreases items@.len() - i,
    {
        let ghost gacc = acc@;
        acc = Term::Append { left: Box::new(acc), right: Box::new(items[i].clone()) };
        proof {
            assert(terms_view(items@).take(i + 1).drop_last() =~= terms_view(items@).take(
                i as int,
            ));
            assert(terms_view(items@).take(i + 1).last() == view_term(items@[i as int]));
        }
        i = i + 1;
    }
    proof {
        assert(terms_view(items@).take(items@.len() as int) =~= terms_view(items@));
        assert(terms_view(items@).take(1).len() == 1);
        assert(terms_view(items@).take(1)[0] == view_term(items@[0]));
    }
    acc
}

/// Left-folds type terms into an `And` chain, in input order; an empty
/// vector yields the `Universe` type.
pub fn and_chain(items: Vec<Term>) -> (r: Term)
    ensures
        r@ == and_chain_spec(terms_view(items@)),
{
    if items.len() == 0 {
        proof {
            assert(view_type(GenType::<Term>::Prim(PrimType::Universe)) == TypeV::Prim(
                PrimType::Universe,
            ));
        }
        return Term::Type(GenType::Prim(PrimType::Universe));
    }
    let mut acc = items[0].clone();
    let mut i: usize = 1;
    while i < items.len()
        invariant
            1 <= i <= items@.len(),
            acc@ == and_chain_spec(terms_view(items@).take(i as int)),
        decreases items@.len() - i,
    {
        let ghost gacc = acc@;
        let nxt = items[i].clone();
        let ghost gn = nxt@;
        proof {
            assert(view_type(GenType::And { left: Box::new(acc), right: Box::new(nxt) })
                == (TypeV::And { left: Box::new(gacc), right: Box::new(gn) }));
        }
        acc = Term::Type(GenType::And { left: Box::new(acc), right: Box::new(nxt) });
        proof {
            assert(terms_view(items@).take(i + 1).drop_last() =~= terms_view(items@).take(
                i as int,
            ));
            assert(terms_view(items@).take(i + 1).last() == view_term(items@[i as int]));
        }
        i = i + 1;
    }
    proof {
        assert(terms_view(items@).take(items@.len() as int) =~= terms_view(items@));
        assert(terms_view(items@).take(1).len() == 1);
        assert(terms_view(items@).take(1)[0] == view_term(items@[0]));
    }
    acc
}

} // verus!
