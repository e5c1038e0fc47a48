//! Reversible partial embeddings between a tagged union and one of its
//! cases. Every prism carries two laws: embedding then projecting always
//! round-trips, and a successful projection reconstructs its input.

use core::marker::PhantomData;
use vstd::prelude::*;

verus! {

/// A two-case tagged union: the shape from which arbitrary open unions are
/// assembled as binary trees.
#[derive(Debug, PartialEq, Eq)]
pub enum Union<A, B> {
    Left(A),
    Right(B),
}

/// A reversible partial embedding of `Sub` into `Super`.
pub trait Prism: Sized {
    type Super;

    type Sub;

    /// Which case, if any, a super value projects to.
    spec fn down_spec(&self, a: Self::Super) -> Option<Self::Sub>;

    /// The super value a case embeds into.
    spec fn up_spec(&self, b: Self::Sub) -> Self::Super;

    /// Projects a super value onto this prism's case.
    fn downcast(&self, a: Self::Super) -> (r: Option<Self::Sub>)
        ensures
            r == self.down_spec(a),
    ;

    /// Embeds a case into the super type.
    fn upcast(&self, b: Self::Sub) -> (r: Self::Super)
        ensures
            r == self.up_spec(b),
    ;

    /// Law: embedding then projecting always round-trips.
    proof fn law_down_up(&self, b: Self::Sub)
        ensures
            self.down_spec(self.up_spec(b)) == Some(b),
    ;

    /// Law: what a projection matched, embedding reconstructs.
    proof fn law_up_down(&self, a: Self::Super, b: Self::Sub)
        requires
            self.down_spec(a) == Some(b),
        ensures
            self.up_spec(b) == a,
    ;
}

/// The prism onto the left case of a union.
#[derive(Debug)]
pub struct ToLeft<A, B>(pub PhantomData<(A, B)>);

/// The prism onto the right case of a union.
#[derive(Debug)]
pub struct ToRight<A, B>(pub PhantomData<(A, B)>);

impl<A, B> ToLeft<A, B> {
    /// Builds the left-case prism.
    pub fn new() -> (r: Self) {
        ToLeft(PhantomData)
    }
}

impl<A, B> ToRight<A, B> {
    /// Builds the right-case prism.
    pub fn new() -> (r: Self) {
        ToRight(PhantomData)
    }
}

impl<A, B> Prism for ToLeft<A, B> {
    type Super = Union<A, B>;

    type Sub = A;

    open spec fn down_spec(&self, a: Union<A, B>) -> Option<A> {
        match a {
            Union::Left(x) => Some(x),
            Union::Right(_) => None,
        }
    }

    open spec fn up_spec(&self, b: A) -> Union<A, B> {
        Union::Left(b)
    }

    fn downcast(&self, a: Union<A, B>) -> (r: Option<A>) {
        match a {
            Union::Left(x) => Some(x),
            Union::Right(_) => None,
        }
    }

    fn upcast(&self, b: A) -> (r: Union<A, B>) {
        Union::Left(b)
    }

    proof fn law_down_up(&self, b: A) {
    }

    proof fn law_up_down(&self, a: Union<A, B>, b: A) {
    }
}

impl<A, B> Prism for ToRight<A, B> {
    type Super = Union<A, B>;

    type Sub = B;

    open spec fn down_spec(&self, a: Union<A, B>) -> Option<B> {
        match a {
            Union::Left(_) => None,
            Union::Right(x) => Some(x),
        }
    }

    open spec fn up_spec(&self, b: B) -> Union<A, B> {
        Union::Right(b)
    }

    fn downcast(&self, a: Union<A, B>) -> (r: Option<B>) {
        match a {
            Union::Left(_) => None,
            Union::Right(x) => Some(x),
        }
    }

    fn upcast(&self, b: B) -> (r: Union<A, B>) {
        Union::Right(b)
    }

    proof fn law_down_up(&self, b: B) {
    }

    proof fn law_up_down(&self, a: Union<A, B>, b: B) {
    }
}

/// Two prisms chained: projects through the first, then the second; embeds
/// through the second, then the first. Lets one case of a nested union tree
/// be addressed directly.
#[derive(Debug)]
pub struct Compose<P1, P2>(pub P1, pub P2);

impl<P1: Prism, P2: Prism<Super = P1::Sub>> Prism for Compose<P1, P2> {
    type Super = P1::Super;

    type Sub = P2::Sub;

    open spec fn down_spec(&self, a: P1::Super) -> Option<P2::Sub> {
        match self.0.down_spec(a) {
            Some(m) => self.1.down_spec(m),
            None => None,
        }
    }

    open spec fn up_spec(&self, c: P2::Sub) -> P1::Super {
        self.0.up_spec(self.1.up_spec(c))
    }

    fn downcast(&self, a: P1::Super) -> (r: Option<P2::Sub>) {
        match self.0.downcast(a) {
            Some(m) => self.1.downcast(m),
            None => None,
        }
    }

    fn upcast(&self, c: P2::Sub) -> (r: P1::Super) {
        self.0.upcast(self.1.upcast(c))
    }

    proof fn law_down_up(&self, c: P2::Sub) {
        self.1.law_down_up(c);
        self.0.law_down_up(self.1.up_spec(c));
    }

    proof fn law_up_down(&self, a: P1::Super, c: P2::Sub) {
        if let Some(m) = self.0.down_spec(a) {
            self.1.law_up_down(m, c);
            self.0.law_up_down(a, m);
        }
    }
}

/// Chains a second prism after this one.
pub fn compose<P1: Prism, P2: Prism<Super = P1::Sub>>(p1: P1, p2: P2) -> (r: Compose<P1, P2>)
    ensures
        r.0 == p1,
        r.1 == p2,
{
    Compose(p1, p2)
}

/// Narrows a prism whose case is a union onto that union's left case.
pub fn to_left<Pr, A, B>(p: Pr) -> (r: Compose<Pr, ToLeft<A, B>>) where
    Pr: Prism<Sub = Union<A, B>>

    ensures
        r.0 == p,
{
    Compose(p, ToLeft::new())
}

/// Narrows a prism whose case is a union onto that union's right case.
pub fn to_right<Pr, A, B>(p: Pr) -> (r: Compose<Pr, ToRight<A, B>>) where
    Pr: Prism<Sub = Union<A, B>>

    ensures
        r.0 == p,
{
    Compose(p, ToRight::new())
}

} // verus!
