//! The extension algebra: an extension contributes initial bindings
//! (`roots`) and serves its own operations (`dispatch`). Two extensions compose
//! pairwise into one whose operation type is the union of theirs; the
//! neutral extension's operation type is uninhabited, so it composes as an
//! identity. New extensions are added by composing, never by editing a
//! closed enum.

use core::marker::PhantomData;
use vstd::prelude::*;

use crate::prism::Union;
use crate::term::PrimV;
use crate::term::Primitive;
use crate::values::Record;
use crate::values::Value;
use crate::values::ValueV;
use crate::values::lemma_view_fields;
use crate::values::view_value;

verus! {

/// The view of a value vector, element by element.
pub open spec fn values_view<V>(s: Seq<Value<V>>) -> Seq<ValueV<V>> {
    Seq::new(s.len(), |i: int| view_value(s[i]))
}

/// The operation type of the neutral extension, which owns no operations
/// of its own: its one vacuous operation is never produced by anything and
/// is always refused.
#[derive(Debug, Clone, Copy, PartialEq, Eq)]
pub enum NoValue {
    Vacant,
}

/// One installed extension, exposing initial bindings and a dispatcher for
/// the operations it owns.
pub trait Plugin: Sized {
    /// The value payload type of the hosting interpreter.
    type Val;

    /// The operations this extension owns.
    type Own;

    /// The initial bindings this extension contributes, in order.
    spec fn roots_spec(&self) -> Seq<ValueV<Self::Val>>;

    /// What serving one operation does: the extension's successor state and
    /// the outcome, a value or inapplicability.
    spec fn dispatch_spec(&self, context: ValueV<Self::Val>, op: Self::Own) -> (
        Self,
        Result<ValueV<Self::Val>, ()>,
    );

    /// Hands out this extension's initial bindings.
    fn roots(&mut self) -> (r: Vec<Value<Self::Val>>)
        ensures
            values_view(r@) == old(self).roots_spec(),
            final(self).roots_spec() == old(self).roots_spec(),
    ;

    /// Serves one of this extension's own operations against the ambient
    /// context, returning a value or signalling inapplicability.
    fn dispatch(&mut self, context: Value<Self::Val>, op: Self::Own) -> (r: Result<
        Value<Self::Val>,
        (),
    >)
        ensures
            ({
                let (s2, out) = old(self).dispatch_spec(context@, op);
                *final(self) == s2 && (match (r, out) {
                    (Ok(v), Ok(w)) => v@ == w,
                    (Err(_), Err(_)) => true,
                    _ => false,
                })
            }),
    ;
}

/// The neutral extension: no bindings, no operations.
#[derive(Debug)]
pub struct EmptyPlugin<V>(pub PhantomData<V>);

impl<V> EmptyPlugin<V> {
    /// Builds the neutral extension.
    pub fn new() -> (r: Self) {
        EmptyPlugin(PhantomData)
    }
}

impl<V> Plugin for EmptyPlugin<V> {
    type Val = V;

    type Own = NoValue;

    open spec fn roots_spec(&self) -> Seq<ValueV<V>> {
        Seq::empty()
    }

    open spec fn dispatch_spec(&self, context: ValueV<V>, op: NoValue) -> (
        Self,
        Result<ValueV<V>, ()>,
    ) {
        (*self, Err(()))
    }

    fn roots(&mut self) -> (r: Vec<Value<V>>) {
        let r: Vec<Value<V>> = Vec::new();
        proof {
            assert(values_view(r@) =~= Seq::<ValueV<V>>::empty());
        }
        r
    }

    fn dispatch(&mut self, context: Value<V>, op: NoValue) -> (r: Result<Value<V>, ()>) {
        match op {
            NoValue::Vacant => Err(()),
        }
    }
}

/// Two extensions composed: the operation type is the union of theirs, the
/// bindings are the left extension's followed by the right's, and dispatch
/// routes each operation to the extension that owns it, leaving the other
/// untouched.
#[derive(Debug)]
pub struct PairPlugin<P1, P2>(pub P1, pub P2);

impl<V, P1: Plugin<Val = V>, P2: Plugin<Val = V>> Plugin for PairPlugin<P1, P2> {
    type Val = V;

    type Own = Union<P1::Own, P2::Own>;

    open spec fn roots_spec(&self) -> Seq<ValueV<V>> {
        self.0.roots_spec() + self.1.roots_spec()
    }

    open spec fn dispatch_spec(&self, context: ValueV<V>, op: Union<P1::Own, P2::Own>) -> (
        Self,
        Result<ValueV<V>, ()>,
    ) {
        match op {
            Union::Left(a) => {
                let (l2, out) = self.0.dispatch_spec(context, a);
                (PairPlugin(l2, self.1), out)
            },
            Union::Right(b) => {
                let (r2, out) = self.1.dispatch_spec(context, b);
                (PairPlugin(self.0, r2), out)
            },
        }
    }

    fn roots(&mut self) -> (r: Vec<Value<V>>) {
        let mut a = self.0.roots();
        let mut b = self.1.roots();
        let ghost av = a@;
        let ghost bv = b@;
        a.append(&mut b);
        proof {
            assert(values_view(a@) =~= values_view(av) + values_view(bv));
        }
        a
    }

    fn dispatch(&mut self, context: Value<V>, op: Union<P1::Own, P2::Own>) -> (r: Result<
        Value<V>,
        (),
    >) {
        match op {
            Union::Left(a) => self.0.dispatch(context, a),
            Union::Right(b) => self.1.dispatch(context, b),
        }
    }
}

/// Law: the bindings of a composed extension are the left extension's
/// followed by the right's.
pub proof fn lemma_pair_roots<V, P1: Plugin<Val = V>, P2: Plugin<Val = V>>(p: PairPlugin<P1, P2>)
    ensures
        p.roots_spec() == p.0.roots_spec() + p.1.roots_spec(),
{
}

/// Law: dispatching a left-tagged operation is decided by the left
/// extension alone and leaves the right extension untouched; symmetrically
/// for right-tagged operations.
pub proof fn lemma_pair_dispatch<V, P1: Plugin<Val = V>, P2: Plugin<Val = V>>(
    p: PairPlugin<P1, P2>,
    ctx: ValueV<V>,
    op: Union<P1::Own, P2::Own>,
)
    ensures
        (match op {
            Union::Left(a) => {
                let (l2, out) = p.0.dispatch_spec(ctx, a);
                p.dispatch_spec(ctx, op) == ((PairPlugin(l2, p.1), out))
            },
            Union::Right(b) => {
                let (r2, out) = p.1.dispatch_spec(ctx, b);
                p.dispatch_spec(ctx, op) == ((PairPlugin(p.0, r2), out))
            },
        }),
{
}

/// The operation of the sample extension below: count the fields of the
/// ambient record context.
#[derive(Debug, Clone, Copy, PartialEq, Eq)]
pub struct Calculate;

/// A sample extension owning [`Calculate`]. It contributes one root binding
/// carrying its tag and counts the operations it has served; the count lets
/// a host observe which extension a dispatch reached.
#[derive(Debug)]
pub struct CalcPlugin<V> {
    /// Carried in this extension's single root binding.
    pub tag: u64,
    /// How many operations this extension has served (saturating).
    pub hits: u64,
    /// Pins the hosting value type.
    pub marker: PhantomData<V>,
}

impl<V> CalcPlugin<V> {
    /// Builds the sample extension with a tag for its root binding.
    pub fn new(tag: u64) -> (r: Self)
        ensures
            r.tag == tag,
            r.hits == 0,
    {
        CalcPlugin { tag, hits: 0, marker: PhantomData }
    }
}

impl<V> Plugin for CalcPlugin<V> {
    type Val = V;

    type Own = Calculate;

    open spec fn roots_spec(&self) -> Seq<ValueV<V>> {
        seq![ValueV::Prim(PrimV::Long(self.tag))]
    }

    open spec fn dispatch_spec(&self, context: ValueV<V>, op: Calculate) -> (
        Self,
        Result<ValueV<V>, ()>,
    ) {
        let s2 = CalcPlugin {
            tag: self.tag,
            hits: if self.hits < u64::MAX {
                (self.hits + 1) as u64
            } else {
                self.hits
            },
            marker: self.marker,
        };
        match context {
            ValueV::Record(fs) => (s2, Ok(ValueV::Prim(PrimV::Long(fs.len() as u64)))),
            _ => (s2, Err(())),
        }
    }

    fn roots(&mut self) -> (r: Vec<Value<V>>) {
        let mut r: Vec<Value<V>> = Vec::new();
        r.push(Value::Prim(Primitive::Long(self.tag)));
        proof {
            assert(values_view(r@) =~= seq![ValueV::Prim(PrimV::Long(self.tag as u64))]);
        }
        r
    }

    fn dispatch(&mut self, context: Value<V>, op: Calculate) -> (r: Result<Value<V>, ()>) {
        if self.hits < u64::MAX {
            self.hits = self.hits + 1;
        }
        match context {
            Value::Record(rec) => {
                proof {
                    lemma_view_fields(rec.fields@);
                }
                let n = rec.fields.len();
                Ok(Value::Prim(Primitive::Long(n as u64)))
            },
            _ => Err(()),
        }
    }
}

} // verus!
