//! The bidirectional type checker: checks a term against an expected type
//! under a record-shaped typing context whose fields hold types, resolving
//! unknowns through a session-scoped metavariable arena.
//!
//! Unification recursion resolves metavariable chains, which are not
//! structurally decreasing, so the checker carries a caller-imposed budget;
//! an exhausted budget surfaces as an ordinary mismatch.

use vstd::prelude::*;

use crate::eval::eval_spec;
use crate::eval::evaluate;
use crate::term::Key;
use crate::term::KeyV;
use crate::term::PrimType;
use crate::term::PrimV;
use crate::term::Primitive;
use crate::term::Term;
use crate::term::TermV;
use crate::values::Field;
use crate::values::FieldV;
use crate::values::Record;
use crate::values::TypeField;
use crate::values::TypeFieldV;
use crate::values::TypeValue;
use crate::values::TypeValueV;
use crate::values::Value;
use crate::values::ValueV;
use crate::values::VarIdx;
use crate::values::lemma_view_fields;
use crate::values::lemma_view_type_fields;
use crate::values::lookup_spec;
use crate::values::view_field;
use crate::values::view_fields;
use crate::values::view_type_field;
use crate::values::view_type_fields;
use crate::values::view_type_value;
use crate::values::view_value;

verus! {

/// A failed check: the term at fault, the type inferred for it, and the
/// type that was expected. Always returned, never panicked; recoverable.
#[derive(Debug)]
pub enum TypeError<P> {
    Mismatch(Term, Value<P>, Value<P>),
}

/// Mathematical view of a [`TypeError`].
pub enum TypeErrorV<P> {
    Mismatch(TermV, ValueV<P>, ValueV<P>),
}

impl<P> View for TypeError<P> {
    type V = TypeErrorV<P>;

    open spec fn view(&self) -> TypeErrorV<P> {
        match self {
            TypeError::Mismatch(t, inferred, expected) => TypeErrorV::Mismatch(
                t@,
                view_value(*inferred),
                view_value(*expected),
            ),
        }
    }
}

/// A metavariable arena: one optional binding per minted variable.
pub open spec fn bindings_view<P>(s: Seq<Option<Value<P>>>) -> Seq<Option<ValueV<P>>> {
    Seq::new(
        s.len(),
        |i: int|
            match s[i] {
                Some(v) => Some(view_value(v)),
                None => None,
            },
    )
}

/// The atomic type of a primitive value.
pub open spec fn kind_of(p: PrimV) -> PrimType {
    match p {
        PrimV::Long(_) => PrimType::Long,
        PrimV::Text(_) => PrimType::Text,
    }
}

/// The type of the ambient context itself: a record context's type is the
/// record type of its fields; a value that is already a type is its own
/// type; anything else stands for itself.
pub open spec fn ctx_type<P>(ctx: ValueV<P>) -> ValueV<P> {
    match ctx {
        ValueV::Record(fs) => ValueV::Type(
            TypeValueV::Record(
                Seq::new(fs.len(), |i: int| TypeFieldV { name: fs[i].name, typ: fs[i].value }),
            ),
        ),
        ValueV::Type(tv) => ValueV::Type(tv),
        _ => ctx,
    }
}

/// The context in which a function body is checked: a record type becomes
/// the record of its field types; any other domain stands as the context
/// itself.
pub open spec fn record_of<P>(dom: ValueV<P>) -> ValueV<P> {
    match dom {
        ValueV::Type(TypeValueV::Record(tfs)) => ValueV::Record(
            Seq::new(tfs.len(), |i: int| FieldV { name: tfs[i].name, value: tfs[i].typ }),
        ),
        _ => dom,
    }
}

/// The first field of a record type whose name matches the key.
pub open spec fn lookup_type_field<P>(s: Seq<TypeFieldV<P>>, k: KeyV) -> Option<ValueV<P>>
    decreases s.len(),
{
    if s.len() == 0 {
        None
    } else if Key::matches_spec(s[0].name, k) {
        Some(s[0].typ)
    } else {
        lookup_type_field(s.drop_first(), k)
    }
}

/// Whether a primitive type stands for any type at all in unification.
pub open spec fn is_wildcard(pt: PrimType) -> bool {
    pt == PrimType::Universe || pt == PrimType::Any
}

/// Structural unification up to metavariable resolution: resolving a bound
/// variable follows its binding; an unbound variable is bound to the other
/// side. `Universe` and `Any` accept any type. Function types unify
/// contravariantly on the domain, covariantly on the codomain; record types
/// by field name, order-independently. Every recursive step charges the
/// budget; an exhausted budget fails like a mismatch.
pub open spec fn unify_spec<P>(
    arena: Seq<Option<ValueV<P>>>,
    a: ValueV<P>,
    b: ValueV<P>,
    fuel: nat,
) -> (Seq<Option<ValueV<P>>>, Result<ValueV<P>, ()>)
    decreases fuel,
{
    if fuel == 0 {
        (arena, Err(()))
    } else {
        let f2 = (fuel - 1) as nat;
        match a {
            ValueV::Variable(i) => if i.0 >= arena.len() {
                (arena, Err(()))
            } else {
                match arena[i.0 as int] {
                    Some(t) => unify_spec(arena, t, b, f2),
                    None => match b {
                        ValueV::Variable(j) => if j.0 == i.0 {
                            (arena, Ok(a))
                        } else {
                            (arena.update(i.0 as int, Some(b)), Ok(b))
                        },
                        _ => (arena.update(i.0 as int, Some(b)), Ok(b)),
                    },
                }
            },
            _ => match b {
                ValueV::Variable(j) => if j.0 >= arena.len() {
                    (arena, Err(()))
                } else {
                    match arena[j.0 as int] {
                        Some(t) => unify_spec(arena, a, t, f2),
                        None => (arena.update(j.0 as int, Some(a)), Ok(a)),
                    }
                },
                _ => match (a, b) {
                    (ValueV::Prim(p), ValueV::Prim(q)) => if p == q {
                        (arena, Ok(a))
                    } else {
                        (arena, Err(()))
                    },
                    (ValueV::Type(t1), ValueV::Type(t2)) => {
                        let (ar2, r) = unify_type_spec(arena, t1, t2, f2);
                        (
                            ar2,
                            match r {
                                Ok(tv) => Ok(ValueV::Type(tv)),
                                Err(()) => Err(()),
                            },
                        )
                    },
                    _ => (arena, Err(())),
                },
            },
        }
    }
}

/// Unifies two types in normal form.
pub open spec fn unify_type_spec<P>(
    arena: Seq<Option<ValueV<P>>>,
    t1: TypeValueV<P>,
    t2: TypeValueV<P>,
    fuel: nat,
) -> (Seq<Option<ValueV<P>>>, Result<TypeValueV<P>, ()>)
    decreases fuel,
{
    if fuel == 0 {
        (arena, Err(()))
    } else {
        let f2 = (fuel - 1) as nat;
        match (t1, t2) {
            (TypeValueV::Prim(p), TypeValueV::Prim(q)) => if p == q || is_wildcard(p) {
                (arena, Ok(TypeValueV::Prim(q)))
            } else if is_wildcard(q) {
                (arena, Ok(TypeValueV::Prim(p)))
            } else {
                (arena, Err(()))
            },
            (TypeValueV::Prim(p), _) => if is_wildcard(p) {
                (arena, Ok(t2))
            } else {
                (arena, Err(()))
            },
            (_, TypeValueV::Prim(q)) => if is_wildcard(q) {
                (arena, Ok(t1))
            } else {
                (arena, Err(()))
            },
            (
                TypeValueV::Function { dom: d1, codom: c1 },
                TypeValueV::Function { dom: d2, codom: c2 },
            ) => {
                let (ar1, rd) = unify_spec(arena, *d2, *d1, f2);
                match rd {
                    Err(()) => (ar1, Err(())),
                    Ok(du) => {
                        let (ar2, rc) = unify_spec(ar1, *c1, *c2, f2);
                        match rc {
                            Err(()) => (ar2, Err(())),
                            Ok(cu) => (
                                ar2,
                                Ok(
                                    TypeValueV::Function {
                                        dom: Box::new(du),
                                        codom: Box::new(cu),
                                    },
                                ),
                            ),
                        }
                    },
                }
            },
            (TypeValueV::Record(s1), TypeValueV::Record(s2)) => if s1.len() != s2.len() {
                (arena, Err(()))
            } else {
                let (ar2, r) = unify_type_fields_spec(arena, s1, s2, f2);
                (
                    ar2,
                    match r {
                        Ok(fs) => Ok(TypeValueV::Record(fs)),
                        Err(()) => Err(()),
                    },
                )
            },
            _ => (arena, Err(())),
        }
    }
}

/// Unifies record-type fields pairwise by name: each left field must find a
/// first name match on the right, and their types must unify. The result
/// keeps the left side's order.
pub open spec fn unify_type_fields_spec<P>(
    arena: Seq<Option<ValueV<P>>>,
    s1: Seq<TypeFieldV<P>>,
    s2: Seq<TypeFieldV<P>>,
    fuel: nat,
) -> (Seq<Option<ValueV<P>>>, Result<Seq<TypeFieldV<P>>, ()>)
    decreases fuel,
{
    if fuel == 0 {
        (arena, Err(()))
    } else if s1.len() == 0 {
        (arena, Ok(Seq::empty()))
    } else {
        let f2 = (fuel - 1) as nat;
        match lookup_type_field(s2, s1[0].name) {
            None => (arena, Err(())),
            Some(t2) => {
                let (ar1, r) = unify_spec(arena, s1[0].typ, t2, f2);
                match r {
                    Err(()) => (ar1, Err(())),
                    Ok(u) => {
                        let (ar2, rest) = unify_type_fields_spec(ar1, s1.drop_first(), s2, f2);
                        match rest {
                            Err(()) => (ar2, Err(())),
                            Ok(fs) => (
                                ar2,
                                Ok(seq![TypeFieldV { name: s1[0].name, typ: u }] + fs),
                            ),
                        }
                    },
                }
            },
        }
    }
}

/// Unifies the types of fields claimed by both sides of an `Append`: for
/// each right-side field whose name also stands on the left, the two types
/// must unify. Names owned by one side alone pass through.
pub open spec fn merge_append_spec<P>(
    arena: Seq<Option<ValueV<P>>>,
    s1: Seq<TypeFieldV<P>>,
    s2: Seq<TypeFieldV<P>>,
    fuel: nat,
) -> (Seq<Option<ValueV<P>>>, Result<(), ()>)
    decreases s2.len(),
{
    if s2.len() == 0 {
        (arena, Ok(()))
    } else {
        match lookup_type_field(s1, s2[0].name) {
            None => merge_append_spec(arena, s1, s2.drop_first(), fuel),
            Some(t1) => {
                let (ar1, r) = unify_spec(arena, t1, s2[0].typ, fuel);
                match r {
                    Err(()) => (ar1, Err(())),
                    Ok(_) => merge_append_spec(ar1, s1, s2.drop_first(), fuel),
                }
            },
        }
    }
}

/// What checking a term against an expected type does to the arena, and
/// what it returns: the inferred type unified with the expectation, or a
/// mismatch naming the term, the inferred type and the expectation.
///
/// The inference per term: `Empty` has the empty record type; a primitive
/// its kind; a type term `Universe`; `Bind` a singleton field type from its
/// value's inferred type; `Append` the concatenation of two record types,
/// after the types of names claimed by both sides unify; `Get` the type the
/// context holds for the key; `Reflect` the context's own type. A function
/// body is checked with the evaluated domain as its context, not the
/// enclosing context, and the function gets an arrow type; an application
/// checks its function position against an arrow whose domain is the
/// context's type (the argument, threaded in by `Then`) and yields the
/// codomain. `Then` checks its continuation in the record of its first
/// step's type. A deferred term checks against anything: its type is a
/// fresh metavariable bound to the expectation.
pub open spec fn check_spec<P>(
    arena: Seq<Option<ValueV<P>>>,
    t: TermV,
    ctx: ValueV<P>,
    expected: ValueV<P>,
    fuel: nat,
) -> (Seq<Option<ValueV<P>>>, Result<ValueV<P>, TypeErrorV<P>>)
    decreases fuel, t,
{
    match t {
        TermV::Empty => unify_expect(
            arena,
            t,
            ValueV::Type(TypeValueV::Record(Seq::empty())),
            expected,
            fuel,
        ),
        TermV::Reflect => unify_expect(arena, t, ctx_type(ctx), expected, fuel),
        TermV::Prim(p) => unify_expect(
            arena,
            t,
            ValueV::Type(TypeValueV::Prim(kind_of(p))),
            expected,
            fuel,
        ),
        TermV::Type(_) => unify_expect(
            arena,
            t,
            ValueV::Type(TypeValueV::Prim(PrimType::Universe)),
            expected,
            fuel,
        ),
        TermV::Bind { name, value } => {
            let fresh = ValueV::Variable(VarIdx(arena.len() as usize));
            let ar0 = arena.push(None);
            let (ar1, rv) = check_spec(ar0, *value, ctx, fresh, fuel);
            match rv {
                Err(e) => (ar1, Err(e)),
                Ok(vt) => unify_expect(
                    ar1,
                    t,
                    ValueV::Type(TypeValueV::Record(seq![TypeFieldV { name, typ: vt }])),
                    expected,
                    fuel,
                ),
            }
        },
        TermV::Append { left, right } => {
            let fresh1 = ValueV::Variable(VarIdx(arena.len() as usize));
            let ar0 = arena.push(None);
            let (ar1, rl) = check_spec(ar0, *left, ctx, fresh1, fuel);
            match rl {
                Err(e) => (ar1, Err(e)),
                Ok(lt) => {
                    let fresh2 = ValueV::Variable(VarIdx(ar1.len() as usize));
                    let ar2 = ar1.push(None);
                    let (ar3, rr) = check_spec(ar2, *right, ctx, fresh2, fuel);
                    match rr {
                        Err(e) => (ar3, Err(e)),
                        Ok(rt) => match (lt, rt) {
                            (
                                ValueV::Type(TypeValueV::Record(s1)),
                                ValueV::Type(TypeValueV::Record(s2)),
                            ) => {
                                let (ar4, rm) = merge_append_spec(ar3, s1, s2, fuel);
                                match rm {
                                    Err(()) => (ar4, Err(TypeErrorV::Mismatch(t, lt, rt))),
                                    Ok(()) => unify_expect(
                                        ar4,
                                        t,
                                        ValueV::Type(TypeValueV::Record(s1 + s2)),
                                        expected,
                                        fuel,
                                    ),
                                }
                            },
                            _ => (ar3, Err(TypeErrorV::Mismatch(t, lt, rt))),
                        },
                    }
                },
            }
        },
        TermV::Get(k) => match ctx {
            ValueV::Record(fs) => match lookup_spec(fs, k) {
                Some(typ) => unify_expect(arena, t, typ, expected, fuel),
                None => (arena, Err(TypeErrorV::Mismatch(t, ctx_type(ctx), expected))),
            },
            _ => (arena, Err(TypeErrorV::Mismatch(t, ctx_type(ctx), expected))),
        },
        TermV::Lambda { dom, body } => match eval_spec(*dom, ctx, fuel) {
            Err(_) => (arena, Err(TypeErrorV::Mismatch(t, ctx_type(ctx), expected))),
            Ok(dv) => {
                let fresh = ValueV::Variable(VarIdx(arena.len() as usize));
                let ar0 = arena.push(None);
                let (ar1, rb) = check_spec(ar0, *body, record_of(dv), fresh, fuel);
                match rb {
                    Err(e) => (ar1, Err(e)),
                    Ok(bt) => unify_expect(
                        ar1,
                        t,
                        ValueV::Type(
                            TypeValueV::Function { dom: Box::new(dv), codom: Box::new(bt) },
                        ),
                        expected,
                        fuel,
                    ),
                }
            },
        },
        TermV::Unlambda(f) => {
            let fresh = ValueV::Variable(VarIdx(arena.len() as usize));
            let ar0 = arena.push(None);
            let want = ValueV::Type(
                TypeValueV::Function {
                    dom: Box::new(ctx_type(ctx)),
                    codom: Box::new(fresh),
                },
            );
            let (ar1, rf) = check_spec(ar0, *f, ctx, want, fuel);
            match rf {
                Err(e) => (ar1, Err(e)),
                Ok(ft) => match ft {
                    ValueV::Type(TypeValueV::Function { dom: _, codom }) => unify_expect(
                        ar1,
                        t,
                        *codom,
                        expected,
                        fuel,
                    ),
                    _ => (ar1, Err(TypeErrorV::Mismatch(t, ft, want))),
                },
            }
        },
        TermV::Then { first, next } => {
            let fresh = ValueV::Variable(VarIdx(arena.len() as usize));
            let ar0 = arena.push(None);
            let (ar1, rf) = check_spec(ar0, *first, ctx, fresh, fuel);
            match rf {
                Err(e) => (ar1, Err(e)),
                Ok(ft) => check_spec(ar1, *next, record_of(ft), expected, fuel),
            }
        },
        TermV::Boxed(_) => {
            let fresh = ValueV::Variable(VarIdx(arena.len() as usize));
            let ar0 = arena.push(None);
            unify_expect(ar0, t, fresh, expected, fuel)
        },
    }
}

/// Decides structural equality of two primitives.
pub fn prim_eq(p: &Primitive, q: &Primitive) -> (r: bool)
    ensures
        r == (p@ == q@),
{
    match (p, q) {
        (Primitive::Long(x), Primitive::Long(y)) => *x == *y,
        (Primitive::Text(s), Primitive::Text(t)) => *s == *t,
        _ => false,
    }
}

/// Where the first `j` type fields do not match a key, the lookup is
/// decided by what stands at position `j`.
pub proof fn lemma_lookup_type_field<P>(fields: Seq<TypeFieldV<P>>, k: KeyV, j: int)
    requires
        0 <= j <= fields.len(),
        forall|i: int| 0 <= i < j ==> !Key::matches_spec(#[trigger] fields[i].name, k),
    ensures
        j == fields.len() ==> lookup_type_field(fields, k) is None,
        j < fields.len() && Key::matches_spec(fields[j].name, k) ==> lookup_type_field(fields, k)
            == Some(fields[j].typ),
    decreases j,
{
    if j > 0 {
        assert(!Key::matches_spec(fields[0].name, k));
        lemma_lookup_type_field(fields.drop_first(), k, j - 1);
        if j < fields.len() {
            assert(fields.drop_first()[j - 1] == fields[j]);
        }
    }
}

/// Finds the first field of a record type whose name matches the key.
fn find_type_field<'a, P>(fields: &'a Vec<TypeField<P>>, k: &Key) -> (r: Option<&'a Value<P>>)
    ensures
        (match r {
            Some(v) => lookup_type_field(view_type_fields(fields@), k@) == Some(v@),
            None => lookup_type_field(view_type_fields(fields@), k@) is None,
        }),
{
    proof {
        lemma_view_type_fields(fields@);
    }
    let mut j: usize = 0;
    while j < fields.len()
        invariant
            j <= fields@.len(),
            view_type_fields(fields@).len() == fields@.len(),
            forall|i: int|
                0 <= i < fields@.len() ==> #[trigger] view_type_fields(fields@)[i]
                    == view_type_field(fields@[i]),
            forall|i: int|
                0 <= i < j ==> !Key::matches_spec(
                    #[trigger] view_type_fields(fields@)[i].name,
                    k@,
                ),
        decreases fields@.len() - j,
    {
        if fields[j].name.matches(k) {
            proof {
                lemma_lookup_type_field(view_type_fields(fields@), k@, j as int);
            }
            return Some(&fields[j].typ);
        }
        j = j + 1;
    }
    proof {
        lemma_lookup_type_field(view_type_fields(fields@), k@, fields@.len() as int);
    }
    None
}

/// The per-session checker state: the metavariable arena, the only mutable
/// state of a checking session.
#[derive(Debug)]
pub struct TypeChecking<P> {
    bindings: Vec<Option<Value<P>>>,
}

impl<P> View for TypeChecking<P> {
    type V = Seq<Option<ValueV<P>>>;

    closed spec fn view(&self) -> Seq<Option<ValueV<P>>> {
        bindings_view(self.bindings@)
    }
}

impl<P: Copy> TypeChecking<P> {
    /// Starts a session with an empty arena.
    pub fn new() -> (r: Self)
        ensures
            r@ == Seq::<Option<ValueV<P>>>::empty(),
    {
        let r = TypeChecking { bindings: Vec::new() };
        proof {
            assert(bindings_view(r.bindings@) =~= Seq::<Option<ValueV<P>>>::empty());
        }
        r
    }

    /// Mints a fresh, unbound metavariable.
    pub fn new_var(&mut self) -> (r: VarIdx)
        ensures
            final(self)@ == old(self)@.push(None),
            r.0 == old(self)@.len(),
    {
        let i = self.bindings.len();
        self.bindings.push(None);
        proof {
            assert(bindings_view(self.bindings@) =~= bindings_view(old(self).bindings@).push(
                None,
            ));
        }
        VarIdx(i)
    }

    /// Unifies two values up to metavariable resolution, binding unbound
    /// variables in the arena.
    pub fn unify(&mut self, a: Value<P>, b: Value<P>, fuel: u64) -> (r: Result<Value<P>, ()>)
        ensures
            ({
                let (ar2, rr) = unify_spec(old(self)@, a@, b@, fuel as nat);
                final(self)@ == ar2 && (match (r, rr) {
                    (Ok(v), Ok(w)) => v@ == w,
                    (Err(_), Err(_)) => true,
                    _ => false,
                })
            }),
        decreases fuel,
    {
        if fuel == 0 {
            return Err(());
        }
        let f2 = fuel - 1;
        match (&a, &b) {
            (Value::Variable(i), _) => {
                let ix = i.0;
                if ix >= self.bindings.len() {
                    Err(())
                } else {
                    let bound = match &self.bindings[ix] {
                        Some(t) => Some(t.clone()),
                        None => None,
                    };
                    match bound {
                        Some(t) => self.unify(t, b, f2),
                        None => {
                            match &b {
                                Value::Variable(j) => {
                                    if j.0 == ix {
                                        Ok(b)
                                    } else {
                                        let b2 = b.clone();
                                        self.bindings.set(ix, Some(b));
                                        proof {
                                            assert(bindings_view(self.bindings@) =~= bindings_view(
                                                old(self).bindings@,
                                            ).update(ix as int, Some(b2@)));
                                        }
                                        Ok(b2)
                                    }
                                },
                                _ => {
                                    let b2 = b.clone();
                                    self.bindings.set(ix, Some(b));
                                    proof {
                                        assert(bindings_view(self.bindings@) =~= bindings_view(
                                            old(self).bindings@,
                                        ).update(ix as int, Some(b2@)));
                                    }
                                    Ok(b2)
                                },
                            }
                        },
                    }
                }
            },
            (_, Value::Variable(j)) => {
                let jx = j.0;
                if jx >= self.bindings.len() {
                    Err(())
                } else {
                    let bound = match &self.bindings[jx] {
                        Some(t) => Some(t.clone()),
                        None => None,
                    };
                    match bound {
                        Some(t) => self.unify(a, t, f2),
                        None => {
                            let a2 = a.clone();
                            self.bindings.set(jx, Some(a));
                            proof {
                                assert(bindings_view(self.bindings@) =~= bindings_view(
                                    old(self).bindings@,
                                ).update(jx as int, Some(a2@)));
                            }
                            Ok(a2)
                        },
                    }
                }
            },
            (Value::Prim(p), Value::Prim(q)) => {
                if prim_eq(p, q) {
                    Ok(Value::Prim(p.clone()))
                } else {
                    Err(())
                }
            },
            (Value::Type(t1), Value::Type(t2)) => {
                let t1c = t1.clone();
                let t2c = t2.clone();
                match self.unify_type(t1c, t2c, f2) {
                    Ok(tv) => Ok(Value::Type(tv)),
                    Err(()) => Err(()),
                }
            },
            _ => Err(()),
        }
    }

    /// Unifies two types in normal form.
    fn unify_type(&mut self, t1: TypeValue<P>, t2: TypeValue<P>, fuel: u64) -> (r: Result<
        TypeValue<P>,
        (),
    >)
        ensures
            ({
                let (ar2, rr) = unify_type_spec(old(self)@, t1@, t2@, fuel as nat);
                final(self)@ == ar2 && (match (r, rr) {
                    (Ok(v), Ok(w)) => v@ == w,
                    (Err(_), Err(_)) => true,
                    _ => false,
                })
            }),
        decreases fuel,
    {
        if fuel == 0 {
            return Err(());
        }
        let f2 = fuel - 1;
        match (&t1, &t2) {
            (TypeValue::Prim(p), TypeValue::Prim(q)) => {
                if *p == *q || is_wild(*p) {
                    Ok(TypeValue::Prim(*q))
                } else if is_wild(*q) {
                    Ok(TypeValue::Prim(*p))
                } else {
                    Err(())
                }
            },
            (TypeValue::Prim(p), _) => {
                if is_wild(*p) {
                    Ok(t2)
                } else {
                    Err(())
                }
            },
            (_, TypeValue::Prim(q)) => {
                if is_wild(*q) {
                    Ok(t1)
                } else {
                    Err(())
                }
            },
            (
                TypeValue::Function { dom: d1, codom: c1 },
                TypeValue::Function { dom: d2, codom: c2 },
            ) => {
                let rd = self.unify((**d2).clone(), (**d1).clone(), f2);
                match rd {
                    Err(()) => Err(()),
                    Ok(du) => {
                        let rc = self.unify((**c1).clone(), (**c2).clone(), f2);
                        match rc {
                            Err(()) => Err(()),
                            Ok(cu) => Ok(
                                TypeValue::Function { dom: Box::new(du), codom: Box::new(cu) },
                            ),
                        }
                    },
                }
            },
            (TypeValue::Record { fields: s1 }, TypeValue::Record { fields: s2 }) => {
                if s1.len() != s2.len() {
                    proof {
                        lemma_view_type_fields(s1@);
                        lemma_view_type_fields(s2@);
                    }
                    Err(())
                } else {
                    proof {
                        lemma_view_type_fields(s1@);
                        lemma_view_type_fields(s2@);
                        assert(view_type_fields(s1@).skip(0) =~= view_type_fields(s1@));
                    }
                    let s1c = clone_type_field_vec(s1);
                    let s2c = clone_type_field_vec(s2);
                    match self.unify_fields(&s1c, 0, &s2c, f2) {
                        Ok(fs) => Ok(TypeValue::Record { fields: fs }),
                        Err(()) => Err(()),
                    }
                }
            },
            _ => Err(()),
        }
    }

    /// Unifies the tail of `s1` starting at `start` against `s2`, field by
    /// field by name.
    fn unify_fields(
        &mut self,
        s1: &Vec<TypeField<P>>,
        start: usize,
        s2: &Vec<TypeField<P>>,
        fuel: u64,
    ) -> (r: Result<Vec<TypeField<P>>, ()>)
        requires
            start <= s1@.len(),
        ensures
            ({
                let (ar2, rr) = unify_type_fields_spec(
                    old(self)@,
                    view_type_fields(s1@).skip(start as int),
                    view_type_fields(s2@),
                    fuel as nat,
                );
                final(self)@ == ar2 && (match (r, rr) {
                    (Ok(v), Ok(w)) => view_type_fields(v@) == w,
                    (Err(_), Err(_)) => true,
                    _ => false,
                })
            }),
        decreases fuel,
    {
        proof {
            lemma_view_type_fields(s1@);
        }
        if fuel == 0 {
            return Err(());
        }
        let f2 = fuel - 1;
        if start == s1.len() {
            proof {
                assert(view_type_fields(s1@).skip(start as int) =~= Seq::<
                    TypeFieldV<P>,
                >::empty());
                assert(view_type_fields(Seq::<TypeField<P>>::empty()) =~= Seq::<
                    TypeFieldV<P>,
                >::empty());
            }
            let out: Vec<TypeField<P>> = Vec::new();
            proof {
                assert(view_type_fields(out@) =~= Seq::<TypeFieldV<P>>::empty());
            }
            return Ok(out);
        }
        proof {
            assert(view_type_fields(s1@).skip(start as int)[0] == view_type_field(
                s1@[start as int],
            ));
        }
        let head = &s1[start];
        let t2 = match find_type_field(s2, &head.name) {
            Some(v) => v.clone(),
            None => {
                return Err(());
            },
        };
        let u = match self.unify(head.typ.clone(), t2, f2) {
            Ok(u) => u,
            Err(()) => {
                return Err(());
            },
        };
        proof {
            assert(view_type_fields(s1@).skip(start as int).drop_first() =~= view_type_fields(
                s1@,
            ).skip(start as int + 1));
        }
        let mut rest = match self.unify_fields(s1, start + 1, s2, f2) {
            Ok(v) => v,
            Err(()) => {
                return Err(());
            },
        };
        let ghost grest = rest@;
        rest.insert(0, TypeField { name: head.name.clone(), typ: u });
        proof {
            lemma_view_type_fields(grest);
            lemma_view_type_fields(rest@);
            assert(rest@.drop_first() =~= grest);
            assert(view_type_fields(rest@) =~= seq![view_type_field(rest@[0])]
                + view_type_fields(grest));
        }
        Ok(rest)
    }

    /// Unifies the types of names claimed by both sides of an `Append`,
    /// walking the right side from `start`.
    fn merge_append(
        &mut self,
        s1: &Vec<TypeField<P>>,
        s2: &Vec<TypeField<P>>,
        start: usize,
        fuel: u64,
    ) -> (r: Result<(), ()>)
        requires
            start <= s2@.len(),
        ensures
            ({
                let (ar2, rr) = merge_append_spec(
                    old(self)@,
                    view_type_fields(s1@),
                    view_type_fields(s2@).skip(start as int),
                    fuel as nat,
                );
                final(self)@ == ar2 && (match (r, rr) {
                    (Ok(_), Ok(_)) => true,
                    (Err(_), Err(_)) => true,
                    _ => false,
                })
            }),
        decreases s2@.len() - start,
    {
        proof {
            lemma_view_type_fields(s2@);
        }
        if start == s2.len() {
            proof {
                assert(view_type_fields(s2@).skip(start as int) =~= Seq::<
                    TypeFieldV<P>,
                >::empty());
            }
            return Ok(());
        }
        proof {
            assert(view_type_fields(s2@).skip(start as int)[0] == view_type_field(
                s2@[start as int],
            ));
            assert(view_type_fields(s2@).skip(start as int).drop_first() =~= view_type_fields(
                s2@,
            ).skip(start as int + 1));
        }
        let head = &s2[start];
        match find_type_field(s1, &head.name) {
            None => self.merge_append(s1, s2, start + 1, fuel),
            Some(t1) => {
                let t1c = t1.clone();
                match self.unify(t1c, head.typ.clone(), fuel) {
                    Err(()) => Err(()),
                    Ok(_) => self.merge_append(s1, s2, start + 1, fuel),
                }
            },
        }
    }
}

/// Whether a primitive type stands for any type at all.
fn is_wild(pt: PrimType) -> (r: bool)
    ensures
        r == is_wildcard(pt),
{
    match pt {
        PrimType::Universe => true,
        PrimType::Any => true,
        _ => false,
    }
}

/// Clones a type-field vector, keeping its view.
fn clone_type_field_vec<P: Copy>(fields: &Vec<TypeField<P>>) -> (r: Vec<TypeField<P>>)
    ensures
        view_type_fields(r@) == view_type_fields(fields@),
{
    let mut out: Vec<TypeField<P>> = Vec::new();
    let mut i: usize = 0;
    while i < fields.len()
        invariant
            i <= fields.len(),
            out@.len() == i,
            forall|j: int|
                0 <= j < i ==> #[trigger] view_type_field(out@[j]) == view_type_field(fields@[j]),
        decreases fields@.len() - i,
    {
        let f = &fields[i];
        out.push(f.clone());
        i = i + 1;
    }
    proof {
        lemma_view_type_fields(out@);
        lemma_view_type_fields(fields@);
        assert(view_type_fields(out@) =~= view_type_fields(fields@));
    }
    out
}

/// Unifies an inferred type with the expectation, wrapping failure as a
/// mismatch naming the term.
pub open spec fn unify_expect<P>(
    arena: Seq<Option<ValueV<P>>>,
    t: TermV,
    inferred: ValueV<P>,
    expected: ValueV<P>,
    fuel: nat,
) -> (Seq<Option<ValueV<P>>>, Result<ValueV<P>, TypeErrorV<P>>) {
    let (ar2, r) = unify_spec(arena, inferred, expected, fuel);
    (
        ar2,
        match r {
            Ok(u) => Ok(u),
            Err(()) => Err(TypeErrorV::Mismatch(t, inferred, expected)),
        },
    )
}


/// The type of the ambient context, as a value.
pub fn context_type<P: Copy>(ctx: &Value<P>) -> (r: Value<P>)
    ensures
        r@ == ctx_type(ctx@),
{
    match ctx {
        Value::Record(rec) => {
            proof {
                lemma_view_fields(rec.fields@);
            }
            let mut tfs: Vec<TypeField<P>> = Vec::new();
            let mut i: usize = 0;
            while i < rec.fields.len()
                invariant
                    i <= rec.fields@.len(),
                    tfs@.len() == i,
                    view_fields(rec.fields@).len() == rec.fields@.len(),
                    forall|j: int|
                        0 <= j < rec.fields@.len() ==> #[trigger] view_fields(rec.fields@)[j]
                            == view_field(rec.fields@[j]),
                    forall|j: int|
                        0 <= j < i ==> #[trigger] view_type_field(tfs@[j]) == (TypeFieldV {
                            name: view_fields(rec.fields@)[j].name,
                            typ: view_fields(rec.fields@)[j].value,
                        }),
                decreases rec.fields@.len() - i,
            {
                let f = &rec.fields[i];
                tfs.push(TypeField { name: f.name.clone(), typ: f.value.clone() });
                i = i + 1;
            }
            let out = Value::Type(TypeValue::Record { fields: tfs });
            proof {
                lemma_view_type_fields(tfs@);
                let fs = view_fields(rec.fields@);
                assert(view_type_fields(tfs@) =~= Seq::new(
                    fs.len(),
                    |j: int| TypeFieldV { name: fs[j].name, typ: fs[j].value },
                ));
                assert(view_type_value(TypeValue::Record { fields: tfs })
                    == TypeValueV::Record(view_type_fields(tfs@)));
            }
            out
        },
        Value::Type(tv) => Value::Type(tv.clone()),
        _ => ctx.clone(),
    }
}

/// The context in which a function body is checked, from the function's
/// domain type.
pub fn record_context<P: Copy>(dom: &Value<P>) -> (r: Value<P>)
    ensures
        r@ == record_of(dom@),
{
    let ghost gd = dom@;
    match dom {
        Value::Type(TypeValue::Record { fields: tfs }) => {
            proof {
                lemma_view_type_fields(tfs@);
                assert(gd == view_value(Value::Type(TypeValue::Record { fields: *tfs })));
                assert(view_type_value(TypeValue::Record { fields: *tfs })
                    == TypeValueV::Record(view_type_fields(tfs@)));
            }
            let mut fs: Vec<Field<P>> = Vec::new();
            let mut i: usize = 0;
            while i < tfs.len()
                invariant
                    i <= tfs@.len(),
                    fs@.len() == i,
                    view_type_fields(tfs@).len() == tfs@.len(),
                    forall|j: int|
                        0 <= j < tfs@.len() ==> #[trigger] view_type_fields(tfs@)[j]
                            == view_type_field(tfs@[j]),
                    forall|j: int|
                        0 <= j < i ==> #[trigger] view_field(fs@[j]) == (FieldV {
                            name: view_type_fields(tfs@)[j].name,
                            value: view_type_fields(tfs@)[j].typ,
                        }),
                decreases tfs@.len() - i,
            {
                let f = &tfs[i];
                fs.push(Field { name: f.name.clone(), value: f.typ.clone() });
                i = i + 1;
            }
            let out = Value::Record(Record { fields: fs });
            proof {
                lemma_view_fields(fs@);
                assert(record_of(gd) is Record);
                assert(view_fields(fs@) =~= record_of(gd)->Record_0);
                assert(out@ == record_of(gd));
            }
            out
        },
        Value::Type(tv) => {
            let c = dom.clone();
            proof {
                assert(gd == ValueV::Type(view_type_value(*tv)));
                assert(!(view_type_value(*tv) is Record));
                assert(c@ == record_of(gd));
            }
            c
        },
        _ => {
            let c = dom.clone();
            proof {
                assert(!(gd is Type));
                assert(c@ == record_of(gd));
            }
            c
        },
    }
}

impl<P: Copy> TypeChecking<P> {
    /// Unifies an inferred type with the expectation, wrapping failure as a
    /// mismatch naming the term.
    fn unify_against(&mut self, t: &Term, inferred: Value<P>, expected: Value<P>, fuel: u64) -> (r:
        Result<Value<P>, TypeError<P>>)
        ensures
            ({
                let (ar2, rr) = unify_expect(old(self)@, t@, inferred@, expected@, fuel as nat);
                final(self)@ == ar2 && (match (r, rr) {
                    (Ok(v), Ok(w)) => v@ == w,
                    (Err(e), Err(w)) => e@ == w,
                    _ => false,
                })
            }),
    {
        let ic = inferred.clone();
        let ec = expected.clone();
        match self.unify(inferred, expected, fuel) {
            Ok(u) => Ok(u),
            Err(()) => Err(TypeError::Mismatch(t.clone(), ic, ec)),
        }
    }

    /// Checks a term under a record-shaped typing context against an
    /// expected type; returns the inferred type unified with the
    /// expectation, or the mismatch that stopped it. Pass a fresh
    /// metavariable as the expectation when only inference is wanted.
    pub fn check(&mut self, term: &Term, context: &Value<P>, expected: &Value<P>, fuel: u64) -> (r:
        Result<Value<P>, TypeError<P>>)
        ensures
            ({
                let (ar2, rr) = check_spec(old(self)@, term@, context@, expected@, fuel as nat);
                final(self)@ == ar2 && (match (r, rr) {
                    (Ok(v), Ok(w)) => v@ == w,
                    (Err(e), Err(w)) => e@ == w,
                    _ => false,
                })
            }),
        decreases fuel, term,
    {
        match term {
            Term::Empty => {
                let tfs: Vec<TypeField<P>> = Vec::new();
                proof {
                    assert(view_type_fields(tfs@) =~= Seq::<TypeFieldV<P>>::empty());
                    assert(view_type_value(TypeValue::Record { fields: tfs })
                        == TypeValueV::Record(view_type_fields(tfs@)));
                }
                let inferred = Value::Type(TypeValue::Record { fields: tfs });
                proof {
                    assert(inferred@ == ValueV::Type(TypeValueV::Record(Seq::<
                        TypeFieldV<P>,
                    >::empty())));
                }
                self.unify_against(term, inferred, expected.clone(), fuel)
            },
            Term::Reflect => {
                let it = context_type(context);
                self.unify_against(term, it, expected.clone(), fuel)
            },
            Term::Prim(p) => {
                let kind = match p {
                    Primitive::Long(_) => PrimType::Long,
                    Primitive::Text(_) => PrimType::Text,
                };
                proof {
                    assert(view_type_value(TypeValue::<P>::Prim(kind)) == TypeValueV::<
                        P,
                    >::Prim(kind));
                }
                let inferred = Value::Type(TypeValue::Prim(kind));
                proof {
                    assert(inferred@ == ValueV::Type(TypeValueV::<P>::Prim(kind_of(p@))));
                }
                self.unify_against(term, inferred, expected.clone(), fuel)
            },
            Term::Type(_) => {
                proof {
                    assert(view_type_value(TypeValue::<P>::Prim(PrimType::Universe))
                        == TypeValueV::<P>::Prim(PrimType::Universe));
                }
                let inferred = Value::Type(TypeValue::Prim(PrimType::Universe));
                proof {
                    assert(inferred@ == ValueV::Type(TypeValueV::<P>::Prim(PrimType::Universe)));
                }
                self.unify_against(term, inferred, expected.clone(), fuel)
            },
            Term::Bind { name, value } => {
                let v = self.new_var();
                let fresh = Value::Variable(v);
                let rv = self.check(value, context, &fresh, fuel);
                match rv {
                    Err(e) => Err(e),
                    Ok(vt) => {
                        let ghost gvt = vt@;
                        let mut tfs: Vec<TypeField<P>> = Vec::new();
                        tfs.push(TypeField { name: name.clone(), typ: vt });
                        let inferred = Value::Type(TypeValue::Record { fields: tfs });
                        proof {
                            assert(tfs@.drop_first() =~= Seq::<TypeField<P>>::empty());
                            assert(view_type_fields(tfs@.drop_first()) =~= Seq::<
                                TypeFieldV<P>,
                            >::empty());
                            assert(view_type_fields(tfs@) =~= seq![view_type_field(tfs@[0])]);
                            assert(view_type_fields(tfs@) =~= (seq![
                                TypeFieldV::<P> { name: name@, typ: gvt },
                            ]));
                            assert(view_type_value(TypeValue::Record { fields: tfs })
                                == TypeValueV::Record(view_type_fields(tfs@)));
                        }
                        self.unify_against(term, inferred, expected.clone(), fuel)
                    },
                }
            },
            Term::Append { left, right } => {
                let v1 = self.new_var();
                let fresh1 = Value::Variable(v1);
                let rl = self.check(left, context, &fresh1, fuel);
                match rl {
                    Err(e) => Err(e),
                    Ok(lt) => {
                        let v2 = self.new_var();
                        let fresh2 = Value::Variable(v2);
                        let rr = self.check(right, context, &fresh2, fuel);
                        match rr {
                            Err(e) => Err(e),
                            Ok(rt) => {
                                let ghost glt = lt@;
                                let ghost grt = rt@;
                                match (&lt, &rt) {
                                    (
                                        Value::Type(TypeValue::Record { fields: s1 }),
                                        Value::Type(TypeValue::Record { fields: s2 }),
                                    ) => {
                                        proof {
                                            assert(glt == view_value(Value::Type(
                                                TypeValue::Record { fields: *s1 },
                                            )));
                                            assert(grt == view_value(Value::Type(
                                                TypeValue::Record { fields: *s2 },
                                            )));
                                            assert(view_type_value(TypeValue::Record {
                                                fields: *s1,
                                            }) == TypeValueV::Record(view_type_fields(s1@)));
                                            assert(view_type_value(TypeValue::Record {
                                                fields: *s2,
                                            }) == TypeValueV::Record(view_type_fields(s2@)));
                                            assert(view_type_fields(s2@).skip(0)
                                                =~= view_type_fields(s2@));
                                        }
                                        match self.merge_append(s1, s2, 0, fuel) {
                                            Err(()) => Err(TypeError::Mismatch(
                                                term.clone(),
                                                lt.clone(),
                                                rt.clone(),
                                            )),
                                            Ok(()) => {
                                                let mut m = clone_type_field_vec(s1);
                                                let mut m2 = clone_type_field_vec(s2);
                                                let ghost gm = m@;
                                                let ghost gm2 = m2@;
                                                m.append(&mut m2);
                                                let inferred = Value::Type(TypeValue::Record {
                                                    fields: m,
                                                });
                                                proof {
                                                    lemma_view_type_fields(gm);
                                                    lemma_view_type_fields(gm2);
                                                    lemma_view_type_fields(gm + gm2);
                                                    assert(view_type_fields(gm + gm2)
                                                        =~= view_type_fields(gm)
                                                        + view_type_fields(gm2));
                                                    assert(view_type_value(TypeValue::Record {
                                                        fields: m,
                                                    }) == TypeValueV::Record(view_type_fields(
                                                        m@,
                                                    )));
                                                }
                                                self.unify_against(
                                                    term,
                                                    inferred,
                                                    expected.clone(),
                                                    fuel,
                                                )
                                            },
                                        }
                                    },
                                    _ => Err(TypeError::Mismatch(
                                        term.clone(),
                                        lt.clone(),
                                        rt.clone(),
                                    )),
                                }
                            },
                        }
                    },
                }
            },
            Term::Get(k) => {
                match context {
                    Value::Record(rec) => {
                        match rec.get(k) {
                            Some(v) => {
                                let vt = v.clone();
                                self.unify_against(term, vt, expected.clone(), fuel)
                            },
                            None => Err(TypeError::Mismatch(
                                term.clone(),
                                context_type(context),
                                expected.clone(),
                            )),
                        }
                    },
                    _ => Err(TypeError::Mismatch(
                        term.clone(),
                        context_type(context),
                        expected.clone(),
                    )),
                }
            },
            Term::Lambda { dom, body } => {
                match evaluate(dom, context, fuel) {
                    Err(_) => Err(TypeError::Mismatch(
                        term.clone(),
                        context_type(context),
                        expected.clone(),
                    )),
                    Ok(dv) => {
                        let bctx = record_context(&dv);
                        let v = self.new_var();
                        let fresh = Value::Variable(v);
                        let rb = self.check(body, &bctx, &fresh, fuel);
                        match rb {
                            Err(e) => Err(e),
                            Ok(bt) => {
                                let ghost gdv = dv@;
                                let ghost gbt = bt@;
                                proof {
                                    assert(view_type_value(TypeValue::Function {
                                        dom: Box::new(dv),
                                        codom: Box::new(bt),
                                    }) == (TypeValueV::Function {
                                        dom: Box::new(gdv),
                                        codom: Box::new(gbt),
                                    }));
                                }
                                let inferred = Value::Type(TypeValue::Function {
                                    dom: Box::new(dv),
                                    codom: Box::new(bt),
                                });
                                proof {
                                    assert(inferred@ == ValueV::Type(TypeValueV::Function {
                                        dom: Box::new(gdv),
                                        codom: Box::new(gbt),
                                    }));
                                }
                                self.unify_against(term, inferred, expected.clone(), fuel)
                            },
                        }
                    },
                }
            },
            Term::Unlambda(f) => {
                let v = self.new_var();
                let ct = context_type(context);
                let ghost gct = ct@;
                proof {
                    assert(view_value(Value::<P>::Variable(v)) == ValueV::<P>::Variable(v));
                    assert(view_type_value(TypeValue::Function {
                        dom: Box::new(ct),
                        codom: Box::new(Value::Variable(v)),
                    }) == (TypeValueV::Function {
                        dom: Box::new(gct),
                        codom: Box::new(ValueV::Variable(v)),
                    }));
                }
                let want = Value::Type(TypeValue::Function {
                    dom: Box::new(ct),
                    codom: Box::new(Value::Variable(v)),
                });
                proof {
                    assert(want@ == ValueV::Type(TypeValueV::Function {
                        dom: Box::new(gct),
                        codom: Box::new(ValueV::Variable(v)),
                    }));
                }
                let rf = self.check(f, context, &want, fuel);
                match rf {
                    Err(e) => Err(e),
                    Ok(ft) => {
                        let ghost gft = ft@;
                        match ft {
                            Value::Type(TypeValue::Function { dom: d0, codom }) => {
                                proof {
                                    assert(gft == view_value(Value::Type(TypeValue::Function {
                                        dom: Box::new(*d0),
                                        codom: Box::new(*codom),
                                    })));
                                    assert(view_type_value(TypeValue::Function {
                                        dom: Box::new(*d0),
                                        codom: Box::new(*codom),
                                    }) == TypeValueV::Function {
                                        dom: Box::new(view_value(*d0)),
                                        codom: Box::new(view_value(*codom)),
                                    });
                                }
                                self.unify_against(term, *codom, expected.clone(), fuel)
                            },
                            other => Err(TypeError::Mismatch(term.clone(), other, want)),
                        }
                    },
                }
            },
            Term::Then { first, next } => {
                let v = self.new_var();
                let fresh = Value::Variable(v);
                let rf = self.check(first, context, &fresh, fuel);
                match rf {
                    Err(e) => Err(e),
                    Ok(ft) => {
                        let bctx = record_context(&ft);
                        self.check(next, &bctx, expected, fuel)
                    },
                }
            },
            Term::Boxed(_) => {
                let v = self.new_var();
                self.unify_against(term, Value::Variable(v), expected.clone(), fuel)
            },
        }
    }
}

} // verus!
