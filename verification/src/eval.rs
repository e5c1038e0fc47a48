//! The context-threading interpreter: reduces a term to a value given an
//! ambient context. Every step is mirrored by a specification-level
//! interpreter, and the executable code is proved equal to it.
//!
//! Recursion through a closure body is not structural, so evaluation carries
//! a caller-imposed fuel; fuel is charged only when an application enters a
//! function body, never for structural descent.

use vstd::prelude::*;

use crate::term::GenType;
use crate::term::Key;
use crate::term::KeyV;
use crate::term::Term;
use crate::term::TermV;
use crate::term::Type;
use crate::term::TypeV;
use crate::values::Field;
use crate::values::FieldV;
use crate::values::Record;
use crate::values::TypeField;
use crate::values::TypeFieldV;
use crate::values::TypeValue;
use crate::values::TypeValueV;
use crate::values::Value;
use crate::values::ValueV;
use crate::values::lemma_view_fields;
use crate::values::lemma_view_fields_concat;
use crate::values::lemma_view_type_fields;
use crate::values::lookup_spec;
use crate::values::view_value;
use crate::values::view_type_value;
use crate::values::view_field;
use crate::values::view_fields;
use crate::values::view_type_field;
use crate::values::view_type_fields;

verus! {

/// Why an evaluation got stuck. Terminal for the evaluation call, never for
/// the process.
#[derive(Debug, PartialEq, Eq)]
pub enum EvalError {
    /// An application target did not reduce to a function.
    NotAFunction,
    /// A projection against a context lacking the field.
    FieldNotFound { key: Key },
    /// An extension operation reached no matching extension case.
    PluginInapplicable,
    /// Concatenation or intersection of values that are not records.
    NotARecord,
    /// The caller-imposed recursion budget ran out.
    OutOfFuel,
}

/// Mathematical view of an [`EvalError`].
pub enum EvalErrorV {
    NotAFunction,
    FieldNotFound { key: KeyV },
    PluginInapplicable,
    NotARecord,
    OutOfFuel,
}

impl View for EvalError {
    type V = EvalErrorV;

    open spec fn view(&self) -> EvalErrorV {
        match self {
            EvalError::NotAFunction => EvalErrorV::NotAFunction,
            EvalError::FieldNotFound { key } => EvalErrorV::FieldNotFound { key: key@ },
            EvalError::PluginInapplicable => EvalErrorV::PluginInapplicable,
            EvalError::NotARecord => EvalErrorV::NotARecord,
            EvalError::OutOfFuel => EvalErrorV::OutOfFuel,
        }
    }
}

impl Clone for EvalError {
    /// Cloning keeps the error's view.
    fn clone(&self) -> (r: Self)
        ensures
            r@ == self@,
    {
        match self {
            EvalError::NotAFunction => EvalError::NotAFunction,
            EvalError::FieldNotFound { key } => EvalError::FieldNotFound { key: key.clone() },
            EvalError::PluginInapplicable => EvalError::PluginInapplicable,
            EvalError::NotARecord => EvalError::NotARecord,
            EvalError::OutOfFuel => EvalError::OutOfFuel,
        }
    }
}

/// What evaluating a term under a context yields. Fuel is charged only when
/// an application enters a function body.
pub open spec fn eval_spec<P>(t: TermV, ctx: ValueV<P>, fuel: nat) -> Result<ValueV<P>, EvalErrorV>
    decreases fuel, t,
{
    match t {
        TermV::Empty => Ok(ValueV::Record(Seq::empty())),
        TermV::Reflect => Ok(ctx),
        TermV::Prim(p) => Ok(ValueV::Prim(p)),
        TermV::Type(ty) => match eval_type_spec(ty, ctx, fuel) {
            Ok(tv) => Ok(ValueV::Type(tv)),
            Err(e) => Err(e),
        },
        TermV::Append { left, right } => match (
            eval_spec(*left, ctx, fuel),
            eval_spec(*right, ctx, fuel),
        ) {
            (Err(e), _) => Err(e),
            (Ok(_), Err(e)) => Err(e),
            (Ok(ValueV::Record(f1)), Ok(ValueV::Record(f2))) => Ok(ValueV::Record(f1 + f2)),
            _ => Err(EvalErrorV::NotARecord),
        },
        TermV::Bind { name, value } => match eval_spec(*value, ctx, fuel) {
            Ok(v) => Ok(ValueV::Record(seq![FieldV { name, value: v }])),
            Err(e) => Err(e),
        },
        TermV::Get(k) => match ctx {
            ValueV::Record(fs) => match lookup_spec(fs, k) {
                Some(v) => Ok(v),
                None => Err(EvalErrorV::FieldNotFound { key: k }),
            },
            _ => Err(EvalErrorV::FieldNotFound { key: k }),
        },
        TermV::Then { first, next } => match eval_spec(*first, ctx, fuel) {
            Ok(c2) => eval_spec(*next, c2, fuel),
            Err(e) => Err(e),
        },
        TermV::Lambda { dom, body } => match eval_spec(*dom, ctx, fuel) {
            Ok(d) => Ok(ValueV::Lambda { dom: Box::new(d), body: *body }),
            Err(e) => Err(e),
        },
        TermV::Unlambda(f) => match eval_spec(*f, ctx, fuel) {
            Ok(ValueV::Lambda { dom: _, body }) => if fuel == 0 {
                Err(EvalErrorV::OutOfFuel)
            } else {
                eval_spec(body, ctx, (fuel - 1) as nat)
            },
            Ok(_) => Err(EvalErrorV::NotAFunction),
            Err(e) => Err(e),
        },
        TermV::Boxed(inner) => Ok(ValueV::Boxed { context: Box::new(ctx), term: *inner }),
    }
}

/// What evaluating a syntactic type under a context yields: a type in normal
/// form. `Field` and `And` normalise to record types.
pub open spec fn eval_type_spec<P>(ty: TypeV, ctx: ValueV<P>, fuel: nat) -> Result<
    TypeValueV<P>,
    EvalErrorV,
>
    decreases fuel, ty,
{
    match ty {
        TypeV::Prim(pt) => Ok(TypeValueV::Prim(pt)),
        TypeV::Field { name, typ } => match eval_spec(*typ, ctx, fuel) {
            Ok(v) => Ok(TypeValueV::Record(seq![TypeFieldV { name, typ: v }])),
            Err(e) => Err(e),
        },
        TypeV::Function { dom, codom } => match (
            eval_spec(*dom, ctx, fuel),
            eval_spec(*codom, ctx, fuel),
        ) {
            (Err(e), _) => Err(e),
            (Ok(_), Err(e)) => Err(e),
            (Ok(d), Ok(c)) => Ok(TypeValueV::Function { dom: Box::new(d), codom: Box::new(c) }),
        },
        TypeV::And { left, right } => match (
            eval_spec(*left, ctx, fuel),
            eval_spec(*right, ctx, fuel),
        ) {
            (Err(e), _) => Err(e),
            (Ok(_), Err(e)) => Err(e),
            (Ok(ValueV::Type(TypeValueV::Record(f1))), Ok(ValueV::Type(TypeValueV::Record(f2)))) => Ok(
                TypeValueV::Record(f1 + f2),
            ),
            _ => Err(EvalErrorV::NotARecord),
        },
    }
}

/// Evaluates a term under an ambient context, with a caller-imposed fuel
/// bounding how many function bodies may be entered.
pub fn evaluate<P: Copy>(term: &Term, context: &Value<P>, fuel: u64) -> (r: Result<
    Value<P>,
    EvalError,
>)
    ensures
        (match r {
            Ok(v) => eval_spec(term@, context@, fuel as nat) == Ok::<ValueV<P>, EvalErrorV>(v@),
            Err(e) => eval_spec(term@, context@, fuel as nat) == Err::<ValueV<P>, EvalErrorV>(e@),
        }),
    decreases fuel, term,
{
    match term {
        Term::Empty => Ok(Value::Record(Record::empty())),
        Term::Reflect => Ok(context.clone()),
        Term::Prim(p) => Ok(Value::Prim(p.clone())),
        Term::Type(ty) => match evaluate_type(ty, context, fuel) {
            Ok(tv) => Ok(Value::Type(tv)),
            Err(e) => Err(e),
        },
        Term::Append { left, right } => {
            let lv = match evaluate(left, context, fuel) {
                Ok(v) => v,
                Err(e) => {
                    return Err(e);
                },
            };
            let rv = match evaluate(right, context, fuel) {
                Ok(v) => v,
                Err(e) => {
                    return Err(e);
                },
            };
            match (lv, rv) {
                (Value::Record(mut r1), Value::Record(mut r2)) => {
                    proof {
                        lemma_view_fields_concat(r1.fields@, r2.fields@);
                    }
                    r1.fields.append(&mut r2.fields);
                    Ok(Value::Record(r1))
                },
                _ => Err(EvalError::NotARecord),
            }
        },
        Term::Bind { name, value } => {
            let v = match evaluate(value, context, fuel) {
                Ok(v) => v,
                Err(e) => {
                    return Err(e);
                },
            };
            let f = Field { name: name.clone(), value: v };
            let mut fields: Vec<Field<P>> = Vec::new();
            fields.push(f);
            proof {
                assert(fields@.drop_first() =~= Seq::<Field<P>>::empty());
                assert(view_fields(fields@.drop_first()) =~= Seq::<FieldV<P>>::empty());
                assert(view_fields(fields@) =~= seq![view_field(fields@[0])]);
            }
            Ok(Value::Record(Record { fields }))
        },
        Term::Get(k) => match context {
            Value::Record(rec) => match rec.get(k) {
                Some(v) => Ok(v.clone()),
                None => Err(EvalError::FieldNotFound { key: k.clone() }),
            },
            _ => Err(EvalError::FieldNotFound { key: k.clone() }),
        },
        Term::Then { first, next } => {
            let c2 = match evaluate(first, context, fuel) {
                Ok(v) => v,
                Err(e) => {
                    return Err(e);
                },
            };
            evaluate(next, &c2, fuel)
        },
        Term::Lambda { dom, body } => {
            let d = match evaluate(dom, context, fuel) {
                Ok(v) => v,
                Err(e) => {
                    return Err(e);
                },
            };
            Ok(Value::Lambda { dom: Box::new(d), body: Box::new((**body).clone()) })
        },
        Term::Unlambda(f) => {
            let fv = match evaluate(f, context, fuel) {
                Ok(v) => v,
                Err(e) => {
                    return Err(e);
                },
            };
            match fv {
                Value::Lambda { dom: _, body } => {
                    if fuel == 0 {
                        Err(EvalError::OutOfFuel)
                    } else {
                        evaluate(&body, context, fuel - 1)
                    }
                },
                _ => Err(EvalError::NotAFunction),
            }
        },
        Term::Boxed(inner) => Ok(
            Value::Boxed {
                context: Box::new(context.clone()),
                term: Box::new((**inner).clone()),
            },
        ),
    }
}

/// Evaluates a syntactic type to a type in normal form.
pub fn evaluate_type<P: Copy>(ty: &Type, context: &Value<P>, fuel: u64) -> (r: Result<
    TypeValue<P>,
    EvalError,
>)
    ensures
        (match r {
            Ok(tv) => eval_type_spec(ty@, context@, fuel as nat) == Ok::<TypeValueV<P>, EvalErrorV>(
                tv@,
            ),
            Err(e) => eval_type_spec(ty@, context@, fuel as nat) == Err::<TypeValueV<P>, EvalErrorV>(
                e@,
            ),
        }),
    decreases fuel, ty,
{
    match ty {
        GenType::Prim(pt) => Ok(TypeValue::Prim(*pt)),
        GenType::Field { name, typ } => {
            let v = match evaluate(typ, context, fuel) {
                Ok(v) => v,
                Err(e) => {
                    return Err(e);
                },
            };
            let ghost gv = v@;
            let f = TypeField { name: name.clone(), typ: v };
            let mut fields: Vec<TypeField<P>> = Vec::new();
            fields.push(f);
            proof {
                assert(fields@.drop_first() =~= Seq::<TypeField<P>>::empty());
                assert(view_type_fields(fields@.drop_first()) =~= Seq::<TypeFieldV<P>>::empty());
                assert(view_type_fields(fields@) =~= seq![view_type_field(fields@[0])]);
                assert(view_type_fields(fields@) =~= (seq![TypeFieldV::<P> { name: name@, typ: gv }]));
            }
            let out = TypeValue::Record { fields };
            proof {
                assert(eval_type_spec(ty@, context@, fuel as nat) == Ok::<TypeValueV<P>, EvalErrorV>(out@));
            }
            Ok(out)
        },
        GenType::Function { dom, codom } => {
            let d = match evaluate(dom, context, fuel) {
                Ok(v) => v,
                Err(e) => {
                    return Err(e);
                },
            };
            let c = match evaluate(codom, context, fuel) {
                Ok(v) => v,
                Err(e) => {
                    return Err(e);
                },
            };
            Ok(TypeValue::Function { dom: Box::new(d), codom: Box::new(c) })
        },
        GenType::And { left, right } => {
            let lv = match evaluate(left, context, fuel) {
                Ok(v) => v,
                Err(e) => {
                    return Err(e);
                },
            };
            let rv = match evaluate(right, context, fuel) {
                Ok(v) => v,
                Err(e) => {
                    return Err(e);
                },
            };
            let ghost glv = lv@;
            let ghost grv = rv@;
            match (lv, rv) {
                (
                    Value::Type(TypeValue::Record { fields: mut f1 }),
                    Value::Type(TypeValue::Record { fields: mut f2 }),
                ) => {
                    let ghost go1 = f1@;
                    let ghost go2 = f2@;
                    proof {
                        assert(glv == view_value(Value::Type(TypeValue::Record {
                            fields: f1,
                        })));
                        assert(grv == view_value(Value::Type(TypeValue::Record {
                            fields: f2,
                        })));
                        assert(view_type_value(TypeValue::Record { fields: f1 })
                            == TypeValueV::Record(view_type_fields(f1@)));
                        assert(view_type_value(TypeValue::Record { fields: f2 })
                            == TypeValueV::Record(view_type_fields(f2@)));
                        assert(glv == ValueV::Type(TypeValueV::Record(view_type_fields(go1))));
                        assert(grv == ValueV::Type(TypeValueV::Record(view_type_fields(go2))));
                        assert(view_type_fields(go1 + go2) =~= view_type_fields(go1)
                            + view_type_fields(go2)) by {
                            lemma_view_type_fields(go1);
                            lemma_view_type_fields(go2);
                            lemma_view_type_fields(go1 + go2);
                        }
                    }
                    f1.append(&mut f2);
                    let out = TypeValue::Record { fields: f1 };
                    proof {
                        assert(f1@ == go1 + go2);
                        assert(out@ == TypeValueV::Record(view_type_fields(go1 + go2)));
                        assert(eval_type_spec(ty@, context@, fuel as nat) == Ok::<
                            TypeValueV<P>,
                            EvalErrorV,
                        >(TypeValueV::Record(view_type_fields(go1) + view_type_fields(go2))));
                    }
                    Ok(out)
                },
                _ => Err(EvalError::NotARecord),
            }
        },
    }
}

/// What forcing a value yields: a deferred value resumes evaluation of its
/// term in its captured context; any other value is already evaluated and is
/// returned unchanged.
pub open spec fn force_spec<P>(v: ValueV<P>, fuel: nat) -> Result<ValueV<P>, EvalErrorV> {
    match v {
        ValueV::Boxed { context, term } => eval_spec(term, *context, fuel),
        _ => Ok(v),
    }
}

/// Forces a deferred value: resumes evaluation of the captured term in the
/// captured context. A value that is not deferred is returned unchanged.
pub fn force<P: Copy>(v: &Value<P>, fuel: u64) -> (r: Result<Value<P>, EvalError>)
    ensures
        (match r {
            Ok(w) => force_spec(v@, fuel as nat) == Ok::<ValueV<P>, EvalErrorV>(w@),
            Err(e) => force_spec(v@, fuel as nat) == Err::<ValueV<P>, EvalErrorV>(e@),
        }),
{
    match v {
        Value::Boxed { context, term } => evaluate(term, context, fuel),
        _ => Ok(v.clone()),
    }
}

/// Law: appending two single-field records projects back each value by its
/// own name, for distinct names.
pub proof fn lemma_round_trip_projection<P>(
    n1: KeyV,
    n2: KeyV,
    t1: TermV,
    t2: TermV,
    ctx: ValueV<P>,
    fuel: nat,
    v1: ValueV<P>,
    v2: ValueV<P>,
)
    requires
        n1 is Name,
        n2 is Name,
        !Key::matches_spec(n1, n2),
        eval_spec(t1, ctx, fuel) == Ok::<ValueV<P>, EvalErrorV>(v1),
        eval_spec(t2, ctx, fuel) == Ok::<ValueV<P>, EvalErrorV>(v2),
    ensures
        eval_spec(
            TermV::Then {
                first: Box::new(TermV::Append {
                    left: Box::new(TermV::Bind { name: n1, value: Box::new(t1) }),
                    right: Box::new(TermV::Bind { name: n2, value: Box::new(t2) }),
                }),
                next: Box::new(TermV::Get(n1)),
            },
            ctx,
            fuel,
        ) == Ok::<ValueV<P>, EvalErrorV>(v1),
        eval_spec(
            TermV::Then {
                first: Box::new(TermV::Append {
                    left: Box::new(TermV::Bind { name: n1, value: Box::new(t1) }),
                    right: Box::new(TermV::Bind { name: n2, value: Box::new(t2) }),
                }),
                next: Box::new(TermV::Get(n2)),
            },
            ctx,
            fuel,
        ) == Ok::<ValueV<P>, EvalErrorV>(v2),
{
    let b1 = TermV::Bind { name: n1, value: Box::new(t1) };
    let b2 = TermV::Bind { name: n2, value: Box::new(t2) };
    let f1 = FieldV { name: n1, value: v1 };
    let f2 = FieldV { name: n2, value: v2 };
    let rec = seq![f1, f2];
    assert(eval_spec(b1, ctx, fuel) == Ok::<ValueV<P>, EvalErrorV>(ValueV::Record(seq![f1])));
    assert(eval_spec(b2, ctx, fuel) == Ok::<ValueV<P>, EvalErrorV>(ValueV::Record(seq![f2])));
    let ap = TermV::Append { left: Box::new(b1), right: Box::new(b2) };
    assert(seq![f1] + seq![f2] =~= rec);
    assert(eval_spec(ap, ctx, fuel) == Ok::<ValueV<P>, EvalErrorV>(ValueV::Record(rec)));
    assert(Key::matches_spec(n1, n1));
    assert(lookup_spec(rec, n1) == Some(v1));
    assert(rec.drop_first() =~= seq![f2]);
    assert(Key::matches_spec(n2, n2));
    assert(lookup_spec(seq![f2], n2) == Some(v2));
    assert(lookup_spec(rec, n2) == Some(v2));
    assert(eval_spec(TermV::Get(n1), ValueV::Record(rec), fuel) == Ok::<ValueV<P>, EvalErrorV>(v1));
    assert(eval_spec(TermV::Get(n2), ValueV::Record(rec), fuel) == Ok::<ValueV<P>, EvalErrorV>(v2));
}

/// Law: the record produced by `Append` lists the left operand's fields
/// before the right operand's, whatever the field names.
pub proof fn lemma_append_ordering<P>(
    left: TermV,
    right: TermV,
    ctx: ValueV<P>,
    fuel: nat,
    lf: Seq<FieldV<P>>,
    rf: Seq<FieldV<P>>,
)
    requires
        eval_spec(left, ctx, fuel) == Ok::<ValueV<P>, EvalErrorV>(ValueV::Record(lf)),
        eval_spec(right, ctx, fuel) == Ok::<ValueV<P>, EvalErrorV>(ValueV::Record(rf)),
    ensures
        eval_spec(TermV::Append { left: Box::new(left), right: Box::new(right) }, ctx, fuel)
            == Ok::<ValueV<P>, EvalErrorV>(ValueV::Record(lf + rf)),
{
}

/// Law: sequencing evaluates `next` in the context produced by `first`, not
/// in the original ambient context.
pub proof fn lemma_then_threads_context<P>(
    first: TermV,
    next: TermV,
    ctx: ValueV<P>,
    fuel: nat,
    mid: ValueV<P>,
)
    requires
        eval_spec(first, ctx, fuel) == Ok::<ValueV<P>, EvalErrorV>(mid),
    ensures
        eval_spec(TermV::Then { first: Box::new(first), next: Box::new(next) }, ctx, fuel)
            == eval_spec(next, mid, fuel),
{
}

/// Law: `Reflect` after `Then` observes the result of `first`.
pub proof fn lemma_then_reflect<P>(first: TermV, ctx: ValueV<P>, fuel: nat, mid: ValueV<P>)
    requires
        eval_spec(first, ctx, fuel) == Ok::<ValueV<P>, EvalErrorV>(mid),
    ensures
        eval_spec(TermV::Then { first: Box::new(first), next: Box::new(TermV::Reflect) }, ctx, fuel)
            == Ok::<ValueV<P>, EvalErrorV>(mid),
{
    lemma_then_threads_context(first, TermV::Reflect, ctx, fuel, mid);
    assert(eval_spec(TermV::Reflect, mid, fuel) == Ok::<ValueV<P>, EvalErrorV>(mid));
}

/// Law: `Empty` evaluates to the empty record, and appending `Empty` on the
/// left of a record-producing term changes nothing.
pub proof fn lemma_empty_identity<P>(t: TermV, ctx: ValueV<P>, fuel: nat, rf: Seq<FieldV<P>>)
    requires
        eval_spec(t, ctx, fuel) == Ok::<ValueV<P>, EvalErrorV>(ValueV::Record(rf)),
    ensures
        eval_spec(TermV::Empty, ctx, fuel) == Ok::<ValueV<P>, EvalErrorV>(
            ValueV::Record(Seq::<FieldV<P>>::empty()),
        ),
        eval_spec(TermV::Append { left: Box::new(TermV::Empty), right: Box::new(t) }, ctx, fuel)
            == eval_spec(t, ctx, fuel),
{
    assert(Seq::<FieldV<P>>::empty() + rf =~= rf);
}

/// Law: projecting a field that the context does not hold fails closed with
/// `FieldNotFound`; no default is produced.
pub proof fn lemma_get_fails_closed<P>(k: KeyV, fields: Seq<FieldV<P>>, fuel: nat)
    requires
        lookup_spec(fields, k) is None,
    ensures
        eval_spec(TermV::Get(k), ValueV::Record(fields), fuel) == Err::<ValueV<P>, EvalErrorV>(
            EvalErrorV::FieldNotFound { key: k },
        ),
{
}

/// A name key that no field carries resolves to nothing.
pub proof fn lemma_absent_name<P>(fields: Seq<FieldV<P>>, k: KeyV)
    requires
        k is Name,
        forall|i: int|
            0 <= i < fields.len() ==> !Key::matches_spec(#[trigger] fields[i].name, k),
    ensures
        lookup_spec(fields, k) is None,
{
    crate::values::lemma_lookup_name(fields, k, fields.len() as int);
}

} // verus!
