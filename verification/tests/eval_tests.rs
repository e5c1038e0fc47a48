//! Evaluator behaviour on concrete terms.

use kers::Calculate;
use kers::EvalError;
use kers::Field;
use kers::GenType;
use kers::Key;
use kers::PrimType;
use kers::Primitive;
use kers::Record;
use kers::Term;
use kers::ToTerm;
use kers::TypeField;
use kers::TypeValue;
use kers::Value;
use kers::evaluate;
use kers::force;

type Val = Value<Calculate>;

fn empty_ctx() -> Val {
    Value::Record(Record { fields: vec![] })
}

fn long(n: u64) -> Val {
    Value::Prim(Primitive::Long(n))
}

fn text(s: &str) -> Val {
    Value::Prim(Primitive::Text(s.to_string()))
}

fn bind(name: &str, value: Term) -> Term {
    Term::Bind {
        name: Key::name(name),
        value: Box::new(value),
    }
}

fn record(fields: Vec<(&str, Val)>) -> Val {
    Value::Record(Record {
        fields: fields
            .into_iter()
            .map(|(n, v)| Field {
                name: Key::name(n),
                value: v,
            })
            .collect(),
    })
}

#[test]
fn empty_evaluates_to_empty_record() {
    let r = evaluate(&Term::Empty, &empty_ctx(), 0).unwrap();
    assert_eq!(r, record(vec![]));
}

#[test]
fn round_trip_projection() {
    let pair = Term::Append {
        left: Box::new(bind("a", 1u64.to_term())),
        right: Box::new(bind("b", 2u64.to_term())),
    };
    let get_a = Term::Then {
        first: Box::new(pair.clone()),
        next: Box::new(Term::get("a")),
    };
    let get_b = Term::Then {
        first: Box::new(pair),
        next: Box::new(Term::get("b")),
    };
    assert_eq!(evaluate(&get_a, &empty_ctx(), 0).unwrap(), long(1));
    assert_eq!(evaluate(&get_b, &empty_ctx(), 0).unwrap(), long(2));
}

#[test]
fn append_keeps_left_fields_first() {
    let t = Term::Append {
        left: Box::new(bind("a", 1u64.to_term())),
        right: Box::new(bind("a", 2u64.to_term())),
    };
    let r = evaluate(&t, &empty_ctx(), 0).unwrap();
    assert_eq!(r, record(vec![("a", long(1)), ("a", long(2))]));
}

#[test]
fn get_by_name_returns_first_match_and_index_disambiguates() {
    let ctx = record(vec![("a", long(1)), ("a", long(2))]);
    assert_eq!(
        evaluate(&Term::get("a"), &ctx, 0).unwrap(),
        long(1)
    );
    assert_eq!(
        evaluate(&Term::Get(Key::Index(1)), &ctx, 0).unwrap(),
        long(2)
    );
}

#[test]
fn sequencing_changes_context() {
    let t = Term::Then {
        first: Box::new(bind("x", 1u64.to_term())),
        next: Box::new(Term::Reflect),
    };
    let r = evaluate(&t, &empty_ctx(), 0).unwrap();
    assert_eq!(r, record(vec![("x", long(1))]));
}

#[test]
fn append_empty_is_identity() {
    let t = bind("x", 1u64.to_term());
    let with_empty = Term::Append {
        left: Box::new(Term::Empty),
        right: Box::new(t.clone()),
    };
    assert_eq!(
        evaluate(&with_empty, &empty_ctx(), 0),
        evaluate(&t, &empty_ctx(), 0)
    );
}

#[test]
fn unresolved_field_fails_closed() {
    let err = evaluate(&Term::get("missing"), &empty_ctx(), 0).unwrap_err();
    assert_eq!(
        err,
        EvalError::FieldNotFound {
            key: Key::name("missing")
        }
    );
}

#[test]
fn get_against_non_record_context_fails_closed() {
    let err = evaluate(&Term::get("x"), &long(1), 0).unwrap_err();
    assert_eq!(err, EvalError::FieldNotFound { key: Key::name("x") });
}

#[test]
fn application_evaluates_body_in_argument_context() {
    let lambda = Term::Lambda {
        dom: Box::new(
            kers::AsTyp(("x", PrimType::Text.to_term())).to_term(),
        ),
        body: Box::new(Term::get("x")),
    };
    let app = Term::apply(lambda, bind("x", "hi".to_term()));
    let r = evaluate(&app, &empty_ctx(), 8).unwrap();
    assert_eq!(r, text("hi"));
}

#[test]
fn application_without_fuel_stops() {
    let lambda = Term::Lambda {
        dom: Box::new(PrimType::Any.to_term()),
        body: Box::new(Term::Reflect),
    };
    let app = Term::apply(lambda, Term::Empty);
    assert_eq!(evaluate(&app, &empty_ctx(), 0).unwrap_err(), EvalError::OutOfFuel);
    assert_eq!(evaluate(&app, &empty_ctx(), 1).unwrap(), record(vec![]));
}

#[test]
fn applying_a_non_function_fails() {
    let app = Term::apply(Term::Empty, Term::Empty);
    assert_eq!(
        evaluate(&app, &empty_ctx(), 4).unwrap_err(),
        EvalError::NotAFunction
    );
}

#[test]
fn appending_non_records_fails() {
    let t = Term::Append {
        left: Box::new(1u64.to_term()),
        right: Box::new(Term::Empty),
    };
    assert_eq!(
        evaluate(&t, &empty_ctx(), 0).unwrap_err(),
        EvalError::NotARecord
    );
}

#[test]
fn boxed_defers_and_force_resumes() {
    let ctx = record(vec![("x", long(5))]);
    let t = Term::Boxed(Box::new(Term::get("x")));
    let deferred = evaluate(&t, &ctx, 0).unwrap();
    match &deferred {
        Value::Boxed { context, term } => {
            assert_eq!(**context, ctx);
            assert_eq!(**term, Term::get("x"));
        }
        other => panic!("expected a deferred value, got {:?}", other),
    }
    assert_eq!(force(&deferred, 0).unwrap(), long(5));
}

#[test]
fn force_leaves_ordinary_values_alone() {
    assert_eq!(force(&long(3), 0).unwrap(), long(3));
}

#[test]
fn lambda_keeps_body_unevaluated() {
    let lambda = Term::Lambda {
        dom: Box::new(PrimType::Text.to_term()),
        body: Box::new(Term::get("nope")),
    };
    let r = evaluate(&lambda, &empty_ctx(), 0).unwrap();
    match r {
        Value::Lambda { dom, body } => {
            assert_eq!(*dom, Value::Type(TypeValue::Prim(PrimType::Text)));
            assert_eq!(*body, Term::get("nope"));
        }
        other => panic!("expected a closure, got {:?}", other),
    }
}

#[test]
fn type_terms_normalise_to_record_types() {
    let t = kers::and_chain(vec![
        kers::AsTyp(("a", PrimType::Long.to_term())).to_term(),
        kers::AsTyp(("b", PrimType::Text.to_term())).to_term(),
    ]);
    let r = evaluate(&t, &empty_ctx(), 0).unwrap();
    assert_eq!(
        r,
        Value::Type(TypeValue::Record {
            fields: vec![
                TypeField {
                    name: Key::name("a"),
                    typ: Value::Type(TypeValue::Prim(PrimType::Long)),
                },
                TypeField {
                    name: Key::name("b"),
                    typ: Value::Type(TypeValue::Prim(PrimType::Text)),
                },
            ],
        })
    );
}

#[test]
fn function_types_evaluate_both_ends() {
    let t = Term::Type(GenType::Function {
        dom: Box::new(PrimType::Text.to_term()),
        codom: Box::new(PrimType::Long.to_term()),
    });
    let r = evaluate(&t, &empty_ctx(), 0).unwrap();
    assert_eq!(
        r,
        Value::Type(TypeValue::Function {
            dom: Box::new(Value::Type(TypeValue::Prim(PrimType::Text))),
            codom: Box::new(Value::Type(TypeValue::Prim(PrimType::Long))),
        })
    );
}
