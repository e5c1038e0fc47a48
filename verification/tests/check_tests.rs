//! Type checker behaviour on concrete terms, driven through a session.

use kers::Calculate;
use kers::Field;
use kers::Key;
use kers::PrimType;
use kers::Primitive;
use kers::Record;
use kers::Runtime;
use kers::Term;
use kers::ToTerm;
use kers::TypeChecking;
use kers::TypeError;
use kers::TypeValue;
use kers::Value;

type Val = Value<Calculate>;

const FUEL: u64 = 64;

fn empty_ctx() -> Val {
    Value::Record(Record { fields: vec![] })
}

fn universe() -> Val {
    Value::Type(TypeValue::Prim(PrimType::Universe))
}

fn text_type() -> Val {
    Value::Type(TypeValue::Prim(PrimType::Text))
}

fn long_type() -> Val {
    Value::Type(TypeValue::Prim(PrimType::Long))
}

fn bind(name: &str, value: Term) -> Term {
    Term::Bind {
        name: Key::name(name),
        value: Box::new(value),
    }
}

#[test]
fn empty_checks_against_universe() {
    let mut rt: Runtime<Calculate> = Runtime::new();
    let r = rt.check(&Term::Empty, &empty_ctx(), &universe(), FUEL).unwrap();
    assert_eq!(r, Value::Type(TypeValue::Record { fields: vec![] }));
}

#[test]
fn primitives_infer_their_kinds() {
    let mut rt: Runtime<Calculate> = Runtime::new();
    let v = rt.new_var();
    let r = rt
        .check(&1u64.to_term(), &empty_ctx(), &Value::Variable(v), FUEL)
        .unwrap();
    assert_eq!(r, long_type());
    let v2 = rt.new_var();
    let r2 = rt
        .check(&"hi".to_term(), &empty_ctx(), &Value::Variable(v2), FUEL)
        .unwrap();
    assert_eq!(r2, text_type());
}

#[test]
fn bind_infers_a_singleton_field_type() {
    let mut rt: Runtime<Calculate> = Runtime::new();
    let v = rt.new_var();
    let r = rt
        .check(
            &bind("x", 1u64.to_term()),
            &empty_ctx(),
            &Value::Variable(v),
            FUEL,
        )
        .unwrap();
    assert_eq!(
        r,
        Value::Type(TypeValue::Record {
            fields: vec![kers::TypeField {
                name: Key::name("x"),
                typ: long_type(),
            }],
        })
    );
}

#[test]
fn get_reads_its_type_from_the_context() {
    let mut rt: Runtime<Calculate> = Runtime::new();
    let ctx = Value::Record(Record {
        fields: vec![Field {
            name: Key::name("x"),
            value: text_type(),
        }],
    });
    let v = rt.new_var();
    let r = rt
        .check(&Term::get("x"), &ctx, &Value::Variable(v), FUEL)
        .unwrap();
    assert_eq!(r, text_type());
}

#[test]
fn get_of_an_absent_field_mismatches() {
    let mut rt: Runtime<Calculate> = Runtime::new();
    let err = rt
        .check(&Term::get("missing"), &empty_ctx(), &universe(), FUEL)
        .unwrap_err();
    let TypeError::Mismatch(t, _, _) = err;
    assert_eq!(t, Term::get("missing"));
}

#[test]
fn primitive_against_wrong_type_mismatches() {
    let mut rt: Runtime<Calculate> = Runtime::new();
    let err = rt
        .check(&1u64.to_term(), &empty_ctx(), &text_type(), FUEL)
        .unwrap_err();
    let TypeError::Mismatch(_, inferred, expected) = err;
    assert_eq!(inferred, long_type());
    assert_eq!(expected, text_type());
}

#[test]
fn append_merges_field_types() {
    let mut rt: Runtime<Calculate> = Runtime::new();
    let t = Term::Append {
        left: Box::new(bind("a", 1u64.to_term())),
        right: Box::new(bind("b", "s".to_term())),
    };
    let v = rt.new_var();
    let r = rt.check(&t, &empty_ctx(), &Value::Variable(v), FUEL).unwrap();
    assert_eq!(
        r,
        Value::Type(TypeValue::Record {
            fields: vec![
                kers::TypeField {
                    name: Key::name("a"),
                    typ: long_type(),
                },
                kers::TypeField {
                    name: Key::name("b"),
                    typ: text_type(),
                },
            ],
        })
    );
}

#[test]
fn append_with_clashing_field_types_mismatches() {
    let mut rt: Runtime<Calculate> = Runtime::new();
    let t = Term::Append {
        left: Box::new(bind("a", 1u64.to_term())),
        right: Box::new(bind("a", "s".to_term())),
    };
    let v = rt.new_var();
    assert!(rt.check(&t, &empty_ctx(), &Value::Variable(v), FUEL).is_err());
}

#[test]
fn append_with_agreeing_duplicate_keeps_both() {
    let mut rt: Runtime<Calculate> = Runtime::new();
    let t = Term::Append {
        left: Box::new(bind("a", 1u64.to_term())),
        right: Box::new(bind("a", 2u64.to_term())),
    };
    let v = rt.new_var();
    let r = rt.check(&t, &empty_ctx(), &Value::Variable(v), FUEL).unwrap();
    match r {
        Value::Type(TypeValue::Record { fields }) => assert_eq!(fields.len(), 2),
        other => panic!("expected a record type, got {:?}", other),
    }
}

#[test]
fn reflect_yields_the_context_type() {
    let mut rt: Runtime<Calculate> = Runtime::new();
    let ctx = Value::Record(Record {
        fields: vec![Field {
            name: Key::name("x"),
            value: long_type(),
        }],
    });
    let v = rt.new_var();
    let r = rt.check(&Term::Reflect, &ctx, &Value::Variable(v), FUEL).unwrap();
    assert_eq!(
        r,
        Value::Type(TypeValue::Record {
            fields: vec![kers::TypeField {
                name: Key::name("x"),
                typ: long_type(),
            }],
        })
    );
}

#[test]
fn function_application_checks_end_to_end() {
    // A function from the record type {x: Text} to Text, applied to a
    // record binding x to a text, checks to Text and evaluates to the text.
    let lambda = Term::Lambda {
        dom: Box::new(kers::AsTyp(("x", PrimType::Text.to_term())).to_term()),
        body: Box::new(Term::get("x")),
    };
    let app = Term::apply(lambda, bind("x", "hi".to_term()));
    let mut rt: Runtime<Calculate> = Runtime::new();
    let r = rt.check(&app, &empty_ctx(), &text_type(), FUEL).unwrap();
    assert_eq!(r, text_type());
    let v = rt.evaluate(&app, &empty_ctx(), 8).unwrap();
    assert_eq!(v, Value::Prim(Primitive::Text("hi".to_string())));
}

#[test]
fn boxed_terms_check_against_anything() {
    let mut rt: Runtime<Calculate> = Runtime::new();
    let t = Term::Boxed(Box::new(Term::get("whatever")));
    let r = rt.check(&t, &empty_ctx(), &text_type(), FUEL).unwrap();
    assert_eq!(r, text_type());
}

#[test]
fn failed_check_discards_the_arena() {
    let mut rt: Runtime<Calculate> = Runtime::new();
    let v = rt.new_var();
    assert_eq!(v.0, 0);
    assert!(rt
        .check(&1u64.to_term(), &empty_ctx(), &text_type(), FUEL)
        .is_err());
    // The session dropped every metavariable, including speculative ones.
    let after = rt.new_var();
    assert_eq!(after.0, 0);
}

#[test]
fn unify_binds_a_fresh_variable() {
    let mut tc: TypeChecking<Calculate> = TypeChecking::new();
    let v = tc.new_var();
    let r = tc
        .unify(Value::Variable(v), long_type(), FUEL)
        .unwrap();
    assert_eq!(r, long_type());
    // The binding holds: unifying the same variable with Text now fails.
    assert!(tc.unify(Value::Variable(v), text_type(), FUEL).is_err());
}

#[test]
fn unify_accepts_wildcards() {
    let mut tc: TypeChecking<Calculate> = TypeChecking::new();
    let r = tc.unify(universe(), long_type(), FUEL).unwrap();
    assert_eq!(r, long_type());
    let r2 = tc
        .unify(
            Value::Type(TypeValue::Prim(PrimType::Any)),
            text_type(),
            FUEL,
        )
        .unwrap();
    assert_eq!(r2, text_type());
}

#[test]
fn record_types_unify_by_name_not_order() {
    let mut tc: TypeChecking<Calculate> = TypeChecking::new();
    let ab = Value::Type(TypeValue::Record {
        fields: vec![
            kers::TypeField {
                name: Key::name("a"),
                typ: long_type(),
            },
            kers::TypeField {
                name: Key::name("b"),
                typ: text_type(),
            },
        ],
    });
    let ba = Value::Type(TypeValue::Record {
        fields: vec![
            kers::TypeField {
                name: Key::name("b"),
                typ: text_type(),
            },
            kers::TypeField {
                name: Key::name("a"),
                typ: long_type(),
            },
        ],
    });
    let r = tc.unify(ab.clone(), ba, FUEL).unwrap();
    // The result keeps the left side's field order.
    assert_eq!(r, ab);
}

#[test]
fn function_types_unify_componentwise() {
    let mut tc: TypeChecking<Calculate> = TypeChecking::new();
    let v = tc.new_var();
    let concrete = Value::Type(TypeValue::Function {
        dom: Box::new(long_type()),
        codom: Box::new(text_type()),
    });
    let open_codom = Value::Type(TypeValue::Function {
        dom: Box::new(long_type()),
        codom: Box::new(Value::Variable(v)),
    });
    let r = tc.unify(concrete.clone(), open_codom, FUEL).unwrap();
    assert_eq!(r, concrete);
    // The codomain variable is now bound to Text.
    let r2 = tc.unify(Value::Variable(v), text_type(), FUEL).unwrap();
    assert_eq!(r2, text_type());
    assert!(tc.unify(Value::Variable(v), long_type(), FUEL).is_err());
}

#[test]
fn record_types_of_different_arity_mismatch() {
    let mut tc: TypeChecking<Calculate> = TypeChecking::new();
    let one = Value::Type(TypeValue::Record {
        fields: vec![kers::TypeField {
            name: Key::name("a"),
            typ: long_type(),
        }],
    });
    let none = Value::Type(TypeValue::Record { fields: vec![] });
    assert!(tc.unify(one, none, FUEL).is_err());
}
