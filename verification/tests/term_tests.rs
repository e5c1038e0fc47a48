//! Term construction helpers and the record data model.

use kers::AsTyp;
use kers::Calculate;
use kers::Field;
use kers::GenType;
use kers::Key;
use kers::PrimType;
use kers::Primitive;
use kers::Record;
use kers::Term;
use kers::ToTerm;
use kers::Value;
use kers::and_chain;
use kers::append_chain;

type Val = Value<Calculate>;

#[test]
fn default_term_is_empty() {
    assert_eq!(Term::default(), Term::Empty);
}

#[test]
fn get_builds_a_name_projection() {
    assert_eq!(
        Term::get("xxx"),
        Term::Get(Key::Name("xxx".to_string()))
    );
}

#[test]
fn apply_binds_the_argument_first() {
    let f = Term::get("f");
    let a = Term::get("a");
    assert_eq!(
        Term::apply(f.clone(), a.clone()),
        Term::Then {
            first: Box::new(a),
            next: Box::new(Term::Unlambda(Box::new(f))),
        }
    );
}

#[test]
fn scalars_lift_to_primitive_terms() {
    assert_eq!(38u64.to_term(), Term::Prim(Primitive::Long(38)));
    assert_eq!(
        "World".to_term(),
        Term::Prim(Primitive::Text("World".to_string()))
    );
    assert_eq!(
        "World".to_string().to_term(),
        Term::Prim(Primitive::Text("World".to_string()))
    );
}

#[test]
fn pairs_lift_to_field_binders() {
    assert_eq!(
        ("greet", "Hello").to_term(),
        Term::Bind {
            name: Key::Name("greet".to_string()),
            value: Box::new(Term::Prim(Primitive::Text("Hello".to_string()))),
        }
    );
}

#[test]
fn append_chain_folds_left_and_defaults_to_empty() {
    assert_eq!(append_chain(vec![]), Term::Empty);
    let a = ("a", 1u64).to_term();
    let b = ("b", 2u64).to_term();
    let c = ("c", 3u64).to_term();
    assert_eq!(
        append_chain(vec![a.clone(), b.clone(), c.clone()]),
        Term::Append {
            left: Box::new(Term::Append {
                left: Box::new(a),
                right: Box::new(b),
            }),
            right: Box::new(c),
        }
    );
}

#[test]
fn and_chain_folds_left_and_defaults_to_universe() {
    assert_eq!(
        and_chain(vec![]),
        Term::Type(GenType::Prim(PrimType::Universe))
    );
    let a = AsTyp(("a", PrimType::Long.to_term())).to_term();
    let b = AsTyp(("b", PrimType::Text.to_term())).to_term();
    assert_eq!(
        and_chain(vec![a.clone(), b.clone()]),
        Term::Type(GenType::And {
            left: Box::new(a),
            right: Box::new(b),
        })
    );
}

#[test]
fn as_typ_lifts_ascriptions_to_field_types() {
    assert_eq!(
        AsTyp(("greet", Term::get("str"))).to_term(),
        Term::Type(GenType::Field {
            name: Key::Name("greet".to_string()),
            typ: Box::new(Term::get("str")),
        })
    );
}

#[test]
fn keys_match_by_variant_and_payload() {
    assert!(Key::name("a").matches(&Key::name("a")));
    assert!(!Key::name("a").matches(&Key::name("b")));
    assert!(Key::Index(1).matches(&Key::Index(1)));
    assert!(!Key::Index(1).matches(&Key::Index(2)));
    assert!(!Key::name("1").matches(&Key::Index(1)));
}

#[test]
fn record_get_resolves_names_and_positions() {
    let rec: Record<Calculate> = Record {
        fields: vec![
            Field {
                name: Key::name("a"),
                value: Value::Prim(Primitive::Long(1)),
            },
            Field {
                name: Key::Index(7),
                value: Value::Prim(Primitive::Long(2)),
            },
        ],
    };
    assert_eq!(
        rec.get(&Key::name("a")),
        Some(&Value::Prim(Primitive::Long(1)))
    );
    assert_eq!(rec.get(&Key::name("b")), None);
    assert_eq!(
        rec.get(&Key::Index(1)),
        Some(&Value::Prim(Primitive::Long(2)))
    );
    assert_eq!(rec.get(&Key::Index(2)), None::<&Val>);
}

#[test]
fn terms_clone_structurally() {
    let t = Term::Append {
        left: Box::new(("a", 1u64).to_term()),
        right: Box::new(Term::Boxed(Box::new(Term::Reflect))),
    };
    assert_eq!(t.clone(), t);
}
