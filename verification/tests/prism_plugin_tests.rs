//! Prism round trips and extension composition on concrete values.

use kers::CalcPlugin;
use kers::Calculate;
use kers::EvalError;
use kers::Field;
use kers::Key;
use kers::PairPlugin;
use kers::Plugin;
use kers::Primitive;
use kers::Prism;
use kers::Record;
use kers::Runtime;
use kers::ToLeft;
use kers::ToRight;
use kers::Union;
use kers::Value;
use kers::prism::compose;

type Val = Value<Calculate>;

fn long(n: u64) -> Val {
    Value::Prim(Primitive::Long(n))
}

fn two_field_record() -> Val {
    Value::Record(Record {
        fields: vec![
            Field {
                name: Key::name("a"),
                value: long(1),
            },
            Field {
                name: Key::name("b"),
                value: long(2),
            },
        ],
    })
}

#[test]
fn prism_down_after_up_round_trips() {
    let left: ToLeft<u64, bool> = ToLeft::new();
    assert_eq!(left.downcast(left.upcast(7)), Some(7));
    let right: ToRight<u64, bool> = ToRight::new();
    assert_eq!(right.downcast(right.upcast(true)), Some(true));
}

#[test]
fn prism_up_after_down_reconstructs() {
    let left: ToLeft<u64, bool> = ToLeft::new();
    let x: Union<u64, bool> = Union::Left(9);
    let s = left.downcast(x).unwrap();
    assert_eq!(left.upcast(s), Union::Left(9));
    assert_eq!(left.downcast(Union::Right(true)), None);
}

#[test]
fn composed_prisms_reach_nested_cases() {
    let outer: ToLeft<Union<u64, bool>, char> = ToLeft::new();
    let inner: ToRight<u64, bool> = ToRight::new();
    let path = compose(outer, inner);
    let deep: Union<Union<u64, bool>, char> = Union::Left(Union::Right(true));
    assert_eq!(path.downcast(deep), Some(true));
    assert_eq!(path.upcast(false), Union::Left(Union::Right(false)));
    assert_eq!(path.downcast(Union::Left(Union::Left(3))), None);
    assert_eq!(path.downcast(Union::Right('c')), None);
}

#[test]
fn composed_roots_concatenate_in_order() {
    let a: CalcPlugin<Calculate> = CalcPlugin::new(1);
    let b: CalcPlugin<Calculate> = CalcPlugin::new(2);
    let mut pair = PairPlugin(a, b);
    assert_eq!(pair.roots(), vec![long(1), long(2)]);
}

#[test]
fn dispatch_reaches_only_the_owning_extension() {
    let a: CalcPlugin<Calculate> = CalcPlugin::new(1);
    let b: CalcPlugin<Calculate> = CalcPlugin::new(2);
    let mut pair = PairPlugin(a, b);
    let r = pair
        .dispatch(two_field_record(), Union::Left(Calculate))
        .unwrap();
    assert_eq!(r, long(2));
    assert_eq!(pair.0.hits, 1);
    assert_eq!(pair.1.hits, 0);
    let r2 = pair
        .dispatch(two_field_record(), Union::Right(Calculate))
        .unwrap();
    assert_eq!(r2, long(2));
    assert_eq!(pair.0.hits, 1);
    assert_eq!(pair.1.hits, 1);
}

#[test]
fn empty_plugin_contributes_nothing() {
    let mut none: kers::EmptyPlugin<Calculate> = kers::EmptyPlugin::new();
    assert_eq!(none.roots(), Vec::<Val>::new());
}

#[test]
fn inapplicable_operations_surface_as_plugin_errors() {
    let mut p: CalcPlugin<Calculate> = CalcPlugin::new(1);
    let err = Runtime::run_own(&mut p, long(3), Calculate).unwrap_err();
    assert_eq!(err, EvalError::PluginInapplicable);
}

#[test]
fn run_own_hands_back_the_extension_result() {
    let mut p: CalcPlugin<Calculate> = CalcPlugin::new(1);
    let r = Runtime::run_own(&mut p, two_field_record(), Calculate).unwrap();
    assert_eq!(r, long(2));
}
