use wasamo_runtime::ir::{IrLiteral, IrState, IrStateType, IrType};
use wasamo_runtime::state_init::{initial_signal_value, initial_signal_values, InitialValue};

fn state(name: &str, ty: IrStateType, default: IrLiteral) -> IrState {
    IrState { name: name.to_string(), ty, default }
}

#[test]
fn scalar_states_start_at_their_default() {
    let v = initial_signal_value(&state("n", IrStateType::Scalar(IrType::I32), IrLiteral::Int(7)));
    assert!(matches!(v, InitialValue::I32(7)));
    let v = initial_signal_value(&state("s", IrStateType::Scalar(IrType::Str), IrLiteral::Str("hi".into())));
    assert!(matches!(v, InitialValue::Str(ref s) if s == "hi"));
    let v = initial_signal_value(&state("b", IrStateType::Scalar(IrType::Bool), IrLiteral::Bool(true)));
    assert!(matches!(v, InitialValue::Bool(true)));
}

#[test]
fn a_default_of_another_type_starts_at_zero() {
    let v = initial_signal_value(&state("n", IrStateType::Scalar(IrType::I32), IrLiteral::Str("x".into())));
    assert!(matches!(v, InitialValue::I32(0)));
    let v = initial_signal_value(&state("s", IrStateType::Scalar(IrType::Str), IrLiteral::Int(3)));
    assert!(matches!(v, InitialValue::Str(ref s) if s.is_empty()));
    let v = initial_signal_value(&state("b", IrStateType::Scalar(IrType::Bool), IrLiteral::Int(1)));
    assert!(matches!(v, InitialValue::Bool(false)));
    let v = initial_signal_value(&state("l", IrStateType::Collection(IrType::I32), IrLiteral::Int(1)));
    assert!(matches!(v, InitialValue::I32List(ref l) if l.is_empty()));
}

#[test]
fn collection_states_keep_the_items_of_their_element_type() {
    let items = IrLiteral::List(vec![
        IrLiteral::Int(1),
        IrLiteral::Str("a".into()),
        IrLiteral::Bool(true),
        IrLiteral::Int(2),
        IrLiteral::Str("b".into()),
        IrLiteral::Bool(false),
    ]);
    let ints = initial_signal_value(&state("l", IrStateType::Collection(IrType::I32), items));
    assert!(matches!(ints, InitialValue::I32List(ref l) if *l == vec![1, 2]));
    let items = IrLiteral::List(vec![IrLiteral::Int(1), IrLiteral::Str("a".into()), IrLiteral::Str("b".into())]);
    let strs = initial_signal_value(&state("l", IrStateType::Collection(IrType::Str), items));
    assert!(matches!(strs, InitialValue::StrList(ref l) if *l == vec!["a".to_string(), "b".to_string()]));
    let items = IrLiteral::List(vec![IrLiteral::Bool(false), IrLiteral::Int(0), IrLiteral::Bool(true)]);
    let bools = initial_signal_value(&state("l", IrStateType::Collection(IrType::Bool), items));
    assert!(matches!(bools, InitialValue::BoolList(ref l) if *l == vec![false, true]));
}

#[test]
fn every_state_gets_a_signal_in_declaration_order() {
    let states = vec![
        state("count", IrStateType::Scalar(IrType::I32), IrLiteral::Int(5)),
        state("label", IrStateType::Scalar(IrType::Str), IrLiteral::Str("go".into())),
    ];
    let out = initial_signal_values(&states);
    assert_eq!(out.len(), 2);
    assert_eq!(out[0].0, "count");
    assert!(matches!(out[0].1, InitialValue::I32(5)));
    assert_eq!(out[1].0, "label");
    assert!(matches!(out[1].1, InitialValue::Str(ref s) if s == "go"));
}
