use wasamo_runtime::ir::{IrLiteral, IrState, IrStateType, IrType};
use wasamo_runtime::ir_loader::{parse_ir, IrLoadError};
use wasamo_runtime::ir_validate::{check_states, validate_state_default};

fn state(name: &str, ty: IrStateType, default: IrLiteral) -> IrState {
    IrState { name: name.to_string(), ty, default }
}

fn message(r: Result<(), IrLoadError>) -> String {
    match r {
        Err(IrLoadError::Validate(m)) => m,
        other => panic!("expected a validation error, got {other:?}"),
    }
}

#[test]
fn state_default_messages_name_the_state_and_the_fault() {
    let s = state("n", IrStateType::Scalar(IrType::I32), IrLiteral::Str("x".into()));
    assert_eq!(message(validate_state_default(&s)), "state `n` default does not match declared type");
    let s = state("n", IrStateType::Scalar(IrType::I32), IrLiteral::List(vec![]));
    assert_eq!(message(validate_state_default(&s)), "scalar state `n` cannot use a list literal default");
    let s = state("l", IrStateType::Collection(IrType::Str), IrLiteral::Int(1));
    assert_eq!(message(validate_state_default(&s)), "collection state `l` default must be a list literal");
    let s = state(
        "l",
        IrStateType::Collection(IrType::Str),
        IrLiteral::List(vec![IrLiteral::Str("a".into()), IrLiteral::Int(1)]),
    );
    assert_eq!(message(validate_state_default(&s)), "collection state `l` default element must match `string`");
    let s = state("l", IrStateType::Collection(IrType::Bool), IrLiteral::List(vec![IrLiteral::List(vec![])]));
    assert_eq!(message(validate_state_default(&s)), "collection state `l` default cannot contain a nested list literal");
}

#[test]
fn a_repeated_state_name_is_reported_before_its_default() {
    let states = vec![
        state("n", IrStateType::Scalar(IrType::I32), IrLiteral::Int(0)),
        state("n", IrStateType::Scalar(IrType::Bool), IrLiteral::Int(0)),
    ];
    assert_eq!(message(check_states(&states)), "duplicate `state` name: `n`");
}

#[test]
fn host_surface_messages_are_exact() {
    let r = parse_ir(
        ";wasamo-ir v0\ncomponent C inherits W {\n host prop foo = bar\n node ZStack { node Text {} }\n}",
    );
    assert!(matches!(r, Err(IrLoadError::Validate(ref m))
        if m == "unknown host attribute `foo`; M3-Phase 6 host attributes are: title, backdrop, theme"));
    let r = parse_ir(
        ";wasamo-ir v0\ncomponent C inherits W {\n state n: i32 = 0\n state n: i32 = 1\n node ZStack { node Text {} }\n}",
    );
    assert!(matches!(r, Err(IrLoadError::Validate(ref m)) if m == "duplicate `state` name: `n`"));
}
