use std::collections::HashMap;
use wasamo_runtime::handler::{
    evaluate, evaluate_binding, evaluate_bool_binding, format_handler_location, EvalContext,
    EvalError, WidgetPathSegment,
};
use wasamo_runtime::ir::{CompoundOp, HandlerExpr, InterpolationPart, IrLiteral, IrType};

struct MapCtx {
    i32s: HashMap<String, i32>,
    strings: HashMap<String, String>,
    bools: HashMap<String, bool>,
}

impl MapCtx {
    fn new(pairs: &[(&str, i32)]) -> Self {
        Self {
            i32s: pairs.iter().map(|(k, v)| (k.to_string(), *v)).collect(),
            strings: HashMap::new(),
            bools: HashMap::new(),
        }
    }
    fn with_strings(mut self, pairs: &[(&str, &str)]) -> Self {
        self.strings = pairs
            .iter()
            .map(|(k, v)| (k.to_string(), v.to_string()))
            .collect();
        self
    }
    fn with_bools(mut self, pairs: &[(&str, bool)]) -> Self {
        self.bools = pairs.iter().map(|(k, v)| (k.to_string(), *v)).collect();
        self
    }
    fn get(&self, key: &str) -> i32 {
        *self.i32s.get(key).unwrap_or(&0)
    }
    fn get_b(&self, key: &str) -> bool {
        *self.bools.get(key).unwrap_or(&false)
    }
}

impl EvalContext for MapCtx {
    fn get_i32(&self, path: &str) -> Result<i32, EvalError> {
        self.i32s
            .get(path)
            .copied()
            .ok_or_else(|| EvalError::UnknownProperty(path.to_string()))
    }
    fn get_string(&self, path: &str) -> Result<String, EvalError> {
        self.strings
            .get(path)
            .cloned()
            .ok_or_else(|| EvalError::UnknownProperty(path.to_string()))
    }
    fn get_bool(&self, path: &str) -> Result<bool, EvalError> {
        self.bools
            .get(path)
            .copied()
            .ok_or_else(|| EvalError::UnknownProperty(path.to_string()))
    }
    fn set_i32(&mut self, path: &str, value: i32) -> Result<(), EvalError> {
        self.i32s.insert(path.to_string(), value);
        Ok(())
    }
    fn set_bool(&mut self, path: &str, value: bool) -> Result<(), EvalError> {
        self.bools.insert(path.to_string(), value);
        Ok(())
    }
}

#[test]
fn int_lit() {
    let mut ctx = MapCtx::new(&[]);
    assert_eq!(evaluate(&HandlerExpr::IntLit(42), &mut ctx), Ok(42));
}

#[test]
fn prop_read() {
    let mut ctx = MapCtx::new(&[("root.count", 7)]);
    let expr = HandlerExpr::PropRead {
        path: "root.count".into(),
    };
    assert_eq!(evaluate(&expr, &mut ctx), Ok(7));
}

#[test]
fn prop_read_unknown() {
    let mut ctx = MapCtx::new(&[]);
    let expr = HandlerExpr::PropRead {
        path: "root.count".into(),
    };
    assert_eq!(
        evaluate(&expr, &mut ctx),
        Err(EvalError::UnknownProperty("root.count".into()))
    );
}

#[test]
fn assign() {
    let mut ctx = MapCtx::new(&[("root.count", 0)]);
    let expr = HandlerExpr::Assign {
        lhs: "root.count".into(),
        rhs: Box::new(HandlerExpr::IntLit(5)),
    };
    assert_eq!(evaluate(&expr, &mut ctx), Ok(5));
    assert_eq!(ctx.get("root.count"), 5);
}

#[test]
fn compound_add() {
    let mut ctx = MapCtx::new(&[("root.count", 3)]);
    let expr = HandlerExpr::CompoundAssign {
        lhs: "root.count".into(),
        op: CompoundOp::Add,
        rhs: Box::new(HandlerExpr::IntLit(1)),
    };
    assert_eq!(evaluate(&expr, &mut ctx), Ok(4));
    assert_eq!(ctx.get("root.count"), 4);
}

#[test]
fn compound_sub() {
    let mut ctx = MapCtx::new(&[("root.count", 10)]);
    let expr = HandlerExpr::CompoundAssign {
        lhs: "root.count".into(),
        op: CompoundOp::Sub,
        rhs: Box::new(HandlerExpr::IntLit(3)),
    };
    assert_eq!(evaluate(&expr, &mut ctx), Ok(7));
    assert_eq!(ctx.get("root.count"), 7);
}

#[test]
fn compound_mul() {
    let mut ctx = MapCtx::new(&[("root.count", 4)]);
    let expr = HandlerExpr::CompoundAssign {
        lhs: "root.count".into(),
        op: CompoundOp::Mul,
        rhs: Box::new(HandlerExpr::IntLit(3)),
    };
    assert_eq!(evaluate(&expr, &mut ctx), Ok(12));
    assert_eq!(ctx.get("root.count"), 12);
}

#[test]
fn compound_div() {
    let mut ctx = MapCtx::new(&[("root.count", 12)]);
    let expr = HandlerExpr::CompoundAssign {
        lhs: "root.count".into(),
        op: CompoundOp::Div,
        rhs: Box::new(HandlerExpr::IntLit(4)),
    };
    assert_eq!(evaluate(&expr, &mut ctx), Ok(3));
    assert_eq!(ctx.get("root.count"), 3);
}

#[test]
fn division_by_zero() {
    let mut ctx = MapCtx::new(&[("root.count", 5)]);
    let expr = HandlerExpr::CompoundAssign {
        lhs: "root.count".into(),
        op: CompoundOp::Div,
        rhs: Box::new(HandlerExpr::IntLit(0)),
    };
    assert_eq!(evaluate(&expr, &mut ctx), Err(EvalError::DivisionByZero));
    assert_eq!(ctx.get("root.count"), 5);
}

#[test]
fn wrapping_overflow_add() {
    let mut ctx = MapCtx::new(&[("x", i32::MAX)]);
    let expr = HandlerExpr::CompoundAssign {
        lhs: "x".into(),
        op: CompoundOp::Add,
        rhs: Box::new(HandlerExpr::IntLit(1)),
    };
    assert_eq!(evaluate(&expr, &mut ctx), Ok(i32::MIN));
    assert_eq!(ctx.get("x"), i32::MIN);
}

#[test]
fn wrapping_overflow_sub() {
    let mut ctx = MapCtx::new(&[("x", i32::MIN)]);
    let expr = HandlerExpr::CompoundAssign {
        lhs: "x".into(),
        op: CompoundOp::Sub,
        rhs: Box::new(HandlerExpr::IntLit(1)),
    };
    assert_eq!(evaluate(&expr, &mut ctx), Ok(i32::MAX));
    assert_eq!(ctx.get("x"), i32::MAX);
}

#[test]
fn nested_block() {
    let mut ctx = MapCtx::new(&[("a", 0), ("b", 0)]);
    let expr = HandlerExpr::Block(vec![
        HandlerExpr::Assign {
            lhs: "a".into(),
            rhs: Box::new(HandlerExpr::IntLit(1)),
        },
        HandlerExpr::Assign {
            lhs: "b".into(),
            rhs: Box::new(HandlerExpr::IntLit(2)),
        },
    ]);
    assert_eq!(evaluate(&expr, &mut ctx), Ok(2));
    assert_eq!(ctx.get("a"), 1);
    assert_eq!(ctx.get("b"), 2);
}

#[test]
fn block_with_compound_then_read() {
    let mut ctx = MapCtx::new(&[("root.count", 5)]);
    let expr = HandlerExpr::Block(vec![
        HandlerExpr::CompoundAssign {
            lhs: "root.count".into(),
            op: CompoundOp::Add,
            rhs: Box::new(HandlerExpr::IntLit(1)),
        },
        HandlerExpr::PropRead {
            path: "root.count".into(),
        },
    ]);
    assert_eq!(evaluate(&expr, &mut ctx), Ok(6));
    assert_eq!(ctx.get("root.count"), 6);
}

#[test]
fn empty_block() {
    let mut ctx = MapCtx::new(&[]);
    assert_eq!(evaluate(&HandlerExpr::Block(vec![]), &mut ctx), Ok(0));
}

#[test]
fn location_no_path_segments() {
    let loc = format_handler_location("Counter", &[], "clicked");
    assert_eq!(loc, "Counter.clicked");
}

#[test]
fn location_single_segment_no_index() {
    let loc =
        format_handler_location("Counter", &[WidgetPathSegment::named("button")], "clicked");
    assert_eq!(loc, "Counter.button.clicked");
}

#[test]
fn location_single_segment_with_index() {
    let loc = format_handler_location(
        "Counter",
        &[WidgetPathSegment::indexed("button", 1)],
        "clicked",
    );
    assert_eq!(loc, "Counter.button[1].clicked");
}

#[test]
fn location_nested_path() {
    let loc = format_handler_location(
        "App",
        &[
            WidgetPathSegment::named("vstack"),
            WidgetPathSegment::indexed("button", 0),
        ],
        "clicked",
    );
    assert_eq!(loc, "App.vstack.button[0].clicked");
}

#[test]
fn location_placeholder_component() {
    let loc = format_handler_location("?", &[WidgetPathSegment::named("button")], "clicked");
    assert_eq!(loc, "?.button.clicked");
}

#[test]
fn inline_before_host_ordering() {
    let mut ctx = MapCtx::new(&[("x", 0)]);
    let mut event_log: Vec<String> = Vec::new();

    let inline = HandlerExpr::CompoundAssign {
        lhs: "x".into(),
        op: CompoundOp::Add,
        rhs: Box::new(HandlerExpr::IntLit(10)),
    };

    evaluate(&inline, &mut ctx).unwrap();
    event_log.push(format!("inline: x={}", ctx.get("x")));

    let host_saw = ctx.get("x");
    event_log.push(format!("host: x={host_saw}"));

    assert_eq!(event_log, ["inline: x=10", "host: x=10"]);
}

#[test]
fn binding_str_lit() {
    let mut ctx = MapCtx::new(&[]);
    let expr = HandlerExpr::StrLit("hello".into());
    assert_eq!(evaluate_binding(&expr, &mut ctx), Ok("hello".into()));
}

#[test]
fn binding_interpolation_counter() {
    let mut ctx = MapCtx::new(&[("root.count", 7)]);
    let expr = HandlerExpr::Interpolation(vec![
        InterpolationPart::Literal("Count: ".into()),
        InterpolationPart::Expr(HandlerExpr::PropRead {
            path: "root.count".into(),
        }),
    ]);
    assert_eq!(evaluate_binding(&expr, &mut ctx), Ok("Count: 7".into()));
}

#[test]
fn binding_bare_int_prop_read() {
    let mut ctx = MapCtx::new(&[("root.count", 3)]);
    let expr = HandlerExpr::PropRead {
        path: "root.count".into(),
    };
    assert_eq!(evaluate_binding(&expr, &mut ctx), Ok("3".into()));
}

#[test]
fn binding_bare_string_prop_read() {
    let mut ctx = MapCtx::new(&[]).with_strings(&[("root.label", "Ready")]);
    let expr = HandlerExpr::StrPropRead {
        path: "root.label".into(),
    };
    assert_eq!(evaluate_binding(&expr, &mut ctx), Ok("Ready".into()));
}

#[test]
fn binding_interpolation_string_prop_read() {
    let mut ctx = MapCtx::new(&[("root.count", 3)]).with_strings(&[("root.label", "Ready")]);
    let expr = HandlerExpr::Interpolation(vec![
        InterpolationPart::Literal("State: ".into()),
        InterpolationPart::Expr(HandlerExpr::StrPropRead {
            path: "root.label".into(),
        }),
        InterpolationPart::Literal(" #".into()),
        InterpolationPart::Expr(HandlerExpr::PropRead {
            path: "root.count".into(),
        }),
    ]);
    assert_eq!(
        evaluate_binding(&expr, &mut ctx),
        Ok("State: Ready #3".into())
    );
}

#[test]
fn binding_rejects_string_read_in_integer_context() {
    let mut ctx = MapCtx::new(&[]).with_strings(&[("root.label", "Ready")]);
    let expr = HandlerExpr::Block(vec![HandlerExpr::StrPropRead {
        path: "root.label".into(),
    }]);
    assert!(matches!(
        evaluate_binding(&expr, &mut ctx),
        Err(EvalError::TypeMismatch { .. })
    ));
}

#[test]
fn binding_rejects_assign() {
    let mut ctx = MapCtx::new(&[("x", 0)]);
    let expr = HandlerExpr::Assign {
        lhs: "x".into(),
        rhs: Box::new(HandlerExpr::IntLit(1)),
    };
    assert_eq!(
        evaluate_binding(&expr, &mut ctx),
        Err(EvalError::WriteInBindingContext { path: "x".into() }),
    );
}

#[test]
fn binding_rejects_compound_assign() {
    let mut ctx = MapCtx::new(&[("x", 5)]);
    let expr = HandlerExpr::CompoundAssign {
        lhs: "x".into(),
        op: CompoundOp::Add,
        rhs: Box::new(HandlerExpr::IntLit(1)),
    };
    assert_eq!(
        evaluate_binding(&expr, &mut ctx),
        Err(EvalError::WriteInBindingContext { path: "x".into() }),
    );
}

#[test]
fn binding_rejects_write_nested_in_interpolation() {
    let mut ctx = MapCtx::new(&[("x", 0)]);
    let expr = HandlerExpr::Interpolation(vec![
        InterpolationPart::Literal("v=".into()),
        InterpolationPart::Expr(HandlerExpr::Assign {
            lhs: "x".into(),
            rhs: Box::new(HandlerExpr::IntLit(99)),
        }),
    ]);
    assert_eq!(
        evaluate_binding(&expr, &mut ctx),
        Err(EvalError::WriteInBindingContext { path: "x".into() }),
    );
    assert_eq!(ctx.get("x"), 0);
}

#[test]
fn evaluate_rejects_str_lit_in_handler_context() {
    let mut ctx = MapCtx::new(&[]);
    let expr = HandlerExpr::StrLit("oops".into());
    assert!(matches!(
        evaluate(&expr, &mut ctx),
        Err(EvalError::TypeMismatch { .. })
    ));
}

#[test]
fn evaluate_rejects_interpolation_in_handler_context() {
    let mut ctx = MapCtx::new(&[]);
    let expr = HandlerExpr::Interpolation(vec![InterpolationPart::Literal("x".into())]);
    assert!(matches!(
        evaluate(&expr, &mut ctx),
        Err(EvalError::TypeMismatch { .. })
    ));
}

#[test]
fn evaluate_rejects_str_prop_read_in_handler_context() {
    let mut ctx = MapCtx::new(&[]).with_strings(&[("root.label", "Ready")]);
    let expr = HandlerExpr::StrPropRead {
        path: "root.label".into(),
    };
    assert!(matches!(
        evaluate(&expr, &mut ctx),
        Err(EvalError::TypeMismatch { .. })
    ));
}

#[test]
fn evaluate_rejects_collection_forms_until_t7_writer_lands() {
    let mut ctx = MapCtx::new(&[]);
    let exprs = [
        HandlerExpr::ListPropRead {
            path: "xs".into(),
            elem: IrType::I32,
        },
        HandlerExpr::ItemRead {
            binder: "item".into(),
        },
        HandlerExpr::IndexRead { binder: "i".into() },
        HandlerExpr::ListAppend {
            path: "xs".into(),
            elem: IrType::I32,
            value: Box::new(HandlerExpr::IntLit(1)),
        },
        HandlerExpr::ListDropLast {
            path: "xs".into(),
            elem: IrType::I32,
        },
        HandlerExpr::ListLit(vec![IrLiteral::Int(1)]),
    ];

    for expr in exprs {
        assert!(matches!(
            evaluate(&expr, &mut ctx),
            Err(EvalError::TypeMismatch { .. })
        ));
    }
}

#[test]
fn eval_context_default_get_bool_is_unknown() {
    struct OnlyI32;
    impl EvalContext for OnlyI32 {
        fn get_i32(&self, _: &str) -> Result<i32, EvalError> {
            Ok(0)
        }
        fn set_i32(&mut self, _: &str, _: i32) -> Result<(), EvalError> {
            Ok(())
        }
    }
    let ctx = OnlyI32;
    assert_eq!(
        ctx.get_bool("ready"),
        Err(EvalError::UnknownProperty("ready".into()))
    );
    assert_eq!(
        ctx.read_bool_tracked("ready"),
        Err(EvalError::UnknownProperty("ready".into()))
    );
}

#[test]
fn eval_context_default_set_bool_is_unknown() {
    struct OnlyI32;
    impl EvalContext for OnlyI32 {
        fn get_i32(&self, _: &str) -> Result<i32, EvalError> {
            Ok(0)
        }
        fn set_i32(&mut self, _: &str, _: i32) -> Result<(), EvalError> {
            Ok(())
        }
    }
    let mut ctx = OnlyI32;
    assert_eq!(
        ctx.set_bool("ready", true),
        Err(EvalError::UnknownProperty("ready".into()))
    );
}

#[test]
fn read_bool_tracked_default_forwards_to_get_bool() {
    let ctx = MapCtx::new(&[]).with_bools(&[("ready", true)]);
    assert_eq!(ctx.read_bool_tracked("ready"), Ok(true));
}

#[test]
fn assign_bool_lit_writes_through_set_bool() {
    let mut ctx = MapCtx::new(&[]).with_bools(&[("ready", true)]);
    let expr = HandlerExpr::Assign {
        lhs: "ready".into(),
        rhs: Box::new(HandlerExpr::BoolLit(false)),
    };
    assert_eq!(evaluate(&expr, &mut ctx), Ok(0));
    assert_eq!(ctx.get_b("ready"), false);
}

#[test]
fn assign_bool_prop_read_copies_value() {
    let mut ctx = MapCtx::new(&[]).with_bools(&[("ready", false), ("other", true)]);
    let expr = HandlerExpr::Assign {
        lhs: "ready".into(),
        rhs: Box::new(HandlerExpr::BoolPropRead {
            path: "other".into(),
        }),
    };
    assert_eq!(evaluate(&expr, &mut ctx), Ok(0));
    assert_eq!(ctx.get_b("ready"), true);
    assert_eq!(ctx.get_b("other"), true);
}

#[test]
fn assign_bool_prop_read_unknown_source_propagates_error() {
    let mut ctx = MapCtx::new(&[]).with_bools(&[("ready", false)]);
    let expr = HandlerExpr::Assign {
        lhs: "ready".into(),
        rhs: Box::new(HandlerExpr::BoolPropRead {
            path: "missing".into(),
        }),
    };
    assert_eq!(
        evaluate(&expr, &mut ctx),
        Err(EvalError::UnknownProperty("missing".into()))
    );
    assert_eq!(ctx.get_b("ready"), false);
}

#[test]
fn evaluate_rejects_bare_bool_lit_in_handler_context() {
    let mut ctx = MapCtx::new(&[]);
    let expr = HandlerExpr::BoolLit(true);
    assert!(matches!(
        evaluate(&expr, &mut ctx),
        Err(EvalError::TypeMismatch { .. })
    ));
}

#[test]
fn evaluate_rejects_bare_bool_prop_read_in_handler_context() {
    let mut ctx = MapCtx::new(&[]).with_bools(&[("ready", true)]);
    let expr = HandlerExpr::BoolPropRead {
        path: "ready".into(),
    };
    assert!(matches!(
        evaluate(&expr, &mut ctx),
        Err(EvalError::TypeMismatch { .. })
    ));
}

#[test]
fn evaluate_rejects_compound_assign_with_bool_rhs() {
    let mut ctx = MapCtx::new(&[("x", 1)]);
    let expr = HandlerExpr::CompoundAssign {
        lhs: "x".into(),
        op: CompoundOp::Add,
        rhs: Box::new(HandlerExpr::BoolLit(true)),
    };
    assert!(matches!(
        evaluate(&expr, &mut ctx),
        Err(EvalError::TypeMismatch { .. })
    ));
    assert_eq!(ctx.get("x"), 1);
}

#[test]
fn bool_binding_accepts_bool_lit_true() {
    let mut ctx = MapCtx::new(&[]);
    assert_eq!(
        evaluate_bool_binding(&HandlerExpr::BoolLit(true), &mut ctx),
        Ok(true)
    );
}

#[test]
fn bool_binding_accepts_bool_lit_false() {
    let mut ctx = MapCtx::new(&[]);
    assert_eq!(
        evaluate_bool_binding(&HandlerExpr::BoolLit(false), &mut ctx),
        Ok(false)
    );
}

#[test]
fn bool_binding_accepts_bool_prop_read() {
    let mut ctx = MapCtx::new(&[]).with_bools(&[("ready", true)]);
    let expr = HandlerExpr::BoolPropRead {
        path: "ready".into(),
    };
    assert_eq!(evaluate_bool_binding(&expr, &mut ctx), Ok(true));
}

#[test]
fn bool_binding_bool_prop_read_unknown_is_unknown_property() {
    let mut ctx = MapCtx::new(&[]);
    let expr = HandlerExpr::BoolPropRead {
        path: "missing".into(),
    };
    assert_eq!(
        evaluate_bool_binding(&expr, &mut ctx),
        Err(EvalError::UnknownProperty("missing".into()))
    );
}

#[test]
fn bool_binding_rejects_int_lit() {
    let mut ctx = MapCtx::new(&[]);
    assert!(matches!(
        evaluate_bool_binding(&HandlerExpr::IntLit(1), &mut ctx),
        Err(EvalError::TypeMismatch { .. })
    ));
}

#[test]
fn bool_binding_rejects_prop_read() {
    let mut ctx = MapCtx::new(&[("root.count", 1)]);
    let expr = HandlerExpr::PropRead {
        path: "root.count".into(),
    };
    assert!(matches!(
        evaluate_bool_binding(&expr, &mut ctx),
        Err(EvalError::TypeMismatch { .. })
    ));
}

#[test]
fn bool_binding_rejects_str_lit() {
    let mut ctx = MapCtx::new(&[]);
    let expr = HandlerExpr::StrLit("true".into());
    assert!(matches!(
        evaluate_bool_binding(&expr, &mut ctx),
        Err(EvalError::TypeMismatch { .. })
    ));
}

#[test]
fn bool_binding_rejects_str_prop_read() {
    let mut ctx = MapCtx::new(&[]).with_strings(&[("root.label", "true")]);
    let expr = HandlerExpr::StrPropRead {
        path: "root.label".into(),
    };
    assert!(matches!(
        evaluate_bool_binding(&expr, &mut ctx),
        Err(EvalError::TypeMismatch { .. })
    ));
}

#[test]
fn bool_binding_rejects_interpolation() {
    let mut ctx = MapCtx::new(&[]);
    let expr = HandlerExpr::Interpolation(vec![InterpolationPart::Literal("true".into())]);
    assert!(matches!(
        evaluate_bool_binding(&expr, &mut ctx),
        Err(EvalError::TypeMismatch { .. })
    ));
}

#[test]
fn bool_binding_rejects_assign() {
    let mut ctx = MapCtx::new(&[]).with_bools(&[("ready", false)]);
    let expr = HandlerExpr::Assign {
        lhs: "ready".into(),
        rhs: Box::new(HandlerExpr::BoolLit(true)),
    };
    assert!(matches!(
        evaluate_bool_binding(&expr, &mut ctx),
        Err(EvalError::TypeMismatch { .. })
    ));
}

#[test]
fn bool_binding_rejects_block() {
    let mut ctx = MapCtx::new(&[]);
    let expr = HandlerExpr::Block(vec![HandlerExpr::BoolLit(true)]);
    assert!(matches!(
        evaluate_bool_binding(&expr, &mut ctx),
        Err(EvalError::TypeMismatch { .. })
    ));
}

#[test]
fn assign_i32_lit_still_works_after_bool_arm() {
    let mut ctx = MapCtx::new(&[("count", 0)]);
    let expr = HandlerExpr::Assign {
        lhs: "count".into(),
        rhs: Box::new(HandlerExpr::IntLit(9)),
    };
    assert_eq!(evaluate(&expr, &mut ctx), Ok(9));
    assert_eq!(ctx.get("count"), 9);
}

