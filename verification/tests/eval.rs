use mesh::sdf::ast::{BinaryOp, DataType, Expression, SwizzleIndex};
use mesh::sdf::eval::{self, Builtin, EvalError, Instr, MathConstant, ValueKind};
use mesh::sdf::parser::{self, ParseError, SemanticError};

fn plan_of(src: &str) -> Result<eval::ScenePlan, EvalError> {
    let prog = parser::parse(src).expect("parse error");
    eval::eval_program(&prog)
}

// ── Error cases ───────────────────────────────────────────────────────────────

#[test]
fn eval_error_undefined_name() {
    let prog = parser::parse("return foo;").unwrap();
    let err = eval::eval_program(&prog).err().expect("expected EvalError");
    assert!(matches!(err, eval::EvalError::UndefinedName(_)));
}

#[test]
fn eval_error_unknown_function() {
    let prog = parser::parse("return does_not_exist(1.0);").unwrap();
    let err = eval::eval_program(&prog).err().expect("expected EvalError");
    assert!(matches!(err, eval::EvalError::UnknownFunction(_)));
}

#[test]
fn eval_error_wrong_arg_count_too_few() {
    let prog = parser::parse("return sphere();").unwrap();
    let err = eval::eval_program(&prog).err().expect("expected EvalError");
    assert!(matches!(err, eval::EvalError::WrongArgCount { .. }));
}

#[test]
fn eval_error_wrong_arg_count_too_many() {
    let prog = parser::parse("return cylinder(1.0, 2.0, 3.0);").unwrap();
    let err = eval::eval_program(&prog).err().expect("expected EvalError");
    assert!(matches!(err, eval::EvalError::WrongArgCount { .. }));
}

#[test]
fn eval_error_type_mismatch_sdf_as_float() {
    // sphere() expects a float as first arg, not an sdf
    let prog = parser::parse("let s = sphere(1.0);\nreturn sphere(s);").unwrap();
    let err = eval::eval_program(&prog).err().expect("expected EvalError");
    assert!(matches!(err, eval::EvalError::TypeMismatch { .. }));
}

#[test]
fn eval_error_not_an_sdf_returned() {
    // Returning a float literal instead of an sdf
    let prog = parser::parse("let x = sphere(1.0);\nreturn 1.0;").unwrap();
    let err = eval::eval_program(&prog).err().expect("expected EvalError");
    assert!(matches!(err, eval::EvalError::TypeMismatch { .. }));
}

#[test]
fn eval_error_duplicate_name() {
    let prog = parser::parse("let x = 1.0;\nlet x = 2.0;\nreturn sphere(x);").unwrap();
    let err = eval::eval_program(&prog).err().expect("expected EvalError");
    assert!(matches!(err, eval::EvalError::DuplicateName(_)));
}

// ── Plans of well-typed programs ──────────────────────────────────────────────

#[test]
fn plan_of_unit_sphere() {
    let plan = plan_of("return sphere(1.0);").unwrap();
    // four named constants, the literal, the sphere
    assert_eq!(plan.steps.len(), 6);
    assert!(matches!(plan.steps[0].instr, Instr::Constant(MathConstant::Pi)));
    assert!(matches!(plan.steps[2].instr, Instr::Constant(MathConstant::E)));
    match &plan.steps[4].instr {
        Instr::Number(t) => assert_eq!(t, "1.0"),
        other => panic!("unexpected step {:?}", other),
    }
    assert_eq!(plan.result, 5);
    assert_eq!(plan.steps[5].kind, ValueKind::Sdf);
    match &plan.steps[5].instr {
        Instr::Call { builtin, args } => {
            assert_eq!(*builtin, Builtin::Sphere);
            assert_eq!(args, &vec![4]);
        }
        other => panic!("unexpected step {:?}", other),
    }
}

#[test]
fn plan_sphere_with_center_uses_vector() {
    let plan = plan_of("return sphere(1.0, <2.0, 0.0, 0.0>);").unwrap();
    let last = &plan.steps[plan.result];
    match &last.instr {
        Instr::Call { builtin, args } => {
            assert_eq!(*builtin, Builtin::SphereAt);
            assert_eq!(plan.steps[args[1]].kind, ValueKind::Vec3);
        }
        other => panic!("unexpected step {:?}", other),
    }
}

#[test]
fn plan_constants_are_shared_by_name() {
    let plan = plan_of("let r = PI / pi;\nreturn sphere(r);").unwrap();
    match &plan.steps[4].instr {
        Instr::Arith { op, left, right } => {
            assert_eq!(*op, BinaryOp::Div);
            assert_eq!((*left, *right), (0, 1));
        }
        other => panic!("unexpected step {:?}", other),
    }
}

#[test]
fn plan_scalar_broadcast_gives_vector_kind() {
    let plan = plan_of("let v = 2.0 * <1.0, 2.0, 3.0>;\nreturn translate(sphere(1.0), v);").unwrap();
    let arith = plan.steps.iter().find(|s| matches!(s.instr, Instr::Arith { .. })).unwrap();
    assert_eq!(arith.kind, ValueKind::Vec3);
}

#[test]
fn plan_swizzle_kind_follows_lane_count() {
    let plan = plan_of("let v = <1.0, 2.0, 3.0>;\nlet w = v.zyx;\nlet r = v.y;\nreturn translate(sphere(r), w);").unwrap();
    let swizzles: Vec<_> = plan.steps.iter().filter(|s| matches!(s.instr, Instr::Swizzle { .. })).collect();
    assert_eq!(swizzles.len(), 2);
    assert_eq!(swizzles[0].kind, ValueKind::Vec3);
    assert_eq!(swizzles[1].kind, ValueKind::Float);
    match &swizzles[0].instr {
        Instr::Swizzle { lanes, .. } => {
            assert_eq!(lanes, &vec![SwizzleIndex::Third, SwizzleIndex::Second, SwizzleIndex::First])
        }
        _ => unreachable!(),
    }
}

#[test]
fn plan_user_function_is_inlined() {
    let src = "def big_sphere(base: float) -> sdf {\n    let doubled = base * 2.0;\n    return sphere(doubled);\n}\nreturn big_sphere(1.0);";
    let plan = plan_of(src).unwrap();
    // constants, 1.0, 2.0, base * 2.0, sphere
    assert_eq!(plan.steps.len(), 8);
    assert!(matches!(plan.steps[7].instr, Instr::Call { builtin: Builtin::Sphere, .. }));
}

#[test]
fn eval_error_vector_of_wrong_size() {
    let err = plan_of("let v = <1.0>;\nreturn sphere(1.0);").err().unwrap();
    match err {
        EvalError::TypeMismatch { expected, got } => {
            assert_eq!(expected, "2\u{2013}4 element vector");
            assert_eq!(got, "wrong size");
        }
        other => panic!("unexpected error {:?}", other),
    }
}

#[test]
fn eval_error_vector_element_not_float() {
    let err = plan_of("let v = <sphere(1.0), 1.0>;\nreturn sphere(1.0);").err().unwrap();
    assert!(matches!(err, EvalError::TypeMismatch { expected: "float", got: "sdf" }));
}

#[test]
fn eval_error_negating_sdf() {
    let err = plan_of("return -sphere(1.0);").err().unwrap();
    assert!(matches!(err, EvalError::TypeMismatch { expected: "numeric", got: "sdf" }));
}

#[test]
fn eval_error_incompatible_arithmetic() {
    let err = plan_of("let v = <1.0, 2.0> + <1.0, 2.0, 3.0>;\nreturn sphere(1.0);").err().unwrap();
    assert!(matches!(err, EvalError::TypeMismatch { expected: "compatible numeric types", got: "incompatible" }));
}

#[test]
fn eval_error_swizzle_of_sdf() {
    let err = plan_of("let s = sphere(1.0);\nlet x = s.x;\nreturn s;").err().unwrap();
    assert!(matches!(err, EvalError::TypeMismatch { expected: "numeric", got: "sdf" }));
}

#[test]
fn eval_error_user_function_arg_count() {
    let err = plan_of("def f(a: float) -> sdf { return sphere(a); }\nreturn f(1.0, 2.0);").err().unwrap();
    match err {
        EvalError::WrongArgCount { func, expected, got } => {
            assert_eq!(func, "f");
            assert_eq!((expected, got), (1, 2));
        }
        other => panic!("unexpected error {:?}", other),
    }
}

#[test]
fn eval_error_parameter_shadows_global() {
    let err = plan_of("let a = 1.0;\ndef f(a: float) -> sdf { return sphere(a); }\nreturn f(1.0);").err().unwrap();
    match err {
        EvalError::DuplicateName(n) => assert_eq!(n, "a"),
        other => panic!("unexpected error {:?}", other),
    }
}

#[test]
fn eval_error_redefining_constant() {
    let err = plan_of("let PI = 3.0;\nreturn sphere(PI);").err().unwrap();
    assert!(matches!(err, EvalError::DuplicateName(ref n) if n == "PI"));
}

#[test]
fn eval_error_builtin_argument_kind() {
    let err = plan_of("return translate(sphere(1.0), 2.0);").err().unwrap();
    assert!(matches!(err, EvalError::TypeMismatch { expected: "vec3", got: "float" }));
}

#[test]
fn eval_error_box_argument_kind() {
    let err = plan_of("return box(<1.0, 2.0>);").err().unwrap();
    assert!(matches!(err, EvalError::TypeMismatch { expected: "vec3 or float", got: "vec2" }));
}

#[test]
fn eval_error_overload_without_match() {
    let err = plan_of("let m = min(1.0, <1.0, 2.0, 3.0>);\nreturn sphere(1.0);").err().unwrap();
    assert!(matches!(err, EvalError::TypeMismatch { expected: "float,float or vec3,vec3", got: "other" }));
}

#[test]
fn eval_body_bindings_may_be_rebound() {
    let src = "def f(a: float) -> sdf {\n  let b = a;\n  let b = a * 2.0;\n  return sphere(b);\n}\nreturn f(1.0);";
    assert!(plan_of(src).is_ok());
}

#[test]
fn eval_later_function_definition_wins() {
    let src = "def f() -> sdf { return sphere(1.0); }\ndef f() -> sdf { return box(1.0); }\nreturn f();";
    let plan = plan_of(src).unwrap();
    assert!(matches!(plan.steps[plan.result].instr, Instr::Call { builtin: Builtin::CuboidUniform, .. }));
}

#[test]
fn eval_mirror_axis_is_a_float_argument() {
    let plan = plan_of("let s = sphere(1.0);\nreturn mirror(s, 0.0);").unwrap();
    assert!(matches!(plan.steps[plan.result].instr, Instr::Call { builtin: Builtin::Mirror, .. }));
}

#[test]
fn kind_labels() {
    assert_eq!(eval::kind_label(ValueKind::Float), "float");
    assert_eq!(eval::kind_label(ValueKind::Vec4), "vec4");
    assert_eq!(eval::kind_label(ValueKind::Sdf), "sdf");
}

#[test]
fn resolve_builtin_examples() {
    let (f, v2, v3, s) = (ValueKind::Float, ValueKind::Vec2, ValueKind::Vec3, ValueKind::Sdf);
    assert_eq!(eval::resolve_builtin_exec("length", &[v2]).ok(), Some((Builtin::Length2, f)));
    assert_eq!(eval::resolve_builtin_exec("lerp", &[v3, v3, f]).ok(), Some((Builtin::Mix3, v3)));
    assert_eq!(eval::resolve_builtin_exec("atan2", &[f, f]).ok(), Some((Builtin::Atan2, f)));
    assert!(matches!(
        eval::resolve_builtin_exec("rotate", &[s, v3]),
        Err(EvalError::WrongArgCount { expected: 3, got: 2, .. })
    ));
    assert!(matches!(eval::resolve_builtin_exec("sphere", &[f, f]), Err(EvalError::TypeMismatch { expected: "vec3", got: "float" })));
}

#[test]
fn parse_error_missing_return() {
    assert_eq!(parser::parse("let a = 1.0;").err(), Some(ParseError::Semantic(SemanticError::MissingReturnStatement)));
    let _ = DataType::Float;
    let _ = Expression::Number(String::from("1"));
}

// ── A plan reads only earlier steps, of the right kinds ──────────────────────

fn operands(instr: &Instr) -> Vec<usize> {
    match instr {
        Instr::Constant(_) | Instr::Number(_) => vec![],
        Instr::Vector(items) => items.clone(),
        Instr::Neg(a) => vec![*a],
        Instr::Arith { left, right, .. } => vec![*left, *right],
        Instr::Swizzle { source, .. } => vec![*source],
        Instr::Call { args, .. } => args.clone(),
    }
}

#[test]
fn plans_are_well_typed() {
    let sources = [
        "return sphere(1.0);",
        "let c = <1.0, 2.0, 3.0>;\nreturn translate(sphere(0.5, c), c * 2.0 - 1.0);",
        "def f(a: float) -> sdf { let b = a * 2.0; return cuboid(b); }\nreturn union(f(1.0), f(PI));",
        "let v = <1.0, 2.0, 3.0, 4.0>;\nreturn sphere(length(v.xyz) + dot(v.xy, v.zw) + -min(1.0, 2.0));",
        "return smooth_union(torus(1.0, 0.25), rotate(cylinder(0.5, 2.0), <1.0, 0.0, 0.0>, pi / 2.0), 0.1);",
    ];
    for src in sources {
        let plan = plan_of(src).unwrap_or_else(|e| panic!("{src}: {e:?}"));
        for (i, step) in plan.steps.iter().enumerate() {
            for a in operands(&step.instr) {
                assert!(a < i, "{src}: step {i} reads step {a}");
            }
            if let Instr::Call { builtin, args } = &step.instr {
                let kinds: Vec<ValueKind> = args.iter().map(|&a| plan.steps[a].kind).collect();
                let (b, k) = eval::resolve_builtin_exec(builtin_name(*builtin), &kinds).unwrap();
                assert_eq!(b, *builtin);
                assert_eq!(k, step.kind);
            }
        }
        assert!(plan.result < plan.steps.len());
        assert_eq!(plan.steps[plan.result].kind, ValueKind::Sdf);
    }
}

fn builtin_name(b: Builtin) -> &'static str {
    match b {
        Builtin::Sphere | Builtin::SphereAt => "sphere",
        Builtin::Cuboid | Builtin::CuboidUniform => "cuboid",
        Builtin::Cylinder => "cylinder",
        Builtin::Torus => "torus",
        Builtin::Translate => "translate",
        Builtin::Rotate => "rotate",
        Builtin::Union => "union",
        Builtin::SmoothUnion => "smooth_union",
        Builtin::Length3 | Builtin::Length2 => "length",
        Builtin::Dot2 | Builtin::Dot3 => "dot",
        Builtin::MinFloat | Builtin::Min3 => "min",
        other => panic!("no name listed for {other:?}"),
    }
}

#[test]
fn evaluating_twice_gives_the_same_plan() {
    let src = "def f(a: float) -> sdf { return sphere(a); }\nreturn union(f(1.0), f(2.0));";
    let a = plan_of(src).unwrap();
    let b = plan_of(src).unwrap();
    assert_eq!(format!("{a:?}"), format!("{b:?}"));
}

#[test]
fn plan_numbers_read_as_numbers() {
    let src = "def f(a: float) -> sdf { let r = a * 0.5; return sphere(r + 12); }\nlet k = 3.25;\nreturn union(f(k), f(007.0));";
    let plan = plan_of(src).unwrap();
    let mut seen = 0;
    for step in &plan.steps {
        if let Instr::Number(text) = &step.instr {
            let _: f64 = text.parse().unwrap_or_else(|_| panic!("{text} is not a number"));
            assert!(text.chars().all(|c| c.is_ascii_digit() || c == '.'));
            seen += 1;
        }
    }
    assert_eq!(seen, 6);
}
