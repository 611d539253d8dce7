use mesh::sdf::ast::{BinaryOp, DataType, Expression, SwizzleIndex, UnaryOp};
use mesh::sdf::parser::{self, ParseError, SemanticError};

#[test]
fn parse_all_primitives() {
    let sources = [
        "return sphere(1.0);",
        "return box(1.0);",
        "return cuboid(<1.0, 2.0, 3.0>);",
        "return cylinder(1.0, 2.0);",
        "return capsule(0.5, 2.0);",
        "return torus(2.0, 0.5);",
        "return plane(<0.0, 1.0, 0.0>, 0.0);",
    ];
    for src in &sources {
        assert!(parser::parse(src).is_ok(), "failed to parse: {src}");
    }
}

#[test]
fn parse_all_transforms() {
    let sources = [
        "let s = sphere(1.0);\nreturn translate(s, <1.0, 0.0, 0.0>);",
        "let s = sphere(1.0);\nreturn scale(s, 2.0);",
        "let s = sphere(1.0);\nreturn rotate(s, <0.0, 1.0, 0.0>, 1.0);",
        "let s = sphere(1.0);\nreturn elongate(s, <0.0, 1.0, 0.0>);",
        "let s = sphere(1.0);\nreturn mirror(s, 0.0);",
        "let s = sphere(1.0);\nreturn twist(s, 0.5);",
    ];
    for src in &sources {
        assert!(parser::parse(src).is_ok(), "failed to parse: {src}");
    }
}

#[test]
fn parse_all_booleans() {
    let sources = [
        "let a = sphere(1.0);\nlet b = sphere(2.0);\nreturn union(a, b);",
        "let a = sphere(1.0);\nlet b = sphere(2.0);\nreturn intersection(a, b);",
        "let a = sphere(1.0);\nlet b = sphere(2.0);\nreturn difference(a, b);",
        "let a = sphere(1.0);\nlet b = sphere(2.0);\nreturn smooth_union(a, b, 0.5);",
        "let a = sphere(1.0);\nlet b = sphere(2.0);\nreturn smooth_intersection(a, b, 0.5);",
        "let a = sphere(1.0);\nlet b = sphere(2.0);\nreturn smooth_difference(a, b, 0.5);",
    ];
    for src in &sources {
        assert!(parser::parse(src).is_ok(), "failed to parse: {src}");
    }
}

#[test]
fn parse_domain_operations() {
    let sources = [
        "let s = sphere(1.0);\nreturn onion(s, 0.1);",
        "let s = sphere(1.0);\nreturn offset(s, 0.5);",
        "let s = sphere(0.5);\nreturn repeat(s, <4.0, 4.0, 4.0>, <2.0, 2.0, 2.0>);",
    ];
    for src in &sources {
        assert!(parser::parse(src).is_ok(), "failed to parse: {src}");
    }
}

#[test]
fn parse_user_defined_function() {
    let src = "def make_box(s: float) -> sdf {\n    return box(s);\n}\nreturn make_box(1.0);";
    assert!(parser::parse(src).is_ok());
}

#[test]
fn parse_swizzle_components() {
    let sources = [
        "let v = <1.0, 2.0, 3.0>;\nreturn sphere(v.x);",
        "let v = <1.0, 2.0, 3.0>;\nreturn sphere(v.y);",
        "let v = <1.0, 2.0, 3.0>;\nreturn sphere(v.z);",
    ];
    for src in &sources {
        assert!(parser::parse(src).is_ok(), "failed to parse: {src}");
    }
}

// ── Shapes of the tree ────────────────────────────────────────────────────────

#[test]
fn parse_precedence_and_left_associativity() {
    let p = parser::parse("return 1 - 2 - 3 * 4;").unwrap();
    // (1 - 2) - (3 * 4)
    match &p.return_expr {
        Expression::Binary { op: BinaryOp::Sub, left, right } => {
            assert!(matches!(**left, Expression::Binary { op: BinaryOp::Sub, .. }));
            assert!(matches!(**right, Expression::Binary { op: BinaryOp::Mul, .. }));
        }
        other => panic!("unexpected tree {:?}", other),
    }
}

#[test]
fn parse_negation_and_parentheses() {
    let p = parser::parse("let r = -(-1.0);\nreturn sphere(r);").unwrap();
    match &p.assignments[0].expr {
        Expression::Unary { op: UnaryOp::Neg, expr } => {
            assert!(matches!(**expr, Expression::Unary { op: UnaryOp::Neg, .. }));
        }
        other => panic!("unexpected tree {:?}", other),
    }
}

#[test]
fn parse_number_keeps_its_text() {
    let p = parser::parse("return 12.50;").unwrap();
    match &p.return_expr {
        Expression::Number(t) => assert_eq!(t, "12.50"),
        other => panic!("unexpected tree {:?}", other),
    }
}

#[test]
fn parse_swizzle_lanes() {
    let p = parser::parse("return v.xg3;").unwrap();
    match &p.return_expr {
        Expression::Swizzle { components, .. } => {
            assert_eq!(components.as_slice(), &[SwizzleIndex::First, SwizzleIndex::Second, SwizzleIndex::Fourth]);
        }
        other => panic!("unexpected tree {:?}", other),
    }
}

#[test]
fn parse_function_signature() {
    let p = parser::parse("def f(a: vec3, b: float) -> sdf { let c = a; return g(c, b); }\nreturn f(<1,2,3>, 1);").unwrap();
    let f = &p.functions[0];
    assert_eq!(f.name, "f");
    assert_eq!(f.params.len(), 2);
    assert_eq!(f.params[0].name, "a");
    assert_eq!(f.params[0].ty, DataType::Vec3);
    assert_eq!(f.params[1].ty, DataType::Float);
    assert_eq!(f.return_type, DataType::Sdf);
    assert_eq!(f.body.assignments.len(), 1);
    match &f.body.return_expr {
        Expression::Call { name, args } => {
            assert_eq!(name, "g");
            assert_eq!(args.len(), 2);
        }
        other => panic!("unexpected tree {:?}", other),
    }
}

#[test]
fn parse_last_return_counts() {
    let p = parser::parse("return a;\nlet b = 1;\nreturn c;").unwrap();
    assert!(matches!(&p.return_expr, Expression::Reference(n) if n == "c"));
    assert_eq!(p.assignments.len(), 1);
}

#[test]
fn parse_comments_and_blanks() {
    let p = parser::parse("// a scene\n\tlet r = 1.0; // radius\r\nreturn sphere(r);\n").unwrap();
    assert_eq!(p.assignments.len(), 1);
}

// ── Errors ───────────────────────────────────────────────────────────────────

#[test]
fn parse_error_positions() {
    assert_eq!(parser::parse("return 1.0").err(), Some(ParseError::Syntax(10)));
    assert_eq!(parser::parse("return 1.0 ?;").err(), Some(ParseError::Syntax(11)));
    assert_eq!(parser::parse("let = 1;").err(), Some(ParseError::Syntax(4)));
    assert_eq!(parser::parse("return v.xq;").err(), Some(ParseError::Syntax(8)));
    assert_eq!(parser::parse("return v.xyzwx;").err(), Some(ParseError::Syntax(8)));
    assert_eq!(parser::parse("def f(a: int) -> sdf { return a; } return f(1);").err(), Some(ParseError::Syntax(9)));
    assert_eq!(parser::parse("return f(1,);").err(), Some(ParseError::Syntax(11)));
}

#[test]
fn parse_error_non_ascii() {
    assert_eq!(parser::parse("return caf\u{e9};").err(), Some(ParseError::NonAscii));
}

#[test]
fn parse_error_missing_returns() {
    let missing = Some(ParseError::Semantic(SemanticError::MissingReturnStatement));
    assert_eq!(parser::parse("").err(), missing);
    assert_eq!(parser::parse("def f() -> sdf { let a = 1; } return f();").err(), missing);
}

#[test]
fn parse_keywords_are_not_names() {
    assert!(parser::parse("let let = 1; return sphere(1);").is_err());
    assert!(parser::parse("let letter = 1; return sphere(letter);").is_ok());
}
