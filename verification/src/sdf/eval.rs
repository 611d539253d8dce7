use vstd::prelude::*;
use vstd::utf8::encode_utf8;

use crate::sdf::ast::{
    Assignment, BinaryOp, Expression, FunctionDef, Parameter, Program, SAssignment, SExpr,
    SFunctionDef, SParameter, SProgram, SwizzleIndex, UnaryOp, exprs_view, lanes_as_slice,
    lemma_exprs_view_index,
};

verus! {

// ── Kinds of value and errors ────────────────────────────────────────────────

/// What a value of the language is: a number, a vector of two to four
/// numbers, or a distance field.
#[derive(Debug, Clone, Copy, PartialEq, Eq, Structural)]
pub enum ValueKind {
    Float,
    Vec2,
    Vec3,
    Vec4,
    Sdf,
}

pub open spec fn kind_name(k: ValueKind) -> Seq<char> {
    match k {
        ValueKind::Float => "float"@,
        ValueKind::Vec2 => "vec2"@,
        ValueKind::Vec3 => "vec3"@,
        ValueKind::Vec4 => "vec4"@,
        ValueKind::Sdf => "sdf"@,
    }
}

/// The name of a kind of value, as error messages use it.
pub fn kind_label(k: ValueKind) -> (r: &'static str)
    ensures
        r@ == kind_name(k),
{
    match k {
        ValueKind::Float => "float",
        ValueKind::Vec2 => "vec2",
        ValueKind::Vec3 => "vec3",
        ValueKind::Vec4 => "vec4",
        ValueKind::Sdf => "sdf",
    }
}

/// Why a program has no scene.
#[derive(Debug)]
pub enum EvalError {
    UndefinedName(String),
    UnknownFunction(String),
    TypeMismatch { expected: &'static str, got: &'static str },
    WrongArgCount { func: String, expected: usize, got: usize },
    NotAnSdf,
    DuplicateName(String),
}

/// The model of an `EvalError`.
pub enum SEvalError {
    UndefinedName(Seq<char>),
    UnknownFunction(Seq<char>),
    TypeMismatch { expected: Seq<char>, got: Seq<char> },
    WrongArgCount { func: Seq<char>, expected: nat, got: nat },
    NotAnSdf,
    DuplicateName(Seq<char>),
}

impl View for EvalError {
    type V = SEvalError;

    open spec fn view(&self) -> SEvalError {
        match self {
            EvalError::UndefinedName(n) => SEvalError::UndefinedName(n@),
            EvalError::UnknownFunction(n) => SEvalError::UnknownFunction(n@),
            EvalError::TypeMismatch { expected, got } => SEvalError::TypeMismatch {
                expected: expected@,
                got: got@,
            },
            EvalError::WrongArgCount { func, expected, got } => SEvalError::WrongArgCount {
                func: func@,
                expected: *expected as nat,
                got: *got as nat,
            },
            EvalError::NotAnSdf => SEvalError::NotAnSdf,
            EvalError::DuplicateName(n) => SEvalError::DuplicateName(n@),
        }
    }
}

pub open spec fn mismatch(expected: Seq<char>, got: Seq<char>) -> SEvalError {
    SEvalError::TypeMismatch { expected, got }
}

// ── Arithmetic, vectors and swizzles on kinds ────────────────────────────────

/// The kind of `a op b`: equal numeric kinds keep their kind, and a number
/// is spread over a vector on either side; anything else does not combine.
pub open spec fn binary_kind(a: ValueKind, b: ValueKind) -> Option<ValueKind> {
    if a == ValueKind::Sdf || b == ValueKind::Sdf {
        None
    } else if a == b {
        Some(a)
    } else if a == ValueKind::Float {
        Some(b)
    } else if b == ValueKind::Float {
        Some(a)
    } else {
        None
    }
}

pub fn binary_kind_exec(a: ValueKind, b: ValueKind) -> (r: Option<ValueKind>)
    ensures
        r == binary_kind(a, b),
{
    if a == ValueKind::Sdf || b == ValueKind::Sdf {
        None
    } else if a == b {
        Some(a)
    } else if a == ValueKind::Float {
        Some(b)
    } else if b == ValueKind::Float {
        Some(a)
    } else {
        None
    }
}

/// The kind of a vector literal or a swizzle with `n` numbers.
pub open spec fn width_kind(n: nat) -> Option<ValueKind> {
    if n == 1 {
        Some(ValueKind::Float)
    } else if n == 2 {
        Some(ValueKind::Vec2)
    } else if n == 3 {
        Some(ValueKind::Vec3)
    } else if n == 4 {
        Some(ValueKind::Vec4)
    } else {
        None
    }
}

pub fn width_kind_exec(n: usize) -> (r: Option<ValueKind>)
    ensures
        r == width_kind(n as nat),
{
    if n == 1 {
        Some(ValueKind::Float)
    } else if n == 2 {
        Some(ValueKind::Vec2)
    } else if n == 3 {
        Some(ValueKind::Vec3)
    } else if n == 4 {
        Some(ValueKind::Vec4)
    } else {
        None
    }
}

// ── Built-in functions ───────────────────────────────────────────────────────

/// A built-in operation, resolved for the kinds of its arguments.
#[derive(Debug, Clone, Copy, PartialEq, Eq, Structural)]
pub enum Builtin {
    Sphere,
    SphereAt,
    Cuboid,
    CuboidUniform,
    Cylinder,
    Capsule,
    Torus,
    Plane,
    Translate,
    Rotate,
    Scale,
    Elongate,
    Twist,
    Mirror,
    Union,
    Intersection,
    Difference,
    SmoothUnion,
    SmoothIntersection,
    SmoothDifference,
    Repeat,
    Onion,
    Offset,
    Normalize3,
    Normalize2,
    Length3,
    Length2,
    AbsFloat,
    Abs2,
    Abs3,
    Abs4,
    MinFloat,
    Min3,
    MaxFloat,
    Max3,
    Clamp,
    MixFloat,
    Mix3,
    Dot2,
    Dot3,
    Cross,
    Sqrt,
    Sin,
    Cos,
    Tan,
    Asin,
    Acos,
    Atan,
    Atan2,
    Floor,
    Ceil,
    Round,
    Pow,
    Sign,
    Exp,
    Log,
}

/// Built-in names whose arguments have one fixed list of kinds.
pub open spec fn fixed_builtin(name: Seq<char>) -> Option<Builtin> {
    if name == "cylinder"@ {
        Some(Builtin::Cylinder)
    } else if name == "capsule"@ {
        Some(Builtin::Capsule)
    } else if name == "torus"@ {
        Some(Builtin::Torus)
    } else if name == "plane"@ {
        Some(Builtin::Plane)
    } else if name == "translate"@ {
        Some(Builtin::Translate)
    } else if name == "rotate"@ {
        Some(Builtin::Rotate)
    } else if name == "scale"@ {
        Some(Builtin::Scale)
    } else if name == "elongate"@ {
        Some(Builtin::Elongate)
    } else if name == "twist"@ {
        Some(Builtin::Twist)
    } else if name == "mirror"@ {
        Some(Builtin::Mirror)
    } else if name == "union"@ {
        Some(Builtin::Union)
    } else if name == "intersection"@ {
        Some(Builtin::Intersection)
    } else if name == "difference"@ {
        Some(Builtin::Difference)
    } else if name == "smooth_union"@ {
        Some(Builtin::SmoothUnion)
    } else if name == "smooth_intersection"@ {
        Some(Builtin::SmoothIntersection)
    } else if name == "smooth_difference"@ {
        Some(Builtin::SmoothDifference)
    } else if name == "repeat"@ {
        Some(Builtin::Repeat)
    } else if name == "onion"@ {
        Some(Builtin::Onion)
    } else if name == "offset"@ {
        Some(Builtin::Offset)
    } else if name == "sqrt"@ {
        Some(Builtin::Sqrt)
    } else if name == "sin"@ {
        Some(Builtin::Sin)
    } else if name == "cos"@ {
        Some(Builtin::Cos)
    } else if name == "tan"@ {
        Some(Builtin::Tan)
    } else if name == "asin"@ {
        Some(Builtin::Asin)
    } else if name == "acos"@ {
        Some(Builtin::Acos)
    } else if name == "atan"@ {
        Some(Builtin::Atan)
    } else if name == "atan2"@ {
        Some(Builtin::Atan2)
    } else if name == "floor"@ {
        Some(Builtin::Floor)
    } else if name == "ceil"@ {
        Some(Builtin::Ceil)
    } else if name == "round"@ {
        Some(Builtin::Round)
    } else if name == "pow"@ {
        Some(Builtin::Pow)
    } else if name == "sign"@ {
        Some(Builtin::Sign)
    } else if name == "exp"@ {
        Some(Builtin::Exp)
    } else if name == "log"@ {
        Some(Builtin::Log)
    } else {
        None
    }
}

/// The kinds that a built-in takes, in order, and the kind it gives.
pub open spec fn builtin_signature(b: Builtin) -> (Seq<ValueKind>, ValueKind) {
    let f = ValueKind::Float;
    let v2 = ValueKind::Vec2;
    let v3 = ValueKind::Vec3;
    let v4 = ValueKind::Vec4;
    let s = ValueKind::Sdf;
    match b {
        Builtin::Sphere => (seq![f], s),
        Builtin::SphereAt => (seq![f, v3], s),
        Builtin::Cuboid => (seq![v3], s),
        Builtin::CuboidUniform => (seq![f], s),
        Builtin::Cylinder | Builtin::Capsule | Builtin::Torus => (seq![f, f], s),
        Builtin::Plane => (seq![v3, f], s),
        Builtin::Translate | Builtin::Elongate => (seq![s, v3], s),
        Builtin::Rotate => (seq![s, v3, f], s),
        Builtin::Scale | Builtin::Twist | Builtin::Mirror | Builtin::Onion | Builtin::Offset => (seq![s, f], s),
        Builtin::Union | Builtin::Intersection | Builtin::Difference => (seq![s, s], s),
        Builtin::SmoothUnion | Builtin::SmoothIntersection | Builtin::SmoothDifference => (seq![s, s, f], s),
        Builtin::Repeat => (seq![s, v3, v3], s),
        Builtin::Normalize3 => (seq![v3], v3),
        Builtin::Normalize2 => (seq![v2], v2),
        Builtin::Length3 => (seq![v3], f),
        Builtin::Length2 => (seq![v2], f),
        Builtin::AbsFloat => (seq![f], f),
        Builtin::Abs2 => (seq![v2], v2),
        Builtin::Abs3 => (seq![v3], v3),
        Builtin::Abs4 => (seq![v4], v4),
        Builtin::MinFloat | Builtin::MaxFloat => (seq![f, f], f),
        Builtin::Min3 | Builtin::Max3 => (seq![v3, v3], v3),
        Builtin::Clamp | Builtin::MixFloat => (seq![f, f, f], f),
        Builtin::Mix3 => (seq![v3, v3, f], v3),
        Builtin::Dot2 => (seq![v2, v2], f),
        Builtin::Dot3 => (seq![v3, v3], f),
        Builtin::Cross => (seq![v3, v3], v3),
        Builtin::Atan2 | Builtin::Pow => (seq![f, f], f),
        Builtin::Sqrt | Builtin::Sin | Builtin::Cos | Builtin::Tan | Builtin::Asin | Builtin::Acos | Builtin::Atan
        | Builtin::Floor | Builtin::Ceil | Builtin::Round | Builtin::Sign | Builtin::Exp | Builtin::Log => (seq![f], f),
    }
}

/// The first position from `i` on where `kinds` differs from `sig`.
pub open spec fn first_mismatch(sig: Seq<ValueKind>, kinds: Seq<ValueKind>, i: int) -> Option<int>
    decreases sig.len() - i,
{
    if i < 0 || i >= sig.len() || i >= kinds.len() {
        None
    } else if sig[i] != kinds[i] {
        Some(i)
    } else {
        first_mismatch(sig, kinds, i + 1)
    }
}

/// Built-in names that accept several lists of kinds.
#[derive(Debug, Clone, Copy, PartialEq, Eq, Structural)]
pub enum Overload {
    Normalize,
    Length,
    Abs,
    Min,
    Max,
    Clamp,
    Mix,
    Dot,
    Cross,
}

pub open spec fn overload_of(name: Seq<char>) -> Option<Overload> {
    if name == "normalize"@ {
        Some(Overload::Normalize)
    } else if name == "length"@ {
        Some(Overload::Length)
    } else if name == "abs"@ {
        Some(Overload::Abs)
    } else if name == "min"@ {
        Some(Overload::Min)
    } else if name == "max"@ {
        Some(Overload::Max)
    } else if name == "clamp"@ {
        Some(Overload::Clamp)
    } else if name == "mix"@ || name == "lerp"@ {
        Some(Overload::Mix)
    } else if name == "dot"@ {
        Some(Overload::Dot)
    } else if name == "cross"@ {
        Some(Overload::Cross)
    } else {
        None
    }
}

/// The message of the mismatch that an overloaded built-in reports.
pub open spec fn overload_expectation(o: Overload) -> Seq<char> {
    match o {
        Overload::Normalize | Overload::Length => "vec2 or vec3"@,
        Overload::Abs => "numeric"@,
        Overload::Min | Overload::Max => "float,float or vec3,vec3"@,
        Overload::Clamp => "float, float, float"@,
        Overload::Mix => "(float|vec3), (float|vec3), float"@,
        Overload::Dot => "vec, vec"@,
        Overload::Cross => "vec3, vec3"@,
    }
}

/// The variant of an overloaded built-in that takes exactly `kinds`.
pub open spec fn overload_variant(o: Overload, kinds: Seq<ValueKind>) -> Option<(Builtin, ValueKind)> {
    let f = ValueKind::Float;
    let v2 = ValueKind::Vec2;
    let v3 = ValueKind::Vec3;
    let v4 = ValueKind::Vec4;
    match o {
        Overload::Normalize => if kinds == seq![v3] {
            Some((Builtin::Normalize3, v3))
        } else if kinds == seq![v2] {
            Some((Builtin::Normalize2, v2))
        } else {
            None
        },
        Overload::Length => if kinds == seq![v3] {
            Some((Builtin::Length3, f))
        } else if kinds == seq![v2] {
            Some((Builtin::Length2, f))
        } else {
            None
        },
        Overload::Abs => if kinds == seq![f] {
            Some((Builtin::AbsFloat, f))
        } else if kinds == seq![v2] {
            Some((Builtin::Abs2, v2))
        } else if kinds == seq![v3] {
            Some((Builtin::Abs3, v3))
        } else if kinds == seq![v4] {
            Some((Builtin::Abs4, v4))
        } else {
            None
        },
        Overload::Min => if kinds == seq![f, f] {
            Some((Builtin::MinFloat, f))
        } else if kinds == seq![v3, v3] {
            Some((Builtin::Min3, v3))
        } else {
            None
        },
        Overload::Max => if kinds == seq![f, f] {
            Some((Builtin::MaxFloat, f))
        } else if kinds == seq![v3, v3] {
            Some((Builtin::Max3, v3))
        } else {
            None
        },
        Overload::Clamp => if kinds == seq![f, f, f] {
            Some((Builtin::Clamp, f))
        } else {
            None
        },
        Overload::Mix => if kinds == seq![f, f, f] {
            Some((Builtin::MixFloat, f))
        } else if kinds == seq![v3, v3, f] {
            Some((Builtin::Mix3, v3))
        } else {
            None
        },
        Overload::Dot => if kinds == seq![v2, v2] {
            Some((Builtin::Dot2, f))
        } else if kinds == seq![v3, v3] {
            Some((Builtin::Dot3, f))
        } else {
            None
        },
        Overload::Cross => if kinds == seq![v3, v3] {
            Some((Builtin::Cross, v3))
        } else {
            None
        },
    }
}

/// Which built-in a call of `name` with arguments of `kinds` runs, and the
/// kind of its result; or why the call is refused.
pub open spec fn resolve_builtin(name: Seq<char>, kinds: Seq<ValueKind>) -> Result<(Builtin, ValueKind), SEvalError> {
    let n = kinds.len();
    if name == "sphere"@ {
        if n == 0 || n > 2 {
            Err(SEvalError::WrongArgCount { func: name, expected: 1, got: n })
        } else if kinds[0] != ValueKind::Float {
            Err(mismatch("float"@, kind_name(kinds[0])))
        } else if n == 2 {
            if kinds[1] != ValueKind::Vec3 {
                Err(mismatch("vec3"@, kind_name(kinds[1])))
            } else {
                Ok((Builtin::SphereAt, ValueKind::Sdf))
            }
        } else {
            Ok((Builtin::Sphere, ValueKind::Sdf))
        }
    } else if name == "box"@ || name == "cuboid"@ {
        if n != 1 {
            Err(SEvalError::WrongArgCount { func: name, expected: 1, got: n })
        } else if kinds[0] == ValueKind::Vec3 {
            Ok((Builtin::Cuboid, ValueKind::Sdf))
        } else if kinds[0] == ValueKind::Float {
            Ok((Builtin::CuboidUniform, ValueKind::Sdf))
        } else {
            Err(mismatch("vec3 or float"@, kind_name(kinds[0])))
        }
    } else {
        match fixed_builtin(name) {
            Some(b) => {
                let (sig, result) = builtin_signature(b);
                if n != sig.len() {
                    Err(SEvalError::WrongArgCount { func: name, expected: sig.len(), got: n })
                } else {
                    match first_mismatch(sig, kinds, 0) {
                        Some(i) => Err(mismatch(kind_name(sig[i]), kind_name(kinds[i]))),
                        None => Ok((b, result)),
                    }
                }
            },
            None => match overload_of(name) {
                Some(o) => match overload_variant(o, kinds) {
                    Some(r) => Ok(r),
                    None => Err(mismatch(overload_expectation(o), "other"@)),
                },
                None => Err(SEvalError::UnknownFunction(name)),
            },
        }
    }
}


/// Whether two texts are the same.
pub fn text_eq(a: &str, b: &str) -> (r: bool)
    ensures
        r == (a@ == b@),
{
    let x = a.as_bytes();
    let y = b.as_bytes();
    proof {
        vstd::utf8::encode_utf8_decode_utf8(a@);
        vstd::utf8::encode_utf8_decode_utf8(b@);
    }
    if x.len() != y.len() {
        proof {
            if a@ == b@ {
                assert(x@ == encode_utf8(a@));
                assert(x@ == y@);
            }
        }
        return false;
    }
    let mut k: usize = 0;
    while k < x.len()
        invariant
            x@ == encode_utf8(a@),
            y@ == encode_utf8(b@),
            x@.len() == y@.len(),
            k <= x@.len(),
            forall|q: int| 0 <= q < k ==> x@[q] == y@[q],
        decreases x@.len() - k,
    {
        if x[k] != y[k] {
            proof {
                if a@ == b@ {
                    assert(x@ == encode_utf8(a@));
                    assert(x@ == y@);
                }
            }
            return false;
        }
        k = k + 1;
    }
    assert(x@ =~= y@);
    true
}

/// Whether the argument kinds are exactly `[a]`.
fn kinds_are1(kinds: &[ValueKind], a: ValueKind) -> (r: bool)
    ensures
        r == (kinds@ == seq![a]),
{
    let r = kinds.len() == 1 && kinds[0] == a;
    if r {
        assert(kinds@ =~= seq![a]);
    }
    r
}

/// Whether the argument kinds are exactly `[a, b]`.
fn kinds_are2(kinds: &[ValueKind], a: ValueKind, b: ValueKind) -> (r: bool)
    ensures
        r == (kinds@ == seq![a, b]),
{
    let r = kinds.len() == 2 && kinds[0] == a && kinds[1] == b;
    if r {
        assert(kinds@ =~= seq![a, b]);
    }
    r
}

/// Whether the argument kinds are exactly `[a, b, c]`.
fn kinds_are3(kinds: &[ValueKind], a: ValueKind, b: ValueKind, c: ValueKind) -> (r: bool)
    ensures
        r == (kinds@ == seq![a, b, c]),
{
    let r = kinds.len() == 3 && kinds[0] == a && kinds[1] == b && kinds[2] == c;
    if r {
        assert(kinds@ =~= seq![a, b, c]);
    }
    r
}

fn fixed_builtin_exec(name: &str) -> (r: Option<Builtin>)
    ensures
        r == fixed_builtin(name@),
{
    if text_eq(name, "cylinder") {
        Some(Builtin::Cylinder)
    } else if text_eq(name, "capsule") {
        Some(Builtin::Capsule)
    } else if text_eq(name, "torus") {
        Some(Builtin::Torus)
    } else if text_eq(name, "plane") {
        Some(Builtin::Plane)
    } else if text_eq(name, "translate") {
        Some(Builtin::Translate)
    } else if text_eq(name, "rotate") {
        Some(Builtin::Rotate)
    } else if text_eq(name, "scale") {
        Some(Builtin::Scale)
    } else if text_eq(name, "elongate") {
        Some(Builtin::Elongate)
    } else if text_eq(name, "twist") {
        Some(Builtin::Twist)
    } else if text_eq(name, "mirror") {
        Some(Builtin::Mirror)
    } else if text_eq(name, "union") {
        Some(Builtin::Union)
    } else if text_eq(name, "intersection") {
        Some(Builtin::Intersection)
    } else if text_eq(name, "difference") {
        Some(Builtin::Difference)
    } else if text_eq(name, "smooth_union") {
        Some(Builtin::SmoothUnion)
    } else if text_eq(name, "smooth_intersection") {
        Some(Builtin::SmoothIntersection)
    } else if text_eq(name, "smooth_difference") {
        Some(Builtin::SmoothDifference)
    } else if text_eq(name, "repeat") {
        Some(Builtin::Repeat)
    } else if text_eq(name, "onion") {
        Some(Builtin::Onion)
    } else if text_eq(name, "offset") {
        Some(Builtin::Offset)
    } else if text_eq(name, "sqrt") {
        Some(Builtin::Sqrt)
    } else if text_eq(name, "sin") {
        Some(Builtin::Sin)
    } else if text_eq(name, "cos") {
        Some(Builtin::Cos)
    } else if text_eq(name, "tan") {
        Some(Builtin::Tan)
    } else if text_eq(name, "asin") {
        Some(Builtin::Asin)
    } else if text_eq(name, "acos") {
        Some(Builtin::Acos)
    } else if text_eq(name, "atan") {
        Some(Builtin::Atan)
    } else if text_eq(name, "atan2") {
        Some(Builtin::Atan2)
    } else if text_eq(name, "floor") {
        Some(Builtin::Floor)
    } else if text_eq(name, "ceil") {
        Some(Builtin::Ceil)
    } else if text_eq(name, "round") {
        Some(Builtin::Round)
    } else if text_eq(name, "pow") {
        Some(Builtin::Pow)
    } else if text_eq(name, "sign") {
        Some(Builtin::Sign)
    } else if text_eq(name, "exp") {
        Some(Builtin::Exp)
    } else if text_eq(name, "log") {
        Some(Builtin::Log)
    } else {
        None
    }
}

fn signature_exec(b: Builtin) -> (r: (Vec<ValueKind>, ValueKind))
    ensures
        r.0@ == builtin_signature(b).0,
        r.1 == builtin_signature(b).1,
{
    let f = ValueKind::Float;
    let v2 = ValueKind::Vec2;
    let v3 = ValueKind::Vec3;
    let v4 = ValueKind::Vec4;
    let s = ValueKind::Sdf;
    let (ks, result): (&[ValueKind], ValueKind) = match b {
        Builtin::Sphere => (&[f], s),
        Builtin::SphereAt => (&[f, v3], s),
        Builtin::Cuboid => (&[v3], s),
        Builtin::CuboidUniform => (&[f], s),
        Builtin::Cylinder | Builtin::Capsule | Builtin::Torus => (&[f, f], s),
        Builtin::Plane => (&[v3, f], s),
        Builtin::Translate | Builtin::Elongate => (&[s, v3], s),
        Builtin::Rotate => (&[s, v3, f], s),
        Builtin::Scale | Builtin::Twist | Builtin::Mirror | Builtin::Onion | Builtin::Offset => (&[s, f], s),
        Builtin::Union | Builtin::Intersection | Builtin::Difference => (&[s, s], s),
        Builtin::SmoothUnion | Builtin::SmoothIntersection | Builtin::SmoothDifference => (&[s, s, f], s),
        Builtin::Repeat => (&[s, v3, v3], s),
        Builtin::Normalize3 => (&[v3], v3),
        Builtin::Normalize2 => (&[v2], v2),
        Builtin::Length3 => (&[v3], f),
        Builtin::Length2 => (&[v2], f),
        Builtin::AbsFloat => (&[f], f),
        Builtin::Abs2 => (&[v2], v2),
        Builtin::Abs3 => (&[v3], v3),
        Builtin::Abs4 => (&[v4], v4),
        Builtin::MinFloat | Builtin::MaxFloat => (&[f, f], f),
        Builtin::Min3 | Builtin::Max3 => (&[v3, v3], v3),
        Builtin::Clamp | Builtin::MixFloat => (&[f, f, f], f),
        Builtin::Mix3 => (&[v3, v3, f], v3),
        Builtin::Dot2 => (&[v2, v2], f),
        Builtin::Dot3 => (&[v3, v3], f),
        Builtin::Cross => (&[v3, v3], v3),
        Builtin::Atan2 | Builtin::Pow => (&[f, f], f),
        Builtin::Sqrt | Builtin::Sin | Builtin::Cos | Builtin::Tan | Builtin::Asin | Builtin::Acos | Builtin::Atan
        | Builtin::Floor | Builtin::Ceil | Builtin::Round | Builtin::Sign | Builtin::Exp | Builtin::Log => (&[f], f),
    };
    (vstd::slice::slice_to_vec(ks), result)
}

fn first_mismatch_exec(sig: &Vec<ValueKind>, kinds: &[ValueKind]) -> (r: Option<usize>)
    requires
        sig@.len() == kinds@.len(),
    ensures
        match r {
            Some(i) => first_mismatch(sig@, kinds@, 0) == Some(i as int) && i < sig@.len(),
            None => first_mismatch(sig@, kinds@, 0) is None,
        },
{
    let n = sig.len();
    let mut i: usize = 0;
    while i < n
        invariant
            n == kinds@.len(),
            n == sig@.len(),
            i <= n,
            first_mismatch(sig@, kinds@, 0) == first_mismatch(sig@, kinds@, i as int),
        decreases n - i,
    {
        if sig[i] != kinds[i] {
            return Some(i);
        }
        i = i + 1;
    }
    None
}

fn overload_of_exec(name: &str) -> (r: Option<Overload>)
    ensures
        r == overload_of(name@),
{
    if text_eq(name, "normalize") {
        Some(Overload::Normalize)
    } else if text_eq(name, "length") {
        Some(Overload::Length)
    } else if text_eq(name, "abs") {
        Some(Overload::Abs)
    } else if text_eq(name, "min") {
        Some(Overload::Min)
    } else if text_eq(name, "max") {
        Some(Overload::Max)
    } else if text_eq(name, "clamp") {
        Some(Overload::Clamp)
    } else if text_eq(name, "mix") || text_eq(name, "lerp") {
        Some(Overload::Mix)
    } else if text_eq(name, "dot") {
        Some(Overload::Dot)
    } else if text_eq(name, "cross") {
        Some(Overload::Cross)
    } else {
        None
    }
}

fn overload_expectation_exec(o: Overload) -> (r: &'static str)
    ensures
        r@ == overload_expectation(o),
{
    match o {
        Overload::Normalize | Overload::Length => "vec2 or vec3",
        Overload::Abs => "numeric",
        Overload::Min | Overload::Max => "float,float or vec3,vec3",
        Overload::Clamp => "float, float, float",
        Overload::Mix => "(float|vec3), (float|vec3), float",
        Overload::Dot => "vec, vec",
        Overload::Cross => "vec3, vec3",
    }
}

fn overload_variant_exec(o: Overload, kinds: &[ValueKind]) -> (r: Option<(Builtin, ValueKind)>)
    ensures
        r == overload_variant(o, kinds@),
{
    let f = ValueKind::Float;
    let v2 = ValueKind::Vec2;
    let v3 = ValueKind::Vec3;
    let v4 = ValueKind::Vec4;
    match o {
        Overload::Normalize => if kinds_are1(kinds, v3) {
            Some((Builtin::Normalize3, v3))
        } else if kinds_are1(kinds, v2) {
            Some((Builtin::Normalize2, v2))
        } else {
            None
        },
        Overload::Length => if kinds_are1(kinds, v3) {
            Some((Builtin::Length3, f))
        } else if kinds_are1(kinds, v2) {
            Some((Builtin::Length2, f))
        } else {
            None
        },
        Overload::Abs => if kinds_are1(kinds, f) {
            Some((Builtin::AbsFloat, f))
        } else if kinds_are1(kinds, v2) {
            Some((Builtin::Abs2, v2))
        } else if kinds_are1(kinds, v3) {
            Some((Builtin::Abs3, v3))
        } else if kinds_are1(kinds, v4) {
            Some((Builtin::Abs4, v4))
        } else {
            None
        },
        Overload::Min => if kinds_are2(kinds, f, f) {
            Some((Builtin::MinFloat, f))
        } else if kinds_are2(kinds, v3, v3) {
            Some((Builtin::Min3, v3))
        } else {
            None
        },
        Overload::Max => if kinds_are2(kinds, f, f) {
            Some((Builtin::MaxFloat, f))
        } else if kinds_are2(kinds, v3, v3) {
            Some((Builtin::Max3, v3))
        } else {
            None
        },
        Overload::Clamp => if kinds_are3(kinds, f, f, f) {
            Some((Builtin::Clamp, f))
        } else {
            None
        },
        Overload::Mix => if kinds_are3(kinds, f, f, f) {
            Some((Builtin::MixFloat, f))
        } else if kinds_are3(kinds, v3, v3, f) {
            Some((Builtin::Mix3, v3))
        } else {
            None
        },
        Overload::Dot => if kinds_are2(kinds, v2, v2) {
            Some((Builtin::Dot2, f))
        } else if kinds_are2(kinds, v3, v3) {
            Some((Builtin::Dot3, f))
        } else {
            None
        },
        Overload::Cross => if kinds_are2(kinds, v3, v3) {
            Some((Builtin::Cross, v3))
        } else {
            None
        },
    }
}

/// Resolves a call of the built-in `name` on arguments of `kinds`: the
/// operation and its result kind, or the error that the call raises.
pub fn resolve_builtin_exec(name: &str, kinds: &[ValueKind]) -> (r: Result<(Builtin, ValueKind), EvalError>)
    ensures
        match r {
            Ok(x) => resolve_builtin(name@, kinds@) == Ok::<(Builtin, ValueKind), SEvalError>(x),
            Err(e) => resolve_builtin(name@, kinds@) == Err::<(Builtin, ValueKind), SEvalError>(e@),
        },
{
    let n = kinds.len();
    if text_eq(name, "sphere") {
        if n == 0 || n > 2 {
            Err(EvalError::WrongArgCount { func: name.to_owned(), expected: 1, got: n })
        } else if kinds[0] != ValueKind::Float {
            Err(EvalError::TypeMismatch { expected: "float", got: kind_label(kinds[0]) })
        } else if n == 2 {
            if kinds[1] != ValueKind::Vec3 {
                Err(EvalError::TypeMismatch { expected: "vec3", got: kind_label(kinds[1]) })
            } else {
                Ok((Builtin::SphereAt, ValueKind::Sdf))
            }
        } else {
            Ok((Builtin::Sphere, ValueKind::Sdf))
        }
    } else if text_eq(name, "box") || text_eq(name, "cuboid") {
        if n != 1 {
            Err(EvalError::WrongArgCount { func: name.to_owned(), expected: 1, got: n })
        } else if kinds[0] == ValueKind::Vec3 {
            Ok((Builtin::Cuboid, ValueKind::Sdf))
        } else if kinds[0] == ValueKind::Float {
            Ok((Builtin::CuboidUniform, ValueKind::Sdf))
        } else {
            Err(EvalError::TypeMismatch { expected: "vec3 or float", got: kind_label(kinds[0]) })
        }
    } else {
        match fixed_builtin_exec(name) {
            Some(b) => {
                let (sig, result) = signature_exec(b);
                if n != sig.len() {
                    return Err(EvalError::WrongArgCount { func: name.to_owned(), expected: sig.len(), got: n });
                }
                match first_mismatch_exec(&sig, kinds) {
                    Some(i) => {
                        return Err(EvalError::TypeMismatch { expected: kind_label(sig[i]), got: kind_label(kinds[i]) });
                    },
                    None => {},
                }
                Ok((b, result))
            },
            None => match overload_of_exec(name) {
                Some(o) => match overload_variant_exec(o, kinds) {
                    Some(r) => Ok(r),
                    None => Err(EvalError::TypeMismatch { expected: overload_expectation_exec(o), got: "other" }),
                },
                None => Err(EvalError::UnknownFunction(name.to_owned())),
            },
        }
    }
}


// ── The scene plan ───────────────────────────────────────────────────────────

/// A number that a program can name without writing it.
#[derive(Debug, Clone, Copy, PartialEq, Eq, Structural)]
pub enum MathConstant {
    Pi,
    E,
}

/// One operation of a plan. Operands are the indices of earlier steps.
#[derive(Debug)]
pub enum Instr {
    Constant(MathConstant),
    /// A number literal, as written.
    Number(String),
    Vector(Vec<usize>),
    Neg(usize),
    Arith { op: BinaryOp, left: usize, right: usize },
    Swizzle { source: usize, lanes: Vec<SwizzleIndex> },
    Call { builtin: Builtin, args: Vec<usize> },
}

/// An operation and the kind of value it yields.
#[derive(Debug)]
pub struct Step {
    pub instr: Instr,
    pub kind: ValueKind,
}

/// The checked form of a program: the operations that build its scene, in
/// order, and the step whose value is the scene.
#[derive(Debug)]
pub struct ScenePlan {
    pub steps: Vec<Step>,
    pub result: usize,
}

pub enum SInstr {
    Constant(MathConstant),
    Number(Seq<char>),
    Vector(Seq<usize>),
    Neg(usize),
    Arith { op: BinaryOp, left: usize, right: usize },
    Swizzle { source: usize, lanes: Seq<SwizzleIndex> },
    Call { builtin: Builtin, args: Seq<usize> },
}

pub struct SStep {
    pub instr: SInstr,
    pub kind: ValueKind,
}

pub struct SScenePlan {
    pub steps: Seq<SStep>,
    pub result: usize,
}

impl View for Instr {
    type V = SInstr;

    open spec fn view(&self) -> SInstr {
        match self {
            Instr::Constant(c) => SInstr::Constant(*c),
            Instr::Number(t) => SInstr::Number(t@),
            Instr::Vector(v) => SInstr::Vector(v@),
            Instr::Neg(s) => SInstr::Neg(*s),
            Instr::Arith { op, left, right } => SInstr::Arith { op: *op, left: *left, right: *right },
            Instr::Swizzle { source, lanes } => SInstr::Swizzle { source: *source, lanes: lanes@ },
            Instr::Call { builtin, args } => SInstr::Call { builtin: *builtin, args: args@ },
        }
    }
}

impl View for Step {
    type V = SStep;

    open spec fn view(&self) -> SStep {
        SStep { instr: self.instr@, kind: self.kind }
    }
}

pub open spec fn steps_view(v: Seq<Step>) -> Seq<SStep> {
    v.map_values(|s: Step| s@)
}

impl View for ScenePlan {
    type V = SScenePlan;

    open spec fn view(&self) -> SScenePlan {
        SScenePlan { steps: steps_view(self.steps@), result: self.result }
    }
}

/// Step `i` reads only earlier steps, and what it reads and gives has the
/// kinds that its operation calls for.
pub open spec fn step_well_typed(code: Seq<SStep>, i: int) -> bool {
    let st = code[i];
    match st.instr {
        SInstr::Constant(_) => st.kind == ValueKind::Float,
        SInstr::Number(_) => st.kind == ValueKind::Float,
        SInstr::Vector(items) => {
            &&& forall|j: int| 0 <= j < items.len() ==> #[trigger] items[j] < i && code[items[j] as int].kind == ValueKind::Float
            &&& vector_kind(items.len()) == Some(st.kind)
        },
        SInstr::Neg(a) => a < i && code[a as int].kind != ValueKind::Sdf && st.kind == code[a as int].kind,
        SInstr::Arith { op, left, right } => {
            &&& left < i
            &&& right < i
            &&& binary_kind(code[left as int].kind, code[right as int].kind) == Some(st.kind)
        },
        SInstr::Swizzle { source, lanes } => {
            &&& source < i
            &&& code[source as int].kind != ValueKind::Sdf
            &&& width_kind(lanes.len()) == Some(st.kind)
        },
        SInstr::Call { builtin, args } => {
            &&& forall|j: int| 0 <= j < args.len() ==> #[trigger] args[j] < i
            &&& kinds_of(code, args) == builtin_signature(builtin).0
            &&& st.kind == builtin_signature(builtin).1
        },
    }
}

/// Every step of `code` is well typed.
pub open spec fn plan_well_typed(code: Seq<SStep>) -> bool {
    forall|i: int| 0 <= i < code.len() ==> #[trigger] step_well_typed(code, i)
}

// ── Meaning of a program ─────────────────────────────────────────────────────
//
// Evaluation follows the program as written: names are looked up in the
// bindings visible where a call happens, arguments are evaluated left to
// right, a user function runs its bindings and its result expression with
// its parameters added to the caller's bindings. Values are known only by
// kind; each value that evaluation makes becomes one step of the plan.
// A result of `None` means that evaluation does not finish within `fuel`
// nested calls of user functions (or reaches a swizzle with no lanes).

pub open spec fn push_step(code: Seq<SStep>, instr: SInstr, kind: ValueKind) -> (Seq<SStep>, usize) {
    (code.push(SStep { instr, kind }), code.len() as usize)
}

pub open spec fn kinds_of(code: Seq<SStep>, slots: Seq<usize>) -> Seq<ValueKind> {
    slots.map_values(|s: usize| code[s as int].kind)
}

/// The function that a call of `name` runs: the last definition of that name.
pub open spec fn find_function(fs: Seq<SFunctionDef>, name: Seq<char>) -> Option<SFunctionDef>
    decreases fs.len(),
{
    if fs.len() == 0 {
        None
    } else if fs.last().name == name {
        Some(fs.last())
    } else {
        find_function(fs.drop_last(), name)
    }
}

/// Binds the parameters, in order, to the argument steps; a parameter whose
/// name is already bound is an error.
pub open spec fn bind_params(ps: Seq<SParameter>, slots: Seq<usize>, env: Map<Seq<char>, usize>) -> Result<
    Map<Seq<char>, usize>,
    SEvalError,
>
    decreases ps.len(),
{
    if ps.len() == 0 {
        Ok(env)
    } else if env.contains_key(ps[0].name) {
        Err(SEvalError::DuplicateName(ps[0].name))
    } else {
        bind_params(ps.drop_first(), slots.drop_first(), env.insert(ps[0].name, slots[0]))
    }
}

pub open spec fn vector_kind(n: nat) -> Option<ValueKind> {
    if 2 <= n <= 4 {
        width_kind(n)
    } else {
        None
    }
}

pub open spec fn sem_expr(
    e: SExpr,
    env: Map<Seq<char>, usize>,
    fs: Seq<SFunctionDef>,
    code: Seq<SStep>,
    fuel: nat,
) -> Option<Result<(Seq<SStep>, usize), SEvalError>>
    decreases fuel, 0nat, e,
{
    match e {
        SExpr::Number(t) => Some(Ok(push_step(code, SInstr::Number(t), ValueKind::Float))),
        SExpr::Reference(n) => if env.contains_key(n) {
            Some(Ok((code, env[n])))
        } else {
            Some(Err(SEvalError::UndefinedName(n)))
        },
        SExpr::Vector(es) => match sem_floats(es, env, fs, code, fuel) {
            Some(Ok((c, slots))) => match vector_kind(slots.len()) {
                Some(k) => Some(Ok(push_step(c, SInstr::Vector(slots), k))),
                None => Some(Err(mismatch("2\u{2013}4 element vector"@, "wrong size"@))),
            },
            Some(Err(x)) => Some(Err(x)),
            None => None,
        },
        SExpr::Unary { op, expr } => match sem_expr(*expr, env, fs, code, fuel) {
            Some(Ok((c, s))) => if c[s as int].kind == ValueKind::Sdf {
                Some(Err(mismatch("numeric"@, "sdf"@)))
            } else {
                Some(Ok(push_step(c, SInstr::Neg(s), c[s as int].kind)))
            },
            other => other,
        },
        SExpr::Binary { op, left, right } => match sem_expr(*left, env, fs, code, fuel) {
            Some(Ok((c1, l))) => match sem_expr(*right, env, fs, c1, fuel) {
                Some(Ok((c2, r))) => match binary_kind(c2[l as int].kind, c2[r as int].kind) {
                    Some(k) => Some(Ok(push_step(c2, SInstr::Arith { op, left: l, right: r }, k))),
                    None => Some(Err(mismatch("compatible numeric types"@, "incompatible"@))),
                },
                other => other,
            },
            other => other,
        },
        SExpr::Call { name, args } => match sem_list(args, env, fs, code, fuel) {
            Some(Ok((c, slots))) => match find_function(fs, name) {
                Some(f) => if fuel == 0 {
                    None
                } else {
                    sem_user(f, env, slots, fs, c, (fuel - 1) as nat)
                },
                None => match resolve_builtin(name, kinds_of(c, slots)) {
                    Ok((b, k)) => Some(Ok(push_step(c, SInstr::Call { builtin: b, args: slots }, k))),
                    Err(x) => Some(Err(x)),
                },
            },
            Some(Err(x)) => Some(Err(x)),
            None => None,
        },
        SExpr::Swizzle { expr, lanes } => match sem_expr(*expr, env, fs, code, fuel) {
            Some(Ok((c, s))) => if c[s as int].kind == ValueKind::Sdf {
                Some(Err(mismatch("numeric"@, "sdf"@)))
            } else {
                match width_kind(lanes.len()) {
                    Some(k) => Some(Ok(push_step(c, SInstr::Swizzle { source: s, lanes }, k))),
                    None => None,
                }
            },
            other => other,
        },
    }
}

/// Evaluates the expressions left to right; the steps of their values.
pub open spec fn sem_list(
    es: Seq<SExpr>,
    env: Map<Seq<char>, usize>,
    fs: Seq<SFunctionDef>,
    code: Seq<SStep>,
    fuel: nat,
) -> Option<Result<(Seq<SStep>, Seq<usize>), SEvalError>>
    decreases fuel, 0nat, es,
{
    if es.len() == 0 {
        Some(Ok((code, Seq::empty())))
    } else {
        match sem_expr(es[0], env, fs, code, fuel) {
            Some(Ok((c, s))) => match sem_list(es.drop_first(), env, fs, c, fuel) {
                Some(Ok((c2, ss))) => Some(Ok((c2, seq![s] + ss))),
                other => other,
            },
            Some(Err(x)) => Some(Err(x)),
            None => None,
        }
    }
}

/// Like `sem_list`, but each value must be a number, checked as soon as it is made.
pub open spec fn sem_floats(
    es: Seq<SExpr>,
    env: Map<Seq<char>, usize>,
    fs: Seq<SFunctionDef>,
    code: Seq<SStep>,
    fuel: nat,
) -> Option<Result<(Seq<SStep>, Seq<usize>), SEvalError>>
    decreases fuel, 0nat, es,
{
    if es.len() == 0 {
        Some(Ok((code, Seq::empty())))
    } else {
        match sem_expr(es[0], env, fs, code, fuel) {
            Some(Ok((c, s))) => if c[s as int].kind != ValueKind::Float {
                Some(Err(mismatch("float"@, kind_name(c[s as int].kind))))
            } else {
                match sem_floats(es.drop_first(), env, fs, c, fuel) {
                    Some(Ok((c2, ss))) => Some(Ok((c2, seq![s] + ss))),
                    other => other,
                }
            },
            Some(Err(x)) => Some(Err(x)),
            None => None,
        }
    }
}

/// A call of the user function `f` on argument steps `slots`.
pub open spec fn sem_user(
    f: SFunctionDef,
    env: Map<Seq<char>, usize>,
    slots: Seq<usize>,
    fs: Seq<SFunctionDef>,
    code: Seq<SStep>,
    fuel: nat,
) -> Option<Result<(Seq<SStep>, usize), SEvalError>>
    decreases fuel, 2nat, f,
{
    if slots.len() != f.params.len() {
        Some(Err(SEvalError::WrongArgCount { func: f.name, expected: f.params.len(), got: slots.len() }))
    } else {
        match bind_params(f.params, slots, env) {
            Err(x) => Some(Err(x)),
            Ok(env2) => match sem_body(f.body.assignments, env2, fs, code, fuel) {
                Some(Ok((c, env3))) => sem_expr(f.body.return_expr, env3, fs, c, fuel),
                Some(Err(x)) => Some(Err(x)),
                None => None,
            },
        }
    }
}

/// The bindings of a function body, in order; a later one replaces an earlier one.
pub open spec fn sem_body(
    assigns: Seq<SAssignment>,
    env: Map<Seq<char>, usize>,
    fs: Seq<SFunctionDef>,
    code: Seq<SStep>,
    fuel: nat,
) -> Option<Result<(Seq<SStep>, Map<Seq<char>, usize>), SEvalError>>
    decreases fuel, 1nat, assigns,
{
    if assigns.len() == 0 {
        Some(Ok((code, env)))
    } else {
        match sem_expr(assigns[0].expr, env, fs, code, fuel) {
            Some(Ok((c, s))) => sem_body(assigns.drop_first(), env.insert(assigns[0].name, s), fs, c, fuel),
            Some(Err(x)) => Some(Err(x)),
            None => None,
        }
    }
}

/// The top-level bindings, in order; binding a name that is already bound is an error.
pub open spec fn sem_globals(
    assigns: Seq<SAssignment>,
    env: Map<Seq<char>, usize>,
    fs: Seq<SFunctionDef>,
    code: Seq<SStep>,
    fuel: nat,
) -> Option<Result<(Seq<SStep>, Map<Seq<char>, usize>), SEvalError>>
    decreases assigns.len(),
{
    if assigns.len() == 0 {
        Some(Ok((code, env)))
    } else {
        match sem_expr(assigns[0].expr, env, fs, code, fuel) {
            Some(Ok((c, s))) => if env.contains_key(assigns[0].name) {
                Some(Err(SEvalError::DuplicateName(assigns[0].name)))
            } else {
                sem_globals(assigns.drop_first(), env.insert(assigns[0].name, s), fs, c, fuel)
            },
            Some(Err(x)) => Some(Err(x)),
            None => None,
        }
    }
}

/// The steps that hold the named constants `PI`, `pi`, `E` and `e`.
pub open spec fn initial_code() -> Seq<SStep> {
    seq![
        SStep { instr: SInstr::Constant(MathConstant::Pi), kind: ValueKind::Float },
        SStep { instr: SInstr::Constant(MathConstant::Pi), kind: ValueKind::Float },
        SStep { instr: SInstr::Constant(MathConstant::E), kind: ValueKind::Float },
        SStep { instr: SInstr::Constant(MathConstant::E), kind: ValueKind::Float },
    ]
}

pub open spec fn initial_env() -> Map<Seq<char>, usize> {
    Map::<Seq<char>, usize>::empty().insert("PI"@, 0usize).insert("pi"@, 1usize).insert("E"@, 2usize).insert(
        "e"@,
        3usize,
    )
}

pub open spec fn sem_program(p: SProgram, fuel: nat) -> Option<Result<SScenePlan, SEvalError>> {
    match sem_globals(p.assignments, initial_env(), p.functions, initial_code(), fuel) {
        Some(Ok((c, env))) => match sem_expr(p.return_expr, env, p.functions, c, fuel) {
            Some(Ok((c2, s))) => if c2[s as int].kind == ValueKind::Sdf {
                Some(Ok(SScenePlan { steps: c2, result: s }))
            } else {
                Some(Err(mismatch("sdf"@, kind_name(c2[s as int].kind))))
            },
            Some(Err(x)) => Some(Err(x)),
            None => None,
        },
        Some(Err(x)) => Some(Err(x)),
        None => None,
    }
}

/// Evaluating the program finishes: some budget of nested calls suffices.
/// (Evaluation of a program that calls itself without end never returns.)
pub open spec fn evaluation_completes(p: SProgram) -> bool {
    exists|fuel: nat| #[trigger] sem_program(p, fuel) is Some
}

pub open spec fn completing_fuel(p: SProgram) -> nat {
    choose|fuel: nat| #[trigger] sem_program(p, fuel) is Some
}

/// What evaluating a program gives: its scene plan, or the first error.
pub open spec fn spec_eval_program(p: SProgram) -> Result<SScenePlan, SEvalError> {
    sem_program(p, completing_fuel(p)).unwrap()
}


// ── Executable evaluation ────────────────────────────────────────────────────

pub open spec fn functions_view(fs: Seq<FunctionDef>) -> Seq<SFunctionDef> {
    fs.map_values(|f: FunctionDef| f@)
}

/// Every bound name refers to one of the first `n` steps.
pub open spec fn slots_below(env: Map<Seq<char>, usize>, n: nat) -> bool {
    forall|k: Seq<char>| #[trigger] env.contains_key(k) ==> env[k] < n
}

pub open spec fn scope_map(es: Seq<(String, usize)>) -> Map<Seq<char>, usize>
    decreases es.len(),
{
    if es.len() == 0 {
        Map::empty()
    } else {
        scope_map(es.drop_last()).insert(es.last().0@, es.last().1)
    }
}

/// Bindings of names to steps; a later entry hides an earlier one.
struct Scope {
    entries: Vec<(String, usize)>,
}

impl View for Scope {
    type V = Map<Seq<char>, usize>;

    closed spec fn view(&self) -> Map<Seq<char>, usize> {
        scope_map(self.entries@)
    }
}

/// Entries after `i` that do not bind `name` leave its binding as the first `i` entries make it.
proof fn lemma_scope_suffix(es: Seq<(String, usize)>, i: int, name: Seq<char>)
    requires
        0 <= i <= es.len(),
        forall|j: int| i <= j < es.len() ==> (#[trigger] es[j]).0@ != name,
    ensures
        scope_map(es).contains_key(name) == scope_map(es.take(i)).contains_key(name),
        scope_map(es).contains_key(name) ==> scope_map(es)[name] == scope_map(es.take(i))[name],
    decreases es.len(),
{
    if i == es.len() {
        assert(es.take(i) =~= es);
    } else {
        lemma_scope_suffix(es.drop_last(), i, name);
        assert(es.drop_last().take(i) =~= es.take(i));
    }
}

impl Scope {
    fn new_global() -> (s: Scope)
        ensures
            s@ == initial_env(),
    {
        let mut entries: Vec<(String, usize)> = Vec::new();
        let n0 = "PI".to_owned();
        let n1 = "pi".to_owned();
        let n2 = "E".to_owned();
        let n3 = "e".to_owned();
        assert(n0@ == "PI"@);
        entries.push((n0, 0));
        entries.push((n1, 1));
        entries.push((n2, 2));
        entries.push((n3, 3));
        let s = Scope { entries };
        proof {
            let es = s.entries@;
            let e3 = es.drop_last();
            let e2 = e3.drop_last();
            let e1 = e2.drop_last();
            let e0 = e1.drop_last();
            assert(e0 =~= Seq::<(String, usize)>::empty());
            assert(e1.len() == 1 && e1.last() == es[0]);
            assert(es[0].0@ == "PI"@);
            assert(scope_map(e0) =~= Map::<Seq<char>, usize>::empty());
            assert(scope_map(e1) =~= Map::<Seq<char>, usize>::empty().insert("PI"@, 0usize));
            assert(scope_map(e2) == scope_map(e1).insert("pi"@, 1usize));
            assert(scope_map(e3) == scope_map(e2).insert("E"@, 2usize));
            assert(scope_map(es) == scope_map(e3).insert("e"@, 3usize));
        }
        s
    }

    fn lookup(&self, name: &str) -> (r: Option<usize>)
        ensures
            match r {
                Some(s) => self@.contains_key(name@) && self@[name@] == s,
                None => !self@.contains_key(name@),
            },
    {
        let mut i = self.entries.len();
        while i > 0
            invariant
                i <= self.entries@.len(),
                forall|j: int| i <= j < self.entries@.len() ==> (#[trigger] self.entries@[j]).0@ != name@,
            decreases i,
        {
            i = i - 1;
            if text_eq(self.entries[i].0.as_str(), name) {
                proof {
                    let es = self.entries@;
                    lemma_scope_suffix(es, i + 1, name@);
                    assert(es.take(i + 1).drop_last() =~= es.take(i as int));
                }
                return Some(self.entries[i].1);
            }
        }
        proof {
            lemma_scope_suffix(self.entries@, 0, name@);
        }
        None
    }

    fn insert(&mut self, name: String, slot: usize)
        ensures
            final(self)@ == old(self)@.insert(name@, slot),
    {
        self.entries.push((name, slot));
        proof {
            assert(self.entries@.drop_last() =~= old(self).entries@);
        }
    }

    fn duplicate(&self) -> (r: Scope)
        ensures
            r@ == self@,
    {
        let mut entries: Vec<(String, usize)> = Vec::new();
        let mut i: usize = 0;
        while i < self.entries.len()
            invariant
                i <= self.entries@.len(),
                entries@.len() == i,
                forall|j: int| 0 <= j < i ==> (#[trigger] entries@[j]).0@ == self.entries@[j].0@ && entries@[j].1
                    == self.entries@[j].1,
            decreases self.entries@.len() - i,
        {
            let name = self.entries[i].0.clone();
            entries.push((name, self.entries[i].1));
            i = i + 1;
        }
        proof {
            lemma_scope_map_same(entries@, self.entries@);
        }
        Scope { entries }
    }
}

proof fn lemma_scope_map_same(a: Seq<(String, usize)>, b: Seq<(String, usize)>)
    requires
        a.len() == b.len(),
        forall|j: int| 0 <= j < a.len() ==> (#[trigger] a[j]).0@ == b[j].0@ && a[j].1 == b[j].1,
    ensures
        scope_map(a) == scope_map(b),
    decreases a.len(),
{
    if a.len() > 0 {
        lemma_scope_map_same(a.drop_last(), b.drop_last());
    }
}

proof fn lemma_find_function_prefix(fs: Seq<FunctionDef>, i: int, name: Seq<char>)
    requires
        0 <= i <= fs.len(),
        forall|j: int| i <= j < fs.len() ==> (#[trigger] fs[j]).name@ != name,
    ensures
        find_function(functions_view(fs), name) == find_function(functions_view(fs.take(i)), name),
    decreases fs.len(),
{
    if i == fs.len() {
        assert(fs.take(i) =~= fs);
    } else {
        lemma_find_function_prefix(fs.drop_last(), i, name);
        assert(fs.drop_last().take(i) =~= fs.take(i));
        assert(functions_view(fs).drop_last() =~= functions_view(fs.drop_last()));
    }
}

fn find_function_exec<'a>(fs: &'a Vec<FunctionDef>, name: &str) -> (r: Option<&'a FunctionDef>)
    ensures
        match r {
            Some(f) => find_function(functions_view(fs@), name@) == Some(f@),
            None => find_function(functions_view(fs@), name@) is None,
        },
{
    let mut i = fs.len();
    while i > 0
        invariant
            i <= fs@.len(),
            forall|j: int| i <= j < fs@.len() ==> (#[trigger] fs@[j]).name@ != name@,
        decreases i,
    {
        i = i - 1;
        if text_eq(fs[i].name.as_str(), name) {
            proof {
                lemma_find_function_prefix(fs@, i + 1, name@);
                assert(functions_view(fs@.take(i + 1)).last() == fs@[i as int]@);
            }
            return Some(&fs[i]);
        }
    }
    proof {
        lemma_find_function_prefix(fs@, 0, name@);
    }
    None
}

/// Appends a step and gives its index.
fn push_step_exec(code: &mut Vec<Step>, instr: Instr, kind: ValueKind) -> (s: usize)
    ensures
        (steps_view(final(code)@), s) == push_step(steps_view(old(code)@), instr@, kind),
        final(code)@.len() == old(code)@.len() + 1,
        s == old(code)@.len(),
{
    let s = code.len();
    let ghost st = Step { instr, kind };
    code.push(Step { instr, kind });
    proof {
        assert(steps_view(code@) =~= steps_view(old(code)@).push(SStep { instr: instr@, kind }));
    }
    s
}

pub open spec fn prepend_slots(pre: Seq<usize>, r: Option<Result<(Seq<SStep>, Seq<usize>), SEvalError>>) -> Option<
    Result<(Seq<SStep>, Seq<usize>), SEvalError>,
> {
    match r {
        Some(Ok((c, ss))) => Some(Ok((c, pre + ss))),
        other => other,
    }
}

pub open spec fn expr_outcome(
    r: Result<usize, EvalError>,
    code: Seq<SStep>,
    s: Option<Result<(Seq<SStep>, usize), SEvalError>>,
) -> bool {
    match r {
        Ok(slot) => s == Some(Ok::<(Seq<SStep>, usize), SEvalError>((code, slot))) && slot < code.len(),
        Err(x) => s == Some(Err::<(Seq<SStep>, usize), SEvalError>(x@)),
    }
}

pub open spec fn list_spec(
    floats: bool,
    es: Seq<SExpr>,
    env: Map<Seq<char>, usize>,
    fs: Seq<SFunctionDef>,
    code: Seq<SStep>,
    fuel: nat,
) -> Option<Result<(Seq<SStep>, Seq<usize>), SEvalError>> {
    if floats {
        sem_floats(es, env, fs, code, fuel)
    } else {
        sem_list(es, env, fs, code, fuel)
    }
}

#[verifier::rlimit(60)]
fn eval_expr(
    e: &Expression,
    scope: &Scope,
    fs: &Vec<FunctionDef>,
    code: &mut Vec<Step>,
    Ghost(fuel): Ghost<nat>,
) -> (r: Result<usize, EvalError>)
    requires
        sem_expr(e@, scope@, functions_view(fs@), steps_view(old(code)@), fuel) is Some,
        slots_below(scope@, old(code)@.len()),
    ensures
        final(code)@.len() >= old(code)@.len(),
        expr_outcome(r, steps_view(final(code)@), sem_expr(e@, scope@, functions_view(fs@), steps_view(old(code)@), fuel)),
    decreases fuel, 0nat, e,
{
    match e {
        Expression::Number(t) => Ok(push_step_exec(code, Instr::Number(t.clone()), ValueKind::Float)),
        Expression::Reference(n) => match scope.lookup(n.as_str()) {
            Some(s) => {
                assert(code@.len() >= old(code)@.len());
                Ok(s)
            },
            None => {
                assert(code@.len() >= old(code)@.len());
                Err(EvalError::UndefinedName(n.clone()))
            },
        },
        Expression::Vector(es) => {
            let slots = match eval_list(es, true, scope, fs, code, Ghost(fuel)) {
                Ok(x) => x,
                Err(x) => return Err(x),
            };
            let n = slots.len();
            if 2 <= n && n <= 4 {
                let k = width_kind_exec(n).unwrap();
                Ok(push_step_exec(code, Instr::Vector(slots), k))
            } else {
                Err(EvalError::TypeMismatch { expected: "2\u{2013}4 element vector", got: "wrong size" })
            }
        },
        Expression::Unary { op: _, expr } => {
            let s = match eval_expr(expr, scope, fs, code, Ghost(fuel)) {
                Ok(x) => x,
                Err(x) => return Err(x),
            };
            let k = code[s].kind;
            if k == ValueKind::Sdf {
                Err(EvalError::TypeMismatch { expected: "numeric", got: "sdf" })
            } else {
                Ok(push_step_exec(code, Instr::Neg(s), k))
            }
        },
        Expression::Binary { op, left, right } => {
            let l = match eval_expr(left, scope, fs, code, Ghost(fuel)) {
                Ok(x) => x,
                Err(x) => return Err(x),
            };
            let r = match eval_expr(right, scope, fs, code, Ghost(fuel)) {
                Ok(x) => x,
                Err(x) => return Err(x),
            };
            match binary_kind_exec(code[l].kind, code[r].kind) {
                Some(k) => Ok(push_step_exec(code, Instr::Arith { op: *op, left: l, right: r }, k)),
                None => Err(EvalError::TypeMismatch { expected: "compatible numeric types", got: "incompatible" }),
            }
        },
        Expression::Call { name, args } => {
            let slots = match eval_list(args, false, scope, fs, code, Ghost(fuel)) {
                Ok(x) => x,
                Err(x) => return Err(x),
            };
            match find_function_exec(fs, name.as_str()) {
                Some(f) => eval_user(f, scope, slots, fs, code, Ghost((fuel - 1) as nat)),
                None => {
                    let mut kinds: Vec<ValueKind> = Vec::new();
                    let mut i: usize = 0;
                    while i < slots.len()
                        invariant
                            i <= slots@.len(),
                            kinds@.len() == i,
                            code@.len() >= old(code)@.len(),
                            forall|j: int| 0 <= j < slots@.len() ==> slots@[j] < code@.len(),
                            forall|j: int| 0 <= j < i ==> #[trigger] kinds@[j] == code@[slots@[j] as int].kind,
                        decreases slots@.len() - i,
                    {
                        kinds.push(code[slots[i]].kind);
                        i = i + 1;
                    }
                    assert(kinds@ =~= kinds_of(steps_view(code@), slots@));
                    match resolve_builtin_exec(name.as_str(), kinds.as_slice()) {
                        Ok((b, k)) => Ok(push_step_exec(code, Instr::Call { builtin: b, args: slots }, k)),
                        Err(x) => Err(x),
                    }
                },
            }
        },
        Expression::Swizzle { expr, components } => {
            let s = match eval_expr(expr, scope, fs, code, Ghost(fuel)) {
                Ok(x) => x,
                Err(x) => return Err(x),
            };
            if code[s].kind == ValueKind::Sdf {
                Err(EvalError::TypeMismatch { expected: "numeric", got: "sdf" })
            } else {
                let lanes = vstd::slice::slice_to_vec(lanes_as_slice(components));
                let k = width_kind_exec(lanes.len()).unwrap();
                Ok(push_step_exec(code, Instr::Swizzle { source: s, lanes }, k))
            }
        },
    }
}

/// Evaluates `es` left to right (with `floats`, each must be a number).
fn eval_list(
    es: &Vec<Expression>,
    floats: bool,
    scope: &Scope,
    fs: &Vec<FunctionDef>,
    code: &mut Vec<Step>,
    Ghost(fuel): Ghost<nat>,
) -> (r: Result<Vec<usize>, EvalError>)
    requires
        list_spec(floats, exprs_view(es@), scope@, functions_view(fs@), steps_view(old(code)@), fuel) is Some,
        slots_below(scope@, old(code)@.len()),
    ensures
        final(code)@.len() >= old(code)@.len(),
        match r {
            Ok(slots) => list_spec(floats, exprs_view(es@), scope@, functions_view(fs@), steps_view(old(code)@), fuel)
                == Some(Ok::<(Seq<SStep>, Seq<usize>), SEvalError>((steps_view(final(code)@), slots@)))
                && forall|j: int| 0 <= j < slots@.len() ==> slots@[j] < final(code)@.len(),
            Err(x) => list_spec(floats, exprs_view(es@), scope@, functions_view(fs@), steps_view(old(code)@), fuel)
                == Some(Err::<(Seq<SStep>, Seq<usize>), SEvalError>(x@)),
        },
    decreases fuel, 0nat, es,
{
    let ghost ev = exprs_view(es@);
    let ghost fsv = functions_view(fs@);
    let ghost code0 = steps_view(code@);
    proof {
        lemma_exprs_view_index(es@);
        assert(ev.skip(0) =~= ev);
    }
    let mut slots: Vec<usize> = Vec::new();
    let mut i: usize = 0;
    while i < es.len()
        invariant
            ev == exprs_view(es@),
            code0 == steps_view(old(code)@),
            fsv == functions_view(fs@),
            ev.len() == es@.len(),
            forall|j: int| 0 <= j < es@.len() ==> #[trigger] ev[j] == es@[j]@,
            i <= es@.len(),
            code@.len() >= old(code)@.len(),
            slots_below(scope@, code@.len()),
            forall|j: int| 0 <= j < slots@.len() ==> slots@[j] < code@.len(),
            list_spec(floats, ev.skip(i as int), scope@, fsv, steps_view(code@), fuel) is Some,
            prepend_slots(slots@, list_spec(floats, ev.skip(i as int), scope@, fsv, steps_view(code@), fuel))
                == list_spec(floats, ev, scope@, fsv, code0, fuel),
        decreases es@.len() - i,
    {
        let ghost rest = ev.skip(i as int);
        let ghost before = steps_view(code@);
        assert(rest[0] == es@[i as int]@);
        assert(rest.drop_first() =~= ev.skip(i + 1));
        let s = match eval_expr(&es[i], scope, fs, code, Ghost(fuel)) {
            Ok(x) => x,
            Err(x) => {
                assert(list_spec(floats, rest, scope@, fsv, before, fuel) == Some(
                    Err::<(Seq<SStep>, Seq<usize>), SEvalError>(x@),
                ));
                assert(list_spec(floats, ev, scope@, fsv, code0, fuel) == Some(
                    Err::<(Seq<SStep>, Seq<usize>), SEvalError>(x@),
                ));
                return Err(x);
            },
        };
        if floats && code[s].kind != ValueKind::Float {
            let x = EvalError::TypeMismatch { expected: "float", got: kind_label(code[s].kind) };
            assert(list_spec(floats, rest, scope@, fsv, before, fuel) == Some(
                Err::<(Seq<SStep>, Seq<usize>), SEvalError>(x@),
            ));
            assert(list_spec(floats, ev, scope@, fsv, code0, fuel) == Some(
                Err::<(Seq<SStep>, Seq<usize>), SEvalError>(x@),
            ));
            return Err(x);
        }
        proof {
            let tail = list_spec(floats, ev.skip(i + 1), scope@, fsv, steps_view(code@), fuel);
            match tail {
                Some(Ok((c2, ss))) => {
                    assert(slots@ + (seq![s] + ss) =~= slots@.push(s) + ss);
                },
                _ => {},
            }
        }
        slots.push(s);
        i = i + 1;
    }
    assert(slots@ + Seq::<usize>::empty() =~= slots@);
    Ok(slots)
}

/// A call of the user function `f` with the argument steps `slots`.
fn eval_user(
    f: &FunctionDef,
    scope: &Scope,
    slots: Vec<usize>,
    fs: &Vec<FunctionDef>,
    code: &mut Vec<Step>,
    Ghost(fuel): Ghost<nat>,
) -> (r: Result<usize, EvalError>)
    requires
        sem_user(f@, scope@, slots@, functions_view(fs@), steps_view(old(code)@), fuel) is Some,
        slots_below(scope@, old(code)@.len()),
        forall|j: int| 0 <= j < slots@.len() ==> slots@[j] < old(code)@.len(),
    ensures
        final(code)@.len() >= old(code)@.len(),
        expr_outcome(r, steps_view(final(code)@), sem_user(f@, scope@, slots@, functions_view(fs@), steps_view(old(code)@), fuel)),
    decreases fuel, 2nat, f,
{
    let ghost fsv = functions_view(fs@);
    let ghost pv = f@.params;
    if slots.len() != f.params.len() {
        return Err(EvalError::WrongArgCount { func: f.name.clone(), expected: f.params.len(), got: slots.len() });
    }
    let mut inner = scope.duplicate();
    let mut i: usize = 0;
    assert(pv.skip(0) =~= pv);
    assert(slots@.skip(0) =~= slots@);
    while i < f.params.len()
        invariant
            code@ == old(code)@,
            pv == f@.params,
            pv.len() == f.params@.len(),
            slots@.len() == pv.len(),
            forall|j: int| 0 <= j < slots@.len() ==> slots@[j] < code@.len(),
            i <= pv.len(),
            slots_below(inner@, code@.len()),
            bind_params(pv.skip(i as int), slots@.skip(i as int), inner@) == bind_params(pv, slots@, scope@),
        decreases pv.len() - i,
    {
        let name = &f.params[i].name;
        assert(pv.skip(i as int)[0] == f.params@[i as int]@);
        assert(pv.skip(i as int).drop_first() =~= pv.skip(i + 1));
        assert(slots@.skip(i as int).drop_first() =~= slots@.skip(i + 1));
        assert(slots@.skip(i as int)[0] == slots@[i as int]);
        if inner.lookup(name.as_str()).is_some() {
            return Err(EvalError::DuplicateName(name.clone()));
        }
        inner.insert(name.clone(), slots[i]);
        i = i + 1;
    }
    let ghost env2 = inner@;
    let ghost av = f@.body.assignments;
    let ghost code1 = steps_view(code@);
    let ghost whole = sem_user(f@, scope@, slots@, fsv, code1, fuel);
    assert(pv.skip(pv.len() as int) =~= Seq::<SParameter>::empty());
    assert(slots@.skip(pv.len() as int) =~= Seq::<usize>::empty());
    assert(bind_params(pv, slots@, scope@) == Ok::<Map<Seq<char>, usize>, SEvalError>(env2));
    assert(whole == match sem_body(av, env2, fsv, code1, fuel) {
        Some(Ok((c, env3))) => sem_expr(f@.body.return_expr, env3, fsv, c, fuel),
        Some(Err(x)) => Some(Err(x)),
        None => None,
    });
    assert(av.skip(0) =~= av);
    let mut k: usize = 0;
    while k < f.body.assignments.len()
        invariant
            av == f@.body.assignments,
            av.len() == f.body.assignments@.len(),
            fsv == functions_view(fs@),
            k <= av.len(),
            code@.len() >= old(code)@.len(),
            slots_below(inner@, code@.len()),
            sem_body(av.skip(k as int), inner@, fsv, steps_view(code@), fuel) == sem_body(av, env2, fsv, code1, fuel),
            whole is Some,
            whole == sem_user(f@, scope@, slots@, fsv, steps_view(old(code)@), fuel),
            whole == match sem_body(av, env2, fsv, code1, fuel) {
                Some(Ok((c, env3))) => sem_expr(f@.body.return_expr, env3, fsv, c, fuel),
                Some(Err(x)) => Some(Err(x)),
                None => None,
            },
        decreases av.len() - k,
    {
        let a = &f.body.assignments[k];
        let ghost before = steps_view(code@);
        assert(av.skip(k as int)[0] == a@);
        assert(av.skip(k as int).drop_first() =~= av.skip(k + 1));
        let s = match eval_expr(&a.expr, &inner, fs, code, Ghost(fuel)) {
            Ok(x) => x,
            Err(x) => {
                assert(sem_body(av.skip(k as int), inner@, fsv, before, fuel) == Some(
                    Err::<(Seq<SStep>, Map<Seq<char>, usize>), SEvalError>(x@),
                ));
                assert(whole == Some(Err::<(Seq<SStep>, usize), SEvalError>(x@)));
                return Err(x);
            },
        };
        inner.insert(a.name.clone(), s);
        k = k + 1;
    }
    assert(av.skip(k as int) =~= Seq::<SAssignment>::empty());
    eval_expr(&f.body.return_expr, &inner, fs, code, Ghost(fuel))
}

/// Checks a program and builds its scene plan, as `spec_eval_program` says.
/// A plan given is well typed and ends in a distance field; when the
/// program's number literals are numerals (as in every program that `parse`
/// reads), so are those of the plan's number steps. The program's evaluation
/// must finish: one that calls a function of its own without end has no
/// result.
pub fn eval_program(program: &Program) -> (r: Result<ScenePlan, EvalError>)
    requires
        evaluation_completes(program@),
    ensures
        match r {
            Ok(plan) => {
                &&& spec_eval_program(program@) == Ok::<SScenePlan, SEvalError>(plan@)
                &&& plan_well_typed(plan@.steps)
                &&& plan@.result < plan@.steps.len()
                &&& plan@.steps[plan@.result as int].kind == ValueKind::Sdf
                &&& crate::sdf::laws::program_numerals(program@) ==> crate::sdf::laws::plan_numerals(plan@.steps)
            },
            Err(e) => spec_eval_program(program@) == Err::<SScenePlan, SEvalError>(e@),
        },
{
    let ghost fuel = completing_fuel(program@);
    let ghost fsv = functions_view(program.functions@);
    let ghost av = program@.assignments;
    let mut code: Vec<Step> = Vec::new();
    push_step_exec(&mut code, Instr::Constant(MathConstant::Pi), ValueKind::Float);
    push_step_exec(&mut code, Instr::Constant(MathConstant::Pi), ValueKind::Float);
    push_step_exec(&mut code, Instr::Constant(MathConstant::E), ValueKind::Float);
    push_step_exec(&mut code, Instr::Constant(MathConstant::E), ValueKind::Float);
    assert(steps_view(code@) =~= initial_code());
    let mut scope = Scope::new_global();
    assert(av.skip(0) =~= av);
    assert(sem_program(program@, fuel) is Some);
    assert(sem_globals(av, initial_env(), fsv, initial_code(), fuel) is Some);
    let mut i: usize = 0;
    while i < program.assignments.len()
        invariant
            fuel == completing_fuel(program@),
            av == program@.assignments,
            av.len() == program.assignments@.len(),
            fsv == functions_view(program.functions@),
            fsv == program@.functions,
            i <= av.len(),
            slots_below(scope@, code@.len()),
            sem_program(program@, fuel) is Some,
            sem_globals(av, initial_env(), fsv, initial_code(), fuel) is Some,
            sem_globals(av.skip(i as int), scope@, fsv, steps_view(code@), fuel) == sem_globals(
                av,
                initial_env(),
                fsv,
                initial_code(),
                fuel,
            ),
        decreases av.len() - i,
    {
        let a = &program.assignments[i];
        assert(av.skip(i as int)[0] == a@);
        assert(av.skip(i as int).drop_first() =~= av.skip(i + 1));
        let s = match eval_expr(&a.expr, &scope, &program.functions, &mut code, Ghost(fuel)) {
            Ok(x) => x,
            Err(x) => return Err(x),
        };
        if scope.lookup(a.name.as_str()).is_some() {
            return Err(EvalError::DuplicateName(a.name.clone()));
        }
        scope.insert(a.name.clone(), s);
        i = i + 1;
    }
    let s = match eval_expr(&program.return_expr, &scope, &program.functions, &mut code, Ghost(fuel)) {
        Ok(x) => x,
        Err(x) => return Err(x),
    };
    let k = code[s].kind;
    if k == ValueKind::Sdf {
        let _count = code.len();
        let plan = ScenePlan { steps: code, result: s };
        proof {
            crate::sdf::laws::law_plan_well_typed(program@);
            if crate::sdf::laws::program_numerals(program@) {
                crate::sdf::laws::law_plan_numerals(program@);
            }
        }
        Ok(plan)
    } else {
        Err(EvalError::TypeMismatch { expected: "sdf", got: kind_label(k) })
    }
}

} // verus!
