use vstd::prelude::*;

use crate::sdf::ast::{BinaryOp, SAssignment, SExpr, SFunctionDef, SParameter, SProgram, UnaryOp};
use crate::sdf::lexer::{
    TokenKind, is_digit, lemma_lex_in_bounds, lemma_lex_numerals, lex_from, numeral_bytes, numeral_split_bytes,
};
use crate::sdf::parser::{
    Source, additive_op, ascii_bytes, is_at, multiplicative_op, p_args, p_assignment, p_body, p_expr, p_expr_rest,
    p_factor, p_function, p_operand, p_params, p_primary, p_program, p_return, p_term, p_term_rest, p_type,
    p_vector, progress, spec_parse, text_at,
};
use crate::sdf::eval::{
    Builtin, SEvalError, SInstr, SScenePlan, SStep, ValueKind, builtin_signature, evaluation_completes,
    first_mismatch, initial_code, initial_env, kinds_of, plan_well_typed, push_step, resolve_builtin,
    slots_below, step_well_typed, bind_params, completing_fuel, find_function, sem_body, sem_expr,
    sem_floats, sem_globals, sem_list, sem_program, sem_user, spec_eval_program,
};

verus! {

// ── The evaluation budget does not change a result ───────────────────────────

proof fn lemma_expr_fuel(
    e: SExpr,
    env: Map<Seq<char>, usize>,
    fs: Seq<SFunctionDef>,
    code: Seq<SStep>,
    f1: nat,
    f2: nat,
)
    requires
        f1 <= f2,
        sem_expr(e, env, fs, code, f1) is Some,
    ensures
        sem_expr(e, env, fs, code, f2) == sem_expr(e, env, fs, code, f1),
    decreases f1, 0nat, e,
{
    match e {
        SExpr::Number(_) => {},
        SExpr::Reference(_) => {},
        SExpr::Vector(es) => {
            lemma_floats_fuel(es, env, fs, code, f1, f2);
        },
        SExpr::Unary { op, expr } => {
            lemma_expr_fuel(*expr, env, fs, code, f1, f2);
        },
        SExpr::Binary { op, left, right } => {
            lemma_expr_fuel(*left, env, fs, code, f1, f2);
            match sem_expr(*left, env, fs, code, f1) {
                Some(Ok((c1, l))) => {
                    lemma_expr_fuel(*right, env, fs, c1, f1, f2);
                },
                _ => {},
            }
        },
        SExpr::Call { name, args } => {
            lemma_list_fuel(args, env, fs, code, f1, f2);
            match sem_list(args, env, fs, code, f1) {
                Some(Ok((c, slots))) => match find_function(fs, name) {
                    Some(f) => {
                        if f1 > 0 {
                            lemma_user_fuel(f, env, slots, fs, c, (f1 - 1) as nat, (f2 - 1) as nat);
                        }
                    },
                    None => {},
                },
                _ => {},
            }
        },
        SExpr::Swizzle { expr, lanes } => {
            lemma_expr_fuel(*expr, env, fs, code, f1, f2);
        },
    }
}

proof fn lemma_list_fuel(
    es: Seq<SExpr>,
    env: Map<Seq<char>, usize>,
    fs: Seq<SFunctionDef>,
    code: Seq<SStep>,
    f1: nat,
    f2: nat,
)
    requires
        f1 <= f2,
        sem_list(es, env, fs, code, f1) is Some,
    ensures
        sem_list(es, env, fs, code, f2) == sem_list(es, env, fs, code, f1),
    decreases f1, 0nat, es,
{
    if es.len() > 0 {
        lemma_expr_fuel(es[0], env, fs, code, f1, f2);
        match sem_expr(es[0], env, fs, code, f1) {
            Some(Ok((c, s))) => {
                lemma_list_fuel(es.drop_first(), env, fs, c, f1, f2);
            },
            _ => {},
        }
    }
}

proof fn lemma_floats_fuel(
    es: Seq<SExpr>,
    env: Map<Seq<char>, usize>,
    fs: Seq<SFunctionDef>,
    code: Seq<SStep>,
    f1: nat,
    f2: nat,
)
    requires
        f1 <= f2,
        sem_floats(es, env, fs, code, f1) is Some,
    ensures
        sem_floats(es, env, fs, code, f2) == sem_floats(es, env, fs, code, f1),
    decreases f1, 0nat, es,
{
    if es.len() > 0 {
        lemma_expr_fuel(es[0], env, fs, code, f1, f2);
        match sem_expr(es[0], env, fs, code, f1) {
            Some(Ok((c, s))) => {
                if c[s as int].kind == ValueKind::Float {
                    lemma_floats_fuel(es.drop_first(), env, fs, c, f1, f2);
                }
            },
            _ => {},
        }
    }
}

proof fn lemma_user_fuel(
    f: SFunctionDef,
    env: Map<Seq<char>, usize>,
    slots: Seq<usize>,
    fs: Seq<SFunctionDef>,
    code: Seq<SStep>,
    f1: nat,
    f2: nat,
)
    requires
        f1 <= f2,
        sem_user(f, env, slots, fs, code, f1) is Some,
    ensures
        sem_user(f, env, slots, fs, code, f2) == sem_user(f, env, slots, fs, code, f1),
    decreases f1, 2nat, f,
{
    if slots.len() == f.params.len() {
        match bind_params(f.params, slots, env) {
            Ok(env2) => {
                lemma_body_fuel(f.body.assignments, env2, fs, code, f1, f2);
                match sem_body(f.body.assignments, env2, fs, code, f1) {
                    Some(Ok((c, env3))) => {
                        lemma_expr_fuel(f.body.return_expr, env3, fs, c, f1, f2);
                    },
                    _ => {},
                }
            },
            Err(_) => {},
        }
    }
}

proof fn lemma_body_fuel(
    assigns: Seq<SAssignment>,
    env: Map<Seq<char>, usize>,
    fs: Seq<SFunctionDef>,
    code: Seq<SStep>,
    f1: nat,
    f2: nat,
)
    requires
        f1 <= f2,
        sem_body(assigns, env, fs, code, f1) is Some,
    ensures
        sem_body(assigns, env, fs, code, f2) == sem_body(assigns, env, fs, code, f1),
    decreases f1, 1nat, assigns,
{
    if assigns.len() > 0 {
        lemma_expr_fuel(assigns[0].expr, env, fs, code, f1, f2);
        match sem_expr(assigns[0].expr, env, fs, code, f1) {
            Some(Ok((c, s))) => {
                lemma_body_fuel(assigns.drop_first(), env.insert(assigns[0].name, s), fs, c, f1, f2);
            },
            _ => {},
        }
    }
}

proof fn lemma_globals_fuel(
    assigns: Seq<SAssignment>,
    env: Map<Seq<char>, usize>,
    fs: Seq<SFunctionDef>,
    code: Seq<SStep>,
    f1: nat,
    f2: nat,
)
    requires
        f1 <= f2,
        sem_globals(assigns, env, fs, code, f1) is Some,
    ensures
        sem_globals(assigns, env, fs, code, f2) == sem_globals(assigns, env, fs, code, f1),
    decreases assigns.len(),
{
    if assigns.len() > 0 {
        lemma_expr_fuel(assigns[0].expr, env, fs, code, f1, f2);
        match sem_expr(assigns[0].expr, env, fs, code, f1) {
            Some(Ok((c, s))) => {
                if !env.contains_key(assigns[0].name) {
                    lemma_globals_fuel(assigns.drop_first(), env.insert(assigns[0].name, s), fs, c, f1, f2);
                }
            },
            _ => {},
        }
    }
}

proof fn lemma_program_fuel(p: SProgram, f1: nat, f2: nat)
    requires
        f1 <= f2,
        sem_program(p, f1) is Some,
    ensures
        sem_program(p, f2) == sem_program(p, f1),
{
    let init = crate::sdf::eval::initial_env();
    let code0 = crate::sdf::eval::initial_code();
    lemma_globals_fuel(p.assignments, init, p.functions, code0, f1, f2);
    match sem_globals(p.assignments, init, p.functions, code0, f1) {
        Some(Ok((c, env))) => {
            lemma_expr_fuel(p.return_expr, env, p.functions, c, f1, f2);
        },
        _ => {},
    }
}

/// Once a program's evaluation finishes within some budget of nested calls,
/// every budget under which it finishes gives the same outcome, and that
/// outcome is what `spec_eval_program` names.
pub proof fn law_outcome_independent_of_budget(p: SProgram, fuel: nat)
    requires
        sem_program(p, fuel) is Some,
    ensures
        sem_program(p, fuel) == Some(spec_eval_program(p)),
{
    let c = completing_fuel(p);
    assert(sem_program(p, c) is Some);
    if c <= fuel {
        lemma_program_fuel(p, c, fuel);
    } else {
        lemma_program_fuel(p, fuel, c);
    }
}

// ── Built-ins are resolved to a matching signature ───────────────────────────

proof fn lemma_no_mismatch(sig: Seq<ValueKind>, kinds: Seq<ValueKind>, i: int)
    requires
        0 <= i <= sig.len(),
        sig.len() == kinds.len(),
        first_mismatch(sig, kinds, i) is None,
    ensures
        forall|j: int| i <= j < sig.len() ==> sig[j] == kinds[j],
    decreases sig.len() - i,
{
    if i < sig.len() {
        lemma_no_mismatch(sig, kinds, i + 1);
    }
}

/// A call of a built-in that is accepted runs a built-in whose signature is
/// exactly the kinds of the arguments, and yields the kind that the
/// signature gives.
pub proof fn law_resolved_builtin_fits(name: Seq<char>, kinds: Seq<ValueKind>)
    requires
        resolve_builtin(name, kinds) is Ok,
    ensures
        builtin_signature(resolve_builtin(name, kinds)->Ok_0.0) == (kinds, resolve_builtin(name, kinds)->Ok_0.1),
{
    let (b, k) = resolve_builtin(name, kinds)->Ok_0;
    let sig = builtin_signature(b).0;
    if name == "sphere"@ || name == "box"@ || name == "cuboid"@ {
        assert(sig =~= kinds);
    } else {
        match crate::sdf::eval::fixed_builtin(name) {
            Some(fb) => {
                lemma_no_mismatch(sig, kinds, 0);
                assert(sig =~= kinds);
            },
            None => {},
        }
    }
}

// ── A plan that evaluation gives is well typed ───────────────────────────────

/// `c` holds the steps of `code` unchanged at their places, and perhaps more.
pub open spec fn extends(code: Seq<SStep>, c: Seq<SStep>) -> bool {
    &&& code.len() <= c.len()
    &&& forall|i: int| 0 <= i < code.len() ==> #[trigger] c[i] == code[i]
}

proof fn lemma_push_typed(code: Seq<SStep>, instr: SInstr, kind: ValueKind)
    requires
        plan_well_typed(code),
        code.len() < usize::MAX,
        step_well_typed(push_step(code, instr, kind).0, code.len() as int),
    ensures
        plan_well_typed(push_step(code, instr, kind).0),
        extends(code, push_step(code, instr, kind).0),
        push_step(code, instr, kind).1 == code.len(),
        push_step(code, instr, kind).0.len() == code.len() + 1,
{
    let c = push_step(code, instr, kind).0;
    assert forall|i: int| 0 <= i < c.len() implies #[trigger] step_well_typed(c, i) by {
        if i < code.len() {
            assert(step_well_typed(code, i));
            match code[i].instr {
                SInstr::Call { builtin, args } => {
                    assert(kinds_of(c, args) =~= kinds_of(code, args));
                },
                _ => {},
            }
        }
    }
}

proof fn lemma_push_extends(code: Seq<SStep>, instr: SInstr, kind: ValueKind)
    ensures
        extends(code, push_step(code, instr, kind).0),
        push_step(code, instr, kind).0.len() == code.len() + 1,
        push_step(code, instr, kind).0[code.len() as int] == (SStep { instr, kind }),
{
}

proof fn lemma_slots_grow(env: Map<Seq<char>, usize>, n: nat, m: nat)
    requires
        slots_below(env, n),
        n <= m,
    ensures
        slots_below(env, m),
{
}

proof fn lemma_slots_insert(env: Map<Seq<char>, usize>, n: nat, name: Seq<char>, s: usize)
    requires
        slots_below(env, n),
        s < n,
    ensures
        slots_below(env.insert(name, s), n),
{
    assert forall|k: Seq<char>| #[trigger] env.insert(name, s).contains_key(k) implies env.insert(name, s)[k] < n by {
        if k != name {
            assert(env.contains_key(k));
        }
    }
}

proof fn lemma_bind_slots(ps: Seq<crate::sdf::ast::SParameter>, slots: Seq<usize>, env: Map<Seq<char>, usize>, n: nat)
    requires
        slots_below(env, n),
        ps.len() == slots.len(),
        forall|j: int| 0 <= j < slots.len() ==> slots[j] < n,
        bind_params(ps, slots, env) is Ok,
    ensures
        slots_below(bind_params(ps, slots, env)->Ok_0, n),
    decreases ps.len(),
{
    if ps.len() > 0 {
        lemma_slots_insert(env, n, ps[0].name, slots[0]);
        lemma_bind_slots(ps.drop_first(), slots.drop_first(), env.insert(ps[0].name, slots[0]), n);
    }
}

pub open spec fn typed_result(code: Seq<SStep>, r: Option<Result<(Seq<SStep>, usize), SEvalError>>) -> bool {
    match r {
        Some(Ok((c, s))) => extends(code, c) && (c.len() <= usize::MAX ==> plan_well_typed(c) && s < c.len()),
        _ => true,
    }
}

pub open spec fn typed_list(
    code: Seq<SStep>,
    r: Option<Result<(Seq<SStep>, Seq<usize>), SEvalError>>,
    floats: bool,
) -> bool {
    match r {
        Some(Ok((c, slots))) => {
            &&& extends(code, c)
            &&& c.len() <= usize::MAX ==> plan_well_typed(c)
            &&& c.len() <= usize::MAX ==> forall|j: int| 0 <= j < slots.len() ==> #[trigger] slots[j] < c.len() && (floats
                ==> c[slots[j] as int].kind == ValueKind::Float)
        },
        _ => true,
    }
}

#[verifier::rlimit(60)]
#[verifier::spinoff_prover]
proof fn lemma_expr_typed(
    e: SExpr,
    env: Map<Seq<char>, usize>,
    fs: Seq<SFunctionDef>,
    code: Seq<SStep>,
    fuel: nat,
)
    requires
        code.len() <= usize::MAX ==> plan_well_typed(code),
        slots_below(env, code.len()),
    ensures
        typed_result(code, sem_expr(e, env, fs, code, fuel)),
    decreases fuel, 0nat, e,
{
    match e {
        SExpr::Number(t) => {
            lemma_push_extends(code, SInstr::Number(t), ValueKind::Float);
            if code.len() < usize::MAX {
                lemma_push_typed(code, SInstr::Number(t), ValueKind::Float);
            }
        },
        SExpr::Reference(_) => {},
        SExpr::Vector(es) => {
            lemma_floats_typed(es, env, fs, code, fuel);
            match sem_floats(es, env, fs, code, fuel) {
                Some(Ok((c, slots))) => match crate::sdf::eval::vector_kind(slots.len()) {
                    Some(k) => {
                        lemma_push_extends(c, SInstr::Vector(slots), k);
                        if c.len() < usize::MAX {
                            lemma_push_typed(c, SInstr::Vector(slots), k);
                        }
                    },
                    None => {},
                },
                _ => {},
            }
        },
        SExpr::Unary { op, expr } => {
            lemma_expr_typed(*expr, env, fs, code, fuel);
            match sem_expr(*expr, env, fs, code, fuel) {
                Some(Ok((c, s))) => {
                    if c[s as int].kind != ValueKind::Sdf {
                        lemma_push_extends(c, SInstr::Neg(s), c[s as int].kind);
                        if c.len() < usize::MAX {
                            lemma_push_typed(c, SInstr::Neg(s), c[s as int].kind);
                        }
                    }
                },
                _ => {},
            }
        },
        SExpr::Binary { op, left, right } => {
            lemma_expr_typed(*left, env, fs, code, fuel);
            match sem_expr(*left, env, fs, code, fuel) {
                Some(Ok((c1, l))) => {
                    lemma_slots_grow(env, code.len(), c1.len());
                    lemma_expr_typed(*right, env, fs, c1, fuel);
                    match sem_expr(*right, env, fs, c1, fuel) {
                        Some(Ok((c2, r))) => match crate::sdf::eval::binary_kind(
                            c2[l as int].kind,
                            c2[r as int].kind,
                        ) {
                            Some(k) => {
                                lemma_push_extends(c2, SInstr::Arith { op, left: l, right: r }, k);
                                if c2.len() < usize::MAX {
                                    lemma_push_typed(c2, SInstr::Arith { op, left: l, right: r }, k);
                                }
                            },
                            None => {},
                        },
                        _ => {},
                    }
                },
                _ => {},
            }
        },
        SExpr::Call { name, args } => {
            lemma_list_typed(args, env, fs, code, fuel);
            match sem_list(args, env, fs, code, fuel) {
                Some(Ok((c, slots))) => {
                    lemma_slots_grow(env, code.len(), c.len());
                    match find_function(fs, name) {
                        Some(f) => {
                            if fuel > 0 {
                                lemma_user_typed(f, env, slots, fs, c, (fuel - 1) as nat);
                            }
                        },
                        None => match resolve_builtin(name, kinds_of(c, slots)) {
                            Ok((b, k)) => {
                                law_resolved_builtin_fits(name, kinds_of(c, slots));
                                let st = SStep { instr: SInstr::Call { builtin: b, args: slots }, kind: k };
                                assert(kinds_of(c.push(st), slots) =~= kinds_of(c, slots));
                                lemma_push_extends(c, SInstr::Call { builtin: b, args: slots }, k);
                                if c.len() < usize::MAX {
                                    lemma_push_typed(c, SInstr::Call { builtin: b, args: slots }, k);
                                }
                            },
                            Err(_) => {},
                        },
                    }
                },
                _ => {},
            }
        },
        SExpr::Swizzle { expr, lanes } => {
            lemma_expr_typed(*expr, env, fs, code, fuel);
            match sem_expr(*expr, env, fs, code, fuel) {
                Some(Ok((c, s))) => {
                    if c[s as int].kind != ValueKind::Sdf {
                        match crate::sdf::eval::width_kind(lanes.len()) {
                            Some(k) => {
                                lemma_push_extends(c, SInstr::Swizzle { source: s, lanes }, k);
                                if c.len() < usize::MAX {
                                    lemma_push_typed(c, SInstr::Swizzle { source: s, lanes }, k);
                                }
                            },
                            None => {},
                        }
                    }
                },
                _ => {},
            }
        },
    }
}

proof fn lemma_list_typed(
    es: Seq<SExpr>,
    env: Map<Seq<char>, usize>,
    fs: Seq<SFunctionDef>,
    code: Seq<SStep>,
    fuel: nat,
)
    requires
        code.len() <= usize::MAX ==> plan_well_typed(code),
        slots_below(env, code.len()),
    ensures
        typed_list(code, sem_list(es, env, fs, code, fuel), false),
    decreases fuel, 0nat, es,
{
    if es.len() > 0 {
        lemma_expr_typed(es[0], env, fs, code, fuel);
        match sem_expr(es[0], env, fs, code, fuel) {
            Some(Ok((c, s))) => {
                lemma_slots_grow(env, code.len(), c.len());
                lemma_list_typed(es.drop_first(), env, fs, c, fuel);
                match sem_list(es.drop_first(), env, fs, c, fuel) {
                    Some(Ok((c2, ss))) => {
                        let all = seq![s] + ss;
                        if c2.len() <= usize::MAX {
                            assert forall|j: int| 0 <= j < all.len() implies #[trigger] all[j] < c2.len() by {
                                if j > 0 {
                                    assert(all[j] == ss[j - 1]);
                                }
                            }
                        }
                    },
                    _ => {},
                }
            },
            _ => {},
        }
    }
}

proof fn lemma_floats_typed(
    es: Seq<SExpr>,
    env: Map<Seq<char>, usize>,
    fs: Seq<SFunctionDef>,
    code: Seq<SStep>,
    fuel: nat,
)
    requires
        code.len() <= usize::MAX ==> plan_well_typed(code),
        slots_below(env, code.len()),
    ensures
        typed_list(code, sem_floats(es, env, fs, code, fuel), true),
    decreases fuel, 0nat, es,
{
    if es.len() > 0 {
        lemma_expr_typed(es[0], env, fs, code, fuel);
        match sem_expr(es[0], env, fs, code, fuel) {
            Some(Ok((c, s))) => {
                if c[s as int].kind == ValueKind::Float {
                    lemma_slots_grow(env, code.len(), c.len());
                    lemma_floats_typed(es.drop_first(), env, fs, c, fuel);
                    match sem_floats(es.drop_first(), env, fs, c, fuel) {
                        Some(Ok((c2, ss))) => {
                            let all = seq![s] + ss;
                            if c2.len() <= usize::MAX {
                                assert(c2[s as int] == c[s as int]);
                                assert forall|j: int| 0 <= j < all.len() implies #[trigger] all[j] < c2.len()
                                    && c2[all[j] as int].kind == ValueKind::Float by {
                                    if j > 0 {
                                        assert(all[j] == ss[j - 1]);
                                    }
                                }
                            }
                        },
                        _ => {},
                    }
                }
            },
            _ => {},
        }
    }
}

proof fn lemma_user_typed(
    f: SFunctionDef,
    env: Map<Seq<char>, usize>,
    slots: Seq<usize>,
    fs: Seq<SFunctionDef>,
    code: Seq<SStep>,
    fuel: nat,
)
    requires
        code.len() <= usize::MAX ==> plan_well_typed(code),
        slots_below(env, code.len()),
        forall|j: int| 0 <= j < slots.len() ==> #[trigger] slots[j] < code.len(),
    ensures
        typed_result(code, sem_user(f, env, slots, fs, code, fuel)),
    decreases fuel, 2nat, f,
{
    if slots.len() == f.params.len() {
        match bind_params(f.params, slots, env) {
            Ok(env2) => {
                lemma_bind_slots(f.params, slots, env, code.len());
                lemma_body_typed(f.body.assignments, env2, fs, code, fuel);
                match sem_body(f.body.assignments, env2, fs, code, fuel) {
                    Some(Ok((c, env3))) => {
                        lemma_expr_typed(f.body.return_expr, env3, fs, c, fuel);
                    },
                    _ => {},
                }
            },
            Err(_) => {},
        }
    }
}

proof fn lemma_body_typed(
    assigns: Seq<SAssignment>,
    env: Map<Seq<char>, usize>,
    fs: Seq<SFunctionDef>,
    code: Seq<SStep>,
    fuel: nat,
)
    requires
        code.len() <= usize::MAX ==> plan_well_typed(code),
        slots_below(env, code.len()),
    ensures
        match sem_body(assigns, env, fs, code, fuel) {
            Some(Ok((c, env2))) => extends(code, c) && (c.len() <= usize::MAX ==> plan_well_typed(c)
                && slots_below(env2, c.len())),
            _ => true,
        },
    decreases fuel, 1nat, assigns,
{
    if assigns.len() > 0 {
        lemma_expr_typed(assigns[0].expr, env, fs, code, fuel);
        match sem_expr(assigns[0].expr, env, fs, code, fuel) {
            Some(Ok((c, s))) => {
                lemma_slots_grow(env, code.len(), c.len());
                lemma_slots_insert(env, c.len(), assigns[0].name, s);
                lemma_body_typed(assigns.drop_first(), env.insert(assigns[0].name, s), fs, c, fuel);
            },
            _ => {},
        }
    }
}

proof fn lemma_globals_typed(
    assigns: Seq<SAssignment>,
    env: Map<Seq<char>, usize>,
    fs: Seq<SFunctionDef>,
    code: Seq<SStep>,
    fuel: nat,
)
    requires
        code.len() <= usize::MAX ==> plan_well_typed(code),
        slots_below(env, code.len()),
    ensures
        match sem_globals(assigns, env, fs, code, fuel) {
            Some(Ok((c, env2))) => extends(code, c) && (c.len() <= usize::MAX ==> plan_well_typed(c)
                && slots_below(env2, c.len())),
            _ => true,
        },
    decreases assigns.len(),
{
    if assigns.len() > 0 {
        lemma_expr_typed(assigns[0].expr, env, fs, code, fuel);
        match sem_expr(assigns[0].expr, env, fs, code, fuel) {
            Some(Ok((c, s))) => {
                if !env.contains_key(assigns[0].name) {
                    lemma_slots_grow(env, code.len(), c.len());
                    lemma_slots_insert(env, c.len(), assigns[0].name, s);
                    lemma_globals_typed(assigns.drop_first(), env.insert(assigns[0].name, s), fs, c, fuel);
                }
            },
            _ => {},
        }
    }
}

/// A plan that evaluation gives can be run without a kind error: each step
/// reads only earlier steps, of the kinds its operation takes, and the
/// result is a distance field. (A plan is indexed by machine words, so this
/// is stated of plans whose steps can be counted in one.)
pub proof fn law_plan_well_typed(p: SProgram)
    requires
        evaluation_completes(p),
        spec_eval_program(p) is Ok,
        spec_eval_program(p)->Ok_0.steps.len() <= usize::MAX,
    ensures
        plan_well_typed(spec_eval_program(p)->Ok_0.steps),
        spec_eval_program(p)->Ok_0.result < spec_eval_program(p)->Ok_0.steps.len(),
        spec_eval_program(p)->Ok_0.steps[spec_eval_program(p)->Ok_0.result as int].kind == ValueKind::Sdf,
{
    let fuel = completing_fuel(p);
    assert(sem_program(p, fuel) is Some);
    let code0 = initial_code();
    assert forall|i: int| 0 <= i < code0.len() implies #[trigger] step_well_typed(code0, i) by {}
    assert(slots_below(initial_env(), code0.len())) by {
        assert forall|k: Seq<char>| #[trigger] initial_env().contains_key(k) implies initial_env()[k]
            < code0.len() by {}
    }
    lemma_globals_typed(p.assignments, initial_env(), p.functions, code0, fuel);
    match sem_globals(p.assignments, initial_env(), p.functions, code0, fuel) {
        Some(Ok((c, env))) => {
            lemma_expr_typed(p.return_expr, env, p.functions, c, fuel);
        },
        _ => {},
    }
}

// ── Number literals of a parsed program are numerals ─────────────────────────

pub open spec fn is_digit_char(c: char) -> bool {
    '0' <= c <= '9'
}

/// `t` splits at `m` into a decimal numeral: digits before `m`, and, unless
/// `m` is the end, a point at `m` followed by more digits.
pub open spec fn numeral_split(t: Seq<char>, m: int) -> bool {
    &&& 0 < m <= t.len()
    &&& forall|i: int| 0 <= i < m ==> #[trigger] is_digit_char(t[i])
    &&& m == t.len() || (t[m] == '.' && m + 1 < t.len() && forall|i: int| m < i < t.len() ==> #[trigger] is_digit_char(t[i]))
}

/// A decimal numeral: one or more digits, then optionally a point and one
/// or more digits.
pub open spec fn is_numeral(t: Seq<char>) -> bool {
    exists|m: int| numeral_split(t, m)
}

/// Every number literal in `e` is a numeral.
pub open spec fn numerals_in(e: SExpr) -> bool
    decreases e,
{
    match e {
        SExpr::Number(t) => is_numeral(t),
        SExpr::Reference(_) => true,
        SExpr::Vector(es) => numerals_in_all(es),
        SExpr::Call { name, args } => numerals_in_all(args),
        SExpr::Unary { op, expr } => numerals_in(*expr),
        SExpr::Binary { op, left, right } => numerals_in(*left) && numerals_in(*right),
        SExpr::Swizzle { expr, lanes } => numerals_in(*expr),
    }
}

pub open spec fn numerals_in_all(es: Seq<SExpr>) -> bool
    decreases es,
{
    if es.len() == 0 {
        true
    } else {
        numerals_in_all(es.drop_last()) && numerals_in(es.last())
    }
}

pub open spec fn numerals_in_assignments(a: Seq<SAssignment>) -> bool {
    forall|i: int| 0 <= i < a.len() ==> numerals_in(#[trigger] a[i].expr)
}

/// Every number literal of a program, in its functions, its bindings and its
/// result, is a numeral.
pub open spec fn program_numerals(p: SProgram) -> bool {
    &&& forall|i: int|
        0 <= i < p.functions.len() ==> {
            let f = #[trigger] p.functions[i];
            numerals_in_assignments(f.body.assignments) && numerals_in(f.body.return_expr)
        }
    &&& numerals_in_assignments(p.assignments)
    &&& numerals_in(p.return_expr)
}

/// Every number token of the source is a numeral.
pub open spec fn source_numerals(src: Source) -> bool {
    forall|pos: int| is_at(src, pos, TokenKind::Number) ==> #[trigger] is_numeral(text_at(src, pos))
}

proof fn lemma_numerals_push(es: Seq<SExpr>, e: SExpr)
    ensures
        numerals_in_all(es.push(e)) == (numerals_in_all(es) && numerals_in(e)),
{
    assert(es.push(e).drop_last() =~= es);
}

proof fn lemma_p_expr_numerals(src: Source, pos: int)
    requires
        source_numerals(src),
    ensures
        p_expr(src, pos) matches Ok((e, _)) ==> numerals_in(e),
    decreases src.toks.len() - pos, 7nat,
{
    lemma_p_term_numerals(src, pos);
    match p_term(src, pos) {
        Ok((left, p)) => {
            if progress(src, pos, p) {
                lemma_p_expr_rest_numerals(src, left, p);
            }
        },
        Err(_) => {},
    }
}

proof fn lemma_p_expr_rest_numerals(src: Source, left: SExpr, pos: int)
    requires
        source_numerals(src),
        numerals_in(left),
    ensures
        p_expr_rest(src, left, pos) matches Ok((e, _)) ==> numerals_in(e),
    decreases src.toks.len() - pos, 7nat,
{
    match additive_op(src, pos) {
        Some(op) => {
            lemma_p_term_numerals(src, pos + 1);
            match p_term(src, pos + 1) {
                Ok((right, p)) => {
                    if progress(src, pos, p) {
                        lemma_p_expr_rest_numerals(
                            src,
                            SExpr::Binary { op, left: Box::new(left), right: Box::new(right) },
                            p,
                        );
                    }
                },
                Err(_) => {},
            }
        },
        None => {},
    }
}

proof fn lemma_p_term_numerals(src: Source, pos: int)
    requires
        source_numerals(src),
    ensures
        p_term(src, pos) matches Ok((e, _)) ==> numerals_in(e),
    decreases src.toks.len() - pos, 6nat,
{
    lemma_p_factor_numerals(src, pos);
    match p_factor(src, pos) {
        Ok((left, p)) => {
            if progress(src, pos, p) {
                lemma_p_term_rest_numerals(src, left, p);
            }
        },
        Err(_) => {},
    }
}

proof fn lemma_p_term_rest_numerals(src: Source, left: SExpr, pos: int)
    requires
        source_numerals(src),
        numerals_in(left),
    ensures
        p_term_rest(src, left, pos) matches Ok((e, _)) ==> numerals_in(e),
    decreases src.toks.len() - pos, 6nat,
{
    match multiplicative_op(src, pos) {
        Some(op) => {
            lemma_p_factor_numerals(src, pos + 1);
            match p_factor(src, pos + 1) {
                Ok((right, p)) => {
                    if progress(src, pos, p) {
                        lemma_p_term_rest_numerals(
                            src,
                            SExpr::Binary { op, left: Box::new(left), right: Box::new(right) },
                            p,
                        );
                    }
                },
                Err(_) => {},
            }
        },
        None => {},
    }
}

proof fn lemma_p_factor_numerals(src: Source, pos: int)
    requires
        source_numerals(src),
    ensures
        p_factor(src, pos) matches Ok((e, _)) ==> numerals_in(e),
    decreases src.toks.len() - pos, 5nat,
{
    if is_at(src, pos, TokenKind::Minus) {
        lemma_p_primary_numerals(src, pos + 1);
    } else {
        lemma_p_primary_numerals(src, pos);
    }
}

proof fn lemma_p_primary_numerals(src: Source, pos: int)
    requires
        source_numerals(src),
    ensures
        p_primary(src, pos) matches Ok((e, _)) ==> numerals_in(e),
    decreases src.toks.len() - pos, 4nat,
{
    lemma_p_operand_numerals(src, pos);
}

proof fn lemma_p_operand_numerals(src: Source, pos: int)
    requires
        source_numerals(src),
    ensures
        p_operand(src, pos) matches Ok((e, _)) ==> numerals_in(e),
    decreases src.toks.len() - pos, 3nat,
{
    if is_at(src, pos, TokenKind::Number) {
        assert(is_numeral(text_at(src, pos)));
    } else if is_at(src, pos, TokenKind::Ident) {
        if is_at(src, pos + 1, TokenKind::LParen) {
            lemma_p_args_numerals(src, text_at(src, pos), pos + 2, Seq::empty());
        }
    } else if is_at(src, pos, TokenKind::LAngle) {
        lemma_p_vector_numerals(src, pos + 1, Seq::empty());
    } else if is_at(src, pos, TokenKind::LParen) {
        lemma_p_expr_numerals(src, pos + 1);
    }
}

proof fn lemma_p_args_numerals(src: Source, name: Seq<char>, pos: int, acc: Seq<SExpr>)
    requires
        source_numerals(src),
        numerals_in_all(acc),
    ensures
        p_args(src, name, pos, acc) matches Ok((e, _)) ==> numerals_in(e),
    decreases src.toks.len() - pos, 8nat,
{
    if acc.len() == 0 && is_at(src, pos, TokenKind::RParen) {
    } else {
        lemma_p_expr_numerals(src, pos);
        match p_expr(src, pos) {
            Ok((e, p)) => {
                lemma_numerals_push(acc, e);
                if progress(src, pos, p) && is_at(src, p, TokenKind::Comma) {
                    lemma_p_args_numerals(src, name, p + 1, acc.push(e));
                }
            },
            Err(_) => {},
        }
    }
}

proof fn lemma_p_vector_numerals(src: Source, pos: int, acc: Seq<SExpr>)
    requires
        source_numerals(src),
        numerals_in_all(acc),
    ensures
        p_vector(src, pos, acc) matches Ok((e, _)) ==> numerals_in(e),
    decreases src.toks.len() - pos, 8nat,
{
    lemma_p_expr_numerals(src, pos);
    match p_expr(src, pos) {
        Ok((e, p)) => {
            lemma_numerals_push(acc, e);
            if progress(src, pos, p) && is_at(src, p, TokenKind::Comma) {
                lemma_p_vector_numerals(src, p + 1, acc.push(e));
            }
        },
        Err(_) => {},
    }
}

proof fn lemma_p_body_numerals(src: Source, pos: int, assigns: Seq<SAssignment>, ret: Option<SExpr>)
    requires
        source_numerals(src),
        numerals_in_assignments(assigns),
        ret matches Some(r) ==> numerals_in(r),
    ensures
        p_body(src, pos, assigns, ret) matches Ok((b, _)) ==> numerals_in_assignments(b.assignments) && numerals_in(
            b.return_expr,
        ),
    decreases src.toks.len() - pos,
{
    if is_at(src, pos, TokenKind::Let) {
        lemma_p_expr_numerals(src, pos + 3);
        match p_assignment(src, pos) {
            Ok((a, p)) => {
                if progress(src, pos, p) {
                    assert(numerals_in_assignments(assigns.push(a))) by {
                        assert forall|i: int| 0 <= i < assigns.push(a).len() implies numerals_in(
                            #[trigger] assigns.push(a)[i].expr,
                        ) by {
                            if i < assigns.len() {
                                assert(assigns.push(a)[i] == assigns[i]);
                            }
                        }
                    }
                    lemma_p_body_numerals(src, p, assigns.push(a), ret);
                }
            },
            Err(_) => {},
        }
    } else if is_at(src, pos, TokenKind::Return) {
        lemma_p_expr_numerals(src, pos + 1);
        match p_return(src, pos) {
            Ok((e, p)) => {
                if progress(src, pos, p) {
                    lemma_p_body_numerals(src, p, assigns, Some(e));
                }
            },
            Err(_) => {},
        }
    }
}

proof fn lemma_p_program_numerals(
    src: Source,
    pos: int,
    funcs: Seq<SFunctionDef>,
    assigns: Seq<SAssignment>,
    ret: Option<SExpr>,
)
    requires
        source_numerals(src),
        program_numerals(SProgram { functions: funcs, assignments: assigns, return_expr: SExpr::Reference(Seq::empty()) }),
        ret matches Some(r) ==> numerals_in(r),
    ensures
        p_program(src, pos, funcs, assigns, ret) matches Ok(p) ==> program_numerals(p),
    decreases src.toks.len() - pos,
{
    let shell = |fs: Seq<SFunctionDef>, xs: Seq<SAssignment>|
        SProgram { functions: fs, assignments: xs, return_expr: SExpr::Reference(Seq::empty()) };
    if pos < 0 || pos >= src.toks.len() {
    } else if is_at(src, pos, TokenKind::Def) {
        match p_function(src, pos) {
            Ok((f, p)) => {
                if progress(src, pos, p) {
                    lemma_p_function_numerals(src, pos);
                    let fs2 = funcs.push(f);
                    assert(program_numerals(shell(fs2, assigns))) by {
                        assert forall|i: int| 0 <= i < fs2.len() implies {
                            let g = #[trigger] fs2[i];
                            numerals_in_assignments(g.body.assignments) && numerals_in(g.body.return_expr)
                        } by {
                            if i < funcs.len() {
                                assert(fs2[i] == funcs[i]);
                                assert(shell(funcs, assigns).functions[i] == funcs[i]);
                            }
                        }
                    }
                    lemma_p_program_numerals(src, p, fs2, assigns, ret);
                }
            },
            Err(_) => {},
        }
    } else if is_at(src, pos, TokenKind::Let) {
        lemma_p_expr_numerals(src, pos + 3);
        match p_assignment(src, pos) {
            Ok((a, p)) => {
                if progress(src, pos, p) {
                    let xs2 = assigns.push(a);
                    assert(program_numerals(shell(funcs, xs2))) by {
                        assert forall|i: int| 0 <= i < xs2.len() implies numerals_in(#[trigger] xs2[i].expr) by {
                            if i < assigns.len() {
                                assert(xs2[i] == assigns[i]);
                            }
                        }
                        assert forall|i: int| 0 <= i < funcs.len() implies {
                            let g = #[trigger] funcs[i];
                            numerals_in_assignments(g.body.assignments) && numerals_in(g.body.return_expr)
                        } by {
                            assert(shell(funcs, assigns).functions[i] == funcs[i]);
                        }
                    }
                    lemma_p_program_numerals(src, p, funcs, xs2, ret);
                }
            },
            Err(_) => {},
        }
    } else if is_at(src, pos, TokenKind::Return) {
        lemma_p_expr_numerals(src, pos + 1);
        match p_return(src, pos) {
            Ok((e, p)) => {
                if progress(src, pos, p) {
                    lemma_p_program_numerals(src, p, funcs, assigns, Some(e));
                }
            },
            Err(_) => {},
        }
    }
}

proof fn lemma_p_function_numerals(src: Source, pos: int)
    requires
        source_numerals(src),
    ensures
        p_function(src, pos) matches Ok((f, _)) ==> numerals_in_assignments(f.body.assignments) && numerals_in(
            f.body.return_expr,
        ),
{
    if is_at(src, pos + 1, TokenKind::Ident) && is_at(src, pos + 2, TokenKind::LParen) {
        let params = if is_at(src, pos + 3, TokenKind::RParen) {
            Ok((Seq::<SParameter>::empty(), pos + 3))
        } else {
            p_params(src, pos + 3, Seq::empty())
        };
        match params {
            Ok((ps, p)) => match p_type(src, p + 2) {
                Ok((ty, q)) => {
                    lemma_p_body_numerals(src, q + 1, Seq::empty(), None);
                },
                Err(_) => {},
            },
            Err(_) => {},
        }
    }
}

proof fn lemma_ascii_digit(c: char, x: u8)
    requires
        '\0' <= c <= '\u{7f}',
        x == c as u8,
        is_digit(x),
    ensures
        is_digit_char(c),
{
}

/// Every number literal of a program that parses is a decimal numeral: one
/// or more digits, then optionally a point and one or more digits.
pub proof fn law_parsed_numerals(s: Seq<char>)
    requires
        spec_parse(s) is Ok,
        s.len() <= usize::MAX,
    ensures
        program_numerals(spec_parse(s)->Ok_0),
{
    let b = ascii_bytes(s);
    let ts = lex_from(b, 0)->Ok_0;
    let src = Source { chars: s, bytes: b, toks: ts };
    lemma_lex_numerals(b, 0);
    lemma_lex_in_bounds(b, 0);
    assert forall|pos: int| is_at(src, pos, TokenKind::Number) implies #[trigger] is_numeral(text_at(src, pos)) by {
        let st = ts[pos].start as int;
        let en = ts[pos].end as int;
        assert(numeral_bytes(b, st, en));
        let m = choose|m: int| numeral_split_bytes(b, st, m, en);
        let t = text_at(src, pos);
        assert forall|i: int| 0 <= i < t.len() && is_digit(b[st + i]) implies #[trigger] is_digit_char(t[i]) by {
            assert(t[i] == s[st + i]);
            lemma_ascii_digit(s[st + i], b[st + i]);
        }
        assert forall|i: int| 0 <= i < m - st implies #[trigger] is_digit_char(t[i]) by {
            assert(is_digit(b[st + i]));
        }
        if m < en {
            assert(t[m - st] == s[m]);
            assert(s[m] as u8 == 46u8);
            assert forall|i: int| m - st < i < t.len() implies #[trigger] is_digit_char(t[i]) by {
                assert(is_digit(b[st + i]));
            }
        }
        assert(numeral_split(t, m - st));
    }
    let empty = SProgram { functions: Seq::empty(), assignments: Seq::empty(), return_expr: SExpr::Reference(Seq::empty()) };
    assert(program_numerals(empty));
    lemma_p_program_numerals(src, 0, Seq::empty(), Seq::empty(), None);
}

// ── Number steps of a plan hold numerals ─────────────────────────────────────

/// Every number step of `code` holds a decimal numeral.
pub open spec fn plan_numerals(code: Seq<SStep>) -> bool {
    forall|i: int|
        0 <= i < code.len() ==> match (#[trigger] code[i]).instr {
            SInstr::Number(t) => is_numeral(t),
            _ => true,
        }
}

pub open spec fn functions_numerals(fs: Seq<SFunctionDef>) -> bool {
    forall|i: int|
        0 <= i < fs.len() ==> {
            let f = #[trigger] fs[i];
            numerals_in_assignments(f.body.assignments) && numerals_in(f.body.return_expr)
        }
}

pub open spec fn numbers_result(r: Option<Result<(Seq<SStep>, usize), SEvalError>>) -> bool {
    r matches Some(Ok((c, _))) ==> plan_numerals(c)
}

proof fn lemma_numerals_all_index(es: Seq<SExpr>)
    ensures
        numerals_in_all(es) == forall|i: int| 0 <= i < es.len() ==> numerals_in(#[trigger] es[i]),
    decreases es.len(),
{
    if es.len() > 0 {
        lemma_numerals_all_index(es.drop_last());
        if forall|i: int| 0 <= i < es.len() ==> numerals_in(#[trigger] es[i]) {
            assert forall|i: int| 0 <= i < es.drop_last().len() implies numerals_in(#[trigger] es.drop_last()[i]) by {
                assert(es.drop_last()[i] == es[i]);
            }
            assert(numerals_in(es[es.len() - 1]));
        }
        if numerals_in_all(es) {
            assert forall|i: int| 0 <= i < es.len() implies numerals_in(#[trigger] es[i]) by {
                if i < es.len() - 1 {
                    assert(es.drop_last()[i] == es[i]);
                }
            }
        }
    }
}

proof fn lemma_push_numerals(code: Seq<SStep>, instr: SInstr, kind: ValueKind)
    requires
        plan_numerals(code),
        instr matches SInstr::Number(t) ==> is_numeral(t),
    ensures
        plan_numerals(push_step(code, instr, kind).0),
{
    let c = push_step(code, instr, kind).0;
    assert forall|i: int| 0 <= i < c.len() implies match (#[trigger] c[i]).instr {
        SInstr::Number(t) => is_numeral(t),
        _ => true,
    } by {
        if i < code.len() {
            assert(c[i] == code[i]);
        }
    }
}

proof fn lemma_find_function_in(fs: Seq<SFunctionDef>, name: Seq<char>)
    ensures
        find_function(fs, name) matches Some(f) ==> exists|i: int| 0 <= i < fs.len() && fs[i] == f,
    decreases fs.len(),
{
    if fs.len() > 0 && fs.last().name != name {
        lemma_find_function_in(fs.drop_last(), name);
        match find_function(fs.drop_last(), name) {
            Some(f) => {
                let i = choose|i: int| 0 <= i < fs.drop_last().len() && fs.drop_last()[i] == f;
                assert(fs[i] == f);
            },
            None => {},
        }
    } else if fs.len() > 0 {
        assert(fs[fs.len() - 1] == fs.last());
    }
}

proof fn lemma_expr_numbers(
    e: SExpr,
    env: Map<Seq<char>, usize>,
    fs: Seq<SFunctionDef>,
    code: Seq<SStep>,
    fuel: nat,
)
    requires
        plan_numerals(code),
        functions_numerals(fs),
        numerals_in(e),
    ensures
        numbers_result(sem_expr(e, env, fs, code, fuel)),
    decreases fuel, 0nat, e,
{
    match e {
        SExpr::Number(t) => {
            lemma_push_numerals(code, SInstr::Number(t), ValueKind::Float);
        },
        SExpr::Reference(_) => {},
        SExpr::Vector(es) => {
            lemma_list_numbers(true, es, env, fs, code, fuel);
            match sem_floats(es, env, fs, code, fuel) {
                Some(Ok((c, slots))) => match crate::sdf::eval::vector_kind(slots.len()) {
                    Some(k) => {
                        lemma_push_numerals(c, SInstr::Vector(slots), k);
                    },
                    None => {},
                },
                _ => {},
            }
        },
        SExpr::Unary { op, expr } => {
            lemma_expr_numbers(*expr, env, fs, code, fuel);
            match sem_expr(*expr, env, fs, code, fuel) {
                Some(Ok((c, s))) => {
                    lemma_push_numerals(c, SInstr::Neg(s), c[s as int].kind);
                },
                _ => {},
            }
        },
        SExpr::Binary { op, left, right } => {
            lemma_expr_numbers(*left, env, fs, code, fuel);
            match sem_expr(*left, env, fs, code, fuel) {
                Some(Ok((c1, l))) => {
                    lemma_expr_numbers(*right, env, fs, c1, fuel);
                    match sem_expr(*right, env, fs, c1, fuel) {
                        Some(Ok((c2, r))) => match crate::sdf::eval::binary_kind(c2[l as int].kind, c2[r as int].kind) {
                            Some(k) => {
                                lemma_push_numerals(c2, SInstr::Arith { op, left: l, right: r }, k);
                            },
                            None => {},
                        },
                        _ => {},
                    }
                },
                _ => {},
            }
        },
        SExpr::Call { name, args } => {
            lemma_list_numbers(false, args, env, fs, code, fuel);
            match sem_list(args, env, fs, code, fuel) {
                Some(Ok((c, slots))) => match find_function(fs, name) {
                    Some(f) => {
                        if fuel > 0 {
                            lemma_find_function_in(fs, name);
                            let i = choose|i: int| 0 <= i < fs.len() && fs[i] == f;
                            assert(fs[i] == f);
                            lemma_user_numbers(f, env, slots, fs, c, (fuel - 1) as nat);
                        }
                    },
                    None => match resolve_builtin(name, kinds_of(c, slots)) {
                        Ok((b, k)) => {
                            lemma_push_numerals(c, SInstr::Call { builtin: b, args: slots }, k);
                        },
                        Err(_) => {},
                    },
                },
                _ => {},
            }
        },
        SExpr::Swizzle { expr, lanes } => {
            lemma_expr_numbers(*expr, env, fs, code, fuel);
            match sem_expr(*expr, env, fs, code, fuel) {
                Some(Ok((c, s))) => match crate::sdf::eval::width_kind(lanes.len()) {
                    Some(k) => {
                        lemma_push_numerals(c, SInstr::Swizzle { source: s, lanes }, k);
                    },
                    None => {},
                },
                _ => {},
            }
        },
    }
}

proof fn lemma_list_numbers(
    floats: bool,
    es: Seq<SExpr>,
    env: Map<Seq<char>, usize>,
    fs: Seq<SFunctionDef>,
    code: Seq<SStep>,
    fuel: nat,
)
    requires
        plan_numerals(code),
        functions_numerals(fs),
        numerals_in_all(es),
    ensures
        (if floats {
            sem_floats(es, env, fs, code, fuel)
        } else {
            sem_list(es, env, fs, code, fuel)
        }) matches Some(Ok((c, _))) ==> plan_numerals(c),
    decreases fuel, 0nat, es,
{
    if es.len() > 0 {
        lemma_numerals_all_index(es);
        lemma_numerals_all_index(es.drop_first());
        assert(numerals_in(es[0]));
        assert forall|i: int| 0 <= i < es.drop_first().len() implies numerals_in(#[trigger] es.drop_first()[i]) by {
            assert(es.drop_first()[i] == es[i + 1]);
        }
        lemma_expr_numbers(es[0], env, fs, code, fuel);
        match sem_expr(es[0], env, fs, code, fuel) {
            Some(Ok((c, s))) => {
                lemma_list_numbers(floats, es.drop_first(), env, fs, c, fuel);
            },
            _ => {},
        }
    }
}

proof fn lemma_user_numbers(
    f: SFunctionDef,
    env: Map<Seq<char>, usize>,
    slots: Seq<usize>,
    fs: Seq<SFunctionDef>,
    code: Seq<SStep>,
    fuel: nat,
)
    requires
        plan_numerals(code),
        functions_numerals(fs),
        numerals_in_assignments(f.body.assignments),
        numerals_in(f.body.return_expr),
    ensures
        numbers_result(sem_user(f, env, slots, fs, code, fuel)),
    decreases fuel, 2nat, f,
{
    if slots.len() == f.params.len() {
        match bind_params(f.params, slots, env) {
            Ok(env2) => {
                lemma_body_numbers(false, f.body.assignments, env2, fs, code, fuel);
                match sem_body(f.body.assignments, env2, fs, code, fuel) {
                    Some(Ok((c, env3))) => {
                        lemma_expr_numbers(f.body.return_expr, env3, fs, c, fuel);
                    },
                    _ => {},
                }
            },
            Err(_) => {},
        }
    }
}

proof fn lemma_body_numbers(
    globals: bool,
    assigns: Seq<SAssignment>,
    env: Map<Seq<char>, usize>,
    fs: Seq<SFunctionDef>,
    code: Seq<SStep>,
    fuel: nat,
)
    requires
        plan_numerals(code),
        functions_numerals(fs),
        numerals_in_assignments(assigns),
    ensures
        (if globals {
            sem_globals(assigns, env, fs, code, fuel)
        } else {
            sem_body(assigns, env, fs, code, fuel)
        }) matches Some(Ok((c, _))) ==> plan_numerals(c),
    decreases fuel, 1nat, assigns,
{
    if assigns.len() > 0 {
        assert(numerals_in(assigns[0].expr));
        assert(numerals_in_assignments(assigns.drop_first())) by {
            assert forall|i: int| 0 <= i < assigns.drop_first().len() implies numerals_in(
                #[trigger] assigns.drop_first()[i].expr,
            ) by {
                assert(assigns.drop_first()[i] == assigns[i + 1]);
            }
        }
        lemma_expr_numbers(assigns[0].expr, env, fs, code, fuel);
        match sem_expr(assigns[0].expr, env, fs, code, fuel) {
            Some(Ok((c, s))) => {
                lemma_body_numbers(globals, assigns.drop_first(), env.insert(assigns[0].name, s), fs, c, fuel);
            },
            _ => {},
        }
    }
}

/// The plan of a program whose number literals are numerals holds only
/// numerals in its number steps, so each of them reads as a number.
pub proof fn law_plan_numerals(p: SProgram)
    requires
        evaluation_completes(p),
        program_numerals(p),
        spec_eval_program(p) is Ok,
    ensures
        plan_numerals(spec_eval_program(p)->Ok_0.steps),
{
    let fuel = completing_fuel(p);
    assert(sem_program(p, fuel) is Some);
    let code0 = initial_code();
    assert(plan_numerals(code0));
    lemma_body_numbers(true, p.assignments, initial_env(), p.functions, code0, fuel);
    match sem_globals(p.assignments, initial_env(), p.functions, code0, fuel) {
        Some(Ok((c, env))) => {
            lemma_expr_numbers(p.return_expr, env, p.functions, c, fuel);
        },
        _ => {},
    }
}

// ── Operators mean what they say ─────────────────────────────────────────────

/// An additive operator between two terms makes one binary node with that
/// operator's operation: `+` adds and `-` subtracts, the left term first.
pub proof fn law_additive_operators(src: Source, pos: int)
    ensures
        p_term(src, pos) matches Ok((l, p)) ==> (progress(src, pos, p) && is_at(src, p, TokenKind::Plus) ==> (p_term(
            src,
            p + 1,
        ) matches Ok((r, q)) ==> (progress(src, p, q) && !is_at(src, q, TokenKind::Plus) && !is_at(src, q, TokenKind::Minus)
            ==> p_expr(src, pos) == Ok::<(SExpr, int), crate::sdf::parser::ParseError>(
            (SExpr::Binary { op: BinaryOp::Add, left: Box::new(l), right: Box::new(r) }, q),
        )))),
        p_term(src, pos) matches Ok((l, p)) ==> (progress(src, pos, p) && is_at(src, p, TokenKind::Minus) ==> (p_term(
            src,
            p + 1,
        ) matches Ok((r, q)) ==> (progress(src, p, q) && !is_at(src, q, TokenKind::Plus) && !is_at(src, q, TokenKind::Minus)
            ==> p_expr(src, pos) == Ok::<(SExpr, int), crate::sdf::parser::ParseError>(
            (SExpr::Binary { op: BinaryOp::Sub, left: Box::new(l), right: Box::new(r) }, q),
        )))),
{
    match p_term(src, pos) {
        Ok((l, p)) => {
            if progress(src, pos, p) && (is_at(src, p, TokenKind::Plus) || is_at(src, p, TokenKind::Minus)) {
                match p_term(src, p + 1) {
                    Ok((r, q)) => {
                        if progress(src, p, q) && !is_at(src, q, TokenKind::Plus) && !is_at(src, q, TokenKind::Minus) {
                            let op = if is_at(src, p, TokenKind::Plus) {
                                BinaryOp::Add
                            } else {
                                BinaryOp::Sub
                            };
                            let bin = SExpr::Binary { op, left: Box::new(l), right: Box::new(r) };
                            assert(p_expr_rest(src, bin, q) == Ok::<(SExpr, int), crate::sdf::parser::ParseError>(
                                (bin, q),
                            ));
                            assert(p_expr_rest(src, l, p) == p_expr_rest(src, bin, q));
                        }
                    },
                    Err(_) => {},
                }
            }
        },
        Err(_) => {},
    }
}

/// A multiplicative operator between two factors makes one binary node with
/// that operator's operation: `*` multiplies and `/` divides, the left
/// factor first.
pub proof fn law_multiplicative_operators(src: Source, pos: int)
    ensures
        p_factor(src, pos) matches Ok((l, p)) ==> (progress(src, pos, p) && is_at(src, p, TokenKind::Star) ==> (p_factor(
            src,
            p + 1,
        ) matches Ok((r, q)) ==> (progress(src, p, q) && !is_at(src, q, TokenKind::Star) && !is_at(src, q, TokenKind::Slash)
            ==> p_term(src, pos) == Ok::<(SExpr, int), crate::sdf::parser::ParseError>(
            (SExpr::Binary { op: BinaryOp::Mul, left: Box::new(l), right: Box::new(r) }, q),
        )))),
        p_factor(src, pos) matches Ok((l, p)) ==> (progress(src, pos, p) && is_at(src, p, TokenKind::Slash) ==> (p_factor(
            src,
            p + 1,
        ) matches Ok((r, q)) ==> (progress(src, p, q) && !is_at(src, q, TokenKind::Star) && !is_at(src, q, TokenKind::Slash)
            ==> p_term(src, pos) == Ok::<(SExpr, int), crate::sdf::parser::ParseError>(
            (SExpr::Binary { op: BinaryOp::Div, left: Box::new(l), right: Box::new(r) }, q),
        )))),
{
    match p_factor(src, pos) {
        Ok((l, p)) => {
            if progress(src, pos, p) && (is_at(src, p, TokenKind::Star) || is_at(src, p, TokenKind::Slash)) {
                match p_factor(src, p + 1) {
                    Ok((r, q)) => {
                        if progress(src, p, q) && !is_at(src, q, TokenKind::Star) && !is_at(src, q, TokenKind::Slash) {
                            let op = if is_at(src, p, TokenKind::Star) {
                                BinaryOp::Mul
                            } else {
                                BinaryOp::Div
                            };
                            let bin = SExpr::Binary { op, left: Box::new(l), right: Box::new(r) };
                            assert(p_term_rest(src, bin, q) == Ok::<(SExpr, int), crate::sdf::parser::ParseError>(
                                (bin, q),
                            ));
                            assert(p_term_rest(src, l, p) == p_term_rest(src, bin, q));
                        }
                    },
                    Err(_) => {},
                }
            }
        },
        Err(_) => {},
    }
}

/// A `-` before a primary expression negates it: the result is one unary
/// negation node around the primary.
pub proof fn law_prefix_minus(src: Source, pos: int)
    ensures
        is_at(src, pos, TokenKind::Minus) ==> (p_primary(src, pos + 1) matches Ok((e, p)) ==> p_factor(src, pos)
            == Ok::<(SExpr, int), crate::sdf::parser::ParseError>(
            (SExpr::Unary { op: UnaryOp::Neg, expr: Box::new(e) }, p),
        )),
{
}

// ── Negation makes a step of its own ─────────────────────────────────────────

/// How the outcome `outer` of negating an expression relates to the
/// outcome `inner` of the expression: a number or vector operand at step
/// `s` of the plan `c` yields the plan with one more step, the negation of
/// step `s`, of the same kind, and that new step, which is not `s`; a
/// distance field is refused.
pub open spec fn negation_appends(
    inner: Option<Result<(Seq<SStep>, usize), SEvalError>>,
    outer: Option<Result<(Seq<SStep>, usize), SEvalError>>,
) -> bool {
    match inner {
        Some(Ok((c, s))) => if c[s as int].kind == ValueKind::Sdf {
            outer == Some(Err::<(Seq<SStep>, usize), SEvalError>(crate::sdf::eval::mismatch("numeric"@, "sdf"@)))
        } else if c.len() < usize::MAX {
            &&& outer == Some(
                Ok::<(Seq<SStep>, usize), SEvalError>(
                    (c.push(SStep { instr: SInstr::Neg(s), kind: c[s as int].kind }), c.len() as usize),
                ),
            )
            &&& s < c.len()
        } else {
            true
        },
        _ => outer == inner,
    }
}

/// Negating a number or a vector appends exactly one step to the plan: the
/// negation of the operand's step, of the operand's kind. The result is that
/// new step, never the operand's own.
pub proof fn law_negation_step(
    op: UnaryOp,
    expr: SExpr,
    env: Map<Seq<char>, usize>,
    fs: Seq<SFunctionDef>,
    code: Seq<SStep>,
    fuel: nat,
)
    requires
        plan_well_typed(code),
        slots_below(env, code.len()),
    ensures
        negation_appends(
            sem_expr(expr, env, fs, code, fuel),
            sem_expr(SExpr::Unary { op, expr: Box::new(expr) }, env, fs, code, fuel),
        ),
{
    lemma_expr_typed(expr, env, fs, code, fuel);
}

/// How evaluating `left op right` relates to evaluating its operands, left
/// first: two numbers or vectors of one kind, or a number and a vector,
/// yield one new step, the operation `op` on the left operand's step and
/// the right operand's step, in that order, of the vector's kind when there
/// is one; a distance field or two vectors of different sizes are refused.
pub open spec fn arith_appends(
    op: BinaryOp,
    left: SExpr,
    right: SExpr,
    env: Map<Seq<char>, usize>,
    fs: Seq<SFunctionDef>,
    code: Seq<SStep>,
    fuel: nat,
) -> bool {
    let outer = sem_expr(SExpr::Binary { op, left: Box::new(left), right: Box::new(right) }, env, fs, code, fuel);
    match sem_expr(left, env, fs, code, fuel) {
        Some(Ok((c1, l))) => match sem_expr(right, env, fs, c1, fuel) {
            Some(Ok((c2, r))) => {
                let kl = c2[l as int].kind;
                let kr = c2[r as int].kind;
                if kl == ValueKind::Sdf || kr == ValueKind::Sdf || (kl != kr && kl != ValueKind::Float && kr
                    != ValueKind::Float) {
                    outer is Some && outer->0 is Err
                } else if c2.len() < usize::MAX {
                    &&& outer == Some(
                        Ok::<(Seq<SStep>, usize), SEvalError>(
                            (
                                c2.push(
                                    SStep {
                                        instr: SInstr::Arith { op, left: l, right: r },
                                        kind: if kl == ValueKind::Float {
                                            kr
                                        } else {
                                            kl
                                        },
                                    },
                                ),
                                c2.len() as usize,
                            ),
                        ),
                    )
                    &&& l < c2.len()
                    &&& r < c2.len()
                } else {
                    true
                }
            },
            other => outer == other,
        },
        other => outer == other,
    }
}

/// Arithmetic appends one step that applies its own operator to its two
/// operands in order, with the kind that broadcasting gives.
pub proof fn law_arith_step(
    op: BinaryOp,
    left: SExpr,
    right: SExpr,
    env: Map<Seq<char>, usize>,
    fs: Seq<SFunctionDef>,
    code: Seq<SStep>,
    fuel: nat,
)
    requires
        plan_well_typed(code),
        slots_below(env, code.len()),
    ensures
        arith_appends(op, left, right, env, fs, code, fuel),
{
    lemma_expr_typed(left, env, fs, code, fuel);
    match sem_expr(left, env, fs, code, fuel) {
        Some(Ok((c1, l))) => {
            lemma_slots_grow(env, code.len(), c1.len());
            lemma_expr_typed(right, env, fs, c1, fuel);
        },
        _ => {},
    }
}

// ── A built-in is the one its name denotes ───────────────────────────────────

/// The names under which a program calls a built-in.
pub open spec fn builtin_names(b: Builtin) -> Set<Seq<char>> {
    match b {
        Builtin::Sphere | Builtin::SphereAt => set!["sphere"@],
        Builtin::Cuboid | Builtin::CuboidUniform => set!["box"@, "cuboid"@],
        Builtin::Cylinder => set!["cylinder"@],
        Builtin::Capsule => set!["capsule"@],
        Builtin::Torus => set!["torus"@],
        Builtin::Plane => set!["plane"@],
        Builtin::Translate => set!["translate"@],
        Builtin::Rotate => set!["rotate"@],
        Builtin::Scale => set!["scale"@],
        Builtin::Elongate => set!["elongate"@],
        Builtin::Twist => set!["twist"@],
        Builtin::Mirror => set!["mirror"@],
        Builtin::Union => set!["union"@],
        Builtin::Intersection => set!["intersection"@],
        Builtin::Difference => set!["difference"@],
        Builtin::SmoothUnion => set!["smooth_union"@],
        Builtin::SmoothIntersection => set!["smooth_intersection"@],
        Builtin::SmoothDifference => set!["smooth_difference"@],
        Builtin::Repeat => set!["repeat"@],
        Builtin::Onion => set!["onion"@],
        Builtin::Offset => set!["offset"@],
        Builtin::Normalize3 | Builtin::Normalize2 => set!["normalize"@],
        Builtin::Length3 | Builtin::Length2 => set!["length"@],
        Builtin::AbsFloat | Builtin::Abs2 | Builtin::Abs3 | Builtin::Abs4 => set!["abs"@],
        Builtin::MinFloat | Builtin::Min3 => set!["min"@],
        Builtin::MaxFloat | Builtin::Max3 => set!["max"@],
        Builtin::Clamp => set!["clamp"@],
        Builtin::MixFloat | Builtin::Mix3 => set!["mix"@, "lerp"@],
        Builtin::Dot2 | Builtin::Dot3 => set!["dot"@],
        Builtin::Cross => set!["cross"@],
        Builtin::Sqrt => set!["sqrt"@],
        Builtin::Sin => set!["sin"@],
        Builtin::Cos => set!["cos"@],
        Builtin::Tan => set!["tan"@],
        Builtin::Asin => set!["asin"@],
        Builtin::Acos => set!["acos"@],
        Builtin::Atan => set!["atan"@],
        Builtin::Atan2 => set!["atan2"@],
        Builtin::Floor => set!["floor"@],
        Builtin::Ceil => set!["ceil"@],
        Builtin::Round => set!["round"@],
        Builtin::Pow => set!["pow"@],
        Builtin::Sign => set!["sign"@],
        Builtin::Exp => set!["exp"@],
        Builtin::Log => set!["log"@],
    }
}

/// A call that resolves to a built-in resolves to one that the called name
/// denotes: `intersection` only ever runs the intersection, `union` the
/// union, and so on.
pub proof fn law_resolved_builtin_named(name: Seq<char>, kinds: Seq<ValueKind>)
    requires
        resolve_builtin(name, kinds) is Ok,
    ensures
        builtin_names(resolve_builtin(name, kinds)->Ok_0.0).contains(name),
{
}

/// Each name of a built-in, called with the kinds of that built-in's
/// signature, runs that built-in: the names are not shadowed by one
/// another, and none of them is refused.
pub proof fn law_builtin_names_resolve(b: Builtin, name: Seq<char>)
    requires
        builtin_names(b).contains(name),
    ensures
        resolve_builtin(name, builtin_signature(b).0) == Ok::<(Builtin, ValueKind), SEvalError>(
            (b, builtin_signature(b).1),
        ),
{
    reveal_strlit("abs");
    assert("abs"@ =~= seq!['a', 'b', 's']);
    reveal_strlit("acos");
    assert("acos"@ =~= seq!['a', 'c', 'o', 's']);
    reveal_strlit("asin");
    assert("asin"@ =~= seq!['a', 's', 'i', 'n']);
    reveal_strlit("atan");
    assert("atan"@ =~= seq!['a', 't', 'a', 'n']);
    reveal_strlit("atan2");
    assert("atan2"@ =~= seq!['a', 't', 'a', 'n', '2']);
    reveal_strlit("box");
    assert("box"@ =~= seq!['b', 'o', 'x']);
    reveal_strlit("capsule");
    assert("capsule"@ =~= seq!['c', 'a', 'p', 's', 'u', 'l', 'e']);
    reveal_strlit("ceil");
    assert("ceil"@ =~= seq!['c', 'e', 'i', 'l']);
    reveal_strlit("clamp");
    assert("clamp"@ =~= seq!['c', 'l', 'a', 'm', 'p']);
    reveal_strlit("cos");
    assert("cos"@ =~= seq!['c', 'o', 's']);
    reveal_strlit("cross");
    assert("cross"@ =~= seq!['c', 'r', 'o', 's', 's']);
    reveal_strlit("cuboid");
    assert("cuboid"@ =~= seq!['c', 'u', 'b', 'o', 'i', 'd']);
    reveal_strlit("cylinder");
    assert("cylinder"@ =~= seq!['c', 'y', 'l', 'i', 'n', 'd', 'e', 'r']);
    reveal_strlit("difference");
    assert("difference"@ =~= seq!['d', 'i', 'f', 'f', 'e', 'r', 'e', 'n', 'c', 'e']);
    reveal_strlit("dot");
    assert("dot"@ =~= seq!['d', 'o', 't']);
    reveal_strlit("elongate");
    assert("elongate"@ =~= seq!['e', 'l', 'o', 'n', 'g', 'a', 't', 'e']);
    reveal_strlit("exp");
    assert("exp"@ =~= seq!['e', 'x', 'p']);
    reveal_strlit("floor");
    assert("floor"@ =~= seq!['f', 'l', 'o', 'o', 'r']);
    reveal_strlit("intersection");
    assert("intersection"@ =~= seq!['i', 'n', 't', 'e', 'r', 's', 'e', 'c', 't', 'i', 'o', 'n']);
    reveal_strlit("length");
    assert("length"@ =~= seq!['l', 'e', 'n', 'g', 't', 'h']);
    reveal_strlit("lerp");
    assert("lerp"@ =~= seq!['l', 'e', 'r', 'p']);
    reveal_strlit("log");
    assert("log"@ =~= seq!['l', 'o', 'g']);
    reveal_strlit("max");
    assert("max"@ =~= seq!['m', 'a', 'x']);
    reveal_strlit("min");
    assert("min"@ =~= seq!['m', 'i', 'n']);
    reveal_strlit("mirror");
    assert("mirror"@ =~= seq!['m', 'i', 'r', 'r', 'o', 'r']);
    reveal_strlit("mix");
    assert("mix"@ =~= seq!['m', 'i', 'x']);
    reveal_strlit("normalize");
    assert("normalize"@ =~= seq!['n', 'o', 'r', 'm', 'a', 'l', 'i', 'z', 'e']);
    reveal_strlit("offset");
    assert("offset"@ =~= seq!['o', 'f', 'f', 's', 'e', 't']);
    reveal_strlit("onion");
    assert("onion"@ =~= seq!['o', 'n', 'i', 'o', 'n']);
    reveal_strlit("plane");
    assert("plane"@ =~= seq!['p', 'l', 'a', 'n', 'e']);
    reveal_strlit("pow");
    assert("pow"@ =~= seq!['p', 'o', 'w']);
    reveal_strlit("repeat");
    assert("repeat"@ =~= seq!['r', 'e', 'p', 'e', 'a', 't']);
    reveal_strlit("rotate");
    assert("rotate"@ =~= seq!['r', 'o', 't', 'a', 't', 'e']);
    reveal_strlit("round");
    assert("round"@ =~= seq!['r', 'o', 'u', 'n', 'd']);
    reveal_strlit("scale");
    assert("scale"@ =~= seq!['s', 'c', 'a', 'l', 'e']);
    reveal_strlit("sign");
    assert("sign"@ =~= seq!['s', 'i', 'g', 'n']);
    reveal_strlit("sin");
    assert("sin"@ =~= seq!['s', 'i', 'n']);
    reveal_strlit("smooth_difference");
    assert("smooth_difference"@ =~= seq!['s', 'm', 'o', 'o', 't', 'h', '_', 'd', 'i', 'f', 'f', 'e', 'r', 'e', 'n', 'c', 'e']);
    reveal_strlit("smooth_intersection");
    assert("smooth_intersection"@ =~= seq!['s', 'm', 'o', 'o', 't', 'h', '_', 'i', 'n', 't', 'e', 'r', 's', 'e', 'c', 't', 'i', 'o', 'n']);
    reveal_strlit("smooth_union");
    assert("smooth_union"@ =~= seq!['s', 'm', 'o', 'o', 't', 'h', '_', 'u', 'n', 'i', 'o', 'n']);
    reveal_strlit("sphere");
    assert("sphere"@ =~= seq!['s', 'p', 'h', 'e', 'r', 'e']);
    reveal_strlit("sqrt");
    assert("sqrt"@ =~= seq!['s', 'q', 'r', 't']);
    reveal_strlit("tan");
    assert("tan"@ =~= seq!['t', 'a', 'n']);
    reveal_strlit("torus");
    assert("torus"@ =~= seq!['t', 'o', 'r', 'u', 's']);
    reveal_strlit("translate");
    assert("translate"@ =~= seq!['t', 'r', 'a', 'n', 's', 'l', 'a', 't', 'e']);
    reveal_strlit("twist");
    assert("twist"@ =~= seq!['t', 'w', 'i', 's', 't']);
    reveal_strlit("union");
    assert("union"@ =~= seq!['u', 'n', 'i', 'o', 'n']);
    let kinds = builtin_signature(b).0;
    assert(first_mismatch(kinds, kinds, 0) is None) by {
        lemma_self_no_mismatch(kinds, 0);
    }
    match b {
        Builtin::Sphere => {},
        Builtin::SphereAt => {},
        Builtin::Cuboid => {},
        Builtin::CuboidUniform => {},
        Builtin::Cylinder => {},
        Builtin::Capsule => {},
        Builtin::Torus => {},
        Builtin::Plane => {},
        Builtin::Translate => {},
        Builtin::Rotate => {},
        Builtin::Scale => {},
        Builtin::Elongate => {},
        Builtin::Twist => {},
        Builtin::Mirror => {},
        Builtin::Union => {},
        Builtin::Intersection => {},
        Builtin::Difference => {},
        Builtin::SmoothUnion => {},
        Builtin::SmoothIntersection => {},
        Builtin::SmoothDifference => {},
        Builtin::Repeat => {},
        Builtin::Onion => {},
        Builtin::Offset => {},
        Builtin::Normalize3 => {},
        Builtin::Normalize2 => {},
        Builtin::Length3 => {},
        Builtin::Length2 => {},
        Builtin::AbsFloat => {},
        Builtin::Abs2 => {},
        Builtin::Abs3 => {},
        Builtin::Abs4 => {},
        Builtin::MinFloat => {},
        Builtin::Min3 => {},
        Builtin::MaxFloat => {},
        Builtin::Max3 => {},
        Builtin::Clamp => {},
        Builtin::MixFloat => {},
        Builtin::Mix3 => {},
        Builtin::Dot2 => {},
        Builtin::Dot3 => {},
        Builtin::Cross => {},
        Builtin::Sqrt => {},
        Builtin::Sin => {},
        Builtin::Cos => {},
        Builtin::Tan => {},
        Builtin::Asin => {},
        Builtin::Acos => {},
        Builtin::Atan => {},
        Builtin::Atan2 => {},
        Builtin::Floor => {},
        Builtin::Ceil => {},
        Builtin::Round => {},
        Builtin::Pow => {},
        Builtin::Sign => {},
        Builtin::Exp => {},
        Builtin::Log => {},
    }
}

proof fn lemma_self_no_mismatch(k: Seq<ValueKind>, i: int)
    requires
        0 <= i,
    ensures
        first_mismatch(k, k, i) is None,
    decreases k.len() - i,
{
    if i < k.len() {
        lemma_self_no_mismatch(k, i + 1);
    }
}

} // verus!
