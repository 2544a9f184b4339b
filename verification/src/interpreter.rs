//! The evaluator: walks the resolved tree against the environment chain.
//!
//! Functions, classes and instances live in arenas on the `Interpreter`;
//! values refer to them by index, which is what reference identity means
//! here. The `*_spec` functions define evaluation mathematically over the
//! machine image; the executable walker is proved to take every step
//! exactly as specified.
//!
//! Evaluation carries a fuel bound on call depth and loop iterations; a
//! run that exhausts it stops with a distinguished outcome instead of
//! diverging.

use std::rc::Rc;
use vstd::prelude::*;
use vstd::string::StringExecFns;
use crate::ast::Expr;
use crate::ast::ExprView;
use crate::ast::FunctionStatement;
use crate::ast::expr_view;
use crate::ast::FunctionStatementView;
use crate::ast::ParameterView;
use crate::ast::Stmt;
use crate::ast::StmtView;
use crate::ast::function_view;
use crate::ast::functions_view;
use crate::ast::stmts_view;
use crate::env::Environment;
use crate::env::FrameView;
use crate::env::env_assign;
use crate::env::env_define;
use crate::env::env_get;
use crate::env::vars_map;
use crate::error::Error;
use crate::error::ErrorDetail;
use crate::error::ErrorDetailView;
use crate::loxtype::LoxType;
use crate::loxtype::LoxTypeView;
use crate::native_fns::Clock;
use crate::number::fmt_bits;
use crate::text::dec_digits;
use crate::text::str_eq;
use crate::text::usize_to_string;

verus! {

/// A user function object: declared name, parameter names, shared body,
/// whether it is an initializer, and the captured environment frame.
#[derive(Debug)]
pub struct LoxFunction {
    pub name: String,
    pub parameters: Vec<String>,
    pub statements: Rc<Vec<Stmt>>,
    pub is_initializer: bool,
    pub ctx: usize,
}

/// A callable object: the native clock, or a user function.
#[derive(Debug)]
pub enum LoxCallable {
    Native(Clock),
    Function(LoxFunction),
}

/// A class object: name, optional parent, method declarations, and the
/// captured environment frame (which holds `super` when a parent exists).
#[derive(Debug)]
pub struct LoxClass {
    pub name: String,
    pub maybe_superclass: Option<usize>,
    pub methods: Rc<Vec<FunctionStatement>>,
    pub ctx: usize,
}

/// An instance: its class and its mutable field map.
#[derive(Debug)]
pub struct LoxInstance {
    pub class: usize,
    pub fields: Vec<(String, LoxType)>,
}

/// Mathematical image of a `LoxFunction`.
#[verifier::ext_equal]
pub struct FunctionV {
    pub name: Seq<char>,
    pub parameters: Seq<Seq<char>>,
    pub statements: Seq<StmtView>,
    pub is_initializer: bool,
    pub ctx: int,
}

/// Mathematical image of a `LoxCallable`.
#[verifier::ext_equal]
pub enum CallableV {
    Native,
    Function(FunctionV),
}

/// Mathematical image of a `LoxClass`.
#[verifier::ext_equal]
pub struct ClassV {
    pub name: Seq<char>,
    pub maybe_superclass: Option<int>,
    pub methods: Seq<FunctionStatementView>,
    pub ctx: int,
}

/// Mathematical image of a `LoxInstance`.
#[verifier::ext_equal]
pub struct InstanceV {
    pub class: int,
    pub fields: Map<Seq<char>, LoxTypeView>,
}

/// The images of a list of parameter names.
pub open spec fn names_view(ns: Seq<String>) -> Seq<Seq<char>> {
    ns.map_values(|n: String| n@)
}

impl View for LoxFunction {
    type V = FunctionV;

    open spec fn view(&self) -> FunctionV {
        FunctionV {
            name: self.name@,
            parameters: names_view(self.parameters@),
            statements: stmts_view(self.statements@),
            is_initializer: self.is_initializer,
            ctx: self.ctx as int,
        }
    }
}

impl View for LoxCallable {
    type V = CallableV;

    open spec fn view(&self) -> CallableV {
        match self {
            LoxCallable::Native(_) => CallableV::Native,
            LoxCallable::Function(f) => CallableV::Function(f@),
        }
    }
}

impl View for LoxClass {
    type V = ClassV;

    open spec fn view(&self) -> ClassV {
        ClassV {
            name: self.name@,
            maybe_superclass: match self.maybe_superclass {
                Some(s) => Some(s as int),
                None => None,
            },
            methods: functions_view(self.methods@),
            ctx: self.ctx as int,
        }
    }
}

impl View for LoxInstance {
    type V = InstanceV;

    open spec fn view(&self) -> InstanceV {
        InstanceV { class: self.class as int, fields: vars_map(self.fields@) }
    }
}

/// The whole machine: environment frames, the three object arenas, what
/// has been printed, and the seconds the clock builtin reports.
#[verifier::ext_equal]
pub struct MachineV {
    pub env: Seq<FrameView>,
    pub callables: Seq<CallableV>,
    pub classes: Seq<ClassV>,
    pub instances: Seq<InstanceV>,
    pub output: Seq<char>,
    pub clock_now: u64,
}

/// The machine with its clock set to `clk` and nothing else changed.
pub open spec fn with_clock(m: MachineV, clk: u64) -> MachineV {
    MachineV { clock_now: clk, ..m }
}

/// The evaluator state.
#[derive(Debug)]
pub struct Interpreter {
    env: Environment,
    callables: Vec<LoxCallable>,
    classes: Vec<LoxClass>,
    instances: Vec<LoxInstance>,
    output: String,
    clock_now: u64,
}

impl View for Interpreter {
    type V = MachineV;

    closed spec fn view(&self) -> MachineV {
        MachineV {
            env: self.env@,
            callables: self.callables@.map_values(|c: LoxCallable| c@),
            classes: self.classes@.map_values(|c: LoxClass| c@),
            instances: self.instances@.map_values(|i: LoxInstance| i@),
            output: self.output@,
            clock_now: self.clock_now,
        }
    }
}

/// What evaluating an expression yields: a value, a runtime fault, or an
/// exhausted fuel budget.
#[verifier::ext_equal]
pub enum EvalOut {
    Val(LoxTypeView),
    Fault(ErrorDetailView),
    Spent,
}

/// What executing a statement yields: fall-through, an early `return`, a
/// runtime fault, or an exhausted fuel budget.
#[verifier::ext_equal]
pub enum StmtOut {
    Void,
    Return(LoxTypeView),
    Fault(ErrorDetailView),
    Spent,
}

/// Statement execution yields either fall-through or a `return` carrying a
/// value.
#[derive(Debug)]
pub enum StatementResult {
    Void,
    Return(LoxType),
}

/// Why evaluation stopped early: a runtime fault, or fuel ran out.
#[derive(Debug)]
pub enum Stop {
    Fault(ErrorDetail),
    Spent,
}

/// The image of an expression outcome.
pub open spec fn eval_out(r: Result<LoxType, Stop>) -> EvalOut {
    match r {
        Ok(v) => EvalOut::Val(v@),
        Err(Stop::Fault(d)) => EvalOut::Fault(d@),
        Err(Stop::Spent) => EvalOut::Spent,
    }
}

/// The image of a statement outcome.
pub open spec fn stmt_out(r: Result<StatementResult, Stop>) -> StmtOut {
    match r {
        Ok(StatementResult::Void) => StmtOut::Void,
        Ok(StatementResult::Return(v)) => StmtOut::Return(v@),
        Err(Stop::Fault(d)) => StmtOut::Fault(d@),
        Err(Stop::Spent) => StmtOut::Spent,
    }
}

/// The display form of a value, as `print` writes it.
pub open spec fn display_of(m: MachineV, v: LoxTypeView) -> Seq<char> {
    match v {
        LoxTypeView::Number(b) => fmt_bits(b),
        LoxTypeView::Boolean(b) => if b {
            "true"@
        } else {
            "false"@
        },
        LoxTypeView::Str(s) => s,
        LoxTypeView::Nil => "nil"@,
        LoxTypeView::Callable(i) => if 0 <= i < m.callables.len() {
            match m.callables[i] {
                CallableV::Native => "<native fn clock>"@,
                CallableV::Function(f) => "<fn \""@ + f.name + "\">"@,
            }
        } else {
            Seq::<char>::empty()
        },
        LoxTypeView::Class(i) => if 0 <= i < m.classes.len() {
            m.classes[i].name
        } else {
            Seq::<char>::empty()
        },
        LoxTypeView::Instance(i) => if 0 <= i < m.instances.len() && 0 <= m.instances[i].class
            < m.classes.len() {
            m.classes[m.instances[i].class].name + " instance"@
        } else {
            Seq::<char>::empty()
        },
    }
}

impl Interpreter {
    /// The display form of a value.
    pub fn display_value(&self, v: &LoxType) -> (r: String)
        ensures
            r@ == display_of(self@, v@),
    {
        match v {
            LoxType::Number(b) => crate::number::num_to_string(*b),
            LoxType::Boolean(b) => {
                if *b {
                    String::from_str("true")
                } else {
                    String::from_str("false")
                }
            },
            LoxType::String(s) => s.clone(),
            LoxType::Nil => String::from_str("nil"),
            LoxType::Callable(i) => {
                if *i < self.callables.len() {
                    match &self.callables[*i] {
                        LoxCallable::Native(_) => String::from_str("<native fn clock>"),
                        LoxCallable::Function(f) => {
                            let mut out = String::from_str("<fn \"");
                            out.append(f.name.as_str());
                            out.append("\">");
                            proof {
                                assert(out@ =~= display_of(self@, v@));
                            }
                            out
                        },
                    }
                } else {
                    String::new()
                }
            },
            LoxType::Class(i) => {
                if *i < self.classes.len() {
                    self.classes[*i].name.clone()
                } else {
                    String::new()
                }
            },
            LoxType::Instance(i) => {
                if *i < self.instances.len() && self.instances[*i].class < self.classes.len() {
                    let mut out = self.classes[self.instances[*i].class].name.clone();
                    out.append(" instance");
                    proof {
                        assert(out@ =~= display_of(self@, v@));
                    }
                    out
                } else {
                    String::new()
                }
            },
        }
    }
}

} // verus!

verus! {

// ---- the machine, mathematically ----

/// A frame binding made total: out-of-range frames are left unchanged
/// (executable code never reaches that case).
pub open spec fn mdefine(
    env: Seq<FrameView>,
    frame: int,
    name: Seq<char>,
    v: LoxTypeView,
) -> Seq<FrameView> {
    if 0 <= frame < env.len() {
        env_define(env, frame, name, v)
    } else {
        env
    }
}

/// Reads through a resolution slot: a hop count reads relative to the
/// current frame, an empty slot reads the globals frame.
pub open spec fn lookup_slot(
    m: MachineV,
    env: int,
    slot: Option<u32>,
    name: Seq<char>,
) -> Option<LoxTypeView> {
    match slot {
        Some(d) => env_get(m.env, env, d as nat, name),
        None => env_get(m.env, 0, 0, name),
    }
}

/// Writes through a resolution slot.
pub open spec fn assign_slot(
    m: MachineV,
    env: int,
    slot: Option<u32>,
    name: Seq<char>,
    v: LoxTypeView,
) -> Option<Seq<FrameView>> {
    match slot {
        Some(d) => env_assign(m.env, env, d as nat, name, v),
        None => env_assign(m.env, 0, 0, name, v),
    }
}

pub open spec fn fault(line: u32, message: Seq<char>) -> ErrorDetailView {
    ErrorDetailView { line, message }
}

pub open spec fn undefined_var_msg(name: Seq<char>) -> Seq<char> {
    "Undefined variable '"@ + name + "'."@
}

pub open spec fn undefined_prop_msg(name: Seq<char>) -> Seq<char> {
    "Undefined property '"@ + name + "'."@
}

pub open spec fn arity_msg(expected: nat, got: nat) -> Seq<char> {
    "Expected "@ + dec_digits(expected) + " arguments but got "@ + dec_digits(got) + "."@
}

/// How many arguments a callable takes.
pub open spec fn arity_of(c: CallableV) -> nat {
    match c {
        CallableV::Native => 0,
        CallableV::Function(f) => f.parameters.len(),
    }
}

/// The parameter names of a declaration.
pub open spec fn fs_params(ps: Seq<ParameterView>) -> Seq<Seq<char>> {
    ps.map_values(|p: ParameterView| p.name)
}

/// The function object a declaration makes when captured in frame `ctx`.
pub open spec fn fs_function(f: FunctionStatementView, ctx: int, is_init: bool) -> FunctionV {
    FunctionV {
        name: f.name,
        parameters: fs_params(f.parameters),
        statements: f.statements,
        is_initializer: is_init,
        ctx,
    }
}

/// The frame a bound method captures: a child of `ctx` where `this` is
/// the receiver.
pub open spec fn bind_this_env(
    env: Seq<FrameView>,
    ctx: int,
    v: LoxTypeView,
) -> Seq<FrameView> {
    env.push(
        FrameView {
            maybe_enclosing: Some(ctx),
            vars: Map::<Seq<char>, LoxTypeView>::empty().insert("this"@, v),
        },
    )
}

/// The last declaration of `name` in a method list, if any.
pub open spec fn find_method(
    ms: Seq<FunctionStatementView>,
    name: Seq<char>,
) -> Option<FunctionStatementView>
    decreases ms.len(),
{
    if ms.len() == 0 {
        None
    } else if ms.last().name == name {
        Some(ms.last())
    } else {
        find_method(ms.drop_last(), name)
    }
}

/// Looks `name` up through the class's method table and its ancestors; on
/// a hit, allocates the bound method (a fresh frame defining `this` and a
/// fresh function object) and yields its handle.
pub open spec fn get_method_spec(
    m: MachineV,
    cidx: int,
    name: Seq<char>,
    this: LoxTypeView,
) -> Option<(MachineV, int)>
    decreases cidx,
{
    if !(0 <= cidx < m.classes.len()) {
        None
    } else {
        let cls = m.classes[cidx];
        match find_method(cls.methods, name) {
            Some(decl) => {
                let ctx2 = m.env.len() as int;
                let env2 = bind_this_env(m.env, cls.ctx, this);
                let fv = fs_function(decl, ctx2, decl.name == "init"@);
                let fidx = m.callables.len() as int;
                let m2 = MachineV {
                    env: env2,
                    callables: m.callables.push(CallableV::Function(fv)),
                    ..m
                };
                Some((m2, fidx))
            },
            None => {
                match cls.maybe_superclass {
                    Some(s) => if 0 <= s < cidx {
                        get_method_spec(m, s, name, this)
                    } else {
                        None
                    },
                    None => None,
                }
            },
        }
    }
}

/// Binds parameters to arguments, positionally, in `frame`.
pub open spec fn define_args(
    env: Seq<FrameView>,
    frame: int,
    params: Seq<Seq<char>>,
    args: Seq<LoxTypeView>,
) -> Seq<FrameView>
    decreases params.len(),
{
    if params.len() == 0 || args.len() == 0 {
        env
    } else {
        define_args(
            mdefine(env, frame, params[0], args[0]),
            frame,
            params.subrange(1, params.len() as int),
            args.subrange(1, args.len() as int),
        )
    }
}

/// What evaluating an argument list yields.
#[verifier::ext_equal]
pub enum ArgsOut {
    Vals(Seq<LoxTypeView>),
    Fault(ErrorDetailView),
    Spent,
}

/// Evaluates one expression in frame `env`: the next machine and the
/// outcome.
pub open spec fn eval_expr_spec(m: MachineV, e: ExprView, env: int, fuel: nat) -> (
    MachineV,
    EvalOut,
)
    decreases fuel, 1nat, e,
{
    match e {
        ExprView::Nil => (m, EvalOut::Val(LoxTypeView::Nil)),
        ExprView::Literal(v) => (m, EvalOut::Val(v)),
        ExprView::Neg { expression, line } => {
            let (m1, o1) = eval_expr_spec(m, *expression, env, fuel);
            match o1 {
                EvalOut::Val(LoxTypeView::Number(b)) => (
                    m1,
                    EvalOut::Val(LoxTypeView::Number(crate::number::neg_bits(b))),
                ),
                EvalOut::Val(_) => (
                    m1,
                    EvalOut::Fault(fault(line, "Operand must be a number."@)),
                ),
                _ => (m1, o1),
            }
        },
        ExprView::Not(inner) => {
            let (m1, o1) = eval_expr_spec(m, *inner, env, fuel);
            match o1 {
                EvalOut::Val(v) => (
                    m1,
                    EvalOut::Val(LoxTypeView::Boolean(!crate::loxtype::truthy(v))),
                ),
                _ => (m1, o1),
            }
        },
        ExprView::Grouping(inner) => eval_expr_spec(m, *inner, env, fuel),
        ExprView::Binary { left, right, operator, line } => {
            let (m1, o1) = eval_expr_spec(m, *left, env, fuel);
            match o1 {
                EvalOut::Val(lv) => {
                    let (m2, o2) = eval_expr_spec(m1, *right, env, fuel);
                    match o2 {
                        EvalOut::Val(rv) => (m2, binary_op_spec(operator, lv, rv, line)),
                        _ => (m2, o2),
                    }
                },
                _ => (m1, o1),
            }
        },
        ExprView::Variable(v) => {
            match lookup_slot(m, env, v.maybe_distance, v.name) {
                Some(val) => (m, EvalOut::Val(val)),
                None => (m, EvalOut::Fault(fault(v.line, undefined_var_msg(v.name)))),
            }
        },
        ExprView::Assign { name, value, maybe_distance, line } => {
            let (m1, o1) = eval_expr_spec(m, *value, env, fuel);
            match o1 {
                EvalOut::Val(v) => {
                    match assign_slot(m1, env, maybe_distance, name, v) {
                        Some(env2) => (MachineV { env: env2, ..m1 }, EvalOut::Val(v)),
                        None => (m1, EvalOut::Fault(fault(line, undefined_var_msg(name)))),
                    }
                },
                _ => (m1, o1),
            }
        },
        ExprView::Logical { left, right, operator } => {
            let (m1, o1) = eval_expr_spec(m, *left, env, fuel);
            match o1 {
                EvalOut::Val(lv) => {
                    let take_left = match operator {
                        crate::ast::LogicalOperator::And => !crate::loxtype::truthy(lv),
                        crate::ast::LogicalOperator::Or => crate::loxtype::truthy(lv),
                    };
                    if take_left {
                        (m1, EvalOut::Val(lv))
                    } else {
                        eval_expr_spec(m1, *right, env, fuel)
                    }
                },
                _ => (m1, o1),
            }
        },
        ExprView::Call { callee, arguments, line } => {
            let (m1, o1) = eval_expr_spec(m, *callee, env, fuel);
            match o1 {
                EvalOut::Val(cv) => {
                    let (m2, o2) = eval_exprs_spec(m1, arguments, env, fuel);
                    match o2 {
                        ArgsOut::Vals(vs) => call_value_spec(m2, cv, vs, line, fuel),
                        ArgsOut::Fault(d) => (m2, EvalOut::Fault(d)),
                        ArgsOut::Spent => (m2, EvalOut::Spent),
                    }
                },
                _ => (m1, o1),
            }
        },
        ExprView::Get { object, name, line } => {
            let (m1, o1) = eval_expr_spec(m, *object, env, fuel);
            match o1 {
                EvalOut::Val(LoxTypeView::Instance(i)) => {
                    if 0 <= i < m1.instances.len() {
                        let inst = m1.instances[i];
                        if inst.fields.contains_key(name) {
                            (m1, EvalOut::Val(inst.fields[name]))
                        } else {
                            match get_method_spec(
                                m1,
                                inst.class,
                                name,
                                LoxTypeView::Instance(i),
                            ) {
                                Some((m2, fidx)) => (
                                    m2,
                                    EvalOut::Val(LoxTypeView::Callable(fidx)),
                                ),
                                None => (
                                    m1,
                                    EvalOut::Fault(fault(line, undefined_prop_msg(name))),
                                ),
                            }
                        }
                    } else {
                        (m1, EvalOut::Fault(fault(line, "Only instances have properties."@)))
                    }
                },
                EvalOut::Val(_) => (
                    m1,
                    EvalOut::Fault(fault(line, "Only instances have properties."@)),
                ),
                _ => (m1, o1),
            }
        },
        ExprView::SetProp { object, name, value, line } => {
            let (m1, o1) = eval_expr_spec(m, *object, env, fuel);
            match o1 {
                EvalOut::Val(LoxTypeView::Instance(i)) => {
                    if 0 <= i < m1.instances.len() {
                        let (m2, o2) = eval_expr_spec(m1, *value, env, fuel);
                        match o2 {
                            EvalOut::Val(v) => {
                                let inst = m2.instances[i];
                                let m3 = MachineV {
                                    instances: m2.instances.update(
                                        i,
                                        InstanceV {
                                            class: inst.class,
                                            fields: inst.fields.insert(name, v),
                                        },
                                    ),
                                    ..m2
                                };
                                (m3, EvalOut::Val(v))
                            },
                            _ => (m2, o2),
                        }
                    } else {
                        (m1, EvalOut::Fault(fault(line, "Only instances have fields."@)))
                    }
                },
                EvalOut::Val(_) => (
                    m1,
                    EvalOut::Fault(fault(line, "Only instances have fields."@)),
                ),
                _ => (m1, o1),
            }
        },
        ExprView::This { maybe_distance, line } => {
            match lookup_slot(m, env, maybe_distance, "this"@) {
                Some(val) => (m, EvalOut::Val(val)),
                None => (m, EvalOut::Fault(fault(line, undefined_var_msg("this"@)))),
            }
        },
        ExprView::Super { method, maybe_distance, line } => {
            match maybe_distance {
                Some(d) => if d >= 1 {
                    match env_get(m.env, env, d as nat, "super"@) {
                        Some(LoxTypeView::Class(c)) => {
                            match env_get(m.env, env, (d - 1) as nat, "this"@) {
                                Some(thisv) => {
                                    match get_method_spec(m, c, method, thisv) {
                                        Some((m2, fidx)) => (
                                            m2,
                                            EvalOut::Val(LoxTypeView::Callable(fidx)),
                                        ),
                                        None => (
                                            m,
                                            EvalOut::Fault(
                                                fault(line, undefined_prop_msg(method)),
                                            ),
                                        ),
                                    }
                                },
                                None => (
                                    m,
                                    EvalOut::Fault(fault(line, undefined_var_msg("this"@))),
                                ),
                            }
                        },
                        Some(_) => (
                            m,
                            EvalOut::Fault(fault(line, "Superclass is not a class."@)),
                        ),
                        None => (m, EvalOut::Fault(fault(line, undefined_var_msg("super"@)))),
                    }
                } else {
                    (m, EvalOut::Fault(fault(line, undefined_var_msg("super"@))))
                },
                None => (m, EvalOut::Fault(fault(line, undefined_var_msg("super"@)))),
            }
        },
    }
}

/// The value or fault of one binary operator on two values.
pub open spec fn binary_op_spec(
    op: crate::ast::BinaryOperator,
    lv: LoxTypeView,
    rv: LoxTypeView,
    line: u32,
) -> EvalOut {
    match op {
        crate::ast::BinaryOperator::Add => match (lv, rv) {
            (LoxTypeView::Number(a), LoxTypeView::Number(b)) => EvalOut::Val(
                LoxTypeView::Number(crate::number::add_bits(a, b)),
            ),
            (LoxTypeView::Str(a), LoxTypeView::Str(b)) => EvalOut::Val(LoxTypeView::Str(a + b)),
            _ => EvalOut::Fault(fault(line, "Incompatible operands."@)),
        },
        crate::ast::BinaryOperator::Substract => match (lv, rv) {
            (LoxTypeView::Number(a), LoxTypeView::Number(b)) => EvalOut::Val(
                LoxTypeView::Number(crate::number::sub_bits(a, b)),
            ),
            _ => EvalOut::Fault(fault(line, "Incompatible operands."@)),
        },
        crate::ast::BinaryOperator::Multiply => match (lv, rv) {
            (LoxTypeView::Number(a), LoxTypeView::Number(b)) => EvalOut::Val(
                LoxTypeView::Number(crate::number::mul_bits(a, b)),
            ),
            _ => EvalOut::Fault(fault(line, "Incompatible operands."@)),
        },
        crate::ast::BinaryOperator::Divide => match (lv, rv) {
            (LoxTypeView::Number(a), LoxTypeView::Number(b)) => EvalOut::Val(
                LoxTypeView::Number(crate::number::div_bits(a, b)),
            ),
            _ => EvalOut::Fault(fault(line, "Incompatible operands."@)),
        },
        crate::ast::BinaryOperator::Equal => EvalOut::Val(
            LoxTypeView::Boolean(crate::loxtype::lox_equal(lv, rv)),
        ),
        crate::ast::BinaryOperator::NotEqual => EvalOut::Val(
            LoxTypeView::Boolean(!crate::loxtype::lox_equal(lv, rv)),
        ),
        crate::ast::BinaryOperator::Less => match (lv, rv) {
            (LoxTypeView::Number(a), LoxTypeView::Number(b)) => EvalOut::Val(
                LoxTypeView::Boolean(crate::number::lt_bits(a, b)),
            ),
            _ => EvalOut::Fault(fault(line, "Incompatible operands."@)),
        },
        crate::ast::BinaryOperator::LessOrEqual => match (lv, rv) {
            (LoxTypeView::Number(a), LoxTypeView::Number(b)) => EvalOut::Val(
                LoxTypeView::Boolean(crate::number::le_bits(a, b)),
            ),
            _ => EvalOut::Fault(fault(line, "Incompatible operands."@)),
        },
        crate::ast::BinaryOperator::Greater => match (lv, rv) {
            (LoxTypeView::Number(a), LoxTypeView::Number(b)) => EvalOut::Val(
                LoxTypeView::Boolean(crate::number::gt_bits(a, b)),
            ),
            _ => EvalOut::Fault(fault(line, "Incompatible operands."@)),
        },
        crate::ast::BinaryOperator::GreaterOrEqual => match (lv, rv) {
            (LoxTypeView::Number(a), LoxTypeView::Number(b)) => EvalOut::Val(
                LoxTypeView::Boolean(crate::number::ge_bits(a, b)),
            ),
            _ => EvalOut::Fault(fault(line, "Incompatible operands."@)),
        },
    }
}

/// Evaluates an argument list left to right.
pub open spec fn eval_exprs_spec(m: MachineV, es: Seq<ExprView>, env: int, fuel: nat) -> (
    MachineV,
    ArgsOut,
)
    decreases fuel, 1nat, es,
{
    if es.len() == 0 {
        (m, ArgsOut::Vals(Seq::<LoxTypeView>::empty()))
    } else {
        let (m1, o1) = eval_expr_spec(m, es[0], env, fuel);
        match o1 {
            EvalOut::Val(v) => {
                let (m2, o2) = eval_exprs_spec(m1, es.subrange(1, es.len() as int), env, fuel);
                match o2 {
                    ArgsOut::Vals(vs) => (m2, ArgsOut::Vals(seq![v] + vs)),
                    _ => (m2, o2),
                }
            },
            EvalOut::Fault(d) => (m1, ArgsOut::Fault(d)),
            EvalOut::Spent => (m1, ArgsOut::Spent),
        }
    }
}

/// Calls a value: a callable object or a class; anything else is the
/// non-callable fault. Entering a body or an instantiation consumes fuel.
pub open spec fn call_value_spec(
    m: MachineV,
    cv: LoxTypeView,
    vs: Seq<LoxTypeView>,
    line: u32,
    fuel: nat,
) -> (MachineV, EvalOut)
    decreases fuel, 0nat, vs,
{
    match cv {
        LoxTypeView::Callable(i) => {
            if 0 <= i < m.callables.len() {
                let c = m.callables[i];
                if arity_of(c) != vs.len() {
                    (m, EvalOut::Fault(fault(line, arity_msg(arity_of(c), vs.len()))))
                } else {
                    match c {
                        CallableV::Native => (
                            m,
                            EvalOut::Val(
                                LoxTypeView::Number(
                                    crate::number::bits_of_integer(m.clock_now),
                                ),
                            ),
                        ),
                        CallableV::Function(f) => if fuel == 0 {
                            (m, EvalOut::Spent)
                        } else {
                            call_function_spec(m, f, vs, line, (fuel - 1) as nat)
                        },
                    }
                }
            } else {
                (m, EvalOut::Fault(fault(line, "Can only call functions and classes."@)))
            }
        },
        LoxTypeView::Class(c) => {
            if 0 <= c < m.classes.len() {
                if fuel == 0 {
                    (m, EvalOut::Spent)
                } else {
                    instantiate_spec(m, c, vs, line, (fuel - 1) as nat)
                }
            } else {
                (m, EvalOut::Fault(fault(line, "Can only call functions and classes."@)))
            }
        },
        _ => (m, EvalOut::Fault(fault(line, "Can only call functions and classes."@))),
    }
}

/// Runs a function body: a fresh child of the captured frame, parameters
/// bound positionally; the result is the returned value, `nil` without a
/// `return`, and for an initializer always the `this` of the captured
/// frame.
pub open spec fn call_function_spec(
    m: MachineV,
    f: FunctionV,
    vs: Seq<LoxTypeView>,
    line: u32,
    fuel: nat,
) -> (MachineV, EvalOut)
    decreases fuel, 4nat, vs,
{
    let frame = m.env.len() as int;
    let env1 = m.env.push(
        FrameView { maybe_enclosing: Some(f.ctx), vars: Map::<Seq<char>, LoxTypeView>::empty() },
    );
    let env2 = define_args(env1, frame, f.parameters, vs);
    let m1 = MachineV { env: env2, ..m };
    let (m2, out) = exec_stmts_spec(m1, f.statements, frame, fuel);
    match out {
        StmtOut::Fault(d) => (m2, EvalOut::Fault(d)),
        StmtOut::Spent => (m2, EvalOut::Spent),
        _ => {
            if f.is_initializer {
                match env_get(m2.env, f.ctx, 0, "this"@) {
                    Some(v) => (m2, EvalOut::Val(v)),
                    None => (m2, EvalOut::Fault(fault(line, undefined_var_msg("this"@)))),
                }
            } else {
                match out {
                    StmtOut::Return(v) => (m2, EvalOut::Val(v)),
                    _ => (m2, EvalOut::Val(LoxTypeView::Nil)),
                }
            }
        },
    }
}

/// Instantiates a class: a fresh instance with empty fields; `init`, if
/// present anywhere on the ancestor chain, is bound and run with the
/// arguments; the result is the instance.
pub open spec fn instantiate_spec(
    m: MachineV,
    cidx: int,
    vs: Seq<LoxTypeView>,
    line: u32,
    fuel: nat,
) -> (MachineV, EvalOut)
    decreases fuel, 5nat, vs,
{
    let iidx = m.instances.len() as int;
    let m1 = MachineV {
        instances: m.instances.push(
            InstanceV { class: cidx, fields: Map::<Seq<char>, LoxTypeView>::empty() },
        ),
        ..m
    };
    match get_method_spec(m1, cidx, "init"@, LoxTypeView::Instance(iidx)) {
        Some((m2, fidx)) => {
            match m2.callables[fidx] {
                CallableV::Function(f) => {
                    if f.parameters.len() != vs.len() {
                        (m2, EvalOut::Fault(fault(line, arity_msg(f.parameters.len(), vs.len()))))
                    } else {
                        let (m3, out) = call_function_spec(m2, f, vs, line, fuel);
                        match out {
                            EvalOut::Val(_) => (m3, EvalOut::Val(LoxTypeView::Instance(iidx))),
                            _ => (m3, out),
                        }
                    }
                },
                CallableV::Native => (m2, EvalOut::Val(LoxTypeView::Instance(iidx))),
            }
        },
        None => {
            if vs.len() != 0 {
                (m1, EvalOut::Fault(fault(line, arity_msg(0, vs.len()))))
            } else {
                (m1, EvalOut::Val(LoxTypeView::Instance(iidx)))
            }
        },
    }
}

/// Executes one statement in frame `env`.
pub open spec fn exec_stmt_spec(m: MachineV, s: StmtView, env: int, fuel: nat) -> (
    MachineV,
    StmtOut,
)
    decreases fuel, 3nat, s,
{
    match s {
        StmtView::Print { expression, line } => {
            let (m1, o1) = eval_expr_spec(m, *expression, env, fuel);
            match o1 {
                EvalOut::Val(v) => (
                    MachineV { output: m1.output + display_of(m1, v) + "\n"@, ..m1 },
                    StmtOut::Void,
                ),
                EvalOut::Fault(d) => (m1, StmtOut::Fault(d)),
                EvalOut::Spent => (m1, StmtOut::Spent),
            }
        },
        StmtView::Expression(e) => {
            let (m1, o1) = eval_expr_spec(m, *e, env, fuel);
            match o1 {
                EvalOut::Val(_) => (m1, StmtOut::Void),
                EvalOut::Fault(d) => (m1, StmtOut::Fault(d)),
                EvalOut::Spent => (m1, StmtOut::Spent),
            }
        },
        StmtView::Var { name, initializer, line } => {
            let (m1, o1) = match initializer {
                Some(e) => eval_expr_spec(m, *e, env, fuel),
                None => (m, EvalOut::Val(LoxTypeView::Nil)),
            };
            match o1 {
                EvalOut::Val(v) => (
                    MachineV { env: mdefine(m1.env, env, name, v), ..m1 },
                    StmtOut::Void,
                ),
                EvalOut::Fault(d) => (m1, StmtOut::Fault(d)),
                EvalOut::Spent => (m1, StmtOut::Spent),
            }
        },
        StmtView::Block { statements } => {
            let frame = m.env.len() as int;
            let m1 = MachineV {
                env: m.env.push(
                    FrameView {
                        maybe_enclosing: Some(env),
                        vars: Map::<Seq<char>, LoxTypeView>::empty(),
                    },
                ),
                ..m
            };
            exec_stmts_spec(m1, statements, frame, fuel)
        },
        StmtView::If { condition, then_branch, else_branch } => {
            let (m1, o1) = eval_expr_spec(m, *condition, env, fuel);
            match o1 {
                EvalOut::Val(v) => {
                    if crate::loxtype::truthy(v) {
                        exec_stmt_spec(m1, *then_branch, env, fuel)
                    } else {
                        match else_branch {
                            Some(e) => exec_stmt_spec(m1, *e, env, fuel),
                            None => (m1, StmtOut::Void),
                        }
                    }
                },
                EvalOut::Fault(d) => (m1, StmtOut::Fault(d)),
                EvalOut::Spent => (m1, StmtOut::Spent),
            }
        },
        StmtView::While { condition, body } => {
            let (m1, o1) = eval_expr_spec(m, *condition, env, fuel);
            match o1 {
                EvalOut::Val(v) => {
                    if crate::loxtype::truthy(v) {
                        let (m2, o2) = exec_stmt_spec(m1, *body, env, fuel);
                        match o2 {
                            StmtOut::Void => if fuel == 0 {
                                (m2, StmtOut::Spent)
                            } else {
                                exec_stmt_spec(m2, s, env, (fuel - 1) as nat)
                            },
                            _ => (m2, o2),
                        }
                    } else {
                        (m1, StmtOut::Void)
                    }
                },
                EvalOut::Fault(d) => (m1, StmtOut::Fault(d)),
                EvalOut::Spent => (m1, StmtOut::Spent),
            }
        },
        StmtView::Function(fdecl) => {
            let fv = fs_function(fdecl, env, false);
            let fidx = m.callables.len() as int;
            let m1 = MachineV { callables: m.callables.push(CallableV::Function(fv)), ..m };
            let m2 = MachineV {
                env: mdefine(m1.env, env, fdecl.name, LoxTypeView::Callable(fidx)),
                ..m1
            };
            (m2, StmtOut::Void)
        },
        StmtView::Return { maybe_expression, line } => {
            let (m1, o1) = match maybe_expression {
                Some(e) => eval_expr_spec(m, *e, env, fuel),
                None => (m, EvalOut::Val(LoxTypeView::Nil)),
            };
            match o1 {
                EvalOut::Val(v) => (m1, StmtOut::Return(v)),
                EvalOut::Fault(d) => (m1, StmtOut::Fault(d)),
                EvalOut::Spent => (m1, StmtOut::Spent),
            }
        },
        StmtView::Class { name, methods, maybe_superclass, line } => {
            let supres = match maybe_superclass {
                Some(sup) => {
                    match lookup_slot(m, env, sup.maybe_distance, sup.name) {
                        Some(LoxTypeView::Class(c)) => Ok(Some(c)),
                        Some(_) => Err(fault(sup.line, "Superclass must be a class."@)),
                        None => Err(fault(sup.line, undefined_var_msg(sup.name))),
                    }
                },
                None => Ok(None),
            };
            match supres {
                Err(d) => (m, StmtOut::Fault(d)),
                Ok(supopt) => {
                    let m1 = MachineV { env: mdefine(m.env, env, name, LoxTypeView::Nil), ..m };
                    let ctx = match supopt {
                        Some(c) => m1.env.len() as int,
                        None => env,
                    };
                    let m2 = match supopt {
                        Some(c) => MachineV {
                            env: m1.env.push(
                                FrameView {
                                    maybe_enclosing: Some(env),
                                    vars: Map::<Seq<char>, LoxTypeView>::empty().insert(
                                        "super"@,
                                        LoxTypeView::Class(c),
                                    ),
                                },
                            ),
                            ..m1
                        },
                        None => m1,
                    };
                    let cidx = m2.classes.len() as int;
                    let m3 = MachineV {
                        classes: m2.classes.push(
                            ClassV { name, maybe_superclass: supopt, methods, ctx },
                        ),
                        ..m2
                    };
                    match env_assign(m3.env, env, 0, name, LoxTypeView::Class(cidx)) {
                        Some(env2) => (MachineV { env: env2, ..m3 }, StmtOut::Void),
                        None => (m3, StmtOut::Fault(fault(line, undefined_var_msg(name)))),
                    }
                },
            }
        },
    }
}

/// Executes statements in order; `return` and faults stop the sequence.
pub open spec fn exec_stmts_spec(m: MachineV, ss: Seq<StmtView>, env: int, fuel: nat) -> (
    MachineV,
    StmtOut,
)
    decreases fuel, 3nat, ss,
{
    if ss.len() == 0 {
        (m, StmtOut::Void)
    } else {
        let (m1, o1) = exec_stmt_spec(m, ss[0], env, fuel);
        match o1 {
            StmtOut::Void => exec_stmts_spec(m1, ss.subrange(1, ss.len() as int), env, fuel),
            _ => (m1, o1),
        }
    }
}

/// Runs a program's top-level statements in the globals frame; a
/// top-level `return` value is discarded, the first fault stops the run.
pub open spec fn run_stmts_spec(m: MachineV, ss: Seq<StmtView>, fuel: nat) -> (MachineV, StmtOut)
    decreases ss.len(),
{
    if ss.len() == 0 {
        (m, StmtOut::Void)
    } else {
        let (m1, o1) = exec_stmt_spec(m, ss[0], 0, fuel);
        match o1 {
            StmtOut::Void => run_stmts_spec(m1, ss.subrange(1, ss.len() as int), fuel),
            StmtOut::Return(_) => run_stmts_spec(m1, ss.subrange(1, ss.len() as int), fuel),
            _ => (m1, o1),
        }
    }
}

} // verus!

verus! {

// ---- well-formedness of the machine ----

/// Every captured frame stored in the machine exists, and an instance's
/// class exists. (A class's parent handle is checked where it is walked:
/// method lookup only follows a parent with a smaller handle.)
pub open spec fn wf_machine(m: MachineV) -> bool {
    &&& forall|i: int|
        0 <= i < m.callables.len() ==> (#[trigger] m.callables[i] matches CallableV::Function(f)
            ==> 0 <= f.ctx < m.env.len())
    &&& forall|i: int|
        0 <= i < m.classes.len() ==> 0 <= (#[trigger] m.classes[i]).ctx < m.env.len()
    &&& forall|i: int|
        0 <= i < m.instances.len() ==> 0 <= (#[trigger] m.instances[i]).class < m.classes.len()
}

/// `m2` has at least the frames and objects of `m1`.
pub open spec fn m_extends(m2: MachineV, m1: MachineV) -> bool {
    &&& m1.env.len() <= m2.env.len()
    &&& m1.callables.len() <= m2.callables.len()
    &&& m1.classes.len() <= m2.classes.len()
    &&& m1.instances.len() <= m2.instances.len()
}

proof fn lemma_define_args_len(
    env: Seq<FrameView>,
    frame: int,
    params: Seq<Seq<char>>,
    args: Seq<LoxTypeView>,
)
    ensures
        define_args(env, frame, params, args).len() == env.len(),
    decreases params.len(),
{
    if params.len() > 0 && args.len() > 0 {
        lemma_define_args_len(
            mdefine(env, frame, params[0], args[0]),
            frame,
            params.subrange(1, params.len() as int),
            args.subrange(1, args.len() as int),
        );
    }
}

proof fn lemma_wf_get_method(m: MachineV, cidx: int, name: Seq<char>, this: LoxTypeView)
    requires
        wf_machine(m),
    ensures
        match get_method_spec(m, cidx, name, this) {
            Some((m2, fidx)) => wf_machine(m2) && m_extends(m2, m) && 0 <= fidx
                < m2.callables.len() && (m2.callables[fidx] matches CallableV::Function(f)
                && 0 <= f.ctx < m2.env.len()) && m2.classes == m.classes && m2.instances
                == m.instances && m2.output == m.output && m2.clock_now == m.clock_now,
            None => true,
        },
    decreases cidx,
{
    if 0 <= cidx < m.classes.len() {
        let cls = m.classes[cidx];
        match find_method(cls.methods, name) {
            Some(decl) => {},
            None => {
                match cls.maybe_superclass {
                    Some(s) => {
                        if 0 <= s < cidx {
                            lemma_wf_get_method(m, s, name, this);
                        }
                    },
                    None => {},
                }
            },
        }
    }
}

proof fn lemma_wf_eval_expr(m: MachineV, e: ExprView, env: int, fuel: nat)
    requires
        wf_machine(m),
    ensures
        wf_machine(eval_expr_spec(m, e, env, fuel).0),
        m_extends(eval_expr_spec(m, e, env, fuel).0, m),
    decreases fuel, 1nat, e,
{
    match e {
        ExprView::Nil => {},
        ExprView::Literal(_) => {},
        ExprView::Neg { expression, line } => {
            lemma_wf_eval_expr(m, *expression, env, fuel);
        },
        ExprView::Not(inner) => {
            lemma_wf_eval_expr(m, *inner, env, fuel);
        },
        ExprView::Grouping(inner) => {
            lemma_wf_eval_expr(m, *inner, env, fuel);
        },
        ExprView::Binary { left, right, operator, line } => {
            lemma_wf_eval_expr(m, *left, env, fuel);
            lemma_wf_eval_expr(eval_expr_spec(m, *left, env, fuel).0, *right, env, fuel);
        },
        ExprView::Variable(_) => {},
        ExprView::Assign { name, value, maybe_distance, line } => {
            lemma_wf_eval_expr(m, *value, env, fuel);
            let m1 = eval_expr_spec(m, *value, env, fuel).0;
            match eval_expr_spec(m, *value, env, fuel).1 {
                EvalOut::Val(v) => {
                    match assign_slot(m1, env, maybe_distance, name, v) {
                        Some(env2) => {
                            lemma_env_assign_len(m1, env, maybe_distance, name, v);
                        },
                        None => {},
                    }
                },
                _ => {},
            }
        },
        ExprView::Logical { left, right, operator } => {
            lemma_wf_eval_expr(m, *left, env, fuel);
            lemma_wf_eval_expr(eval_expr_spec(m, *left, env, fuel).0, *right, env, fuel);
        },
        ExprView::Call { callee, arguments, line } => {
            lemma_wf_eval_expr(m, *callee, env, fuel);
            let m1 = eval_expr_spec(m, *callee, env, fuel).0;
            lemma_wf_eval_exprs(m1, arguments, env, fuel);
            let m2 = eval_exprs_spec(m1, arguments, env, fuel).0;
            match eval_expr_spec(m, *callee, env, fuel).1 {
                EvalOut::Val(cv) => {
                    match eval_exprs_spec(m1, arguments, env, fuel).1 {
                        ArgsOut::Vals(vs) => {
                            lemma_wf_call_value(m2, cv, vs, line, fuel);
                        },
                        _ => {},
                    }
                },
                _ => {},
            }
        },
        ExprView::Get { object, name, line } => {
            lemma_wf_eval_expr(m, *object, env, fuel);
            let m1 = eval_expr_spec(m, *object, env, fuel).0;
            match eval_expr_spec(m, *object, env, fuel).1 {
                EvalOut::Val(LoxTypeView::Instance(i)) => {
                    if 0 <= i < m1.instances.len() {
                        lemma_wf_get_method(
                            m1,
                            m1.instances[i].class,
                            name,
                            LoxTypeView::Instance(i),
                        );
                    }
                },
                _ => {},
            }
        },
        ExprView::SetProp { object, name, value, line } => {
            lemma_wf_eval_expr(m, *object, env, fuel);
            let m1 = eval_expr_spec(m, *object, env, fuel).0;
            match eval_expr_spec(m, *object, env, fuel).1 {
                EvalOut::Val(LoxTypeView::Instance(i)) => {
                    if 0 <= i < m1.instances.len() {
                        lemma_wf_eval_expr(m1, *value, env, fuel);
                    }
                },
                _ => {},
            }
        },
        ExprView::This { maybe_distance, line } => {},
        ExprView::Super { method, maybe_distance, line } => {
            match maybe_distance {
                Some(d) => {
                    if d >= 1 {
                        match env_get(m.env, env, d as nat, "super"@) {
                            Some(LoxTypeView::Class(c)) => {
                                match env_get(m.env, env, (d - 1) as nat, "this"@) {
                                    Some(thisv) => {
                                        lemma_wf_get_method(m, c, method, thisv);
                                    },
                                    None => {},
                                }
                            },
                            _ => {},
                        }
                    }
                },
                None => {},
            }
        },
    }
}

proof fn lemma_env_assign_len(
    m: MachineV,
    env: int,
    slot: Option<u32>,
    name: Seq<char>,
    v: LoxTypeView,
)
    ensures
        match assign_slot(m, env, slot, name, v) {
            Some(env2) => env2.len() == m.env.len(),
            None => true,
        },
{
    match slot {
        Some(d) => {
            lemma_env_assign_frames(m.env, env, d as nat, name, v);
        },
        None => {
            lemma_env_assign_frames(m.env, 0, 0, name, v);
        },
    }
}

proof fn lemma_env_assign_frames(
    env: Seq<FrameView>,
    frame: int,
    distance: nat,
    name: Seq<char>,
    v: LoxTypeView,
)
    ensures
        match env_assign(env, frame, distance, name, v) {
            Some(env2) => env2.len() == env.len(),
            None => true,
        },
    decreases distance,
{
    if 0 <= frame < env.len() && distance > 0 {
        match env[frame].maybe_enclosing {
            Some(p) => {
                lemma_env_assign_frames(env, p, (distance - 1) as nat, name, v);
            },
            None => {},
        }
    }
}

proof fn lemma_wf_eval_exprs(m: MachineV, es: Seq<ExprView>, env: int, fuel: nat)
    requires
        wf_machine(m),
    ensures
        wf_machine(eval_exprs_spec(m, es, env, fuel).0),
        m_extends(eval_exprs_spec(m, es, env, fuel).0, m),
    decreases fuel, 1nat, es,
{
    if es.len() > 0 {
        lemma_wf_eval_expr(m, es[0], env, fuel);
        let m1 = eval_expr_spec(m, es[0], env, fuel).0;
        match eval_expr_spec(m, es[0], env, fuel).1 {
            EvalOut::Val(_) => {
                lemma_wf_eval_exprs(m1, es.subrange(1, es.len() as int), env, fuel);
            },
            _ => {},
        }
    }
}

proof fn lemma_wf_call_value(m: MachineV, cv: LoxTypeView, vs: Seq<LoxTypeView>, line: u32, fuel: nat)
    requires
        wf_machine(m),
    ensures
        wf_machine(call_value_spec(m, cv, vs, line, fuel).0),
        m_extends(call_value_spec(m, cv, vs, line, fuel).0, m),
    decreases fuel, 0nat, vs,
{
    match cv {
        LoxTypeView::Callable(i) => {
            if 0 <= i < m.callables.len() {
                match m.callables[i] {
                    CallableV::Function(f) => {
                        if arity_of(m.callables[i]) == vs.len() && fuel > 0 {
                            lemma_wf_call_function(m, f, vs, line, (fuel - 1) as nat);
                        }
                    },
                    CallableV::Native => {},
                }
            }
        },
        LoxTypeView::Class(c) => {
            if 0 <= c < m.classes.len() && fuel > 0 {
                lemma_wf_instantiate(m, c, vs, line, (fuel - 1) as nat);
            }
        },
        _ => {},
    }
}

proof fn lemma_wf_call_function(m: MachineV, f: FunctionV, vs: Seq<LoxTypeView>, line: u32, fuel: nat)
    requires
        wf_machine(m),
        0 <= f.ctx < m.env.len(),
    ensures
        wf_machine(call_function_spec(m, f, vs, line, fuel).0),
        m_extends(call_function_spec(m, f, vs, line, fuel).0, m),
    decreases fuel, 4nat, vs,
{
    let frame = m.env.len() as int;
    let env1 = m.env.push(
        FrameView { maybe_enclosing: Some(f.ctx), vars: Map::<Seq<char>, LoxTypeView>::empty() },
    );
    let env2 = define_args(env1, frame, f.parameters, vs);
    lemma_define_args_len(env1, frame, f.parameters, vs);
    let m1 = MachineV { env: env2, ..m };
    lemma_wf_exec_stmts(m1, f.statements, frame, fuel);
}

proof fn lemma_wf_instantiate(m: MachineV, cidx: int, vs: Seq<LoxTypeView>, line: u32, fuel: nat)
    requires
        wf_machine(m),
        0 <= cidx < m.classes.len(),
    ensures
        wf_machine(instantiate_spec(m, cidx, vs, line, fuel).0),
        m_extends(instantiate_spec(m, cidx, vs, line, fuel).0, m),
    decreases fuel, 5nat, vs,
{
    let iidx = m.instances.len() as int;
    let m1 = MachineV {
        instances: m.instances.push(
            InstanceV { class: cidx, fields: Map::<Seq<char>, LoxTypeView>::empty() },
        ),
        ..m
    };
    assert(wf_machine(m1));
    lemma_wf_get_method(m1, cidx, "init"@, LoxTypeView::Instance(iidx));
    match get_method_spec(m1, cidx, "init"@, LoxTypeView::Instance(iidx)) {
        Some((m2, fidx)) => {
            match m2.callables[fidx] {
                CallableV::Function(f) => {
                    if f.parameters.len() == vs.len() {
                        lemma_wf_call_function(m2, f, vs, line, fuel);
                    }
                },
                CallableV::Native => {},
            }
        },
        None => {},
    }
}

proof fn lemma_wf_exec_stmt(m: MachineV, s: StmtView, env: int, fuel: nat)
    requires
        wf_machine(m),
        0 <= env < m.env.len(),
    ensures
        wf_machine(exec_stmt_spec(m, s, env, fuel).0),
        m_extends(exec_stmt_spec(m, s, env, fuel).0, m),
    decreases fuel, 3nat, s,
{
    match s {
        StmtView::Print { expression, line } => {
            lemma_wf_eval_expr(m, *expression, env, fuel);
        },
        StmtView::Expression(e) => {
            lemma_wf_eval_expr(m, *e, env, fuel);
        },
        StmtView::Var { name, initializer, line } => {
            match initializer {
                Some(e) => {
                    lemma_wf_eval_expr(m, *e, env, fuel);
                },
                None => {},
            }
        },
        StmtView::Block { statements } => {
            let frame = m.env.len() as int;
            let m1 = MachineV {
                env: m.env.push(
                    FrameView {
                        maybe_enclosing: Some(env),
                        vars: Map::<Seq<char>, LoxTypeView>::empty(),
                    },
                ),
                ..m
            };
            lemma_wf_exec_stmts(m1, statements, frame, fuel);
        },
        StmtView::If { condition, then_branch, else_branch } => {
            lemma_wf_eval_expr(m, *condition, env, fuel);
            let m1 = eval_expr_spec(m, *condition, env, fuel).0;
            match eval_expr_spec(m, *condition, env, fuel).1 {
                EvalOut::Val(v) => {
                    if crate::loxtype::truthy(v) {
                        lemma_wf_exec_stmt(m1, *then_branch, env, fuel);
                    } else {
                        match else_branch {
                            Some(e) => {
                                lemma_wf_exec_stmt(m1, *e, env, fuel);
                            },
                            None => {},
                        }
                    }
                },
                _ => {},
            }
        },
        StmtView::While { condition, body } => {
            lemma_wf_eval_expr(m, *condition, env, fuel);
            let m1 = eval_expr_spec(m, *condition, env, fuel).0;
            match eval_expr_spec(m, *condition, env, fuel).1 {
                EvalOut::Val(v) => {
                    if crate::loxtype::truthy(v) {
                        lemma_wf_exec_stmt(m1, *body, env, fuel);
                        let m2 = exec_stmt_spec(m1, *body, env, fuel).0;
                        match exec_stmt_spec(m1, *body, env, fuel).1 {
                            StmtOut::Void => {
                                if fuel > 0 {
                                    lemma_wf_exec_stmt(m2, s, env, (fuel - 1) as nat);
                                }
                            },
                            _ => {},
                        }
                    }
                },
                _ => {},
            }
        },
        StmtView::Function(fdecl) => {},
        StmtView::Return { maybe_expression, line } => {
            match maybe_expression {
                Some(e) => {
                    lemma_wf_eval_expr(m, *e, env, fuel);
                },
                None => {},
            }
        },
        StmtView::Class { name, methods, maybe_superclass, line } => {
            let supres = match maybe_superclass {
                Some(sup) => {
                    match lookup_slot(m, env, sup.maybe_distance, sup.name) {
                        Some(LoxTypeView::Class(c)) => Ok(Some(c)),
                        Some(_) => Err(fault(sup.line, "Superclass must be a class."@)),
                        None => Err(fault(sup.line, undefined_var_msg(sup.name))),
                    }
                },
                None => Ok(None),
            };
            match supres {
                Err(_) => {},
                Ok(supopt) => {
                    let m1 = MachineV { env: mdefine(m.env, env, name, LoxTypeView::Nil), ..m };
                    let m2 = match supopt {
                        Some(c) => MachineV {
                            env: m1.env.push(
                                FrameView {
                                    maybe_enclosing: Some(env),
                                    vars: Map::<Seq<char>, LoxTypeView>::empty().insert(
                                        "super"@,
                                        LoxTypeView::Class(c),
                                    ),
                                },
                            ),
                            ..m1
                        },
                        None => m1,
                    };
                    let cidx = m2.classes.len() as int;
                    let m3 = MachineV {
                        classes: m2.classes.push(
                            ClassV {
                                name,
                                maybe_superclass: supopt,
                                methods,
                                ctx: match supopt {
                                    Some(_) => m1.env.len() as int,
                                    None => env,
                                },
                            },
                        ),
                        ..m2
                    };
                    assert(wf_machine(m3));
                    match env_assign(m3.env, env, 0, name, LoxTypeView::Class(cidx)) {
                        Some(env2) => {
                            lemma_env_assign_frames(m3.env, env, 0, name, LoxTypeView::Class(cidx));
                        },
                        None => {},
                    }
                },
            }
        },
    }
}

proof fn lemma_wf_exec_stmts(m: MachineV, ss: Seq<StmtView>, env: int, fuel: nat)
    requires
        wf_machine(m),
        0 <= env < m.env.len(),
    ensures
        wf_machine(exec_stmts_spec(m, ss, env, fuel).0),
        m_extends(exec_stmts_spec(m, ss, env, fuel).0, m),
    decreases fuel, 3nat, ss,
{
    if ss.len() > 0 {
        lemma_wf_exec_stmt(m, ss[0], env, fuel);
        let m1 = exec_stmt_spec(m, ss[0], env, fuel).0;
        match exec_stmt_spec(m, ss[0], env, fuel).1 {
            StmtOut::Void => {
                lemma_wf_exec_stmts(m1, ss.subrange(1, ss.len() as int), env, fuel);
            },
            _ => {},
        }
    }
}

} // verus!

verus! {

/// Relies on `Rc::clone`: the clone is a second handle to the same value.
#[verifier::external_body]
fn share_body(rc: &Rc<Vec<Stmt>>) -> (r: Rc<Vec<Stmt>>)
    ensures
        r == *rc,
{
    Rc::clone(rc)
}

/// Relies on `Rc::clone`: the clone is a second handle to the same value.
#[verifier::external_body]
fn share_methods(rc: &Rc<Vec<FunctionStatement>>) -> (r: Rc<Vec<FunctionStatement>>)
    ensures
        r == *rc,
{
    Rc::clone(rc)
}

/// A copy of a name list, equal to it element by element.
fn dup_names(ns: &Vec<String>) -> (r: Vec<String>)
    ensures
        names_view(r@) == names_view(ns@),
        r@.len() == ns@.len(),
{
    let mut out: Vec<String> = Vec::new();
    let mut k: usize = 0;
    while k < ns.len()
        invariant
            k <= ns@.len(),
            out@.len() == k,
            forall|i: int| 0 <= i < k ==> out@[i]@ == ns@[i]@,
        decreases ns@.len() - k,
    {
        out.push(ns[k].clone());
        k = k + 1;
    }
    proof {
        assert(names_view(out@) =~= names_view(ns@));
    }
    out
}

/// The index of the last method declaration named `name`, if any.
fn find_method_index(ms: &Vec<FunctionStatement>, name: &str) -> (r: Option<usize>)
    ensures
        match find_method(functions_view(ms@), name@) {
            Some(d) => r matches Some(j) && j < ms@.len() && function_view(ms@[j as int]) == d,
            None => r is None,
        },
{
    let ghost mvs = functions_view(ms@);
    proof {
        crate::ast::lemma_functions_view_len(ms@);
    }
    let mut j: usize = ms.len();
    proof {
        assert(mvs.take(j as int) =~= mvs);
    }
    while j > 0
        invariant
            j <= ms@.len(),
            mvs == functions_view(ms@),
            mvs.len() == ms@.len(),
            find_method(mvs.take(j as int), name@) == find_method(mvs, name@),
        decreases j,
    {
        proof {
            crate::ast::lemma_functions_view_index(ms@, j - 1);
            assert(mvs.take(j as int).last() == mvs[j - 1]);
            assert(mvs.take(j as int).drop_last() =~= mvs.take(j - 1));
        }
        if str_eq(ms[j - 1].name.as_str(), name) {
            return Some(j - 1);
        }
        j = j - 1;
    }
    proof {
        assert(mvs.take(0) =~= Seq::<FunctionStatementView>::empty());
    }
    None
}

impl LoxFunction {
    /// The function object a declaration makes: its parameter names, its
    /// shared body, and the frame it captures; binding a receiver opens a
    /// fresh frame that defines `this`, and a bound `init` is an
    /// initializer.
    pub fn from_statement(
        stmt: &FunctionStatement,
        ctx: usize,
        bind_this: Option<LoxType>,
        env: &mut Environment,
    ) -> (r: LoxFunction)
        requires
            ctx < old(env)@.len(),
        ensures
            match bind_this {
                None => final(env)@ == old(env)@ && r@ == fs_function(
                    function_view(*stmt),
                    ctx as int,
                    false,
                ),
                Some(v) => final(env)@ == bind_this_env(old(env)@, ctx as int, v@) && r@
                    == fs_function(
                    function_view(*stmt),
                    old(env)@.len() as int,
                    stmt.name@ == "init"@,
                ),
            },
    {
        let is_bound = match &bind_this {
            Some(_) => true,
            None => false,
        };
        let is_initializer = is_bound && str_eq(stmt.name.as_str(), "init");
        let fn_ctx = match bind_this {
            Some(object) => {
                let child = env.new_frame(ctx);
                env.define(child, "this", object);
                proof {
                    assert(final(env)@ =~~= bind_this_env(old(env)@, ctx as int, object@));
                }
                child
            },
            None => ctx,
        };
        let mut parameters: Vec<String> = Vec::new();
        let mut k: usize = 0;
        while k < stmt.parameters.len()
            invariant
                k <= stmt.parameters@.len(),
                parameters@.len() == k,
                forall|i: int| 0 <= i < k ==> parameters@[i]@ == stmt.parameters@[i]@.name,
            decreases stmt.parameters@.len() - k,
        {
            parameters.push(stmt.parameters[k].name.clone());
            k = k + 1;
        }
        let r = LoxFunction {
            name: stmt.name.clone(),
            parameters,
            statements: share_body(&stmt.statements),
            is_initializer,
            ctx: fn_ctx,
        };
        proof {
            assert(names_view(r.parameters@) =~= fs_params(
                crate::ast::params_view(stmt.parameters@),
            ));
            assert(r@ =~~= (match bind_this {
                None => fs_function(function_view(*stmt), ctx as int, false),
                Some(v) => fs_function(
                    function_view(*stmt),
                    old(env)@.len() as int,
                    stmt.name@ == "init"@,
                ),
            }));
        }
        r
    }
}

impl Interpreter {
    /// Looks a method up through a class and its ancestors and binds it to
    /// the receiver: a fresh function object whose captured frame defines
    /// `this`.
    fn get_method(&mut self, cidx: usize, name: &str, this: LoxType, line: u32) -> (r: Result<
        usize,
        ErrorDetail,
    >)
        requires
            wf_machine(old(self)@),
        ensures
            wf_machine(final(self)@),
            m_extends(final(self)@, old(self)@),
            match get_method_spec(old(self)@, cidx as int, name@, this@) {
                Some((m2, fidx)) => r matches Ok(j) && j == fidx && final(self)@ == m2,
                None => r matches Err(d) && d@ == fault(line, undefined_prop_msg(name@))
                    && final(self)@ == old(self)@,
            },
        decreases cidx,
    {
        proof {
            lemma_wf_get_method(old(self)@, cidx as int, name@, this@);
        }
        if cidx >= self.classes.len() {
            let mut msg = String::from_str("Undefined property '");
            msg.append(name);
            msg.append("'.");
            proof {
                assert(msg@ =~= undefined_prop_msg(name@));
            }
            return Err(ErrorDetail::from_string(line, msg));
        }
        let methods = share_methods(&self.classes[cidx].methods);
        let class_ctx = self.classes[cidx].ctx;
        match find_method_index(&methods, name) {
            Some(j) => {
                let f = LoxFunction::from_statement(
                    &methods[j],
                    class_ctx,
                    Some(this),
                    &mut self.env,
                );
                let fidx = self.callables.len();
                self.callables.push(LoxCallable::Function(f));
                proof {
                    assert(final(self)@.callables =~= old(self)@.callables.push(
                        final(self).callables@.last()@,
                    ));
                    let spec = get_method_spec(old(self)@, cidx as int, name@, this@);
                    assert(final(self)@ =~~= spec.unwrap().0);
                }
                Ok(fidx)
            },
            None => {
                let sup = self.classes[cidx].maybe_superclass;
                match sup {
                    Some(s) => {
                        if s < cidx {
                            self.get_method(s, name, this, line)
                        } else {
                            let mut msg = String::from_str("Undefined property '");
                            msg.append(name);
                            msg.append("'.");
                            proof {
                                assert(msg@ =~= undefined_prop_msg(name@));
                            }
                            Err(ErrorDetail::from_string(line, msg))
                        }
                    },
                    None => {
                        let mut msg = String::from_str("Undefined property '");
                        msg.append(name);
                        msg.append("'.");
                        proof {
                            assert(msg@ =~= undefined_prop_msg(name@));
                        }
                        Err(ErrorDetail::from_string(line, msg))
                    },
                }
            },
        }
    }
}

} // verus!

verus! {

/// The images of a value list.
pub open spec fn values_view(vs: Seq<LoxType>) -> Seq<LoxTypeView> {
    vs.map_values(|v: LoxType| v@)
}

/// The image of an argument-list outcome.
pub open spec fn args_out(r: Result<Vec<LoxType>, Stop>) -> ArgsOut {
    match r {
        Ok(vs) => ArgsOut::Vals(values_view(vs@)),
        Err(Stop::Fault(d)) => ArgsOut::Fault(d@),
        Err(Stop::Spent) => ArgsOut::Spent,
    }
}

/// The fault for an unresolvable name.
fn undefined_variable_error(line: u32, name: &str) -> (r: ErrorDetail)
    ensures
        r@ == fault(line, undefined_var_msg(name@)),
{
    let mut msg = String::from_str("Undefined variable '");
    msg.append(name);
    msg.append("'.");
    proof {
        assert(msg@ =~= undefined_var_msg(name@));
    }
    ErrorDetail::from_string(line, msg)
}

/// The fault for a call with the wrong number of arguments.
fn arity_error(line: u32, expected: usize, got: usize) -> (r: ErrorDetail)
    ensures
        r@ == fault(line, arity_msg(expected as nat, got as nat)),
{
    let mut msg = String::from_str("Expected ");
    let e = usize_to_string(expected);
    msg.append(e.as_str());
    msg.append(" arguments but got ");
    let g = usize_to_string(got);
    msg.append(g.as_str());
    msg.append(".");
    proof {
        assert(msg@ =~= arity_msg(expected as nat, got as nat));
    }
    ErrorDetail::from_string(line, msg)
}

/// One binary operator applied to two values.
fn apply_binary(
    op: crate::ast::BinaryOperator,
    left: LoxType,
    right: LoxType,
    line: u32,
) -> (r: Result<LoxType, Stop>)
    ensures
        eval_out(r) == binary_op_spec(op, left@, right@, line),
{
    match op {
        crate::ast::BinaryOperator::Add => match (left, right) {
            (LoxType::Number(a), LoxType::Number(b)) => Ok(
                LoxType::Number(crate::number::num_add(a, b)),
            ),
            (LoxType::String(a), LoxType::String(b)) => Ok(
                LoxType::String(a.concat(b.as_str())),
            ),
            _ => Err(Stop::Fault(ErrorDetail::new(line, "Incompatible operands."))),
        },
        crate::ast::BinaryOperator::Substract => match (left, right) {
            (LoxType::Number(a), LoxType::Number(b)) => Ok(
                LoxType::Number(crate::number::num_sub(a, b)),
            ),
            _ => Err(Stop::Fault(ErrorDetail::new(line, "Incompatible operands."))),
        },
        crate::ast::BinaryOperator::Multiply => match (left, right) {
            (LoxType::Number(a), LoxType::Number(b)) => Ok(
                LoxType::Number(crate::number::num_mul(a, b)),
            ),
            _ => Err(Stop::Fault(ErrorDetail::new(line, "Incompatible operands."))),
        },
        crate::ast::BinaryOperator::Divide => match (left, right) {
            (LoxType::Number(a), LoxType::Number(b)) => Ok(
                LoxType::Number(crate::number::num_div(a, b)),
            ),
            _ => Err(Stop::Fault(ErrorDetail::new(line, "Incompatible operands."))),
        },
        crate::ast::BinaryOperator::Equal => {
            let eq = left.equals(&right);
            Ok(LoxType::Boolean(eq))
        },
        crate::ast::BinaryOperator::NotEqual => {
            let eq = left.equals(&right);
            Ok(LoxType::Boolean(!eq))
        },
        crate::ast::BinaryOperator::Less => match (left, right) {
            (LoxType::Number(a), LoxType::Number(b)) => Ok(
                LoxType::Boolean(crate::number::num_lt(a, b)),
            ),
            _ => Err(Stop::Fault(ErrorDetail::new(line, "Incompatible operands."))),
        },
        crate::ast::BinaryOperator::LessOrEqual => match (left, right) {
            (LoxType::Number(a), LoxType::Number(b)) => Ok(
                LoxType::Boolean(crate::number::num_le(a, b)),
            ),
            _ => Err(Stop::Fault(ErrorDetail::new(line, "Incompatible operands."))),
        },
        crate::ast::BinaryOperator::Greater => match (left, right) {
            (LoxType::Number(a), LoxType::Number(b)) => Ok(
                LoxType::Boolean(crate::number::num_gt(a, b)),
            ),
            _ => Err(Stop::Fault(ErrorDetail::new(line, "Incompatible operands."))),
        },
        crate::ast::BinaryOperator::GreaterOrEqual => match (left, right) {
            (LoxType::Number(a), LoxType::Number(b)) => Ok(
                LoxType::Boolean(crate::number::num_ge(a, b)),
            ),
            _ => Err(Stop::Fault(ErrorDetail::new(line, "Incompatible operands."))),
        },
    }
}

impl Interpreter {
    /// Overwrites one field of an instance.
    fn set_field(&mut self, i: usize, name: &str, value: LoxType)
        requires
            wf_machine(old(self)@),
            i < old(self)@.instances.len(),
        ensures
            wf_machine(final(self)@),
            final(self)@ == (MachineV {
                instances: old(self)@.instances.update(
                    i as int,
                    InstanceV {
                        class: old(self)@.instances[i as int].class,
                        fields: old(self)@.instances[i as int].fields.insert(name@, value@),
                    },
                ),
                ..old(self)@
            }),
    {
        let mut taken = LoxInstance { class: 0, fields: Vec::new() };
        self.instances.set_and_swap(i, &mut taken);
        taken.fields.push((String::from_str(name), value));
        self.instances.set_and_swap(i, &mut taken);
        proof {
            assert(final(self).instances@[i as int].fields@.drop_last() =~= old(
                self,
            ).instances@[i as int].fields@);
            assert(final(self)@ =~~= (MachineV {
                instances: old(self)@.instances.update(
                    i as int,
                    InstanceV {
                        class: old(self)@.instances[i as int].class,
                        fields: old(self)@.instances[i as int].fields.insert(name@, value@),
                    },
                ),
                ..old(self)@
            }));
        }
    }

    /// Evaluates one expression in frame `env`.
    pub fn eval_expr(&mut self, e: &Expr, env: usize, fuel: u64) -> (r: Result<LoxType, Stop>)
        requires
            wf_machine(old(self)@),
            env < old(self)@.env.len(),
        ensures
            wf_machine(final(self)@),
            m_extends(final(self)@, old(self)@),
            final(self)@ == eval_expr_spec(
                old(self)@,
                expr_view(*e),
                env as int,
                fuel as nat,
            ).0,
            eval_out(r) == eval_expr_spec(old(self)@, expr_view(*e), env as int, fuel as nat).1,
        decreases fuel, 1nat, *e,
    {
        proof {
            lemma_wf_eval_expr(old(self)@, expr_view(*e), env as int, fuel as nat);
        }
        match e {
            Expr::Nil(_) => Ok(LoxType::Nil),
            Expr::Literal(l) => Ok(l.0.dup()),
            Expr::Neg(n) => {
                let v = self.eval_expr(&n.expression, env, fuel)?;
                match v {
                    LoxType::Number(b) => Ok(LoxType::Number(crate::number::num_neg(b))),
                    _ => Err(Stop::Fault(ErrorDetail::new(n.line, "Operand must be a number."))),
                }
            },
            Expr::Not(n) => {
                let v = self.eval_expr(&n.0, env, fuel)?;
                let t = v.is_truthy();
                Ok(LoxType::Boolean(!t))
            },
            Expr::Grouping(g) => self.eval_expr(&g.0, env, fuel),
            Expr::Binary(b) => {
                let left = self.eval_expr(&b.left, env, fuel)?;
                let right = self.eval_expr(&b.right, env, fuel)?;
                apply_binary(b.operator, left, right, b.line)
            },
            Expr::Variable(v) => {
                let looked = match v.maybe_distance {
                    Some(d) => self.env.get_at(env, d, v.name.as_str()),
                    None => self.env.get_at(0, 0, v.name.as_str()),
                };
                match looked {
                    Ok(value) => Ok(value),
                    Err(_) => Err(Stop::Fault(undefined_variable_error(v.line, v.name.as_str()))),
                }
            },
            Expr::Assign(a) => {
                let value = self.eval_expr(&a.value, env, fuel)?;
                let stored = match a.maybe_distance {
                    Some(d) => self.env.assign_at(env, d, a.name.as_str(), value.dup()),
                    None => self.env.assign_at(0, 0, a.name.as_str(), value.dup()),
                };
                match stored {
                    Ok(()) => Ok(value),
                    Err(_) => Err(Stop::Fault(undefined_variable_error(a.line, a.name.as_str()))),
                }
            },
            Expr::Logical(l) => {
                let left = self.eval_expr(&l.left, env, fuel)?;
                let take_left = match l.operator {
                    crate::ast::LogicalOperator::And => !left.is_truthy(),
                    crate::ast::LogicalOperator::Or => left.is_truthy(),
                };
                if take_left {
                    Ok(left)
                } else {
                    self.eval_expr(&l.right, env, fuel)
                }
            },
            Expr::Call(c) => {
                let callee = self.eval_expr(&c.callee, env, fuel)?;
                let args = self.eval_args(&c.arguments, env, fuel)?;
                self.call_value(callee, args, c.line, fuel)
            },
            Expr::Get(g) => {
                let object = self.eval_expr(&g.object, env, fuel)?;
                match object {
                    LoxType::Instance(i) => {
                        if i < self.instances.len() {
                            match crate::env::find_value(
                                &self.instances[i].fields,
                                g.name.as_str(),
                            ) {
                                Some(v) => Ok(v),
                                None => {
                                    let cls = self.instances[i].class;
                                    match self.get_method(
                                        cls,
                                        g.name.as_str(),
                                        LoxType::Instance(i),
                                        g.line,
                                    ) {
                                        Ok(fidx) => Ok(LoxType::Callable(fidx)),
                                        Err(d) => Err(Stop::Fault(d)),
                                    }
                                },
                            }
                        } else {
                            Err(
                                Stop::Fault(
                                    ErrorDetail::new(g.line, "Only instances have properties."),
                                ),
                            )
                        }
                    },
                    _ => Err(
                        Stop::Fault(ErrorDetail::new(g.line, "Only instances have properties.")),
                    ),
                }
            },
            Expr::SetProp(s) => {
                let object = self.eval_expr(&s.object, env, fuel)?;
                match object {
                    LoxType::Instance(i) => {
                        if i < self.instances.len() {
                            let value = self.eval_expr(&s.value, env, fuel)?;
                            self.set_field(i, s.name.as_str(), value.dup());
                            Ok(value)
                        } else {
                            Err(
                                Stop::Fault(
                                    ErrorDetail::new(s.line, "Only instances have fields."),
                                ),
                            )
                        }
                    },
                    _ => Err(Stop::Fault(ErrorDetail::new(s.line, "Only instances have fields."))),
                }
            },
            Expr::This(t) => {
                let looked = match t.maybe_distance {
                    Some(d) => self.env.get_at(env, d, "this"),
                    None => self.env.get_at(0, 0, "this"),
                };
                match looked {
                    Ok(value) => Ok(value),
                    Err(_) => Err(Stop::Fault(undefined_variable_error(t.line, "this"))),
                }
            },
            Expr::Super(s) => {
                match s.maybe_distance {
                    Some(d) => {
                        if d >= 1 {
                            match self.env.get_at(env, d, "super") {
                                Ok(LoxType::Class(c)) => {
                                    match self.env.get_at(env, d - 1, "this") {
                                        Ok(thisv) => {
                                            match self.get_method(
                                                c,
                                                s.method.as_str(),
                                                thisv,
                                                s.line,
                                            ) {
                                                Ok(fidx) => Ok(LoxType::Callable(fidx)),
                                                Err(det) => Err(Stop::Fault(det)),
                                            }
                                        },
                                        Err(_) => Err(
                                            Stop::Fault(undefined_variable_error(s.line, "this")),
                                        ),
                                    }
                                },
                                Ok(_) => Err(
                                    Stop::Fault(
                                        ErrorDetail::new(s.line, "Superclass is not a class."),
                                    ),
                                ),
                                Err(_) => Err(
                                    Stop::Fault(undefined_variable_error(s.line, "super")),
                                ),
                            }
                        } else {
                            Err(Stop::Fault(undefined_variable_error(s.line, "super")))
                        }
                    },
                    None => Err(Stop::Fault(undefined_variable_error(s.line, "super"))),
                }
            },
        }
    }

    /// Evaluates an argument list left to right.
    pub fn eval_args(&mut self, es: &Vec<Expr>, env: usize, fuel: u64) -> (r: Result<
        Vec<LoxType>,
        Stop,
    >)
        requires
            wf_machine(old(self)@),
            env < old(self)@.env.len(),
        ensures
            wf_machine(final(self)@),
            m_extends(final(self)@, old(self)@),
            final(self)@ == eval_exprs_spec(
                old(self)@,
                crate::ast::exprs_view(es@),
                env as int,
                fuel as nat,
            ).0,
            args_out(r) == eval_exprs_spec(
                old(self)@,
                crate::ast::exprs_view(es@),
                env as int,
                fuel as nat,
            ).1,
        decreases fuel, 1nat, es@,
    {
        proof {
            lemma_wf_eval_exprs(old(self)@, crate::ast::exprs_view(es@), env as int, fuel as nat);
        }
        let mut out: Vec<LoxType> = Vec::new();
        let mut k: usize = 0;
        let ghost evs = crate::ast::exprs_view(es@);
        let ghost total = eval_exprs_spec(old(self)@, evs, env as int, fuel as nat);
        proof {
            crate::ast::lemma_exprs_view_len(es@);
            assert(evs.subrange(0, evs.len() as int) =~= evs);
            assert(values_view(out@) =~= Seq::<LoxTypeView>::empty());
        }
        while k < es.len()
            invariant
                wf_machine(self@),
                m_extends(self@, old(self)@),
                env < self@.env.len(),
                k <= es@.len(),
                evs == crate::ast::exprs_view(es@),
                evs.len() == es@.len(),
                fuel == fuel,
                total == eval_exprs_spec(old(self)@, evs, env as int, fuel as nat),
                total.0 == ({
                    let (mf, _) = eval_exprs_spec(
                        self@,
                        evs.subrange(k as int, evs.len() as int),
                        env as int,
                        fuel as nat,
                    );
                    mf
                }),
                total.1 == ({
                    let (_, of) = eval_exprs_spec(
                        self@,
                        evs.subrange(k as int, evs.len() as int),
                        env as int,
                        fuel as nat,
                    );
                    match of {
                        ArgsOut::Vals(rest) => ArgsOut::Vals(values_view(out@) + rest),
                        _ => of,
                    }
                }),
            decreases es@.len() - k,
        {
            proof {
                crate::ast::lemma_exprs_view_index(es@, k as int);
                assert(evs.subrange(k as int, evs.len() as int)[0] == evs[k as int]);
                assert(evs.subrange(k as int, evs.len() as int).subrange(
                    1,
                    (evs.len() - k) as int,
                ) =~= evs.subrange(k + 1, evs.len() as int));
                lemma_wf_eval_exprs(
                    self@,
                    evs.subrange(k as int, evs.len() as int),
                    env as int,
                    fuel as nat,
                );
            }
            let ghost pre_out = out@;
            match self.eval_expr(&es[k], env, fuel) {
                Ok(v) => {
                    out.push(v);
                    proof {
                        assert(values_view(out@) =~= values_view(pre_out) + seq![
                            out@.last()@,
                        ]);
                        assert(total.1 == ({
                            let (_, of) = eval_exprs_spec(
                                self@,
                                evs.subrange(k + 1, evs.len() as int),
                                env as int,
                                fuel as nat,
                            );
                            match of {
                                ArgsOut::Vals(rest) => ArgsOut::Vals(
                                    values_view(out@) + rest,
                                ),
                                _ => of,
                            }
                        }));
                    }
                },
                Err(stop) => {
                    return Err(stop);
                },
            }
            k = k + 1;
        }
        proof {
            assert(evs.subrange(evs.len() as int, evs.len() as int) =~= Seq::<ExprView>::empty());
            assert(values_view(out@) + Seq::<LoxTypeView>::empty() =~= values_view(out@));
        }
        Ok(out)
    }

    /// Calls a value with evaluated arguments.
    pub fn call_value(&mut self, callee: LoxType, args: Vec<LoxType>, line: u32, fuel: u64) -> (r:
        Result<LoxType, Stop>)
        requires
            wf_machine(old(self)@),
        ensures
            wf_machine(final(self)@),
            m_extends(final(self)@, old(self)@),
            final(self)@ == call_value_spec(
                old(self)@,
                callee@,
                values_view(args@),
                line,
                fuel as nat,
            ).0,
            eval_out(r) == call_value_spec(
                old(self)@,
                callee@,
                values_view(args@),
                line,
                fuel as nat,
            ).1,
        decreases fuel, 0nat, args@,
    {
        proof {
            lemma_wf_call_value(old(self)@, callee@, values_view(args@), line, fuel as nat);
        }
        match callee {
            LoxType::Callable(i) => {
                if i < self.callables.len() {
                    let arity: usize = match &self.callables[i] {
                        LoxCallable::Native(c) => c.arity(),
                        LoxCallable::Function(f) => f.parameters.len(),
                    };
                    if arity != args.len() {
                        proof {
                            assert(values_view(args@).len() == args@.len());
                        }
                        Err(Stop::Fault(arity_error(line, arity, args.len())))
                    } else {
                        let is_native = match &self.callables[i] {
                            LoxCallable::Native(_) => true,
                            LoxCallable::Function(_) => false,
                        };
                        if is_native {
                            Ok(LoxType::Number(crate::number::integer_to_bits(self.clock_now)))
                        } else if fuel == 0 {
                            Err(Stop::Spent)
                        } else {
                            let (name, parameters, statements, is_initializer, ctx) = match &self
                                .callables[i] {
                                LoxCallable::Function(f) => (
                                    f.name.clone(),
                                    dup_names(&f.parameters),
                                    share_body(&f.statements),
                                    f.is_initializer,
                                    f.ctx,
                                ),
                                LoxCallable::Native(_) => (
                                    String::new(),
                                    Vec::new(),
                                    Rc::new(Vec::new()),
                                    false,
                                    0,
                                ),
                            };
                            self.call_function(
                                name,
                                parameters,
                                statements,
                                is_initializer,
                                ctx,
                                args,
                                line,
                                fuel - 1,
                            )
                        }
                    }
                } else {
                    Err(
                        Stop::Fault(
                            ErrorDetail::new(line, "Can only call functions and classes."),
                        ),
                    )
                }
            },
            LoxType::Class(c) => {
                if c < self.classes.len() {
                    if fuel == 0 {
                        Err(Stop::Spent)
                    } else {
                        self.instantiate(c, args, line, fuel - 1)
                    }
                } else {
                    Err(
                        Stop::Fault(
                            ErrorDetail::new(line, "Can only call functions and classes."),
                        ),
                    )
                }
            },
            _ => Err(Stop::Fault(ErrorDetail::new(line, "Can only call functions and classes."))),
        }
    }

    /// Runs a function body in a fresh child of its captured frame, the
    /// parameters bound positionally to the arguments.
    #[verifier::rlimit(100)]
    #[verifier::spinoff_prover]
    pub fn call_function(
        &mut self,
        name: String,
        parameters: Vec<String>,
        statements: Rc<Vec<Stmt>>,
        is_initializer: bool,
        ctx: usize,
        args: Vec<LoxType>,
        line: u32,
        fuel: u64,
    ) -> (r: Result<LoxType, Stop>)
        requires
            wf_machine(old(self)@),
            ctx < old(self)@.env.len(),
            parameters@.len() == args@.len(),
        ensures
            wf_machine(final(self)@),
            m_extends(final(self)@, old(self)@),
            final(self)@ == call_function_spec(
                old(self)@,
                FunctionV {
                    name: name@,
                    parameters: names_view(parameters@),
                    statements: stmts_view(statements@),
                    is_initializer,
                    ctx: ctx as int,
                },
                values_view(args@),
                line,
                fuel as nat,
            ).0,
            eval_out(r) == call_function_spec(
                old(self)@,
                FunctionV {
                    name: name@,
                    parameters: names_view(parameters@),
                    statements: stmts_view(statements@),
                    is_initializer,
                    ctx: ctx as int,
                },
                values_view(args@),
                line,
                fuel as nat,
            ).1,
        decreases fuel, 4nat, args@,
    {
        let ghost fv = FunctionV {
            name: name@,
            parameters: names_view(parameters@),
            statements: stmts_view(statements@),
            is_initializer,
            ctx: ctx as int,
        };
        proof {
            lemma_wf_call_function(old(self)@, fv, values_view(args@), line, fuel as nat);
        }
        let frame = self.env.new_frame(ctx);
        let ghost env1 = self.env@;
        let ghost pnames = names_view(parameters@);
        let ghost avals = values_view(args@);
        let mut k: usize = 0;
        proof {
            assert(pnames.subrange(0, pnames.len() as int) =~= pnames);
            assert(avals.subrange(0, avals.len() as int) =~= avals);
        }
        while k < parameters.len()
            invariant
                k <= parameters@.len(),
                parameters@.len() == args@.len(),
                pnames == names_view(parameters@),
                avals == values_view(args@),
                pnames.len() == parameters@.len(),
                avals.len() == args@.len(),
                frame < self.env@.len(),
                self.env@.len() == env1.len(),
                wf_machine(self@),
                self@.callables == old(self)@.callables,
                self@.classes == old(self)@.classes,
                self@.instances == old(self)@.instances,
                self@.output == old(self)@.output,
                self@.clock_now == old(self)@.clock_now,
                define_args(env1, frame as int, pnames, avals) == define_args(
                    self.env@,
                    frame as int,
                    pnames.subrange(k as int, pnames.len() as int),
                    avals.subrange(k as int, avals.len() as int),
                ),
            decreases parameters@.len() - k,
        {
            proof {
                assert(pnames.subrange(k as int, pnames.len() as int)[0] == pnames[k as int]);
                assert(avals.subrange(k as int, avals.len() as int)[0] == avals[k as int]);
                assert(pnames.subrange(k as int, pnames.len() as int).subrange(
                    1,
                    (pnames.len() - k) as int,
                ) =~= pnames.subrange(k + 1, pnames.len() as int));
                assert(avals.subrange(k as int, avals.len() as int).subrange(
                    1,
                    (avals.len() - k) as int,
                ) =~= avals.subrange(k + 1, avals.len() as int));
            }
            self.env.define(frame, parameters[k].as_str(), args[k].dup());
            k = k + 1;
        }
        proof {
            assert(pnames.subrange(pnames.len() as int, pnames.len() as int) =~= Seq::<
                Seq<char>,
            >::empty());
            assert(define_args(
                self.env@,
                frame as int,
                Seq::<Seq<char>>::empty(),
                avals.subrange(pnames.len() as int, avals.len() as int),
            ) == self.env@);
        }
        let out = self.exec_stmts(&statements, frame, fuel);
        match out {
            Err(Stop::Fault(d)) => Err(Stop::Fault(d)),
            Err(Stop::Spent) => Err(Stop::Spent),
            Ok(block_res) => {
                if is_initializer {
                    match self.env.get_at(ctx, 0, "this") {
                        Ok(v) => Ok(v),
                        Err(_) => Err(Stop::Fault(undefined_variable_error(line, "this"))),
                    }
                } else {
                    match block_res {
                        StatementResult::Return(v) => Ok(v),
                        StatementResult::Void => Ok(LoxType::Nil),
                    }
                }
            },
        }
    }

    /// Instantiates a class: a fresh instance, `init` bound and run when
    /// it exists.
    #[verifier::rlimit(100)]
    #[verifier::spinoff_prover]
    pub fn instantiate(&mut self, cidx: usize, args: Vec<LoxType>, line: u32, fuel: u64) -> (r:
        Result<LoxType, Stop>)
        requires
            wf_machine(old(self)@),
            cidx < old(self)@.classes.len(),
        ensures
            wf_machine(final(self)@),
            m_extends(final(self)@, old(self)@),
            final(self)@ == instantiate_spec(
                old(self)@,
                cidx as int,
                values_view(args@),
                line,
                fuel as nat,
            ).0,
            eval_out(r) == instantiate_spec(
                old(self)@,
                cidx as int,
                values_view(args@),
                line,
                fuel as nat,
            ).1,
        decreases fuel, 5nat, args@,
    {
        proof {
            lemma_wf_instantiate(old(self)@, cidx as int, values_view(args@), line, fuel as nat);
        }
        let iidx = self.instances.len();
        self.instances.push(LoxInstance { class: cidx, fields: Vec::new() });
        proof {
            assert(vars_map(Seq::<(String, LoxType)>::empty()) =~= Map::<
                Seq<char>,
                LoxTypeView,
            >::empty());
            assert(self@.instances =~= old(self)@.instances.push(
                InstanceV { class: cidx as int, fields: Map::<Seq<char>, LoxTypeView>::empty() },
            ));
            assert(self@ =~~= (MachineV {
                instances: old(self)@.instances.push(
                    InstanceV {
                        class: cidx as int,
                        fields: Map::<Seq<char>, LoxTypeView>::empty(),
                    },
                ),
                ..old(self)@
            }));
        }
        let ghost m_before = self@;
        match self.get_method(cidx, "init", LoxType::Instance(iidx), line) {
            Ok(fidx) => {
                proof {
                    lemma_wf_get_method(
                        m_before,
                        cidx as int,
                        "init"@,
                        LoxTypeView::Instance(iidx as int),
                    );
                    assert(fidx < self@.callables.len());
                }
                let (name, parameters, statements, is_initializer, ctx) = match &self.callables[
                    fidx
                ] {
                    LoxCallable::Function(f) => (
                        f.name.clone(),
                        dup_names(&f.parameters),
                        share_body(&f.statements),
                        f.is_initializer,
                        f.ctx,
                    ),
                    LoxCallable::Native(_) => (
                        String::new(),
                        Vec::new(),
                        Rc::new(Vec::new()),
                        false,
                        0,
                    ),
                };
                let is_function = match &self.callables[fidx] {
                    LoxCallable::Function(_) => true,
                    LoxCallable::Native(_) => false,
                };
                if is_function {
                    if parameters.len() != args.len() {
                        Err(Stop::Fault(arity_error(line, parameters.len(), args.len())))
                    } else {
                        match self.call_function(
                            name,
                            parameters,
                            statements,
                            is_initializer,
                            ctx,
                            args,
                            line,
                            fuel,
                        ) {
                            Ok(_) => Ok(LoxType::Instance(iidx)),
                            Err(stop) => Err(stop),
                        }
                    }
                } else {
                    Ok(LoxType::Instance(iidx))
                }
            },
            Err(_) => {
                if args.len() != 0 {
                    Err(Stop::Fault(arity_error(line, 0, args.len())))
                } else {
                    Ok(LoxType::Instance(iidx))
                }
            },
        }
    }

    /// Executes one statement in frame `env`.
    pub fn exec_stmt(&mut self, s: &Stmt, env: usize, fuel: u64) -> (r: Result<
        StatementResult,
        Stop,
    >)
        requires
            wf_machine(old(self)@),
            env < old(self)@.env.len(),
        ensures
            wf_machine(final(self)@),
            m_extends(final(self)@, old(self)@),
            final(self)@ == exec_stmt_spec(
                old(self)@,
                crate::ast::stmt_view(*s),
                env as int,
                fuel as nat,
            ).0,
            stmt_out(r) == exec_stmt_spec(
                old(self)@,
                crate::ast::stmt_view(*s),
                env as int,
                fuel as nat,
            ).1,
        decreases fuel, 3nat, *s,
    {
        proof {
            lemma_wf_exec_stmt(old(self)@, crate::ast::stmt_view(*s), env as int, fuel as nat);
        }
        match s {
            Stmt::Print(p) => {
                match self.eval_expr(&p.expression, env, fuel) {
                    Ok(v) => {
                        let shown = self.display_value(&v);
                        self.output.append(shown.as_str());
                        self.output.append("\n");
                        proof {
                            let (m1, _) = eval_expr_spec(
                                old(self)@,
                                crate::ast::expr_view(*p.expression),
                                env as int,
                                fuel as nat,
                            );
                            assert(self@ =~~= (MachineV {
                                output: m1.output + display_of(m1, v@) + "\n"@,
                                ..m1
                            }));
                        }
                        Ok(StatementResult::Void)
                    },
                    Err(stop) => Err(stop),
                }
            },
            Stmt::Expression(e) => {
                match self.eval_expr(&e.0, env, fuel) {
                    Ok(_) => Ok(StatementResult::Void),
                    Err(stop) => Err(stop),
                }
            },
            Stmt::Var(v) => {
                let value = match &v.initializer {
                    Some(e) => {
                        match self.eval_expr(e, env, fuel) {
                            Ok(val) => val,
                            Err(stop) => {
                                return Err(stop);
                            },
                        }
                    },
                    None => LoxType::Nil,
                };
                self.env.define(env, v.name.as_str(), value);
                Ok(StatementResult::Void)
            },
            Stmt::Block(b) => {
                let frame = self.env.new_frame(env);
                self.exec_stmts(&b.statements, frame, fuel)
            },
            Stmt::If(i) => {
                let cond = match self.eval_expr(&i.condition, env, fuel) {
                    Ok(val) => val,
                    Err(stop) => {
                        return Err(stop);
                    },
                };
                if cond.is_truthy() {
                    self.exec_stmt(&i.then_branch, env, fuel)
                } else {
                    match &i.else_branch {
                        Some(e) => self.exec_stmt(e, env, fuel),
                        None => Ok(StatementResult::Void),
                    }
                }
            },
            Stmt::While(w) => {
                let cond = match self.eval_expr(&w.condition, env, fuel) {
                    Ok(val) => val,
                    Err(stop) => {
                        return Err(stop);
                    },
                };
                if cond.is_truthy() {
                    match self.exec_stmt(&w.body, env, fuel) {
                        Ok(StatementResult::Void) => {
                            if fuel == 0 {
                                Err(Stop::Spent)
                            } else {
                                self.exec_stmt(s, env, fuel - 1)
                            }
                        },
                        Ok(StatementResult::Return(v)) => Ok(StatementResult::Return(v)),
                        Err(stop) => Err(stop),
                    }
                } else {
                    Ok(StatementResult::Void)
                }
            },
            Stmt::Function(f) => {
                let function = LoxFunction::from_statement(f, env, None, &mut self.env);
                let fidx = self.callables.len();
                self.callables.push(LoxCallable::Function(function));
                proof {
                    assert(self@.callables =~= old(self)@.callables.push(
                        self.callables@.last()@,
                    ));
                }
                self.env.define(env, f.name.as_str(), LoxType::Callable(fidx));
                Ok(StatementResult::Void)
            },
            Stmt::Return(ret) => {
                let value = match &ret.maybe_expression {
                    Some(e) => {
                        match self.eval_expr(e, env, fuel) {
                            Ok(val) => val,
                            Err(stop) => {
                                return Err(stop);
                            },
                        }
                    },
                    None => LoxType::Nil,
                };
                Ok(StatementResult::Return(value))
            },
            Stmt::Class(c) => {
                let supopt = match &c.maybe_superclass {
                    Some(sup) => {
                        let looked = match sup.maybe_distance {
                            Some(d) => self.env.get_at(env, d, sup.name.as_str()),
                            None => self.env.get_at(0, 0, sup.name.as_str()),
                        };
                        match looked {
                            Ok(LoxType::Class(ci)) => Some(ci),
                            Ok(_) => {
                                return Err(
                                    Stop::Fault(
                                        ErrorDetail::new(
                                            sup.line,
                                            "Superclass must be a class.",
                                        ),
                                    ),
                                );
                            },
                            Err(_) => {
                                return Err(
                                    Stop::Fault(
                                        undefined_variable_error(sup.line, sup.name.as_str()),
                                    ),
                                );
                            },
                        }
                    },
                    None => None,
                };
                self.env.define(env, c.name.as_str(), LoxType::Nil);
                let ctx = match supopt {
                    Some(ci) => {
                        let child = self.env.new_frame(env);
                        self.env.define(child, "super", LoxType::Class(ci));
                        child
                    },
                    None => env,
                };
                let cidx = self.classes.len();
                self.classes.push(
                    LoxClass {
                        name: c.name.clone(),
                        maybe_superclass: supopt,
                        methods: share_methods(&c.methods),
                        ctx,
                    },
                );
                proof {
                    assert(self@.classes =~= old(self)@.classes.push(self.classes@.last()@));
                }
                match self.env.assign_at(env, 0, c.name.as_str(), LoxType::Class(cidx)) {
                    Ok(()) => Ok(StatementResult::Void),
                    Err(_) => Err(
                        Stop::Fault(undefined_variable_error(c.line, c.name.as_str())),
                    ),
                }
            },
        }
    }

    /// Executes statements in order; `return` and faults stop the
    /// sequence.
    pub fn exec_stmts(&mut self, ss: &Vec<Stmt>, env: usize, fuel: u64) -> (r: Result<
        StatementResult,
        Stop,
    >)
        requires
            wf_machine(old(self)@),
            env < old(self)@.env.len(),
        ensures
            wf_machine(final(self)@),
            m_extends(final(self)@, old(self)@),
            final(self)@ == exec_stmts_spec(
                old(self)@,
                stmts_view(ss@),
                env as int,
                fuel as nat,
            ).0,
            stmt_out(r) == exec_stmts_spec(
                old(self)@,
                stmts_view(ss@),
                env as int,
                fuel as nat,
            ).1,
        decreases fuel, 3nat, ss@,
    {
        let ghost svs = stmts_view(ss@);
        let ghost total = exec_stmts_spec(old(self)@, svs, env as int, fuel as nat);
        let mut k: usize = 0;
        proof {
            crate::ast::lemma_stmts_view_len(ss@);
            assert(svs.subrange(0, svs.len() as int) =~= svs);
        }
        while k < ss.len()
            invariant
                wf_machine(self@),
                m_extends(self@, old(self)@),
                env < self@.env.len(),
                k <= ss@.len(),
                svs == stmts_view(ss@),
                svs.len() == ss@.len(),
                total == exec_stmts_spec(old(self)@, svs, env as int, fuel as nat),
                total == exec_stmts_spec(
                    self@,
                    svs.subrange(k as int, svs.len() as int),
                    env as int,
                    fuel as nat,
                ),
            decreases ss@.len() - k,
        {
            proof {
                crate::ast::lemma_stmts_view_index(ss@, k as int);
                assert(svs.subrange(k as int, svs.len() as int)[0] == svs[k as int]);
                assert(svs.subrange(k as int, svs.len() as int).subrange(
                    1,
                    (svs.len() - k) as int,
                ) =~= svs.subrange(k + 1, svs.len() as int));
            }
            match self.exec_stmt(&ss[k], env, fuel) {
                Ok(StatementResult::Void) => {},
                Ok(StatementResult::Return(v)) => {
                    return Ok(StatementResult::Return(v));
                },
                Err(stop) => {
                    return Err(stop);
                },
            }
            k = k + 1;
        }
        proof {
            assert(svs.subrange(svs.len() as int, svs.len() as int) =~= Seq::<StmtView>::empty());
        }
        Ok(StatementResult::Void)
    }
}

} // verus!

verus! {

impl Interpreter {
    /// A fresh machine: one globals frame holding the `clock` builtin and
    /// nothing else; the clock is sampled once.
    pub fn new() -> (r: Self)
        ensures
            wf_machine(r@),
            r@.env.len() == 1,
            r@.env[0].maybe_enclosing is None,
            r@.env[0].vars == Map::<Seq<char>, LoxTypeView>::empty().insert(
                "clock"@,
                LoxTypeView::Callable(0),
            ),
            r@.callables == seq![CallableV::Native],
            r@.classes.len() == 0,
            r@.instances.len() == 0,
            r@.output.len() == 0,
    {
        let mut env = Environment::new();
        env.define(0, "clock", LoxType::Callable(0));
        let mut callables: Vec<LoxCallable> = Vec::new();
        callables.push(LoxCallable::Native(Clock()));
        let r = Interpreter {
            env,
            callables,
            classes: Vec::new(),
            instances: Vec::new(),
            output: String::new(),
            clock_now: crate::native_fns::clock_seconds(),
        };
        proof {
            assert(r@.callables =~= seq![CallableV::Native]);
            assert(r@.classes =~= Seq::<ClassV>::empty());
            assert(r@.instances =~= Seq::<InstanceV>::empty());
        }
        r
    }

    /// Everything printed so far.
    pub fn get_output(&self) -> (r: String)
        ensures
            r@ == self@.output,
    {
        self.output.clone()
    }

    /// Sets the seconds the clock builtin reports.
    pub fn set_clock(&mut self, secs: u64)
        ensures
            final(self)@ == (MachineV { clock_now: secs, ..old(self)@ }),
    {
        self.clock_now = secs;
    }

    /// Samples the real clock for the clock builtin.
    pub fn refresh_clock(&mut self)
        ensures
            final(self)@ == (MachineV { clock_now: final(self)@.clock_now, ..old(self)@ }),
    {
        self.clock_now = crate::native_fns::clock_seconds();
    }

    /// Runs a program's top-level statements in the globals frame.
    pub fn run_statements(&mut self, statements: &Vec<Stmt>, fuel: u64) -> (r: Result<(), Stop>)
        requires
            wf_machine(old(self)@),
            old(self)@.env.len() >= 1,
        ensures
            wf_machine(final(self)@),
            final(self)@.env.len() >= 1,
            final(self)@ == run_stmts_spec(old(self)@, stmts_view(statements@), fuel as nat).0,
            match run_stmts_spec(old(self)@, stmts_view(statements@), fuel as nat).1 {
                StmtOut::Fault(d) => r matches Err(Stop::Fault(dd)) && dd@ == d,
                StmtOut::Spent => r matches Err(s) && s is Spent,
                _ => r is Ok,
            },
    {
        let ghost svs = stmts_view(statements@);
        let ghost total = run_stmts_spec(old(self)@, svs, fuel as nat);
        let mut k: usize = 0;
        proof {
            crate::ast::lemma_stmts_view_len(statements@);
            assert(svs.subrange(0, svs.len() as int) =~= svs);
        }
        while k < statements.len()
            invariant
                wf_machine(self@),
                self@.env.len() >= 1,
                k <= statements@.len(),
                svs == stmts_view(statements@),
                svs.len() == statements@.len(),
                total == run_stmts_spec(old(self)@, svs, fuel as nat),
                total == run_stmts_spec(
                    self@,
                    svs.subrange(k as int, svs.len() as int),
                    fuel as nat,
                ),
            decreases statements@.len() - k,
        {
            proof {
                crate::ast::lemma_stmts_view_index(statements@, k as int);
                assert(svs.subrange(k as int, svs.len() as int)[0] == svs[k as int]);
                assert(svs.subrange(k as int, svs.len() as int).subrange(
                    1,
                    (svs.len() - k) as int,
                ) =~= svs.subrange(k + 1, svs.len() as int));
            }
            match self.exec_stmt(&statements[k], 0, fuel) {
                Ok(_) => {},
                Err(stop) => {
                    return Err(stop);
                },
            }
            k = k + 1;
        }
        proof {
            assert(svs.subrange(svs.len() as int, svs.len() as int) =~= Seq::<StmtView>::empty());
        }
        Ok(())
    }
}

// ---- evaluation laws ----

/// In `f or g`, when `f` yields a truthy value, the whole expression
/// yields that value and `g` is not evaluated: the machine is exactly as
/// `f` left it.
pub proof fn lemma_or_short_circuit(m: MachineV, f: ExprView, g: ExprView, env: int, fuel: nat)
    requires
        eval_expr_spec(m, f, env, fuel).1 matches EvalOut::Val(v) && crate::loxtype::truthy(v),
    ensures
        eval_expr_spec(
            m,
            ExprView::Logical {
                left: Box::new(f),
                right: Box::new(g),
                operator: crate::ast::LogicalOperator::Or,
            },
            env,
            fuel,
        ) == eval_expr_spec(m, f, env, fuel),
{
}

/// In `f and g`, when `f` yields a falsey value, the whole expression
/// yields that value and `g` is not evaluated.
pub proof fn lemma_and_short_circuit(m: MachineV, f: ExprView, g: ExprView, env: int, fuel: nat)
    requires
        eval_expr_spec(m, f, env, fuel).1 matches EvalOut::Val(v) && !crate::loxtype::truthy(v),
    ensures
        eval_expr_spec(
            m,
            ExprView::Logical {
                left: Box::new(f),
                right: Box::new(g),
                operator: crate::ast::LogicalOperator::And,
            },
            env,
            fuel,
        ) == eval_expr_spec(m, f, env, fuel),
{
}

/// Calling a function object with the wrong number of arguments always
/// fails with the standard message and never runs the body: the machine
/// stays as argument evaluation left it.
pub proof fn lemma_arity_mismatch(
    m: MachineV,
    i: int,
    vs: Seq<LoxTypeView>,
    line: u32,
    fuel: nat,
)
    requires
        0 <= i < m.callables.len(),
        arity_of(m.callables[i]) != vs.len(),
    ensures
        call_value_spec(m, LoxTypeView::Callable(i), vs, line, fuel) == (
            m,
            EvalOut::Fault(fault(line, arity_msg(arity_of(m.callables[i]), vs.len()))),
        ),
{
}

/// A bound method's captured frame defines `this` as the receiver, and a
/// method named `init` is bound as an initializer.
pub proof fn lemma_bound_method_this(m: MachineV, cidx: int, name: Seq<char>, this: LoxTypeView)
    ensures
        match get_method_spec(m, cidx, name, this) {
            Some((m2, fidx)) => 0 <= fidx < m2.callables.len() && (m2.callables[fidx] matches
                CallableV::Function(f) && f.is_initializer == (name == "init"@) && env_get(
                m2.env,
                f.ctx,
                0,
                "this"@,
            ) == Some(this)),
            None => true,
        },
    decreases cidx,
{
    if 0 <= cidx < m.classes.len() {
        let cls = m.classes[cidx];
        match find_method(cls.methods, name) {
            Some(decl) => {
                lemma_find_method_name(cls.methods, name);
            },
            None => {
                match cls.maybe_superclass {
                    Some(s) => {
                        if 0 <= s < cidx {
                            lemma_bound_method_this(m, s, name, this);
                        }
                    },
                    None => {},
                }
            },
        }
    }
}

proof fn lemma_find_method_name(ms: Seq<FunctionStatementView>, name: Seq<char>)
    ensures
        match find_method(ms, name) {
            Some(d) => d.name == name,
            None => true,
        },
    decreases ms.len(),
{
    if ms.len() > 0 && ms.last().name != name {
        lemma_find_method_name(ms.drop_last(), name);
    }
}

/// Instantiation always yields the fresh instance itself whenever it
/// yields a value at all, whatever `init` did.
pub proof fn lemma_instantiate_returns_instance(
    m: MachineV,
    cidx: int,
    vs: Seq<LoxTypeView>,
    line: u32,
    fuel: nat,
)
    ensures
        match instantiate_spec(m, cidx, vs, line, fuel).1 {
            EvalOut::Val(v) => v == LoxTypeView::Instance(m.instances.len() as int),
            _ => true,
        },
{
}

/// A direct call of a bound initializer yields the `this` its captured
/// frame holds when the body finishes: calling `init` directly on an
/// instance hands that instance back.
pub proof fn lemma_initializer_returns_this(
    m: MachineV,
    f: FunctionV,
    vs: Seq<LoxTypeView>,
    line: u32,
    fuel: nat,
)
    requires
        f.is_initializer,
    ensures
        match call_function_spec(m, f, vs, line, fuel).1 {
            EvalOut::Val(v) => env_get(
                call_function_spec(m, f, vs, line, fuel).0.env,
                f.ctx,
                0,
                "this"@,
            ) == Some(v),
            _ => true,
        },
{
}

} // verus!

verus! {

impl Interpreter {
    /// The pipeline: scan, parse, resolve, then execute in order against
    /// this machine, its clock sampled once at entry. The first fault of
    /// any phase is returned; a fault before execution leaves the machine
    /// untouched, and execution is exactly `run_stmts_spec` of the
    /// resolved program for the sampled clock value.
    pub fn run(&mut self, source: &str) -> (r: Result<(), Error>)
        requires
            wf_machine(old(self)@),
            old(self)@.env.len() >= 1,
        ensures
            wf_machine(final(self)@),
            final(self)@.env.len() >= 1,
            ({
                let (toks, serrs) = crate::scanner::scan_spec(source@, 0, 1);
                let (stmts, perrs) = crate::parser::parse_spec(toks);
                let (rstmts, rerrs) = crate::resolver::resolve_program_spec(stmts);
                if serrs.len() > 0 {
                    (r matches Err(e) && e@ == crate::error::ErrorView::ScannerErrors(serrs))
                        && final(self)@ == old(self)@
                } else if perrs.len() > 0 {
                    (r matches Err(e) && e@ == crate::error::ErrorView::SyntaxErrors(perrs))
                        && final(self)@ == old(self)@
                } else if rerrs.len() > 0 {
                    (r matches Err(e) && e@ == crate::error::ErrorView::ResolverErrors(rerrs))
                        && final(self)@ == old(self)@
                } else {
                    exists|clk: u64|
                        final(self)@ == (#[trigger] run_stmts_spec(
                            with_clock(old(self)@, clk),
                            rstmts,
                            0xffff_ffff_ffff_ffff as nat,
                        )).0 && (match run_stmts_spec(
                            with_clock(old(self)@, clk),
                            rstmts,
                            0xffff_ffff_ffff_ffff as nat,
                        ).1 {
                                StmtOut::Fault(d) => r matches Err(e) && e@
                                    == crate::error::ErrorView::RuntimeError(d),
                                StmtOut::Spent => r matches Err(e) && e@
                                    == crate::error::ErrorView::RuntimeError(
                                    (
                                    ErrorDetailView {
                                        line: 0,
                                        message: "Execution budget exhausted."@,
                                    }
                                    ),
                                ),
                                _ => r is Ok,
                            })
                }
            }),
    {
        let ghost (toks, serrs) = crate::scanner::scan_spec(source@, 0, 1);
        let tokens = match crate::scanner::scan_tokens(source) {
            Ok(ts) => ts,
            Err(e) => {
                return Err(e);
            },
        };
        let ghost (stmts, perrs) = crate::parser::parse_spec(toks);
        if tokens.len() == 0 {
            proof {
                assert(crate::token::tokens_view(tokens@).len() == 0);
                assert(stmts =~= Seq::<crate::ast::StmtView>::empty());
                assert(perrs =~= Seq::<crate::error::ErrorDetailView>::empty());
                let (rstmts, rerrs) = crate::resolver::resolve_program_spec(stmts);
                assert(rstmts =~= Seq::<crate::ast::StmtView>::empty());
                assert(rerrs =~= Seq::<crate::error::ErrorDetailView>::empty());
                let started = with_clock(old(self)@, self@.clock_now);
                assert(started =~= old(self)@);
                assert(run_stmts_spec(started, rstmts, 0xffff_ffff_ffff_ffff as nat) == (
                    started,
                    StmtOut::Void,
                ));
            }
            return Ok(());
        }
        let parser = crate::parser::Parser::new(&tokens);
        proof {
            assert(parser@ =~= (crate::parser::ParserV {
                toks,
                end: toks.len() - 1,
                last_line: if toks.len() >= 2 {
                    toks[toks.len() - 2].line
                } else {
                    1u32
                },
                pos: 0,
                errors: Seq::<crate::error::ErrorDetailView>::empty(),
            }));
        }
        let statements = match parser.parse() {
            Ok(ss) => ss,
            Err(e) => {
                return Err(e);
            },
        };
        let resolved = match crate::resolver::resolve(statements) {
            Ok(ss) => ss,
            Err(e) => {
                return Err(e);
            },
        };
        self.refresh_clock();
        let ghost clk = self@.clock_now;
        let ghost started = self@;
        proof {
            assert(started =~= with_clock(old(self)@, clk));
        }
        match self.run_statements(&resolved, 0xffff_ffff_ffff_ffff) {
            Ok(()) => Ok(()),
            Err(Stop::Fault(d)) => Err(Error::RuntimeError(d)),
            Err(Stop::Spent) => {
                let d = ErrorDetail::new(0, "Execution budget exhausted.");
                proof {
                    assert(d@ =~= (ErrorDetailView {
                        line: 0,
                        message: "Execution budget exhausted."@,
                    }));
                }
                Err(Error::RuntimeError(d))
            },
        }
    }
}

} // verus!
