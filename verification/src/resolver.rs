//! The resolver: one static pass that fills every variable reference's
//! resolution slot with its lexical hop distance and enforces the scope
//! rules.
//!
//! `Scopes` is the resolver state: a stack of lexical scopes (each a map
//! from name to declaration state), a stack of enclosing function kinds, a
//! stack of enclosing class kinds, and the faults found so far.
//!
//! The `*_spec` functions define the pass mathematically over the view
//! syntax tree; the executable pass rebuilds the tree and is proved to
//! return exactly the specified one.

use vstd::prelude::*;
use vstd::pervasive::VecAdditionalExecFns;
use vstd::string::StringExecFns;
use crate::ast::BlockStatement;
use crate::ast::ClassStatement;
use crate::ast::Expr;
use crate::ast::ExprView;
use crate::ast::ExpressionStatement;
use crate::ast::FunctionStatement;
use crate::ast::FunctionStatementView;
use crate::ast::IfStatement;
use crate::ast::Parameter;
use crate::ast::ParameterView;
use crate::ast::PrintStatement;
use crate::ast::ReturnStatement;
use crate::ast::Stmt;
use crate::ast::StmtView;
use crate::ast::VarStatement;
use crate::ast::VariableExpressionView;
use crate::ast::WhileStatement;
use crate::ast::expr_view;
use crate::ast::exprs_view;
use crate::ast::function_view;
use crate::ast::functions_view;
use crate::ast::params_view;
use crate::ast::stmt_view;
use crate::ast::stmts_view;
use crate::error::Error;
use crate::error::ErrorDetail;
use crate::error::ErrorDetailView;
use crate::error::ErrorView;
use crate::error::details_view;
use crate::text::str_eq;

verus! {

/// What kind of function body is being resolved.
#[derive(Debug, Clone, Copy, PartialEq, Eq, Structural)]
pub enum FunctionType {
    Function,
    Initializer,
    Method,
}

/// What kind of class body is being resolved.
#[derive(Debug, Clone, Copy, PartialEq, Eq, Structural)]
pub enum ClassType {
    Class,
    Subclass,
}

/// A name in a scope is first declared, then defined; reading it while
/// merely declared is the self-initializer fault.
#[derive(Debug, Clone, Copy, PartialEq, Eq, Structural)]
pub enum VariableState {
    Declared,
    Defined,
}

/// Mathematical image of `Scopes`.
#[verifier::ext_equal]
pub struct ScopesView {
    pub scopes: Seq<Map<Seq<char>, VariableState>>,
    pub function_types: Seq<FunctionType>,
    pub class_types: Seq<ClassType>,
    pub errors: Seq<ErrorDetailView>,
}

/// The map of an association list of declaration states, later entries
/// shadowing earlier.
pub open spec fn scope_map(vs: Seq<(String, VariableState)>) -> Map<Seq<char>, VariableState>
    decreases vs.len(),
{
    if vs.len() == 0 {
        Map::<Seq<char>, VariableState>::empty()
    } else {
        scope_map(vs.drop_last()).insert(vs.last().0@, vs.last().1)
    }
}

/// The resolver state.
pub struct Scopes {
    scopes: Vec<Vec<(String, VariableState)>>,
    function_types: Vec<FunctionType>,
    class_types: Vec<ClassType>,
    errors: Vec<ErrorDetail>,
}

impl View for Scopes {
    type V = ScopesView;

    closed spec fn view(&self) -> ScopesView {
        ScopesView {
            scopes: self.scopes@.map_values(|v: Vec<(String, VariableState)>| scope_map(v@)),
            function_types: self.function_types@,
            class_types: self.class_types@,
            errors: details_view(self.errors@),
        }
    }
}

// ---- the pure scope operations ----

pub open spec fn sc_begin_scope(st: ScopesView) -> ScopesView {
    ScopesView { scopes: st.scopes.push(Map::empty()), ..st }
}

pub open spec fn sc_end_scope(st: ScopesView) -> ScopesView {
    if st.scopes.len() > 0 {
        ScopesView { scopes: st.scopes.drop_last(), ..st }
    } else {
        st
    }
}

pub open spec fn sc_begin_function(st: ScopesView, t: FunctionType) -> ScopesView {
    ScopesView { function_types: st.function_types.push(t), ..st }
}

pub open spec fn sc_end_function(st: ScopesView) -> ScopesView {
    if st.function_types.len() > 0 {
        ScopesView { function_types: st.function_types.drop_last(), ..st }
    } else {
        st
    }
}

pub open spec fn sc_begin_class(st: ScopesView, t: ClassType) -> ScopesView {
    ScopesView { class_types: st.class_types.push(t), ..st }
}

pub open spec fn sc_end_class(st: ScopesView) -> ScopesView {
    if st.class_types.len() > 0 {
        ScopesView { class_types: st.class_types.drop_last(), ..st }
    } else {
        st
    }
}

pub open spec fn sc_error(st: ScopesView, line: u32, message: Seq<char>) -> ScopesView {
    ScopesView { errors: st.errors.push(ErrorDetailView { line, message }), ..st }
}

/// Declares `name` in the innermost scope; a duplicate in that scope is a
/// fault. With no open scope (global), does nothing.
pub open spec fn sc_declare(st: ScopesView, name: Seq<char>, line: u32) -> ScopesView {
    if st.scopes.len() == 0 {
        st
    } else if st.scopes.last().contains_key(name) {
        sc_error(st, line, "Already a variable with this name in this scope."@)
    } else {
        ScopesView {
            scopes: st.scopes.update(
                st.scopes.len() - 1,
                st.scopes.last().insert(name, VariableState::Declared),
            ),
            ..st
        }
    }
}

/// Marks `name` defined in the innermost scope.
pub open spec fn sc_define(st: ScopesView, name: Seq<char>) -> ScopesView {
    if st.scopes.len() == 0 {
        st
    } else {
        ScopesView {
            scopes: st.scopes.update(
                st.scopes.len() - 1,
                st.scopes.last().insert(name, VariableState::Defined),
            ),
            ..st
        }
    }
}

/// Reading a name that is declared but not yet defined in the innermost
/// scope is the self-initializer fault.
pub open spec fn sc_check_init(st: ScopesView, name: Seq<char>, line: u32) -> ScopesView {
    if st.scopes.len() > 0 && st.scopes.last().contains_key(name) && st.scopes.last()[name]
        == VariableState::Declared {
        sc_error(st, line, "Can't read local variable in its own initializer."@)
    } else {
        st
    }
}

/// The hop distance from the innermost scope to the first scope holding
/// `name`, or `None` for a global.
pub open spec fn sc_resolve_local(
    scopes: Seq<Map<Seq<char>, VariableState>>,
    name: Seq<char>,
) -> Option<int>
    decreases scopes.len(),
{
    if scopes.len() == 0 {
        None
    } else if scopes.last().contains_key(name) {
        Some(0)
    } else {
        match sc_resolve_local(scopes.drop_last(), name) {
            Some(d) => Some(d + 1),
            None => None,
        }
    }
}

/// The value a resolution slot gets: the hop distance where it fits the
/// slot's width, else a global lookup.
pub open spec fn local_slot(
    scopes: Seq<Map<Seq<char>, VariableState>>,
    name: Seq<char>,
) -> Option<u32> {
    match sc_resolve_local(scopes, name) {
        Some(d) => if d <= 0xffff_ffff {
            Some(d as u32)
        } else {
            None
        },
        None => None,
    }
}

/// The latest declaration state of `name` in one scope's association list.
fn scope_find(values: &Vec<(String, VariableState)>, name: &str) -> (r: Option<VariableState>)
    ensures
        match r {
            Some(v) => scope_map(values@).contains_key(name@) && scope_map(values@)[name@] == v,
            None => !scope_map(values@).contains_key(name@),
        },
{
    let mut j: usize = values.len();
    proof {
        assert(values@.take(j as int) =~= values@);
    }
    while j > 0
        invariant
            j <= values.len(),
            scope_map(values@.take(j as int)).contains_key(name@) == scope_map(
                values@,
            ).contains_key(name@),
            scope_map(values@.take(j as int)).contains_key(name@) ==> scope_map(
                values@.take(j as int),
            )[name@] == scope_map(values@)[name@],
        decreases j,
    {
        proof {
            assert(values@.take(j as int).drop_last() =~= values@.take(j - 1));
            assert(values@.take(j as int).last() == values@[j - 1]);
        }
        if str_eq(values[j - 1].0.as_str(), name) {
            return Some(values[j - 1].1);
        }
        j = j - 1;
    }
    proof {
        assert(values@.take(0) =~= Seq::<(String, VariableState)>::empty());
    }
    None
}

impl Scopes {
    pub fn new() -> (r: Self)
        ensures
            r@.scopes.len() == 0,
            r@.function_types.len() == 0,
            r@.class_types.len() == 0,
            r@.errors.len() == 0,
    {
        let r = Scopes {
            scopes: Vec::new(),
            function_types: Vec::new(),
            class_types: Vec::new(),
            errors: Vec::new(),
        };
        proof {
            assert(r@.scopes =~= Seq::<Map<Seq<char>, VariableState>>::empty());
            assert(r@.errors =~= Seq::<ErrorDetailView>::empty());
        }
        r
    }

    pub fn begin_scope(&mut self)
        ensures
            final(self)@ == sc_begin_scope(old(self)@),
    {
        self.scopes.push(Vec::new());
        proof {
            assert(scope_map(Seq::<(String, VariableState)>::empty())
                =~= Map::<Seq<char>, VariableState>::empty());
            assert(final(self)@ =~= sc_begin_scope(old(self)@));
        }
    }

    pub fn end_scope(&mut self)
        ensures
            final(self)@ == sc_end_scope(old(self)@),
    {
        if self.scopes.len() > 0 {
            let _ = self.scopes.pop();
        }
        proof {
            assert(final(self)@ =~= sc_end_scope(old(self)@));
        }
    }

    pub fn begin_function(&mut self, fn_type: FunctionType)
        ensures
            final(self)@ == sc_begin_function(old(self)@, fn_type),
    {
        self.function_types.push(fn_type);
        proof {
            assert(final(self)@ =~= sc_begin_function(old(self)@, fn_type));
        }
    }

    pub fn end_function(&mut self)
        ensures
            final(self)@ == sc_end_function(old(self)@),
    {
        if self.function_types.len() > 0 {
            let _ = self.function_types.pop();
        }
        proof {
            assert(final(self)@ =~= sc_end_function(old(self)@));
        }
    }

    pub fn begin_class(&mut self, class_type: ClassType)
        ensures
            final(self)@ == sc_begin_class(old(self)@, class_type),
    {
        self.class_types.push(class_type);
        proof {
            assert(final(self)@ =~= sc_begin_class(old(self)@, class_type));
        }
    }

    pub fn end_class(&mut self)
        ensures
            final(self)@ == sc_end_class(old(self)@),
    {
        if self.class_types.len() > 0 {
            let _ = self.class_types.pop();
        }
        proof {
            assert(final(self)@ =~= sc_end_class(old(self)@));
        }
    }

    /// How many scopes are open.
    pub fn depth(&self) -> (r: usize)
        ensures
            r == self@.scopes.len(),
    {
        self.scopes.len()
    }

    /// How many function bodies enclose the point being resolved.
    pub fn function_depth(&self) -> (r: usize)
        ensures
            r == self@.function_types.len(),
    {
        self.function_types.len()
    }

    /// The kind of the innermost enclosing function body.
    pub fn current_function(&self) -> (r: Option<FunctionType>)
        ensures
            r == (if self@.function_types.len() > 0 {
                Some(self@.function_types.last())
            } else {
                None::<FunctionType>
            }),
    {
        if self.function_types.len() > 0 {
            Some(self.function_types[self.function_types.len() - 1])
        } else {
            None
        }
    }

    /// How many class bodies enclose the point being resolved.
    pub fn class_depth(&self) -> (r: usize)
        ensures
            r == self@.class_types.len(),
    {
        self.class_types.len()
    }

    /// The kind of the innermost enclosing class body.
    pub fn current_class(&self) -> (r: Option<ClassType>)
        ensures
            r == (if self@.class_types.len() > 0 {
                Some(self@.class_types.last())
            } else {
                None::<ClassType>
            }),
    {
        if self.class_types.len() > 0 {
            Some(self.class_types[self.class_types.len() - 1])
        } else {
            None
        }
    }

    /// Records a fault.
    pub fn error(&mut self, line: u32, message: &str)
        ensures
            final(self)@ == sc_error(old(self)@, line, message@),
    {
        self.errors.push(ErrorDetail::new(line, message));
        proof {
            assert(final(self)@ =~= sc_error(old(self)@, line, message@));
        }
    }

    pub fn declare(&mut self, name: &str, line: u32)
        ensures
            final(self)@ == sc_declare(old(self)@, name@, line),
    {
        if self.scopes.len() == 0 {
            return ;
        }
        let last = self.scopes.len() - 1;
        let dup = match scope_find(&self.scopes[last], name) {
            Some(_) => true,
            None => false,
        };
        if dup {
            self.errors.push(
                ErrorDetail::new(line, "Already a variable with this name in this scope."),
            );
            proof {
                assert(final(self)@ =~= sc_declare(old(self)@, name@, line));
            }
        } else {
            let mut taken: Vec<(String, VariableState)> = Vec::new();
            self.scopes.set_and_swap(last, &mut taken);
            taken.push((String::from_str(name), VariableState::Declared));
            self.scopes.set_and_swap(last, &mut taken);
            proof {
                assert(final(self).scopes@[last as int]@.drop_last() =~= old(
                    self,
                ).scopes@[last as int]@);
                assert(final(self)@ =~= sc_declare(old(self)@, name@, line));
            }
        }
    }

    pub fn define(&mut self, name: &str)
        ensures
            final(self)@ == sc_define(old(self)@, name@),
    {
        if self.scopes.len() == 0 {
            return ;
        }
        let last = self.scopes.len() - 1;
        let mut taken: Vec<(String, VariableState)> = Vec::new();
        self.scopes.set_and_swap(last, &mut taken);
        taken.push((String::from_str(name), VariableState::Defined));
        self.scopes.set_and_swap(last, &mut taken);
        proof {
            assert(final(self).scopes@[last as int]@.drop_last() =~= old(
                self,
            ).scopes@[last as int]@);
            assert(final(self)@ =~= sc_define(old(self)@, name@));
        }
    }

    pub fn check_initialized(&mut self, name: &str, line: u32)
        ensures
            final(self)@ == sc_check_init(old(self)@, name@, line),
    {
        if self.scopes.len() == 0 {
            proof {
                assert(final(self)@ =~= sc_check_init(old(self)@, name@, line));
            }
            return ;
        }
        let last = self.scopes.len() - 1;
        let hit = match scope_find(&self.scopes[last], name) {
            Some(VariableState::Declared) => true,
            _ => false,
        };
        if hit {
            self.errors.push(
                ErrorDetail::new(line, "Can't read local variable in its own initializer."),
            );
        }
        proof {
            assert(final(self)@ =~= sc_check_init(old(self)@, name@, line));
        }
    }

    /// The hop distance of `name` from the innermost scope, as a slot value.
    pub fn resolve_local(&self, name: &str) -> (r: Option<u32>)
        ensures
            r == local_slot(self@.scopes, name@),
    {
        proof {
            assert(self.scopes@.take(self.scopes@.len() as int) =~= self.scopes@);
            assert(self@.scopes.take(self.scopes@.len() as int) =~= self@.scopes);
        }
        match self.find_depth(self.scopes.len(), name) {
            Some(d) => {
                if d <= 0xffff_ffffusize {
                    Some(d as u32)
                } else {
                    None
                }
            }
            None => None,
        }
    }

    /// Searches the innermost `upto` scopes for `name`, innermost first.
    fn find_depth(&self, upto: usize, name: &str) -> (r: Option<usize>)
        requires
            upto <= self@.scopes.len(),
        ensures
            match sc_resolve_local(self@.scopes.take(upto as int), name@) {
                Some(d) => r == Some(d as usize) && 0 <= d < upto,
                None => r is None,
            },
        decreases upto,
    {
        if upto == 0 {
            return None;
        }
        proof {
            assert(self@.scopes.take(upto as int).last() == scope_map(
                self.scopes@[upto - 1]@,
            ));
            assert(self@.scopes.take(upto as int).drop_last() =~= self@.scopes.take(
                upto - 1,
            ));
        }
        let found = match scope_find(&self.scopes[upto - 1], name) {
            Some(_) => true,
            None => false,
        };
        if found {
            Some(0)
        } else {
            match self.find_depth(upto - 1, name) {
                Some(d) => Some(d + 1),
                None => None,
            }
        }
    }

    /// Gives up the state, yielding the accumulated faults.
    pub fn into_errors(self) -> (r: Vec<ErrorDetail>)
        ensures
            details_view(r@) == self@.errors,
    {
        self.errors
    }
}

} // verus!

verus! {

// ---- the pass, mathematically ----

/// Resolves one expression, rewriting its resolution slots and collecting
/// faults.
pub open spec fn resolve_expr_spec(e: ExprView, st: ScopesView) -> (ExprView, ScopesView)
    decreases e,
{
    match e {
        ExprView::Nil => (e, st),
        ExprView::Literal(_) => (e, st),
        ExprView::Neg { expression, line } => {
            let (e2, st2) = resolve_expr_spec(*expression, st);
            (ExprView::Neg { expression: Box::new(e2), line }, st2)
        },
        ExprView::Not(inner) => {
            let (e2, st2) = resolve_expr_spec(*inner, st);
            (ExprView::Not(Box::new(e2)), st2)
        },
        ExprView::Grouping(inner) => {
            let (e2, st2) = resolve_expr_spec(*inner, st);
            (ExprView::Grouping(Box::new(e2)), st2)
        },
        ExprView::Binary { left, right, operator, line } => {
            let (l2, st2) = resolve_expr_spec(*left, st);
            let (r2, st3) = resolve_expr_spec(*right, st2);
            (ExprView::Binary { left: Box::new(l2), right: Box::new(r2), operator, line }, st3)
        },
        ExprView::Variable(v) => {
            let st2 = sc_check_init(st, v.name, v.line);
            (
                ExprView::Variable(
                    VariableExpressionView {
                        name: v.name,
                        maybe_distance: local_slot(st2.scopes, v.name),
                        line: v.line,
                    },
                ),
                st2,
            )
        },
        ExprView::Assign { name, value, maybe_distance, line } => {
            let (v2, st2) = resolve_expr_spec(*value, st);
            (
                ExprView::Assign {
                    name,
                    value: Box::new(v2),
                    maybe_distance: local_slot(st2.scopes, name),
                    line,
                },
                st2,
            )
        },
        ExprView::Logical { left, right, operator } => {
            let (l2, st2) = resolve_expr_spec(*left, st);
            let (r2, st3) = resolve_expr_spec(*right, st2);
            (ExprView::Logical { left: Box::new(l2), right: Box::new(r2), operator }, st3)
        },
        ExprView::Call { callee, arguments, line } => {
            let (c2, st2) = resolve_expr_spec(*callee, st);
            let (a2, st3) = resolve_exprs_spec(arguments, st2);
            (ExprView::Call { callee: Box::new(c2), arguments: a2, line }, st3)
        },
        ExprView::Get { object, name, line } => {
            let (o2, st2) = resolve_expr_spec(*object, st);
            (ExprView::Get { object: Box::new(o2), name, line }, st2)
        },
        ExprView::SetProp { object, name, value, line } => {
            let (v2, st2) = resolve_expr_spec(*value, st);
            let (o2, st3) = resolve_expr_spec(*object, st2);
            (ExprView::SetProp { object: Box::new(o2), name, value: Box::new(v2), line }, st3)
        },
        ExprView::This { maybe_distance, line } => {
            if st.class_types.len() == 0 {
                (
                    ExprView::This { maybe_distance, line },
                    sc_error(st, line, "Can't use 'this' outside of a class."@),
                )
            } else {
                (
                    ExprView::This { maybe_distance: local_slot(st.scopes, "this"@), line },
                    st,
                )
            }
        },
        ExprView::Super { method, maybe_distance, line } => {
            let st2 = if st.class_types.len() == 0 {
                sc_error(st, line, "Can't use 'super' outside of a class."@)
            } else if st.class_types.last() != ClassType::Subclass {
                sc_error(st, line, "Can't use 'super' in a class with no superclass."@)
            } else {
                st
            };
            (
                ExprView::Super {
                    method,
                    maybe_distance: local_slot(st2.scopes, "super"@),
                    line,
                },
                st2,
            )
        },
    }
}

/// Resolves a list of expressions left to right.
pub open spec fn resolve_exprs_spec(es: Seq<ExprView>, st: ScopesView) -> (Seq<ExprView>, ScopesView)
    decreases es,
{
    if es.len() == 0 {
        (es, st)
    } else {
        let (e2, st2) = resolve_expr_spec(es[0], st);
        let (rest, st3) = resolve_exprs_spec(es.subrange(1, es.len() as int), st2);
        (seq![e2] + rest, st3)
    }
}

/// Declares and defines each parameter in the innermost scope.
pub open spec fn declare_params_spec(ps: Seq<ParameterView>, st: ScopesView) -> ScopesView
    decreases ps.len(),
{
    if ps.len() == 0 {
        st
    } else {
        let st2 = sc_define(sc_declare(st, ps[0].name, ps[0].line), ps[0].name);
        declare_params_spec(ps.subrange(1, ps.len() as int), st2)
    }
}

/// Resolves a function body: enter the function kind, open the parameter
/// scope, declare and define the parameters, resolve the body, close both.
pub open spec fn resolve_function_spec(
    f: FunctionStatementView,
    fn_type: FunctionType,
    st: ScopesView,
) -> (FunctionStatementView, ScopesView)
    decreases f,
{
    let st1 = sc_begin_scope(sc_begin_function(st, fn_type));
    let st2 = declare_params_spec(f.parameters, st1);
    let (body2, st3) = resolve_stmts_spec(f.statements, st2);
    let st4 = sc_end_function(sc_end_scope(st3));
    (
        FunctionStatementView {
            name: f.name,
            parameters: f.parameters,
            statements: body2,
            line: f.line,
        },
        st4,
    )
}

/// Resolves each method, as an initializer when it is named `init`.
pub open spec fn resolve_methods_spec(
    ms: Seq<FunctionStatementView>,
    st: ScopesView,
) -> (Seq<FunctionStatementView>, ScopesView)
    decreases ms,
{
    if ms.len() == 0 {
        (ms, st)
    } else {
        let fn_type = if ms[0].name == "init"@ {
            FunctionType::Initializer
        } else {
            FunctionType::Method
        };
        let (m2, st2) = resolve_function_spec(ms[0], fn_type, st);
        let (rest, st3) = resolve_methods_spec(ms.subrange(1, ms.len() as int), st2);
        (seq![m2] + rest, st3)
    }
}

/// Resolves one statement.
pub open spec fn resolve_stmt_spec(s: StmtView, st: ScopesView) -> (StmtView, ScopesView)
    decreases s,
{
    match s {
        StmtView::Print { expression, line } => {
            let (e2, st2) = resolve_expr_spec(*expression, st);
            (StmtView::Print { expression: Box::new(e2), line }, st2)
        },
        StmtView::Expression(e) => {
            let (e2, st2) = resolve_expr_spec(*e, st);
            (StmtView::Expression(Box::new(e2)), st2)
        },
        StmtView::Var { name, initializer, line } => {
            let st1 = sc_declare(st, name, line);
            let (init2, st2) = match initializer {
                Some(e) => {
                    let (e2, st2) = resolve_expr_spec(*e, st1);
                    (Some(Box::new(e2)), st2)
                },
                None => (None, st1),
            };
            let st3 = sc_define(st2, name);
            (StmtView::Var { name, initializer: init2, line }, st3)
        },
        StmtView::Block { statements } => {
            let (ss2, st2) = resolve_stmts_spec(statements, sc_begin_scope(st));
            (StmtView::Block { statements: ss2 }, sc_end_scope(st2))
        },
        StmtView::If { condition, then_branch, else_branch } => {
            let (c2, st2) = resolve_expr_spec(*condition, st);
            let (t2, st3) = resolve_stmt_spec(*then_branch, st2);
            let (e2, st4) = match else_branch {
                Some(e) => {
                    let (e2, st4) = resolve_stmt_spec(*e, st3);
                    (Some(Box::new(e2)), st4)
                },
                None => (None, st3),
            };
            (
                StmtView::If {
                    condition: Box::new(c2),
                    then_branch: Box::new(t2),
                    else_branch: e2,
                },
                st4,
            )
        },
        StmtView::While { condition, body } => {
            let (c2, st2) = resolve_expr_spec(*condition, st);
            let (b2, st3) = resolve_stmt_spec(*body, st2);
            (StmtView::While { condition: Box::new(c2), body: Box::new(b2) }, st3)
        },
        StmtView::Function(f) => {
            let st1 = sc_define(sc_declare(st, f.name, f.line), f.name);
            let (f2, st2) = resolve_function_spec(f, FunctionType::Function, st1);
            (StmtView::Function(f2), st2)
        },
        StmtView::Return { maybe_expression, line } => {
            let st1 = if st.function_types.len() == 0 {
                sc_error(st, line, "Can't return from top-level code."@)
            } else {
                st
            };
            match maybe_expression {
                Some(e) => {
                    let st2 = if st1.function_types.len() > 0 && st1.function_types.last()
                        == FunctionType::Initializer {
                        sc_error(st1, line, "Can't return a value from an initializer."@)
                    } else {
                        st1
                    };
                    let (e2, st3) = resolve_expr_spec(*e, st2);
                    (
                        StmtView::Return { maybe_expression: Some(Box::new(e2)), line },
                        st3,
                    )
                },
                None => (StmtView::Return { maybe_expression: None, line }, st1),
            }
        },
        StmtView::Class { name, methods, maybe_superclass, line } => {
            let st1 = sc_begin_class(
                st,
                if maybe_superclass is Some {
                    ClassType::Subclass
                } else {
                    ClassType::Class
                },
            );
            let st3 = sc_define(sc_declare(st1, name, line), name);
            match maybe_superclass {
                Some(sup) => {
                    let st4 = if sup.name == name {
                        sc_error(st3, sup.line, "A class can't inherit from itself."@)
                    } else {
                        st3
                    };
                    let st5 = sc_check_init(st4, sup.name, sup.line);
                    let sup2 = VariableExpressionView {
                        name: sup.name,
                        maybe_distance: local_slot(st5.scopes, sup.name),
                        line: sup.line,
                    };
                    let st7 = sc_define(sc_begin_scope(st5), "super"@);
                    let st9 = sc_define(sc_begin_scope(st7), "this"@);
                    let (ms2, st10) = resolve_methods_spec(methods, st9);
                    let st13 = sc_end_class(sc_end_scope(sc_end_scope(st10)));
                    (
                        StmtView::Class {
                            name,
                            methods: ms2,
                            maybe_superclass: Some(sup2),
                            line,
                        },
                        st13,
                    )
                },
                None => {
                    let st9 = sc_define(sc_begin_scope(st3), "this"@);
                    let (ms2, st10) = resolve_methods_spec(methods, st9);
                    let st13 = sc_end_class(sc_end_scope(st10));
                    (
                        StmtView::Class { name, methods: ms2, maybe_superclass: None, line },
                        st13,
                    )
                },
            }
        },
    }
}

/// Resolves a list of statements in order.
pub open spec fn resolve_stmts_spec(ss: Seq<StmtView>, st: ScopesView) -> (Seq<StmtView>, ScopesView)
    decreases ss,
{
    if ss.len() == 0 {
        (ss, st)
    } else {
        let (s2, st2) = resolve_stmt_spec(ss[0], st);
        let (rest, st3) = resolve_stmts_spec(ss.subrange(1, ss.len() as int), st2);
        (seq![s2] + rest, st3)
    }
}

/// The whole pass: the rewritten program and the faults found, starting
/// from the empty state.
pub open spec fn resolve_program_spec(ss: Seq<StmtView>) -> (Seq<StmtView>, Seq<ErrorDetailView>) {
    let st0 = ScopesView {
        scopes: Seq::empty(),
        function_types: Seq::empty(),
        class_types: Seq::empty(),
        errors: Seq::empty(),
    };
    let (ss2, st) = resolve_stmts_spec(ss, st0);
    (ss2, st.errors)
}

} // verus!

verus! {

// ---- the pass, executably ----

/// Resolves one expression, returning the rewritten node.
pub fn resolve_expr(e: &Expr, scopes: &mut Scopes) -> (r: Expr)
    ensures
        ({
            let (ev, st) = resolve_expr_spec(expr_view(*e), old(scopes)@);
            expr_view(r) == ev && final(scopes)@ == st
        }),
    decreases *e,
{
    match e {
        Expr::Nil(_) => Expr::Nil(crate::ast::NilExpression),
        Expr::Literal(l) => Expr::Literal(crate::ast::LiteralExpression(l.0.dup())),
        Expr::Neg(n) => {
            let sub = resolve_expr(&n.expression, scopes);
            Expr::Neg(crate::ast::NegExpression { expression: Box::new(sub), line: n.line })
        },
        Expr::Not(n) => {
            let sub = resolve_expr(&n.0, scopes);
            Expr::Not(crate::ast::NotExpression(Box::new(sub)))
        },
        Expr::Grouping(g) => {
            let sub = resolve_expr(&g.0, scopes);
            Expr::Grouping(crate::ast::GroupingExpression(Box::new(sub)))
        },
        Expr::Binary(b) => {
            let left = resolve_expr(&b.left, scopes);
            let right = resolve_expr(&b.right, scopes);
            Expr::Binary(
                crate::ast::BinaryExpression {
                    left: Box::new(left),
                    right: Box::new(right),
                    operator: b.operator,
                    line: b.line,
                },
            )
        },
        Expr::Variable(v) => {
            scopes.check_initialized(v.name.as_str(), v.line);
            let slot = scopes.resolve_local(v.name.as_str());
            Expr::Variable(
                crate::ast::VariableExpression {
                    name: v.name.clone(),
                    maybe_distance: slot,
                    line: v.line,
                },
            )
        },
        Expr::Assign(a) => {
            let value = resolve_expr(&a.value, scopes);
            let slot = scopes.resolve_local(a.name.as_str());
            Expr::Assign(
                crate::ast::AssignExpression {
                    name: a.name.clone(),
                    value: Box::new(value),
                    maybe_distance: slot,
                    line: a.line,
                },
            )
        },
        Expr::Logical(l) => {
            let left = resolve_expr(&l.left, scopes);
            let right = resolve_expr(&l.right, scopes);
            Expr::Logical(
                crate::ast::LogicalExpression {
                    left: Box::new(left),
                    right: Box::new(right),
                    operator: l.operator,
                },
            )
        },
        Expr::Call(c) => {
            let callee = resolve_expr(&c.callee, scopes);
            let arguments = resolve_exprs(&c.arguments, scopes);
            Expr::Call(
                crate::ast::CallExpression {
                    callee: Box::new(callee),
                    arguments,
                    line: c.line,
                },
            )
        },
        Expr::Get(g) => {
            let object = resolve_expr(&g.object, scopes);
            Expr::Get(
                crate::ast::GetExpression {
                    object: Box::new(object),
                    name: g.name.clone(),
                    line: g.line,
                },
            )
        },
        Expr::SetProp(s) => {
            let value = resolve_expr(&s.value, scopes);
            let object = resolve_expr(&s.object, scopes);
            Expr::SetProp(
                crate::ast::SetExpression {
                    object: Box::new(object),
                    name: s.name.clone(),
                    value: Box::new(value),
                    line: s.line,
                },
            )
        },
        Expr::This(t) => {
            if scopes.class_depth() == 0 {
                scopes.error(t.line, "Can't use 'this' outside of a class.");
                Expr::This(
                    crate::ast::ThisExpression {
                        maybe_distance: t.maybe_distance,
                        line: t.line,
                    },
                )
            } else {
                let slot = scopes.resolve_local("this");
                Expr::This(crate::ast::ThisExpression { maybe_distance: slot, line: t.line })
            }
        },
        Expr::Super(s) => {
            match scopes.current_class() {
                None => {
                    scopes.error(s.line, "Can't use 'super' outside of a class.");
                },
                Some(ClassType::Class) => {
                    scopes.error(s.line, "Can't use 'super' in a class with no superclass.");
                },
                Some(ClassType::Subclass) => {},
            }
            let slot = scopes.resolve_local("super");
            Expr::Super(
                crate::ast::SuperExpression {
                    method: s.method.clone(),
                    maybe_distance: slot,
                    line: s.line,
                },
            )
        },
    }
}

/// Resolves a list of expressions left to right.
pub fn resolve_exprs(es: &Vec<Expr>, scopes: &mut Scopes) -> (r: Vec<Expr>)
    ensures
        ({
            let (out, st) = resolve_exprs_spec(exprs_view(es@), old(scopes)@);
            exprs_view(r@) == out && final(scopes)@ == st
        }),
    decreases es@,
{
    let mut out: Vec<Expr> = Vec::new();
    let mut k: usize = 0;
    let ghost evs = exprs_view(es@);
    let ghost total = resolve_exprs_spec(evs, scopes@);
    proof {
        crate::ast::lemma_exprs_view_len(es@);
        assert(evs.subrange(0, evs.len() as int) =~= evs);
        assert(exprs_view(out@) =~= Seq::<ExprView>::empty());
        assert(total.0 =~~= exprs_view(out@) + resolve_exprs_spec(
            evs.subrange(0, evs.len() as int),
            scopes@,
        ).0);
    }
    while k < es.len()
        invariant
            k <= es@.len(),
            evs.len() == es@.len(),
            evs == exprs_view(es@),
            total == resolve_exprs_spec(evs, old(scopes)@),
            total.0 == exprs_view(out@) + resolve_exprs_spec(
                evs.subrange(k as int, evs.len() as int),
                scopes@,
            ).0,
            total.1 == resolve_exprs_spec(evs.subrange(k as int, evs.len() as int), scopes@).1,
        decreases es@.len() - k,
    {
        proof {
            crate::ast::lemma_exprs_view_index(es@, k as int);
            assert(evs.subrange(k as int, evs.len() as int)[0] == evs[k as int]);
            assert(evs.subrange(k as int, evs.len() as int).subrange(
                1,
                (evs.len() - k) as int,
            ) =~= evs.subrange(k + 1, evs.len() as int));
        }
        let ghost pre_out = out@;
        let e2 = resolve_expr(&es[k], scopes);
        out.push(e2);
        proof {
            crate::ast::lemma_exprs_view_push(pre_out, out@.last());
            assert(total.0 =~~= exprs_view(out@) + resolve_exprs_spec(
                evs.subrange(k + 1, evs.len() as int),
                scopes@,
            ).0);
            assert(total.1 =~~= resolve_exprs_spec(
                evs.subrange(k + 1, evs.len() as int),
                scopes@,
            ).1);
        }
        k = k + 1;
    }
    proof {
        assert(evs.subrange(evs.len() as int, evs.len() as int) =~= Seq::<ExprView>::empty());
        assert(total.0 =~~= exprs_view(out@));
    }
    out
}

/// Resolves a function declaration's parameters and body under its kind.
pub fn resolve_function(
    fn_statement: &FunctionStatement,
    fn_type: FunctionType,
    scopes: &mut Scopes,
) -> (r: FunctionStatement)
    ensures
        ({
            let (fv, st) = resolve_function_spec(
                function_view(*fn_statement),
                fn_type,
                old(scopes)@,
            );
            function_view(r) == fv && final(scopes)@ == st
        }),
    decreases *fn_statement,
{
    scopes.begin_function(fn_type);
    scopes.begin_scope();
    let ghost pvs = params_view(fn_statement.parameters@);
    let ghost st1 = scopes@;
    let mut parameters: Vec<Parameter> = Vec::new();
    let mut k: usize = 0;
    proof {
        assert(pvs.subrange(0, pvs.len() as int) =~= pvs);
        assert(params_view(parameters@) =~= Seq::<ParameterView>::empty());
    }
    while k < fn_statement.parameters.len()
        invariant
            k <= fn_statement.parameters@.len(),
            pvs == params_view(fn_statement.parameters@),
            pvs.len() == fn_statement.parameters@.len(),
            parameters@.len() == k,
            params_view(parameters@) == pvs.take(k as int),
            declare_params_spec(pvs, st1) == declare_params_spec(
                pvs.subrange(k as int, pvs.len() as int),
                scopes@,
            ),
        decreases fn_statement.parameters@.len() - k,
    {
        proof {
            assert(pvs.subrange(k as int, pvs.len() as int)[0] == pvs[k as int]);
            assert(pvs[k as int] == fn_statement.parameters@[k as int]@);
            assert(pvs.subrange(k as int, pvs.len() as int).subrange(
                1,
                (pvs.len() - k) as int,
            ) =~= pvs.subrange(k + 1, pvs.len() as int));
        }
        let p = &fn_statement.parameters[k];
        scopes.declare(p.name.as_str(), p.line);
        scopes.define(p.name.as_str());
        let ghost pre_params = parameters@;
        parameters.push(Parameter { name: p.name.clone(), line: p.line });
        proof {
            assert(parameters@.last()@ == pvs[k as int]);
            assert forall|i: int| 0 <= i < k + 1 implies params_view(parameters@)[i]
                == pvs.take(k + 1)[i] by {
                if i < k {
                    assert(params_view(pre_params)[i] == pvs.take(k as int)[i]);
                    assert(parameters@[i] == pre_params[i]);
                }
            }
            assert(params_view(parameters@) =~= pvs.take(k + 1));
        }
        k = k + 1;
    }
    proof {
        assert(pvs.subrange(pvs.len() as int, pvs.len() as int) =~= Seq::<ParameterView>::empty());
        assert(pvs.take(pvs.len() as int) =~= pvs);
    }
    let body = resolve_statements(&*fn_statement.statements, scopes);
    scopes.end_scope();
    scopes.end_function();
    FunctionStatement {
        name: fn_statement.name.clone(),
        parameters,
        statements: std::rc::Rc::new(body),
        line: fn_statement.line,
    }
}

/// Resolves each method of a class body.
fn resolve_methods(ms: &Vec<FunctionStatement>, scopes: &mut Scopes) -> (r: Vec<FunctionStatement>)
    ensures
        ({
            let (out, st) = resolve_methods_spec(functions_view(ms@), old(scopes)@);
            functions_view(r@) == out && final(scopes)@ == st
        }),
    decreases ms@,
{
    let mut out: Vec<FunctionStatement> = Vec::new();
    let mut k: usize = 0;
    let ghost mvs = functions_view(ms@);
    let ghost total = resolve_methods_spec(mvs, scopes@);
    proof {
        crate::ast::lemma_functions_view_len(ms@);
        assert(mvs.subrange(0, mvs.len() as int) =~= mvs);
        assert(functions_view(out@) =~= Seq::<FunctionStatementView>::empty());
        assert(total.0 =~~= functions_view(out@) + resolve_methods_spec(
            mvs.subrange(0, mvs.len() as int),
            scopes@,
        ).0);
    }
    while k < ms.len()
        invariant
            k <= ms@.len(),
            mvs.len() == ms@.len(),
            mvs == functions_view(ms@),
            total == resolve_methods_spec(mvs, old(scopes)@),
            total.0 == functions_view(out@) + resolve_methods_spec(
                mvs.subrange(k as int, mvs.len() as int),
                scopes@,
            ).0,
            total.1 == resolve_methods_spec(mvs.subrange(k as int, mvs.len() as int), scopes@).1,
        decreases ms@.len() - k,
    {
        proof {
            crate::ast::lemma_functions_view_index(ms@, k as int);
            assert(mvs.subrange(k as int, mvs.len() as int)[0] == mvs[k as int]);
            assert(mvs.subrange(k as int, mvs.len() as int).subrange(
                1,
                (mvs.len() - k) as int,
            ) =~= mvs.subrange(k + 1, mvs.len() as int));
        }
        let m = &ms[k];
        let fn_type = if str_eq(m.name.as_str(), "init") {
            FunctionType::Initializer
        } else {
            FunctionType::Method
        };
        let ghost pre_out = out@;
        let m2 = resolve_function(m, fn_type, scopes);
        out.push(m2);
        proof {
            crate::ast::lemma_functions_view_push(pre_out, out@.last());
            assert(total.0 =~~= functions_view(out@) + resolve_methods_spec(
                mvs.subrange(k + 1, mvs.len() as int),
                scopes@,
            ).0);
            assert(total.1 =~~= resolve_methods_spec(
                mvs.subrange(k + 1, mvs.len() as int),
                scopes@,
            ).1);
        }
        k = k + 1;
    }
    proof {
        assert(mvs.subrange(mvs.len() as int, mvs.len() as int) =~= Seq::<
            FunctionStatementView,
        >::empty());
        assert(total.0 =~~= functions_view(out@));
    }
    out
}

/// Resolves one statement, returning the rewritten node.
pub fn resolve_stmt(s: &Stmt, scopes: &mut Scopes) -> (r: Stmt)
    ensures
        ({
            let (sv, st) = resolve_stmt_spec(stmt_view(*s), old(scopes)@);
            stmt_view(r) == sv && final(scopes)@ == st
        }),
    decreases *s,
{
    match s {
        Stmt::Print(p) => {
            let e2 = resolve_expr(&p.expression, scopes);
            Stmt::Print(PrintStatement { expression: Box::new(e2), line: p.line })
        },
        Stmt::Expression(e) => {
            let e2 = resolve_expr(&e.0, scopes);
            Stmt::Expression(ExpressionStatement(Box::new(e2)))
        },
        Stmt::Var(v) => {
            scopes.declare(v.name.as_str(), v.line);
            let init2 = match &v.initializer {
                Some(e) => Some(Box::new(resolve_expr(e, scopes))),
                None => None,
            };
            scopes.define(v.name.as_str());
            Stmt::Var(VarStatement { name: v.name.clone(), initializer: init2, line: v.line })
        },
        Stmt::Block(b) => {
            scopes.begin_scope();
            let ss2 = resolve_statements(&b.statements, scopes);
            scopes.end_scope();
            Stmt::Block(BlockStatement { statements: ss2 })
        },
        Stmt::If(i) => {
            let c2 = resolve_expr(&i.condition, scopes);
            let t2 = resolve_stmt(&i.then_branch, scopes);
            let e2 = match &i.else_branch {
                Some(e) => Some(Box::new(resolve_stmt(e, scopes))),
                None => None,
            };
            Stmt::If(
                IfStatement {
                    condition: Box::new(c2),
                    then_branch: Box::new(t2),
                    else_branch: e2,
                },
            )
        },
        Stmt::While(w) => {
            let c2 = resolve_expr(&w.condition, scopes);
            let b2 = resolve_stmt(&w.body, scopes);
            Stmt::While(WhileStatement { condition: Box::new(c2), body: Box::new(b2) })
        },
        Stmt::Function(f) => {
            scopes.declare(f.name.as_str(), f.line);
            scopes.define(f.name.as_str());
            let f2 = resolve_function(f, FunctionType::Function, scopes);
            Stmt::Function(f2)
        },
        Stmt::Return(ret) => {
            if scopes.function_depth() == 0 {
                scopes.error(ret.line, "Can't return from top-level code.");
            }
            match &ret.maybe_expression {
                Some(e) => {
                    let in_init = match scopes.current_function() {
                        Some(FunctionType::Initializer) => true,
                        _ => false,
                    };
                    if in_init {
                        scopes.error(ret.line, "Can't return a value from an initializer.");
                    }
                    let e2 = resolve_expr(e, scopes);
                    Stmt::Return(
                        ReturnStatement {
                            maybe_expression: Some(Box::new(e2)),
                            line: ret.line,
                        },
                    )
                },
                None => Stmt::Return(
                    ReturnStatement { maybe_expression: None, line: ret.line },
                ),
            }
        },
        Stmt::Class(c) => {
            let class_type = match &c.maybe_superclass {
                Some(_) => ClassType::Subclass,
                None => ClassType::Class,
            };
            scopes.begin_class(class_type);
            scopes.declare(c.name.as_str(), c.line);
            scopes.define(c.name.as_str());
            let sup2 = match &c.maybe_superclass {
                Some(sup) => {
                    if str_eq(sup.name.as_str(), c.name.as_str()) {
                        scopes.error(sup.line, "A class can't inherit from itself.");
                    }
                    scopes.check_initialized(sup.name.as_str(), sup.line);
                    let slot = scopes.resolve_local(sup.name.as_str());
                    let sup2 = crate::ast::VariableExpression {
                        name: sup.name.clone(),
                        maybe_distance: slot,
                        line: sup.line,
                    };
                    scopes.begin_scope();
                    scopes.define("super");
                    Some(sup2)
                },
                None => None,
            };
            scopes.begin_scope();
            scopes.define("this");
            let ms2 = resolve_methods(&c.methods, scopes);
            scopes.end_scope();
            if sup2.is_some() {
                scopes.end_scope();
            }
            scopes.end_class();
            Stmt::Class(
                ClassStatement {
                    name: c.name.clone(),
                    methods: std::rc::Rc::new(ms2),
                    maybe_superclass: sup2,
                    line: c.line,
                },
            )
        },
    }
}

/// Resolves a list of statements in order.
pub fn resolve_statements(ss: &Vec<Stmt>, scopes: &mut Scopes) -> (r: Vec<Stmt>)
    ensures
        ({
            let (out, st) = resolve_stmts_spec(stmts_view(ss@), old(scopes)@);
            stmts_view(r@) == out && final(scopes)@ == st
        }),
    decreases ss@,
{
    let mut out: Vec<Stmt> = Vec::new();
    let mut k: usize = 0;
    let ghost svs = stmts_view(ss@);
    let ghost total = resolve_stmts_spec(svs, scopes@);
    proof {
        crate::ast::lemma_stmts_view_len(ss@);
        assert(svs.subrange(0, svs.len() as int) =~= svs);
        assert(stmts_view(out@) =~= Seq::<StmtView>::empty());
        assert(total.0 =~~= stmts_view(out@) + resolve_stmts_spec(
            svs.subrange(0, svs.len() as int),
            scopes@,
        ).0);
    }
    while k < ss.len()
        invariant
            k <= ss@.len(),
            svs.len() == ss@.len(),
            svs == stmts_view(ss@),
            total == resolve_stmts_spec(svs, old(scopes)@),
            total.0 == stmts_view(out@) + resolve_stmts_spec(
                svs.subrange(k as int, svs.len() as int),
                scopes@,
            ).0,
            total.1 == resolve_stmts_spec(svs.subrange(k as int, svs.len() as int), scopes@).1,
        decreases ss@.len() - k,
    {
        proof {
            crate::ast::lemma_stmts_view_index(ss@, k as int);
            assert(svs.subrange(k as int, svs.len() as int)[0] == svs[k as int]);
            assert(svs.subrange(k as int, svs.len() as int).subrange(
                1,
                (svs.len() - k) as int,
            ) =~= svs.subrange(k + 1, svs.len() as int));
        }
        let ghost pre_out = out@;
        let s2 = resolve_stmt(&ss[k], scopes);
        out.push(s2);
        proof {
            crate::ast::lemma_stmts_view_push(pre_out, out@.last());
            assert(total.0 =~~= stmts_view(out@) + resolve_stmts_spec(
                svs.subrange(k + 1, svs.len() as int),
                scopes@,
            ).0);
            assert(total.1 =~~= resolve_stmts_spec(
                svs.subrange(k + 1, svs.len() as int),
                scopes@,
            ).1);
        }
        k = k + 1;
    }
    proof {
        assert(svs.subrange(svs.len() as int, svs.len() as int) =~= Seq::<StmtView>::empty());
        assert(total.0 =~~= stmts_view(out@));
    }
    out
}

/// The resolver pass: annotates every resolvable reference in the program
/// and reports the scope faults, if any, as a batch.
pub fn resolve(statements: Vec<Stmt>) -> (r: Result<Vec<Stmt>, Error>)
    ensures
        ({
            let (out, errs) = resolve_program_spec(stmts_view(statements@));
            match r {
                Ok(ss) => errs.len() == 0 && stmts_view(ss@) == out,
                Err(e) => errs.len() > 0 && e@ == ErrorView::ResolverErrors(errs),
            }
        }),
{
    let mut scopes = Scopes::new();
    proof {
        assert(scopes@ =~~= ScopesView {
            scopes: Seq::empty(),
            function_types: Seq::empty(),
            class_types: Seq::empty(),
            errors: Seq::empty(),
        });
    }
    let out = resolve_statements(&statements, &mut scopes);
    let errors = scopes.into_errors();
    if errors.len() == 0 {
        Ok(out)
    } else {
        Err(Error::ResolverErrors(errors))
    }
}

} // verus!

verus! {

// ---- the resolution-depth law ----

/// A resolution slot is sound for lexical depth `d`: empty (a global
/// lookup), or a hop count that stays inside the `d` scopes that are open
/// where the node stands.
pub open spec fn slot_ok(slot: Option<u32>, d: nat) -> bool {
    match slot {
        Some(k) => k < d,
        None => true,
    }
}

/// Every resolution slot in the expression is sound for depth `d`.
pub open spec fn wf_expr(e: ExprView, d: nat) -> bool
    decreases e,
{
    match e {
        ExprView::Nil => true,
        ExprView::Literal(_) => true,
        ExprView::Neg { expression, line } => wf_expr(*expression, d),
        ExprView::Not(inner) => wf_expr(*inner, d),
        ExprView::Grouping(inner) => wf_expr(*inner, d),
        ExprView::Binary { left, right, operator, line } => wf_expr(*left, d) && wf_expr(
            *right,
            d,
        ),
        ExprView::Variable(v) => slot_ok(v.maybe_distance, d),
        ExprView::Assign { name, value, maybe_distance, line } => slot_ok(maybe_distance, d)
            && wf_expr(*value, d),
        ExprView::Logical { left, right, operator } => wf_expr(*left, d) && wf_expr(*right, d),
        ExprView::Call { callee, arguments, line } => wf_expr(*callee, d) && wf_exprs(
            arguments,
            d,
        ),
        ExprView::Get { object, name, line } => wf_expr(*object, d),
        ExprView::SetProp { object, name, value, line } => wf_expr(*object, d) && wf_expr(
            *value,
            d,
        ),
        ExprView::This { maybe_distance, line } => slot_ok(maybe_distance, d),
        ExprView::Super { method, maybe_distance, line } => slot_ok(maybe_distance, d),
    }
}

pub open spec fn wf_exprs(es: Seq<ExprView>, d: nat) -> bool
    decreases es,
{
    if es.len() == 0 {
        true
    } else {
        wf_expr(es[0], d) && wf_exprs(es.subrange(1, es.len() as int), d)
    }
}

/// Every resolution slot in the function's body is sound, counting the
/// parameter scope the body opens.
pub open spec fn wf_function(f: FunctionStatementView, d: nat) -> bool
    decreases f,
{
    wf_stmts(f.statements, d + 1)
}

pub open spec fn wf_methods(ms: Seq<FunctionStatementView>, d: nat) -> bool
    decreases ms,
{
    if ms.len() == 0 {
        true
    } else {
        wf_function(ms[0], d) && wf_methods(ms.subrange(1, ms.len() as int), d)
    }
}

/// Every resolution slot in the statement is sound for the lexical depth
/// at which each node stands, `d` being the depth of the statement itself.
pub open spec fn wf_stmt(s: StmtView, d: nat) -> bool
    decreases s,
{
    match s {
        StmtView::Print { expression, line } => wf_expr(*expression, d),
        StmtView::Expression(e) => wf_expr(*e, d),
        StmtView::Var { name, initializer, line } => match initializer {
            Some(e) => wf_expr(*e, d),
            None => true,
        },
        StmtView::Block { statements } => wf_stmts(statements, d + 1),
        StmtView::If { condition, then_branch, else_branch } => wf_expr(*condition, d)
            && wf_stmt(*then_branch, d) && match else_branch {
            Some(e) => wf_stmt(*e, d),
            None => true,
        },
        StmtView::While { condition, body } => wf_expr(*condition, d) && wf_stmt(*body, d),
        StmtView::Function(f) => wf_function(f, d),
        StmtView::Return { maybe_expression, line } => match maybe_expression {
            Some(e) => wf_expr(*e, d),
            None => true,
        },
        StmtView::Class { name, methods, maybe_superclass, line } => {
            match maybe_superclass {
                Some(sup) => slot_ok(sup.maybe_distance, d) && wf_methods(methods, d + 2),
                None => wf_methods(methods, d + 1),
            }
        },
    }
}

pub open spec fn wf_stmts(ss: Seq<StmtView>, d: nat) -> bool
    decreases ss,
{
    if ss.len() == 0 {
        true
    } else {
        wf_stmt(ss[0], d) && wf_stmts(ss.subrange(1, ss.len() as int), d)
    }
}

proof fn lemma_resolve_local_depth(scopes: Seq<Map<Seq<char>, VariableState>>, name: Seq<char>)
    ensures
        match sc_resolve_local(scopes, name) {
            Some(d) => 0 <= d < scopes.len(),
            None => true,
        },
    decreases scopes.len(),
{
    if scopes.len() > 0 && !scopes.last().contains_key(name) {
        lemma_resolve_local_depth(scopes.drop_last(), name);
    }
}

proof fn lemma_local_slot_ok(scopes: Seq<Map<Seq<char>, VariableState>>, name: Seq<char>)
    ensures
        slot_ok(local_slot(scopes, name), scopes.len()),
{
    lemma_resolve_local_depth(scopes, name);
}

proof fn lemma_declare_params_depth(ps: Seq<ParameterView>, st: ScopesView)
    ensures
        declare_params_spec(ps, st).scopes.len() == st.scopes.len(),
        declare_params_spec(ps, st).class_types == st.class_types,
        declare_params_spec(ps, st).errors.len() >= st.errors.len(),
    decreases ps.len(),
{
    if ps.len() > 0 {
        let st2 = sc_define(sc_declare(st, ps[0].name, ps[0].line), ps[0].name);
        lemma_declare_params_depth(ps.subrange(1, ps.len() as int), st2);
    }
}

proof fn lemma_resolve_expr_wf(e: ExprView, st: ScopesView)
    ensures
        resolve_expr_spec(e, st).1.scopes.len() == st.scopes.len(),
        resolve_expr_spec(e, st).1.class_types == st.class_types,
        resolve_expr_spec(e, st).1.errors.len() >= st.errors.len(),
        wf_expr(resolve_expr_spec(e, st).0, st.scopes.len() as nat) || resolve_expr_spec(e, st).1.errors.len() > st.errors.len(),
    decreases e,
{
    match e {
        ExprView::Nil => {},
        ExprView::Literal(_) => {},
        ExprView::Neg { expression, line } => {
            lemma_resolve_expr_wf(*expression, st);
        },
        ExprView::Not(inner) => {
            lemma_resolve_expr_wf(*inner, st);
        },
        ExprView::Grouping(inner) => {
            lemma_resolve_expr_wf(*inner, st);
        },
        ExprView::Binary { left, right, operator, line } => {
            lemma_resolve_expr_wf(*left, st);
            lemma_resolve_expr_wf(*right, resolve_expr_spec(*left, st).1);
        },
        ExprView::Variable(v) => {
            lemma_local_slot_ok(sc_check_init(st, v.name, v.line).scopes, v.name);
        },
        ExprView::Assign { name, value, maybe_distance, line } => {
            lemma_resolve_expr_wf(*value, st);
            lemma_local_slot_ok(resolve_expr_spec(*value, st).1.scopes, name);
        },
        ExprView::Logical { left, right, operator } => {
            lemma_resolve_expr_wf(*left, st);
            lemma_resolve_expr_wf(*right, resolve_expr_spec(*left, st).1);
        },
        ExprView::Call { callee, arguments, line } => {
            lemma_resolve_expr_wf(*callee, st);
            lemma_resolve_exprs_wf(arguments, resolve_expr_spec(*callee, st).1);
        },
        ExprView::Get { object, name, line } => {
            lemma_resolve_expr_wf(*object, st);
        },
        ExprView::SetProp { object, name, value, line } => {
            lemma_resolve_expr_wf(*value, st);
            lemma_resolve_expr_wf(*object, resolve_expr_spec(*value, st).1);
        },
        ExprView::This { maybe_distance, line } => {
            if st.class_types.len() != 0 {
                lemma_local_slot_ok(st.scopes, "this"@);
            }
        },
        ExprView::Super { method, maybe_distance, line } => {
            lemma_local_slot_ok(st.scopes, "super"@);
        },
    }
}

proof fn lemma_resolve_exprs_wf(es: Seq<ExprView>, st: ScopesView)
    ensures
        resolve_exprs_spec(es, st).1.scopes.len() == st.scopes.len(),
        resolve_exprs_spec(es, st).1.class_types == st.class_types,
        resolve_exprs_spec(es, st).1.errors.len() >= st.errors.len(),
        wf_exprs(resolve_exprs_spec(es, st).0, st.scopes.len() as nat) || resolve_exprs_spec(es, st).1.errors.len() > st.errors.len(),
    decreases es,
{
    if es.len() > 0 {
        lemma_resolve_expr_wf(es[0], st);
        let st2 = resolve_expr_spec(es[0], st).1;
        lemma_resolve_exprs_wf(es.subrange(1, es.len() as int), st2);
        let (e2, _) = resolve_expr_spec(es[0], st);
        let (rest, _) = resolve_exprs_spec(es.subrange(1, es.len() as int), st2);
        let out = seq![e2] + rest;
        assert(out[0] == e2);
        assert(out.subrange(1, out.len() as int) =~= rest);
    }
}

proof fn lemma_resolve_function_wf(f: FunctionStatementView, fn_type: FunctionType, st: ScopesView)
    ensures
        resolve_function_spec(f, fn_type, st).1.scopes.len() == st.scopes.len(),
        resolve_function_spec(f, fn_type, st).1.class_types == st.class_types,
        resolve_function_spec(f, fn_type, st).1.errors.len() >= st.errors.len(),
        wf_function(resolve_function_spec(f, fn_type, st).0, st.scopes.len() as nat) || resolve_function_spec(f, fn_type, st).1.errors.len() > st.errors.len(),
    decreases f,
{
    let st1 = sc_begin_scope(sc_begin_function(st, fn_type));
    lemma_declare_params_depth(f.parameters, st1);
    let st2 = declare_params_spec(f.parameters, st1);
    lemma_resolve_stmts_wf(f.statements, st2);
}

proof fn lemma_resolve_methods_wf(ms: Seq<FunctionStatementView>, st: ScopesView)
    ensures
        resolve_methods_spec(ms, st).1.scopes.len() == st.scopes.len(),
        resolve_methods_spec(ms, st).1.class_types == st.class_types,
        resolve_methods_spec(ms, st).1.errors.len() >= st.errors.len(),
        wf_methods(resolve_methods_spec(ms, st).0, st.scopes.len() as nat) || resolve_methods_spec(ms, st).1.errors.len() > st.errors.len(),
    decreases ms,
{
    if ms.len() > 0 {
        let fn_type = if ms[0].name == "init"@ {
            FunctionType::Initializer
        } else {
            FunctionType::Method
        };
        lemma_resolve_function_wf(ms[0], fn_type, st);
        let st2 = resolve_function_spec(ms[0], fn_type, st).1;
        lemma_resolve_methods_wf(ms.subrange(1, ms.len() as int), st2);
        let (m2, _) = resolve_function_spec(ms[0], fn_type, st);
        let (rest, _) = resolve_methods_spec(ms.subrange(1, ms.len() as int), st2);
        let out = seq![m2] + rest;
        assert(out[0] == m2);
        assert(out.subrange(1, out.len() as int) =~= rest);
    }
}

proof fn lemma_resolve_stmt_wf(s: StmtView, st: ScopesView)
    ensures
        resolve_stmt_spec(s, st).1.scopes.len() == st.scopes.len(),
        resolve_stmt_spec(s, st).1.class_types == st.class_types,
        resolve_stmt_spec(s, st).1.errors.len() >= st.errors.len(),
        wf_stmt(resolve_stmt_spec(s, st).0, st.scopes.len() as nat) || resolve_stmt_spec(s, st).1.errors.len() > st.errors.len(),
    decreases s,
{
    match s {
        StmtView::Print { expression, line } => {
            lemma_resolve_expr_wf(*expression, st);
        },
        StmtView::Expression(e) => {
            lemma_resolve_expr_wf(*e, st);
        },
        StmtView::Var { name, initializer, line } => {
            let st1 = sc_declare(st, name, line);
            match initializer {
                Some(e) => {
                    lemma_resolve_expr_wf(*e, st1);
                },
                None => {},
            }
        },
        StmtView::Block { statements } => {
            lemma_resolve_stmts_wf(statements, sc_begin_scope(st));
        },
        StmtView::If { condition, then_branch, else_branch } => {
            lemma_resolve_expr_wf(*condition, st);
            let st2 = resolve_expr_spec(*condition, st).1;
            lemma_resolve_stmt_wf(*then_branch, st2);
            let st3 = resolve_stmt_spec(*then_branch, st2).1;
            match else_branch {
                Some(e) => {
                    lemma_resolve_stmt_wf(*e, st3);
                },
                None => {},
            }
        },
        StmtView::While { condition, body } => {
            lemma_resolve_expr_wf(*condition, st);
            lemma_resolve_stmt_wf(*body, resolve_expr_spec(*condition, st).1);
        },
        StmtView::Function(f) => {
            let st1 = sc_define(sc_declare(st, f.name, f.line), f.name);
            lemma_resolve_function_wf(f, FunctionType::Function, st1);
        },
        StmtView::Return { maybe_expression, line } => {
            let st1 = if st.function_types.len() == 0 {
                sc_error(st, line, "Can't return from top-level code."@)
            } else {
                st
            };
            match maybe_expression {
                Some(e) => {
                    let st2 = if st1.function_types.len() > 0 && st1.function_types.last()
                        == FunctionType::Initializer {
                        sc_error(st1, line, "Can't return a value from an initializer."@)
                    } else {
                        st1
                    };
                    lemma_resolve_expr_wf(*e, st2);
                },
                None => {},
            }
        },
        StmtView::Class { name, methods, maybe_superclass, line } => {
            let st1 = sc_begin_class(
                st,
                if maybe_superclass is Some {
                    ClassType::Subclass
                } else {
                    ClassType::Class
                },
            );
            let st3 = sc_define(sc_declare(st1, name, line), name);
            match maybe_superclass {
                Some(sup) => {
                    let st4 = if sup.name == name {
                        sc_error(st3, sup.line, "A class can't inherit from itself."@)
                    } else {
                        st3
                    };
                    let st5 = sc_check_init(st4, sup.name, sup.line);
                    lemma_local_slot_ok(st5.scopes, sup.name);
                    let st7 = sc_define(sc_begin_scope(st5), "super"@);
                    let st9 = sc_define(sc_begin_scope(st7), "this"@);
                    lemma_resolve_methods_wf(methods, st9);
                },
                None => {
                    let st9 = sc_define(sc_begin_scope(st3), "this"@);
                    lemma_resolve_methods_wf(methods, st9);
                },
            }
        },
    }
}

proof fn lemma_resolve_stmts_wf(ss: Seq<StmtView>, st: ScopesView)
    ensures
        resolve_stmts_spec(ss, st).1.scopes.len() == st.scopes.len(),
        resolve_stmts_spec(ss, st).1.class_types == st.class_types,
        resolve_stmts_spec(ss, st).1.errors.len() >= st.errors.len(),
        wf_stmts(resolve_stmts_spec(ss, st).0, st.scopes.len() as nat) || resolve_stmts_spec(ss, st).1.errors.len() > st.errors.len(),
    decreases ss,
{
    if ss.len() > 0 {
        lemma_resolve_stmt_wf(ss[0], st);
        let st2 = resolve_stmt_spec(ss[0], st).1;
        lemma_resolve_stmts_wf(ss.subrange(1, ss.len() as int), st2);
        let (s2, _) = resolve_stmt_spec(ss[0], st);
        let (rest, _) = resolve_stmts_spec(ss.subrange(1, ss.len() as int), st2);
        let out = seq![s2] + rest;
        assert(out[0] == s2);
        assert(out.subrange(1, out.len() as int) =~= rest);
    }
}

/// In a program the resolver accepts, every `Variable`, `Assign`, `This`
/// and `Super` node's resolution is either empty, denoting a global
/// lookup, or a hop distance smaller than the number of lexical scopes
/// enclosing that node, so it never reaches past the frames that exist
/// when the node executes.
pub proof fn lemma_resolution_depths(ss: Seq<StmtView>)
    ensures
        resolve_program_spec(ss).1.len() == 0 ==> wf_stmts(resolve_program_spec(ss).0, 0),
{
    let st0 = ScopesView {
        scopes: Seq::empty(),
        function_types: Seq::empty(),
        class_types: Seq::empty(),
        errors: Seq::empty(),
    };
    lemma_resolve_stmts_wf(ss, st0);
}

} // verus!
