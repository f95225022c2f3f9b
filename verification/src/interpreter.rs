//! The tree-walking interpreter.
//!
//! Every function here is proved to compute what `semantics` says: the same
//! result and the same final state, whatever the host replies.

use crate::arith::{result_view, truthy};
use crate::ast::{
    elifs_view, exprs_view, fields_view, members_view, params_view, stmts_view, BinaryOp, Expr,
    Literal, ObjectMember, Param, Program, SpecStmt, Stmt, TableField, UnaryOp,
};
use crate::builtins::{
    all_builtins, arity_of, builtin_at, find_builtin, name_of, too_few_arguments, values_view,
    Builtin, BUILTIN_COUNT,
};
use crate::frames::state_wf;
use crate::host::{agrees, FloatUnary, Host, Recorded, Reply};
use crate::semantics::{
    builtin_bindings, define, define_in, done, emit, for_bounds, for_distance, index_value,
    initial_state, literal_value, lookup, member_value, push_env, sem_args, sem_binary, sem_bind,
    sem_binding, sem_block, sem_body, sem_builtin, sem_call, sem_elifs, sem_expr, sem_fields,
    sem_for, sem_for_bounds, sem_for_stmt, sem_if, sem_index, sem_member, sem_members, sem_object,
    sem_print, sem_program, sem_return, sem_stmt, sem_stmts, sem_unary, sem_while, unary_value,
    with_current, Eval, SpecEnvironment, State,
};
use crate::text::usize_to_string;
use crate::value::{
    index_view, ErrorKind, Flow, RuntimeError, SpecError, SpecFlow, SpecValue, Table, Value,
};
use vstd::prelude::*;
use vstd::string::StringExecFns;

verus! {

/// One environment: its bindings, and the index of the environment around it.
pub struct Environment<'p> {
    values: Table<'p>,
    parent: Option<usize>,
}

impl<'p> Environment<'p> {
    /// This environment as a mathematical value.
    pub closed spec fn view(&self) -> SpecEnvironment {
        SpecEnvironment { values: self.values@, parent: index_view(self.parent) }
    }

    /// An empty environment with nothing around it.
    pub fn new() -> (env: Self)
        ensures
            env@ == (SpecEnvironment { values: Seq::empty(), parent: None }),
    {
        Self { values: Table::new(), parent: None }
    }

    /// An empty environment inside `parent`.
    pub fn with_parent(parent: Option<usize>) -> (env: Self)
        ensures
            env@ == (SpecEnvironment { values: Seq::empty(), parent: index_view(parent) }),
    {
        Self { values: Table::new(), parent }
    }

    /// Binds `name` to `value` here.
    pub fn define(&mut self, name: String, value: Value<'p>)
        ensures
            final(self)@ == (SpecEnvironment {
                values: crate::value::entries_put(old(self)@.values, name@, value@),
                parent: old(self)@.parent,
            }),
    {
        self.values.insert(name, value);
    }

    /// The value bound to `name` here, not looking at the environments around.
    pub fn get(&self, name: &str) -> (r: Option<&Value<'p>>)
        ensures
            match r {
                Some(v) => crate::value::entries_get(self@.values, name@) == Some(v@),
                None => crate::value::entries_get(self@.values, name@) is None,
            },
    {
        self.values.get(name)
    }
}

/// The view of a result that holds a value.
pub open spec fn flow_view(r: Result<Flow<'_>, RuntimeError>) -> Result<SpecFlow, SpecError> {
    match r {
        Ok(f) => Ok(f@),
        Err(e) => Err(e@),
    }
}

/// The view of a result that holds nothing.
pub open spec fn unit_view(r: Result<(), RuntimeError>) -> Result<(), SpecError> {
    match r {
        Ok(_) => Ok(()),
        Err(e) => Err(e@),
    }
}

/// How deep calls may nest unless told otherwise.
pub const DEFAULT_DEPTH_LIMIT: usize = 200;

/// How often one `while` loop may go round unless told otherwise.
pub const DEFAULT_ITERATION_LIMIT: u64 = 10_000_000;

/// An interpreter: the environments made so far, the one in force, what was
/// printed and not yet handed out, the host, and the limits.
pub struct Interpreter<'p, H: Host> {
    host: Recorded<H>,
    envs: Vec<Environment<'p>>,
    current: usize,
    output: String,
    max_depth: usize,
    max_iterations: u64,
}

impl<'p, H: Host> Interpreter<'p, H> {
    /// The interpreter's state as a mathematical value.
    pub closed spec fn view(&self) -> State {
        State {
            envs: Seq::new(self.envs.len() as nat, |i: int| self.envs[i]@),
            current: self.current as int,
            output: self.output@,
            cursor: self.host.cursor(),
        }
    }

    /// The record of the host's replies.
    pub closed spec fn log(&self) -> Seq<Reply> {
        self.host.log()
    }

    /// How deep calls may nest.
    pub closed spec fn depth_limit(&self) -> nat {
        self.max_depth as nat
    }

    /// How often one `while` loop may go round.
    pub closed spec fn iteration_limit(&self) -> nat {
        self.max_iterations as nat
    }

    /// There is an environment in force.
    pub closed spec fn wf(&self) -> bool {
        self.current < self.envs.len()
    }

    /// In a well-formed interpreter an environment is in force.
    pub proof fn lemma_wf(&self)
        requires
            self.wf(),
        ensures
            state_wf(self@),
    {
    }

    /// `self` came out of `before` by evaluation: it is well formed and has
    /// the same limits.
    pub open spec fn follows(&self, before: &Self) -> bool {
        &&& self.wf()
        &&& self.depth_limit() == before.depth_limit()
        &&& self.iteration_limit() == before.iteration_limit()
        &&& self@.envs.len() >= before@.envs.len()
    }

    /// An interpreter whose root environment binds the built-ins, with the
    /// default limits.
    pub fn new(host: H) -> (interpreter: Self)
        ensures
            interpreter.wf(),
            interpreter@ == initial_state(),
            interpreter.log() == Seq::<Reply>::empty(),
            interpreter.depth_limit() == DEFAULT_DEPTH_LIMIT,
            interpreter.iteration_limit() == DEFAULT_ITERATION_LIMIT,
    {
        Self::with_limits(host, DEFAULT_DEPTH_LIMIT, DEFAULT_ITERATION_LIMIT)
    }

    /// An interpreter whose root environment binds the built-ins, in which
    /// calls may nest `max_depth` deep and a `while` loop may go round
    /// `max_iterations` times.
    pub fn with_limits(host: H, max_depth: usize, max_iterations: u64) -> (interpreter: Self)
        ensures
            interpreter.wf(),
            interpreter@ == initial_state(),
            interpreter.log() == Seq::<Reply>::empty(),
            interpreter.depth_limit() == max_depth,
            interpreter.iteration_limit() == max_iterations,
    {
        let mut root = Environment::new();
        let mut i: usize = 0;
        while i < BUILTIN_COUNT
            invariant
                i <= BUILTIN_COUNT,
                all_builtins().len() == BUILTIN_COUNT,
                root@ == (SpecEnvironment { values: builtin_bindings(i as int), parent: None }),
            decreases BUILTIN_COUNT - i,
        {
            let b = builtin_at(i);
            root.define(name_of(b).to_owned(), Value::BuiltinFunction(name_of(b).to_owned()));
            i += 1;
        }
        let mut envs: Vec<Environment<'p>> = Vec::new();
        envs.push(root);
        let interpreter = Interpreter {
            host: Recorded::new(host),
            envs,
            current: 0,
            output: String::new(),
            max_depth,
            max_iterations,
        };
        assert(interpreter@.envs =~= initial_state().envs);
        interpreter
    }

    /// Runs the statements of a program in order. However a statement ends,
    /// the next one runs; the first error ends the run.
    pub fn eval_program(&mut self, program: &'p Program) -> (r: Result<(), RuntimeError>)
        requires
            old(self).wf(),
        ensures
            final(self).follows(old(self)),
            forall|o: Seq<Reply>| #[trigger]
                agrees(final(self).log(), o) ==> agrees(old(self).log(), o) && sem_program(
                    old(self)@,
                    program@.body,
                    0,
                    old(self).depth_limit(),
                    old(self).iteration_limit(),
                    o,
                ) == (Eval { st: final(self)@, result: unit_view(r) }),
    {
        let depth = self.max_depth;
        let mut i: usize = 0;
        while i < program.body.len()
            invariant
                i <= program.body.len(),
                depth == old(self).depth_limit(),
                self.follows(old(self)),
                forall|o: Seq<Reply>| #[trigger]
                    agrees(self.log(), o) ==> agrees(old(self).log(), o) && sem_program(
                        old(self)@,
                        program@.body,
                        0,
                        old(self).depth_limit(),
                        old(self).iteration_limit(),
                        o,
                    ) == sem_program(
                        self@,
                        program@.body,
                        i as int,
                        old(self).depth_limit(),
                        old(self).iteration_limit(),
                        o,
                    ),
            decreases program.body.len() - i,
        {
            self.eval_stmt(&program.body[i], depth)?;
            i += 1;
        }
        Ok(())
    }

    /// The value bound to `name` as seen from the environment in force, which
    /// between runs is the root.
    pub fn get_global(&self, name: &str) -> (r: Option<Value<'p>>)
        requires
            self.wf(),
        ensures
            match r {
                Some(v) => lookup(self@.envs, self@.current, name@) == Some(v@),
                None => lookup(self@.envs, self@.current, name@) is None,
            },
    {
        self.lookup(name)
    }

    /// Hands out what was printed since the last call, and forgets it.
    pub fn take_output(&mut self) -> (text: String)
        requires
            old(self).wf(),
        ensures
            final(self).follows(old(self)),
            final(self).log() == old(self).log(),
            text@ == old(self)@.output,
            final(self)@ == (State { output: Seq::empty(), ..old(self)@ }),
    {
        let mut text = String::new();
        std::mem::swap(&mut self.output, &mut text);
        text
    }

    fn lookup(&self, name: &str) -> (r: Option<Value<'p>>)
        requires
            self.wf(),
        ensures
            match r {
                Some(v) => lookup(self@.envs, self@.current, name@) == Some(v@),
                None => lookup(self@.envs, self@.current, name@) is None,
            },
    {
        let mut id = self.current;
        loop
            invariant
                id < self.envs.len(),
                lookup(self@.envs, id as int, name@) == lookup(self@.envs, self@.current, name@),
            decreases id,
        {
            match self.envs[id].get(name) {
                Some(v) => {
                    return Some(v.duplicate());
                },
                None => {
                    match self.envs[id].parent {
                        Some(p) => {
                            if p < id {
                                id = p;
                            } else {
                                return None;
                            }
                        },
                        None => {
                            return None;
                        },
                    }
                },
            }
        }
    }

    fn define_in(&mut self, id: usize, name: String, value: Value<'p>)
        requires
            old(self).wf(),
            id < old(self)@.envs.len(),
        ensures
            final(self).follows(old(self)),
            final(self).log() == old(self).log(),
            final(self)@ == define_in(old(self)@, id as int, name@, value@),
    {
        self.envs[id].define(name, value);
        assert(self@.envs =~= define_in(old(self)@, id as int, name@, value@).envs);
    }

    /// Binds `name` to `value` in the environment in force.
    pub fn define(&mut self, name: String, value: Value<'p>)
        requires
            old(self).wf(),
        ensures
            final(self).follows(old(self)),
            final(self).log() == old(self).log(),
            final(self)@ == define(old(self)@, name@, value@),
    {
        let id = self.current;
        self.define_in(id, name, value);
    }

    fn push_env(&mut self, parent: Option<usize>) -> (id: usize)
        requires
            old(self).wf(),
        ensures
            final(self).follows(old(self)),
            final(self).log() == old(self).log(),
            final(self)@ == push_env(old(self)@, index_view(parent)),
            id == old(self)@.envs.len(),
    {
        let id = self.envs.len();
        self.envs.push(Environment::with_parent(parent));
        assert(self@.envs =~= push_env(old(self)@, index_view(parent)).envs);
        id
    }

    fn set_current(&mut self, id: usize)
        requires
            old(self).wf(),
            id < old(self)@.envs.len(),
        ensures
            final(self).follows(old(self)),
            final(self).log() == old(self).log(),
            final(self)@ == with_current(old(self)@, id as int),
    {
        self.current = id;
    }

    fn print(&mut self, text: &str)
        requires
            old(self).wf(),
        ensures
            final(self).follows(old(self)),
            final(self).log() == old(self).log(),
            final(self)@ == emit(old(self)@, text@),
    {
        self.output.append(text);
    }

    fn eval_literal(&mut self, lit: &'p Literal) -> (v: Value<'p>)
        requires
            old(self).wf(),
        ensures
            final(self).follows(old(self)),
            forall|o: Seq<Reply>| #[trigger]
                agrees(final(self).log(), o) ==> agrees(old(self).log(), o) && literal_value(
                    old(self)@,
                    lit@,
                    o,
                ) == done(final(self)@, v@),
    {
        match lit {
            Literal::Int(i) => Value::Int(*i),
            Literal::Float(text) => {
                match self.host.parse(text.as_str()) {
                    Some(bits) => Value::Float(bits),
                    None => Value::Float(0),
                }
            },
            Literal::Bool(b) => Value::Bool(*b),
            Literal::String(s) => Value::String(s.clone()),
            Literal::Nil => Value::Nil,
        }
    }

    fn eval_unary(&mut self, op: UnaryOp, v: Value<'p>) -> (r: Result<Value<'p>, RuntimeError>)
        requires
            old(self).wf(),
        ensures
            final(self).follows(old(self)),
            forall|o: Seq<Reply>| #[trigger]
                agrees(final(self).log(), o) ==> agrees(old(self).log(), o) && unary_value(
                    old(self)@,
                    op,
                    v@,
                    o,
                ) == (Eval { st: final(self)@, result: result_view(r) }),
    {
        match op {
            UnaryOp::Negate => match v {
                Value::Int(i) => {
                    if i == i64::MIN {
                        Err(RuntimeError::new(ErrorKind::Overflow, "integer overflow"))
                    } else {
                        Ok(Value::Int(-i))
                    }
                },
                Value::Float(bits) => Ok(Value::Float(self.host.unary(FloatUnary::Negate, bits))),
                _ => Err(RuntimeError::new(ErrorKind::Type, "type error: unary - on non-number")),
            },
            UnaryOp::Not => Ok(Value::Bool(!truthy(&v))),
        }
    }

    fn eval_member(&self, object: Value<'p>, field: &str) -> (r: Result<Value<'p>, RuntimeError>)
        ensures
            member_value(self@, object@, field@) == (Eval { st: self@, result: result_view(r) }),
    {
        match object {
            Value::Table(t) => match t.get(field) {
                Some(v) => Ok(v.duplicate()),
                None => Ok(Value::Nil),
            },
            _ => {
                let mut message = "cannot access member '".to_owned();
                message.append(field);
                message.append("' on non-table");
                Err(RuntimeError::new(ErrorKind::Type, message.as_str()))
            },
        }
    }

    fn eval_index(&self, object: Value<'p>, index: Value<'p>) -> (r: Result<
        Value<'p>,
        RuntimeError,
    >)
        ensures
            index_value(self@, object@, index@) == (Eval { st: self@, result: result_view(r) }),
    {
        match object {
            Value::Table(t) => match index {
                Value::String(key) => match t.get(key.as_str()) {
                    Some(v) => Ok(v.duplicate()),
                    None => Ok(Value::Nil),
                },
                _ => Err(RuntimeError::new(ErrorKind::Type, "table index must be a string")),
            },
            _ => Err(RuntimeError::new(ErrorKind::Type, "cannot index non-table")),
        }
    }

    /// Computes an expression.
    pub fn eval_expr(&mut self, expr: &'p Expr, depth: usize) -> (r: Result<
        Value<'p>,
        RuntimeError,
    >)
        requires
            old(self).wf(),
        ensures
            final(self).follows(old(self)),
            forall|o: Seq<Reply>| #[trigger]
                agrees(final(self).log(), o) ==> agrees(old(self).log(), o) && sem_expr(
                    old(self)@,
                    expr@,
                    depth as nat,
                    old(self).iteration_limit(),
                    o,
                ) == (Eval { st: final(self)@, result: result_view(r) }),
        decreases depth, 0nat, expr, 1nat, 0nat,
    {
        match expr {
            Expr::Literal(lit) => Ok(self.eval_literal(lit)),
            Expr::Ident(name) => match self.lookup(name.as_str()) {
                Some(v) => Ok(v),
                None => {
                    let mut message = "Undefined identifier '".to_owned();
                    message.append(name.as_str());
                    message.append("'");
                    Err(RuntimeError::new(ErrorKind::UndefinedIdentifier, message.as_str()))
                },
            },
            Expr::Unary { .. } => self.eval_unary_expr(expr, depth),
            Expr::Binary { .. } => self.eval_binary(expr, depth),
            Expr::Call { .. } => self.eval_call(expr, depth),
            Expr::Member { .. } => self.eval_member_expr(expr, depth),
            Expr::Index { .. } => self.eval_index_expr(expr, depth),
            Expr::TableLiteral(fields) => {
                let table = self.eval_table(fields, depth)?;
                Ok(Value::Table(table))
            },
        }
    }

    fn eval_unary_expr(&mut self, expr: &'p Expr, depth: usize) -> (r: Result<
        Value<'p>,
        RuntimeError,
    >)
        requires
            old(self).wf(),
        ensures
            final(self).follows(old(self)),
            forall|o: Seq<Reply>| #[trigger]
                agrees(final(self).log(), o) ==> agrees(old(self).log(), o) && sem_unary(
                    old(self)@,
                    expr@,
                    depth as nat,
                    old(self).iteration_limit(),
                    o,
                ) == (Eval { st: final(self)@, result: result_view(r) }),
        decreases depth, 0nat, expr, 0nat, 0nat,
    {
        match expr {
            Expr::Unary { op, expr: inner } => {
                let v = self.eval_expr(inner, depth)?;
                self.eval_unary(*op, v)
            },
            _ => Ok(Value::Nil),
        }
    }

    fn eval_binary(&mut self, expr: &'p Expr, depth: usize) -> (r: Result<Value<'p>, RuntimeError>)
        requires
            old(self).wf(),
        ensures
            final(self).follows(old(self)),
            forall|o: Seq<Reply>| #[trigger]
                agrees(final(self).log(), o) ==> agrees(old(self).log(), o) && sem_binary(
                    old(self)@,
                    expr@,
                    depth as nat,
                    old(self).iteration_limit(),
                    o,
                ) == (Eval { st: final(self)@, result: result_view(r) }),
        decreases depth, 0nat, expr, 0nat, 0nat,
    {
        match expr {
            Expr::Binary { left, op, right } => {
                let l = self.eval_expr(left, depth)?;
                match op {
                    BinaryOp::And => {
                        if !truthy(&l) {
                            return Ok(Value::Bool(false));
                        }
                    },
                    BinaryOp::Or => {
                        if truthy(&l) {
                            return Ok(Value::Bool(true));
                        }
                    },
                    _ => {},
                }
                let r = self.eval_expr(right, depth)?;
                assert(self.log() == self.host.log());
                self.host.apply_binary(*op, l, r)
            },
            _ => Ok(Value::Nil),
        }
    }

    fn eval_member_expr(&mut self, expr: &'p Expr, depth: usize) -> (r: Result<
        Value<'p>,
        RuntimeError,
    >)
        requires
            old(self).wf(),
        ensures
            final(self).follows(old(self)),
            forall|o: Seq<Reply>| #[trigger]
                agrees(final(self).log(), o) ==> agrees(old(self).log(), o) && sem_member(
                    old(self)@,
                    expr@,
                    depth as nat,
                    old(self).iteration_limit(),
                    o,
                ) == (Eval { st: final(self)@, result: result_view(r) }),
        decreases depth, 0nat, expr, 0nat, 0nat,
    {
        match expr {
            Expr::Member { object, field } => {
                let v = self.eval_expr(object, depth)?;
                self.eval_member(v, field.as_str())
            },
            _ => Ok(Value::Nil),
        }
    }

    fn eval_index_expr(&mut self, expr: &'p Expr, depth: usize) -> (r: Result<
        Value<'p>,
        RuntimeError,
    >)
        requires
            old(self).wf(),
        ensures
            final(self).follows(old(self)),
            forall|o: Seq<Reply>| #[trigger]
                agrees(final(self).log(), o) ==> agrees(old(self).log(), o) && sem_index(
                    old(self)@,
                    expr@,
                    depth as nat,
                    old(self).iteration_limit(),
                    o,
                ) == (Eval { st: final(self)@, result: result_view(r) }),
        decreases depth, 0nat, expr, 0nat, 0nat,
    {
        match expr {
            Expr::Index { object, index } => {
                let v = self.eval_expr(object, depth)?;
                let i = self.eval_expr(index, depth)?;
                self.eval_index(v, i)
            },
            _ => Ok(Value::Nil),
        }
    }

    fn eval_table(&mut self, fields: &'p Vec<TableField>, depth: usize) -> (r: Result<
        Table<'p>,
        RuntimeError,
    >)
        requires
            old(self).wf(),
        ensures
            final(self).follows(old(self)),
            forall|o: Seq<Reply>| #[trigger]
                agrees(final(self).log(), o) ==> agrees(old(self).log(), o) && sem_fields(
                    old(self)@,
                    fields_view(fields@),
                    0,
                    Seq::empty(),
                    depth as nat,
                    old(self).iteration_limit(),
                    o,
                ) == (Eval { st: final(self)@, result: table_view(r) }),
        decreases depth, 0nat, fields, 0nat, 0nat,
    {
        let mut table = Table::new();
        let mut i: usize = 0;
        while i < fields.len()
            invariant
                i <= fields.len(),
                self.follows(old(self)),
                forall|o: Seq<Reply>| #[trigger]
                    agrees(self.log(), o) ==> agrees(old(self).log(), o) && sem_fields(
                        old(self)@,
                        fields_view(fields@),
                        0,
                        Seq::empty(),
                        depth as nat,
                        old(self).iteration_limit(),
                        o,
                    ) == sem_fields(
                        self@,
                        fields_view(fields@),
                        i as int,
                        table@,
                        depth as nat,
                        old(self).iteration_limit(),
                        o,
                    ),
            decreases fields.len() - i,
        {
            match &fields[i] {
                TableField::KeyValue { key, value } => {
                    let v = self.eval_expr(value, depth)?;
                    table.insert(key.clone(), v);
                },
                TableField::Value(value) => {
                    let v = self.eval_expr(value, depth)?;
                    table.insert(usize_to_string(i), v);
                },
            }
            i += 1;
        }
        Ok(table)
    }

    fn eval_args(&mut self, args: &'p Vec<Expr>, n: usize, depth: usize) -> (r: Result<
        Vec<Value<'p>>,
        RuntimeError,
    >)
        requires
            old(self).wf(),
            n <= args.len(),
        ensures
            final(self).follows(old(self)),
            r is Ok ==> r->Ok_0.len() == n,
            forall|o: Seq<Reply>| #[trigger]
                agrees(final(self).log(), o) ==> agrees(old(self).log(), o) && sem_args(
                    old(self)@,
                    exprs_view(args@),
                    0,
                    n as int,
                    Seq::empty(),
                    depth as nat,
                    old(self).iteration_limit(),
                    o,
                ) == (Eval { st: final(self)@, result: values_result(r) }),
        decreases depth, 0nat, args, 0nat, 0nat,
    {
        let mut values: Vec<Value<'p>> = Vec::new();
        let mut i: usize = 0;
        assert(values_view(values@) =~= Seq::<SpecValue>::empty());
        while i < n
            invariant
                i <= n <= args.len(),
                values.len() == i,
                self.follows(old(self)),
                forall|o: Seq<Reply>| #[trigger]
                    agrees(self.log(), o) ==> agrees(old(self).log(), o) && sem_args(
                        old(self)@,
                        exprs_view(args@),
                        0,
                        n as int,
                        Seq::empty(),
                        depth as nat,
                        old(self).iteration_limit(),
                        o,
                    ) == sem_args(
                        self@,
                        exprs_view(args@),
                        i as int,
                        n as int,
                        values_view(values@),
                        depth as nat,
                        old(self).iteration_limit(),
                        o,
                    ),
            decreases n - i,
        {
            let v = self.eval_expr(&args[i], depth)?;
            proof {
                assert(values_view(values@).push(v@) =~= values_view(values@.push(v)));
            }
            values.push(v);
            i += 1;
        }
        Ok(values)
    }

    fn eval_print(&mut self, args: &'p Vec<Expr>, depth: usize) -> (r: Result<
        Value<'p>,
        RuntimeError,
    >)
        requires
            old(self).wf(),
        ensures
            final(self).follows(old(self)),
            forall|o: Seq<Reply>| #[trigger]
                agrees(final(self).log(), o) ==> agrees(old(self).log(), o) && sem_print(
                    old(self)@,
                    exprs_view(args@),
                    0,
                    depth as nat,
                    old(self).iteration_limit(),
                    o,
                ) == (Eval { st: final(self)@, result: result_view(r) }),
        decreases depth, 0nat, args, 0nat, 0nat,
    {
        let mut i: usize = 0;
        while i < args.len()
            invariant
                i <= args.len(),
                self.follows(old(self)),
                forall|o: Seq<Reply>| #[trigger]
                    agrees(self.log(), o) ==> agrees(old(self).log(), o) && sem_print(
                        old(self)@,
                        exprs_view(args@),
                        0,
                        depth as nat,
                        old(self).iteration_limit(),
                        o,
                    ) == sem_print(
                        self@,
                        exprs_view(args@),
                        i as int,
                        depth as nat,
                        old(self).iteration_limit(),
                        o,
                    ),
            decreases args.len() - i,
        {
            if i > 0 {
                self.print(" ");
            }
            let v = self.eval_expr(&args[i], depth)?;
            assert(self.log() == self.host.log());
            let text = self.host.value_to_string(&v);
            self.print(text.as_str());
            i += 1;
        }
        Ok(Value::Nil)
    }

    /// Calls the built-in tagged `name`.
    pub fn call_builtin(&mut self, name: &str, args: &'p Vec<Expr>, depth: usize) -> (r: Result<
        Value<'p>,
        RuntimeError,
    >)
        requires
            old(self).wf(),
        ensures
            final(self).follows(old(self)),
            forall|o: Seq<Reply>| #[trigger]
                agrees(final(self).log(), o) ==> agrees(old(self).log(), o) && sem_builtin(
                    old(self)@,
                    name@,
                    exprs_view(args@),
                    depth as nat,
                    old(self).iteration_limit(),
                    o,
                ) == (Eval { st: final(self)@, result: result_view(r) }),
        decreases depth, 0nat, args, 1nat, 0nat,
    {
        match find_builtin(name) {
            None => {
                let mut message = "unknown built-in function: ".to_owned();
                message.append(name);
                Err(RuntimeError::new(ErrorKind::UnknownBuiltin, message.as_str()))
            },
            Some(Builtin::Print) => self.eval_print(args, depth),
            Some(Builtin::Println) => {
                self.eval_print(args, depth)?;
                self.print("\n");
                Ok(Value::Nil)
            },
            Some(b) => {
                let n = arity_of(b);
                if args.len() < n {
                    return Err(too_few_arguments(b));
                }
                let values = self.eval_args(args, n, depth)?;
                assert(self.log() == self.host.log());
                self.host.apply_builtin(b, &values)
            },
        }
    }

    fn bind_params(
        &mut self,
        params: &Vec<Param>,
        args: &'p Vec<Expr>,
        target: usize,
        depth: usize,
    ) -> (r: Result<(), RuntimeError>)
        requires
            old(self).wf(),
            target < old(self)@.envs.len(),
        ensures
            final(self).follows(old(self)),
            forall|o: Seq<Reply>| #[trigger]
                agrees(final(self).log(), o) ==> agrees(old(self).log(), o) && sem_bind(
                    old(self)@,
                    params_view(params@),
                    exprs_view(args@),
                    0,
                    target as int,
                    depth as nat,
                    old(self).iteration_limit(),
                    o,
                ) == (Eval { st: final(self)@, result: unit_view(r) }),
        decreases depth, 0nat, args, 0nat, 0nat,
    {
        let mut i: usize = 0;
        while i < params.len()
            invariant
                i <= params.len(),
                target < old(self)@.envs.len(),
                self.follows(old(self)),
                forall|o: Seq<Reply>| #[trigger]
                    agrees(self.log(), o) ==> agrees(old(self).log(), o) && sem_bind(
                        old(self)@,
                        params_view(params@),
                        exprs_view(args@),
                        0,
                        target as int,
                        depth as nat,
                        old(self).iteration_limit(),
                        o,
                    ) == sem_bind(
                        self@,
                        params_view(params@),
                        exprs_view(args@),
                        i as int,
                        target as int,
                        depth as nat,
                        old(self).iteration_limit(),
                        o,
                    ),
            decreases params.len() - i,
        {
            let value = if i < args.len() {
                self.eval_expr(&args[i], depth)?
            } else {
                Value::Nil
            };
            self.define_in(target, params[i].name.clone(), value);
            i += 1;
        }
        Ok(())
    }

    /// Calls what `e`, a call expression, names.
    pub fn eval_call(&mut self, e: &'p Expr, depth: usize) -> (r: Result<Value<'p>, RuntimeError>)
        requires
            old(self).wf(),
        ensures
            final(self).follows(old(self)),
            forall|o: Seq<Reply>| #[trigger]
                agrees(final(self).log(), o) ==> agrees(old(self).log(), o) && sem_call(
                    old(self)@,
                    e@,
                    depth as nat,
                    old(self).iteration_limit(),
                    o,
                ) == (Eval { st: final(self)@, result: result_view(r) }),
        decreases depth, 0nat, e, 0nat, 0nat,
    {
        match e {
            Expr::Call { callee, args } => {
                let callee_value = self.eval_expr(callee, depth)?;
                match callee_value {
                    Value::BuiltinFunction(name) => self.call_builtin(name.as_str(), args, depth),
                    Value::Function { decl, closure } => {
                        if depth == 0 {
                            return Err(
                                RuntimeError::new(ErrorKind::DepthExceeded, "call depth exceeded"),
                            );
                        }
                        let caller = self.current;
                        let parent = match closure {
                            Some(id) => Some(id),
                            None => Some(caller),
                        };
                        let target = self.push_env(parent);
                        match self.bind_params(&decl.params, args, target, depth) {
                            Err(err) => Err(err),
                            Ok(()) => {
                                self.set_current(target);
                                let result = self.eval_function_body(&decl.body, depth - 1);
                                self.set_current(caller);
                                match result {
                                    Ok(Flow::Return(v)) => Ok(v),
                                    Ok(_) => Ok(Value::Nil),
                                    Err(err) => Err(err),
                                }
                            },
                        }
                    },
                    _ => Err(
                        RuntimeError::new(ErrorKind::NotCallable, "attempt to call non-function"),
                    ),
                }
            },
            _ => Err(RuntimeError::new(ErrorKind::NotCallable, "attempt to call non-function")),
        }
    }

    fn eval_function_body(&mut self, body: &'p Stmt, depth: usize) -> (r: Result<
        Flow<'p>,
        RuntimeError,
    >)
        requires
            old(self).wf(),
        ensures
            final(self).follows(old(self)),
            forall|o: Seq<Reply>| #[trigger]
                agrees(final(self).log(), o) ==> agrees(old(self).log(), o) && sem_body(
                    old(self)@,
                    body@,
                    depth as nat,
                    old(self).iteration_limit(),
                    o,
                ) == (Eval { st: final(self)@, result: flow_view(r) }),
        decreases depth, 1nat, body, 4nat, 0nat,
    {
        match body {
            Stmt::Block(stmts) => self.eval_stmts(stmts, depth),
            _ => self.eval_stmt(body, depth),
        }
    }

    fn eval_stmts(&mut self, stmts: &'p Vec<Stmt>, depth: usize) -> (r: Result<
        Flow<'p>,
        RuntimeError,
    >)
        requires
            old(self).wf(),
        ensures
            final(self).follows(old(self)),
            forall|o: Seq<Reply>| #[trigger]
                agrees(final(self).log(), o) ==> agrees(old(self).log(), o) && sem_stmts(
                    old(self)@,
                    stmts_view(stmts@),
                    0,
                    depth as nat,
                    old(self).iteration_limit(),
                    o,
                ) == (Eval { st: final(self)@, result: flow_view(r) }),
        decreases depth, 1nat, stmts, 0nat, 0nat,
    {
        let mut i: usize = 0;
        while i < stmts.len()
            invariant
                i <= stmts.len(),
                self.follows(old(self)),
                forall|o: Seq<Reply>| #[trigger]
                    agrees(self.log(), o) ==> agrees(old(self).log(), o) && sem_stmts(
                        old(self)@,
                        stmts_view(stmts@),
                        0,
                        depth as nat,
                        old(self).iteration_limit(),
                        o,
                    ) == sem_stmts(
                        self@,
                        stmts_view(stmts@),
                        i as int,
                        depth as nat,
                        old(self).iteration_limit(),
                        o,
                    ),
            decreases stmts.len() - i,
        {
            match self.eval_stmt(&stmts[i], depth)? {
                Flow::Normal => {},
                flow => {
                    return Ok(flow);
                },
            }
            i += 1;
        }
        Ok(Flow::Normal)
    }

    /// Runs a statement.
    pub fn eval_stmt(&mut self, stmt: &'p Stmt, depth: usize) -> (r: Result<Flow<'p>, RuntimeError>)
        requires
            old(self).wf(),
        ensures
            final(self).follows(old(self)),
            forall|o: Seq<Reply>| #[trigger]
                agrees(final(self).log(), o) ==> agrees(old(self).log(), o) && sem_stmt(
                    old(self)@,
                    stmt@,
                    depth as nat,
                    old(self).iteration_limit(),
                    o,
                ) == (Eval { st: final(self)@, result: flow_view(r) }),
        decreases depth, 1nat, stmt, 3nat, 0nat,
    {
        match stmt {
            Stmt::VarDecl { .. } => self.eval_binding(stmt, depth),
            Stmt::Assignment { .. } => self.eval_binding(stmt, depth),
            Stmt::Expr(e) => {
                self.eval_expr(e, depth)?;
                Ok(Flow::Normal)
            },
            Stmt::Block(_) => self.eval_block(stmt, depth),
            Stmt::If { .. } => self.eval_if(stmt, depth),
            Stmt::While { .. } => self.eval_while(stmt, depth),
            Stmt::For { .. } => self.eval_for(stmt, depth),
            Stmt::Break => Ok(Flow::Break),
            Stmt::Continue => Ok(Flow::Continue),
            Stmt::Return(_) => self.eval_return(stmt, depth),
            Stmt::FuncDecl(func) => {
                let closure = Some(self.current);
                self.define(func.name.clone(), Value::Function { decl: func, closure });
                Ok(Flow::Normal)
            },
            Stmt::ObjectDecl(_) => self.eval_object(stmt, depth),
        }
    }

    fn eval_binding(&mut self, stmt: &'p Stmt, depth: usize) -> (r: Result<Flow<'p>, RuntimeError>)
        requires
            old(self).wf(),
        ensures
            final(self).follows(old(self)),
            forall|o: Seq<Reply>| #[trigger]
                agrees(final(self).log(), o) ==> agrees(old(self).log(), o) && sem_binding(
                    old(self)@,
                    stmt@,
                    depth as nat,
                    old(self).iteration_limit(),
                    o,
                ) == (Eval { st: final(self)@, result: flow_view(r) }),
        decreases depth, 1nat, stmt, 1nat, 0nat,
    {
        match stmt {
            Stmt::VarDecl { name, init } => {
                let v = self.eval_expr(init, depth)?;
                self.define(name.clone(), v);
                Ok(Flow::Normal)
            },
            Stmt::Assignment { name, value } => {
                let v = self.eval_expr(value, depth)?;
                self.define(name.clone(), v);
                Ok(Flow::Normal)
            },
            _ => Ok(Flow::Normal),
        }
    }

    fn eval_block(&mut self, stmt: &'p Stmt, depth: usize) -> (r: Result<Flow<'p>, RuntimeError>)
        requires
            old(self).wf(),
        ensures
            final(self).follows(old(self)),
            forall|o: Seq<Reply>| #[trigger]
                agrees(final(self).log(), o) ==> agrees(old(self).log(), o) && sem_block(
                    old(self)@,
                    stmt@,
                    depth as nat,
                    old(self).iteration_limit(),
                    o,
                ) == (Eval { st: final(self)@, result: flow_view(r) }),
        decreases depth, 1nat, stmt, 1nat, 0nat,
    {
        match stmt {
            Stmt::Block(stmts) => {
                let saved = self.current;
                let id = self.push_env(Some(saved));
                self.set_current(id);
                let r = self.eval_stmts(stmts, depth);
                self.set_current(saved);
                r
            },
            _ => Ok(Flow::Normal),
        }
    }

    fn eval_if(&mut self, stmt: &'p Stmt, depth: usize) -> (r: Result<Flow<'p>, RuntimeError>)
        requires
            old(self).wf(),
        ensures
            final(self).follows(old(self)),
            forall|o: Seq<Reply>| #[trigger]
                agrees(final(self).log(), o) ==> agrees(old(self).log(), o) && sem_if(
                    old(self)@,
                    stmt@,
                    depth as nat,
                    old(self).iteration_limit(),
                    o,
                ) == (Eval { st: final(self)@, result: flow_view(r) }),
        decreases depth, 1nat, stmt, 2nat, 0nat,
    {
        match stmt {
            Stmt::If { condition, then_branch, .. } => {
                let c = self.eval_expr(condition, depth)?;
                if truthy(&c) {
                    self.eval_stmt(then_branch, depth)
                } else {
                    self.eval_elifs(stmt, depth)
                }
            },
            _ => Ok(Flow::Normal),
        }
    }

    fn eval_return(&mut self, stmt: &'p Stmt, depth: usize) -> (r: Result<Flow<'p>, RuntimeError>)
        requires
            old(self).wf(),
        ensures
            final(self).follows(old(self)),
            forall|o: Seq<Reply>| #[trigger]
                agrees(final(self).log(), o) ==> agrees(old(self).log(), o) && sem_return(
                    old(self)@,
                    stmt@,
                    depth as nat,
                    old(self).iteration_limit(),
                    o,
                ) == (Eval { st: final(self)@, result: flow_view(r) }),
        decreases depth, 1nat, stmt, 1nat, 0nat,
    {
        match stmt {
            Stmt::Return(Some(e)) => {
                let v = self.eval_expr(e, depth)?;
                Ok(Flow::Return(v))
            },
            _ => Ok(Flow::Return(Value::Nil)),
        }
    }

    fn eval_object(&mut self, stmt: &'p Stmt, depth: usize) -> (r: Result<Flow<'p>, RuntimeError>)
        requires
            old(self).wf(),
        ensures
            final(self).follows(old(self)),
            forall|o: Seq<Reply>| #[trigger]
                agrees(final(self).log(), o) ==> agrees(old(self).log(), o) && sem_object(
                    old(self)@,
                    stmt@,
                    depth as nat,
                    old(self).iteration_limit(),
                    o,
                ) == (Eval { st: final(self)@, result: flow_view(r) }),
        decreases depth, 1nat, stmt, 1nat, 0nat,
    {
        match stmt {
            Stmt::ObjectDecl(obj) => {
                assert(stmt@ == SpecStmt::ObjectDecl(obj.view()));
                assert(obj.view().members == members_view(obj.members@));
                let table = self.eval_members(&obj.members, depth)?;
                self.define(obj.name.clone(), Value::Table(table));
                Ok(Flow::Normal)
            },
            _ => Ok(Flow::Normal),
        }
    }

    fn eval_elifs(&mut self, stmt: &'p Stmt, depth: usize) -> (r: Result<Flow<'p>, RuntimeError>)
        requires
            old(self).wf(),
        ensures
            final(self).follows(old(self)),
            forall|o: Seq<Reply>| #[trigger]
                agrees(final(self).log(), o) ==> agrees(old(self).log(), o) && sem_elifs(
                    old(self)@,
                    stmt@,
                    0,
                    depth as nat,
                    old(self).iteration_limit(),
                    o,
                ) == (Eval { st: final(self)@, result: flow_view(r) }),
        decreases depth, 1nat, stmt, 1nat, 0nat,
    {
        match stmt {
            Stmt::If { elif_branches, else_branch, .. } => {
                let mut i: usize = 0;
                while i < elif_branches.len()
                    invariant
                        i <= elif_branches.len(),
                        stmt is If,
                        elif_branches == stmt->elif_branches,
                        self.follows(old(self)),
                        forall|o: Seq<Reply>| #[trigger]
                            agrees(self.log(), o) ==> agrees(old(self).log(), o) && sem_elifs(
                                old(self)@,
                                stmt@,
                                0,
                                depth as nat,
                                old(self).iteration_limit(),
                                o,
                            ) == sem_elifs(
                                self@,
                                stmt@,
                                i as int,
                                depth as nat,
                                old(self).iteration_limit(),
                                o,
                            ),
                    decreases elif_branches.len() - i,
                {
                    assert(stmt@ is If);
                    assert(stmt@->elif_branches == elifs_view(elif_branches@));
                    assert(stmt@->elif_branches[i as int].0 == elif_branches[i as int].0.view());
                    let c = self.eval_expr(&elif_branches[i].0, depth)?;
                    if truthy(&c) {
                        return self.eval_stmt(&elif_branches[i].1, depth);
                    }
                    i += 1;
                }
                assert(stmt@->elif_branches == elifs_view(elif_branches@));
                match else_branch {
                    Some(b) => self.eval_stmt(b, depth),
                    None => Ok(Flow::Normal),
                }
            },
            _ => Ok(Flow::Normal),
        }
    }

    fn eval_while(&mut self, stmt: &'p Stmt, depth: usize) -> (r: Result<Flow<'p>, RuntimeError>)
        requires
            old(self).wf(),
        ensures
            final(self).follows(old(self)),
            forall|o: Seq<Reply>| #[trigger]
                agrees(final(self).log(), o) ==> agrees(old(self).log(), o) && sem_while(
                    old(self)@,
                    stmt@,
                    old(self).iteration_limit(),
                    depth as nat,
                    old(self).iteration_limit(),
                    o,
                ) == (Eval { st: final(self)@, result: flow_view(r) }),
        decreases depth, 1nat, stmt, 1nat, 0nat,
    {
        match stmt {
            Stmt::While { condition, body } => {
                let mut left: u64 = self.max_iterations;
                loop
                    invariant
                        stmt is While,
                        condition == stmt->While_condition,
                        body == stmt->While_body,
                        self.follows(old(self)),
                        forall|o: Seq<Reply>| #[trigger]
                            agrees(self.log(), o) ==> agrees(old(self).log(), o) && sem_while(
                                old(self)@,
                                stmt@,
                                old(self).iteration_limit(),
                                depth as nat,
                                old(self).iteration_limit(),
                                o,
                            ) == sem_while(
                                self@,
                                stmt@,
                                left as nat,
                                depth as nat,
                                old(self).iteration_limit(),
                                o,
                            ),
                    decreases left,
                {
                    let c = self.eval_expr(condition, depth)?;
                    if !truthy(&c) {
                        return Ok(Flow::Normal);
                    }
                    if left == 0 {
                        return Err(
                            RuntimeError::new(
                                ErrorKind::IterationLimit,
                                "loop iteration limit exceeded",
                            ),
                        );
                    }
                    match self.eval_stmt(body, depth)? {
                        Flow::Break => {
                            return Ok(Flow::Normal);
                        },
                        Flow::Return(v) => {
                            return Ok(Flow::Return(v));
                        },
                        _ => {},
                    }
                    left -= 1;
                }
            },
            _ => Ok(Flow::Normal),
        }
    }

    fn for_bounds(&mut self, start: Value<'p>, end: Value<'p>, step: Value<'p>) -> (r: Result<
        (i64, i64, i64),
        RuntimeError,
    >)
        requires
            old(self).wf(),
        ensures
            final(self).follows(old(self)),
            forall|o: Seq<Reply>| #[trigger]
                agrees(final(self).log(), o) ==> agrees(old(self).log(), o) && for_bounds(
                    old(self)@,
                    start@,
                    end@,
                    step@,
                    o,
                ) == (Eval { st: final(self)@, result: bounds_view(r) }),
    {
        match (start, end, step) {
            (Value::Int(s), Value::Int(e), Value::Int(t)) => Ok((s, e, t)),
            (Value::Float(s), Value::Float(e), Value::Float(t)) => {
                let s = self.host.to_int(s);
                let e = self.host.to_int(e);
                let t = self.host.to_int(t);
                Ok((s, e, t))
            },
            (Value::Int(s), Value::Float(e), Value::Int(t)) => {
                let e = self.host.to_int(e);
                Ok((s, e, t))
            },
            (Value::Float(s), Value::Int(e), Value::Float(t)) => {
                let s = self.host.to_int(s);
                let t = self.host.to_int(t);
                Ok((s, e, t))
            },
            _ => Err(
                RuntimeError::new(
                    ErrorKind::Type,
                    "for loop requires numeric start, end, and step",
                ),
            ),
        }
    }

    fn eval_for_bounds(&mut self, stmt: &'p Stmt, depth: usize) -> (r: Result<
        (i64, i64, i64),
        RuntimeError,
    >)
        requires
            old(self).wf(),
        ensures
            final(self).follows(old(self)),
            forall|o: Seq<Reply>| #[trigger]
                agrees(final(self).log(), o) ==> agrees(old(self).log(), o) && sem_for_bounds(
                    old(self)@,
                    stmt@,
                    depth as nat,
                    old(self).iteration_limit(),
                    o,
                ) == (Eval { st: final(self)@, result: bounds_view(r) }),
        decreases depth, 1nat, stmt, 1nat, 0nat,
    {
        match stmt {
            Stmt::For { start, end, step, .. } => {
                let start_value = self.eval_expr(start, depth)?;
                let end_value = self.eval_expr(end, depth)?;
                let step_value = match step {
                    Some(e) => self.eval_expr(e, depth)?,
                    None => Value::Int(1),
                };
                self.for_bounds(start_value, end_value, step_value)
            },
            _ => Ok((0, 0, 1)),
        }
    }

    fn eval_for(&mut self, stmt: &'p Stmt, depth: usize) -> (r: Result<Flow<'p>, RuntimeError>)
        requires
            old(self).wf(),
        ensures
            final(self).follows(old(self)),
            forall|o: Seq<Reply>| #[trigger]
                agrees(final(self).log(), o) ==> agrees(old(self).log(), o) && sem_for_stmt(
                    old(self)@,
                    stmt@,
                    depth as nat,
                    old(self).iteration_limit(),
                    o,
                ) == (Eval { st: final(self)@, result: flow_view(r) }),
        decreases depth, 1nat, stmt, 2nat, 0nat,
    {
        let (first, last, by) = self.eval_for_bounds(stmt, depth)?;
        if by == 0 {
            return Err(RuntimeError::new(ErrorKind::Domain, "for loop step cannot be zero"));
        }
        let saved = self.current;
        let id = self.push_env(Some(saved));
        self.set_current(id);
        let r = self.run_for(stmt, first, last, by, depth);
        self.set_current(saved);
        r
    }

    fn run_for(&mut self, stmt: &'p Stmt, first: i64, last: i64, by: i64, depth: usize) -> (r:
        Result<Flow<'p>, RuntimeError>)
        requires
            old(self).wf(),
            by != 0,
        ensures
            final(self).follows(old(self)),
            forall|o: Seq<Reply>| #[trigger]
                agrees(final(self).log(), o) ==> agrees(old(self).log(), o) && sem_for(
                    old(self)@,
                    stmt@,
                    first,
                    last,
                    by,
                    depth as nat,
                    old(self).iteration_limit(),
                    o,
                ) == (Eval { st: final(self)@, result: flow_view(r) }),
        decreases depth, 1nat, stmt, 1nat, 0nat,
    {
        match stmt {
            Stmt::For { var_name, body, .. } => {
                let mut i: i64 = first;
                loop
                    invariant
                        by != 0,
                        stmt is For,
                        var_name == stmt->var_name,
                        body == stmt->For_body,
                        self.follows(old(self)),
                        forall|o: Seq<Reply>| #[trigger]
                            agrees(self.log(), o) ==> agrees(old(self).log(), o) && sem_for(
                                old(self)@,
                                stmt@,
                                first,
                                last,
                                by,
                                depth as nat,
                                old(self).iteration_limit(),
                                o,
                            ) == sem_for(
                                self@,
                                stmt@,
                                i,
                                last,
                                by,
                                depth as nat,
                                old(self).iteration_limit(),
                                o,
                            ),
                    decreases for_distance(i, last, by),
                {
                    let go = if by > 0 {
                        i <= last
                    } else {
                        i >= last
                    };
                    if !go {
                        return Ok(Flow::Normal);
                    }
                    self.define(var_name.clone(), Value::Int(i));
                    match self.eval_stmt(body, depth)? {
                        Flow::Break => {
                            return Ok(Flow::Normal);
                        },
                        Flow::Return(v) => {
                            return Ok(Flow::Return(v));
                        },
                        _ => {},
                    }
                    match i.checked_add(by) {
                        Some(next) => {
                            i = next;
                        },
                        None => {
                            return Ok(Flow::Normal);
                        },
                    }
                }
            },
            _ => Ok(Flow::Normal),
        }
    }

    fn eval_members(&mut self, members: &'p Vec<ObjectMember>, depth: usize) -> (r: Result<
        Table<'p>,
        RuntimeError,
    >)
        requires
            old(self).wf(),
        ensures
            final(self).follows(old(self)),
            forall|o: Seq<Reply>| #[trigger]
                agrees(final(self).log(), o) ==> agrees(old(self).log(), o) && sem_members(
                    old(self)@,
                    members_view(members@),
                    0,
                    Seq::empty(),
                    depth as nat,
                    old(self).iteration_limit(),
                    o,
                ) == (Eval { st: final(self)@, result: table_view(r) }),
        decreases depth, 1nat, members, 0nat, 0nat,
    {
        let mut table = Table::new();
        let mut i: usize = 0;
        while i < members.len()
            invariant
                i <= members.len(),
                self.follows(old(self)),
                forall|o: Seq<Reply>| #[trigger]
                    agrees(self.log(), o) ==> agrees(old(self).log(), o) && sem_members(
                        old(self)@,
                        members_view(members@),
                        0,
                        Seq::empty(),
                        depth as nat,
                        old(self).iteration_limit(),
                        o,
                    ) == sem_members(
                        self@,
                        members_view(members@),
                        i as int,
                        table@,
                        depth as nat,
                        old(self).iteration_limit(),
                        o,
                    ),
            decreases members.len() - i,
        {
            match &members[i] {
                ObjectMember::Var(Stmt::VarDecl { name, init }) => {
                    let v = self.eval_expr(init, depth)?;
                    table.insert(name.clone(), v);
                },
                ObjectMember::Method(func) => {
                    let closure = Some(self.current);
                    table.insert(func.name.clone(), Value::Function { decl: func, closure });
                },
                _ => {},
            }
            i += 1;
        }
        Ok(table)
    }
}

/// The view of a result that holds a table.
pub open spec fn table_view(r: Result<Table<'_>, RuntimeError>) -> Result<
    Seq<(Seq<char>, SpecValue)>,
    SpecError,
> {
    match r {
        Ok(t) => Ok(t@),
        Err(e) => Err(e@),
    }
}

/// The view of a result that holds a list of values.
pub open spec fn values_result(r: Result<Vec<Value<'_>>, RuntimeError>) -> Result<
    Seq<SpecValue>,
    SpecError,
> {
    match r {
        Ok(values) => Ok(values_view(values@)),
        Err(e) => Err(e@),
    }
}

/// The view of a result that holds the bounds of a `for` loop.
pub open spec fn bounds_view(r: Result<(i64, i64, i64), RuntimeError>) -> Result<
    (i64, i64, i64),
    SpecError,
> {
    match r {
        Ok(b) => Ok(b),
        Err(e) => Err(e@),
    }
}

} // verus!

