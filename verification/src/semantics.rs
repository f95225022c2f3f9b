//! What programs mean: the evaluation of expressions and statements as
//! mathematical functions of a state.
//!
//! A state holds every environment that was ever made, each with its
//! bindings and the index of its parent, the index of the environment in
//! force, the text printed so far, and the number of host replies read so
//! far. Environments are never copied: a closure names the environment it was
//! declared in by index, so what is bound there later is seen through it.
//!
//! Evaluation takes the replies of the host as an argument, `o`, and reads
//! them in order. `depth` bounds how deep calls of functions may nest, and
//! `lim` how often one `while` loop may go round.

use crate::arith::{apply_binary, int_result};
use crate::ast::{SpecExpr, SpecLiteral, SpecObjectMember, SpecStmt, SpecTableField, UnaryOp};
use crate::builtins::{
    all_builtins, arity, arity_error, builtin_name, builtin_named, builtin_result, to_text, Builtin,
};
use crate::host::{bits_at, int_at, parsed_at, FloatUnary, Reply, Request};
use crate::text::decimal;
use crate::value::{
    entries_get, entries_put, error, truthy, ErrorKind, SpecError, SpecFlow, SpecValue,
};
use vstd::prelude::*;

verus! {

/// One environment: its bindings, and the index of the environment around it.
pub ghost struct SpecEnvironment {
    pub values: Seq<(Seq<char>, SpecValue)>,
    pub parent: Option<int>,
}

/// The state of a run.
pub ghost struct State {
    pub envs: Seq<SpecEnvironment>,
    pub current: int,
    pub output: Seq<char>,
    pub cursor: int,
}

/// A state after evaluation, and what was computed.
pub ghost struct Eval<T> {
    pub st: State,
    pub result: Result<T, SpecError>,
}

/// The evaluation that gave `value` and left the state `st`.
pub open spec fn done<T>(st: State, value: T) -> Eval<T> {
    Eval { st, result: Ok(value) }
}

/// The evaluation that failed with `e` and left the state `st`.
pub open spec fn failed<T>(st: State, e: SpecError) -> Eval<T> {
    Eval { st, result: Err(e) }
}

/// The value bound to `name` in environment `id` or, failing that, in the
/// nearest environment around it that binds the name.
pub open spec fn lookup(envs: Seq<SpecEnvironment>, id: int, name: Seq<char>) -> Option<SpecValue>
    decreases id,
{
    if id < 0 || id >= envs.len() {
        None
    } else {
        match entries_get(envs[id].values, name) {
            Some(v) => Some(v),
            None => match envs[id].parent {
                Some(p) => if 0 <= p < id {
                    lookup(envs, p, name)
                } else {
                    None
                },
                None => None,
            },
        }
    }
}

/// A name is found in the nearest environment that binds it: where
/// environment `id` itself binds the name, the environments around it are not
/// looked at.
pub proof fn lemma_lookup_nearest(envs: Seq<SpecEnvironment>, id: int, name: Seq<char>)
    requires
        0 <= id < envs.len(),
        entries_get(envs[id].values, name) is Some,
    ensures
        lookup(envs, id, name) == entries_get(envs[id].values, name),
{
}

/// Binding a name in one environment binds it there and changes no other
/// environment, so a name bound in an inner environment leaves the bindings
/// of the environments around it as they were.
pub proof fn lemma_define_is_local(st: State, id: int, name: Seq<char>, v: SpecValue, other: int)
    requires
        0 <= id < st.envs.len(),
        0 <= other < st.envs.len(),
        crate::value::keys_distinct(st.envs[id].values),
    ensures
        define_in(st, id, name, v).envs.len() == st.envs.len(),
        lookup(define_in(st, id, name, v).envs, id, name) == Some(v),
        other != id ==> define_in(st, id, name, v).envs[other] == st.envs[other],
        define_in(st, id, name, v).envs[id].parent == st.envs[id].parent,
{
    crate::value::lemma_entries_put(st.envs[id].values, name, v, name);
}

/// The state with `name` bound to `v` in environment `id`. Other
/// environments, also those around `id`, are left as they are.
pub open spec fn define_in(st: State, id: int, name: Seq<char>, v: SpecValue) -> State {
    State {
        envs: st.envs.update(
            id,
            SpecEnvironment {
                values: entries_put(st.envs[id].values, name, v),
                parent: st.envs[id].parent,
            },
        ),
        ..st
    }
}

/// The state with `name` bound to `v` in the environment in force.
pub open spec fn define(st: State, name: Seq<char>, v: SpecValue) -> State {
    define_in(st, st.current, name, v)
}

/// The state with one more environment, empty, around which lies `parent`.
pub open spec fn push_env(st: State, parent: Option<int>) -> State {
    State { envs: st.envs.push(SpecEnvironment { values: Seq::empty(), parent }), ..st }
}

/// The state with environment `current` in force.
pub open spec fn with_current(st: State, current: int) -> State {
    State { current, ..st }
}

/// The state with `cursor` host replies read.
pub open spec fn with_cursor(st: State, cursor: int) -> State {
    State { cursor, ..st }
}

/// The state with `text` printed.
pub open spec fn emit(st: State, text: Seq<char>) -> State {
    State { output: st.output + text, ..st }
}

/// An operation's outcome as an evaluation in `st`.
pub open spec fn lift(st: State, outcome: crate::arith::Outcome) -> Eval<SpecValue> {
    Eval { st: with_cursor(st, outcome.cursor), result: outcome.result }
}

/// The value of a literal. A float literal is read by the host; one that the
/// host cannot read is zero.
pub open spec fn literal_value(st: State, lit: SpecLiteral, o: Seq<Reply>) -> Eval<SpecValue> {
    match lit {
        SpecLiteral::Int(i) => done(st, SpecValue::Int(i)),
        SpecLiteral::Float(text) => done(
            with_cursor(st, st.cursor + 1),
            SpecValue::Float(
                match parsed_at(o, st.cursor, Request::Parse(text)) {
                    Some(bits) => bits,
                    None => 0,
                },
            ),
        ),
        SpecLiteral::Bool(b) => done(st, SpecValue::Bool(b)),
        SpecLiteral::String(s) => done(st, SpecValue::String(s)),
        SpecLiteral::Nil => done(st, SpecValue::Nil),
    }
}

/// The error of a name that no environment binds.
pub open spec fn undefined_identifier(name: Seq<char>) -> SpecError {
    error(ErrorKind::UndefinedIdentifier, "Undefined identifier '"@ + name + "'"@)
}

/// `op v`. Negation of the least integer is an overflow error.
pub open spec fn unary_value(st: State, op: UnaryOp, v: SpecValue, o: Seq<Reply>) -> Eval<
    SpecValue,
> {
    match op {
        UnaryOp::Negate => match v {
            SpecValue::Int(i) => Eval { st, result: int_result(-i) },
            SpecValue::Float(bits) => done(
                with_cursor(st, st.cursor + 1),
                SpecValue::Float(bits_at(o, st.cursor, Request::Unary(FloatUnary::Negate, bits))),
            ),
            _ => failed(st, error(ErrorKind::Type, "type error: unary - on non-number"@)),
        },
        UnaryOp::Not => done(st, SpecValue::Bool(!truthy(v))),
    }
}

/// `object.field`: the entry of a table, or Nil where the table has no such
/// key.
pub open spec fn member_value(st: State, object: SpecValue, field: Seq<char>) -> Eval<SpecValue> {
    match object {
        SpecValue::Table(t) => done(
            st,
            match entries_get(t, field) {
                Some(v) => v,
                None => SpecValue::Nil,
            },
        ),
        _ => failed(
            st,
            error(ErrorKind::Type, "cannot access member '"@ + field + "' on non-table"@),
        ),
    }
}

/// A key that a table does not hold reads as Nil, by member access and by
/// index access; it is no error.
pub proof fn lemma_absent_key_is_nil(st: State, t: Seq<(Seq<char>, SpecValue)>, key: Seq<char>)
    requires
        entries_get(t, key) is None,
    ensures
        member_value(st, SpecValue::Table(t), key) == done(st, SpecValue::Nil),
        index_value(st, SpecValue::Table(t), SpecValue::String(key)) == done(
            st,
            SpecValue::Nil,
        ),
{
}

/// `object[index]`.
pub open spec fn index_value(st: State, object: SpecValue, index: SpecValue) -> Eval<SpecValue> {
    match object {
        SpecValue::Table(t) => match index {
            SpecValue::String(key) => done(
                st,
                match entries_get(t, key) {
                    Some(v) => v,
                    None => SpecValue::Nil,
                },
            ),
            _ => failed(st, error(ErrorKind::Type, "table index must be a string"@)),
        },
        _ => failed(st, error(ErrorKind::Type, "cannot index non-table"@)),
    }
}

/// The bounds of a `for` loop as integers, a float cut off by the host.
/// Only four mixes of integers and floats are accepted.
pub open spec fn for_bounds(
    st: State,
    start: SpecValue,
    end: SpecValue,
    step: SpecValue,
    o: Seq<Reply>,
) -> Eval<(i64, i64, i64)> {
    let c = st.cursor;
    match (start, end, step) {
        (SpecValue::Int(s), SpecValue::Int(e), SpecValue::Int(t)) => done(st, (s, e, t)),
        (SpecValue::Float(s), SpecValue::Float(e), SpecValue::Float(t)) => done(
            with_cursor(st, c + 3),
            (
                int_at(o, c, Request::ToInt(s)),
                int_at(o, c + 1, Request::ToInt(e)),
                int_at(o, c + 2, Request::ToInt(t)),
            ),
        ),
        (SpecValue::Int(s), SpecValue::Float(e), SpecValue::Int(t)) => done(
            with_cursor(st, c + 1),
            (s, int_at(o, c, Request::ToInt(e)), t),
        ),
        (SpecValue::Float(s), SpecValue::Int(e), SpecValue::Float(t)) => done(
            with_cursor(st, c + 2),
            (int_at(o, c, Request::ToInt(s)), e, int_at(o, c + 1, Request::ToInt(t))),
        ),
        _ => failed(
            st,
            error(ErrorKind::Type, "for loop requires numeric start, end, and step"@),
        ),
    }
}

/// How many more times a `for` loop at `i` can go round at most.
pub open spec fn for_distance(i: i64, end: i64, step: i64) -> nat {
    if step > 0 && i <= end {
        (end - i + 1) as nat
    } else if step < 0 && i >= end {
        (i - end + 1) as nat
    } else {
        0
    }
}

/// The value of an expression.
pub open spec fn sem_expr(st: State, e: SpecExpr, depth: nat, lim: nat, o: Seq<Reply>) -> Eval<
    SpecValue,
>
    decreases depth, 0nat, e, 1nat, 0nat,
{
    match e {
        SpecExpr::Literal(lit) => literal_value(st, lit, o),
        SpecExpr::Ident(name) => match lookup(st.envs, st.current, name) {
            Some(v) => done(st, v),
            None => failed(st, undefined_identifier(name)),
        },
        SpecExpr::Unary { .. } => sem_unary(st, e, depth, lim, o),
        SpecExpr::Binary { .. } => sem_binary(st, e, depth, lim, o),
        SpecExpr::Call { .. } => sem_call(st, e, depth, lim, o),
        SpecExpr::Member { .. } => sem_member(st, e, depth, lim, o),
        SpecExpr::Index { .. } => sem_index(st, e, depth, lim, o),
        SpecExpr::TableLiteral(fields) => {
            let r = sem_fields(st, fields, 0, Seq::empty(), depth, lim, o);
            match r.result {
                Ok(entries) => done(r.st, SpecValue::Table(entries)),
                Err(err) => failed(r.st, err),
            }
        },
    }
}

/// A unary operator applied to the value of its operand.
pub open spec fn sem_unary(st: State, e: SpecExpr, depth: nat, lim: nat, o: Seq<Reply>) -> Eval<
    SpecValue,
>
    decreases depth, 0nat, e, 0nat, 0nat,
{
    match e {
        SpecExpr::Unary { op, expr } => {
            let r = sem_expr(st, *expr, depth, lim, o);
            match r.result {
                Ok(v) => unary_value(r.st, op, v, o),
                Err(_) => r,
            }
        },
        _ => done(st, SpecValue::Nil),
    }
}

/// A binary operator: the left operand is computed, then the right, then
/// the operator is applied. `and` and `or` give a Bool, and compute the right
/// operand only where the left does not decide.
pub open spec fn sem_binary(st: State, e: SpecExpr, depth: nat, lim: nat, o: Seq<Reply>) -> Eval<
    SpecValue,
>
    decreases depth, 0nat, e, 0nat, 0nat,
{
    match e {
        SpecExpr::Binary { left, op, right } => {
            let l = sem_expr(st, *left, depth, lim, o);
            match l.result {
                Err(_) => l,
                Ok(lv) => if op is And && !truthy(lv) {
                    done(l.st, SpecValue::Bool(false))
                } else if op is Or && truthy(lv) {
                    done(l.st, SpecValue::Bool(true))
                } else {
                    let r = sem_expr(l.st, *right, depth, lim, o);
                    match r.result {
                        Err(_) => r,
                        Ok(rv) => lift(r.st, apply_binary(op, lv, rv, o, r.st.cursor)),
                    }
                },
            }
        },
        _ => done(st, SpecValue::Nil),
    }
}

/// `and` and `or` leave their right operand alone where the left one
/// decides: the result is then a Bool, and the state is as the left operand
/// left it.
pub proof fn lemma_short_circuit(
    st: State,
    left: SpecExpr,
    op: crate::ast::BinaryOp,
    right: SpecExpr,
    depth: nat,
    lim: nat,
    o: Seq<Reply>,
)
    requires
        sem_expr(st, left, depth, lim, o).result is Ok,
        (op is And && !truthy(sem_expr(st, left, depth, lim, o).result->Ok_0)) || (op is Or
            && truthy(sem_expr(st, left, depth, lim, o).result->Ok_0)),
    ensures
        sem_expr(
            st,
            SpecExpr::Binary { left: Box::new(left), op, right: Box::new(right) },
            depth,
            lim,
            o,
        ) == done(sem_expr(st, left, depth, lim, o).st, SpecValue::Bool(op is Or)),
{
    let e = SpecExpr::Binary { left: Box::new(left), op, right: Box::new(right) };
    assert(sem_expr(st, e, depth, lim, o) == sem_binary(st, e, depth, lim, o));
}

/// Dividing by zero fails: where the right operand of `/` or `%` comes out
/// as zero, integer or float, the expression is an error, whatever the left
/// operand is and whatever the host replies.
pub proof fn lemma_zero_divisor_fails(
    st: State,
    left: SpecExpr,
    op: crate::ast::BinaryOp,
    right: SpecExpr,
    depth: nat,
    lim: nat,
    o: Seq<Reply>,
)
    requires
        op is Div || op is Mod,
        sem_expr(st, left, depth, lim, o).result is Ok,
        sem_expr(sem_expr(st, left, depth, lim, o).st, right, depth, lim, o).result is Ok,
        crate::arith::is_zero(
            sem_expr(sem_expr(st, left, depth, lim, o).st, right, depth, lim, o).result->Ok_0,
        ),
    ensures
        sem_expr(
            st,
            SpecExpr::Binary { left: Box::new(left), op, right: Box::new(right) },
            depth,
            lim,
            o,
        ).result is Err,
{
    let e = SpecExpr::Binary { left: Box::new(left), op, right: Box::new(right) };
    assert(sem_expr(st, e, depth, lim, o) == sem_binary(st, e, depth, lim, o));
    let l = sem_expr(st, left, depth, lim, o);
    let r = sem_expr(l.st, right, depth, lim, o);
    crate::arith::lemma_division_by_zero_fails(
        op,
        l.result->Ok_0,
        r.result->Ok_0,
        o,
        r.st.cursor,
    );
}

/// `object.field`.
pub open spec fn sem_member(st: State, e: SpecExpr, depth: nat, lim: nat, o: Seq<Reply>) -> Eval<
    SpecValue,
>
    decreases depth, 0nat, e, 0nat, 0nat,
{
    match e {
        SpecExpr::Member { object, field } => {
            let r = sem_expr(st, *object, depth, lim, o);
            match r.result {
                Ok(v) => member_value(r.st, v, field),
                Err(_) => r,
            }
        },
        _ => done(st, SpecValue::Nil),
    }
}

/// `object[index]`: the object is computed first, then the index.
pub open spec fn sem_index(st: State, e: SpecExpr, depth: nat, lim: nat, o: Seq<Reply>) -> Eval<
    SpecValue,
>
    decreases depth, 0nat, e, 0nat, 0nat,
{
    match e {
        SpecExpr::Index { object, index } => {
            let obj = sem_expr(st, *object, depth, lim, o);
            match obj.result {
                Err(_) => obj,
                Ok(object_value) => {
                    let idx = sem_expr(obj.st, *index, depth, lim, o);
                    match idx.result {
                        Err(_) => idx,
                        Ok(index_v) => index_value(idx.st, object_value, index_v),
                    }
                },
            }
        },
        _ => done(st, SpecValue::Nil),
    }
}

/// The entries of a table literal from field `i` on, put into `acc`. A field
/// without a key is keyed by its position, in decimal.
pub open spec fn sem_fields(
    st: State,
    fields: Seq<SpecTableField>,
    i: int,
    acc: Seq<(Seq<char>, SpecValue)>,
    depth: nat,
    lim: nat,
    o: Seq<Reply>,
) -> Eval<Seq<(Seq<char>, SpecValue)>>
    decreases depth, 0nat, fields, 0nat, fields.len() - i,
{
    if i < 0 || i >= fields.len() {
        done(st, acc)
    } else {
        let (key, value) = match fields[i] {
            SpecTableField::KeyValue { key, value } => (key, value),
            SpecTableField::Value(value) => (decimal(i), value),
        };
        let r = sem_expr(st, value, depth, lim, o);
        match r.result {
            Err(err) => failed(r.st, err),
            Ok(v) => sem_fields(r.st, fields, i + 1, entries_put(acc, key, v), depth, lim, o),
        }
    }
}

/// The values of the arguments from `i` up to `n`, put behind `acc`.
pub open spec fn sem_args(
    st: State,
    args: Seq<SpecExpr>,
    i: int,
    n: int,
    acc: Seq<SpecValue>,
    depth: nat,
    lim: nat,
    o: Seq<Reply>,
) -> Eval<Seq<SpecValue>>
    decreases depth, 0nat, args, 0nat, args.len() - i,
{
    if i < 0 || i >= n || i >= args.len() {
        done(st, acc)
    } else {
        let r = sem_expr(st, args[i], depth, lim, o);
        match r.result {
            Err(err) => failed(r.st, err),
            Ok(v) => sem_args(r.st, args, i + 1, n, acc.push(v), depth, lim, o),
        }
    }
}

/// `print` of the arguments from `i` on: each is computed and then printed,
/// with a space before every one but the first.
pub open spec fn sem_print(
    st: State,
    args: Seq<SpecExpr>,
    i: int,
    depth: nat,
    lim: nat,
    o: Seq<Reply>,
) -> Eval<SpecValue>
    decreases depth, 0nat, args, 0nat, args.len() - i,
{
    if i < 0 || i >= args.len() {
        done(st, SpecValue::Nil)
    } else {
        let spaced = if i > 0 {
            emit(st, " "@)
        } else {
            st
        };
        let r = sem_expr(spaced, args[i], depth, lim, o);
        match r.result {
            Err(_) => r,
            Ok(v) => {
                let (text, c) = to_text(v, o, r.st.cursor);
                sem_print(emit(with_cursor(r.st, c), text), args, i + 1, depth, lim, o)
            },
        }
    }
}

/// The error of a tag that names no built-in.
pub open spec fn unknown_builtin(name: Seq<char>) -> SpecError {
    error(ErrorKind::UnknownBuiltin, "unknown built-in function: "@ + name)
}

/// A call of the built-in tagged `name`. A built-in that needs `n` arguments
/// fails where fewer are given, before any is computed; else it computes the
/// first `n` in order and leaves further ones alone.
pub open spec fn sem_builtin(
    st: State,
    name: Seq<char>,
    args: Seq<SpecExpr>,
    depth: nat,
    lim: nat,
    o: Seq<Reply>,
) -> Eval<SpecValue>
    decreases depth, 0nat, args, 1nat, 0nat,
{
    match builtin_named(name) {
        None => failed(st, unknown_builtin(name)),
        Some(Builtin::Print) => sem_print(st, args, 0, depth, lim, o),
        Some(Builtin::Println) => {
            let r = sem_print(st, args, 0, depth, lim, o);
            match r.result {
                Ok(_) => done(emit(r.st, "\n"@), SpecValue::Nil),
                Err(_) => r,
            }
        },
        Some(b) => if args.len() < arity(b) {
            failed(st, arity_error(b))
        } else {
            let r = sem_args(st, args, 0, arity(b) as int, Seq::empty(), depth, lim, o);
            match r.result {
                Err(err) => failed(r.st, err),
                Ok(values) => lift(r.st, builtin_result(b, values, o, r.st.cursor)),
            }
        },
    }
}

/// Binds the parameters from `i` on in environment `target`: each to the
/// value of the argument at its position, computed in the caller's
/// environment, or to Nil where there is no such argument.
pub open spec fn sem_bind(
    st: State,
    params: Seq<Seq<char>>,
    args: Seq<SpecExpr>,
    i: int,
    target: int,
    depth: nat,
    lim: nat,
    o: Seq<Reply>,
) -> Eval<()>
    decreases depth, 0nat, args, 0nat, params.len() - i,
{
    if i < 0 || i >= params.len() {
        done(st, ())
    } else if i < args.len() {
        let r = sem_expr(st, args[i], depth, lim, o);
        match r.result {
            Err(err) => failed(r.st, err),
            Ok(v) => sem_bind(
                define_in(r.st, target, params[i], v),
                params,
                args,
                i + 1,
                target,
                depth,
                lim,
                o,
            ),
        }
    } else {
        sem_bind(
            define_in(st, target, params[i], SpecValue::Nil),
            params,
            args,
            i + 1,
            target,
            depth,
            lim,
            o,
        )
    }
}

/// The error of calling what is no function.
pub open spec fn not_callable() -> SpecError {
    error(ErrorKind::NotCallable, "attempt to call non-function"@)
}

/// The error of calls nested deeper than allowed.
pub open spec fn too_deep() -> SpecError {
    error(ErrorKind::DepthExceeded, "call depth exceeded"@)
}

/// What a call gives for the way its body ended: the returned value, or Nil.
pub open spec fn call_value(flow: SpecFlow) -> SpecValue {
    match flow {
        SpecFlow::Return(v) => v,
        _ => SpecValue::Nil,
    }
}

/// A call. The callee is computed first. A function gets a new environment
/// around which lies the environment it closes over (or the caller's, where
/// it closes over none); its parameters are bound there, its body runs
/// there, and afterwards the caller's environment is in force again,
/// whether the body failed or not.
pub open spec fn sem_call(st: State, e: SpecExpr, depth: nat, lim: nat, o: Seq<Reply>) -> Eval<
    SpecValue,
>
    decreases depth, 0nat, e, 0nat, 0nat,
{
    match e {
        SpecExpr::Call { callee, args } => {
            let c = sem_expr(st, *callee, depth, lim, o);
            match c.result {
                Err(_) => c,
                Ok(SpecValue::BuiltinFunction(name)) => sem_builtin(
                    c.st,
                    name,
                    args,
                    depth,
                    lim,
                    o,
                ),
                Ok(SpecValue::Function { decl, closure }) => if depth == 0 {
                    failed(c.st, too_deep())
                } else {
                    let caller = c.st.current;
                    let target = c.st.envs.len() as int;
                    let parent = match closure {
                        Some(id) => Some(id),
                        None => Some(caller),
                    };
                    let bound = sem_bind(
                        push_env(c.st, parent),
                        decl.params,
                        args,
                        0,
                        target,
                        depth,
                        lim,
                        o,
                    );
                    match bound.result {
                        Err(err) => failed(bound.st, err),
                        Ok(_) => {
                            let body = sem_body(
                                with_current(bound.st, target),
                                *decl.body,
                                (depth - 1) as nat,
                                lim,
                                o,
                            );
                            Eval {
                                st: with_current(body.st, caller),
                                result: match body.result {
                                    Ok(flow) => Ok(call_value(flow)),
                                    Err(err) => Err(err),
                                },
                            }
                        },
                    }
                },
                Ok(_) => failed(c.st, not_callable()),
            }
        },
        _ => failed(st, not_callable()),
    }
}

/// The body of a function: the statements of a block run in the call's
/// environment itself.
pub open spec fn sem_body(st: State, body: SpecStmt, depth: nat, lim: nat, o: Seq<Reply>) -> Eval<
    SpecFlow,
>
    decreases depth, 1nat, body, 4nat, 0nat,
{
    match body {
        SpecStmt::Block(stmts) => sem_stmts(st, stmts, 0, depth, lim, o),
        _ => sem_stmt(st, body, depth, lim, o),
    }
}

/// The statements from `i` on, in order, up to the first that does not end
/// normally.
pub open spec fn sem_stmts(
    st: State,
    stmts: Seq<SpecStmt>,
    i: int,
    depth: nat,
    lim: nat,
    o: Seq<Reply>,
) -> Eval<SpecFlow>
    decreases depth, 1nat, stmts, 0nat, stmts.len() - i,
{
    if i < 0 || i >= stmts.len() {
        done(st, SpecFlow::Normal)
    } else {
        let r = sem_stmt(st, stmts[i], depth, lim, o);
        match r.result {
            Ok(SpecFlow::Normal) => sem_stmts(r.st, stmts, i + 1, depth, lim, o),
            _ => r,
        }
    }
}

/// The `elif` branches from `i` on, then the `else` branch.
pub open spec fn sem_elifs(
    st: State,
    s: SpecStmt,
    i: int,
    depth: nat,
    lim: nat,
    o: Seq<Reply>,
) -> Eval<SpecFlow>
    decreases depth, 1nat, s, 1nat, (if s is If {
        s->elif_branches.len() - i
    } else {
        0
    }),
{
    match s {
        SpecStmt::If { condition, then_branch, elif_branches, else_branch } => {
            if i < 0 || i >= elif_branches.len() {
                match else_branch {
                    Some(b) => sem_stmt(st, *b, depth, lim, o),
                    None => done(st, SpecFlow::Normal),
                }
            } else {
                let c = sem_expr(st, elif_branches[i].0, depth, lim, o);
                match c.result {
                    Err(err) => failed(c.st, err),
                    Ok(v) => if truthy(v) {
                        sem_stmt(c.st, elif_branches[i].1, depth, lim, o)
                    } else {
                        sem_elifs(c.st, s, i + 1, depth, lim, o)
                    },
                }
            }
        },
        _ => done(st, SpecFlow::Normal),
    }
}

/// The error of a `while` loop that went round more often than allowed.
pub open spec fn too_many_iterations() -> SpecError {
    error(ErrorKind::IterationLimit, "loop iteration limit exceeded"@)
}

/// A `while` loop that may go round `left` more times.
pub open spec fn sem_while(
    st: State,
    s: SpecStmt,
    left: nat,
    depth: nat,
    lim: nat,
    o: Seq<Reply>,
) -> Eval<SpecFlow>
    decreases depth, 1nat, s, 1nat, left,
{
    match s {
        SpecStmt::While { condition, body } => {
            let c = sem_expr(st, condition, depth, lim, o);
            match c.result {
                Err(err) => failed(c.st, err),
                Ok(v) => if !truthy(v) {
                    done(c.st, SpecFlow::Normal)
                } else if left == 0 {
                    failed(c.st, too_many_iterations())
                } else {
                    let b = sem_stmt(c.st, *body, depth, lim, o);
                    match b.result {
                        Err(_) => b,
                        Ok(SpecFlow::Break) => done(b.st, SpecFlow::Normal),
                        Ok(SpecFlow::Return(v)) => b,
                        Ok(_) => sem_while(b.st, s, (left - 1) as nat, depth, lim, o),
                    }
                },
            }
        },
        _ => done(st, SpecFlow::Normal),
    }
}

/// A `for` loop whose variable is at `i`. The loop goes round while `i` has
/// not passed `end`, which it may reach; it ends where `i + step` would leave
/// the 64-bit range.
pub open spec fn sem_for(
    st: State,
    s: SpecStmt,
    i: i64,
    end: i64,
    step: i64,
    depth: nat,
    lim: nat,
    o: Seq<Reply>,
) -> Eval<SpecFlow>
    decreases depth, 1nat, s, 1nat, for_distance(i, end, step),
{
    match s {
        SpecStmt::For { var_name, start, end: _end, step: _step, body } => {
            if for_distance(i, end, step) == 0 {
                done(st, SpecFlow::Normal)
            } else {
                let b = sem_stmt(define(st, var_name, SpecValue::Int(i)), *body, depth, lim, o);
                match b.result {
                    Err(_) => b,
                    Ok(SpecFlow::Break) => done(b.st, SpecFlow::Normal),
                    Ok(SpecFlow::Return(v)) => b,
                    Ok(_) => if i64::MIN <= i + step <= i64::MAX {
                        sem_for(b.st, s, (i + step) as i64, end, step, depth, lim, o)
                    } else {
                        done(b.st, SpecFlow::Normal)
                    },
                }
            }
        },
        _ => done(st, SpecFlow::Normal),
    }
}

/// The entries of an object from member `i` on, put into `acc`. A `var`
/// member is computed at once, a method closes over the environment in
/// force, and an event leaves no entry.
pub open spec fn sem_members(
    st: State,
    members: Seq<SpecObjectMember>,
    i: int,
    acc: Seq<(Seq<char>, SpecValue)>,
    depth: nat,
    lim: nat,
    o: Seq<Reply>,
) -> Eval<Seq<(Seq<char>, SpecValue)>>
    decreases depth, 1nat, members, 0nat, members.len() - i,
{
    if i < 0 || i >= members.len() {
        done(st, acc)
    } else {
        match members[i] {
            SpecObjectMember::Var(SpecStmt::VarDecl { name, init }) => {
                let r = sem_expr(st, init, depth, lim, o);
                match r.result {
                    Err(err) => failed(r.st, err),
                    Ok(v) => sem_members(
                        r.st,
                        members,
                        i + 1,
                        entries_put(acc, name, v),
                        depth,
                        lim,
                        o,
                    ),
                }
            },
            SpecObjectMember::Method(f) => sem_members(
                st,
                members,
                i + 1,
                entries_put(
                    acc,
                    f.name,
                    SpecValue::Function { decl: f, closure: Some(st.current) },
                ),
                depth,
                lim,
                o,
            ),
            _ => sem_members(st, members, i + 1, acc, depth, lim, o),
        }
    }
}

/// `var name = init;` and `name = value;`: the name is bound, in the
/// environment in force, to the value of the expression.
pub open spec fn sem_binding(st: State, s: SpecStmt, depth: nat, lim: nat, o: Seq<Reply>) -> Eval<
    SpecFlow,
>
    decreases depth, 1nat, s, 1nat, 0nat,
{
    let (name, e) = match s {
        SpecStmt::VarDecl { name, init } => (name, init),
        SpecStmt::Assignment { name, value } => (name, value),
        _ => (Seq::empty(), SpecExpr::Literal(SpecLiteral::Nil)),
    };
    if s is VarDecl || s is Assignment {
        let r = sem_expr(st, e, depth, lim, o);
        match r.result {
            Ok(v) => done(define(r.st, name, v), SpecFlow::Normal),
            Err(err) => failed(r.st, err),
        }
    } else {
        done(st, SpecFlow::Normal)
    }
}

/// A block: its statements run in a new environment inside the one in
/// force, which is in force again afterwards, however the block ended.
pub open spec fn sem_block(st: State, s: SpecStmt, depth: nat, lim: nat, o: Seq<Reply>) -> Eval<
    SpecFlow,
>
    decreases depth, 1nat, s, 1nat, 0nat,
{
    match s {
        SpecStmt::Block(stmts) => {
            let inner = with_current(push_env(st, Some(st.current)), st.envs.len() as int);
            let r = sem_stmts(inner, stmts, 0, depth, lim, o);
            Eval { st: with_current(r.st, st.current), result: r.result }
        },
        _ => done(st, SpecFlow::Normal),
    }
}

/// `if`: the first branch whose condition is truthy runs, or the `else`
/// branch; how that branch ended is how the `if` ends.
pub open spec fn sem_if(st: State, s: SpecStmt, depth: nat, lim: nat, o: Seq<Reply>) -> Eval<
    SpecFlow,
>
    decreases depth, 1nat, s, 2nat, 0nat,
{
    match s {
        SpecStmt::If { condition, then_branch, elif_branches, else_branch } => {
            let c = sem_expr(st, condition, depth, lim, o);
            match c.result {
                Err(err) => failed(c.st, err),
                Ok(v) => if truthy(v) {
                    sem_stmt(c.st, *then_branch, depth, lim, o)
                } else {
                    sem_elifs(c.st, s, 0, depth, lim, o)
                },
            }
        },
        _ => done(st, SpecFlow::Normal),
    }
}

/// The bounds of a `for` loop: start, end and step are computed in this
/// order, the step being 1 where none is given.
pub open spec fn sem_for_bounds(st: State, s: SpecStmt, depth: nat, lim: nat, o: Seq<Reply>)
    -> Eval<(i64, i64, i64)>
    decreases depth, 1nat, s, 1nat, 0nat,
{
    match s {
        SpecStmt::For { var_name, start, end, step, body } => {
            let first = sem_expr(st, start, depth, lim, o);
            match first.result {
                Err(err) => failed(first.st, err),
                Ok(start_v) => {
                    let last = sem_expr(first.st, end, depth, lim, o);
                    match last.result {
                        Err(err) => failed(last.st, err),
                        Ok(end_v) => {
                            let by = match step {
                                Some(e) => sem_expr(last.st, e, depth, lim, o),
                                None => done(last.st, SpecValue::Int(1)),
                            };
                            match by.result {
                                Err(err) => failed(by.st, err),
                                Ok(step_v) => for_bounds(by.st, start_v, end_v, step_v, o),
                            }
                        },
                    }
                },
            }
        },
        _ => done(st, (0, 0, 1)),
    }
}

/// `for`: a loop over integers from the start to the end, which is taken in,
/// in steps of the step. A step of zero is an error. The loop variable lives
/// in a new environment inside the one in force, which is in force again
/// afterwards.
pub open spec fn sem_for_stmt(st: State, s: SpecStmt, depth: nat, lim: nat, o: Seq<Reply>) -> Eval<
    SpecFlow,
>
    decreases depth, 1nat, s, 2nat, 0nat,
{
    let bounds = sem_for_bounds(st, s, depth, lim, o);
    match bounds.result {
        Err(err) => failed(bounds.st, err),
        Ok((i, e, t)) => if t == 0 {
            failed(bounds.st, error(ErrorKind::Domain, "for loop step cannot be zero"@))
        } else {
            let inner = with_current(
                push_env(bounds.st, Some(bounds.st.current)),
                bounds.st.envs.len() as int,
            );
            let r = sem_for(inner, s, i, e, t, depth, lim, o);
            Eval { st: with_current(r.st, bounds.st.current), result: r.result }
        },
    }
}

/// `return`: with the value of the expression, or with Nil.
pub open spec fn sem_return(st: State, s: SpecStmt, depth: nat, lim: nat, o: Seq<Reply>) -> Eval<
    SpecFlow,
>
    decreases depth, 1nat, s, 1nat, 0nat,
{
    match s {
        SpecStmt::Return(Some(e)) => {
            let r = sem_expr(st, e, depth, lim, o);
            match r.result {
                Ok(v) => done(r.st, SpecFlow::Return(v)),
                Err(err) => failed(r.st, err),
            }
        },
        _ => done(st, SpecFlow::Return(SpecValue::Nil)),
    }
}

/// `object`: a table of the members is bound to the object's name.
pub open spec fn sem_object(st: State, s: SpecStmt, depth: nat, lim: nat, o: Seq<Reply>) -> Eval<
    SpecFlow,
>
    decreases depth, 1nat, s, 1nat, 0nat,
{
    match s {
        SpecStmt::ObjectDecl(obj) => {
            let r = sem_members(st, obj.members, 0, Seq::empty(), depth, lim, o);
            match r.result {
                Err(err) => failed(r.st, err),
                Ok(entries) => done(
                    define(r.st, obj.name, SpecValue::Table(entries)),
                    SpecFlow::Normal,
                ),
            }
        },
        _ => done(st, SpecFlow::Normal),
    }
}

/// What a statement does.
pub open spec fn sem_stmt(st: State, s: SpecStmt, depth: nat, lim: nat, o: Seq<Reply>) -> Eval<
    SpecFlow,
>
    decreases depth, 1nat, s, 3nat, 0nat,
{
    match s {
        SpecStmt::VarDecl { .. } => sem_binding(st, s, depth, lim, o),
        SpecStmt::Assignment { .. } => sem_binding(st, s, depth, lim, o),
        SpecStmt::Expr(e) => {
            let r = sem_expr(st, e, depth, lim, o);
            match r.result {
                Ok(_) => done(r.st, SpecFlow::Normal),
                Err(err) => failed(r.st, err),
            }
        },
        SpecStmt::Block(_) => sem_block(st, s, depth, lim, o),
        SpecStmt::If { .. } => sem_if(st, s, depth, lim, o),
        SpecStmt::While { .. } => sem_while(st, s, lim, depth, lim, o),
        SpecStmt::For { .. } => sem_for_stmt(st, s, depth, lim, o),
        SpecStmt::Break => done(st, SpecFlow::Break),
        SpecStmt::Continue => done(st, SpecFlow::Continue),
        SpecStmt::Return(_) => sem_return(st, s, depth, lim, o),
        SpecStmt::FuncDecl(f) => done(
            define(st, f.name, SpecValue::Function { decl: f, closure: Some(st.current) }),
            SpecFlow::Normal,
        ),
        SpecStmt::ObjectDecl(_) => sem_object(st, s, depth, lim, o),
    }
}

/// The bindings of the first `n` built-ins: each name bound to its tag.
pub open spec fn builtin_bindings(n: int) -> Seq<(Seq<char>, SpecValue)>
    decreases n,
{
    if n <= 0 || n > all_builtins().len() {
        Seq::empty()
    } else {
        entries_put(
            builtin_bindings(n - 1),
            builtin_name(all_builtins()[n - 1]),
            SpecValue::BuiltinFunction(builtin_name(all_builtins()[n - 1])),
        )
    }
}

/// The state in which a run begins: one environment, the root, which binds
/// the built-ins; nothing printed; no host reply read.
pub open spec fn initial_state() -> State {
    State {
        envs: seq![
            SpecEnvironment {
                values: builtin_bindings(all_builtins().len() as int),
                parent: None,
            },
        ],
        current: 0,
        output: Seq::empty(),
        cursor: 0,
    }
}

/// The statements of a program from `i` on. Each runs to its end; how it
/// ended is not looked at, but the first error ends the run.
pub open spec fn sem_program(
    st: State,
    stmts: Seq<SpecStmt>,
    i: int,
    depth: nat,
    lim: nat,
    o: Seq<Reply>,
) -> Eval<()>
    decreases stmts.len() - i,
{
    if i < 0 || i >= stmts.len() {
        done(st, ())
    } else {
        let r = sem_stmt(st, stmts[i], depth, lim, o);
        match r.result {
            Ok(_) => sem_program(r.st, stmts, i + 1, depth, lim, o),
            Err(err) => failed(r.st, err),
        }
    }
}

} // verus!

