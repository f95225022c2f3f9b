//! What evaluation leaves alone.
//!
//! A name is only ever bound in the environment in force, or in an
//! environment made later. So no expression, no call and no block changes a
//! binding of an environment that was there before it: a name bound in an
//! inner scope never touches the binding of the same name further out, and
//! what a closure has captured stays as it was when the scope that made it is
//! left.

use crate::ast::{SpecExpr, SpecObjectMember, SpecStmt, SpecTableField};
use crate::host::Reply;
use crate::semantics::{
    define, define_in, for_distance, push_env, sem_args, sem_binary, sem_bind, sem_binding,
    sem_block, sem_body, sem_builtin, sem_call, sem_elifs, sem_expr, sem_fields, sem_for,
    sem_for_bounds, sem_for_stmt, sem_if, sem_index, sem_member, sem_members, sem_object, sem_print,
    sem_program, sem_return, sem_stmt, sem_stmts, sem_unary, sem_while, with_current, State,
};
use crate::value::{truthy, SpecFlow, SpecValue};
use vstd::prelude::*;

verus! {

/// An environment is in force.
pub open spec fn state_wf(st: State) -> bool {
    0 <= st.current < st.envs.len()
}

/// `after` holds every environment of `before` as it was, but perhaps the
/// one at `id`; it may hold more; and the same environment is in force.
pub open spec fn keeps_others(before: State, after: State, id: int) -> bool {
    &&& after.envs.len() >= before.envs.len()
    &&& after.current == before.current
    &&& forall|i: int|
        0 <= i < before.envs.len() && i != id ==> #[trigger] after.envs[i] == before.envs[i]
}

/// `after` holds every environment of `before` as it was; it may hold more;
/// and the same environment is in force.
pub open spec fn keeps_all(before: State, after: State) -> bool {
    &&& after.envs.len() >= before.envs.len()
    &&& after.current == before.current
    &&& forall|i: int| 0 <= i < before.envs.len() ==> #[trigger] after.envs[i] == before.envs[i]
}

proof fn lemma_expr(st: State, e: SpecExpr, depth: nat, lim: nat, o: Seq<Reply>)
    requires
        state_wf(st),
    ensures
        keeps_all(st, sem_expr(st, e, depth, lim, o).st),
    decreases depth, 0nat, e, 1nat, 0nat,
{
    match e {
        SpecExpr::Literal(_) => {},
        SpecExpr::Ident(_) => {},
        SpecExpr::Unary { .. } => {
            lemma_unary(st, e, depth, lim, o);
        },
        SpecExpr::Binary { .. } => {
            lemma_binary(st, e, depth, lim, o);
        },
        SpecExpr::Call { .. } => {
            lemma_call(st, e, depth, lim, o);
        },
        SpecExpr::Member { .. } => {
            lemma_member(st, e, depth, lim, o);
        },
        SpecExpr::Index { .. } => {
            lemma_index(st, e, depth, lim, o);
        },
        SpecExpr::TableLiteral(fields) => {
            lemma_fields(st, fields, 0, Seq::empty(), depth, lim, o);
        },
    }
}

proof fn lemma_unary(st: State, e: SpecExpr, depth: nat, lim: nat, o: Seq<Reply>)
    requires
        state_wf(st),
    ensures
        keeps_all(st, sem_unary(st, e, depth, lim, o).st),
    decreases depth, 0nat, e, 0nat, 0nat,
{
    match e {
        SpecExpr::Unary { op, expr } => {
            lemma_expr(st, *expr, depth, lim, o);
        },
        _ => {},
    }
}

proof fn lemma_binary(st: State, e: SpecExpr, depth: nat, lim: nat, o: Seq<Reply>)
    requires
        state_wf(st),
    ensures
        keeps_all(st, sem_binary(st, e, depth, lim, o).st),
    decreases depth, 0nat, e, 0nat, 0nat,
{
    match e {
        SpecExpr::Binary { left, op, right } => {
            lemma_expr(st, *left, depth, lim, o);
            let l = sem_expr(st, *left, depth, lim, o);
            if l.result is Ok {
                lemma_expr(l.st, *right, depth, lim, o);
            }
        },
        _ => {},
    }
}

proof fn lemma_member(st: State, e: SpecExpr, depth: nat, lim: nat, o: Seq<Reply>)
    requires
        state_wf(st),
    ensures
        keeps_all(st, sem_member(st, e, depth, lim, o).st),
    decreases depth, 0nat, e, 0nat, 0nat,
{
    match e {
        SpecExpr::Member { object, field } => {
            lemma_expr(st, *object, depth, lim, o);
        },
        _ => {},
    }
}

proof fn lemma_index(st: State, e: SpecExpr, depth: nat, lim: nat, o: Seq<Reply>)
    requires
        state_wf(st),
    ensures
        keeps_all(st, sem_index(st, e, depth, lim, o).st),
    decreases depth, 0nat, e, 0nat, 0nat,
{
    match e {
        SpecExpr::Index { object, index } => {
            lemma_expr(st, *object, depth, lim, o);
            let obj = sem_expr(st, *object, depth, lim, o);
            if obj.result is Ok {
                lemma_expr(obj.st, *index, depth, lim, o);
            }
        },
        _ => {},
    }
}

proof fn lemma_fields(
    st: State,
    fields: Seq<SpecTableField>,
    i: int,
    acc: Seq<(Seq<char>, SpecValue)>,
    depth: nat,
    lim: nat,
    o: Seq<Reply>,
)
    requires
        state_wf(st),
    ensures
        keeps_all(st, sem_fields(st, fields, i, acc, depth, lim, o).st),
    decreases depth, 0nat, fields, 0nat, fields.len() - i,
{
    if 0 <= i < fields.len() {
        let (key, value) = match fields[i] {
            SpecTableField::KeyValue { key, value } => (key, value),
            SpecTableField::Value(value) => (crate::text::decimal(i), value),
        };
        lemma_expr(st, value, depth, lim, o);
        let r = sem_expr(st, value, depth, lim, o);
        if r.result is Ok {
            lemma_fields(
                r.st,
                fields,
                i + 1,
                crate::value::entries_put(acc, key, r.result->Ok_0),
                depth,
                lim,
                o,
            );
        }
    }
}

proof fn lemma_args(
    st: State,
    args: Seq<SpecExpr>,
    i: int,
    n: int,
    acc: Seq<SpecValue>,
    depth: nat,
    lim: nat,
    o: Seq<Reply>,
)
    requires
        state_wf(st),
    ensures
        keeps_all(st, sem_args(st, args, i, n, acc, depth, lim, o).st),
    decreases depth, 0nat, args, 0nat, args.len() - i,
{
    if 0 <= i && i < n && i < args.len() {
        lemma_expr(st, args[i], depth, lim, o);
        let r = sem_expr(st, args[i], depth, lim, o);
        if r.result is Ok {
            lemma_args(r.st, args, i + 1, n, acc.push(r.result->Ok_0), depth, lim, o);
        }
    }
}

proof fn lemma_print(st: State, args: Seq<SpecExpr>, i: int, depth: nat, lim: nat, o: Seq<Reply>)
    requires
        state_wf(st),
    ensures
        keeps_all(st, sem_print(st, args, i, depth, lim, o).st),
    decreases depth, 0nat, args, 0nat, args.len() - i,
{
    if 0 <= i < args.len() {
        let spaced = if i > 0 {
            crate::semantics::emit(st, " "@)
        } else {
            st
        };
        lemma_expr(spaced, args[i], depth, lim, o);
        let r = sem_expr(spaced, args[i], depth, lim, o);
        if r.result is Ok {
            let (text, c) = crate::builtins::to_text(r.result->Ok_0, o, r.st.cursor);
            lemma_print(
                crate::semantics::emit(crate::semantics::with_cursor(r.st, c), text),
                args,
                i + 1,
                depth,
                lim,
                o,
            );
        }
    }
}

proof fn lemma_builtin(
    st: State,
    name: Seq<char>,
    args: Seq<SpecExpr>,
    depth: nat,
    lim: nat,
    o: Seq<Reply>,
)
    requires
        state_wf(st),
    ensures
        keeps_all(st, sem_builtin(st, name, args, depth, lim, o).st),
    decreases depth, 0nat, args, 1nat, 0nat,
{
    match crate::builtins::builtin_named(name) {
        None => {},
        Some(crate::builtins::Builtin::Print) => {
            lemma_print(st, args, 0, depth, lim, o);
        },
        Some(crate::builtins::Builtin::Println) => {
            lemma_print(st, args, 0, depth, lim, o);
        },
        Some(b) => {
            if args.len() >= crate::builtins::arity(b) {
                lemma_args(
                    st,
                    args,
                    0,
                    crate::builtins::arity(b) as int,
                    Seq::empty(),
                    depth,
                    lim,
                    o,
                );
            }
        },
    }
}

proof fn lemma_bind(
    st: State,
    params: Seq<Seq<char>>,
    args: Seq<SpecExpr>,
    i: int,
    target: int,
    depth: nat,
    lim: nat,
    o: Seq<Reply>,
)
    requires
        state_wf(st),
        0 <= target < st.envs.len(),
    ensures
        keeps_others(st, sem_bind(st, params, args, i, target, depth, lim, o).st, target),
    decreases depth, 0nat, args, 0nat, params.len() - i,
{
    if 0 <= i < params.len() {
        if i < args.len() {
            lemma_expr(st, args[i], depth, lim, o);
            let r = sem_expr(st, args[i], depth, lim, o);
            if r.result is Ok {
                let next = define_in(r.st, target, params[i], r.result->Ok_0);
                lemma_bind(next, params, args, i + 1, target, depth, lim, o);
            }
        } else {
            let next = define_in(st, target, params[i], SpecValue::Nil);
            lemma_bind(next, params, args, i + 1, target, depth, lim, o);
        }
    }
}

proof fn lemma_call(st: State, e: SpecExpr, depth: nat, lim: nat, o: Seq<Reply>)
    requires
        state_wf(st),
    ensures
        keeps_all(st, sem_call(st, e, depth, lim, o).st),
    decreases depth, 0nat, e, 0nat, 0nat,
{
    match e {
        SpecExpr::Call { callee, args } => {
            lemma_expr(st, *callee, depth, lim, o);
            let c = sem_expr(st, *callee, depth, lim, o);
            match c.result {
                Err(_) => {},
                Ok(SpecValue::BuiltinFunction(name)) => {
                    lemma_builtin(c.st, name, args, depth, lim, o);
                },
                Ok(SpecValue::Function { decl, closure }) => {
                    if depth != 0 {
                        let caller = c.st.current;
                        let target = c.st.envs.len() as int;
                        let parent = match closure {
                            Some(id) => Some(id),
                            None => Some(caller),
                        };
                        let pushed = push_env(c.st, parent);
                        lemma_bind(pushed, decl.params, args, 0, target, depth, lim, o);
                        let bound = sem_bind(pushed, decl.params, args, 0, target, depth, lim, o);
                        if bound.result is Ok {
                            let inner = with_current(bound.st, target);
                            lemma_body(inner, *decl.body, (depth - 1) as nat, lim, o);
                            let body = sem_body(inner, *decl.body, (depth - 1) as nat, lim, o);
                            let after = with_current(body.st, caller);
                            assert forall|i: int| 0 <= i < st.envs.len() implies #[trigger]
                            after.envs[i] == st.envs[i] by {
                                assert(body.st.envs[i] == inner.envs[i]);
                                assert(bound.st.envs[i] == pushed.envs[i]);
                                assert(pushed.envs[i] == c.st.envs[i]);
                            }
                        } else {
                            assert forall|i: int| 0 <= i < st.envs.len() implies #[trigger]
                            bound.st.envs[i] == st.envs[i] by {
                                assert(bound.st.envs[i] == pushed.envs[i]);
                                assert(pushed.envs[i] == c.st.envs[i]);
                            }
                        }
                    }
                },
                Ok(_) => {},
            }
        },
        _ => {},
    }
}

proof fn lemma_body(st: State, body: SpecStmt, depth: nat, lim: nat, o: Seq<Reply>)
    requires
        state_wf(st),
    ensures
        keeps_others(st, sem_body(st, body, depth, lim, o).st, st.current),
    decreases depth, 1nat, body, 4nat, 0nat,
{
    match body {
        SpecStmt::Block(stmts) => {
            lemma_stmts(st, stmts, 0, depth, lim, o);
        },
        _ => {
            lemma_stmt(st, body, depth, lim, o);
        },
    }
}

proof fn lemma_stmts(st: State, stmts: Seq<SpecStmt>, i: int, depth: nat, lim: nat, o: Seq<Reply>)
    requires
        state_wf(st),
    ensures
        keeps_others(st, sem_stmts(st, stmts, i, depth, lim, o).st, st.current),
    decreases depth, 1nat, stmts, 0nat, stmts.len() - i,
{
    if 0 <= i < stmts.len() {
        lemma_stmt(st, stmts[i], depth, lim, o);
        let r = sem_stmt(st, stmts[i], depth, lim, o);
        if r.result == Ok::<SpecFlow, crate::value::SpecError>(SpecFlow::Normal) {
            lemma_stmts(r.st, stmts, i + 1, depth, lim, o);
        }
    }
}

proof fn lemma_elifs(st: State, s: SpecStmt, i: int, depth: nat, lim: nat, o: Seq<Reply>)
    requires
        state_wf(st),
    ensures
        keeps_others(st, sem_elifs(st, s, i, depth, lim, o).st, st.current),
    decreases depth, 1nat, s, 1nat, (if s is If {
        s->elif_branches.len() - i
    } else {
        0
    }),
{
    match s {
        SpecStmt::If { condition, then_branch, elif_branches, else_branch } => {
            if i < 0 || i >= elif_branches.len() {
                match else_branch {
                    Some(b) => {
                        lemma_stmt(st, *b, depth, lim, o);
                    },
                    None => {},
                }
            } else {
                lemma_expr(st, elif_branches[i].0, depth, lim, o);
                let c = sem_expr(st, elif_branches[i].0, depth, lim, o);
                match c.result {
                    Err(_) => {},
                    Ok(v) => {
                        if truthy(v) {
                            lemma_stmt(c.st, elif_branches[i].1, depth, lim, o);
                        } else {
                            lemma_elifs(c.st, s, i + 1, depth, lim, o);
                        }
                    },
                }
            }
        },
        _ => {},
    }
}

proof fn lemma_while(st: State, s: SpecStmt, left: nat, depth: nat, lim: nat, o: Seq<Reply>)
    requires
        state_wf(st),
    ensures
        keeps_others(st, sem_while(st, s, left, depth, lim, o).st, st.current),
    decreases depth, 1nat, s, 1nat, left,
{
    match s {
        SpecStmt::While { condition, body } => {
            lemma_expr(st, condition, depth, lim, o);
            let c = sem_expr(st, condition, depth, lim, o);
            match c.result {
                Err(_) => {},
                Ok(v) => {
                    if truthy(v) && left != 0 {
                        lemma_stmt(c.st, *body, depth, lim, o);
                        let b = sem_stmt(c.st, *body, depth, lim, o);
                        match b.result {
                            Err(_) => {},
                            Ok(SpecFlow::Break) => {},
                            Ok(SpecFlow::Return(_)) => {},
                            Ok(_) => {
                                lemma_while(b.st, s, (left - 1) as nat, depth, lim, o);
                            },
                        }
                    }
                },
            }
        },
        _ => {},
    }
}

proof fn lemma_for(
    st: State,
    s: SpecStmt,
    i: i64,
    end: i64,
    step: i64,
    depth: nat,
    lim: nat,
    o: Seq<Reply>,
)
    requires
        state_wf(st),
    ensures
        keeps_others(st, sem_for(st, s, i, end, step, depth, lim, o).st, st.current),
    decreases depth, 1nat, s, 1nat, for_distance(i, end, step),
{
    match s {
        SpecStmt::For { var_name, start, end: _end, step: _step, body } => {
            if for_distance(i, end, step) != 0 {
                let defined = define(st, var_name, SpecValue::Int(i));
                lemma_stmt(defined, *body, depth, lim, o);
                let b = sem_stmt(defined, *body, depth, lim, o);
                match b.result {
                    Err(_) => {},
                    Ok(SpecFlow::Break) => {},
                    Ok(SpecFlow::Return(_)) => {},
                    Ok(_) => {
                        if i64::MIN <= i + step <= i64::MAX {
                            lemma_for(b.st, s, (i + step) as i64, end, step, depth, lim, o);
                        }
                    },
                }
            }
        },
        _ => {},
    }
}

proof fn lemma_members(
    st: State,
    members: Seq<SpecObjectMember>,
    i: int,
    acc: Seq<(Seq<char>, SpecValue)>,
    depth: nat,
    lim: nat,
    o: Seq<Reply>,
)
    requires
        state_wf(st),
    ensures
        keeps_all(st, sem_members(st, members, i, acc, depth, lim, o).st),
    decreases depth, 1nat, members, 0nat, members.len() - i,
{
    if 0 <= i < members.len() {
        match members[i] {
            SpecObjectMember::Var(SpecStmt::VarDecl { name, init }) => {
                lemma_expr(st, init, depth, lim, o);
                let r = sem_expr(st, init, depth, lim, o);
                if r.result is Ok {
                    lemma_members(
                        r.st,
                        members,
                        i + 1,
                        crate::value::entries_put(acc, name, r.result->Ok_0),
                        depth,
                        lim,
                        o,
                    );
                }
            },
            SpecObjectMember::Method(f) => {
                lemma_members(
                    st,
                    members,
                    i + 1,
                    crate::value::entries_put(
                        acc,
                        f.name,
                        SpecValue::Function { decl: f, closure: Some(st.current) },
                    ),
                    depth,
                    lim,
                    o,
                );
            },
            _ => {
                lemma_members(st, members, i + 1, acc, depth, lim, o);
            },
        }
    }
}

proof fn lemma_binding(st: State, s: SpecStmt, depth: nat, lim: nat, o: Seq<Reply>)
    requires
        state_wf(st),
    ensures
        keeps_others(st, sem_binding(st, s, depth, lim, o).st, st.current),
    decreases depth, 1nat, s, 1nat, 0nat,
{
    match s {
        SpecStmt::VarDecl { name, init } => {
            lemma_expr(st, init, depth, lim, o);
        },
        SpecStmt::Assignment { name, value } => {
            lemma_expr(st, value, depth, lim, o);
        },
        _ => {},
    }
}

proof fn lemma_block(st: State, s: SpecStmt, depth: nat, lim: nat, o: Seq<Reply>)
    requires
        state_wf(st),
    ensures
        keeps_all(st, sem_block(st, s, depth, lim, o).st),
    decreases depth, 1nat, s, 1nat, 0nat,
{
    match s {
        SpecStmt::Block(stmts) => {
            let inner = with_current(push_env(st, Some(st.current)), st.envs.len() as int);
            lemma_stmts(inner, stmts, 0, depth, lim, o);
            let r = sem_stmts(inner, stmts, 0, depth, lim, o);
            let after = with_current(r.st, st.current);
            assert forall|i: int| 0 <= i < st.envs.len() implies #[trigger] after.envs[i]
                == st.envs[i] by {
                assert(r.st.envs[i] == inner.envs[i]);
            }
        },
        _ => {},
    }
}

proof fn lemma_if(st: State, s: SpecStmt, depth: nat, lim: nat, o: Seq<Reply>)
    requires
        state_wf(st),
    ensures
        keeps_others(st, sem_if(st, s, depth, lim, o).st, st.current),
    decreases depth, 1nat, s, 2nat, 0nat,
{
    match s {
        SpecStmt::If { condition, then_branch, elif_branches, else_branch } => {
            lemma_expr(st, condition, depth, lim, o);
            let c = sem_expr(st, condition, depth, lim, o);
            match c.result {
                Err(_) => {},
                Ok(v) => {
                    if truthy(v) {
                        lemma_stmt(c.st, *then_branch, depth, lim, o);
                    } else {
                        lemma_elifs(c.st, s, 0, depth, lim, o);
                    }
                },
            }
        },
        _ => {},
    }
}

proof fn lemma_for_bounds(st: State, s: SpecStmt, depth: nat, lim: nat, o: Seq<Reply>)
    requires
        state_wf(st),
    ensures
        keeps_all(st, sem_for_bounds(st, s, depth, lim, o).st),
    decreases depth, 1nat, s, 1nat, 0nat,
{
    match s {
        SpecStmt::For { var_name, start, end, step, body } => {
            lemma_expr(st, start, depth, lim, o);
            let first = sem_expr(st, start, depth, lim, o);
            if first.result is Ok {
                lemma_expr(first.st, end, depth, lim, o);
                let last = sem_expr(first.st, end, depth, lim, o);
                if last.result is Ok {
                    match step {
                        Some(e) => {
                            lemma_expr(last.st, e, depth, lim, o);
                        },
                        None => {},
                    }
                }
            }
        },
        _ => {},
    }
}

proof fn lemma_for_stmt(st: State, s: SpecStmt, depth: nat, lim: nat, o: Seq<Reply>)
    requires
        state_wf(st),
    ensures
        keeps_all(st, sem_for_stmt(st, s, depth, lim, o).st),
    decreases depth, 1nat, s, 2nat, 0nat,
{
    lemma_for_bounds(st, s, depth, lim, o);
    let bounds = sem_for_bounds(st, s, depth, lim, o);
    match bounds.result {
        Err(_) => {},
        Ok((i, e, t)) => {
            if t != 0 {
                let inner = with_current(
                    push_env(bounds.st, Some(bounds.st.current)),
                    bounds.st.envs.len() as int,
                );
                lemma_for(inner, s, i, e, t, depth, lim, o);
                let r = sem_for(inner, s, i, e, t, depth, lim, o);
                let after = with_current(r.st, bounds.st.current);
                assert forall|k: int| 0 <= k < st.envs.len() implies #[trigger] after.envs[k]
                    == st.envs[k] by {
                    assert(r.st.envs[k] == inner.envs[k]);
                    assert(inner.envs[k] == bounds.st.envs[k]);
                }
            }
        },
    }
}

proof fn lemma_return(st: State, s: SpecStmt, depth: nat, lim: nat, o: Seq<Reply>)
    requires
        state_wf(st),
    ensures
        keeps_all(st, sem_return(st, s, depth, lim, o).st),
    decreases depth, 1nat, s, 1nat, 0nat,
{
    match s {
        SpecStmt::Return(Some(e)) => {
            lemma_expr(st, e, depth, lim, o);
        },
        _ => {},
    }
}

proof fn lemma_object(st: State, s: SpecStmt, depth: nat, lim: nat, o: Seq<Reply>)
    requires
        state_wf(st),
    ensures
        keeps_others(st, sem_object(st, s, depth, lim, o).st, st.current),
    decreases depth, 1nat, s, 1nat, 0nat,
{
    match s {
        SpecStmt::ObjectDecl(obj) => {
            lemma_members(st, obj.members, 0, Seq::empty(), depth, lim, o);
        },
        _ => {},
    }
}

proof fn lemma_stmt(st: State, s: SpecStmt, depth: nat, lim: nat, o: Seq<Reply>)
    requires
        state_wf(st),
    ensures
        keeps_others(st, sem_stmt(st, s, depth, lim, o).st, st.current),
    decreases depth, 1nat, s, 3nat, 0nat,
{
    match s {
        SpecStmt::VarDecl { .. } => {
            lemma_binding(st, s, depth, lim, o);
        },
        SpecStmt::Assignment { .. } => {
            lemma_binding(st, s, depth, lim, o);
        },
        SpecStmt::Expr(e) => {
            lemma_expr(st, e, depth, lim, o);
        },
        SpecStmt::Block(_) => {
            lemma_block(st, s, depth, lim, o);
        },
        SpecStmt::If { .. } => {
            lemma_if(st, s, depth, lim, o);
        },
        SpecStmt::While { .. } => {
            lemma_while(st, s, lim, depth, lim, o);
        },
        SpecStmt::For { .. } => {
            lemma_for_stmt(st, s, depth, lim, o);
        },
        SpecStmt::Break => {},
        SpecStmt::Continue => {},
        SpecStmt::Return(_) => {
            lemma_return(st, s, depth, lim, o);
        },
        SpecStmt::FuncDecl(_) => {},
        SpecStmt::ObjectDecl(_) => {
            lemma_object(st, s, depth, lim, o);
        },
    }
}

/// No expression changes an environment that is there when it is computed:
/// what a call binds, it binds in environments of its own.
pub proof fn lemma_expression_keeps_environments(
    st: State,
    e: SpecExpr,
    depth: nat,
    lim: nat,
    o: Seq<Reply>,
)
    requires
        state_wf(st),
    ensures
        keeps_all(st, sem_expr(st, e, depth, lim, o).st),
{
    lemma_expr(st, e, depth, lim, o);
}

/// No built-in changes an environment, whatever its arguments do.
pub proof fn lemma_builtin_keeps_environments(
    st: State,
    name: Seq<char>,
    args: Seq<SpecExpr>,
    depth: nat,
    lim: nat,
    o: Seq<Reply>,
)
    requires
        state_wf(st),
    ensures
        keeps_all(st, sem_builtin(st, name, args, depth, lim, o).st),
{
    lemma_builtin(st, name, args, depth, lim, o);
}

/// A statement changes no environment but the one in force, and leaves the
/// same environment in force, however it ends.
pub proof fn lemma_statement_keeps_outer_environments(
    st: State,
    s: SpecStmt,
    depth: nat,
    lim: nat,
    o: Seq<Reply>,
)
    requires
        state_wf(st),
    ensures
        keeps_others(st, sem_stmt(st, s, depth, lim, o).st, st.current),
{
    lemma_stmt(st, s, depth, lim, o);
}

/// A block changes no environment that is there when it begins, not even
/// the one in force: a name bound inside the block leaves every binding
/// outside it as it was, and so every name reads after the block as it read
/// before.
pub proof fn lemma_block_keeps_environments(
    st: State,
    stmts: Seq<SpecStmt>,
    name: Seq<char>,
    depth: nat,
    lim: nat,
    o: Seq<Reply>,
)
    requires
        state_wf(st),
    ensures
        keeps_all(st, sem_stmt(st, SpecStmt::Block(stmts), depth, lim, o).st),
        crate::semantics::lookup(
            sem_stmt(st, SpecStmt::Block(stmts), depth, lim, o).st.envs,
            st.current,
            name,
        ) == crate::semantics::lookup(st.envs, st.current, name),
{
    let s = SpecStmt::Block(stmts);
    lemma_block(st, s, depth, lim, o);
    let after = sem_stmt(st, s, depth, lim, o).st;
    lemma_lookup_frame(st.envs, after.envs, st.current, name);
}

/// Looking a name up reads only the environment it starts from and those
/// before it; where they are the same, the name reads the same.
pub proof fn lemma_lookup_frame(
    before: Seq<crate::semantics::SpecEnvironment>,
    after: Seq<crate::semantics::SpecEnvironment>,
    id: int,
    name: Seq<char>,
)
    requires
        0 <= id < before.len() <= after.len(),
        forall|i: int| 0 <= i <= id ==> #[trigger] after[i] == before[i],
    ensures
        crate::semantics::lookup(after, id, name) == crate::semantics::lookup(before, id, name),
    decreases id,
{
    assert(after[id] == before[id]);
    match crate::value::entries_get(before[id].values, name) {
        Some(_) => {},
        None => {
            match before[id].parent {
                Some(p) => {
                    if 0 <= p < id {
                        lemma_lookup_frame(before, after, p, name);
                    }
                },
                None => {},
            }
        },
    }
}

/// A whole program changes no environment but the one it is run in.
pub proof fn lemma_program_keeps_outer_environments(
    st: State,
    stmts: Seq<SpecStmt>,
    i: int,
    depth: nat,
    lim: nat,
    o: Seq<Reply>,
)
    requires
        state_wf(st),
    ensures
        keeps_others(st, sem_program(st, stmts, i, depth, lim, o).st, st.current),
    decreases stmts.len() - i,
{
    if 0 <= i < stmts.len() {
        lemma_stmt(st, stmts[i], depth, lim, o);
        let r = sem_stmt(st, stmts[i], depth, lim, o);
        if r.result is Ok {
            lemma_program_keeps_outer_environments(r.st, stmts, i + 1, depth, lim, o);
        }
    }
}

} // verus!
