//! Parsing moves forward.
//!
//! On tokens that end with their only `Eof`, every function of the grammar
//! stops at or behind the position it started from and within the tokens,
//! and what it takes in with success it takes in from at least one token. So
//! the grammar never runs in place: where it tests, before going on, that a
//! position lies ahead, the test holds. Errors set aside are never dropped.

use crate::ast::{SpecExpr, SpecObjectMember, SpecStmt, SpecTableField};
use crate::grammar::{
    binary_level, binary_rest, block_statement, body_and_end, braced_block, call_args,
    compound_statement, elif_branches, else_branch, expect, for_head, for_range, func_statement,
    guarded_block, if_tail, is_compound, kind_at, lemma_skip_to_statement, object_end, object_head,
    object_member, object_members, object_statement, operator_at, param_list, parse_block,
    parse_event_decl, parse_expression, parse_for, parse_func_decl, parse_if, parse_object_decl,
    parse_params, parse_primary, parse_return, parse_statement, parse_unary, parse_var_decl,
    parse_while, postfix, primary_head, signature, simple_statement, skip_result_type, statements,
    synchronize, table_fields, table_literal, well_ended, BlockEnd, Parsed, Recovered,
    SpecParseError,
};
use crate::lexer::{lemma_token_at, token_at, tokens_from, SpecToken, TokenKind};
use vstd::prelude::*;

verus! {

/// The position `to` lies at or behind `from` and within the tokens.
pub open spec fn within(toks: Seq<SpecToken>, from: int, to: int) -> bool {
    from <= to < toks.len()
}

/// A parse from `pos` stopped within the tokens, and behind `pos` where it
/// succeeded.
pub open spec fn advanced<T>(toks: Seq<SpecToken>, pos: int, r: Parsed<T>) -> bool {
    &&& within(toks, pos, r.pos)
    &&& r.result is Ok ==> pos < r.pos
}

/// The errors `after` begin with the errors `before`.
pub open spec fn extends(before: Seq<SpecParseError>, after: Seq<SpecParseError>) -> bool {
    &&& before.len() <= after.len()
    &&& forall|i: int| 0 <= i < before.len() ==> #[trigger] after[i] == before[i]
}

/// A parse from `pos` stopped within the tokens and dropped none of the
/// errors set aside before.
pub open spec fn carried<T>(
    toks: Seq<SpecToken>,
    pos: int,
    errors: Seq<SpecParseError>,
    r: Recovered<T>,
) -> bool {
    &&& within(toks, pos, r.pos)
    &&& extends(errors, r.errors)
}

/// A parse from `pos` stopped within the tokens, behind `pos` where it
/// succeeded, and dropped none of the errors set aside before.
pub open spec fn progressed<T>(
    toks: Seq<SpecToken>,
    pos: int,
    errors: Seq<SpecParseError>,
    r: Recovered<T>,
) -> bool {
    &&& carried(toks, pos, errors, r)
    &&& r.result is Ok ==> pos < r.pos
}

/// The tokens of a source end with their only `Eof`.
pub proof fn lemma_tokens_well_ended(src: Seq<u8>, pos: int)
    requires
        0 <= pos <= src.len(),
    ensures
        well_ended(tokens_from(src, pos)),
    decreases src.len() - pos,
{
    let lexed = token_at(src, pos);
    lemma_token_at(src, pos);
    if lexed.token.kind != TokenKind::Eof {
        lemma_tokens_well_ended(src, lexed.end);
        let rest = tokens_from(src, lexed.end);
        let all = tokens_from(src, pos);
        assert(all =~= seq![lexed.token] + rest);
        assert forall|i: int| 0 <= i < all.len() - 1 implies (#[trigger] all[i]).kind
            != TokenKind::Eof by {
            if i > 0 {
                assert(all[i] == rest[i - 1]);
            }
        }
        assert(all[all.len() - 1] == rest[rest.len() - 1]);
    }
}

proof fn lemma_expect(toks: Seq<SpecToken>, pos: int, kind: TokenKind, detail: Seq<char>)
    requires
        well_ended(toks),
        0 <= pos < toks.len(),
        kind != TokenKind::Eof,
    ensures
        advanced(toks, pos, expect(toks, pos, kind, detail)),
{
}

proof fn lemma_expression(toks: Seq<SpecToken>, pos: int)
    requires
        well_ended(toks),
        0 <= pos < toks.len(),
    ensures
        advanced(toks, pos, parse_expression(toks, pos)),
    decreases toks.len() - pos, 11nat,
{
    lemma_binary_level(toks, pos, 0);
}

proof fn lemma_binary_level(toks: Seq<SpecToken>, pos: int, level: int)
    requires
        well_ended(toks),
        0 <= pos < toks.len(),
    ensures
        advanced(toks, pos, binary_level(toks, pos, level)),
    decreases toks.len() - pos, (if 0 <= level <= 5 {
        10 - level
    } else {
        4
    }),
{
    if level < 0 || level > 5 {
        lemma_unary(toks, pos);
    } else {
        lemma_binary_level(toks, pos, level + 1);
        let l = binary_level(toks, pos, level + 1);
        match l.result {
            Ok(left) => {
                lemma_binary_rest(toks, l.pos, level, left);
            },
            Err(_) => {},
        }
    }
}

proof fn lemma_binary_rest(toks: Seq<SpecToken>, pos: int, level: int, left: SpecExpr)
    requires
        well_ended(toks),
        0 <= pos < toks.len(),
    ensures
        within(toks, pos, binary_rest(toks, pos, level, left).pos),
    decreases toks.len() - pos, 0nat,
{
    match operator_at(level, kind_at(toks, pos)) {
        Some(op) => {
            lemma_binary_level(toks, pos + 1, level + 1);
            let r = binary_level(toks, pos + 1, level + 1);
            match r.result {
                Ok(right) => {
                    lemma_binary_rest(toks, r.pos, level, crate::grammar::binary(left, op, right));
                },
                Err(_) => {},
            }
        },
        None => {},
    }
}

proof fn lemma_unary(toks: Seq<SpecToken>, pos: int)
    requires
        well_ended(toks),
        0 <= pos < toks.len(),
    ensures
        advanced(toks, pos, parse_unary(toks, pos)),
    decreases toks.len() - pos, 3nat,
{
    let kind = kind_at(toks, pos);
    if kind == TokenKind::Minus || kind == TokenKind::KwNot {
        lemma_unary(toks, pos + 1);
    } else {
        lemma_primary(toks, pos);
    }
}

proof fn lemma_primary(toks: Seq<SpecToken>, pos: int)
    requires
        well_ended(toks),
        0 <= pos < toks.len(),
    ensures
        advanced(toks, pos, parse_primary(toks, pos)),
    decreases toks.len() - pos, 2nat,
{
    lemma_primary_head(toks, pos);
    let head = primary_head(toks, pos);
    match head.result {
        Ok(e) => {
            lemma_postfix(toks, head.pos, e);
        },
        Err(_) => {},
    }
}

proof fn lemma_primary_head(toks: Seq<SpecToken>, pos: int)
    requires
        well_ended(toks),
        0 <= pos < toks.len(),
    ensures
        advanced(toks, pos, primary_head(toks, pos)),
    decreases toks.len() - pos, 1nat,
{
    let kind = kind_at(toks, pos);
    if kind == TokenKind::LParen {
        lemma_expression(toks, pos + 1);
        let r = parse_expression(toks, pos + 1);
        if r.result is Ok {
            lemma_expect(toks, r.pos, TokenKind::RParen, "expected ')' after expression"@);
        }
    } else if kind == TokenKind::LBrace {
        lemma_table_literal(toks, pos);
    }
}

proof fn lemma_table_literal(toks: Seq<SpecToken>, pos: int)
    requires
        well_ended(toks),
        0 <= pos < toks.len(),
    ensures
        advanced(toks, pos, table_literal(toks, pos)),
    decreases toks.len() - pos, 0nat,
{
    if kind_at(toks, pos) == TokenKind::LBrace {
        lemma_table_fields(toks, pos + 1, Seq::empty());
        let r = table_fields(toks, pos + 1, Seq::empty());
        if r.result is Ok {
            lemma_expect(toks, r.pos, TokenKind::RBrace, "expected '}' to close table literal"@);
        }
    }
}

proof fn lemma_table_fields(toks: Seq<SpecToken>, pos: int, acc: Seq<SpecTableField>)
    requires
        well_ended(toks),
        0 <= pos < toks.len(),
    ensures
        within(toks, pos, table_fields(toks, pos, acc).pos),
    decreases toks.len() - pos, 12nat,
{
    let kind = kind_at(toks, pos);
    if kind != TokenKind::RBrace && kind != TokenKind::Eof {
        let field: Parsed<SpecTableField> = if kind == TokenKind::Identifier {
            if kind_at(toks, pos + 1) == TokenKind::Colon {
                lemma_expression(toks, pos + 2);
                let r = parse_expression(toks, pos + 2);
                match r.result {
                    Ok(value) => crate::grammar::parsed(
                        r.pos,
                        SpecTableField::KeyValue {
                            key: crate::grammar::lexeme_at(toks, pos),
                            value,
                        },
                    ),
                    Err(err) => crate::grammar::refused(r.pos, err),
                }
            } else {
                crate::grammar::parsed(
                    pos + 1,
                    SpecTableField::Value(SpecExpr::Ident(crate::grammar::lexeme_at(toks, pos))),
                )
            }
        } else {
            lemma_expression(toks, pos);
            let r = parse_expression(toks, pos);
            match r.result {
                Ok(value) => crate::grammar::parsed(r.pos, SpecTableField::Value(value)),
                Err(err) => crate::grammar::refused(r.pos, err),
            }
        };
        match field.result {
            Err(_) => {},
            Ok(f) => {
                if kind_at(toks, field.pos) == TokenKind::Comma {
                    lemma_table_fields(toks, field.pos + 1, acc.push(f));
                }
            },
        }
    }
}

proof fn lemma_call_args(toks: Seq<SpecToken>, pos: int, acc: Seq<SpecExpr>)
    requires
        well_ended(toks),
        0 <= pos < toks.len(),
    ensures
        advanced(toks, pos, call_args(toks, pos, acc)),
    decreases toks.len() - pos, 12nat,
{
    lemma_expression(toks, pos);
    let r = parse_expression(toks, pos);
    match r.result {
        Err(_) => {},
        Ok(arg) => {
            if kind_at(toks, r.pos) == TokenKind::Comma {
                lemma_call_args(toks, r.pos + 1, acc.push(arg));
            }
        },
    }
}

proof fn lemma_postfix(toks: Seq<SpecToken>, pos: int, e: SpecExpr)
    requires
        well_ended(toks),
        0 <= pos < toks.len(),
    ensures
        within(toks, pos, postfix(toks, pos, e).pos),
    decreases toks.len() - pos, 13nat,
{
    let kind = kind_at(toks, pos);
    if kind == TokenKind::LParen {
        let args = if kind_at(toks, pos + 1) == TokenKind::RParen {
            crate::grammar::parsed(pos + 1, Seq::empty())
        } else {
            lemma_call_args(toks, pos + 1, Seq::empty());
            call_args(toks, pos + 1, Seq::empty())
        };
        match args.result {
            Err(_) => {},
            Ok(list) => {
                lemma_expect(toks, args.pos, TokenKind::RParen, "expected ')' after arguments"@);
                let close = expect(
                    toks,
                    args.pos,
                    TokenKind::RParen,
                    "expected ')' after arguments"@,
                );
                if close.result is Ok {
                    lemma_postfix(
                        toks,
                        close.pos,
                        SpecExpr::Call { callee: Box::new(e), args: list },
                    );
                }
            },
        }
    } else if kind == TokenKind::Dot {
        if kind_at(toks, pos + 1) == TokenKind::Identifier {
            lemma_postfix(
                toks,
                pos + 2,
                SpecExpr::Member {
                    object: Box::new(e),
                    field: crate::grammar::lexeme_at(toks, pos + 1),
                },
            );
        }
    } else if kind == TokenKind::LBracket {
        lemma_expression(toks, pos + 1);
        let r = parse_expression(toks, pos + 1);
        match r.result {
            Err(_) => {},
            Ok(index) => {
                lemma_expect(toks, r.pos, TokenKind::RBracket, "expected ']' after index"@);
                let close = expect(toks, r.pos, TokenKind::RBracket, "expected ']' after index"@);
                if close.result is Ok {
                    lemma_postfix(
                        toks,
                        close.pos,
                        SpecExpr::Index { object: Box::new(e), index: Box::new(index) },
                    );
                }
            },
        }
    }
}

proof fn lemma_synchronize(toks: Seq<SpecToken>, pos: int)
    requires
        well_ended(toks),
        0 <= pos < toks.len(),
    ensures
        within(toks, pos, synchronize(toks, pos)),
        kind_at(toks, pos) != TokenKind::Eof ==> pos < synchronize(toks, pos),
{
    if kind_at(toks, pos) != TokenKind::Eof {
        lemma_skip_to_statement(toks, pos + 1);
    }
}

proof fn lemma_param_list(toks: Seq<SpecToken>, pos: int, acc: Seq<Seq<char>>)
    requires
        well_ended(toks),
        0 <= pos < toks.len(),
    ensures
        advanced(toks, pos, param_list(toks, pos, acc)),
    decreases toks.len() - pos,
{
    if kind_at(toks, pos) == TokenKind::Identifier && kind_at(toks, pos + 1) == TokenKind::Comma {
        lemma_param_list(toks, pos + 2, acc.push(crate::grammar::lexeme_at(toks, pos)));
    }
}

proof fn lemma_var_decl(toks: Seq<SpecToken>, pos: int)
    requires
        well_ended(toks),
        0 <= pos < toks.len(),
        kind_at(toks, pos) == TokenKind::KwVar,
    ensures
        advanced(toks, pos, parse_var_decl(toks, pos)),
{
    if kind_at(toks, pos + 1) == TokenKind::Identifier {
        let typed = if kind_at(toks, pos + 2) == TokenKind::Colon {
            if kind_at(toks, pos + 3) == TokenKind::Identifier {
                pos + 4
            } else {
                pos + 3
            }
        } else {
            pos + 2
        };
        lemma_expect(toks, typed, TokenKind::Equal, "expected '=' in var declaration"@);
        let eq = expect(toks, typed, TokenKind::Equal, "expected '=' in var declaration"@);
        if eq.result is Ok {
            lemma_expression(toks, eq.pos);
        }
    }
}

proof fn lemma_return(toks: Seq<SpecToken>, pos: int)
    requires
        well_ended(toks),
        0 <= pos < toks.len(),
        kind_at(toks, pos) == TokenKind::KwReturn,
    ensures
        advanced(toks, pos, parse_return(toks, pos)),
{
    if kind_at(toks, pos + 1) != TokenKind::Semicolon {
        lemma_expression(toks, pos + 1);
    }
}

proof fn lemma_simple_statement(toks: Seq<SpecToken>, pos: int)
    requires
        well_ended(toks),
        0 <= pos < toks.len(),
    ensures
        advanced(toks, pos, simple_statement(toks, pos)),
{
    let kind = kind_at(toks, pos);
    if kind == TokenKind::KwVar {
        lemma_var_decl(toks, pos);
    } else if kind == TokenKind::KwReturn {
        lemma_return(toks, pos);
    } else if kind == TokenKind::KwBreak {
    } else if kind == TokenKind::KwContinue {
    } else {
        lemma_expression(toks, pos);
    }
}

proof fn lemma_extends_push(a: Seq<SpecParseError>, b: Seq<SpecParseError>, e: SpecParseError)
    requires
        extends(a, b),
    ensures
        extends(a, b.push(e)),
{
    assert forall|i: int| 0 <= i < a.len() implies #[trigger] b.push(e)[i] == a[i] by {
        assert(b[i] == a[i]);
    }
}

proof fn lemma_statements(
    toks: Seq<SpecToken>,
    pos: int,
    end: BlockEnd,
    stmts: Seq<SpecStmt>,
    errors: Seq<SpecParseError>,
)
    requires
        well_ended(toks),
        0 <= pos < toks.len(),
    ensures
        carried(toks, pos, errors, statements(toks, pos, end, stmts, errors)),
        statements(toks, pos, end, stmts, errors).result is Ok,
    decreases toks.len() - pos, 30nat,
{
    if !crate::grammar::closes(end, kind_at(toks, pos)) {
        lemma_statement(toks, pos, errors);
        let r = parse_statement(toks, pos, errors);
        match r.result {
            Ok(s) => {
                lemma_statements(toks, r.pos, end, stmts.push(s), r.errors);
            },
            Err(e) => {
                lemma_synchronize(toks, r.pos);
                let next = synchronize(toks, r.pos);
                lemma_extends_push(errors, r.errors, e);
                lemma_statements(toks, next, end, stmts, r.errors.push(e));
            },
        }
    }
}

proof fn lemma_braced_block(toks: Seq<SpecToken>, pos: int, errors: Seq<SpecParseError>)
    requires
        well_ended(toks),
        0 <= pos < toks.len(),
    ensures
        progressed(toks, pos, errors, braced_block(toks, pos, errors)),
    decreases toks.len() - pos, 20nat,
{
    if kind_at(toks, pos) == TokenKind::LBrace {
        lemma_statements(toks, pos + 1, BlockEnd::Brace, Seq::empty(), errors);
        let r = statements(toks, pos + 1, BlockEnd::Brace, Seq::empty(), errors);
        lemma_expect(toks, r.pos, TokenKind::RBrace, "expected '}' to close block"@);
    }
}

proof fn lemma_block(toks: Seq<SpecToken>, pos: int, errors: Seq<SpecParseError>)
    requires
        well_ended(toks),
        0 <= pos < toks.len(),
    ensures
        carried(toks, pos, errors, parse_block(toks, pos, errors)),
    decreases toks.len() - pos, 32nat,
{
    if kind_at(toks, pos) == TokenKind::LBrace {
        lemma_braced_block(toks, pos, errors);
    } else {
        lemma_statements(toks, pos, BlockEnd::Keyword, Seq::empty(), errors);
    }
}

proof fn lemma_guarded_block(
    toks: Seq<SpecToken>,
    pos: int,
    keyword: TokenKind,
    detail: Seq<char>,
    errors: Seq<SpecParseError>,
)
    requires
        well_ended(toks),
        0 <= pos < toks.len(),
        keyword != TokenKind::Eof,
    ensures
        progressed(toks, pos, errors, guarded_block(toks, pos, keyword, detail, errors)),
    decreases toks.len() - pos, 33nat,
{
    lemma_expression(toks, pos);
    let c = parse_expression(toks, pos);
    if c.result is Ok {
        lemma_expect(toks, c.pos, keyword, detail);
        let k = expect(toks, c.pos, keyword, detail);
        if k.result is Ok {
            lemma_block(toks, k.pos, errors);
        }
    }
}

proof fn lemma_elif_branches(
    toks: Seq<SpecToken>,
    pos: int,
    acc: Seq<(SpecExpr, SpecStmt)>,
    errors: Seq<SpecParseError>,
)
    requires
        well_ended(toks),
        0 <= pos < toks.len(),
    ensures
        carried(toks, pos, errors, elif_branches(toks, pos, acc, errors)),
    decreases toks.len() - pos, 34nat,
{
    if kind_at(toks, pos) == TokenKind::KwElif {
        lemma_guarded_block(
            toks,
            pos + 1,
            TokenKind::KwThen,
            "expected 'then' after elif condition"@,
            errors,
        );
        let g = guarded_block(
            toks,
            pos + 1,
            TokenKind::KwThen,
            "expected 'then' after elif condition"@,
            errors,
        );
        match g.result {
            Err(_) => {},
            Ok(branch) => {
                lemma_elif_branches(toks, g.pos, acc.push(branch), g.errors);
            },
        }
    }
}

proof fn lemma_else_branch(toks: Seq<SpecToken>, pos: int, errors: Seq<SpecParseError>)
    requires
        well_ended(toks),
        0 <= pos < toks.len(),
    ensures
        carried(toks, pos, errors, else_branch(toks, pos, errors)),
    decreases toks.len() - pos, 33nat,
{
    if kind_at(toks, pos) == TokenKind::KwElse {
        lemma_block(toks, pos + 1, errors);
    }
}

proof fn lemma_if_tail(toks: Seq<SpecToken>, pos: int, errors: Seq<SpecParseError>)
    requires
        well_ended(toks),
        0 <= pos < toks.len(),
    ensures
        progressed(toks, pos, errors, if_tail(toks, pos, errors)),
    decreases toks.len() - pos, 35nat,
{
    lemma_elif_branches(toks, pos, Seq::empty(), errors);
    let elifs = elif_branches(toks, pos, Seq::empty(), errors);
    if elifs.result is Ok {
        lemma_else_branch(toks, elifs.pos, elifs.errors);
        let other = else_branch(toks, elifs.pos, elifs.errors);
        if other.result is Ok {
            lemma_expect(toks, other.pos, TokenKind::KwEnd, "expected 'end' after if statement"@);
        }
    }
}

proof fn lemma_if(toks: Seq<SpecToken>, pos: int, errors: Seq<SpecParseError>)
    requires
        well_ended(toks),
        0 <= pos < toks.len(),
    ensures
        progressed(toks, pos, errors, parse_if(toks, pos, errors)),
    decreases toks.len() - pos, 25nat,
{
    if kind_at(toks, pos) == TokenKind::KwIf {
        lemma_guarded_block(
            toks,
            pos + 1,
            TokenKind::KwThen,
            "expected 'then' after if condition"@,
            errors,
        );
        let first = guarded_block(
            toks,
            pos + 1,
            TokenKind::KwThen,
            "expected 'then' after if condition"@,
            errors,
        );
        if first.result is Ok {
            lemma_if_tail(toks, first.pos, first.errors);
        }
    }
}

proof fn lemma_while(toks: Seq<SpecToken>, pos: int, errors: Seq<SpecParseError>)
    requires
        well_ended(toks),
        0 <= pos < toks.len(),
    ensures
        progressed(toks, pos, errors, parse_while(toks, pos, errors)),
    decreases toks.len() - pos, 25nat,
{
    if kind_at(toks, pos) == TokenKind::KwWhile {
        lemma_guarded_block(
            toks,
            pos + 1,
            TokenKind::KwDo,
            "expected 'do' after while condition"@,
            errors,
        );
        let g = guarded_block(
            toks,
            pos + 1,
            TokenKind::KwDo,
            "expected 'do' after while condition"@,
            errors,
        );
        if g.result is Ok {
            lemma_expect(toks, g.pos, TokenKind::KwEnd, "expected 'end' after while statement"@);
        }
    }
}

proof fn lemma_for_range(toks: Seq<SpecToken>, pos: int)
    requires
        well_ended(toks),
        0 <= pos < toks.len(),
    ensures
        advanced(toks, pos, for_range(toks, pos)),
{
    lemma_expect(toks, pos, TokenKind::Equal, "expected '=' after loop variable"@);
    let eq = expect(toks, pos, TokenKind::Equal, "expected '=' after loop variable"@);
    if eq.result is Ok {
        lemma_expression(toks, eq.pos);
        let first = parse_expression(toks, eq.pos);
        if first.result is Ok {
            lemma_expect(toks, first.pos, TokenKind::Comma, "expected ',' after start value"@);
            let comma = expect(
                toks,
                first.pos,
                TokenKind::Comma,
                "expected ',' after start value"@,
            );
            if comma.result is Ok {
                lemma_expression(toks, comma.pos);
                let last = parse_expression(toks, comma.pos);
                if last.result is Ok && kind_at(toks, last.pos) == TokenKind::Comma {
                    lemma_expression(toks, last.pos + 1);
                }
            }
        }
    }
}

proof fn lemma_for_head(toks: Seq<SpecToken>, pos: int)
    requires
        well_ended(toks),
        0 <= pos < toks.len(),
    ensures
        advanced(toks, pos, for_head(toks, pos)),
{
    if kind_at(toks, pos) == TokenKind::Identifier {
        lemma_for_range(toks, pos + 1);
        let range = for_range(toks, pos + 1);
        if range.result is Ok {
            lemma_expect(toks, range.pos, TokenKind::KwDo, "expected 'do' after for bounds"@);
        }
    }
}

proof fn lemma_body_and_end(
    toks: Seq<SpecToken>,
    pos: int,
    end_detail: Seq<char>,
    errors: Seq<SpecParseError>,
)
    requires
        well_ended(toks),
        0 <= pos < toks.len(),
    ensures
        progressed(toks, pos, errors, body_and_end(toks, pos, end_detail, errors)),
    decreases toks.len() - pos, 33nat,
{
    lemma_block(toks, pos, errors);
    let b = parse_block(toks, pos, errors);
    if b.result is Ok {
        lemma_expect(toks, b.pos, TokenKind::KwEnd, end_detail);
    }
}

proof fn lemma_for(toks: Seq<SpecToken>, pos: int, errors: Seq<SpecParseError>)
    requires
        well_ended(toks),
        0 <= pos < toks.len(),
        kind_at(toks, pos) == TokenKind::KwFor,
    ensures
        progressed(toks, pos, errors, parse_for(toks, pos, errors)),
    decreases toks.len() - pos, 25nat,
{
    lemma_for_head(toks, pos + 1);
    let head = for_head(toks, pos + 1);
    if head.result is Ok {
        lemma_body_and_end(toks, head.pos, "expected 'end' after for statement"@, errors);
    }
}

proof fn lemma_signature(
    toks: Seq<SpecToken>,
    pos: int,
    name_detail: Seq<char>,
    open_detail: Seq<char>,
    body_detail: Seq<char>,
)
    requires
        well_ended(toks),
        0 <= pos < toks.len(),
    ensures
        advanced(toks, pos, signature(toks, pos, name_detail, open_detail, body_detail)),
{
    if kind_at(toks, pos) == TokenKind::Identifier {
        lemma_expect(toks, pos + 1, TokenKind::LParen, open_detail);
        let open = expect(toks, pos + 1, TokenKind::LParen, open_detail);
        if open.result is Ok {
            if kind_at(toks, open.pos) != TokenKind::RParen {
                lemma_param_list(toks, open.pos, Seq::empty());
            }
            let params = parse_params(toks, open.pos);
            if params.result is Ok {
                lemma_expect(
                    toks,
                    params.pos,
                    TokenKind::RParen,
                    "expected ')' after parameter list"@,
                );
                let close = expect(
                    toks,
                    params.pos,
                    TokenKind::RParen,
                    "expected ')' after parameter list"@,
                );
                if close.result is Ok {
                    lemma_expect(toks, close.pos, TokenKind::Colon, body_detail);
                }
            }
        }
    }
}

proof fn lemma_func_decl(toks: Seq<SpecToken>, pos: int, errors: Seq<SpecParseError>)
    requires
        well_ended(toks),
        0 <= pos < toks.len(),
        kind_at(toks, pos) == TokenKind::KwFunc,
    ensures
        progressed(toks, pos, errors, parse_func_decl(toks, pos, errors)),
    decreases toks.len() - pos, 25nat,
{
    lemma_signature(
        toks,
        pos + 1,
        "expected function name after 'func'"@,
        "expected '(' after function name"@,
        "expected ':' before function body"@,
    );
    let sig = signature(
        toks,
        pos + 1,
        "expected function name after 'func'"@,
        "expected '(' after function name"@,
        "expected ':' before function body"@,
    );
    if sig.result is Ok {
        let typed = skip_result_type(toks, sig.pos);
        lemma_body_and_end(toks, typed, "expected 'end' after function body"@, errors);
    }
}

proof fn lemma_event_decl(toks: Seq<SpecToken>, pos: int, errors: Seq<SpecParseError>)
    requires
        well_ended(toks),
        0 <= pos < toks.len(),
        kind_at(toks, pos) == TokenKind::KwOn,
    ensures
        progressed(toks, pos, errors, parse_event_decl(toks, pos, errors)),
    decreases toks.len() - pos, 25nat,
{
    lemma_signature(
        toks,
        pos + 1,
        "expected event name after 'on'"@,
        "expected '(' after event name"@,
        "expected ':' before event body"@,
    );
    let sig = signature(
        toks,
        pos + 1,
        "expected event name after 'on'"@,
        "expected '(' after event name"@,
        "expected ':' before event body"@,
    );
    if sig.result is Ok {
        lemma_body_and_end(toks, sig.pos, "expected 'end' after event body"@, errors);
    }
}

proof fn lemma_object_member(toks: Seq<SpecToken>, pos: int, errors: Seq<SpecParseError>)
    requires
        well_ended(toks),
        0 <= pos < toks.len(),
    ensures
        progressed(toks, pos, errors, object_member(toks, pos, errors)),
    decreases toks.len() - pos, 26nat,
{
    let kind = kind_at(toks, pos);
    if kind == TokenKind::KwVar {
        lemma_var_decl(toks, pos);
    } else if kind == TokenKind::KwFunc {
        lemma_func_decl(toks, pos, errors);
    } else if kind == TokenKind::KwOn {
        lemma_event_decl(toks, pos, errors);
    }
}

proof fn lemma_object_members(
    toks: Seq<SpecToken>,
    pos: int,
    acc: Seq<SpecObjectMember>,
    errors: Seq<SpecParseError>,
)
    requires
        well_ended(toks),
        0 <= pos < toks.len(),
    ensures
        carried(toks, pos, errors, object_members(toks, pos, acc, errors)),
    decreases toks.len() - pos, 27nat,
{
    let kind = kind_at(toks, pos);
    if kind != TokenKind::RBrace && kind != TokenKind::Eof {
        lemma_object_member(toks, pos, errors);
        let member = object_member(toks, pos, errors);
        match member.result {
            Err(_) => {},
            Ok(m) => {
                lemma_object_members(toks, member.pos, acc.push(m), member.errors);
            },
        }
    }
}

proof fn lemma_object_head(toks: Seq<SpecToken>, pos: int)
    requires
        well_ended(toks),
        0 <= pos < toks.len(),
    ensures
        advanced(toks, pos, object_head(toks, pos)),
{
    if kind_at(toks, pos) == TokenKind::Identifier {
        lemma_expect(toks, pos + 1, TokenKind::Colon, "expected ':' after object name"@);
        let colon = expect(toks, pos + 1, TokenKind::Colon, "expected ':' after object name"@);
        if colon.result is Ok {
            lemma_expect(
                toks,
                colon.pos,
                TokenKind::LBrace,
                "expected '{' to start object body"@,
            );
        }
    }
}

proof fn lemma_object_end(toks: Seq<SpecToken>, pos: int)
    requires
        well_ended(toks),
        0 <= pos < toks.len(),
    ensures
        advanced(toks, pos, object_end(toks, pos)),
{
    lemma_expect(toks, pos, TokenKind::RBrace, "expected '}' to close object body"@);
    let close = expect(toks, pos, TokenKind::RBrace, "expected '}' to close object body"@);
    if close.result is Ok {
        lemma_expect(toks, close.pos, TokenKind::KwEnd, "expected 'end' after object"@);
    }
}

proof fn lemma_object_decl(toks: Seq<SpecToken>, pos: int, errors: Seq<SpecParseError>)
    requires
        well_ended(toks),
        0 <= pos < toks.len(),
        kind_at(toks, pos) == TokenKind::KwObject,
    ensures
        progressed(toks, pos, errors, parse_object_decl(toks, pos, errors)),
    decreases toks.len() - pos, 25nat,
{
    lemma_object_head(toks, pos + 1);
    let head = object_head(toks, pos + 1);
    if head.result is Ok {
        lemma_object_members(toks, head.pos, Seq::empty(), errors);
        let members = object_members(toks, head.pos, Seq::empty(), errors);
        if members.result is Ok {
            lemma_object_end(toks, members.pos);
        }
    }
}

proof fn lemma_compound(toks: Seq<SpecToken>, pos: int, errors: Seq<SpecParseError>)
    requires
        well_ended(toks),
        0 <= pos < toks.len(),
        is_compound(kind_at(toks, pos)),
    ensures
        progressed(toks, pos, errors, compound_statement(toks, pos, errors)),
    decreases toks.len() - pos, 28nat,
{
    let kind = kind_at(toks, pos);
    if kind == TokenKind::KwIf {
        lemma_if(toks, pos, errors);
    } else if kind == TokenKind::KwWhile {
        lemma_while(toks, pos, errors);
    } else if kind == TokenKind::KwFor {
        lemma_for(toks, pos, errors);
    } else if kind == TokenKind::KwFunc {
        lemma_func_decl(toks, pos, errors);
        assert(func_statement(toks, pos, errors).pos == parse_func_decl(toks, pos, errors).pos);
    } else if kind == TokenKind::KwObject {
        lemma_object_decl(toks, pos, errors);
        assert(object_statement(toks, pos, errors).pos == parse_object_decl(
            toks,
            pos,
            errors,
        ).pos);
    } else {
        lemma_braced_block(toks, pos, errors);
        assert(block_statement(toks, pos, errors).pos == braced_block(toks, pos, errors).pos);
    }
}

proof fn lemma_statement(toks: Seq<SpecToken>, pos: int, errors: Seq<SpecParseError>)
    requires
        well_ended(toks),
        0 <= pos < toks.len(),
    ensures
        progressed(toks, pos, errors, parse_statement(toks, pos, errors)),
    decreases toks.len() - pos, 29nat,
{
    if is_compound(kind_at(toks, pos)) {
        lemma_compound(toks, pos, errors);
    } else {
        lemma_simple_statement(toks, pos);
    }
}

/// An expression stops within the tokens, and a well-formed one takes in at
/// least one token.
pub proof fn lemma_expression_advances(toks: Seq<SpecToken>, pos: int)
    requires
        well_ended(toks),
        0 <= pos < toks.len(),
    ensures
        advanced(toks, pos, parse_expression(toks, pos)),
{
    lemma_expression(toks, pos);
}

/// A statement stops within the tokens, a well-formed one takes in at least
/// one token, and no error set aside before it is dropped.
pub proof fn lemma_statement_advances(
    toks: Seq<SpecToken>,
    pos: int,
    errors: Seq<SpecParseError>,
)
    requires
        well_ended(toks),
        0 <= pos < toks.len(),
    ensures
        progressed(toks, pos, errors, parse_statement(toks, pos, errors)),
{
    lemma_statement(toks, pos, errors);
}

/// A run of statements always comes to its end: it gives the statements
/// that are well formed, sets the errors of the others aside behind those
/// set aside before, and stops within the tokens.
pub proof fn lemma_statements_recover(
    toks: Seq<SpecToken>,
    pos: int,
    end: BlockEnd,
    errors: Seq<SpecParseError>,
)
    requires
        well_ended(toks),
        0 <= pos < toks.len(),
    ensures
        carried(toks, pos, errors, statements(toks, pos, end, Seq::empty(), errors)),
        statements(toks, pos, end, Seq::empty(), errors).result is Ok,
        end == BlockEnd::Input ==> kind_at(
            toks,
            statements(toks, pos, end, Seq::empty(), errors).pos,
        ) == TokenKind::Eof,
{
    lemma_statements(toks, pos, end, Seq::empty(), errors);
    lemma_statements_end(toks, pos, end, Seq::empty(), errors);
}

proof fn lemma_statements_end(
    toks: Seq<SpecToken>,
    pos: int,
    end: BlockEnd,
    stmts: Seq<SpecStmt>,
    errors: Seq<SpecParseError>,
)
    requires
        well_ended(toks),
        0 <= pos < toks.len(),
    ensures
        crate::grammar::closes(end, kind_at(toks, statements(toks, pos, end, stmts, errors).pos)),
    decreases toks.len() - pos,
{
    if !crate::grammar::closes(end, kind_at(toks, pos)) {
        lemma_statement(toks, pos, errors);
        let r = parse_statement(toks, pos, errors);
        match r.result {
            Ok(s) => {
                lemma_statements_end(toks, r.pos, end, stmts.push(s), r.errors);
            },
            Err(e) => {
                lemma_synchronize(toks, r.pos);
                let next = synchronize(toks, r.pos);
                lemma_statements_end(toks, next, end, stmts, r.errors.push(e));
            },
        }
    }
}

/// Parsing reads a source to its end: the statements of a program stop
/// only at the `Eof` that ends the tokens of the source, whatever errors lie
/// on the way.
pub proof fn lemma_program_is_read_to_the_end(src: Seq<u8>)
    ensures
        ({
            let toks = tokens_from(src, 0);
            let r = statements(toks, 0, BlockEnd::Input, Seq::empty(), Seq::empty());
            &&& well_ended(toks)
            &&& r.result is Ok
            &&& r.pos == toks.len() - 1
        }),
{
    let toks = tokens_from(src, 0);
    lemma_tokens_well_ended(src, 0);
    lemma_statements_recover(toks, 0, BlockEnd::Input, Seq::empty());
}

} // verus!
