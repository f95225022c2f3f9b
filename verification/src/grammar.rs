//! The grammar: what a sequence of tokens parses to.
//!
//! Each function takes the tokens and the position of the token to look at,
//! and gives the position behind what it took in together with a tree or an
//! error. Statements can hold blocks, and a block goes on after an error in
//! one of its statements; so the functions for statements also give the
//! errors that were set aside on the way.
//!
//! ```text
//! program    := statement*
//! statement  := var | if | while | for | return | break | continue | func
//!             | object | '{' statement* '}' | expression [';']
//! var        := 'var' NAME [':' [NAME]] '=' expression [';']
//! if         := 'if' expression 'then' block
//!               ('elif' expression 'then' block)* ['else' block] 'end'
//! while      := 'while' expression 'do' block 'end'
//! for        := 'for' NAME '=' expression ',' expression [',' expression]
//!               'do' block 'end'
//! return     := 'return' [expression] [';']
//! break      := 'break' [';']
//! continue   := 'continue' [';']
//! func       := 'func' NAME '(' params ')' ':' [NAME ':'] block 'end'
//! object     := 'object' NAME ':' '{' (var | func | event)* '}' 'end'
//! event      := 'on' NAME '(' params ')' ':' block 'end'
//! block      := '{' statement* '}'
//!             | statement*          up to 'end', 'elif' or 'else'
//! expression := or
//! or         := and ('or' and)*
//! and        := equality ('and' equality)*
//! equality   := comparison (('==' | '!=') comparison)*
//! comparison := term (('<' | '<=' | '>' | '>=') term)*
//! term       := factor (('+' | '-') factor)*
//! factor     := unary (('*' | '/') unary)*
//! unary      := ('-' | '!' | 'not') unary | primary
//! primary    := (INT | FLOAT | STRING | 'true' | 'false' | 'nil' | NAME
//!               | '(' expression ')' | table) postfix*
//! postfix    := '(' [expression (',' expression)*] ')' | '.' NAME
//!             | '[' expression ']'
//! table      := '{' [field (',' field)* [',']] '}'
//! field      := NAME ':' expression | NAME | expression
//! ```

use crate::ast::{
    BinaryOp, SpecEventDecl, SpecExpr, SpecFuncDecl, SpecLiteral, SpecObjectDecl, SpecObjectMember,
    SpecProgram, SpecStmt, SpecTableField, UnaryOp,
};
use crate::lexer::{kind_name, SpecToken, TokenKind};
use crate::text::parse_decimal;
use vstd::prelude::*;
use vstd::utf8::encode_utf8;

verus! {

/// A syntax error, with the place of the token at which it was found.
pub ghost struct SpecParseError {
    pub line: nat,
    pub column: nat,
    pub message: Seq<char>,
}

/// A tree or an error, and the position behind what was taken in.
pub ghost struct Parsed<T> {
    pub pos: int,
    pub result: Result<T, SpecParseError>,
}

/// A tree or an error, the position behind what was taken in, and the
/// errors that were set aside on the way.
pub ghost struct Recovered<T> {
    pub pos: int,
    pub errors: Seq<SpecParseError>,
    pub result: Result<T, SpecParseError>,
}

/// The parse that gave `tree` and stopped at `pos`.
pub open spec fn parsed<T>(pos: int, tree: T) -> Parsed<T> {
    Parsed { pos, result: Ok(tree) }
}

/// The parse that failed with `e` at `pos`.
pub open spec fn refused<T>(pos: int, e: SpecParseError) -> Parsed<T> {
    Parsed { pos, result: Err(e) }
}

/// The parse that gave `tree`, stopped at `pos` and has set `errors` aside.
pub open spec fn recovered<T>(pos: int, errors: Seq<SpecParseError>, tree: T) -> Recovered<T> {
    Recovered { pos, errors, result: Ok(tree) }
}

/// The parse that failed with `e` at `pos` and has set `errors` aside.
pub open spec fn given_up<T>(pos: int, errors: Seq<SpecParseError>, e: SpecParseError)
    -> Recovered<T> {
    Recovered { pos, errors, result: Err(e) }
}

/// The tokens are fit to be parsed: there is one at least, the last is
/// `Eof`, and no other is.
pub open spec fn well_ended(toks: Seq<SpecToken>) -> bool {
    &&& toks.len() >= 1
    &&& toks[toks.len() - 1].kind == TokenKind::Eof
    &&& forall|i: int| 0 <= i < toks.len() - 1 ==> (#[trigger] toks[i]).kind != TokenKind::Eof
}

/// The kind of the token at `pos`; `Eof` behind the last token.
pub open spec fn kind_at(toks: Seq<SpecToken>, pos: int) -> TokenKind {
    if 0 <= pos < toks.len() - 1 {
        toks[pos].kind
    } else {
        TokenKind::Eof
    }
}

/// The text of the token at `pos`.
pub open spec fn lexeme_at(toks: Seq<SpecToken>, pos: int) -> Seq<char> {
    toks[pos].lexeme
}

/// Whether `to` lies behind `from` and within the tokens.
pub open spec fn ahead(toks: Seq<SpecToken>, from: int, to: int) -> bool {
    from < to < toks.len()
}

/// The error with the given message at the token at `pos`.
pub open spec fn error_at(toks: Seq<SpecToken>, pos: int, message: Seq<char>) -> SpecParseError {
    SpecParseError { line: toks[pos].line, column: toks[pos].column, message }
}

/// The message of a missing token.
pub open spec fn expected(kind: TokenKind, detail: Seq<char>) -> Seq<char> {
    "expected "@ + kind_name(kind) + ": "@ + detail
}

/// Takes in a token of the given kind: the position behind it, or the error
/// that another token stands there.
pub open spec fn expect(toks: Seq<SpecToken>, pos: int, kind: TokenKind, detail: Seq<char>)
    -> Parsed<()> {
    if kind_at(toks, pos) == kind {
        parsed(pos + 1, ())
    } else {
        refused(pos, error_at(toks, pos, expected(kind, detail)))
    }
}

/// The position behind an optional `;`.
pub open spec fn skip_semicolon(toks: Seq<SpecToken>, pos: int) -> int {
    if kind_at(toks, pos) == TokenKind::Semicolon {
        pos + 1
    } else {
        pos
    }
}

/// The value of an integer literal: what its digits denote, or zero where
/// that does not fit in 64 bits.
pub open spec fn int_literal(lexeme: Seq<char>) -> i64 {
    match parse_decimal(encode_utf8(lexeme)) {
        Some(v) => v,
        None => 0,
    }
}

/// The binary operator that a token denotes at a level of precedence, from 0,
/// the loosest (`or`), to 5, the tightest (`*` and `/`).
pub open spec fn operator_at(level: int, kind: TokenKind) -> Option<BinaryOp> {
    if level == 0 {
        if kind == TokenKind::KwOr {
            Some(BinaryOp::Or)
        } else {
            None
        }
    } else if level == 1 {
        if kind == TokenKind::KwAnd {
            Some(BinaryOp::And)
        } else {
            None
        }
    } else if level == 2 {
        if kind == TokenKind::EqualEqual {
            Some(BinaryOp::Equal)
        } else if kind == TokenKind::BangEqual {
            Some(BinaryOp::NotEqual)
        } else {
            None
        }
    } else if level == 3 {
        if kind == TokenKind::Less {
            Some(BinaryOp::Less)
        } else if kind == TokenKind::LessEqual {
            Some(BinaryOp::LessEqual)
        } else if kind == TokenKind::Greater {
            Some(BinaryOp::Greater)
        } else if kind == TokenKind::GreaterEqual {
            Some(BinaryOp::GreaterEqual)
        } else {
            None
        }
    } else if level == 4 {
        if kind == TokenKind::Plus {
            Some(BinaryOp::Add)
        } else if kind == TokenKind::Minus {
            Some(BinaryOp::Sub)
        } else {
            None
        }
    } else if level == 5 {
        if kind == TokenKind::Star {
            Some(BinaryOp::Mul)
        } else if kind == TokenKind::Slash {
            Some(BinaryOp::Div)
        } else {
            None
        }
    } else {
        None
    }
}

/// The expression `left op right`.
pub open spec fn binary(left: SpecExpr, op: BinaryOp, right: SpecExpr) -> SpecExpr {
    SpecExpr::Binary { left: Box::new(left), op, right: Box::new(right) }
}

/// An expression.
pub open spec fn parse_expression(toks: Seq<SpecToken>, pos: int) -> Parsed<SpecExpr>
    decreases toks.len() - pos, 11nat,
{
    binary_level(toks, pos, 0)
}

/// An operand of level `level`, and the operators of that level with their
/// operands that follow it, taken from left to right.
pub open spec fn binary_level(toks: Seq<SpecToken>, pos: int, level: int) -> Parsed<SpecExpr>
    decreases toks.len() - pos, (if 0 <= level <= 5 {
        10 - level
    } else {
        4
    }),
{
    if level < 0 || level > 5 {
        parse_unary(toks, pos)
    } else {
        let l = binary_level(toks, pos, level + 1);
        match l.result {
            Ok(left) => if ahead(toks, pos, l.pos) {
                binary_rest(toks, l.pos, level, left)
            } else {
                l
            },
            Err(_) => l,
        }
    }
}

/// The operators of level `level` and their operands from `pos` on, joined
/// to `left`.
pub open spec fn binary_rest(toks: Seq<SpecToken>, pos: int, level: int, left: SpecExpr) -> Parsed<
    SpecExpr,
>
    decreases toks.len() - pos, 0nat,
{
    match operator_at(level, kind_at(toks, pos)) {
        Some(op) => {
            let r = binary_level(toks, pos + 1, level + 1);
            match r.result {
                Ok(right) => if ahead(toks, pos, r.pos) {
                    binary_rest(toks, r.pos, level, binary(left, op, right))
                } else {
                    r
                },
                Err(_) => r,
            }
        },
        None => parsed(pos, left),
    }
}

/// A run of prefix operators and the primary expression behind them.
pub open spec fn parse_unary(toks: Seq<SpecToken>, pos: int) -> Parsed<SpecExpr>
    decreases toks.len() - pos, 3nat,
{
    let kind = kind_at(toks, pos);
    if kind == TokenKind::Minus || kind == TokenKind::KwNot {
        let r = parse_unary(toks, pos + 1);
        match r.result {
            Ok(e) => parsed(
                r.pos,
                SpecExpr::Unary {
                    op: if kind == TokenKind::Minus {
                        UnaryOp::Negate
                    } else {
                        UnaryOp::Not
                    },
                    expr: Box::new(e),
                },
            ),
            Err(_) => r,
        }
    } else {
        parse_primary(toks, pos)
    }
}

/// A primary expression and the calls, member accesses and index accesses
/// that follow it.
pub open spec fn parse_primary(toks: Seq<SpecToken>, pos: int) -> Parsed<SpecExpr>
    decreases toks.len() - pos, 2nat,
{
    let head = primary_head(toks, pos);
    match head.result {
        Ok(e) => if ahead(toks, pos, head.pos) {
            postfix(toks, head.pos, e)
        } else {
            head
        },
        Err(_) => head,
    }
}

/// A literal as an expression.
pub open spec fn literal(lit: SpecLiteral) -> SpecExpr {
    SpecExpr::Literal(lit)
}

/// A primary expression without what follows it: a literal, a name, an
/// expression in parentheses or a table literal.
pub open spec fn primary_head(toks: Seq<SpecToken>, pos: int) -> Parsed<SpecExpr>
    decreases toks.len() - pos, 1nat,
{
    let kind = kind_at(toks, pos);
    let lexeme = lexeme_at(toks, pos);
    if kind == TokenKind::Int {
        parsed(pos + 1, literal(SpecLiteral::Int(int_literal(lexeme))))
    } else if kind == TokenKind::Float {
        parsed(pos + 1, literal(SpecLiteral::Float(lexeme)))
    } else if kind == TokenKind::KwTrue {
        parsed(pos + 1, literal(SpecLiteral::Bool(true)))
    } else if kind == TokenKind::KwFalse {
        parsed(pos + 1, literal(SpecLiteral::Bool(false)))
    } else if kind == TokenKind::KwNil {
        parsed(pos + 1, literal(SpecLiteral::Nil))
    } else if kind == TokenKind::String {
        parsed(pos + 1, literal(SpecLiteral::String(lexeme)))
    } else if kind == TokenKind::Identifier {
        parsed(pos + 1, SpecExpr::Ident(lexeme))
    } else if kind == TokenKind::LParen {
        let r = parse_expression(toks, pos + 1);
        match r.result {
            Ok(e) => {
                let close = expect(
                    toks,
                    r.pos,
                    TokenKind::RParen,
                    "expected ')' after expression"@,
                );
                match close.result {
                    Ok(_) => parsed(close.pos, e),
                    Err(err) => refused(close.pos, err),
                }
            },
            Err(_) => r,
        }
    } else if kind == TokenKind::LBrace {
        let r = table_literal(toks, pos);
        match r.result {
            Ok(fields) => parsed(r.pos, SpecExpr::TableLiteral(fields)),
            Err(err) => refused(r.pos, err),
        }
    } else {
        refused(
            pos,
            error_at(toks, pos, "unexpected token in primary expression: "@ + kind_name(kind)),
        )
    }
}

/// A table literal, the token at `pos` being `{`: its fields.
pub open spec fn table_literal(toks: Seq<SpecToken>, pos: int) -> Parsed<Seq<SpecTableField>>
    decreases toks.len() - pos, 0nat,
{
    if kind_at(toks, pos) != TokenKind::LBrace {
        refused(pos, error_at(toks, pos, expected(TokenKind::LBrace, "expected '{'"@)))
    } else {
        let r = table_fields(toks, pos + 1, Seq::empty());
        match r.result {
            Ok(fields) => {
                let close = expect(
                    toks,
                    r.pos,
                    TokenKind::RBrace,
                    "expected '}' to close table literal"@,
                );
                match close.result {
                    Ok(_) => parsed(close.pos, fields),
                    Err(err) => refused(close.pos, err),
                }
            },
            Err(err) => refused(r.pos, err),
        }
    }
}

/// The fields of a table literal from `pos` on, put behind `acc`, up to the
/// closing brace. A name that stands alone is a field without a key.
pub open spec fn table_fields(toks: Seq<SpecToken>, pos: int, acc: Seq<SpecTableField>) -> Parsed<
    Seq<SpecTableField>,
>
    decreases toks.len() - pos, 12nat,
{
    let kind = kind_at(toks, pos);
    if kind == TokenKind::RBrace || kind == TokenKind::Eof {
        parsed(pos, acc)
    } else {
        let field: Parsed<SpecTableField> = if kind == TokenKind::Identifier {
            if kind_at(toks, pos + 1) == TokenKind::Colon {
                let r = parse_expression(toks, pos + 2);
                match r.result {
                    Ok(value) => parsed(
                        r.pos,
                        SpecTableField::KeyValue { key: lexeme_at(toks, pos), value },
                    ),
                    Err(err) => refused(r.pos, err),
                }
            } else {
                parsed(pos + 1, SpecTableField::Value(SpecExpr::Ident(lexeme_at(toks, pos))))
            }
        } else {
            let r = parse_expression(toks, pos);
            match r.result {
                Ok(value) => parsed(r.pos, SpecTableField::Value(value)),
                Err(err) => refused(r.pos, err),
            }
        };
        match field.result {
            Err(err) => refused(field.pos, err),
            Ok(f) => if kind_at(toks, field.pos) == TokenKind::Comma && ahead(
                toks,
                pos,
                field.pos,
            ) {
                table_fields(toks, field.pos + 1, acc.push(f))
            } else {
                parsed(field.pos, acc.push(f))
            },
        }
    }
}

/// The arguments of a call from `pos` on, put behind `acc`.
pub open spec fn call_args(toks: Seq<SpecToken>, pos: int, acc: Seq<SpecExpr>) -> Parsed<
    Seq<SpecExpr>,
>
    decreases toks.len() - pos, 12nat,
{
    let r = parse_expression(toks, pos);
    match r.result {
        Err(err) => refused(r.pos, err),
        Ok(arg) => if kind_at(toks, r.pos) == TokenKind::Comma && ahead(toks, pos, r.pos) {
            call_args(toks, r.pos + 1, acc.push(arg))
        } else {
            parsed(r.pos, acc.push(arg))
        },
    }
}

/// The calls, member accesses and index accesses from `pos` on, applied to
/// `e` from left to right.
pub open spec fn postfix(toks: Seq<SpecToken>, pos: int, e: SpecExpr) -> Parsed<SpecExpr>
    decreases toks.len() - pos, 13nat,
{
    let kind = kind_at(toks, pos);
    if kind == TokenKind::LParen {
        let args = if kind_at(toks, pos + 1) == TokenKind::RParen {
            parsed(pos + 1, Seq::empty())
        } else {
            call_args(toks, pos + 1, Seq::empty())
        };
        match args.result {
            Err(err) => refused(args.pos, err),
            Ok(list) => {
                let close = expect(
                    toks,
                    args.pos,
                    TokenKind::RParen,
                    "expected ')' after arguments"@,
                );
                match close.result {
                    Err(err) => refused(close.pos, err),
                    Ok(_) => if ahead(toks, pos, close.pos) {
                        postfix(
                            toks,
                            close.pos,
                            SpecExpr::Call { callee: Box::new(e), args: list },
                        )
                    } else {
                        parsed(close.pos, SpecExpr::Call { callee: Box::new(e), args: list })
                    },
                }
            },
        }
    } else if kind == TokenKind::Dot {
        if kind_at(toks, pos + 1) == TokenKind::Identifier {
            postfix(
                toks,
                pos + 2,
                SpecExpr::Member { object: Box::new(e), field: lexeme_at(toks, pos + 1) },
            )
        } else {
            refused(pos + 1, error_at(toks, pos + 1, "expected field name after '.'"@))
        }
    } else if kind == TokenKind::LBracket {
        let r = parse_expression(toks, pos + 1);
        match r.result {
            Err(_) => r,
            Ok(index) => {
                let close = expect(toks, r.pos, TokenKind::RBracket, "expected ']' after index"@);
                match close.result {
                    Err(err) => refused(close.pos, err),
                    Ok(_) => if ahead(toks, pos, close.pos) {
                        postfix(
                            toks,
                            close.pos,
                            SpecExpr::Index { object: Box::new(e), index: Box::new(index) },
                        )
                    } else {
                        parsed(
                            close.pos,
                            SpecExpr::Index { object: Box::new(e), index: Box::new(index) },
                        )
                    },
                }
            },
        }
    } else {
        parsed(pos, e)
    }
}

/// Whether a statement can start with a token of this kind by a keyword.
pub open spec fn starts_statement(kind: TokenKind) -> bool {
    kind == TokenKind::KwVar || kind == TokenKind::KwFunc || kind == TokenKind::KwObject || kind
        == TokenKind::KwIf || kind == TokenKind::KwWhile || kind == TokenKind::KwFor || kind
        == TokenKind::KwReturn || kind == TokenKind::KwBreak || kind == TokenKind::KwContinue
}

/// The position at which parsing goes on when tokens are dropped from `pos`
/// on: behind the next `;`, or at the next keyword that starts a statement,
/// or at the end.
pub open spec fn skip_to_statement(toks: Seq<SpecToken>, pos: int) -> int
    decreases toks.len() - pos,
{
    let kind = kind_at(toks, pos);
    if kind == TokenKind::Eof {
        pos
    } else if kind == TokenKind::Semicolon {
        pos + 1
    } else if starts_statement(kind) {
        pos
    } else {
        skip_to_statement(toks, pos + 1)
    }
}

/// Where parsing goes on after an error at `pos`: the token at `pos` is
/// dropped, and then tokens up to a place where a statement can start.
pub open spec fn synchronize(toks: Seq<SpecToken>, pos: int) -> int {
    if kind_at(toks, pos) == TokenKind::Eof {
        pos
    } else {
        skip_to_statement(toks, pos + 1)
    }
}

/// Dropping tokens stops within the tokens, and does not go back.
pub proof fn lemma_skip_to_statement(toks: Seq<SpecToken>, pos: int)
    requires
        0 <= pos < toks.len(),
    ensures
        pos <= skip_to_statement(toks, pos) < toks.len(),
    decreases toks.len() - pos,
{
    let kind = kind_at(toks, pos);
    if kind != TokenKind::Eof && kind != TokenKind::Semicolon && !starts_statement(kind) {
        lemma_skip_to_statement(toks, pos + 1);
    }
}

/// What ends a run of statements.
#[derive(Debug, Clone, Copy, PartialEq, Eq, Structural)]
pub enum BlockEnd {
    /// The end of the input.
    Input,
    /// A closing brace.
    Brace,
    /// `end`, `elif` or `else`.
    Keyword,
}

/// Whether a token of this kind ends a run of statements. The end of the
/// input ends every run.
pub open spec fn closes(end: BlockEnd, kind: TokenKind) -> bool {
    kind == TokenKind::Eof || match end {
        BlockEnd::Input => false,
        BlockEnd::Brace => kind == TokenKind::RBrace,
        BlockEnd::Keyword => kind == TokenKind::KwEnd || kind == TokenKind::KwElif || kind
            == TokenKind::KwElse,
    }
}

/// The names of a parameter list from `pos` on, put behind `acc`.
pub open spec fn param_list(toks: Seq<SpecToken>, pos: int, acc: Seq<Seq<char>>) -> Parsed<
    Seq<Seq<char>>,
>
    decreases toks.len() - pos,
{
    if kind_at(toks, pos) != TokenKind::Identifier {
        refused(pos, error_at(toks, pos, "expected parameter name"@))
    } else if kind_at(toks, pos + 1) == TokenKind::Comma {
        param_list(toks, pos + 2, acc.push(lexeme_at(toks, pos)))
    } else {
        parsed(pos + 1, acc.push(lexeme_at(toks, pos)))
    }
}

/// The parameters between `(` and `)`: names with commas between them.
pub open spec fn parse_params(toks: Seq<SpecToken>, pos: int) -> Parsed<Seq<Seq<char>>> {
    if kind_at(toks, pos) == TokenKind::RParen {
        parsed(pos, Seq::empty())
    } else {
        param_list(toks, pos, Seq::empty())
    }
}

/// `var NAME [: TYPE] = expression [;]`, the token at `pos` being `var`. The
/// type is passed over.
pub open spec fn parse_var_decl(toks: Seq<SpecToken>, pos: int) -> Parsed<SpecStmt> {
    if kind_at(toks, pos + 1) != TokenKind::Identifier {
        refused(pos + 1, error_at(toks, pos + 1, "expected identifier after 'var'"@))
    } else {
        let typed = if kind_at(toks, pos + 2) == TokenKind::Colon {
            if kind_at(toks, pos + 3) == TokenKind::Identifier {
                pos + 4
            } else {
                pos + 3
            }
        } else {
            pos + 2
        };
        let eq = expect(toks, typed, TokenKind::Equal, "expected '=' in var declaration"@);
        match eq.result {
            Err(err) => refused(eq.pos, err),
            Ok(_) => {
                let r = parse_expression(toks, eq.pos);
                match r.result {
                    Err(err) => refused(r.pos, err),
                    Ok(init) => parsed(
                        skip_semicolon(toks, r.pos),
                        SpecStmt::VarDecl { name: lexeme_at(toks, pos + 1), init },
                    ),
                }
            },
        }
    }
}

/// `return [expression] [;]`, the token at `pos` being `return`. Only a `;`
/// right behind `return` stands for no expression.
pub open spec fn parse_return(toks: Seq<SpecToken>, pos: int) -> Parsed<SpecStmt> {
    if kind_at(toks, pos + 1) == TokenKind::Semicolon {
        parsed(pos + 2, SpecStmt::Return(None))
    } else {
        let r = parse_expression(toks, pos + 1);
        match r.result {
            Err(err) => refused(r.pos, err),
            Ok(e) => parsed(skip_semicolon(toks, r.pos), SpecStmt::Return(Some(e))),
        }
    }
}

/// `expression [;]` as a statement.
pub open spec fn parse_expression_statement(toks: Seq<SpecToken>, pos: int) -> Parsed<SpecStmt> {
    let r = parse_expression(toks, pos);
    match r.result {
        Err(err) => refused(r.pos, err),
        Ok(e) => parsed(skip_semicolon(toks, r.pos), SpecStmt::Expr(e)),
    }
}

/// A parse that sets no error aside.
pub open spec fn plain<T>(r: Parsed<T>, errors: Seq<SpecParseError>) -> Recovered<T> {
    Recovered { pos: r.pos, errors, result: r.result }
}

/// The statements from `pos` on up to what ends the run, put behind
/// `stmts`. The error of a statement is set aside, and the run goes on where
/// `synchronize` says.
pub open spec fn statements(
    toks: Seq<SpecToken>,
    pos: int,
    end: BlockEnd,
    stmts: Seq<SpecStmt>,
    errors: Seq<SpecParseError>,
) -> Recovered<Seq<SpecStmt>>
    decreases toks.len() - pos, 30nat,
{
    if closes(end, kind_at(toks, pos)) {
        recovered(pos, errors, stmts)
    } else {
        let r = parse_statement(toks, pos, errors);
        match r.result {
            Ok(s) => if ahead(toks, pos, r.pos) {
                statements(toks, r.pos, end, stmts.push(s), r.errors)
            } else {
                recovered(r.pos, r.errors, stmts.push(s))
            },
            Err(e) => {
                let next = synchronize(toks, r.pos);
                if ahead(toks, pos, next) {
                    statements(toks, next, end, stmts, r.errors.push(e))
                } else {
                    recovered(next, r.errors.push(e), stmts)
                }
            },
        }
    }
}

/// `{ statement* }`, the token at `pos` being `{`.
pub open spec fn braced_block(toks: Seq<SpecToken>, pos: int, errors: Seq<SpecParseError>)
    -> Recovered<Seq<SpecStmt>>
    decreases toks.len() - pos, 20nat,
{
    if kind_at(toks, pos) != TokenKind::LBrace {
        given_up(
            pos,
            errors,
            error_at(toks, pos, expected(TokenKind::LBrace, "expected '{' to start block"@)),
        )
    } else {
        let r = statements(toks, pos + 1, BlockEnd::Brace, Seq::empty(), errors);
        match r.result {
            Err(e) => r,
            Ok(stmts) => {
                let close = expect(toks, r.pos, TokenKind::RBrace, "expected '}' to close block"@);
                match close.result {
                    Ok(_) => recovered(close.pos, r.errors, stmts),
                    Err(e) => given_up(close.pos, r.errors, e),
                }
            },
        }
    }
}

/// A block: statements in braces, or statements up to `end`, `elif` or
/// `else`, which is left in place.
pub open spec fn parse_block(toks: Seq<SpecToken>, pos: int, errors: Seq<SpecParseError>)
    -> Recovered<Seq<SpecStmt>>
    decreases toks.len() - pos, 32nat,
{
    if kind_at(toks, pos) == TokenKind::LBrace {
        braced_block(toks, pos, errors)
    } else {
        statements(toks, pos, BlockEnd::Keyword, Seq::empty(), errors)
    }
}

/// A block of the given statements.
pub open spec fn block_stmt(stmts: Seq<SpecStmt>) -> SpecStmt {
    SpecStmt::Block(stmts)
}

/// A condition and its block: `expression KEYWORD block`, as they follow
/// `if`, `elif` and `while`.
pub open spec fn guarded_block(
    toks: Seq<SpecToken>,
    pos: int,
    keyword: TokenKind,
    detail: Seq<char>,
    errors: Seq<SpecParseError>,
) -> Recovered<(SpecExpr, SpecStmt)>
    decreases toks.len() - pos, 33nat,
{
    let c = parse_expression(toks, pos);
    match c.result {
        Err(e) => given_up(c.pos, errors, e),
        Ok(condition) => {
            let k = expect(toks, c.pos, keyword, detail);
            match k.result {
                Err(e) => given_up(k.pos, errors, e),
                Ok(_) => if ahead(toks, pos, k.pos) {
                    let b = parse_block(toks, k.pos, errors);
                    match b.result {
                        Err(e) => given_up(b.pos, b.errors, e),
                        Ok(stmts) => recovered(b.pos, b.errors, (condition, block_stmt(stmts))),
                    }
                } else {
                    given_up(k.pos, errors, error_at(toks, k.pos, Seq::empty()))
                },
            }
        },
    }
}

/// The `elif` branches from `pos` on, put behind `acc`.
pub open spec fn elif_branches(
    toks: Seq<SpecToken>,
    pos: int,
    acc: Seq<(SpecExpr, SpecStmt)>,
    errors: Seq<SpecParseError>,
) -> Recovered<Seq<(SpecExpr, SpecStmt)>>
    decreases toks.len() - pos, 34nat,
{
    if kind_at(toks, pos) != TokenKind::KwElif {
        recovered(pos, errors, acc)
    } else {
        let g = guarded_block(
            toks,
            pos + 1,
            TokenKind::KwThen,
            "expected 'then' after elif condition"@,
            errors,
        );
        match g.result {
            Err(e) => given_up(g.pos, g.errors, e),
            Ok(branch) => if ahead(toks, pos, g.pos) {
                elif_branches(toks, g.pos, acc.push(branch), g.errors)
            } else {
                recovered(g.pos, g.errors, acc.push(branch))
            },
        }
    }
}

/// The optional `else` branch at `pos`.
pub open spec fn else_branch(toks: Seq<SpecToken>, pos: int, errors: Seq<SpecParseError>)
    -> Recovered<Option<Box<SpecStmt>>>
    decreases toks.len() - pos, 33nat,
{
    if kind_at(toks, pos) == TokenKind::KwElse {
        let b = parse_block(toks, pos + 1, errors);
        match b.result {
            Err(e) => given_up(b.pos, b.errors, e),
            Ok(stmts) => recovered(b.pos, b.errors, Some(Box::new(block_stmt(stmts)))),
        }
    } else {
        recovered(pos, errors, None)
    }
}

/// What follows the first branch of an `if`: the `elif` branches, the
/// `else` branch and `end`.
pub open spec fn if_tail(toks: Seq<SpecToken>, pos: int, errors: Seq<SpecParseError>)
    -> Recovered<(Seq<(SpecExpr, SpecStmt)>, Option<Box<SpecStmt>>)>
    decreases toks.len() - pos, 35nat,
{
    let elifs = elif_branches(toks, pos, Seq::empty(), errors);
    match elifs.result {
        Err(e) => given_up(elifs.pos, elifs.errors, e),
        Ok(branches) => if elifs.pos < pos || elifs.pos >= toks.len() {
            given_up(elifs.pos, elifs.errors, error_at(toks, elifs.pos, Seq::empty()))
        } else {
            let other = else_branch(toks, elifs.pos, elifs.errors);
            match other.result {
                Err(e) => given_up(other.pos, other.errors, e),
                Ok(last) => {
                    let close = expect(
                        toks,
                        other.pos,
                        TokenKind::KwEnd,
                        "expected 'end' after if statement"@,
                    );
                    match close.result {
                        Err(e) => given_up(close.pos, other.errors, e),
                        Ok(_) => recovered(close.pos, other.errors, (branches, last)),
                    }
                },
            }
        },
    }
}

/// `if condition then block (elif condition then block)* [else block] end`,
/// the token at `pos` being `if`.
pub open spec fn parse_if(toks: Seq<SpecToken>, pos: int, errors: Seq<SpecParseError>)
    -> Recovered<SpecStmt>
    decreases toks.len() - pos, 25nat,
{
    let first = if kind_at(toks, pos) == TokenKind::KwIf {
        guarded_block(
            toks,
            pos + 1,
            TokenKind::KwThen,
            "expected 'then' after if condition"@,
            errors,
        )
    } else {
        given_up(pos, errors, error_at(toks, pos, expected(TokenKind::KwIf, "expected 'if'"@)))
    };
    match first.result {
        Err(e) => given_up(first.pos, first.errors, e),
        Ok((condition, then_branch)) => if !ahead(toks, pos, first.pos) {
            given_up(first.pos, first.errors, error_at(toks, first.pos, Seq::empty()))
        } else {
            let tail = if_tail(toks, first.pos, first.errors);
            match tail.result {
                Err(e) => given_up(tail.pos, tail.errors, e),
                Ok((branches, last)) => recovered(
                    tail.pos,
                    tail.errors,
                    SpecStmt::If {
                        condition,
                        then_branch: Box::new(then_branch),
                        elif_branches: branches,
                        else_branch: last,
                    },
                ),
            }
        },
    }
}

/// `while condition do block end`, the token at `pos` being `while`.
pub open spec fn parse_while(toks: Seq<SpecToken>, pos: int, errors: Seq<SpecParseError>)
    -> Recovered<SpecStmt>
    decreases toks.len() - pos, 25nat,
{
    let g = if kind_at(toks, pos) == TokenKind::KwWhile {
        guarded_block(
            toks,
            pos + 1,
            TokenKind::KwDo,
            "expected 'do' after while condition"@,
            errors,
        )
    } else {
        given_up(
            pos,
            errors,
            error_at(toks, pos, expected(TokenKind::KwWhile, "expected 'while'"@)),
        )
    };
    match g.result {
        Err(e) => given_up(g.pos, g.errors, e),
        Ok((condition, body)) => {
            let close = expect(
                toks,
                g.pos,
                TokenKind::KwEnd,
                "expected 'end' after while statement"@,
            );
            match close.result {
                Err(e) => given_up(close.pos, g.errors, e),
                Ok(_) => recovered(
                    close.pos,
                    g.errors,
                    SpecStmt::While { condition, body: Box::new(body) },
                ),
            }
        },
    }
}

/// The head of a `for` loop behind its variable: `= start , end [, step]`.
pub open spec fn for_range(toks: Seq<SpecToken>, pos: int) -> Parsed<
    (SpecExpr, SpecExpr, Option<SpecExpr>),
> {
    let eq = expect(toks, pos, TokenKind::Equal, "expected '=' after loop variable"@);
    match eq.result {
        Err(e) => refused(eq.pos, e),
        Ok(_) => {
            let first = parse_expression(toks, eq.pos);
            match first.result {
                Err(e) => refused(first.pos, e),
                Ok(start) => {
                    let comma = expect(
                        toks,
                        first.pos,
                        TokenKind::Comma,
                        "expected ',' after start value"@,
                    );
                    match comma.result {
                        Err(e) => refused(comma.pos, e),
                        Ok(_) => {
                            let last = parse_expression(toks, comma.pos);
                            match last.result {
                                Err(e) => refused(last.pos, e),
                                Ok(end) => if kind_at(toks, last.pos) == TokenKind::Comma {
                                    let by = parse_expression(toks, last.pos + 1);
                                    match by.result {
                                        Err(e) => refused(by.pos, e),
                                        Ok(step) => parsed(by.pos, (start, end, Some(step))),
                                    }
                                } else {
                                    parsed(last.pos, (start, end, None))
                                },
                            }
                        },
                    }
                },
            }
        },
    }
}

/// The head of a `for` loop behind `for`: `NAME = start , end [, step] do`.
pub open spec fn for_head(toks: Seq<SpecToken>, pos: int) -> Parsed<
    (Seq<char>, (SpecExpr, SpecExpr, Option<SpecExpr>)),
> {
    if kind_at(toks, pos) != TokenKind::Identifier {
        refused(pos, error_at(toks, pos, "expected loop variable after 'for'"@))
    } else {
        let range = for_range(toks, pos + 1);
        match range.result {
            Err(e) => refused(range.pos, e),
            Ok(bounds) => {
                let k = expect(toks, range.pos, TokenKind::KwDo, "expected 'do' after for bounds"@);
                match k.result {
                    Err(e) => refused(k.pos, e),
                    Ok(_) => parsed(k.pos, (lexeme_at(toks, pos), bounds)),
                }
            },
        }
    }
}

/// `for NAME = start, end [, step] do block end`, the token at `pos` being
/// `for`.
pub open spec fn parse_for(toks: Seq<SpecToken>, pos: int, errors: Seq<SpecParseError>)
    -> Recovered<SpecStmt>
    decreases toks.len() - pos, 25nat,
{
    let head = for_head(toks, pos + 1);
    match head.result {
        Err(e) => given_up(head.pos, errors, e),
        Ok((var_name, (start, end, step))) => if !ahead(toks, pos, head.pos) {
            given_up(head.pos, errors, error_at(toks, head.pos, Seq::empty()))
        } else {
            let body = body_and_end(toks, head.pos, "expected 'end' after for statement"@, errors);
            match body.result {
                Err(e) => given_up(body.pos, body.errors, e),
                Ok(block) => recovered(
                    body.pos,
                    body.errors,
                    SpecStmt::For { var_name, start, end, step, body: Box::new(block) },
                ),
            }
        },
    }
}

/// What a function and an event share: a name, the parameters in
/// parentheses, and the `:` before the body. Gives the name and the
/// parameters.
pub open spec fn signature(
    toks: Seq<SpecToken>,
    pos: int,
    name_detail: Seq<char>,
    open_detail: Seq<char>,
    body_detail: Seq<char>,
) -> Parsed<(Seq<char>, Seq<Seq<char>>)> {
    if kind_at(toks, pos) != TokenKind::Identifier {
        refused(pos, error_at(toks, pos, name_detail))
    } else {
        let open = expect(toks, pos + 1, TokenKind::LParen, open_detail);
        match open.result {
            Err(e) => refused(open.pos, e),
            Ok(_) => {
                let params = parse_params(toks, open.pos);
                match params.result {
                    Err(e) => refused(params.pos, e),
                    Ok(names) => {
                        let close = expect(
                            toks,
                            params.pos,
                            TokenKind::RParen,
                            "expected ')' after parameter list"@,
                        );
                        match close.result {
                            Err(e) => refused(close.pos, e),
                            Ok(_) => {
                                let colon = expect(toks, close.pos, TokenKind::Colon, body_detail);
                                match colon.result {
                                    Err(e) => refused(colon.pos, e),
                                    Ok(_) => parsed(colon.pos, (lexeme_at(toks, pos), names)),
                                }
                            },
                        }
                    },
                }
            },
        }
    }
}

/// A body and the `end` behind it.
pub open spec fn body_and_end(
    toks: Seq<SpecToken>,
    pos: int,
    end_detail: Seq<char>,
    errors: Seq<SpecParseError>,
) -> Recovered<SpecStmt>
    decreases toks.len() - pos, 33nat,
{
    let b = parse_block(toks, pos, errors);
    match b.result {
        Err(e) => given_up(b.pos, b.errors, e),
        Ok(stmts) => {
            let close = expect(toks, b.pos, TokenKind::KwEnd, end_detail);
            match close.result {
                Err(e) => given_up(close.pos, b.errors, e),
                Ok(_) => recovered(close.pos, b.errors, block_stmt(stmts)),
            }
        },
    }
}

/// The position behind an optional result type, `NAME :`.
pub open spec fn skip_result_type(toks: Seq<SpecToken>, pos: int) -> int {
    if kind_at(toks, pos) == TokenKind::Identifier && kind_at(toks, pos + 1) == TokenKind::Colon {
        pos + 2
    } else {
        pos
    }
}

/// `func NAME(params) : [TYPE :] block end`, the token at `pos` being
/// `func`. The type is passed over.
pub open spec fn parse_func_decl(toks: Seq<SpecToken>, pos: int, errors: Seq<SpecParseError>)
    -> Recovered<SpecFuncDecl>
    decreases toks.len() - pos, 25nat,
{
    let sig = signature(
        toks,
        pos + 1,
        "expected function name after 'func'"@,
        "expected '(' after function name"@,
        "expected ':' before function body"@,
    );
    match sig.result {
        Err(e) => given_up(sig.pos, errors, e),
        Ok((name, params)) => {
            let typed = skip_result_type(toks, sig.pos);
            if !ahead(toks, pos, typed) {
                given_up(typed, errors, error_at(toks, typed, Seq::empty()))
            } else {
                let body = body_and_end(
                    toks,
                    typed,
                    "expected 'end' after function body"@,
                    errors,
                );
                match body.result {
                    Err(e) => given_up(body.pos, body.errors, e),
                    Ok(block) => recovered(
                        body.pos,
                        body.errors,
                        SpecFuncDecl { name, params, body: Box::new(block) },
                    ),
                }
            }
        },
    }
}

/// `on NAME(params) : block end`, the token at `pos` being `on`.
pub open spec fn parse_event_decl(toks: Seq<SpecToken>, pos: int, errors: Seq<SpecParseError>)
    -> Recovered<SpecEventDecl>
    decreases toks.len() - pos, 25nat,
{
    let sig = signature(
        toks,
        pos + 1,
        "expected event name after 'on'"@,
        "expected '(' after event name"@,
        "expected ':' before event body"@,
    );
    match sig.result {
        Err(e) => given_up(sig.pos, errors, e),
        Ok((name, params)) => if !ahead(toks, pos, sig.pos) {
            given_up(sig.pos, errors, error_at(toks, sig.pos, Seq::empty()))
        } else {
            let body = body_and_end(toks, sig.pos, "expected 'end' after event body"@, errors);
            match body.result {
                Err(e) => given_up(body.pos, body.errors, e),
                Ok(block) => recovered(
                    body.pos,
                    body.errors,
                    SpecEventDecl { name, params, body: Box::new(block) },
                ),
            }
        },
    }
}

/// One member of an object: a `var`, a `func` or an `on`.
pub open spec fn object_member(toks: Seq<SpecToken>, pos: int, errors: Seq<SpecParseError>)
    -> Recovered<SpecObjectMember>
    decreases toks.len() - pos, 26nat,
{
    let kind = kind_at(toks, pos);
    if kind == TokenKind::KwVar {
        let v = parse_var_decl(toks, pos);
        match v.result {
            Ok(s) => recovered(v.pos, errors, SpecObjectMember::Var(s)),
            Err(e) => given_up(v.pos, errors, e),
        }
    } else if kind == TokenKind::KwFunc {
        let f = parse_func_decl(toks, pos, errors);
        match f.result {
            Ok(decl) => recovered(f.pos, f.errors, SpecObjectMember::Method(decl)),
            Err(e) => given_up(f.pos, f.errors, e),
        }
    } else if kind == TokenKind::KwOn {
        let ev = parse_event_decl(toks, pos, errors);
        match ev.result {
            Ok(decl) => recovered(ev.pos, ev.errors, SpecObjectMember::Event(decl)),
            Err(e) => given_up(ev.pos, ev.errors, e),
        }
    } else {
        given_up(
            pos,
            errors,
            error_at(toks, pos, "expected 'var', 'func', or 'on' in object body"@),
        )
    }
}

/// The members of an object from `pos` on, put behind `acc`, up to the
/// closing brace. The first error ends the object.
pub open spec fn object_members(
    toks: Seq<SpecToken>,
    pos: int,
    acc: Seq<SpecObjectMember>,
    errors: Seq<SpecParseError>,
) -> Recovered<Seq<SpecObjectMember>>
    decreases toks.len() - pos, 27nat,
{
    let kind = kind_at(toks, pos);
    if kind == TokenKind::RBrace || kind == TokenKind::Eof {
        recovered(pos, errors, acc)
    } else {
        let member = object_member(toks, pos, errors);
        match member.result {
            Err(e) => given_up(member.pos, member.errors, e),
            Ok(m) => if ahead(toks, pos, member.pos) {
                object_members(toks, member.pos, acc.push(m), member.errors)
            } else {
                recovered(member.pos, member.errors, acc.push(m))
            },
        }
    }
}

/// The head of an object: `NAME : {`. Gives the name.
pub open spec fn object_head(toks: Seq<SpecToken>, pos: int) -> Parsed<Seq<char>> {
    if kind_at(toks, pos) != TokenKind::Identifier {
        refused(pos, error_at(toks, pos, "expected object name after 'object'"@))
    } else {
        let colon = expect(toks, pos + 1, TokenKind::Colon, "expected ':' after object name"@);
        match colon.result {
            Err(e) => refused(colon.pos, e),
            Ok(_) => {
                let open = expect(
                    toks,
                    colon.pos,
                    TokenKind::LBrace,
                    "expected '{' to start object body"@,
                );
                match open.result {
                    Err(e) => refused(open.pos, e),
                    Ok(_) => parsed(open.pos, lexeme_at(toks, pos)),
                }
            },
        }
    }
}

/// The end of an object: `} end`.
pub open spec fn object_end(toks: Seq<SpecToken>, pos: int) -> Parsed<()> {
    let close = expect(toks, pos, TokenKind::RBrace, "expected '}' to close object body"@);
    match close.result {
        Err(e) => refused(close.pos, e),
        Ok(_) => expect(toks, close.pos, TokenKind::KwEnd, "expected 'end' after object"@),
    }
}

/// `object NAME : { members } end`, the token at `pos` being `object`.
pub open spec fn parse_object_decl(toks: Seq<SpecToken>, pos: int, errors: Seq<SpecParseError>)
    -> Recovered<SpecObjectDecl>
    decreases toks.len() - pos, 25nat,
{
    let head = object_head(toks, pos + 1);
    match head.result {
        Err(e) => given_up(head.pos, errors, e),
        Ok(name) => if !ahead(toks, pos, head.pos) {
            given_up(head.pos, errors, error_at(toks, head.pos, Seq::empty()))
        } else {
            let members = object_members(toks, head.pos, Seq::empty(), errors);
            match members.result {
                Err(e) => given_up(members.pos, members.errors, e),
                Ok(list) => {
                    let end = object_end(toks, members.pos);
                    match end.result {
                        Err(e) => given_up(end.pos, members.errors, e),
                        Ok(_) => recovered(
                            end.pos,
                            members.errors,
                            SpecObjectDecl { name, members: list },
                        ),
                    }
                },
            }
        },
    }
}

/// A function declaration as a statement.
pub open spec fn func_statement(toks: Seq<SpecToken>, pos: int, errors: Seq<SpecParseError>)
    -> Recovered<SpecStmt>
    decreases toks.len() - pos, 26nat,
{
    let f = parse_func_decl(toks, pos, errors);
    match f.result {
        Ok(decl) => recovered(f.pos, f.errors, SpecStmt::FuncDecl(decl)),
        Err(e) => given_up(f.pos, f.errors, e),
    }
}

/// An object declaration as a statement.
pub open spec fn object_statement(toks: Seq<SpecToken>, pos: int, errors: Seq<SpecParseError>)
    -> Recovered<SpecStmt>
    decreases toks.len() - pos, 26nat,
{
    let obj = parse_object_decl(toks, pos, errors);
    match obj.result {
        Ok(decl) => recovered(obj.pos, obj.errors, SpecStmt::ObjectDecl(decl)),
        Err(e) => given_up(obj.pos, obj.errors, e),
    }
}

/// A block in braces as a statement.
pub open spec fn block_statement(toks: Seq<SpecToken>, pos: int, errors: Seq<SpecParseError>)
    -> Recovered<SpecStmt>
    decreases toks.len() - pos, 26nat,
{
    let b = braced_block(toks, pos, errors);
    match b.result {
        Ok(stmts) => recovered(b.pos, b.errors, block_stmt(stmts)),
        Err(e) => given_up(b.pos, b.errors, e),
    }
}

/// A statement that begins with a keyword other than `var` and `return`,
/// or with `{`.
pub open spec fn compound_statement(toks: Seq<SpecToken>, pos: int, errors: Seq<SpecParseError>)
    -> Recovered<SpecStmt>
    decreases toks.len() - pos, 28nat,
{
    let kind = kind_at(toks, pos);
    if kind == TokenKind::KwIf {
        parse_if(toks, pos, errors)
    } else if kind == TokenKind::KwWhile {
        parse_while(toks, pos, errors)
    } else if kind == TokenKind::KwFor {
        parse_for(toks, pos, errors)
    } else if kind == TokenKind::KwFunc {
        func_statement(toks, pos, errors)
    } else if kind == TokenKind::KwObject {
        object_statement(toks, pos, errors)
    } else {
        block_statement(toks, pos, errors)
    }
}

/// Whether a statement that begins with a token of this kind can hold
/// blocks.
pub open spec fn is_compound(kind: TokenKind) -> bool {
    kind == TokenKind::KwIf || kind == TokenKind::KwWhile || kind == TokenKind::KwFor || kind
        == TokenKind::KwFunc || kind == TokenKind::KwObject || kind == TokenKind::LBrace
}

/// A statement that holds no block.
pub open spec fn simple_statement(toks: Seq<SpecToken>, pos: int) -> Parsed<SpecStmt> {
    let kind = kind_at(toks, pos);
    if kind == TokenKind::KwVar {
        parse_var_decl(toks, pos)
    } else if kind == TokenKind::KwReturn {
        parse_return(toks, pos)
    } else if kind == TokenKind::KwBreak {
        parsed(skip_semicolon(toks, pos + 1), SpecStmt::Break)
    } else if kind == TokenKind::KwContinue {
        parsed(skip_semicolon(toks, pos + 1), SpecStmt::Continue)
    } else {
        parse_expression_statement(toks, pos)
    }
}

/// One statement.
pub open spec fn parse_statement(toks: Seq<SpecToken>, pos: int, errors: Seq<SpecParseError>)
    -> Recovered<SpecStmt>
    decreases toks.len() - pos, 29nat,
{
    if is_compound(kind_at(toks, pos)) {
        compound_statement(toks, pos, errors)
    } else {
        plain(simple_statement(toks, pos), errors)
    }
}

/// A whole program: its statements up to the end of the input. Where any
/// error was found there is no program, but all the errors in the order in
/// which they were found, behind the errors `before`.
pub open spec fn parse_program(toks: Seq<SpecToken>, pos: int, before: Seq<SpecParseError>)
    -> Result<SpecProgram, Seq<SpecParseError>> {
    let r = statements(toks, pos, BlockEnd::Input, Seq::empty(), before);
    match r.result {
        Ok(body) => if r.errors.len() == 0 {
            Ok(SpecProgram { body })
        } else {
            Err(r.errors)
        },
        Err(e) => Err(r.errors.push(e)),
    }
}

} // verus!
