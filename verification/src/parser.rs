//! The recursive-descent parser.
//!
//! Every function here is proved to give what `grammar` says of the tokens:
//! the same tree or error, the same position afterwards, and the same errors
//! set aside.

use crate::ast::{
    elifs_view, exprs_view, fields_view, lemma_block_view, lemma_func_stmt_view,
    lemma_object_stmt_view, members_view, params_view, stmts_view, BinaryOp, EventDecl, Expr,
    FuncDecl, Literal, ObjectDecl, ObjectMember, Param, Program, SpecEventDecl, SpecExpr,
    SpecFuncDecl, SpecObjectDecl, SpecObjectMember, SpecProgram, SpecStmt, SpecTableField, Stmt,
    TableField, UnaryOp,
};
use crate::grammar::{
    binary_level, binary_rest, block_statement, body_and_end, braced_block, call_args, closes,
    compound_statement, elif_branches, else_branch, error_at, expect, expected, for_head, for_range,
    func_statement, guarded_block, if_tail, is_compound, kind_at, lemma_skip_to_statement,
    lexeme_at, object_end, object_head, object_member, object_members, object_statement,
    operator_at, param_list, parse_block, parse_event_decl, parse_expression,
    parse_expression_statement, parse_for, parse_func_decl, parse_if, parse_object_decl,
    parse_params, parse_primary, parse_program, parse_return, parse_statement, parse_unary,
    parse_var_decl, parse_while, parsed, postfix, primary_head, signature, simple_statement,
    skip_result_type, skip_semicolon, skip_to_statement, statements, synchronize, table_fields,
    table_literal, well_ended, BlockEnd, Parsed, Recovered, SpecParseError,
};
use crate::lexer::{name_of_kind, tokens_from, tokens_view, Lexer, SpecToken, Token, TokenKind};
use crate::text::parse_int;
use vstd::prelude::*;
use vstd::string::{StringExecFns, StringSliceAdditionalSpecFns};

verus! {

/// A syntax error, with the place of the token at which it was found.
#[derive(Debug, Clone, PartialEq)]
pub struct ParseError {
    pub line: usize,
    pub column: usize,
    pub message: String,
}

impl ParseError {
    /// This error as a mathematical value.
    pub open spec fn view(&self) -> SpecParseError {
        SpecParseError {
            line: self.line as nat,
            column: self.column as nat,
            message: self.message@,
        }
    }

    /// The error with the given place and message.
    pub fn new(line: usize, column: usize, message: String) -> (e: Self)
        ensures
            e.line == line,
            e.column == column,
            e.message == message,
    {
        Self { line, column, message }
    }
}

/// The views of a list of errors.
pub open spec fn errors_view(errors: Seq<ParseError>) -> Seq<SpecParseError> {
    Seq::new(errors.len(), |i: int| errors[i]@)
}

/// The view of a result that holds an expression.
pub open spec fn expr_view(r: Result<Expr, ParseError>) -> Result<SpecExpr, SpecParseError> {
    match r {
        Ok(e) => Ok(e@),
        Err(e) => Err(e@),
    }
}

/// The view of a result that holds a list of expressions.
pub open spec fn exprs_result_view(r: Result<Vec<Expr>, ParseError>) -> Result<
    Seq<SpecExpr>,
    SpecParseError,
> {
    match r {
        Ok(list) => Ok(exprs_view(list@)),
        Err(e) => Err(e@),
    }
}

/// The view of a result that holds the fields of a table literal.
pub open spec fn fields_result_view(r: Result<Vec<TableField>, ParseError>) -> Result<
    Seq<SpecTableField>,
    SpecParseError,
> {
    match r {
        Ok(list) => Ok(fields_view(list@)),
        Err(e) => Err(e@),
    }
}

/// The view of a result that holds nothing.
pub open spec fn unit_result_view(r: Result<(), ParseError>) -> Result<(), SpecParseError> {
    match r {
        Ok(_) => Ok(()),
        Err(e) => Err(e@),
    }
}

/// A parser: the tokens, the position of the token that is looked at, and
/// the errors set aside so far.
pub struct Parser {
    tokens: Vec<Token>,
    pos: usize,
    errors: Vec<ParseError>,
}

impl Parser {
    /// The tokens being parsed.
    pub closed spec fn toks(&self) -> Seq<SpecToken> {
        tokens_view(self.tokens@)
    }

    /// The position of the token that is looked at.
    pub closed spec fn position(&self) -> int {
        self.pos as int
    }

    /// The errors set aside so far.
    pub closed spec fn recorded(&self) -> Seq<SpecParseError> {
        errors_view(self.errors@)
    }

    /// The tokens end with their only `Eof`, and the position lies within
    /// them.
    pub closed spec fn wf(&self) -> bool {
        &&& well_ended(self.toks())
        &&& self.pos < self.tokens.len()
    }

    /// How many tokens lie at and behind the position.
    pub open spec fn remaining(&self) -> int {
        self.toks().len() - self.position()
    }

    /// `self` came out of `before` by taking tokens in: the tokens are the
    /// same, and the position has not gone back.
    pub open spec fn moved(&self, before: &Self) -> bool {
        &&& self.wf()
        &&& self.toks() == before.toks()
        &&& before.position() <= self.position() < self.toks().len()
    }

    /// `self` came out of `before` by taking tokens in without setting an
    /// error aside.
    pub open spec fn stepped(&self, before: &Self) -> bool {
        &&& self.moved(before)
        &&& self.recorded() == before.recorded()
    }

    /// `self` came out of `before` as the grammar says: at the position and
    /// with the result of `g`, no error set aside.
    pub open spec fn parsed_as<T>(
        &self,
        before: &Self,
        g: Parsed<T>,
        result: Result<T, SpecParseError>,
    ) -> bool {
        &&& self.stepped(before)
        &&& g.pos == self.position()
        &&& g.result == result
    }

    /// `self` came out of `before` as the grammar says: at the position,
    /// with the result and with the errors set aside of `g`.
    pub open spec fn recovered_as<T>(
        &self,
        before: &Self,
        g: Recovered<T>,
        result: Result<T, SpecParseError>,
    ) -> bool {
        &&& self.moved(before)
        &&& g.pos == self.position()
        &&& g.errors == self.recorded()
        &&& g.result == result
    }

    /// A parser of the tokens that the lexer has still to give.
    pub fn new(lexer: Lexer<'_>) -> (parser: Self)
        requires
            lexer.wf(),
        ensures
            parser.wf(),
            parser.toks() == tokens_from(lexer.source(), lexer.position()),
            parser.position() == 0,
            parser.recorded() == Seq::<SpecParseError>::empty(),
    {
        let mut lexer = lexer;
        let tokens = lexer.remaining_tokens();
        let parser = Parser { tokens, pos: 0, errors: Vec::new() };
        assert(parser.recorded() =~= Seq::<SpecParseError>::empty());
        proof {
            let toks = parser.toks();
            assert forall|i: int| 0 <= i < toks.len() - 1 implies (#[trigger] toks[i]).kind
                != TokenKind::Eof by {
                assert(parser.tokens[i].kind != TokenKind::Eof);
            }
        }
        parser
    }

    /// A parser of the given tokens, where they end with their only `Eof`.
    pub fn from_tokens(tokens: Vec<Token>) -> (r: Option<Self>)
        ensures
            r is Some <==> well_ended(tokens_view(tokens@)),
            r is Some ==> r->0.wf() && r->0.toks() == tokens_view(tokens@) && r->0.position() == 0
                && r->0.recorded() == Seq::<SpecParseError>::empty(),
    {
        let n = tokens.len();
        if n == 0 {
            return None;
        }
        let mut i: usize = 0;
        while i < n - 1
            invariant
                0 < n == tokens.len(),
                i <= n - 1,
                forall|j: int| 0 <= j < i ==> (#[trigger] tokens_view(tokens@)[j]).kind
                    != TokenKind::Eof,
            decreases n - i,
        {
            if tokens[i].kind == TokenKind::Eof {
                assert(tokens_view(tokens@)[i as int].kind == TokenKind::Eof);
                return None;
            }
            i += 1;
        }
        if tokens[n - 1].kind != TokenKind::Eof {
            return None;
        }
        let parser = Parser { tokens, pos: 0, errors: Vec::new() };
        assert(parser.recorded() =~= Seq::<SpecParseError>::empty());
        Some(parser)
    }

    /// The errors set aside so far.
    pub fn errors(&self) -> (errors: &Vec<ParseError>)
        ensures
            errors_view(errors@) == self.recorded(),
    {
        &self.errors
    }

    fn kind(&self) -> (kind: TokenKind)
        requires
            self.wf(),
        ensures
            kind == kind_at(self.toks(), self.position()),
    {
        self.tokens[self.pos].kind
    }

    fn kind_after(&self, n: usize) -> (kind: TokenKind)
        requires
            self.wf(),
            n <= 4,
        ensures
            kind == kind_at(self.toks(), self.position() + n),
    {
        if n < self.tokens.len() - self.pos {
            self.tokens[self.pos + n].kind
        } else {
            TokenKind::Eof
        }
    }

    fn lexeme(&self) -> (text: String)
        requires
            self.wf(),
        ensures
            text@ == lexeme_at(self.toks(), self.position()),
    {
        self.tokens[self.pos].lexeme.clone()
    }

    /// The error with the given message at the token that is looked at.
    pub fn error(&self, msg: &str) -> (e: ParseError)
        requires
            self.wf(),
        ensures
            e@ == error_at(self.toks(), self.position(), msg@),
    {
        ParseError::new(
            self.tokens[self.pos].line,
            self.tokens[self.pos].column,
            msg.to_owned(),
        )
    }

    fn advance(&mut self)
        requires
            old(self).wf(),
        ensures
            final(self).stepped(old(self)),
            final(self).position() == (if kind_at(old(self).toks(), old(self).position())
                == TokenKind::Eof {
                old(self).position()
            } else {
                old(self).position() + 1
            }),
    {
        if self.pos + 1 < self.tokens.len() {
            self.pos += 1;
        }
    }

    fn consume(&mut self, kind: TokenKind, msg: &str) -> (r: Result<(), ParseError>)
        requires
            old(self).wf(),
            kind != TokenKind::Eof,
        ensures
            final(self).stepped(old(self)),
            expect(old(self).toks(), old(self).position(), kind, msg@) == (Parsed {
                pos: final(self).position(),
                result: unit_result_view(r),
            }),
    {
        if self.kind() == kind {
            self.advance();
            Ok(())
        } else {
            let mut message = "expected ".to_owned();
            message.append(name_of_kind(kind));
            message.append(": ");
            message.append(msg);
            Err(self.error(message.as_str()))
        }
    }

    fn skip_semicolon(&mut self)
        requires
            old(self).wf(),
        ensures
            final(self).stepped(old(self)),
            final(self).position() == skip_semicolon(old(self).toks(), old(self).position()),
    {
        if self.kind() == TokenKind::Semicolon {
            self.advance();
        }
    }

    /// Parses an expression.
    pub fn parse_expression(&mut self) -> (r: Result<Expr, ParseError>)
        requires
            old(self).wf(),
        ensures
            final(self).stepped(old(self)),
            parse_expression(old(self).toks(), old(self).position()) == (Parsed {
                pos: final(self).position(),
                result: expr_view(r),
            }),
            r is Ok ==> final(self).position() > old(self).position(),
        decreases old(self).remaining(), 11nat,
    {
        self.parse_binary(0)
    }

    fn operator(level: u8, kind: TokenKind) -> (op: Option<BinaryOp>)
        ensures
            op == operator_at(level as int, kind),
    {
        if level == 0 {
            match kind {
                TokenKind::KwOr => Some(BinaryOp::Or),
                _ => None,
            }
        } else if level == 1 {
            match kind {
                TokenKind::KwAnd => Some(BinaryOp::And),
                _ => None,
            }
        } else if level == 2 {
            match kind {
                TokenKind::EqualEqual => Some(BinaryOp::Equal),
                TokenKind::BangEqual => Some(BinaryOp::NotEqual),
                _ => None,
            }
        } else if level == 3 {
            match kind {
                TokenKind::Less => Some(BinaryOp::Less),
                TokenKind::LessEqual => Some(BinaryOp::LessEqual),
                TokenKind::Greater => Some(BinaryOp::Greater),
                TokenKind::GreaterEqual => Some(BinaryOp::GreaterEqual),
                _ => None,
            }
        } else if level == 4 {
            match kind {
                TokenKind::Plus => Some(BinaryOp::Add),
                TokenKind::Minus => Some(BinaryOp::Sub),
                _ => None,
            }
        } else if level == 5 {
            match kind {
                TokenKind::Star => Some(BinaryOp::Mul),
                TokenKind::Slash => Some(BinaryOp::Div),
                _ => None,
            }
        } else {
            None
        }
    }

    /// Parses the operators of one level of precedence, from 0 (`or`, the
    /// loosest) to 5 (`*` and `/`), with their operands.
    pub fn parse_binary(&mut self, level: u8) -> (r: Result<Expr, ParseError>)
        requires
            old(self).wf(),
        ensures
            final(self).stepped(old(self)),
            binary_level(old(self).toks(), old(self).position(), level as int) == (Parsed {
                pos: final(self).position(),
                result: expr_view(r),
            }),
            r is Ok ==> final(self).position() > old(self).position(),
        decreases old(self).remaining(), (if level <= 5 {
            10 - level
        } else {
            4
        }),
    {
        if level > 5 {
            return self.parse_unary();
        }
        let mut expr = self.parse_binary(level + 1)?;
        loop
            invariant
                level <= 5,
                self.stepped(old(self)),
                self.position() > old(self).position(),
                binary_level(old(self).toks(), old(self).position(), level as int) == binary_rest(
                    self.toks(),
                    self.position(),
                    level as int,
                    expr@,
                ),
            decreases self.remaining(),
        {
            match Self::operator(level, self.kind()) {
                Some(op) => {
                    self.advance();
                    let right = self.parse_binary(level + 1)?;
                    expr = Expr::Binary { left: Box::new(expr), op, right: Box::new(right) };
                },
                None => {
                    return Ok(expr);
                },
            }
        }
    }

    fn parse_unary(&mut self) -> (r: Result<Expr, ParseError>)
        requires
            old(self).wf(),
        ensures
            final(self).stepped(old(self)),
            parse_unary(old(self).toks(), old(self).position()) == (Parsed {
                pos: final(self).position(),
                result: expr_view(r),
            }),
            r is Ok ==> final(self).position() > old(self).position(),
        decreases old(self).remaining(), 3nat,
    {
        match self.kind() {
            TokenKind::Minus => {
                self.advance();
                let expr = self.parse_unary()?;
                Ok(Expr::Unary { op: UnaryOp::Negate, expr: Box::new(expr) })
            },
            TokenKind::KwNot => {
                self.advance();
                let expr = self.parse_unary()?;
                Ok(Expr::Unary { op: UnaryOp::Not, expr: Box::new(expr) })
            },
            _ => self.parse_primary(),
        }
    }

    fn parse_primary(&mut self) -> (r: Result<Expr, ParseError>)
        requires
            old(self).wf(),
        ensures
            final(self).stepped(old(self)),
            parse_primary(old(self).toks(), old(self).position()) == (Parsed {
                pos: final(self).position(),
                result: expr_view(r),
            }),
            r is Ok ==> final(self).position() > old(self).position(),
        decreases old(self).remaining(), 2nat,
    {
        let head = self.parse_primary_head()?;
        self.parse_postfix(head)
    }

    fn parse_primary_head(&mut self) -> (r: Result<Expr, ParseError>)
        requires
            old(self).wf(),
        ensures
            final(self).stepped(old(self)),
            primary_head(old(self).toks(), old(self).position()) == (Parsed {
                pos: final(self).position(),
                result: expr_view(r),
            }),
            r is Ok ==> final(self).position() > old(self).position(),
        decreases old(self).remaining(), 1nat,
    {
        match self.kind() {
            TokenKind::Int => {
                let value: i64 = match parse_int(self.tokens[self.pos].lexeme.as_str()) {
                    Some(v) => v,
                    None => 0,
                };
                self.advance();
                Ok(Expr::Literal(Literal::Int(value)))
            },
            TokenKind::Float => {
                let text = self.lexeme();
                self.advance();
                Ok(Expr::Literal(Literal::Float(text)))
            },
            TokenKind::KwTrue => {
                self.advance();
                Ok(Expr::Literal(Literal::Bool(true)))
            },
            TokenKind::KwFalse => {
                self.advance();
                Ok(Expr::Literal(Literal::Bool(false)))
            },
            TokenKind::KwNil => {
                self.advance();
                Ok(Expr::Literal(Literal::Nil))
            },
            TokenKind::String => {
                let value = self.lexeme();
                self.advance();
                Ok(Expr::Literal(Literal::String(value)))
            },
            TokenKind::Identifier => {
                let name = self.lexeme();
                self.advance();
                Ok(Expr::Ident(name))
            },
            TokenKind::LParen => {
                self.advance();
                let expr = self.parse_expression()?;
                self.consume(TokenKind::RParen, "expected ')' after expression")?;
                Ok(expr)
            },
            TokenKind::LBrace => {
                let fields = self.parse_table_literal()?;
                Ok(Expr::TableLiteral(fields))
            },
            kind => {
                let mut message = "unexpected token in primary expression: ".to_owned();
                message.append(name_of_kind(kind));
                Err(self.error(message.as_str()))
            },
        }
    }

    fn parse_table_literal(&mut self) -> (r: Result<Vec<TableField>, ParseError>)
        requires
            old(self).wf(),
        ensures
            final(self).stepped(old(self)),
            table_literal(old(self).toks(), old(self).position()) == (Parsed {
                pos: final(self).position(),
                result: fields_result_view(r),
            }),
            r is Ok ==> final(self).position() > old(self).position(),
        decreases old(self).remaining(), 0nat,
    {
        self.consume(TokenKind::LBrace, "expected '{'")?;
        let mut fields: Vec<TableField> = Vec::new();
        assert(fields_view(fields@) =~= Seq::<SpecTableField>::empty());
        loop
            invariant_except_break
                table_fields(old(self).toks(), old(self).position() + 1, Seq::empty())
                    == table_fields(self.toks(), self.position(), fields_view(fields@)),
            invariant
                self.stepped(old(self)),
                self.position() > old(self).position(),
                kind_at(old(self).toks(), old(self).position()) == TokenKind::LBrace,
            ensures
                table_fields(old(self).toks(), old(self).position() + 1, Seq::empty()) == parsed(
                    self.position(),
                    fields_view(fields@),
                ),
            decreases self.remaining(),
        {
            let kind = self.kind();
            if kind == TokenKind::RBrace || kind == TokenKind::Eof {
                break ;
            }
            let field = if kind == TokenKind::Identifier {
                let name = self.lexeme();
                if self.kind_after(1) == TokenKind::Colon {
                    self.advance();
                    self.advance();
                    let value = self.parse_expression()?;
                    TableField::KeyValue { key: name, value }
                } else {
                    self.advance();
                    TableField::Value(Expr::Ident(name))
                }
            } else {
                let value = self.parse_expression()?;
                TableField::Value(value)
            };
            proof {
                assert(fields_view(fields@.push(field)) =~= fields_view(fields@).push(
                    field.view(),
                ));
            }
            fields.push(field);
            if self.kind() == TokenKind::Comma {
                self.advance();
            } else {
                break ;
            }
        }
        self.consume(TokenKind::RBrace, "expected '}' to close table literal")?;
        Ok(fields)
    }

    fn parse_call_args(&mut self) -> (r: Result<Vec<Expr>, ParseError>)
        requires
            old(self).wf(),
        ensures
            final(self).stepped(old(self)),
            call_args(old(self).toks(), old(self).position(), Seq::empty()) == (Parsed {
                pos: final(self).position(),
                result: exprs_result_view(r),
            }),
            r is Ok ==> final(self).position() > old(self).position(),
        decreases old(self).remaining(), 12nat,
    {
        let mut args: Vec<Expr> = Vec::new();
        assert(exprs_view(args@) =~= Seq::<SpecExpr>::empty());
        loop
            invariant
                self.stepped(old(self)),
                args.len() > 0 ==> self.position() > old(self).position(),
                call_args(old(self).toks(), old(self).position(), Seq::empty()) == call_args(
                    self.toks(),
                    self.position(),
                    exprs_view(args@),
                ),
            decreases self.remaining(),
        {
            let arg = self.parse_expression()?;
            proof {
                assert(exprs_view(args@.push(arg)) =~= exprs_view(args@).push(arg.view()));
            }
            args.push(arg);
            if self.kind() == TokenKind::Comma {
                self.advance();
            } else {
                return Ok(args);
            }
        }
    }

    fn parse_postfix(&mut self, head: Expr) -> (r: Result<Expr, ParseError>)
        requires
            old(self).wf(),
        ensures
            final(self).stepped(old(self)),
            postfix(old(self).toks(), old(self).position(), head@) == (Parsed {
                pos: final(self).position(),
                result: expr_view(r),
            }),
        decreases old(self).remaining(), 13nat,
    {
        let mut expr = head;
        loop
            invariant
                self.stepped(old(self)),
                postfix(old(self).toks(), old(self).position(), head@) == postfix(
                    self.toks(),
                    self.position(),
                    expr@,
                ),
            decreases self.remaining(),
        {
            match self.kind() {
                TokenKind::LParen => {
                    self.advance();
                    let args = if self.kind() != TokenKind::RParen {
                        self.parse_call_args()?
                    } else {
                        let none: Vec<Expr> = Vec::new();
                        assert(exprs_view(none@) =~= Seq::<SpecExpr>::empty());
                        none
                    };
                    self.consume(TokenKind::RParen, "expected ')' after arguments")?;
                    expr = Expr::Call { callee: Box::new(expr), args };
                },
                TokenKind::Dot => {
                    self.advance();
                    if self.kind() == TokenKind::Identifier {
                        let field = self.lexeme();
                        self.advance();
                        expr = Expr::Member { object: Box::new(expr), field };
                    } else {
                        return Err(self.error("expected field name after '.'"));
                    }
                },
                TokenKind::LBracket => {
                    self.advance();
                    let index = self.parse_expression()?;
                    self.consume(TokenKind::RBracket, "expected ']' after index")?;
                    expr = Expr::Index { object: Box::new(expr), index: Box::new(index) };
                },
                _ => {
                    return Ok(expr);
                },
            }
        }
    }

    /// Drops tokens after an error, up to a place where a statement can
    /// start.
    fn synchronize(&mut self)
        requires
            old(self).wf(),
        ensures
            final(self).stepped(old(self)),
            final(self).position() == synchronize(old(self).toks(), old(self).position()),
    {
        self.advance();
        loop
            invariant
                self.stepped(old(self)),
                skip_to_statement(self.toks(), self.position()) == synchronize(
                    old(self).toks(),
                    old(self).position(),
                ),
            decreases self.remaining(),
        {
            match self.kind() {
                TokenKind::Eof => {
                    return ;
                },
                TokenKind::Semicolon => {
                    self.advance();
                    return ;
                },
                TokenKind::KwVar
                | TokenKind::KwFunc
                | TokenKind::KwObject
                | TokenKind::KwIf
                | TokenKind::KwWhile
                | TokenKind::KwFor
                | TokenKind::KwReturn
                | TokenKind::KwBreak
                | TokenKind::KwContinue => {
                    return ;
                },
                _ => {
                    self.advance();
                },
            }
        }
    }

    fn record(&mut self, e: ParseError)
        requires
            old(self).wf(),
        ensures
            final(self).moved(old(self)),
            final(self).position() == old(self).position(),
            final(self).recorded() == old(self).recorded().push(e@),
    {
        self.errors.push(e);
        assert(self.recorded() =~= old(self).recorded().push(e@));
    }

    fn parse_params(&mut self) -> (r: Result<Vec<Param>, ParseError>)
        requires
            old(self).wf(),
        ensures
            final(self).parsed_as(
                old(self),
                parse_params(old(self).toks(), old(self).position()),
                params_result_view(r),
            ),
    {
        let mut params: Vec<Param> = Vec::new();
        assert(params_view(params@) =~= Seq::<Seq<char>>::empty());
        if self.kind() == TokenKind::RParen {
            return Ok(params);
        }
        loop
            invariant
                self.stepped(old(self)),
                kind_at(old(self).toks(), old(self).position()) != TokenKind::RParen,
                param_list(old(self).toks(), old(self).position(), Seq::empty()) == param_list(
                    self.toks(),
                    self.position(),
                    params_view(params@),
                ),
            decreases self.remaining(),
        {
            if self.kind() != TokenKind::Identifier {
                return Err(self.error("expected parameter name"));
            }
            let name = self.lexeme();
            proof {
                assert(params_view(params@.push(Param { name })) =~= params_view(params@).push(
                    name@,
                ));
            }
            params.push(Param { name });
            self.advance();
            if self.kind() == TokenKind::Comma {
                self.advance();
            } else {
                return Ok(params);
            }
        }
    }

    fn parse_var_decl(&mut self) -> (r: Result<Stmt, ParseError>)
        requires
            old(self).wf(),
            kind_at(old(self).toks(), old(self).position()) == TokenKind::KwVar,
        ensures
            final(self).parsed_as(
                old(self),
                parse_var_decl(old(self).toks(), old(self).position()),
                stmt_view(r),
            ),
            r is Ok ==> final(self).position() > old(self).position(),
    {
        self.advance();
        if self.kind() != TokenKind::Identifier {
            return Err(self.error("expected identifier after 'var'"));
        }
        let name = self.lexeme();
        self.advance();
        if self.kind() == TokenKind::Colon {
            self.advance();
            if self.kind() == TokenKind::Identifier {
                self.advance();
            }
        }
        self.consume(TokenKind::Equal, "expected '=' in var declaration")?;
        let init = self.parse_expression()?;
        self.skip_semicolon();
        Ok(Stmt::VarDecl { name, init })
    }

    fn parse_return_stmt(&mut self) -> (r: Result<Stmt, ParseError>)
        requires
            old(self).wf(),
            kind_at(old(self).toks(), old(self).position()) == TokenKind::KwReturn,
        ensures
            final(self).parsed_as(
                old(self),
                parse_return(old(self).toks(), old(self).position()),
                stmt_view(r),
            ),
            r is Ok ==> final(self).position() > old(self).position(),
    {
        self.advance();
        if self.kind() == TokenKind::Semicolon {
            self.advance();
            Ok(Stmt::Return(None))
        } else {
            let e = self.parse_expression()?;
            self.skip_semicolon();
            Ok(Stmt::Return(Some(e)))
        }
    }

    fn parse_expression_statement(&mut self) -> (r: Result<Stmt, ParseError>)
        requires
            old(self).wf(),
        ensures
            final(self).parsed_as(
                old(self),
                parse_expression_statement(old(self).toks(), old(self).position()),
                stmt_view(r),
            ),
            r is Ok ==> final(self).position() > old(self).position(),
    {
        let e = self.parse_expression()?;
        self.skip_semicolon();
        Ok(Stmt::Expr(e))
    }

    fn closes(end: BlockEnd, kind: TokenKind) -> (r: bool)
        ensures
            r == closes(end, kind),
    {
        match kind {
            TokenKind::Eof => true,
            TokenKind::RBrace => matches!(end, BlockEnd::Brace),
            TokenKind::KwEnd | TokenKind::KwElif | TokenKind::KwElse => matches!(
                end,
                BlockEnd::Keyword
            ),
            _ => false,
        }
    }

    /// Parses statements up to what ends the run. The error of a statement
    /// is set aside, and the run goes on at the next place where a statement
    /// can start.
    fn parse_statements(&mut self, end: BlockEnd) -> (stmts: Vec<Stmt>)
        requires
            old(self).wf(),
        ensures
            final(self).recovered_as(
                old(self),
                statements(
                    old(self).toks(),
                    old(self).position(),
                    end,
                    Seq::empty(),
                    old(self).recorded(),
                ),
                Ok(stmts_view(stmts@)),
            ),
        decreases old(self).remaining(), 30nat,
    {
        let mut stmts: Vec<Stmt> = Vec::new();
        assert(stmts_view(stmts@) =~= Seq::<SpecStmt>::empty());
        loop
            invariant
                self.moved(old(self)),
                statements(
                    old(self).toks(),
                    old(self).position(),
                    end,
                    Seq::empty(),
                    old(self).recorded(),
                ) == statements(
                    self.toks(),
                    self.position(),
                    end,
                    stmts_view(stmts@),
                    self.recorded(),
                ),
            decreases self.remaining(),
        {
            if Self::closes(end, self.kind()) {
                return stmts;
            }
            match self.parse_statement() {
                Ok(stmt) => {
                    proof {
                        assert(stmts_view(stmts@.push(stmt)) =~= stmts_view(stmts@).push(
                            stmt.view(),
                        ));
                    }
                    stmts.push(stmt);
                },
                Err(e) => {
                    proof {
                        if kind_at(self.toks(), self.position()) != TokenKind::Eof {
                            lemma_skip_to_statement(self.toks(), self.position() + 1);
                        }
                    }
                    self.record(e);
                    self.synchronize();
                },
            }
        }
    }

    fn parse_braced_block(&mut self) -> (r: Result<Vec<Stmt>, ParseError>)
        requires
            old(self).wf(),
        ensures
            final(self).recovered_as(
                old(self),
                braced_block(old(self).toks(), old(self).position(), old(self).recorded()),
                stmts_result_view(r),
            ),
            r is Ok ==> final(self).position() > old(self).position(),
        decreases old(self).remaining(), 20nat,
    {
        self.consume(TokenKind::LBrace, "expected '{' to start block")?;
        let stmts = self.parse_statements(BlockEnd::Brace);
        self.consume(TokenKind::RBrace, "expected '}' to close block")?;
        Ok(stmts)
    }

    /// Parses a block: statements in braces, or statements up to `end`,
    /// `elif` or `else`.
    fn parse_block(&mut self) -> (r: Result<Vec<Stmt>, ParseError>)
        requires
            old(self).wf(),
        ensures
            final(self).recovered_as(
                old(self),
                parse_block(old(self).toks(), old(self).position(), old(self).recorded()),
                stmts_result_view(r),
            ),
        decreases old(self).remaining(), 32nat,
    {
        if self.kind() == TokenKind::LBrace {
            self.parse_braced_block()
        } else {
            Ok(self.parse_statements(BlockEnd::Keyword))
        }
    }

    fn parse_guarded_block(&mut self, keyword: TokenKind, detail: &str) -> (r: Result<
        (Expr, Stmt),
        ParseError,
    >)
        requires
            old(self).wf(),
            keyword != TokenKind::Eof,
        ensures
            final(self).recovered_as(
                old(self),
                guarded_block(
                    old(self).toks(),
                    old(self).position(),
                    keyword,
                    detail@,
                    old(self).recorded(),
                ),
                branch_view(r),
            ),
            r is Ok ==> final(self).position() > old(self).position(),
        decreases old(self).remaining(), 33nat,
    {
        let condition = self.parse_expression()?;
        self.consume(keyword, detail)?;
        let stmts = self.parse_block()?;
        Ok((condition, Stmt::Block(stmts)))
    }

    fn parse_elif_branches(&mut self) -> (r: Result<Vec<(Expr, Stmt)>, ParseError>)
        requires
            old(self).wf(),
        ensures
            final(self).recovered_as(
                old(self),
                elif_branches(
                    old(self).toks(),
                    old(self).position(),
                    Seq::empty(),
                    old(self).recorded(),
                ),
                branches_view(r),
            ),
        decreases old(self).remaining(), 34nat,
    {
        let mut branches: Vec<(Expr, Stmt)> = Vec::new();
        assert(elifs_view(branches@) =~= Seq::<(SpecExpr, SpecStmt)>::empty());
        loop
            invariant
                self.moved(old(self)),
                elif_branches(
                    old(self).toks(),
                    old(self).position(),
                    Seq::empty(),
                    old(self).recorded(),
                ) == elif_branches(
                    self.toks(),
                    self.position(),
                    elifs_view(branches@),
                    self.recorded(),
                ),
            decreases self.remaining(),
        {
            if self.kind() != TokenKind::KwElif {
                return Ok(branches);
            }
            self.advance();
            let branch = self.parse_guarded_block(
                TokenKind::KwThen,
                "expected 'then' after elif condition",
            )?;
            proof {
                assert(elifs_view(branches@.push(branch)) =~= elifs_view(branches@).push(
                    (branch.0.view(), branch.1.view()),
                ));
            }
            branches.push(branch);
        }
    }

    fn parse_else_branch(&mut self) -> (r: Result<Option<Box<Stmt>>, ParseError>)
        requires
            old(self).wf(),
        ensures
            final(self).recovered_as(
                old(self),
                else_branch(old(self).toks(), old(self).position(), old(self).recorded()),
                else_view(r),
            ),
        decreases old(self).remaining(), 33nat,
    {
        if self.kind() == TokenKind::KwElse {
            self.advance();
            let stmts = self.parse_block()?;
            Ok(Some(Box::new(Stmt::Block(stmts))))
        } else {
            Ok(None)
        }
    }

    fn parse_if_tail(&mut self) -> (r: Result<(Vec<(Expr, Stmt)>, Option<Box<Stmt>>), ParseError>)
        requires
            old(self).wf(),
        ensures
            final(self).recovered_as(
                old(self),
                if_tail(old(self).toks(), old(self).position(), old(self).recorded()),
                tail_view(r),
            ),
            r is Ok ==> final(self).position() > old(self).position(),
        decreases old(self).remaining(), 35nat,
    {
        let branches = self.parse_elif_branches()?;
        let last = self.parse_else_branch()?;
        self.consume(TokenKind::KwEnd, "expected 'end' after if statement")?;
        Ok((branches, last))
    }

    fn parse_if_stmt(&mut self) -> (r: Result<Stmt, ParseError>)
        requires
            old(self).wf(),
            kind_at(old(self).toks(), old(self).position()) == TokenKind::KwIf,
        ensures
            final(self).recovered_as(
                old(self),
                parse_if(old(self).toks(), old(self).position(), old(self).recorded()),
                stmt_view(r),
            ),
            r is Ok ==> final(self).position() > old(self).position(),
        decreases old(self).remaining(), 25nat,
    {
        self.advance();
        let (condition, then_branch) = self.parse_guarded_block(
            TokenKind::KwThen,
            "expected 'then' after if condition",
        )?;
        let (elif_branches, else_branch) = self.parse_if_tail()?;
        Ok(Stmt::If { condition, then_branch: Box::new(then_branch), elif_branches, else_branch })
    }

    fn parse_while_stmt(&mut self) -> (r: Result<Stmt, ParseError>)
        requires
            old(self).wf(),
            kind_at(old(self).toks(), old(self).position()) == TokenKind::KwWhile,
        ensures
            final(self).recovered_as(
                old(self),
                parse_while(old(self).toks(), old(self).position(), old(self).recorded()),
                stmt_view(r),
            ),
            r is Ok ==> final(self).position() > old(self).position(),
        decreases old(self).remaining(), 25nat,
    {
        self.advance();
        let (condition, body) = self.parse_guarded_block(
            TokenKind::KwDo,
            "expected 'do' after while condition",
        )?;
        self.consume(TokenKind::KwEnd, "expected 'end' after while statement")?;
        Ok(Stmt::While { condition, body: Box::new(body) })
    }

    fn parse_for_range(&mut self) -> (r: Result<(Expr, Expr, Option<Expr>), ParseError>)
        requires
            old(self).wf(),
        ensures
            final(self).parsed_as(
                old(self),
                for_range(old(self).toks(), old(self).position()),
                range_view(r),
            ),
            r is Ok ==> final(self).position() > old(self).position(),
    {
        self.consume(TokenKind::Equal, "expected '=' after loop variable")?;
        let start = self.parse_expression()?;
        self.consume(TokenKind::Comma, "expected ',' after start value")?;
        let end = self.parse_expression()?;
        if self.kind() == TokenKind::Comma {
            self.advance();
            let step = self.parse_expression()?;
            Ok((start, end, Some(step)))
        } else {
            Ok((start, end, None))
        }
    }

    fn parse_for_head(&mut self) -> (r: Result<(String, (Expr, Expr, Option<Expr>)), ParseError>)
        requires
            old(self).wf(),
        ensures
            final(self).parsed_as(
                old(self),
                for_head(old(self).toks(), old(self).position()),
                head_view(r),
            ),
            r is Ok ==> final(self).position() > old(self).position(),
    {
        if self.kind() != TokenKind::Identifier {
            return Err(self.error("expected loop variable after 'for'"));
        }
        let var_name = self.lexeme();
        self.advance();
        let range = self.parse_for_range()?;
        self.consume(TokenKind::KwDo, "expected 'do' after for bounds")?;
        Ok((var_name, range))
    }

    fn parse_for_stmt(&mut self) -> (r: Result<Stmt, ParseError>)
        requires
            old(self).wf(),
            kind_at(old(self).toks(), old(self).position()) == TokenKind::KwFor,
        ensures
            final(self).recovered_as(
                old(self),
                parse_for(old(self).toks(), old(self).position(), old(self).recorded()),
                stmt_view(r),
            ),
            r is Ok ==> final(self).position() > old(self).position(),
        decreases old(self).remaining(), 25nat,
    {
        self.advance();
        let (var_name, (start, end, step)) = self.parse_for_head()?;
        let body = self.parse_body_and_end("expected 'end' after for statement")?;
        Ok(Stmt::For { var_name, start, end, step, body: Box::new(body) })
    }

    fn parse_signature(&mut self, name_detail: &str, open_detail: &str, body_detail: &str) -> (r:
        Result<(String, Vec<Param>), ParseError>)
        requires
            old(self).wf(),
        ensures
            final(self).parsed_as(
                old(self),
                signature(
                    old(self).toks(),
                    old(self).position(),
                    name_detail@,
                    open_detail@,
                    body_detail@,
                ),
                signature_view(r),
            ),
            r is Ok ==> final(self).position() > old(self).position(),
    {
        if self.kind() != TokenKind::Identifier {
            return Err(self.error(name_detail));
        }
        let name = self.lexeme();
        self.advance();
        self.consume(TokenKind::LParen, open_detail)?;
        let params = self.parse_params()?;
        self.consume(TokenKind::RParen, "expected ')' after parameter list")?;
        self.consume(TokenKind::Colon, body_detail)?;
        Ok((name, params))
    }

    fn parse_body_and_end(&mut self, end_detail: &str) -> (r: Result<Stmt, ParseError>)
        requires
            old(self).wf(),
        ensures
            final(self).recovered_as(
                old(self),
                body_and_end(
                    old(self).toks(),
                    old(self).position(),
                    end_detail@,
                    old(self).recorded(),
                ),
                stmt_view(r),
            ),
            r is Ok ==> final(self).position() > old(self).position(),
        decreases old(self).remaining(), 33nat,
    {
        let stmts = self.parse_block()?;
        self.consume(TokenKind::KwEnd, end_detail)?;
        Ok(Stmt::Block(stmts))
    }

    fn skip_result_type(&mut self)
        requires
            old(self).wf(),
        ensures
            final(self).stepped(old(self)),
            final(self).position() == skip_result_type(old(self).toks(), old(self).position()),
    {
        if self.kind() == TokenKind::Identifier && self.kind_after(1) == TokenKind::Colon {
            self.advance();
            self.advance();
        }
    }

    fn parse_func_decl(&mut self) -> (r: Result<FuncDecl, ParseError>)
        requires
            old(self).wf(),
            kind_at(old(self).toks(), old(self).position()) == TokenKind::KwFunc,
        ensures
            final(self).recovered_as(
                old(self),
                parse_func_decl(old(self).toks(), old(self).position(), old(self).recorded()),
                func_view(r),
            ),
            r is Ok ==> final(self).position() > old(self).position(),
        decreases old(self).remaining(), 25nat,
    {
        self.advance();
        let (name, params) = self.parse_signature(
            "expected function name after 'func'",
            "expected '(' after function name",
            "expected ':' before function body",
        )?;
        self.skip_result_type();
        let body = self.parse_body_and_end("expected 'end' after function body")?;
        Ok(FuncDecl { name, params, body: Box::new(body) })
    }

    fn parse_event_decl(&mut self) -> (r: Result<EventDecl, ParseError>)
        requires
            old(self).wf(),
            kind_at(old(self).toks(), old(self).position()) == TokenKind::KwOn,
        ensures
            final(self).recovered_as(
                old(self),
                parse_event_decl(old(self).toks(), old(self).position(), old(self).recorded()),
                event_view(r),
            ),
            r is Ok ==> final(self).position() > old(self).position(),
        decreases old(self).remaining(), 25nat,
    {
        self.advance();
        let (name, params) = self.parse_signature(
            "expected event name after 'on'",
            "expected '(' after event name",
            "expected ':' before event body",
        )?;
        let body = self.parse_body_and_end("expected 'end' after event body")?;
        Ok(EventDecl { name, params, body: Box::new(body) })
    }

    fn parse_object_member(&mut self) -> (r: Result<ObjectMember, ParseError>)
        requires
            old(self).wf(),
        ensures
            final(self).recovered_as(
                old(self),
                object_member(old(self).toks(), old(self).position(), old(self).recorded()),
                member_view(r),
            ),
            r is Ok ==> final(self).position() > old(self).position(),
        decreases old(self).remaining(), 26nat,
    {
        match self.kind() {
            TokenKind::KwVar => {
                let stmt = self.parse_var_decl()?;
                Ok(ObjectMember::Var(stmt))
            },
            TokenKind::KwFunc => {
                let func = self.parse_func_decl()?;
                Ok(ObjectMember::Method(func))
            },
            TokenKind::KwOn => {
                let event = self.parse_event_decl()?;
                Ok(ObjectMember::Event(event))
            },
            _ => Err(self.error("expected 'var', 'func', or 'on' in object body")),
        }
    }

    fn parse_object_members(&mut self) -> (r: Result<Vec<ObjectMember>, ParseError>)
        requires
            old(self).wf(),
        ensures
            final(self).recovered_as(
                old(self),
                object_members(
                    old(self).toks(),
                    old(self).position(),
                    Seq::empty(),
                    old(self).recorded(),
                ),
                members_result_view(r),
            ),
        decreases old(self).remaining(), 27nat,
    {
        let mut members: Vec<ObjectMember> = Vec::new();
        assert(members_view(members@) =~= Seq::<SpecObjectMember>::empty());
        loop
            invariant
                self.moved(old(self)),
                object_members(
                    old(self).toks(),
                    old(self).position(),
                    Seq::empty(),
                    old(self).recorded(),
                ) == object_members(
                    self.toks(),
                    self.position(),
                    members_view(members@),
                    self.recorded(),
                ),
            decreases self.remaining(),
        {
            let kind = self.kind();
            if kind == TokenKind::RBrace || kind == TokenKind::Eof {
                return Ok(members);
            }
            let member = self.parse_object_member()?;
            proof {
                assert(members_view(members@.push(member)) =~= members_view(members@).push(
                    member.view(),
                ));
            }
            members.push(member);
        }
    }

    fn parse_object_head(&mut self) -> (r: Result<String, ParseError>)
        requires
            old(self).wf(),
        ensures
            final(self).parsed_as(
                old(self),
                object_head(old(self).toks(), old(self).position()),
                name_view(r),
            ),
            r is Ok ==> final(self).position() > old(self).position(),
    {
        if self.kind() != TokenKind::Identifier {
            return Err(self.error("expected object name after 'object'"));
        }
        let name = self.lexeme();
        self.advance();
        self.consume(TokenKind::Colon, "expected ':' after object name")?;
        self.consume(TokenKind::LBrace, "expected '{' to start object body")?;
        Ok(name)
    }

    fn parse_object_end(&mut self) -> (r: Result<(), ParseError>)
        requires
            old(self).wf(),
        ensures
            final(self).parsed_as(
                old(self),
                object_end(old(self).toks(), old(self).position()),
                unit_result_view(r),
            ),
    {
        self.consume(TokenKind::RBrace, "expected '}' to close object body")?;
        self.consume(TokenKind::KwEnd, "expected 'end' after object")
    }

    fn parse_object_decl(&mut self) -> (r: Result<ObjectDecl, ParseError>)
        requires
            old(self).wf(),
            kind_at(old(self).toks(), old(self).position()) == TokenKind::KwObject,
        ensures
            final(self).recovered_as(
                old(self),
                parse_object_decl(old(self).toks(), old(self).position(), old(self).recorded()),
                object_view(r),
            ),
            r is Ok ==> final(self).position() > old(self).position(),
        decreases old(self).remaining(), 25nat,
    {
        self.advance();
        let name = self.parse_object_head()?;
        let members = self.parse_object_members()?;
        self.parse_object_end()?;
        Ok(ObjectDecl { name, members })
    }

    #[verifier::rlimit(60)]
    fn parse_compound_statement(&mut self) -> (r: Result<Stmt, ParseError>)
        requires
            old(self).wf(),
            is_compound(kind_at(old(self).toks(), old(self).position())),
        ensures
            final(self).recovered_as(
                old(self),
                compound_statement(old(self).toks(), old(self).position(), old(self).recorded()),
                stmt_view(r),
            ),
            r is Ok ==> final(self).position() > old(self).position(),
        decreases old(self).remaining(), 28nat,
    {
        match self.kind() {
            TokenKind::KwIf => self.parse_if_stmt(),
            TokenKind::KwWhile => self.parse_while_stmt(),
            TokenKind::KwFor => self.parse_for_stmt(),
            TokenKind::KwFunc => self.parse_func_statement(),
            TokenKind::KwObject => self.parse_object_statement(),
            _ => self.parse_block_statement(),
        }
    }

    fn parse_func_statement(&mut self) -> (r: Result<Stmt, ParseError>)
        requires
            old(self).wf(),
            kind_at(old(self).toks(), old(self).position()) == TokenKind::KwFunc,
        ensures
            final(self).recovered_as(
                old(self),
                func_statement(old(self).toks(), old(self).position(), old(self).recorded()),
                stmt_view(r),
            ),
            r is Ok ==> final(self).position() > old(self).position(),
        decreases old(self).remaining(), 26nat,
    {
        let func = self.parse_func_decl()?;
        proof {
            lemma_func_stmt_view(func);
        }
        Ok(Stmt::FuncDecl(func))
    }

    fn parse_object_statement(&mut self) -> (r: Result<Stmt, ParseError>)
        requires
            old(self).wf(),
            kind_at(old(self).toks(), old(self).position()) == TokenKind::KwObject,
        ensures
            final(self).recovered_as(
                old(self),
                object_statement(old(self).toks(), old(self).position(), old(self).recorded()),
                stmt_view(r),
            ),
            r is Ok ==> final(self).position() > old(self).position(),
        decreases old(self).remaining(), 26nat,
    {
        let obj = self.parse_object_decl()?;
        proof {
            lemma_object_stmt_view(obj);
        }
        Ok(Stmt::ObjectDecl(obj))
    }

    fn parse_block_statement(&mut self) -> (r: Result<Stmt, ParseError>)
        requires
            old(self).wf(),
        ensures
            final(self).recovered_as(
                old(self),
                block_statement(old(self).toks(), old(self).position(), old(self).recorded()),
                stmt_view(r),
            ),
            r is Ok ==> final(self).position() > old(self).position(),
        decreases old(self).remaining(), 26nat,
    {
        let block = self.parse_braced_block()?;
        proof {
            lemma_block_view(block);
        }
        Ok(Stmt::Block(block))
    }

    fn parse_simple_statement(&mut self) -> (r: Result<Stmt, ParseError>)
        requires
            old(self).wf(),
        ensures
            final(self).parsed_as(
                old(self),
                simple_statement(old(self).toks(), old(self).position()),
                stmt_view(r),
            ),
            r is Ok ==> final(self).position() > old(self).position(),
    {
        match self.kind() {
            TokenKind::KwVar => self.parse_var_decl(),
            TokenKind::KwReturn => self.parse_return_stmt(),
            TokenKind::KwBreak => {
                self.advance();
                self.skip_semicolon();
                Ok(Stmt::Break)
            },
            TokenKind::KwContinue => {
                self.advance();
                self.skip_semicolon();
                Ok(Stmt::Continue)
            },
            _ => self.parse_expression_statement(),
        }
    }

    /// Parses one statement.
    pub fn parse_statement(&mut self) -> (r: Result<Stmt, ParseError>)
        requires
            old(self).wf(),
        ensures
            final(self).recovered_as(
                old(self),
                parse_statement(old(self).toks(), old(self).position(), old(self).recorded()),
                stmt_view(r),
            ),
            r is Ok ==> final(self).position() > old(self).position(),
        decreases old(self).remaining(), 29nat,
    {
        match self.kind() {
            TokenKind::KwIf
            | TokenKind::KwWhile
            | TokenKind::KwFor
            | TokenKind::KwFunc
            | TokenKind::KwObject
            | TokenKind::LBrace => self.parse_compound_statement(),
            _ => self.parse_simple_statement(),
        }
    }

    /// Parses a whole program. Where any error was found it gives no program
    /// but all the errors, in the order in which they were found, and sets
    /// none aside any longer.
    pub fn parse_program(&mut self) -> (r: Result<Program, Vec<ParseError>>)
        requires
            old(self).wf(),
        ensures
            final(self).moved(old(self)),
            program_view(r) == parse_program(
                old(self).toks(),
                old(self).position(),
                old(self).recorded(),
            ),
            r is Err ==> r->Err_0.len() >= 1,
            final(self).recorded() == Seq::<SpecParseError>::empty(),
    {
        let body = self.parse_statements(BlockEnd::Input);
        if self.errors.len() == 0 {
            assert(self.recorded() =~= Seq::<SpecParseError>::empty());
            assert(self.recorded().len() == 0);
            Ok(Program { body })
        } else {
            let mut errors: Vec<ParseError> = Vec::new();
            std::mem::swap(&mut self.errors, &mut errors);
            assert(self.recorded() =~= Seq::<SpecParseError>::empty());
            Err(errors)
        }
    }
}

/// The error of a source that is too long for its bytes to be counted.
pub open spec fn too_long() -> SpecParseError {
    SpecParseError { line: 1, column: 1, message: "source too long"@ }
}

/// What parsing a source gives: the program of its tokens, or the errors.
pub open spec fn parse_source(source: Seq<u8>) -> Result<SpecProgram, Seq<SpecParseError>> {
    if source.len() < usize::MAX {
        parse_program(tokens_from(source, 0), 0, Seq::empty())
    } else {
        Err(seq![too_long()])
    }
}

/// Parsing is a function of the source: the same source parses to the same
/// tree, or to the same errors.
pub proof fn lemma_parse_deterministic(a: Seq<u8>, b: Seq<u8>)
    requires
        a == b,
    ensures
        parse_source(a) == parse_source(b),
{
}

/// Where parsing gives no program it gives at least one error.
pub proof fn lemma_parse_errors_nonempty(source: Seq<u8>)
    ensures
        parse_source(source) is Err ==> parse_source(source)->Err_0.len() >= 1,
{
}

/// Parses a source text.
pub fn parse(source: &str) -> (r: Result<Program, Vec<ParseError>>)
    ensures
        program_view(r) == parse_source(source.spec_bytes()),
        r is Err ==> r->Err_0.len() >= 1,
{
    if source.as_bytes().len() == usize::MAX {
        let mut errors: Vec<ParseError> = Vec::new();
        errors.push(ParseError::new(1, 1, "source too long".to_owned()));
        assert(errors_view(errors@) =~= seq![too_long()]);
        return Err(errors);
    }
    let lexer = Lexer::new(source);
    let mut parser = Parser::new(lexer);
    parser.parse_program()
}

/// The view of a result that holds a statement.
pub open spec fn stmt_view(r: Result<Stmt, ParseError>) -> Result<SpecStmt, SpecParseError> {
    match r {
        Ok(s) => Ok(s@),
        Err(e) => Err(e@),
    }
}

/// The view of a result that holds a list of statements.
pub open spec fn stmts_result_view(r: Result<Vec<Stmt>, ParseError>) -> Result<
    Seq<SpecStmt>,
    SpecParseError,
> {
    match r {
        Ok(list) => Ok(stmts_view(list@)),
        Err(e) => Err(e@),
    }
}

/// The view of a result that holds a list of parameters.
pub open spec fn params_result_view(r: Result<Vec<Param>, ParseError>) -> Result<
    Seq<Seq<char>>,
    SpecParseError,
> {
    match r {
        Ok(list) => Ok(params_view(list@)),
        Err(e) => Err(e@),
    }
}

/// The view of a result that holds a condition and its block.
pub open spec fn branch_view(r: Result<(Expr, Stmt), ParseError>) -> Result<
    (SpecExpr, SpecStmt),
    SpecParseError,
> {
    match r {
        Ok(b) => Ok((b.0@, b.1@)),
        Err(e) => Err(e@),
    }
}

/// The view of a result that holds a list of `elif` branches.
pub open spec fn branches_view(r: Result<Vec<(Expr, Stmt)>, ParseError>) -> Result<
    Seq<(SpecExpr, SpecStmt)>,
    SpecParseError,
> {
    match r {
        Ok(list) => Ok(elifs_view(list@)),
        Err(e) => Err(e@),
    }
}

/// The view of a result that holds the bounds of a `for` loop.
pub open spec fn range_view(r: Result<(Expr, Expr, Option<Expr>), ParseError>) -> Result<
    (SpecExpr, SpecExpr, Option<SpecExpr>),
    SpecParseError,
> {
    match r {
        Ok(b) => Ok(
            (
                b.0@,
                b.1@,
                match b.2 {
                    Some(step) => Some(step@),
                    None => None,
                },
            ),
        ),
        Err(e) => Err(e@),
    }
}

/// The view of a result that holds a name and its parameters.
pub open spec fn signature_view(r: Result<(String, Vec<Param>), ParseError>) -> Result<
    (Seq<char>, Seq<Seq<char>>),
    SpecParseError,
> {
    match r {
        Ok(sig) => Ok((sig.0@, params_view(sig.1@))),
        Err(e) => Err(e@),
    }
}

/// The view of a result that holds an optional `else` branch.
pub open spec fn else_view(r: Result<Option<Box<Stmt>>, ParseError>) -> Result<
    Option<Box<SpecStmt>>,
    SpecParseError,
> {
    match r {
        Ok(Some(b)) => Ok(Some(Box::new(b.view()))),
        Ok(None) => Ok(None),
        Err(e) => Err(e@),
    }
}

/// The view of a result that holds the `elif` branches and the `else` branch of an `if`.
pub open spec fn tail_view(
    r: Result<(Vec<(Expr, Stmt)>, Option<Box<Stmt>>), ParseError>,
) -> Result<(Seq<(SpecExpr, SpecStmt)>, Option<Box<SpecStmt>>), SpecParseError> {
    match r {
        Ok(tail) => Ok(
            (
                elifs_view(tail.0@),
                match tail.1 {
                    Some(b) => Some(Box::new(b.view())),
                    None => None,
                },
            ),
        ),
        Err(e) => Err(e@),
    }
}

/// The view of a result that holds the variable and the bounds of a `for` loop.
pub open spec fn head_view(
    r: Result<(String, (Expr, Expr, Option<Expr>)), ParseError>,
) -> Result<(Seq<char>, (SpecExpr, SpecExpr, Option<SpecExpr>)), SpecParseError> {
    match r {
        Ok(head) => Ok(
            (
                head.0@,
                (
                    head.1.0@,
                    head.1.1@,
                    match head.1.2 {
                        Some(step) => Some(step@),
                        None => None,
                    },
                ),
            ),
        ),
        Err(e) => Err(e@),
    }
}

/// The view of a result that holds a name.
pub open spec fn name_view(r: Result<String, ParseError>) -> Result<Seq<char>, SpecParseError> {
    match r {
        Ok(name) => Ok(name@),
        Err(e) => Err(e@),
    }
}

/// The view of a result that holds a function declaration.
pub open spec fn func_view(r: Result<FuncDecl, ParseError>) -> Result<
    SpecFuncDecl,
    SpecParseError,
> {
    match r {
        Ok(f) => Ok(f@),
        Err(e) => Err(e@),
    }
}

/// The view of a result that holds an event declaration.
pub open spec fn event_view(r: Result<EventDecl, ParseError>) -> Result<
    SpecEventDecl,
    SpecParseError,
> {
    match r {
        Ok(f) => Ok(f@),
        Err(e) => Err(e@),
    }
}

/// The view of a result that holds a member of an object.
pub open spec fn member_view(r: Result<ObjectMember, ParseError>) -> Result<
    SpecObjectMember,
    SpecParseError,
> {
    match r {
        Ok(m) => Ok(m@),
        Err(e) => Err(e@),
    }
}

/// The view of a result that holds the members of an object.
pub open spec fn members_result_view(r: Result<Vec<ObjectMember>, ParseError>) -> Result<
    Seq<SpecObjectMember>,
    SpecParseError,
> {
    match r {
        Ok(list) => Ok(members_view(list@)),
        Err(e) => Err(e@),
    }
}

/// The view of a result that holds an object declaration.
pub open spec fn object_view(r: Result<ObjectDecl, ParseError>) -> Result<
    SpecObjectDecl,
    SpecParseError,
> {
    match r {
        Ok(o) => Ok(o@),
        Err(e) => Err(e@),
    }
}

/// The view of what parsing a program gives: a program, or the errors.
pub open spec fn program_view(r: Result<Program, Vec<ParseError>>) -> Result<
    SpecProgram,
    Seq<SpecParseError>,
> {
    match r {
        Ok(p) => Ok(p@),
        Err(errors) => Err(errors_view(errors@)),
    }
}

} // verus!
