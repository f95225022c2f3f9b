use arcscript::lexer::{tokenize, Lexer, Token, TokenKind};

fn lex_all(src: &str) -> Vec<Token> {
    let mut lexer = Lexer::new(src);
    let mut out = Vec::new();
    loop {
        let t = lexer.next_token();
        let done = t.kind == TokenKind::Eof;
        out.push(t);
        if done {
            break;
        }
    }
    out
}

fn kinds(src: &str) -> Vec<TokenKind> {
    lex_all(src).iter().map(|t| t.kind).collect()
}

#[test]
fn lexes_var_declaration() {
    assert_eq!(
        kinds("var x = 10;"),
        vec![
            TokenKind::KwVar,
            TokenKind::Identifier,
            TokenKind::Equal,
            TokenKind::Int,
            TokenKind::Semicolon,
            TokenKind::Eof
        ]
    );
}

#[test]
fn every_keyword_is_reclassified() {
    let src = "var func object on if elif else while for do then end return break continue true false nil and or not";
    assert_eq!(
        kinds(src),
        vec![
            TokenKind::KwVar,
            TokenKind::KwFunc,
            TokenKind::KwObject,
            TokenKind::KwOn,
            TokenKind::KwIf,
            TokenKind::KwElif,
            TokenKind::KwElse,
            TokenKind::KwWhile,
            TokenKind::KwFor,
            TokenKind::KwDo,
            TokenKind::KwThen,
            TokenKind::KwEnd,
            TokenKind::KwReturn,
            TokenKind::KwBreak,
            TokenKind::KwContinue,
            TokenKind::KwTrue,
            TokenKind::KwFalse,
            TokenKind::KwNil,
            TokenKind::KwAnd,
            TokenKind::KwOr,
            TokenKind::KwNot,
            TokenKind::Eof
        ]
    );
}

#[test]
fn identifiers_keep_their_text() {
    let toks = lex_all("_foo Bar9 variable");
    assert_eq!(toks[0].kind, TokenKind::Identifier);
    assert_eq!(toks[0].lexeme, "_foo");
    assert_eq!(toks[1].kind, TokenKind::Identifier);
    assert_eq!(toks[1].lexeme, "Bar9");
    assert_eq!(toks[2].kind, TokenKind::Identifier);
    assert_eq!(toks[2].lexeme, "variable");
}

#[test]
fn two_character_operators_are_matched_first() {
    assert_eq!(
        kinds("== != <= >= += -= *= /= = ! < > + - * / %"),
        vec![
            TokenKind::EqualEqual,
            TokenKind::BangEqual,
            TokenKind::LessEqual,
            TokenKind::GreaterEqual,
            TokenKind::PlusEqual,
            TokenKind::MinusEqual,
            TokenKind::StarEqual,
            TokenKind::SlashEqual,
            TokenKind::Equal,
            TokenKind::KwNot,
            TokenKind::Less,
            TokenKind::Greater,
            TokenKind::Plus,
            TokenKind::Minus,
            TokenKind::Star,
            TokenKind::Slash,
            TokenKind::Percent,
            TokenKind::Eof
        ]
    );
}

#[test]
fn delimiters() {
    assert_eq!(
        kinds("( ) { } [ ] , . : ;"),
        vec![
            TokenKind::LParen,
            TokenKind::RParen,
            TokenKind::LBrace,
            TokenKind::RBrace,
            TokenKind::LBracket,
            TokenKind::RBracket,
            TokenKind::Comma,
            TokenKind::Dot,
            TokenKind::Colon,
            TokenKind::Semicolon,
            TokenKind::Eof
        ]
    );
}

#[test]
fn operator_lexemes_are_their_text() {
    let toks = lex_all("<= (");
    assert_eq!(toks[0].lexeme, "<=");
    assert_eq!(toks[1].lexeme, "(");
}

#[test]
fn numbers_int_and_float() {
    let toks = lex_all("42 3.14 7. 1.2.3");
    assert_eq!(toks[0].kind, TokenKind::Int);
    assert_eq!(toks[0].lexeme, "42");
    assert_eq!(toks[1].kind, TokenKind::Float);
    assert_eq!(toks[1].lexeme, "3.14");
    assert_eq!(toks[2].kind, TokenKind::Float);
    assert_eq!(toks[2].lexeme, "7.");
    // a second '.' stops the number
    assert_eq!(toks[3].kind, TokenKind::Float);
    assert_eq!(toks[3].lexeme, "1.2");
    assert_eq!(toks[4].kind, TokenKind::Dot);
    assert_eq!(toks[5].kind, TokenKind::Int);
    assert_eq!(toks[5].lexeme, "3");
}

#[test]
fn string_escapes_are_decoded() {
    let toks = lex_all(r#""line1\nline2\t\\\"\q\r""#);
    assert_eq!(toks[0].kind, TokenKind::String);
    assert_eq!(toks[0].lexeme, "line1\nline2\t\\\"q\r");
    assert_eq!(toks[1].kind, TokenKind::Eof);
}

#[test]
fn string_keeps_non_ascii_text() {
    let toks = lex_all("\"héllo ✓\"");
    assert_eq!(toks[0].kind, TokenKind::String);
    assert_eq!(toks[0].lexeme, "héllo ✓");
}

#[test]
fn unterminated_string_runs_to_the_end() {
    let toks = lex_all("\"abc");
    assert_eq!(toks[0].kind, TokenKind::String);
    assert_eq!(toks[0].lexeme, "abc");
    assert_eq!(toks[1].kind, TokenKind::Eof);
    let toks = lex_all("\"abc\\");
    assert_eq!(toks[0].kind, TokenKind::String);
    assert_eq!(toks[0].lexeme, "abc");
    assert_eq!(toks[1].kind, TokenKind::Eof);
}

#[test]
fn comments_and_white_space_are_skipped() {
    assert_eq!(
        kinds("// first\n  a /* b\n c */ d // last"),
        vec![TokenKind::Identifier, TokenKind::Identifier, TokenKind::Eof]
    );
}

#[test]
fn unterminated_block_comment_runs_to_the_end() {
    assert_eq!(kinds("a /* never closed"), vec![TokenKind::Identifier, TokenKind::Eof]);
}

#[test]
fn slash_alone_is_an_operator() {
    assert_eq!(
        kinds("a / b"),
        vec![TokenKind::Identifier, TokenKind::Slash, TokenKind::Identifier, TokenKind::Eof]
    );
}

#[test]
fn lines_and_columns_count_from_one() {
    let toks = lex_all("var x\n  = 1;\n");
    assert_eq!((toks[0].line, toks[0].column), (1, 1));
    assert_eq!((toks[1].line, toks[1].column), (1, 5));
    assert_eq!((toks[2].line, toks[2].column), (2, 3));
    assert_eq!((toks[3].line, toks[3].column), (2, 5));
    assert_eq!((toks[4].line, toks[4].column), (2, 6));
    assert_eq!(toks[5].kind, TokenKind::Eof);
    assert_eq!((toks[5].line, toks[5].column), (3, 1));
}

#[test]
fn lexer_reports_its_place() {
    let mut lexer = Lexer::new("ab\ncd");
    assert_eq!((lexer.line(), lexer.column()), (1, 1));
    lexer.next_token();
    assert_eq!((lexer.line(), lexer.column()), (1, 3));
    lexer.next_token();
    assert_eq!((lexer.line(), lexer.column()), (2, 3));
}

#[test]
fn eof_is_given_again_and_again() {
    let mut lexer = Lexer::new("x");
    assert_eq!(lexer.next_token().kind, TokenKind::Identifier);
    assert_eq!(lexer.next_token().kind, TokenKind::Eof);
    assert_eq!(lexer.next_token().kind, TokenKind::Eof);
}

#[test]
fn empty_source_is_just_eof() {
    let toks = lex_all("");
    assert_eq!(toks.len(), 1);
    assert_eq!(toks[0].kind, TokenKind::Eof);
    assert_eq!(toks[0].lexeme, "");
    assert_eq!((toks[0].line, toks[0].column), (1, 1));
}

#[test]
fn unknown_byte_is_an_invalid_token_and_lexing_goes_on() {
    let toks = lex_all("a # b");
    assert_eq!(toks[0].kind, TokenKind::Identifier);
    assert_eq!(toks[1].kind, TokenKind::Invalid);
    assert_eq!(toks[1].lexeme, "#");
    assert_eq!((toks[1].line, toks[1].column), (1, 3));
    assert_eq!(toks[2].kind, TokenKind::Identifier);
    assert_eq!(toks[2].lexeme, "b");
    assert_eq!(toks[3].kind, TokenKind::Eof);
}

#[test]
fn tokenize_gives_all_tokens() {
    let toks = tokenize("var x = 1;").expect("lexes");
    assert_eq!(toks.len(), 6);
    assert_eq!(toks[5].kind, TokenKind::Eof);
}

#[test]
fn tokenize_fails_at_the_first_unknown_byte() {
    let err = tokenize("var x = 1;\n  @ $").expect_err("does not lex");
    assert_eq!((err.line, err.column), (2, 3));
}

#[test]
fn remaining_tokens_end_with_eof() {
    let mut lexer = Lexer::new("a b");
    let first = lexer.next_token();
    assert_eq!(first.lexeme, "a");
    let rest = lexer.remaining_tokens();
    assert_eq!(rest.len(), 2);
    assert_eq!(rest[0].lexeme, "b");
    assert_eq!(rest[1].kind, TokenKind::Eof);
}

#[test]
fn token_duplicate_is_equal() {
    let toks = lex_all("name");
    assert_eq!(toks[0].duplicate(), toks[0]);
}
