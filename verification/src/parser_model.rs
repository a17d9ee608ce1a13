//! What the parser computes, as functions on plain values: each grammar
//! rule maps the parser's state to the state after it and to its result.

use vstd::prelude::*;
use crate::boolexpr::{and_model, not_model, or_model, rel_op_of, relop_model, BoolView};
use crate::expression::BinaryOp;
use crate::codegen::{
    assignment_stmt_text,
    bin_op_text,
    input_stmt_text,
    jump_if_false_text,
    jump_text,
    label_decl_text,
    output_stmt_text,
    ref_text,
    register,
    var_type_of,
    GenView,
    RefView,
    VarType,
};
use crate::error::{CompilationError, ErrorView, ParsingErrorView};
use crate::expression::{binary_op_model, binary_op_of, cast_model, ExprView};
use crate::lexer::TokenView;
use crate::text::{decimal, first_index_from, float_literal_text, int_literal_value};
use crate::token::{Additional, Keyword, Operator, Symbol, Token};

verus! {

/// The parser's state: the code emitted so far, the place in the token
/// list, the generator, the position of the token looked at last, and the
/// diagnostics recorded so far.
pub struct ParserView {
    pub code: Seq<char>,
    pub ptr: nat,
    pub gen: GenView,
    pub line: nat,
    pub column: nat,
    pub errors: Seq<ErrorView>,
}

/// The tokens that can start a statement.
pub open spec fn is_stmt_start(t: Token) -> bool {
    t == Token::Additional(Additional::Ident) || t == Token::Keyword(Keyword::Input) || t
        == Token::Keyword(Keyword::Output) || t == Token::Keyword(Keyword::If) || t
        == Token::Keyword(Keyword::While) || t == Token::Symbol(Symbol::LCurly)
}

/// The tokens that can start a statement, as a diagnostic lists them.
pub open spec fn stmt_starters() -> Seq<Token> {
    seq![
        Token::Additional(Additional::Ident),
        Token::Keyword(Keyword::Input),
        Token::Keyword(Keyword::Output),
        Token::Keyword(Keyword::If),
        Token::Keyword(Keyword::While),
        Token::Symbol(Symbol::LCurly),
    ]
}

/// The tokens that can start a factor, as a diagnostic lists them.
pub open spec fn factor_starters() -> Seq<Token> {
    seq![
        Token::Operator(Operator::CAST),
        Token::Additional(Additional::Ident),
        Token::Additional(Additional::Num),
        Token::Symbol(Symbol::LParen),
    ]
}

/// The two type keywords, as a diagnostic lists them.
pub open spec fn type_keywords() -> Seq<Token> {
    seq![Token::Keyword(Keyword::Int), Token::Keyword(Keyword::Float)]
}

/// The diagnostic for a token that the grammar does not allow at the
/// position looked at last.
pub open spec fn unexpected(p: ParserView, expected: Seq<Token>, found: Token) -> ErrorView {
    CompilationError::parsing_error_view(
        p.line,
        p.column,
        ParsingErrorView::UnexpectedToken { expected, found },
    )
}

/// The message for an operator token whose text spells no operator.
pub open spec fn bad_operator_message(lexeme: Seq<char>) -> Seq<char> {
    "Could not parse lexeme as an operator: "@ + lexeme
}

/// The message for a number token whose text is no literal.
pub open spec fn bad_literal_message(lexeme: Seq<char>) -> Seq<char> {
    "Could not parse literal: "@ + lexeme
}

/// The message for a cast token whose text is none of the two casts.
pub open spec fn bad_cast_message(lexeme: Seq<char>, line: nat, column: nat) -> Seq<char> {
    "Lexer mistakenly parsed "@ + lexeme + " as CAST token. Line "@ + decimal(line) + " Column "@
        + decimal(column)
}

/// The state with more code at its end.
pub open spec fn emit(p: ParserView, code: Seq<char>) -> ParserView {
    ParserView { code: p.code + code, ..p }
}

/// Looks at the next token and remembers its position.
pub open spec fn lookahead_model(tokens: Seq<TokenView>, p: ParserView) -> (
    ParserView,
    Result<TokenView, ErrorView>,
) {
    if p.ptr < tokens.len() {
        let t = tokens[p.ptr as int];
        (ParserView { line: t.line, column: t.column, ..p }, Ok(t))
    } else {
        (p, Err(CompilationError::unexpected_eof_view()))
    }
}

/// Whether the next token is `tok`; false at the end of the input.
pub open spec fn is_lookahead_model(tokens: Seq<TokenView>, p: ParserView, tok: Token) -> (
    ParserView,
    bool,
) {
    let (st1, r) = lookahead_model(tokens, p);
    (
        st1,
        match r {
            Ok(t) => t.token == tok,
            Err(_) => false,
        },
    )
}

/// Consumes the next token where it is `tok`, and gives its text.
pub open spec fn match_tok_model(tokens: Seq<TokenView>, p: ParserView, tok: Token) -> (
    ParserView,
    Result<Seq<char>, ErrorView>,
) {
    let (st1, r) = lookahead_model(tokens, p);
    match r {
        Err(e) => (st1, Err(e)),
        Ok(t) => if t.token == tok {
            (ParserView { ptr: st1.ptr + 1, ..st1 }, Ok(t.lexeme))
        } else {
            (st1, Err(unexpected(st1, seq![tok], t.token)))
        },
    }
}

/// `'int' | 'float'`
pub open spec fn type_model(tokens: Seq<TokenView>, p: ParserView) -> (
    ParserView,
    Result<VarType, ErrorView>,
) {
    let (st1, r) = lookahead_model(tokens, p);
    match r {
        Err(e) => (st1, Err(e)),
        Ok(t) => if t.token == Token::Keyword(Keyword::Int) {
            (ParserView { ptr: st1.ptr + 1, ..st1 }, Ok(VarType::Int))
        } else if t.token == Token::Keyword(Keyword::Float) {
            (ParserView { ptr: st1.ptr + 1, ..st1 }, Ok(VarType::Float))
        } else {
            (st1, Err(unexpected(st1, type_keywords(), t.token)))
        },
    }
}

/// The rest of an identifier list: `(',' ID)*`, after the names in `acc`.
pub open spec fn id_list_rest_model(tokens: Seq<TokenView>, p: ParserView, acc: Seq<Seq<char>>) -> (
    ParserView,
    Result<Seq<Seq<char>>, ErrorView>,
)
    decreases tokens.len() - p.ptr,
{
    let (st1, comma) = match_tok_model(tokens, p, Token::Symbol(Symbol::Comma));
    match comma {
        Err(_) => (st1, Ok(acc)),
        Ok(_) => {
            let (st2, id) = match_tok_model(tokens, st1, Token::Additional(Additional::Ident));
            match id {
                Err(e) => (st2, Err(e)),
                Ok(name) => id_list_rest_model(tokens, st2, acc.push(name)),
            }
        },
    }
}

/// `ID (',' ID)*`
pub open spec fn id_list_model(tokens: Seq<TokenView>, p: ParserView) -> (
    ParserView,
    Result<Seq<Seq<char>>, ErrorView>,
) {
    let (st1, id) = match_tok_model(tokens, p, Token::Additional(Additional::Ident));
    match id {
        Err(e) => (st1, Err(e)),
        Ok(name) => id_list_rest_model(tokens, st1, seq![name]),
    }
}

/// The table after every name of `ids` was registered at type `ty`, in
/// order.
pub open spec fn register_all(vars: Seq<(Seq<char>, VarType)>, ids: Seq<Seq<char>>, ty: VarType) -> Seq<
    (Seq<char>, VarType),
>
    decreases ids.len(),
{
    if ids.len() == 0 {
        vars
    } else {
        register_all(register(vars, ids[0], ty), ids.drop_first(), ty)
    }
}

/// `identifier_list ':' type ';'`. The names are registered as soon as
/// the type is read.
pub open spec fn decleration_model(tokens: Seq<TokenView>, p: ParserView) -> (
    ParserView,
    Result<(), ErrorView>,
) {
    let (st1, ids) = id_list_model(tokens, p);
    match ids {
        Err(e) => (st1, Err(e)),
        Ok(ids) => {
            let (st2, colon) = match_tok_model(tokens, st1, Token::Symbol(Symbol::Colon));
            match colon {
                Err(e) => (st2, Err(e)),
                Ok(_) => {
                    let (st3, ty) = type_model(tokens, st2);
                    match ty {
                        Err(e) => (st3, Err(e)),
                        Ok(ty) => {
                            let st4 = ParserView {
                                gen: GenView { vars: register_all(st3.gen.vars, ids, ty), ..st3.gen },
                                ..st3
                            };
                            let (st5, semi) = match_tok_model(
                                tokens,
                                st4,
                                Token::Symbol(Symbol::SemiColon),
                            );
                            match semi {
                                Err(e) => (st5, Err(e)),
                                Ok(_) => (st5, Ok(())),
                            }
                        },
                    }
                },
            }
        },
    }
}

/// `(identifier_list ':' type ';')*`: declarations as long as the next
/// token is an identifier. The first that fails ends the rule.
///
/// The test `st2.ptr > p.ptr` holds of every successful declaration, as
/// the lemmas at the end of this file show; it
/// stands here so that the definition is well founded.
pub open spec fn declerations_model(tokens: Seq<TokenView>, p: ParserView) -> (
    ParserView,
    Result<(), ErrorView>,
)
    decreases tokens.len() - p.ptr,
{
    let (st1, is_id) = is_lookahead_model(tokens, p, Token::Additional(Additional::Ident));
    if !is_id {
        (st1, Ok(()))
    } else {
        let (st2, d) = decleration_model(tokens, st1);
        match d {
            Err(e) => (st2, Err(e)),
            Ok(_) => if st2.ptr > p.ptr {
                declerations_model(tokens, st2)
            } else {
                (st2, Ok(()))
            },
        }
    }
}

/// `ID` as an expression: the variable must be registered.
pub open spec fn id_expr_model(tokens: Seq<TokenView>, p: ParserView) -> (
    ParserView,
    Result<ExprView, ErrorView>,
) {
    let (st1, id) = match_tok_model(tokens, p, Token::Additional(Additional::Ident));
    match id {
        Err(e) => (st1, Err(e)),
        Ok(name) => match var_type_of(st1.gen.vars, name) {
            Err(e) => (st1, Err(CompilationError::codegen_error_view(st1.line, st1.column, e))),
            Ok(ty) => (
                st1,
                Ok(ExprView { ty, code_ref: RefView::VarName(name), code: Seq::empty() }),
            ),
        },
    }
}

/// What a number's text denotes: a float where it holds a point, an
/// integer otherwise; nothing where the text is no literal of that kind.
pub open spec fn literal_of(lexeme: Seq<char>) -> Option<ExprView> {
    if first_index_from(lexeme, '.', 0) < lexeme.len() {
        match float_literal_text(lexeme) {
            Some(text) => Some(
                ExprView {
                    ty: VarType::Float,
                    code_ref: RefView::FloatLiteral(text),
                    code: Seq::empty(),
                },
            ),
            None => None,
        }
    } else {
        match int_literal_value(lexeme) {
            Some(v) => Some(
                ExprView {
                    ty: VarType::Int,
                    code_ref: RefView::IntLiteral(v as int),
                    code: Seq::empty(),
                },
            ),
            None => None,
        }
    }
}

/// `NUMBER`
pub open spec fn num_expr_model(tokens: Seq<TokenView>, p: ParserView) -> (
    ParserView,
    Result<ExprView, ErrorView>,
) {
    let (st1, num) = match_tok_model(tokens, p, Token::Additional(Additional::Num));
    match num {
        Err(e) => (st1, Err(e)),
        Ok(lexeme) => match literal_of(lexeme) {
            Some(e) => (st1, Ok(e)),
            None => (st1, Err(CompilationError::internal_error_view(bad_literal_message(lexeme)))),
        },
    }
}

/// The type that a cast's text names.
pub open spec fn cast_type_of(lexeme: Seq<char>) -> Option<VarType> {
    if lexeme == "static_cast<int>"@ {
        Some(VarType::Int)
    } else if lexeme == "static_cast<float>"@ {
        Some(VarType::Float)
    } else {
        None
    }
}

/// `cast '(' expression ')'`
pub open spec fn cast_expr_model(tokens: Seq<TokenView>, p: ParserView) -> (
    ParserView,
    Result<ExprView, ErrorView>,
)
    decreases tokens.len() - p.ptr, 0nat,
{
    let (st1, cast) = match_tok_model(tokens, p, Token::Operator(Operator::CAST));
    match cast {
        Err(e) => (st1, Err(e)),
        Ok(lexeme) => match cast_type_of(lexeme) {
            None => (
                st1,
                Err(
                    CompilationError::internal_error_view(
                        bad_cast_message(lexeme, st1.line, st1.column),
                    ),
                ),
            ),
            Some(ty) => {
                let (st2, open) = match_tok_model(tokens, st1, Token::Symbol(Symbol::LParen));
                match open {
                    Err(e) => (st2, Err(e)),
                    Ok(_) => {
                        let (st3, inner) = expression_model(tokens, st2);
                        match inner {
                            Err(e) => (st3, Err(e)),
                            Ok(inner) => {
                                let (st4, close) = match_tok_model(
                                    tokens,
                                    st3,
                                    Token::Symbol(Symbol::RParen),
                                );
                                match close {
                                    Err(e) => (st4, Err(e)),
                                    Ok(_) => {
                                        let (e, g) = cast_model(ty, inner, st4.gen);
                                        (ParserView { gen: g, ..st4 }, Ok(e))
                                    },
                                }
                            },
                        }
                    },
                }
            },
        },
    }
}

/// `'(' expression ')' | cast '(' expression ')' | ID | NUMBER`
///
/// After a bracketed expression the closing bracket is looked for even
/// where the expression failed, and a missing bracket is then what is
/// diagnosed.
pub open spec fn factor_model(tokens: Seq<TokenView>, p: ParserView) -> (
    ParserView,
    Result<ExprView, ErrorView>,
)
    decreases tokens.len() - p.ptr, 1nat,
{
    let (st1, r) = lookahead_model(tokens, p);
    match r {
        Err(e) => (st1, Err(e)),
        Ok(t) => if t.token == Token::Operator(Operator::CAST) {
            cast_expr_model(tokens, st1)
        } else if t.token == Token::Additional(Additional::Ident) {
            id_expr_model(tokens, st1)
        } else if t.token == Token::Additional(Additional::Num) {
            num_expr_model(tokens, st1)
        } else if t.token == Token::Symbol(Symbol::LParen) {
            let st2 = ParserView { ptr: st1.ptr + 1, ..st1 };
            let (st3, inner) = expression_model(tokens, st2);
            let (st4, close) = match_tok_model(tokens, st3, Token::Symbol(Symbol::RParen));
            match close {
                Err(e) => (st4, Err(e)),
                Ok(_) => (st4, inner),
            }
        } else {
            (st1, Err(unexpected(st1, factor_starters(), t.token)))
        },
    }
}

/// `factor (('*'|'/') term)?`: operators of one level group to the right.
///
/// The test `st2.ptr > p.ptr` always holds, as the lemmas at the end of
/// this file show; it stands here so that the
/// definition is well founded.
pub open spec fn term_model(tokens: Seq<TokenView>, p: ParserView) -> (
    ParserView,
    Result<ExprView, ErrorView>,
)
    decreases tokens.len() - p.ptr, 2nat,
{
    let (st1, left) = factor_model(tokens, p);
    match left {
        Err(e) => (st1, Err(e)),
        Ok(left) => {
            let (st2, op) = match_tok_model(tokens, st1, Token::Operator(Operator::MULOP));
            match op {
                Err(_) => (st2, Ok(left)),
                Ok(lexeme) => match binary_op_of(lexeme) {
                    None => (
                        st2,
                        Err(CompilationError::internal_error_view(bad_operator_message(lexeme))),
                    ),
                    Some(binop) => if st2.ptr > p.ptr {
                        let (st3, right) = term_model(tokens, st2);
                        match right {
                            Err(e) => (st3, Err(e)),
                            Ok(right) => {
                                let (e, g) = binary_op_model(left, right, binop, st3.gen);
                                (ParserView { gen: g, ..st3 }, Ok(e))
                            },
                        }
                    } else {
                        (st2, Ok(left))
                    },
                },
            }
        },
    }
}

/// `term (('+'|'-') expression)?`: operators of one level group to the
/// right.
///
/// The test `st2.ptr > p.ptr` always holds, as the lemmas at the end of
/// this file show; it stands here so that the
/// definition is well founded.
pub open spec fn expression_model(tokens: Seq<TokenView>, p: ParserView) -> (
    ParserView,
    Result<ExprView, ErrorView>,
)
    decreases tokens.len() - p.ptr, 3nat,
{
    let (st1, left) = term_model(tokens, p);
    match left {
        Err(e) => (st1, Err(e)),
        Ok(left) => {
            let (st2, op) = match_tok_model(tokens, st1, Token::Operator(Operator::ADDOP));
            match op {
                Err(_) => (st2, Ok(left)),
                Ok(lexeme) => match binary_op_of(lexeme) {
                    None => (
                        st2,
                        Err(CompilationError::internal_error_view(bad_operator_message(lexeme))),
                    ),
                    Some(binop) => if st2.ptr > p.ptr {
                        let (st3, right) = expression_model(tokens, st2);
                        match right {
                            Err(e) => (st3, Err(e)),
                            Ok(right) => {
                                let (e, g) = binary_op_model(left, right, binop, st3.gen);
                                (ParserView { gen: g, ..st3 }, Ok(e))
                            },
                        }
                    } else {
                        (st2, Ok(left))
                    },
                },
            }
        },
    }
}

/// `'!' '(' boolexpr ')' | expression RELOP expression`
///
/// The test `st3.ptr > p.ptr` always holds, as the lemmas at the end of
/// this file show; it stands here so that the
/// definition is well founded.
pub open spec fn boolfactor_model(tokens: Seq<TokenView>, p: ParserView) -> (
    ParserView,
    Result<BoolView, ErrorView>,
)
    decreases tokens.len() - p.ptr, 4nat,
{
    let (st1, r) = lookahead_model(tokens, p);
    match r {
        Err(e) => (st1, Err(e)),
        Ok(t) => if t.token == Token::Operator(Operator::NOT) {
            let st2 = ParserView { ptr: st1.ptr + 1, ..st1 };
            let (st3, open) = match_tok_model(tokens, st2, Token::Symbol(Symbol::LParen));
            match open {
                Err(e) => (st3, Err(e)),
                Ok(_) => {
                    let (st4, inner) = boolexpr_model(tokens, st3);
                    match inner {
                        Err(e) => (st4, Err(e)),
                        Ok(inner) => {
                            let (st5, close) = match_tok_model(
                                tokens,
                                st4,
                                Token::Symbol(Symbol::RParen),
                            );
                            match close {
                                Err(e) => (st5, Err(e)),
                                Ok(_) => {
                                    let (b, g) = not_model(inner, st5.gen);
                                    (ParserView { gen: g, ..st5 }, Ok(b))
                                },
                            }
                        },
                    }
                },
            }
        } else {
            let (st2, left) = expression_model(tokens, st1);
            match left {
                Err(e) => (st2, Err(e)),
                Ok(left) => {
                    let (st3, op) = match_tok_model(tokens, st2, Token::Operator(Operator::RELOP));
                    match op {
                        Err(e) => (st3, Err(e)),
                        Ok(lexeme) => if st3.ptr > p.ptr {
                            let (st4, right) = expression_model(tokens, st3);
                            match right {
                                Err(e) => (st4, Err(e)),
                                Ok(right) => match rel_op_of(lexeme) {
                                    None => (
                                        st4,
                                        Err(
                                            CompilationError::internal_error_view(
                                                bad_operator_message(lexeme),
                                            ),
                                        ),
                                    ),
                                    Some(relop) => {
                                        let (b, g) = relop_model(left, right, relop, st4.gen);
                                        (ParserView { gen: g, ..st4 }, Ok(b))
                                    },
                                },
                            }
                        } else {
                            (st3, Err(CompilationError::unexpected_eof_view()))
                        },
                    }
                },
            }
        },
    }
}

/// `boolfactor ('&&' boolterm)?`
///
/// The test `st2.ptr > p.ptr` always holds, as the lemmas at the end of
/// this file show; it stands here so that the
/// definition is well founded.
pub open spec fn boolterm_model(tokens: Seq<TokenView>, p: ParserView) -> (
    ParserView,
    Result<BoolView, ErrorView>,
)
    decreases tokens.len() - p.ptr, 5nat,
{
    let (st1, left) = boolfactor_model(tokens, p);
    match left {
        Err(e) => (st1, Err(e)),
        Ok(left) => {
            let (st2, op) = match_tok_model(tokens, st1, Token::Operator(Operator::AND));
            match op {
                Err(_) => (st2, Ok(left)),
                Ok(_) => if st2.ptr > p.ptr {
                    let (st3, right) = boolterm_model(tokens, st2);
                    match right {
                        Err(e) => (st3, Err(e)),
                        Ok(right) => {
                            let (b, g) = and_model(left, right, st3.gen);
                            (ParserView { gen: g, ..st3 }, Ok(b))
                        },
                    }
                } else {
                    (st2, Ok(left))
                },
            }
        },
    }
}

/// `boolterm ('||' boolexpr)?`
///
/// The test `st2.ptr > p.ptr` always holds, as the lemmas at the end of
/// this file show; it stands here so that the
/// definition is well founded.
pub open spec fn boolexpr_model(tokens: Seq<TokenView>, p: ParserView) -> (
    ParserView,
    Result<BoolView, ErrorView>,
)
    decreases tokens.len() - p.ptr, 6nat,
{
    let (st1, left) = boolterm_model(tokens, p);
    match left {
        Err(e) => (st1, Err(e)),
        Ok(left) => {
            let (st2, op) = match_tok_model(tokens, st1, Token::Operator(Operator::OR));
            match op {
                Err(_) => (st2, Ok(left)),
                Ok(_) => if st2.ptr > p.ptr {
                    let (st3, right) = boolexpr_model(tokens, st2);
                    match right {
                        Err(e) => (st3, Err(e)),
                        Ok(right) => {
                            let (b, g) = or_model(left, right, st3.gen);
                            (ParserView { gen: g, ..st3 }, Ok(b))
                        },
                    }
                } else {
                    (st2, Ok(left))
                },
            }
        },
    }
}

/// `'input' '(' ID ')' ';'`
pub open spec fn input_stmt_model(tokens: Seq<TokenView>, p: ParserView) -> (
    ParserView,
    Result<(), ErrorView>,
) {
    let (st1, kw) = match_tok_model(tokens, p, Token::Keyword(Keyword::Input));
    match kw {
        Err(e) => (st1, Err(e)),
        Ok(_) => {
            let (st2, open) = match_tok_model(tokens, st1, Token::Symbol(Symbol::LParen));
            match open {
                Err(e) => (st2, Err(e)),
                Ok(_) => {
                    let (st3, id) = match_tok_model(
                        tokens,
                        st2,
                        Token::Additional(Additional::Ident),
                    );
                    match id {
                        Err(e) => (st3, Err(e)),
                        Ok(name) => {
                            let (st4, close) = match_tok_model(
                                tokens,
                                st3,
                                Token::Symbol(Symbol::RParen),
                            );
                            match close {
                                Err(e) => (st4, Err(e)),
                                Ok(_) => {
                                    let (st5, semi) = match_tok_model(
                                        tokens,
                                        st4,
                                        Token::Symbol(Symbol::SemiColon),
                                    );
                                    match semi {
                                        Err(e) => (st5, Err(e)),
                                        Ok(_) => match input_stmt_text(st5.gen.vars, name) {
                                            Err(e) => (
                                                st5,
                                                Err(
                                                    CompilationError::codegen_error_view(
                                                        st5.line,
                                                        st5.column,
                                                        e,
                                                    ),
                                                ),
                                            ),
                                            Ok(code) => (emit(st5, code), Ok(())),
                                        },
                                    }
                                },
                            }
                        },
                    }
                },
            }
        },
    }
}

/// `'output' '(' expression ')' ';'`
pub open spec fn output_stmt_model(tokens: Seq<TokenView>, p: ParserView) -> (
    ParserView,
    Result<(), ErrorView>,
) {
    let (st1, kw) = match_tok_model(tokens, p, Token::Keyword(Keyword::Output));
    match kw {
        Err(e) => (st1, Err(e)),
        Ok(_) => {
            let (st2, open) = match_tok_model(tokens, st1, Token::Symbol(Symbol::LParen));
            match open {
                Err(e) => (st2, Err(e)),
                Ok(_) => {
                    let (st3, value) = expression_model(tokens, st2);
                    match value {
                        Err(e) => (st3, Err(e)),
                        Ok(value) => {
                            let (st4, close) = match_tok_model(
                                tokens,
                                st3,
                                Token::Symbol(Symbol::RParen),
                            );
                            match close {
                                Err(e) => (st4, Err(e)),
                                Ok(_) => {
                                    let (st5, semi) = match_tok_model(
                                        tokens,
                                        st4,
                                        Token::Symbol(Symbol::SemiColon),
                                    );
                                    match semi {
                                        Err(e) => (st5, Err(e)),
                                        Ok(_) => match output_stmt_text(st5.gen.vars, value) {
                                            Err(e) => (
                                                st5,
                                                Err(
                                                    CompilationError::codegen_error_view(
                                                        st5.line,
                                                        st5.column,
                                                        e,
                                                    ),
                                                ),
                                            ),
                                            Ok(code) => (emit(st5, code), Ok(())),
                                        },
                                    }
                                },
                            }
                        },
                    }
                },
            }
        },
    }
}

/// `ID '=' expression ';'`
pub open spec fn assignment_stmt_model(tokens: Seq<TokenView>, p: ParserView) -> (
    ParserView,
    Result<(), ErrorView>,
) {
    let (st1, target) = id_expr_model(tokens, p);
    match target {
        Err(e) => (st1, Err(e)),
        Ok(target) => {
            let (st2, eq) = match_tok_model(tokens, st1, Token::Symbol(Symbol::Equals));
            match eq {
                Err(e) => (st2, Err(e)),
                Ok(_) => {
                    let (st3, value) = expression_model(tokens, st2);
                    match value {
                        Err(e) => (st3, Err(e)),
                        Ok(value) => {
                            let (st4, semi) = match_tok_model(
                                tokens,
                                st3,
                                Token::Symbol(Symbol::SemiColon),
                            );
                            match semi {
                                Err(e) => (st4, Err(e)),
                                Ok(_) => match assignment_stmt_text(
                                    st4.gen.vars,
                                    ref_text(target.code_ref),
                                    value,
                                ) {
                                    Err(e) => (
                                        st4,
                                        Err(
                                            CompilationError::codegen_error_view(
                                                st4.line,
                                                st4.column,
                                                e,
                                            ),
                                        ),
                                    ),
                                    Ok(code) => (emit(st4, code), Ok(())),
                                },
                            }
                        },
                    }
                },
            }
        },
    }
}

/// The state after the head of an `if` or a `while`: the keyword, and a
/// condition in brackets.
pub open spec fn condition_model(tokens: Seq<TokenView>, p: ParserView, keyword: Token) -> (
    ParserView,
    Result<BoolView, ErrorView>,
) {
    let (st1, kw) = match_tok_model(tokens, p, keyword);
    match kw {
        Err(e) => (st1, Err(e)),
        Ok(_) => {
            let (st2, open) = match_tok_model(tokens, st1, Token::Symbol(Symbol::LParen));
            match open {
                Err(e) => (st2, Err(e)),
                Ok(_) => {
                    let (st3, cond) = boolexpr_model(tokens, st2);
                    match cond {
                        Err(e) => (st3, Err(e)),
                        Ok(cond) => {
                            let (st4, close) = match_tok_model(
                                tokens,
                                st3,
                                Token::Symbol(Symbol::RParen),
                            );
                            match close {
                                Err(e) => (st4, Err(e)),
                                Ok(_) => (st4, Ok(cond)),
                            }
                        },
                    }
                },
            }
        },
    }
}

/// The generator after two more labels.
pub open spec fn with_two_labels(p: ParserView) -> ParserView {
    ParserView { gen: GenView { labels: p.gen.labels + 2, ..p.gen }, ..p }
}

/// `'if' '(' boolexpr ')' stmt 'else' stmt`, lowered to
///
/// ```text
/// <condition>; JMPZ L_else r; <then>; JUMP L_post; L_else:; <else>; L_post:
/// ```
///
/// The tests on `ptr` always hold, as the lemmas at the
/// end of this file show; they stand here so that the definition
/// is well founded.
pub open spec fn if_stmt_model(tokens: Seq<TokenView>, p: ParserView) -> (
    ParserView,
    Result<(), ErrorView>,
)
    decreases tokens.len() - p.ptr, 1nat,
{
    let (st1, cond) = condition_model(tokens, p, Token::Keyword(Keyword::If));
    match cond {
        Err(e) => (st1, Err(e)),
        Ok(cond) => {
            let else_label = st1.gen.labels;
            let post_label = st1.gen.labels + 1;
            let st2 = emit(
                emit(with_two_labels(st1), cond.code),
                jump_if_false_text(else_label, cond.code_ref),
            );
            if st2.ptr > p.ptr {
                let (st3, then_stmt) = stmt_model(tokens, st2);
                match then_stmt {
                    Err(e) => (st3, Err(e)),
                    Ok(_) => {
                        let (st4, kw) = match_tok_model(tokens, st3, Token::Keyword(Keyword::Else));
                        match kw {
                            Err(e) => (st4, Err(e)),
                            Ok(_) => {
                                let st5 = emit(
                                    emit(st4, jump_text(post_label)),
                                    label_decl_text(else_label),
                                );
                                if st5.ptr > p.ptr {
                                    let (st6, else_stmt) = stmt_model(tokens, st5);
                                    match else_stmt {
                                        Err(e) => (st6, Err(e)),
                                        Ok(_) => (emit(st6, label_decl_text(post_label)), Ok(())),
                                    }
                                } else {
                                    (st5, Ok(()))
                                }
                            },
                        }
                    },
                }
            } else {
                (st2, Ok(()))
            }
        },
    }
}

/// `'while' '(' boolexpr ')' stmt`, lowered to
///
/// ```text
/// L_loop:; <condition>; JMPZ L_break r; <body>; JUMP L_loop; L_break:
/// ```
///
/// The test on `ptr` always holds, as the lemmas at the end of
/// this file show; it stands here so that the definition
/// is well founded.
pub open spec fn while_stmt_model(tokens: Seq<TokenView>, p: ParserView) -> (
    ParserView,
    Result<(), ErrorView>,
)
    decreases tokens.len() - p.ptr, 1nat,
{
    let (st1, cond) = condition_model(tokens, p, Token::Keyword(Keyword::While));
    match cond {
        Err(e) => (st1, Err(e)),
        Ok(cond) => {
            let loop_label = st1.gen.labels;
            let break_label = st1.gen.labels + 1;
            let st2 = emit(
                emit(emit(with_two_labels(st1), label_decl_text(loop_label)), cond.code),
                jump_if_false_text(break_label, cond.code_ref),
            );
            if st2.ptr > p.ptr {
                let (st3, body) = stmt_model(tokens, st2);
                match body {
                    Err(e) => (st3, Err(e)),
                    Ok(_) => (
                        emit(emit(st3, jump_text(loop_label)), label_decl_text(break_label)),
                        Ok(()),
                    ),
                }
            } else {
                (st2, Ok(()))
            }
        },
    }
}

/// `assignment | input_stmt | output_stmt | if_stmt | while_stmt | stmt_block`,
/// chosen by the next token.
pub open spec fn stmt_model(tokens: Seq<TokenView>, p: ParserView) -> (
    ParserView,
    Result<(), ErrorView>,
)
    decreases tokens.len() - p.ptr, 2nat,
{
    let (st1, r) = lookahead_model(tokens, p);
    match r {
        Err(e) => (st1, Err(e)),
        Ok(t) => if t.token == Token::Additional(Additional::Ident) {
            assignment_stmt_model(tokens, st1)
        } else if t.token == Token::Keyword(Keyword::Input) {
            input_stmt_model(tokens, st1)
        } else if t.token == Token::Keyword(Keyword::Output) {
            output_stmt_model(tokens, st1)
        } else if t.token == Token::Keyword(Keyword::While) {
            while_stmt_model(tokens, st1)
        } else if t.token == Token::Keyword(Keyword::If) {
            if_stmt_model(tokens, st1)
        } else if t.token == Token::Symbol(Symbol::LCurly) {
            stmt_block_model(tokens, st1)
        } else {
            (st1, Err(unexpected(st1, stmt_starters(), t.token)))
        },
    }
}

/// `'{' stmt* '}'`
pub open spec fn stmt_block_model(tokens: Seq<TokenView>, p: ParserView) -> (
    ParserView,
    Result<(), ErrorView>,
)
    decreases tokens.len() - p.ptr, 1nat,
{
    let (st1, open) = match_tok_model(tokens, p, Token::Symbol(Symbol::LCurly));
    match open {
        Err(e) => (st1, Err(e)),
        Ok(_) => {
            let (st2, list) = stmtlist_model(tokens, st1);
            match list {
                Err(e) => (st2, Err(e)),
                Ok(_) => {
                    let (st3, close) = match_tok_model(tokens, st2, Token::Symbol(Symbol::RCurly));
                    match close {
                        Err(e) => (st3, Err(e)),
                        Ok(_) => (st3, Ok(())),
                    }
                },
            }
        },
    }
}

/// The first place at or after `from` that holds a token which can start
/// a statement.
pub open spec fn next_stmt_start(tokens: Seq<TokenView>, from: nat) -> Option<nat>
    decreases tokens.len() - from,
{
    if from >= tokens.len() {
        None
    } else if is_stmt_start(tokens[from as int].token) {
        Some(from)
    } else {
        next_stmt_start(tokens, from + 1)
    }
}

/// `stmt*` up to a closing brace, with recovery: where a statement fails
/// and a later token can start a statement, the diagnostic is recorded and
/// parsing goes on there; where no such token is left, the failure ends
/// the rule.
///
/// The tests on `ptr` and on `next` always hold, as the lemmas at the
/// end of this file show; they stand here so that
/// the definition is well founded.
pub open spec fn stmtlist_model(tokens: Seq<TokenView>, p: ParserView) -> (
    ParserView,
    Result<(), ErrorView>,
)
    decreases tokens.len() - p.ptr, 3nat,
{
    let (st1, at_end) = is_lookahead_model(tokens, p, Token::Symbol(Symbol::RCurly));
    if at_end {
        (st1, Ok(()))
    } else {
        let (st2, stmt) = stmt_model(tokens, st1);
        match stmt {
            Ok(_) => if p.ptr < st2.ptr <= tokens.len() {
                stmtlist_model(tokens, st2)
            } else {
                (st2, Ok(()))
            },
            Err(e) => match next_stmt_start(tokens, st2.ptr) {
                None => (st2, Err(e)),
                Some(next) => if p.ptr < next <= tokens.len() {
                    stmtlist_model(
                        tokens,
                        ParserView { ptr: next, errors: st2.errors.push(e), ..st2 },
                    )
                } else {
                    (st2, Err(e))
                },
            },
        }
    }
}

/// The state after the outcome of a rule was noted: a failure joins the
/// recorded diagnostics.
pub open spec fn cache_error(p: ParserView, r: Result<(), ErrorView>) -> ParserView {
    match r {
        Ok(_) => p,
        Err(e) => ParserView { errors: p.errors.push(e), ..p },
    }
}

/// The state after a whole program: `declarations stmt_block`, then the
/// final `HALT`. A failure of the declarations is recorded and ends the
/// parse; a failure that leaves the block is recorded too.
pub open spec fn program_state(tokens: Seq<TokenView>, p: ParserView) -> ParserView {
    let (st1, decls) = declerations_model(tokens, p);
    match decls {
        Err(_) => cache_error(st1, decls),
        Ok(_) => {
            let (st2, block) = stmt_block_model(tokens, st1);
            emit(cache_error(st2, block), "HALT"@)
        },
    }
}

/// What compiling a program gives: the emitted code where no diagnostic
/// was recorded, else all diagnostics in the order in which they were
/// found.
pub open spec fn program_model(tokens: Seq<TokenView>, p: ParserView) -> Result<
    Seq<char>,
    Seq<ErrorView>,
> {
    let end = program_state(tokens, p);
    if end.errors.len() == 0 {
        Ok(end.code)
    } else {
        Err(end.errors)
    }
}

/// The state in which parsing starts.
pub open spec fn initial_state() -> ParserView {
    ParserView {
        code: Seq::empty(),
        ptr: 0,
        gen: GenView { labels: 0, temps: 0, vars: Seq::empty() },
        line: 1,
        column: 0,
        errors: Seq::empty(),
    }
}

/// Nothing below a statement is recovered: where the declarations fail,
/// the program's outcome is that one diagnostic.
pub proof fn lemma_declaration_failure(tokens: Seq<TokenView>)
    requires
        declerations_model(tokens, initial_state()).1 is Err,
    ensures
        program_model(tokens, initial_state()) == Err::<Seq<char>, Seq<ErrorView>>(
            seq![declerations_model(tokens, initial_state()).1->Err_0],
        ),
{
    let (st1, decls) = declerations_model(tokens, initial_state());
    lemma_declerations_keep_errors(tokens, initial_state());
    assert(st1.errors.push(decls->Err_0) =~= seq![decls->Err_0]);
}

/// Declarations record no diagnostic themselves.
pub proof fn lemma_declerations_keep_errors(tokens: Seq<TokenView>, p: ParserView)
    ensures
        declerations_model(tokens, p).0.errors == p.errors,
    decreases tokens.len() - p.ptr,
{
    let (st1, is_id) = is_lookahead_model(tokens, p, Token::Additional(Additional::Ident));
    if is_id {
        let (st2, d) = decleration_model(tokens, st1);
        lemma_id_list_keeps_errors(
            tokens,
            match_tok_model(tokens, st1, Token::Additional(Additional::Ident)).0,
            seq![match_tok_model(tokens, st1, Token::Additional(Additional::Ident)).1->Ok_0],
        );
        if d is Ok && st2.ptr > p.ptr {
            lemma_declerations_keep_errors(tokens, st2);
        }
    }
}

/// An identifier list records no diagnostic.
pub proof fn lemma_id_list_keeps_errors(tokens: Seq<TokenView>, p: ParserView, acc: Seq<Seq<char>>)
    ensures
        id_list_rest_model(tokens, p, acc).0.errors == p.errors,
    decreases tokens.len() - p.ptr,
{
    let (st1, comma) = match_tok_model(tokens, p, Token::Symbol(Symbol::Comma));
    if comma is Ok {
        let (st2, id) = match_tok_model(tokens, st1, Token::Additional(Additional::Ident));
        if id is Ok {
            lemma_id_list_keeps_errors(tokens, st2, acc.push(id->Ok_0));
        }
    }
}

/// The outcome `out` of a rule that started in `p` lies at or after `p`
/// and inside the tokens, and after `p` where the rule succeeded.
pub open spec fn advanced<T>(
    tokens: Seq<TokenView>,
    p: ParserView,
    out: (ParserView, Result<T, ErrorView>),
) -> bool {
    p.ptr <= out.0.ptr <= tokens.len() && (out.1 is Ok ==> out.0.ptr > p.ptr)
}

/// The rest of an identifier list only moves forward and stays inside the
/// tokens.
pub proof fn lemma_id_list_rest_advances(
    tokens: Seq<TokenView>,
    p: ParserView,
    acc: Seq<Seq<char>>,
)
    requires
        p.ptr <= tokens.len(),
    ensures
        p.ptr <= id_list_rest_model(tokens, p, acc).0.ptr <= tokens.len(),
    decreases tokens.len() - p.ptr,
{
    let (st1, comma) = match_tok_model(tokens, p, Token::Symbol(Symbol::Comma));
    if comma is Ok {
        let (st2, id) = match_tok_model(tokens, st1, Token::Additional(Additional::Ident));
        if id is Ok {
            lemma_id_list_rest_advances(tokens, st2, acc.push(id->Ok_0));
        }
    }
}

/// A place found by [`next_stmt_start`] lies at or after the start, inside
/// the tokens, and holds a token that can start a statement.
pub proof fn lemma_next_stmt_start(tokens: Seq<TokenView>, from: nat)
    ensures
        next_stmt_start(tokens, from) matches Some(next) ==> from <= next < tokens.len()
            && is_stmt_start(tokens[next as int].token),
    decreases tokens.len() - from,
{
    if from < tokens.len() && !is_stmt_start(tokens[from as int].token) {
        lemma_next_stmt_start(tokens, from + 1);
    }
}

/// The rule `cast_expr_model` only moves forward, stays inside the tokens, and
/// consumes at least one token where it succeeds. It emits no code and
/// records no diagnostic itself.
pub proof fn lemma_cast_expr_advances(tokens: Seq<TokenView>, p: ParserView)
    requires
        p.ptr <= tokens.len(),
    ensures
        advanced(tokens, p, cast_expr_model(tokens, p)),
        cast_expr_model(tokens, p).0.errors == p.errors,
        cast_expr_model(tokens, p).0.code == p.code,
    decreases tokens.len() - p.ptr, 0nat,
{
    let (st1, cast) = match_tok_model(tokens, p, Token::Operator(Operator::CAST));
    if cast is Ok && cast_type_of(cast->Ok_0) is Some {
        let (st2, open) = match_tok_model(tokens, st1, Token::Symbol(Symbol::LParen));
        if open is Ok {
            lemma_expression_advances(tokens, st2);
        }
    }
}

/// The rule `factor_model` only moves forward, stays inside the tokens, and
/// consumes at least one token where it succeeds. It emits no code and
/// records no diagnostic itself.
pub proof fn lemma_factor_advances(tokens: Seq<TokenView>, p: ParserView)
    requires
        p.ptr <= tokens.len(),
    ensures
        advanced(tokens, p, factor_model(tokens, p)),
        factor_model(tokens, p).0.errors == p.errors,
        factor_model(tokens, p).0.code == p.code,
    decreases tokens.len() - p.ptr, 1nat,
{
    let (st1, r) = lookahead_model(tokens, p);
    if r is Ok {
        let t = r->Ok_0;
        if t.token == Token::Operator(Operator::CAST) {
            lemma_cast_expr_advances(tokens, st1);
        } else if t.token == Token::Symbol(Symbol::LParen) {
            lemma_expression_advances(tokens, ParserView { ptr: st1.ptr + 1, ..st1 });
        }
    }
}

/// The rule `term_model` only moves forward, stays inside the tokens, and
/// consumes at least one token where it succeeds. It emits no code and
/// records no diagnostic itself.
pub proof fn lemma_term_advances(tokens: Seq<TokenView>, p: ParserView)
    requires
        p.ptr <= tokens.len(),
    ensures
        advanced(tokens, p, term_model(tokens, p)),
        term_model(tokens, p).0.errors == p.errors,
        term_model(tokens, p).0.code == p.code,
    decreases tokens.len() - p.ptr, 2nat,
{
    lemma_factor_advances(tokens, p);
    let (st1, left) = factor_model(tokens, p);
    if left is Ok {
        let (st2, op) = match_tok_model(tokens, st1, Token::Operator(Operator::MULOP));
        if op is Ok && binary_op_of(op->Ok_0) is Some {
            lemma_term_advances(tokens, st2);
        }
    }
}

/// The rule `expression_model` only moves forward, stays inside the tokens, and
/// consumes at least one token where it succeeds. It emits no code and
/// records no diagnostic itself.
pub proof fn lemma_expression_advances(tokens: Seq<TokenView>, p: ParserView)
    requires
        p.ptr <= tokens.len(),
    ensures
        advanced(tokens, p, expression_model(tokens, p)),
        expression_model(tokens, p).0.errors == p.errors,
        expression_model(tokens, p).0.code == p.code,
    decreases tokens.len() - p.ptr, 3nat,
{
    lemma_term_advances(tokens, p);
    let (st1, left) = term_model(tokens, p);
    if left is Ok {
        let (st2, op) = match_tok_model(tokens, st1, Token::Operator(Operator::ADDOP));
        if op is Ok && binary_op_of(op->Ok_0) is Some {
            lemma_expression_advances(tokens, st2);
        }
    }
}

/// The rule `boolfactor_model` only moves forward, stays inside the tokens, and
/// consumes at least one token where it succeeds. It emits no code and
/// records no diagnostic itself.
pub proof fn lemma_boolfactor_advances(tokens: Seq<TokenView>, p: ParserView)
    requires
        p.ptr <= tokens.len(),
    ensures
        advanced(tokens, p, boolfactor_model(tokens, p)),
        boolfactor_model(tokens, p).0.errors == p.errors,
        boolfactor_model(tokens, p).0.code == p.code,
    decreases tokens.len() - p.ptr, 4nat,
{
    let (st1, r) = lookahead_model(tokens, p);
    if r is Ok {
        if r->Ok_0.token == Token::Operator(Operator::NOT) {
            let st2 = ParserView { ptr: st1.ptr + 1, ..st1 };
            let (st3, open) = match_tok_model(tokens, st2, Token::Symbol(Symbol::LParen));
            if open is Ok {
                lemma_boolexpr_advances(tokens, st3);
            }
        } else {
            lemma_expression_advances(tokens, st1);
            let (st2, left) = expression_model(tokens, st1);
            if left is Ok {
                let (st3, op) = match_tok_model(tokens, st2, Token::Operator(Operator::RELOP));
                if op is Ok {
                    lemma_expression_advances(tokens, st3);
                }
            }
        }
    }
}

/// The rule `boolterm_model` only moves forward, stays inside the tokens, and
/// consumes at least one token where it succeeds. It emits no code and
/// records no diagnostic itself.
pub proof fn lemma_boolterm_advances(tokens: Seq<TokenView>, p: ParserView)
    requires
        p.ptr <= tokens.len(),
    ensures
        advanced(tokens, p, boolterm_model(tokens, p)),
        boolterm_model(tokens, p).0.errors == p.errors,
        boolterm_model(tokens, p).0.code == p.code,
    decreases tokens.len() - p.ptr, 5nat,
{
    lemma_boolfactor_advances(tokens, p);
    let (st1, left) = boolfactor_model(tokens, p);
    if left is Ok {
        let (st2, op) = match_tok_model(tokens, st1, Token::Operator(Operator::AND));
        if op is Ok {
            lemma_boolterm_advances(tokens, st2);
        }
    }
}

/// The rule `boolexpr_model` only moves forward, stays inside the tokens, and
/// consumes at least one token where it succeeds. It emits no code and
/// records no diagnostic itself.
pub proof fn lemma_boolexpr_advances(tokens: Seq<TokenView>, p: ParserView)
    requires
        p.ptr <= tokens.len(),
    ensures
        advanced(tokens, p, boolexpr_model(tokens, p)),
        boolexpr_model(tokens, p).0.errors == p.errors,
        boolexpr_model(tokens, p).0.code == p.code,
    decreases tokens.len() - p.ptr, 6nat,
{
    lemma_boolterm_advances(tokens, p);
    let (st1, left) = boolterm_model(tokens, p);
    if left is Ok {
        let (st2, op) = match_tok_model(tokens, st1, Token::Operator(Operator::OR));
        if op is Ok {
            lemma_boolexpr_advances(tokens, st2);
        }
    }
}

/// The rule `condition_model` only moves forward, stays inside the tokens, and
/// consumes at least one token where it succeeds.
pub proof fn lemma_condition_advances(tokens: Seq<TokenView>, p: ParserView, keyword: Token)
    requires
        p.ptr <= tokens.len(),
    ensures
        advanced(tokens, p, condition_model(tokens, p, keyword)),
        condition_model(tokens, p, keyword).0.errors == p.errors,
        p.ptr < tokens.len() && tokens[p.ptr as int].token == keyword ==> condition_model(
            tokens,
            p,
            keyword,
        ).0.ptr > p.ptr,
{
    let (st1, kw) = match_tok_model(tokens, p, keyword);
    if kw is Ok {
        let (st2, open) = match_tok_model(tokens, st1, Token::Symbol(Symbol::LParen));
        if open is Ok {
            lemma_boolexpr_advances(tokens, st2);
        }
    }
}

/// The rule `input_stmt_model` only moves forward, stays inside the tokens, and
/// consumes at least one token where it succeeds. It records no diagnostic
/// itself.
pub proof fn lemma_input_stmt_advances(tokens: Seq<TokenView>, p: ParserView)
    requires
        p.ptr <= tokens.len(),
    ensures
        advanced(tokens, p, input_stmt_model(tokens, p)),
        input_stmt_model(tokens, p).0.errors == p.errors,
        p.ptr < tokens.len() && tokens[p.ptr as int].token == Token::Keyword(Keyword::Input) ==> input_stmt_model(tokens, p).0.ptr
            > p.ptr,
{
}

/// The rule `output_stmt_model` only moves forward, stays inside the tokens, and
/// consumes at least one token where it succeeds. It records no diagnostic
/// itself.
pub proof fn lemma_output_stmt_advances(tokens: Seq<TokenView>, p: ParserView)
    requires
        p.ptr <= tokens.len(),
    ensures
        advanced(tokens, p, output_stmt_model(tokens, p)),
        output_stmt_model(tokens, p).0.errors == p.errors,
        p.ptr < tokens.len() && tokens[p.ptr as int].token == Token::Keyword(Keyword::Output) ==> output_stmt_model(tokens, p).0.ptr
            > p.ptr,
{
    let (st1, kw) = match_tok_model(tokens, p, Token::Keyword(Keyword::Output));
    if kw is Ok {
        let (st2, open) = match_tok_model(tokens, st1, Token::Symbol(Symbol::LParen));
        if open is Ok {
            lemma_expression_advances(tokens, st2);
        }
    }
}

/// The rule `assignment_stmt_model` only moves forward, stays inside the tokens, and
/// consumes at least one token where it succeeds. It records no diagnostic
/// itself.
pub proof fn lemma_assignment_stmt_advances(tokens: Seq<TokenView>, p: ParserView)
    requires
        p.ptr <= tokens.len(),
    ensures
        advanced(tokens, p, assignment_stmt_model(tokens, p)),
        assignment_stmt_model(tokens, p).0.errors == p.errors,
        p.ptr < tokens.len() && tokens[p.ptr as int].token == Token::Additional(Additional::Ident) ==> assignment_stmt_model(tokens, p).0.ptr
            > p.ptr,
{
    let (st1, target) = id_expr_model(tokens, p);
    if target is Ok {
        let (st2, eq) = match_tok_model(tokens, st1, Token::Symbol(Symbol::Equals));
        if eq is Ok {
            lemma_expression_advances(tokens, st2);
        }
    }
}

/// The rule `if_stmt_model` only moves forward, stays inside the tokens, and
/// consumes at least one token where it succeeds.
pub proof fn lemma_if_stmt_advances(tokens: Seq<TokenView>, p: ParserView)
    requires
        p.ptr <= tokens.len(),
    ensures
        advanced(tokens, p, if_stmt_model(tokens, p)),
        p.ptr < tokens.len() && tokens[p.ptr as int].token == Token::Keyword(Keyword::If) ==> if_stmt_model(tokens, p).0.ptr
            > p.ptr,
    decreases tokens.len() - p.ptr, 1nat,
{
    lemma_condition_advances(tokens, p, Token::Keyword(Keyword::If));
    let (st1, cond) = condition_model(tokens, p, Token::Keyword(Keyword::If));
    if cond is Ok {
        let c = cond->Ok_0;
        let st2 = emit(
            emit(with_two_labels(st1), c.code),
            jump_if_false_text(st1.gen.labels, c.code_ref),
        );
        lemma_stmt_advances(tokens, st2);
        let (st3, then_stmt) = stmt_model(tokens, st2);
        if then_stmt is Ok {
            let (st4, kw) = match_tok_model(tokens, st3, Token::Keyword(Keyword::Else));
            if kw is Ok {
                let st5 = emit(
                    emit(st4, jump_text(st1.gen.labels + 1)),
                    label_decl_text(st1.gen.labels),
                );
                lemma_stmt_advances(tokens, st5);
            }
        }
    }
}

/// The rule `while_stmt_model` only moves forward, stays inside the tokens, and
/// consumes at least one token where it succeeds.
pub proof fn lemma_while_stmt_advances(tokens: Seq<TokenView>, p: ParserView)
    requires
        p.ptr <= tokens.len(),
    ensures
        advanced(tokens, p, while_stmt_model(tokens, p)),
        p.ptr < tokens.len() && tokens[p.ptr as int].token == Token::Keyword(Keyword::While) ==> while_stmt_model(tokens, p).0.ptr
            > p.ptr,
    decreases tokens.len() - p.ptr, 1nat,
{
    lemma_condition_advances(tokens, p, Token::Keyword(Keyword::While));
    let (st1, cond) = condition_model(tokens, p, Token::Keyword(Keyword::While));
    if cond is Ok {
        let c = cond->Ok_0;
        let st2 = emit(
            emit(emit(with_two_labels(st1), label_decl_text(st1.gen.labels)), c.code),
            jump_if_false_text(st1.gen.labels + 1, c.code_ref),
        );
        lemma_stmt_advances(tokens, st2);
    }
}

/// The rule `stmt_model` only moves forward, stays inside the tokens, and
/// consumes at least one token where it succeeds.
pub proof fn lemma_stmt_advances(tokens: Seq<TokenView>, p: ParserView)
    requires
        p.ptr <= tokens.len(),
    ensures
        advanced(tokens, p, stmt_model(tokens, p)),
        p.ptr < tokens.len() && is_stmt_start(tokens[p.ptr as int].token) ==> stmt_model(tokens, p).0.ptr
            > p.ptr,
    decreases tokens.len() - p.ptr, 2nat,
{
    let (st1, r) = lookahead_model(tokens, p);
    if r is Ok {
        let t = r->Ok_0;
        if t.token == Token::Additional(Additional::Ident) {
            lemma_assignment_stmt_advances(tokens, st1);
        } else if t.token == Token::Keyword(Keyword::Input) {
            lemma_input_stmt_advances(tokens, st1);
        } else if t.token == Token::Keyword(Keyword::Output) {
            lemma_output_stmt_advances(tokens, st1);
        } else if t.token == Token::Keyword(Keyword::While) {
            lemma_while_stmt_advances(tokens, st1);
        } else if t.token == Token::Keyword(Keyword::If) {
            lemma_if_stmt_advances(tokens, st1);
        } else if t.token == Token::Symbol(Symbol::LCurly) {
            lemma_stmt_block_advances(tokens, st1);
        }
    }
}

/// The rule `stmt_block_model` only moves forward, stays inside the tokens, and
/// consumes at least one token where it succeeds.
pub proof fn lemma_stmt_block_advances(tokens: Seq<TokenView>, p: ParserView)
    requires
        p.ptr <= tokens.len(),
    ensures
        advanced(tokens, p, stmt_block_model(tokens, p)),
        p.ptr < tokens.len() && tokens[p.ptr as int].token == Token::Symbol(Symbol::LCurly) ==> stmt_block_model(tokens, p).0.ptr
            > p.ptr,
    decreases tokens.len() - p.ptr, 1nat,
{
    let (st1, open) = match_tok_model(tokens, p, Token::Symbol(Symbol::LCurly));
    if open is Ok {
        lemma_stmtlist_advances(tokens, st1);
    }
}

/// A statement list only moves forward and stays inside the tokens. The
/// tests that its definition makes before it goes on never fail: after a
/// statement, and after a recovery, it stands further on than before.
pub proof fn lemma_stmtlist_advances(tokens: Seq<TokenView>, p: ParserView)
    requires
        p.ptr <= tokens.len(),
    ensures
        p.ptr <= stmtlist_model(tokens, p).0.ptr <= tokens.len(),
        ({
            let (st1, at_end) = is_lookahead_model(tokens, p, Token::Symbol(Symbol::RCurly));
            let (st2, stmt) = stmt_model(tokens, st1);
            !at_end ==> match stmt {
                Ok(_) => p.ptr < st2.ptr <= tokens.len(),
                Err(_) => match next_stmt_start(tokens, st2.ptr) {
                    Some(next) => p.ptr < next <= tokens.len(),
                    None => true,
                },
            }
        }),
    decreases tokens.len() - p.ptr, 3nat,
{
    let (st1, at_end) = is_lookahead_model(tokens, p, Token::Symbol(Symbol::RCurly));
    if !at_end {
        lemma_stmt_advances(tokens, st1);
        let (st2, stmt) = stmt_model(tokens, st1);
        match stmt {
            Ok(_) => {
                lemma_stmtlist_advances(tokens, st2);
            },
            Err(e) => {
                lemma_next_stmt_start(tokens, st2.ptr);
                match next_stmt_start(tokens, st2.ptr) {
                    Some(next) => {
                        lemma_stmtlist_advances(
                            tokens,
                            ParserView { ptr: next, errors: st2.errors.push(e), ..st2 },
                        );
                    },
                    None => {},
                }
            },
        }
    }
}

/// Declarations only move forward and stay inside the tokens.
pub proof fn lemma_declerations_advance(tokens: Seq<TokenView>, p: ParserView)
    requires
        p.ptr <= tokens.len(),
    ensures
        p.ptr <= declerations_model(tokens, p).0.ptr <= tokens.len(),
    decreases tokens.len() - p.ptr,
{
    let (st1, is_id) = is_lookahead_model(tokens, p, Token::Additional(Additional::Ident));
    if is_id {
        let (q, first) = match_tok_model(tokens, st1, Token::Additional(Additional::Ident));
        lemma_id_list_rest_advances(tokens, q, seq![first->Ok_0]);
        let (st2, d) = decleration_model(tokens, st1);
        if d is Ok {
            lemma_declerations_advance(tokens, st2);
        }
    }
}

/// The state in which a statement list goes on after a statement failed
/// with `e` in state `failed` and the statement at `next` is the first
/// that can follow.
pub open spec fn recovered(failed: ParserView, e: ErrorView, next: nat) -> ParserView {
    ParserView { ptr: next, errors: failed.errors.push(e), ..failed }
}

/// Recovery costs one diagnostic: where the first statement of a list
/// fails and a later token can start a statement, the list goes on there
/// with that one diagnostic recorded after those that were there.
pub proof fn lemma_failed_statement_records_one(tokens: Seq<TokenView>, p: ParserView)
    requires
        p.ptr <= tokens.len(),
        !is_lookahead_model(tokens, p, Token::Symbol(Symbol::RCurly)).1,
        stmt_model(tokens, is_lookahead_model(tokens, p, Token::Symbol(Symbol::RCurly)).0).1 is Err,
        next_stmt_start(
            tokens,
            stmt_model(tokens, is_lookahead_model(tokens, p, Token::Symbol(Symbol::RCurly)).0).0.ptr,
        ) is Some,
    ensures
        ({
            let (failed, stmt) = stmt_model(
                tokens,
                is_lookahead_model(tokens, p, Token::Symbol(Symbol::RCurly)).0,
            );
            let next = next_stmt_start(tokens, failed.ptr)->Some_0;
            &&& p.ptr < next < tokens.len()
            &&& stmtlist_model(tokens, p) == stmtlist_model(
                tokens,
                recovered(failed, stmt->Err_0, next),
            )
        }),
{
    lemma_stmtlist_advances(tokens, p);
    let failed = stmt_model(
        tokens,
        is_lookahead_model(tokens, p, Token::Symbol(Symbol::RCurly)).0,
    ).0;
    lemma_next_stmt_start(tokens, failed.ptr);
}

/// A statement that succeeds is followed by the rest of the list.
pub proof fn lemma_statement_then_rest(tokens: Seq<TokenView>, p: ParserView)
    requires
        p.ptr <= tokens.len(),
        !is_lookahead_model(tokens, p, Token::Symbol(Symbol::RCurly)).1,
        stmt_model(tokens, is_lookahead_model(tokens, p, Token::Symbol(Symbol::RCurly)).0).1 is Ok,
    ensures
        stmtlist_model(tokens, p) == stmtlist_model(
            tokens,
            stmt_model(tokens, is_lookahead_model(tokens, p, Token::Symbol(Symbol::RCurly)).0).0,
        ),
{
    lemma_stmtlist_advances(tokens, p);
}

/// Two statements that fail one after the other, each with a statement
/// start after it and neither recording anything inside itself, give
/// exactly two diagnostics, in the order of the statements; the list goes
/// on after the second.
pub proof fn lemma_two_failed_statements(tokens: Seq<TokenView>, p: ParserView)
    requires
        p.ptr <= tokens.len(),
        !is_lookahead_model(tokens, p, Token::Symbol(Symbol::RCurly)).1,
        ({
            let (first, r1) = stmt_model(
                tokens,
                is_lookahead_model(tokens, p, Token::Symbol(Symbol::RCurly)).0,
            );
            &&& r1 is Err
            &&& first.errors == p.errors
            &&& next_stmt_start(tokens, first.ptr) is Some
            &&& ({
                let again = recovered(
                    first,
                    r1->Err_0,
                    next_stmt_start(tokens, first.ptr)->Some_0,
                );
                let (second, r2) = stmt_model(
                    tokens,
                    is_lookahead_model(tokens, again, Token::Symbol(Symbol::RCurly)).0,
                );
                &&& r2 is Err
                &&& second.errors == again.errors
                &&& next_stmt_start(tokens, second.ptr) is Some
            })
        }),
    ensures
        ({
            let (first, r1) = stmt_model(
                tokens,
                is_lookahead_model(tokens, p, Token::Symbol(Symbol::RCurly)).0,
            );
            let again = recovered(first, r1->Err_0, next_stmt_start(tokens, first.ptr)->Some_0);
            let (second, r2) = stmt_model(
                tokens,
                is_lookahead_model(tokens, again, Token::Symbol(Symbol::RCurly)).0,
            );
            let after = recovered(second, r2->Err_0, next_stmt_start(tokens, second.ptr)->Some_0);
            &&& stmtlist_model(tokens, p) == stmtlist_model(tokens, after)
            &&& after.errors == p.errors.push(r1->Err_0).push(r2->Err_0)
        }),
{
    lemma_failed_statement_records_one(tokens, p);
    let (first, r1) = stmt_model(
        tokens,
        is_lookahead_model(tokens, p, Token::Symbol(Symbol::RCurly)).0,
    );
    let again = recovered(first, r1->Err_0, next_stmt_start(tokens, first.ptr)->Some_0);
    lemma_next_stmt_start(tokens, first.ptr);
    lemma_failed_statement_records_one(tokens, again);
}

/// A statement that is no block and holds none records no diagnostic
/// itself, whether it fails or not.
pub proof fn lemma_simple_statement_keeps_errors(tokens: Seq<TokenView>, p: ParserView)
    requires
        p.ptr < tokens.len(),
        tokens[p.ptr as int].token == Token::Additional(Additional::Ident) || tokens[p.ptr as int].token
            == Token::Keyword(Keyword::Input) || tokens[p.ptr as int].token == Token::Keyword(
            Keyword::Output,
        ),
    ensures
        stmt_model(tokens, p).0.errors == p.errors,
{
    let (st1, r) = lookahead_model(tokens, p);
    lemma_assignment_stmt_advances(tokens, st1);
    lemma_input_stmt_advances(tokens, st1);
    lemma_output_stmt_advances(tokens, st1);
}

/// The state in which the expression inside `! ( ! (` is read, where
/// those four tokens stand from `p` on.
pub open spec fn inside_two_negations(tokens: Seq<TokenView>, p: ParserView) -> ParserView {
    ParserView {
        ptr: p.ptr + 4,
        line: tokens[(p.ptr + 3) as int].line,
        column: tokens[(p.ptr + 3) as int].column,
        ..p
    }
}

/// Two negations around a boolean expression: where the tokens from `p`
/// on are `! ( ! (`, a boolean expression that gives `b`, and `) )`, the
/// rule gives the code of `b` followed by two subtractions from 1, the
/// second of the first's result. Nothing is simplified away, and the value
/// is that of `b` again ([`crate::boolexpr::lemma_not_involution`]).
pub proof fn lemma_double_negation(tokens: Seq<TokenView>, p: ParserView)
    requires
        p.ptr + 4 <= tokens.len(),
        tokens[p.ptr as int].token == Token::Operator(Operator::NOT),
        tokens[(p.ptr + 1) as int].token == Token::Symbol(Symbol::LParen),
        tokens[(p.ptr + 2) as int].token == Token::Operator(Operator::NOT),
        tokens[(p.ptr + 3) as int].token == Token::Symbol(Symbol::LParen),
        ({
            let (q, b) = boolexpr_model(tokens, inside_two_negations(tokens, p));
            &&& b is Ok
            &&& q.ptr + 2 <= tokens.len()
            &&& tokens[q.ptr as int].token == Token::Symbol(Symbol::RParen)
            &&& tokens[(q.ptr + 1) as int].token == Token::Symbol(Symbol::RParen)
        }),
    ensures
        ({
            let (q, b) = boolexpr_model(tokens, inside_two_negations(tokens, p));
            let (once, g1) = not_model(b->Ok_0, q.gen);
            let (twice, g2) = not_model(once, g1);
            let (end, d) = boolfactor_model(tokens, p);
            &&& d == Ok::<BoolView, ErrorView>(twice)
            &&& end.ptr == q.ptr + 2
            &&& end.gen == g2
            &&& g2.temps == q.gen.temps + 2
            &&& twice.code == b->Ok_0.code + bin_op_text(
                VarType::Int,
                BinaryOp::Sub,
                once.code_ref,
                RefView::IntLiteral(1),
                b->Ok_0.code_ref,
            ) + bin_op_text(
                VarType::Int,
                BinaryOp::Sub,
                twice.code_ref,
                RefView::IntLiteral(1),
                once.code_ref,
            )
        }),
{
    let t0 = tokens[p.ptr as int];
    let t1 = tokens[(p.ptr + 1) as int];
    let t2 = tokens[(p.ptr + 2) as int];
    let t3 = tokens[(p.ptr + 3) as int];
    let inner = inside_two_negations(tokens, p);
    let (q, b) = boolexpr_model(tokens, inner);
    lemma_boolexpr_advances(tokens, inner);
    let c0 = tokens[q.ptr as int];
    let c1 = tokens[(q.ptr + 1) as int];
    // the inner negation, from its `!` on
    let mid = ParserView { ptr: p.ptr + 2, line: t1.line, column: t1.column, ..p };
    let (once, g1) = not_model(b->Ok_0, q.gen);
    let after_once = ParserView { ptr: q.ptr + 1, line: c0.line, column: c0.column, gen: g1, ..q };
    assert(lookahead_model(tokens, mid).0 == ParserView {
        line: t2.line,
        column: t2.column,
        ..mid
    });
    assert(match_tok_model(
        tokens,
        ParserView { ptr: mid.ptr + 1, line: t2.line, column: t2.column, ..mid },
        Token::Symbol(Symbol::LParen),
    ).0 == inner);
    assert(match_tok_model(tokens, q, Token::Symbol(Symbol::RParen)).0 == ParserView {
        ptr: q.ptr + 1,
        line: c0.line,
        column: c0.column,
        ..q
    });
    assert(boolfactor_model(tokens, mid) == (after_once, Ok::<BoolView, ErrorView>(once)));
    let seen = ParserView { line: c1.line, column: c1.column, ..after_once };
    assert(boolterm_model(tokens, mid) == (seen, Ok::<BoolView, ErrorView>(once)));
    assert(boolexpr_model(tokens, mid) == (seen, Ok::<BoolView, ErrorView>(once)));
    // the outer negation
    assert(lookahead_model(tokens, p).0 == ParserView { line: t0.line, column: t0.column, ..p });
    assert(match_tok_model(
        tokens,
        ParserView { ptr: p.ptr + 1, line: t0.line, column: t0.column, ..p },
        Token::Symbol(Symbol::LParen),
    ).0 == mid);
    assert(Seq::<char>::empty() + b->Ok_0.code =~= b->Ok_0.code);
    assert(Seq::<char>::empty() + once.code =~= once.code);
}

} // verus!
