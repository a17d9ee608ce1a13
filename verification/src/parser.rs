//! The parser: a recursive descent over the token list with one token of
//! lookahead, which emits code as it goes and recovers from errors at
//! statement boundaries.

use vstd::prelude::*;
use vstd::string::*;
use crate::boolexpr::{BoolExpr, BoolView, RelOp};
use crate::codegen::{register, CodeGenerator, GenView, VarType};
use crate::error::{error_views, CodeGenErrorKind, CompilationError, ErrorView, ParsingErrorKind};
use crate::expression::{BinaryOp, ExprView, Expression};
use crate::lexer::{token_views, LexedToken, Lexeme, TokenView};
use crate::parser_model::{
    ParserView,
    assignment_stmt_model,
    boolexpr_model,
    boolfactor_model,
    boolterm_model,
    cache_error,
    cast_expr_model,
    condition_model,
    decleration_model,
    declerations_model,
    emit,
    expression_model,
    factor_model,
    factor_starters,
    id_expr_model,
    id_list_model,
    id_list_rest_model,
    if_stmt_model,
    initial_state,
    input_stmt_model,
    is_lookahead_model,
    is_stmt_start,
    lookahead_model,
    match_tok_model,
    next_stmt_start,
    num_expr_model,
    output_stmt_model,
    program_model,
    register_all,
    stmt_block_model,
    stmt_model,
    stmt_starters,
    stmtlist_model,
    term_model,
    type_keywords,
    type_model,
    while_stmt_model,
};
use crate::text::{decimal_string, find_char, float_literal_string, parse_int_literal, str_eq};
use crate::token::{Additional, Keyword, Operator, Symbol, Token};

verus! {

/// The parser over one token list. It owns the generator for the length
/// of one compilation.
pub struct Parser {
    generated_code: String,
    tokens: Vec<LexedToken>,
    ptr: usize,
    pub code_generator: CodeGenerator,
    last_seen_line: usize,
    last_seen_column: usize,
    errors_found: Vec<CompilationError>,
}

impl View for Parser {
    type V = ParserView;

    closed spec fn view(&self) -> ParserView {
        ParserView {
            code: self.generated_code@,
            ptr: self.ptr as nat,
            gen: self.code_generator@,
            line: self.last_seen_line as nat,
            column: self.last_seen_column as nat,
            errors: error_views(self.errors_found@),
        }
    }
}

/// The counters have room for all that the tokens still to be read can
/// ask for: at most eight temporaries and two labels each.
pub open spec fn fits(len: nat, p: ParserView) -> bool {
    &&& p.ptr <= len
    &&& p.gen.temps + 8 * (len - p.ptr) <= usize::MAX
    &&& p.gen.labels + 2 * (len - p.ptr) <= usize::MAX
}

/// From `a` to `b` the parser only moved forward, and took no more than
/// eight temporaries and two labels for each token that it passed.
pub open spec fn grows(len: nat, a: ParserView, b: ParserView) -> bool {
    &&& a.ptr <= b.ptr <= len
    &&& a.gen.temps <= b.gen.temps <= a.gen.temps + 8 * (b.ptr - a.ptr)
    &&& a.gen.labels <= b.gen.labels <= a.gen.labels + 2 * (b.ptr - a.ptr)
}

/// The outcome of a rule that gives an expression.
pub open spec fn expr_outcome(r: Result<Expression, CompilationError>) -> Result<
    ExprView,
    ErrorView,
> {
    match r {
        Ok(e) => Ok(e@),
        Err(e) => Err(e@),
    }
}

/// The outcome of a rule that gives a truth value.
pub open spec fn bool_outcome(r: Result<BoolExpr, CompilationError>) -> Result<BoolView, ErrorView> {
    match r {
        Ok(e) => Ok(e@),
        Err(e) => Err(e@),
    }
}

/// The outcome of a rule that gives nothing.
pub open spec fn unit_outcome(r: Result<(), CompilationError>) -> Result<(), ErrorView> {
    match r {
        Ok(_) => Ok(()),
        Err(e) => Err(e@),
    }
}

/// The outcome of a rule that gives a token's text.
pub open spec fn lexeme_outcome(r: Result<Lexeme, CompilationError>) -> Result<Seq<char>, ErrorView> {
    match r {
        Ok(l) => Ok(l@),
        Err(e) => Err(e@),
    }
}

/// The outcome of looking at a token.
pub open spec fn token_outcome(r: Result<LexedToken, CompilationError>) -> Result<
    TokenView,
    ErrorView,
> {
    match r {
        Ok(t) => Ok(t@),
        Err(e) => Err(e@),
    }
}

/// The outcome of a rule that gives a type.
pub open spec fn type_outcome(r: Result<VarType, CompilationError>) -> Result<VarType, ErrorView> {
    match r {
        Ok(t) => Ok(t),
        Err(e) => Err(e@),
    }
}

/// The texts of a list of lexemes.
pub open spec fn lexeme_views(l: Seq<Lexeme>) -> Seq<Seq<char>> {
    Seq::new(l.len(), |i: int| l[i]@)
}

/// The outcome of a rule that gives a list of names.
pub open spec fn ids_outcome(r: Result<Vec<Lexeme>, CompilationError>) -> Result<
    Seq<Seq<char>>,
    ErrorView,
> {
    match r {
        Ok(l) => Ok(lexeme_views(l@)),
        Err(e) => Err(e@),
    }
}

/// The outcome of a whole compilation.
pub open spec fn program_outcome(r: Result<String, Vec<CompilationError>>) -> Result<
    Seq<char>,
    Seq<ErrorView>,
> {
    match r {
        Ok(code) => Ok(code@),
        Err(errors) => Err(error_views(errors@)),
    }
}

/// Whether the token can start a statement.
pub fn starts_stmt(t: Token) -> (r: bool)
    ensures
        r == is_stmt_start(t),
{
    t == Token::Additional(Additional::Ident) || t == Token::Keyword(Keyword::Input) || t
        == Token::Keyword(Keyword::Output) || t == Token::Keyword(Keyword::If) || t
        == Token::Keyword(Keyword::While) || t == Token::Symbol(Symbol::LCurly)
}

fn internal_about(message: &str, lexeme: &Lexeme) -> (r: CompilationError)
    ensures
        r@ == CompilationError::internal_error_view(message@ + lexeme@),
{
    let mut text = String::from_str(message);
    text.append(lexeme.0.as_str());
    CompilationError::internal_error(text)
}

impl Parser {
    /// The tokens that the parser reads.
    pub closed spec fn token_views(&self) -> Seq<TokenView> {
        token_views(self.tokens@)
    }

    /// The parser stands inside its token list and its counters have room.
    pub open spec fn wf(&self) -> bool {
        fits(self.token_views().len(), self@)
    }

    /// `after` is `before` some steps later: over the same tokens, further
    /// on, and still with room.
    pub open spec fn stepped(before: Parser, after: Parser) -> bool {
        &&& after.token_views() == before.token_views()
        &&& after.wf()
        &&& grows(before.token_views().len(), before@, after@)
    }

    /// A parser at the start of the given tokens.
    pub fn new(tokens: Vec<LexedToken>) -> (r: Self)
        requires
            tokens@.len() <= usize::MAX / 8,
        ensures
            r.wf(),
            r.token_views() == token_views(tokens@),
            r@ == initial_state(),
    {
        let r = Parser {
            generated_code: String::new(),
            tokens,
            ptr: 0,
            code_generator: CodeGenerator::new(),
            last_seen_line: 1,
            last_seen_column: 0,
            errors_found: Vec::new(),
        };
        assert(r@.errors =~= Seq::empty());
        r
    }

    /// Registers a variable with the parser's generator, as a declaration
    /// in the source would.
    pub fn register_variable(&mut self, var_name: &str, ty: VarType)
        requires
            old(self).wf(),
        ensures
            Self::stepped(*old(self), *final(self)),
            final(self)@ == (ParserView {
                gen: GenView {
                    vars: register(old(self)@.gen.vars, var_name@, ty),
                    ..old(self)@.gen
                },
                ..old(self)@
            }),
    {
        self.code_generator.register_variable(var_name, ty);
    }

    fn lookahead(&mut self) -> (r: Result<LexedToken, CompilationError>)
        requires
            old(self).wf(),
        ensures
            Self::stepped(*old(self), *final(self)),
            (final(self)@, token_outcome(r)) == lookahead_model(
                old(self).token_views(),
                old(self)@,
            ),
            final(self)@.ptr == old(self)@.ptr,
            r is Ok <==> old(self)@.ptr < old(self).token_views().len(),
    {
        if self.ptr < self.tokens.len() {
            let t = self.tokens[self.ptr].clone();
            self.last_seen_line = t.line;
            self.last_seen_column = t.column;
            Ok(t)
        } else {
            Err(CompilationError::unexpected_eof())
        }
    }

    fn is_lookahead(&mut self, tok: Token) -> (r: bool)
        requires
            old(self).wf(),
        ensures
            Self::stepped(*old(self), *final(self)),
            (final(self)@, r) == is_lookahead_model(old(self).token_views(), old(self)@, tok),
            final(self)@.ptr == old(self)@.ptr,
    {
        match self.lookahead() {
            Ok(t) => t.token == tok,
            Err(_) => false,
        }
    }

    fn match_tok(&mut self, tok: Token) -> (r: Result<Lexeme, CompilationError>)
        requires
            old(self).wf(),
        ensures
            Self::stepped(*old(self), *final(self)),
            (final(self)@, lexeme_outcome(r)) == match_tok_model(
                old(self).token_views(),
                old(self)@,
                tok,
            ),
            r is Ok ==> final(self)@.ptr == old(self)@.ptr + 1,
            r is Err ==> final(self)@.ptr == old(self)@.ptr,
    {
        let lookahead = match self.lookahead() {
            Ok(t) => t,
            Err(e) => {
                return Err(e);
            },
        };
        if lookahead.token == tok {
            let len: usize = self.tokens.len();
            assert(self.ptr < len);
            self.ptr += 1;
            Ok(lookahead.lexeme)
        } else {
            let expected = vec![tok];
            assert(expected@ =~= seq![tok]);
            Err(
                CompilationError::parsing_error(
                    self.last_seen_line,
                    self.last_seen_column,
                    ParsingErrorKind::unexpected_tok(expected.as_slice(), lookahead.token),
                ),
            )
        }
    }

    fn push_generated_code(&mut self, code: &str)
        ensures
            final(self).token_views() == old(self).token_views(),
            final(self)@ == emit(old(self)@, code@),
    {
        self.generated_code.append(code);
    }

    fn cache_error(&mut self, result: Result<(), CompilationError>)
        ensures
            final(self).token_views() == old(self).token_views(),
            final(self)@ == cache_error(old(self)@, unit_outcome(result)),
    {
        if let Err(error) = result {
            self.errors_found.push(error);
            assert(error_views(self.errors_found@) =~= error_views(old(self).errors_found@).push(
                error@,
            ));
        }
    }

    /// Parses an arithmetic expression: `term (('+'|'-') expression)?`.
    pub fn parse_expression(&mut self) -> (r: Result<Expression, CompilationError>)
        requires
            old(self).wf(),
        ensures
            Self::stepped(*old(self), *final(self)),
            (final(self)@, expr_outcome(r)) == expression_model(
                old(self).token_views(),
                old(self)@,
            ),
            r is Ok ==> final(self)@.ptr > old(self)@.ptr,
        decreases old(self).token_views().len() - old(self)@.ptr, 3nat,
    {
        let term = match self.parse_term() {
            Ok(t) => t,
            Err(e) => {
                return Err(e);
            },
        };
        match self.match_tok(Token::Operator(Operator::ADDOP)) {
            Err(_) => Ok(term),
            Ok(addop) => {
                let binop = match BinaryOp::try_from_lexeme(&addop) {
                    Some(b) => b,
                    None => {
                        return Err(
                            internal_about("Could not parse lexeme as an operator: ", &addop),
                        );
                    },
                };
                let right = match self.parse_expression() {
                    Ok(x) => x,
                    Err(e) => {
                        return Err(e);
                    },
                };
                Ok(Expression::binary_op(term, right, binop, &mut self.code_generator))
            },
        }
    }

    /// `factor (('*'|'/') term)?`
    fn parse_term(&mut self) -> (r: Result<Expression, CompilationError>)
        requires
            old(self).wf(),
        ensures
            Self::stepped(*old(self), *final(self)),
            (final(self)@, expr_outcome(r)) == term_model(old(self).token_views(), old(self)@),
            r is Ok ==> final(self)@.ptr > old(self)@.ptr,
        decreases old(self).token_views().len() - old(self)@.ptr, 2nat,
    {
        let factor = match self.parse_factor() {
            Ok(t) => t,
            Err(e) => {
                return Err(e);
            },
        };
        match self.match_tok(Token::Operator(Operator::MULOP)) {
            Err(_) => Ok(factor),
            Ok(mulop) => {
                let binop = match BinaryOp::try_from_lexeme(&mulop) {
                    Some(b) => b,
                    None => {
                        return Err(
                            internal_about("Could not parse lexeme as an operator: ", &mulop),
                        );
                    },
                };
                let right = match self.parse_term() {
                    Ok(x) => x,
                    Err(e) => {
                        return Err(e);
                    },
                };
                Ok(Expression::binary_op(factor, right, binop, &mut self.code_generator))
            },
        }
    }

    /// `'(' expression ')' | cast '(' expression ')' | ID | NUMBER`
    fn parse_factor(&mut self) -> (r: Result<Expression, CompilationError>)
        requires
            old(self).wf(),
        ensures
            Self::stepped(*old(self), *final(self)),
            (final(self)@, expr_outcome(r)) == factor_model(old(self).token_views(), old(self)@),
            r is Ok ==> final(self)@.ptr > old(self)@.ptr,
        decreases old(self).token_views().len() - old(self)@.ptr, 1nat,
    {
        let lookahead = match self.lookahead() {
            Ok(t) => t.token,
            Err(e) => {
                return Err(e);
            },
        };
        if lookahead == Token::Operator(Operator::CAST) {
            self.parse_cast_expr()
        } else if lookahead == Token::Additional(Additional::Ident) {
            self.parse_id_expr()
        } else if lookahead == Token::Additional(Additional::Num) {
            self.parse_num_expr()
        } else if lookahead == Token::Symbol(Symbol::LParen) {
            let _ = self.match_tok(Token::Symbol(Symbol::LParen));
            let expr = self.parse_expression();
            match self.match_tok(Token::Symbol(Symbol::RParen)) {
                Err(e) => Err(e),
                Ok(_) => expr,
            }
        } else {
            let expected = vec![
                Token::Operator(Operator::CAST),
                Token::Additional(Additional::Ident),
                Token::Additional(Additional::Num),
                Token::Symbol(Symbol::LParen),
            ];
            assert(expected@ =~= factor_starters());
            Err(
                CompilationError::parsing_error(
                    self.last_seen_line,
                    self.last_seen_column,
                    ParsingErrorKind::unexpected_tok(expected.as_slice(), lookahead),
                ),
            )
        }
    }

    /// `cast '(' expression ')'`
    fn parse_cast_expr(&mut self) -> (r: Result<Expression, CompilationError>)
        requires
            old(self).wf(),
        ensures
            Self::stepped(*old(self), *final(self)),
            (final(self)@, expr_outcome(r)) == cast_expr_model(
                old(self).token_views(),
                old(self)@,
            ),
            r is Ok ==> final(self)@.ptr > old(self)@.ptr,
        decreases old(self).token_views().len() - old(self)@.ptr, 0nat,
    {
        let cast_lexeme = match self.match_tok(Token::Operator(Operator::CAST)) {
            Ok(l) => l,
            Err(e) => {
                return Err(e);
            },
        };
        let cast_type = if str_eq(cast_lexeme.0.as_str(), "static_cast<int>") {
            VarType::Int
        } else if str_eq(cast_lexeme.0.as_str(), "static_cast<float>") {
            VarType::Float
        } else {
            let mut message = String::from_str("Lexer mistakenly parsed ");
            message.append(cast_lexeme.0.as_str());
            message.append(" as CAST token. Line ");
            let line = decimal_string(self.last_seen_line);
            message.append(line.as_str());
            message.append(" Column ");
            let column = decimal_string(self.last_seen_column);
            message.append(column.as_str());
            return Err(CompilationError::internal_error(message));
        };
        match self.match_tok(Token::Symbol(Symbol::LParen)) {
            Ok(_) => {},
            Err(e) => {
                return Err(e);
            },
        }
        let expr_to_cast = match self.parse_expression() {
            Ok(x) => x,
            Err(e) => {
                return Err(e);
            },
        };
        match self.match_tok(Token::Symbol(Symbol::RParen)) {
            Ok(_) => {},
            Err(e) => {
                return Err(e);
            },
        }
        Ok(Expression::cast(cast_type, expr_to_cast, &mut self.code_generator))
    }

    /// `ID` as an expression
    fn parse_id_expr(&mut self) -> (r: Result<Expression, CompilationError>)
        requires
            old(self).wf(),
        ensures
            Self::stepped(*old(self), *final(self)),
            (final(self)@, expr_outcome(r)) == id_expr_model(old(self).token_views(), old(self)@),
            r is Ok ==> final(self)@.ptr > old(self)@.ptr,
            old(self)@.ptr < old(self).token_views().len() && old(self).token_views()[old(
                self,
            )@.ptr as int].token == Token::Additional(Additional::Ident) ==> final(self)@.ptr
                > old(self)@.ptr,
    {
        let var_name = match self.match_tok(Token::Additional(Additional::Ident)) {
            Ok(l) => l.0,
            Err(e) => {
                return Err(e);
            },
        };
        match self.code_generator.get_var_type(var_name.as_str()) {
            Ok(var_type) => Ok(Expression::variable(var_name, var_type)),
            Err(codegen_err) => Err(
                CompilationError::codegen_error(
                    self.last_seen_line,
                    self.last_seen_column,
                    codegen_err,
                ),
            ),
        }
    }

    /// `NUMBER`
    fn parse_num_expr(&mut self) -> (r: Result<Expression, CompilationError>)
        requires
            old(self).wf(),
        ensures
            Self::stepped(*old(self), *final(self)),
            (final(self)@, expr_outcome(r)) == num_expr_model(old(self).token_views(), old(self)@),
            r is Ok ==> final(self)@.ptr > old(self)@.ptr,
    {
        let lexeme = match self.match_tok(Token::Additional(Additional::Num)) {
            Ok(l) => l,
            Err(e) => {
                return Err(e);
            },
        };
        let text = lexeme.0.as_str();
        if find_char(text, '.') < text.unicode_len() {
            match float_literal_string(text) {
                Some(rendered) => Ok(Expression::float_literal(rendered)),
                None => Err(internal_about("Could not parse literal: ", &lexeme)),
            }
        } else {
            match parse_int_literal(text) {
                Some(value) => Ok(Expression::int_literal(value)),
                None => Err(internal_about("Could not parse literal: ", &lexeme)),
            }
        }
    }

    /// Parses a boolean expression: `boolterm ('||' boolexpr)?`.
    pub fn parse_boolexpr(&mut self) -> (r: Result<BoolExpr, CompilationError>)
        requires
            old(self).wf(),
        ensures
            Self::stepped(*old(self), *final(self)),
            (final(self)@, bool_outcome(r)) == boolexpr_model(old(self).token_views(), old(self)@),
            r is Ok ==> final(self)@.ptr > old(self)@.ptr,
        decreases old(self).token_views().len() - old(self)@.ptr, 6nat,
    {
        let term = match self.parse_boolterm() {
            Ok(t) => t,
            Err(e) => {
                return Err(e);
            },
        };
        match self.match_tok(Token::Operator(Operator::OR)) {
            Err(_) => Ok(term),
            Ok(_) => {
                let right = match self.parse_boolexpr() {
                    Ok(x) => x,
                    Err(e) => {
                        return Err(e);
                    },
                };
                Ok(BoolExpr::or(term, right, &mut self.code_generator))
            },
        }
    }

    /// `boolfactor ('&&' boolterm)?`
    fn parse_boolterm(&mut self) -> (r: Result<BoolExpr, CompilationError>)
        requires
            old(self).wf(),
        ensures
            Self::stepped(*old(self), *final(self)),
            (final(self)@, bool_outcome(r)) == boolterm_model(old(self).token_views(), old(self)@),
            r is Ok ==> final(self)@.ptr > old(self)@.ptr,
        decreases old(self).token_views().len() - old(self)@.ptr, 5nat,
    {
        let factor = match self.parse_boolfactor() {
            Ok(t) => t,
            Err(e) => {
                return Err(e);
            },
        };
        match self.match_tok(Token::Operator(Operator::AND)) {
            Err(_) => Ok(factor),
            Ok(_) => {
                let right = match self.parse_boolterm() {
                    Ok(x) => x,
                    Err(e) => {
                        return Err(e);
                    },
                };
                Ok(BoolExpr::and(factor, right, &mut self.code_generator))
            },
        }
    }

    /// `'!' '(' boolexpr ')' | expression RELOP expression`
    fn parse_boolfactor(&mut self) -> (r: Result<BoolExpr, CompilationError>)
        requires
            old(self).wf(),
        ensures
            Self::stepped(*old(self), *final(self)),
            (final(self)@, bool_outcome(r)) == boolfactor_model(
                old(self).token_views(),
                old(self)@,
            ),
            r is Ok ==> final(self)@.ptr > old(self)@.ptr,
        decreases old(self).token_views().len() - old(self)@.ptr, 4nat,
    {
        let lookahead = match self.lookahead() {
            Ok(t) => t.token,
            Err(e) => {
                return Err(e);
            },
        };
        if lookahead == Token::Operator(Operator::NOT) {
            let _ = self.match_tok(Token::Operator(Operator::NOT));
            match self.match_tok(Token::Symbol(Symbol::LParen)) {
                Ok(_) => {},
                Err(e) => {
                    return Err(e);
                },
            }
            let bool_expr = match self.parse_boolexpr() {
                Ok(x) => x,
                Err(e) => {
                    return Err(e);
                },
            };
            match self.match_tok(Token::Symbol(Symbol::RParen)) {
                Ok(_) => {},
                Err(e) => {
                    return Err(e);
                },
            }
            return Ok(BoolExpr::not(bool_expr, &mut self.code_generator));
        }
        let expr1 = match self.parse_expression() {
            Ok(x) => x,
            Err(e) => {
                return Err(e);
            },
        };
        let relop_lexeme = match self.match_tok(Token::Operator(Operator::RELOP)) {
            Ok(l) => l,
            Err(e) => {
                return Err(e);
            },
        };
        let expr2 = match self.parse_expression() {
            Ok(x) => x,
            Err(e) => {
                return Err(e);
            },
        };
        match RelOp::try_from_lexeme(&relop_lexeme) {
            None => Err(internal_about("Could not parse lexeme as an operator: ", &relop_lexeme)),
            Some(relop) => Ok(BoolExpr::relop(expr1, expr2, relop, &mut self.code_generator)),
        }
    }

    fn codegen_failure(&self, codegen_err: CodeGenErrorKind) -> (r: CompilationError)
        ensures
            r@ == CompilationError::codegen_error_view(self@.line, self@.column, codegen_err@),
    {
        CompilationError::codegen_error(self.last_seen_line, self.last_seen_column, codegen_err)
    }

    /// Parses a whole program and gives the emitted code, or every
    /// diagnostic that was found, in the order of detection. Code comes
    /// back exactly where no diagnostic was recorded.
    pub fn parse_program(self) -> (r: Result<String, Vec<CompilationError>>)
        requires
            self.wf(),
        ensures
            program_outcome(r) == program_model(self.token_views(), self@),
            r matches Err(errors) ==> errors@.len() > 0,
    {
        let mut parser = self;
        let declerations = parser.parse_declerations();
        if declerations.is_err() {
            parser.cache_error(declerations);
            return Err(parser.errors_found);
        }
        let stmt_block = parser.parse_stmt_block();
        parser.cache_error(stmt_block);
        parser.push_generated_code("HALT");
        if parser.errors_found.len() == 0 {
            Ok(parser.generated_code)
        } else {
            Err(parser.errors_found)
        }
    }

    /// `(identifier_list ':' type ';')*`
    fn parse_declerations(&mut self) -> (r: Result<(), CompilationError>)
        requires
            old(self).wf(),
        ensures
            Self::stepped(*old(self), *final(self)),
            (final(self)@, unit_outcome(r)) == declerations_model(
                old(self).token_views(),
                old(self)@,
            ),
        decreases old(self).token_views().len() - old(self)@.ptr,
    {
        if self.is_lookahead(Token::Additional(Additional::Ident)) {
            match self.parse_decleration() {
                Ok(_) => {},
                Err(e) => {
                    return Err(e);
                },
            }
            return self.parse_declerations();
        }
        Ok(())
    }

    /// `identifier_list ':' type ';'`
    fn parse_decleration(&mut self) -> (r: Result<(), CompilationError>)
        requires
            old(self).wf(),
        ensures
            Self::stepped(*old(self), *final(self)),
            (final(self)@, unit_outcome(r)) == decleration_model(
                old(self).token_views(),
                old(self)@,
            ),
            r is Ok ==> final(self)@.ptr > old(self)@.ptr,
    {
        let idlist = match self.parse_id_list() {
            Ok(l) => l,
            Err(e) => {
                return Err(e);
            },
        };
        match self.match_tok(Token::Symbol(Symbol::Colon)) {
            Ok(_) => {},
            Err(e) => {
                return Err(e);
            },
        }
        let ty = match self.parse_type() {
            Ok(t) => t,
            Err(e) => {
                return Err(e);
            },
        };
        let ghost before = self@;
        let ghost ids = lexeme_views(idlist@);
        let n: usize = idlist.len();
        let mut i: usize = 0;
        assert(ids.skip(0) =~= ids);
        while i < n
            invariant
                i <= n,
                n == idlist@.len(),
                ids == lexeme_views(idlist@),
                self.token_views() == old(self).token_views(),
                self@ == (ParserView {
                    gen: GenView { vars: self@.gen.vars, ..before.gen },
                    ..before
                }),
                register_all(self@.gen.vars, ids.skip(i as int), ty) == register_all(
                    before.gen.vars,
                    ids,
                    ty,
                ),
            decreases n - i,
        {
            proof {
                assert(ids.skip(i as int).drop_first() =~= ids.skip(i as int + 1));
                assert(ids.skip(i as int)[0] == idlist@[i as int]@);
            }
            self.code_generator.register_variable(idlist[i].0.as_str(), ty);
            i = i + 1;
        }
        match self.match_tok(Token::Symbol(Symbol::SemiColon)) {
            Ok(_) => Ok(()),
            Err(e) => Err(e),
        }
    }

    /// `'int' | 'float'`
    fn parse_type(&mut self) -> (r: Result<VarType, CompilationError>)
        requires
            old(self).wf(),
        ensures
            Self::stepped(*old(self), *final(self)),
            (final(self)@, type_outcome(r)) == type_model(old(self).token_views(), old(self)@),
            r is Ok ==> final(self)@.ptr > old(self)@.ptr,
    {
        let lookahead_tok = match self.lookahead() {
            Ok(t) => t.token,
            Err(e) => {
                return Err(e);
            },
        };
        if lookahead_tok == Token::Keyword(Keyword::Int) {
            let _ = self.match_tok(Token::Keyword(Keyword::Int));
            Ok(VarType::Int)
        } else if lookahead_tok == Token::Keyword(Keyword::Float) {
            let _ = self.match_tok(Token::Keyword(Keyword::Float));
            Ok(VarType::Float)
        } else {
            let expected = vec![Token::Keyword(Keyword::Int), Token::Keyword(Keyword::Float)];
            assert(expected@ =~= type_keywords());
            Err(
                CompilationError::parsing_error(
                    self.last_seen_line,
                    self.last_seen_column,
                    ParsingErrorKind::unexpected_tok(expected.as_slice(), lookahead_tok),
                ),
            )
        }
    }

    /// `ID (',' ID)*`
    fn parse_id_list(&mut self) -> (r: Result<Vec<Lexeme>, CompilationError>)
        requires
            old(self).wf(),
        ensures
            Self::stepped(*old(self), *final(self)),
            (final(self)@, ids_outcome(r)) == id_list_model(old(self).token_views(), old(self)@),
            r is Ok ==> final(self)@.ptr > old(self)@.ptr,
    {
        let mut id_list: Vec<Lexeme> = Vec::new();
        let first = match self.match_tok(Token::Additional(Additional::Ident)) {
            Ok(l) => l,
            Err(e) => {
                return Err(e);
            },
        };
        id_list.push(first);
        assert(lexeme_views(id_list@) =~= seq![first@]);
        let ghost start = self@;
        loop
            invariant
                self.wf(),
                self.token_views() == old(self).token_views(),
                grows(old(self).token_views().len(), old(self)@, self@),
                self@.ptr > old(self)@.ptr,
                id_list_rest_model(self.token_views(), self@, lexeme_views(id_list@))
                    == id_list_model(old(self).token_views(), old(self)@),
            decreases self.token_views().len() - self@.ptr,
        {
            let ghost pre = self@;
            let ghost acc = lexeme_views(id_list@);
            match self.match_tok(Token::Symbol(Symbol::Comma)) {
                Err(_) => {
                    assert(id_list_rest_model(self.token_views(), pre, acc) == (self@, Ok::<
                        Seq<Seq<char>>,
                        ErrorView,
                    >(acc)));
                    return Ok(id_list);
                },
                Ok(_) => {},
            }
            let next = match self.match_tok(Token::Additional(Additional::Ident)) {
                Ok(l) => l,
                Err(e) => {
                    assert(id_list_rest_model(self.token_views(), pre, acc) == (self@, Err::<
                        Seq<Seq<char>>,
                        ErrorView,
                    >(e@)));
                    return Err(e);
                },
            };
            let ghost names = lexeme_views(id_list@);
            id_list.push(next);
            assert(lexeme_views(id_list@) =~= names.push(next@));
        }
    }

    /// `'input' '(' ID ')' ';'`
    fn parse_input_statement(&mut self) -> (r: Result<(), CompilationError>)
        requires
            old(self).wf(),
        ensures
            Self::stepped(*old(self), *final(self)),
            (final(self)@, unit_outcome(r)) == input_stmt_model(
                old(self).token_views(),
                old(self)@,
            ),
            r is Ok ==> final(self)@.ptr > old(self)@.ptr,
            old(self)@.ptr < old(self).token_views().len() && old(self).token_views()[old(
                self,
            )@.ptr as int].token == Token::Keyword(Keyword::Input) ==> final(self)@.ptr > old(
                self,
            )@.ptr,
    {
        match self.match_tok(Token::Keyword(Keyword::Input)) {
            Ok(_) => {},
            Err(e) => {
                return Err(e);
            },
        }
        match self.match_tok(Token::Symbol(Symbol::LParen)) {
            Ok(_) => {},
            Err(e) => {
                return Err(e);
            },
        }
        let var_name = match self.match_tok(Token::Additional(Additional::Ident)) {
            Ok(l) => l.0,
            Err(e) => {
                return Err(e);
            },
        };
        match self.match_tok(Token::Symbol(Symbol::RParen)) {
            Ok(_) => {},
            Err(e) => {
                return Err(e);
            },
        }
        match self.match_tok(Token::Symbol(Symbol::SemiColon)) {
            Ok(_) => {},
            Err(e) => {
                return Err(e);
            },
        }
        match self.code_generator.gen_input_stmt(var_name.as_str()) {
            Err(codegen_err) => Err(self.codegen_failure(codegen_err)),
            Ok(generated_code) => {
                self.push_generated_code(generated_code.as_str());
                Ok(())
            },
        }
    }

    /// `'output' '(' expression ')' ';'`
    fn parse_output_statement(&mut self) -> (r: Result<(), CompilationError>)
        requires
            old(self).wf(),
        ensures
            Self::stepped(*old(self), *final(self)),
            (final(self)@, unit_outcome(r)) == output_stmt_model(
                old(self).token_views(),
                old(self)@,
            ),
            r is Ok ==> final(self)@.ptr > old(self)@.ptr,
            old(self)@.ptr < old(self).token_views().len() && old(self).token_views()[old(
                self,
            )@.ptr as int].token == Token::Keyword(Keyword::Output) ==> final(self)@.ptr > old(
                self,
            )@.ptr,
    {
        match self.match_tok(Token::Keyword(Keyword::Output)) {
            Ok(_) => {},
            Err(e) => {
                return Err(e);
            },
        }
        match self.match_tok(Token::Symbol(Symbol::LParen)) {
            Ok(_) => {},
            Err(e) => {
                return Err(e);
            },
        }
        let expr = match self.parse_expression() {
            Ok(x) => x,
            Err(e) => {
                return Err(e);
            },
        };
        match self.match_tok(Token::Symbol(Symbol::RParen)) {
            Ok(_) => {},
            Err(e) => {
                return Err(e);
            },
        }
        match self.match_tok(Token::Symbol(Symbol::SemiColon)) {
            Ok(_) => {},
            Err(e) => {
                return Err(e);
            },
        }
        match self.code_generator.gen_output_stmt(expr) {
            Err(codegen_err) => Err(self.codegen_failure(codegen_err)),
            Ok(generated_code) => {
                self.push_generated_code(generated_code.as_str());
                Ok(())
            },
        }
    }

    /// `ID '=' expression ';'`
    fn parse_assignment_stmt(&mut self) -> (r: Result<(), CompilationError>)
        requires
            old(self).wf(),
        ensures
            Self::stepped(*old(self), *final(self)),
            (final(self)@, unit_outcome(r)) == assignment_stmt_model(
                old(self).token_views(),
                old(self)@,
            ),
            r is Ok ==> final(self)@.ptr > old(self)@.ptr,
            old(self)@.ptr < old(self).token_views().len() && old(self).token_views()[old(
                self,
            )@.ptr as int].token == Token::Additional(Additional::Ident) ==> final(self)@.ptr
                > old(self)@.ptr,
    {
        let target = match self.parse_id_expr() {
            Ok(x) => x,
            Err(e) => {
                return Err(e);
            },
        };
        let var_name = target.code_ref.render();
        match self.match_tok(Token::Symbol(Symbol::Equals)) {
            Ok(_) => {},
            Err(e) => {
                return Err(e);
            },
        }
        let expr = match self.parse_expression() {
            Ok(x) => x,
            Err(e) => {
                return Err(e);
            },
        };
        match self.match_tok(Token::Symbol(Symbol::SemiColon)) {
            Ok(_) => {},
            Err(e) => {
                return Err(e);
            },
        }
        match self.code_generator.gen_assignment_stmt(var_name.as_str(), expr) {
            Err(codegen_err) => Err(self.codegen_failure(codegen_err)),
            Ok(generated_code) => {
                self.push_generated_code(generated_code.as_str());
                Ok(())
            },
        }
    }

    /// The head of an `if` or a `while`: the keyword and a condition in
    /// brackets.
    fn parse_condition(&mut self, keyword: Token) -> (r: Result<BoolExpr, CompilationError>)
        requires
            old(self).wf(),
        ensures
            Self::stepped(*old(self), *final(self)),
            (final(self)@, bool_outcome(r)) == condition_model(
                old(self).token_views(),
                old(self)@,
                keyword,
            ),
            r is Ok ==> final(self)@.ptr >= old(self)@.ptr + 3,
            r is Ok ==> final(self)@.gen.labels + 6 <= old(self)@.gen.labels + 2 * (final(self)@.ptr
                - old(self)@.ptr),
            old(self)@.ptr < old(self).token_views().len() && old(self).token_views()[old(
                self,
            )@.ptr as int].token == keyword ==> final(self)@.ptr > old(self)@.ptr,
    {
        match self.match_tok(keyword) {
            Ok(_) => {},
            Err(e) => {
                return Err(e);
            },
        }
        match self.match_tok(Token::Symbol(Symbol::LParen)) {
            Ok(_) => {},
            Err(e) => {
                return Err(e);
            },
        }
        let boolexpr = match self.parse_boolexpr() {
            Ok(x) => x,
            Err(e) => {
                return Err(e);
            },
        };
        match self.match_tok(Token::Symbol(Symbol::RParen)) {
            Ok(_) => Ok(boolexpr),
            Err(e) => Err(e),
        }
    }

    /// `'if' '(' boolexpr ')' stmt 'else' stmt`
    fn parse_if_stmt(&mut self) -> (r: Result<(), CompilationError>)
        requires
            old(self).wf(),
        ensures
            Self::stepped(*old(self), *final(self)),
            (final(self)@, unit_outcome(r)) == if_stmt_model(old(self).token_views(), old(self)@),
            r is Ok ==> final(self)@.ptr > old(self)@.ptr,
            old(self)@.ptr < old(self).token_views().len() && old(self).token_views()[old(
                self,
            )@.ptr as int].token == Token::Keyword(Keyword::If) ==> final(self)@.ptr > old(
                self,
            )@.ptr,
        decreases old(self).token_views().len() - old(self)@.ptr, 1nat,
    {
        let boolexpr = match self.parse_condition(Token::Keyword(Keyword::If)) {
            Ok(x) => x,
            Err(e) => {
                return Err(e);
            },
        };
        let else_label = self.code_generator.new_label();
        let post_label = self.code_generator.new_label();
        self.push_generated_code(boolexpr.code_generated.as_str());
        let jump_else = self.code_generator.gen_jump_if_false(else_label, boolexpr);
        self.push_generated_code(jump_else.as_str());
        match self.parse_stmt() {
            Ok(_) => {},
            Err(e) => {
                return Err(e);
            },
        }
        match self.match_tok(Token::Keyword(Keyword::Else)) {
            Ok(_) => {},
            Err(e) => {
                return Err(e);
            },
        }
        let jump_post = self.code_generator.gen_jump_to_label(post_label);
        self.push_generated_code(jump_post.as_str());
        let declare_else = self.code_generator.gen_label_decleration(else_label);
        self.push_generated_code(declare_else.as_str());
        match self.parse_stmt() {
            Ok(_) => {},
            Err(e) => {
                return Err(e);
            },
        }
        let declare_post = self.code_generator.gen_label_decleration(post_label);
        self.push_generated_code(declare_post.as_str());
        Ok(())
    }

    /// `'while' '(' boolexpr ')' stmt`
    fn parse_while_stmt(&mut self) -> (r: Result<(), CompilationError>)
        requires
            old(self).wf(),
        ensures
            Self::stepped(*old(self), *final(self)),
            (final(self)@, unit_outcome(r)) == while_stmt_model(
                old(self).token_views(),
                old(self)@,
            ),
            r is Ok ==> final(self)@.ptr > old(self)@.ptr,
            old(self)@.ptr < old(self).token_views().len() && old(self).token_views()[old(
                self,
            )@.ptr as int].token == Token::Keyword(Keyword::While) ==> final(self)@.ptr > old(
                self,
            )@.ptr,
        decreases old(self).token_views().len() - old(self)@.ptr, 1nat,
    {
        let boolexpr = match self.parse_condition(Token::Keyword(Keyword::While)) {
            Ok(x) => x,
            Err(e) => {
                return Err(e);
            },
        };
        let loop_label = self.code_generator.new_label();
        let break_label = self.code_generator.new_label();
        let declare_loop = self.code_generator.gen_label_decleration(loop_label);
        self.push_generated_code(declare_loop.as_str());
        self.push_generated_code(boolexpr.code_generated.as_str());
        let jump_break = self.code_generator.gen_jump_if_false(break_label, boolexpr);
        self.push_generated_code(jump_break.as_str());
        match self.parse_stmt() {
            Ok(_) => {},
            Err(e) => {
                return Err(e);
            },
        }
        let jump_loop = self.code_generator.gen_jump_to_label(loop_label);
        self.push_generated_code(jump_loop.as_str());
        let declare_break = self.code_generator.gen_label_decleration(break_label);
        self.push_generated_code(declare_break.as_str());
        Ok(())
    }

    /// `assignment | input_stmt | output_stmt | if_stmt | while_stmt | stmt_block`
    fn parse_stmt(&mut self) -> (r: Result<(), CompilationError>)
        requires
            old(self).wf(),
        ensures
            Self::stepped(*old(self), *final(self)),
            (final(self)@, unit_outcome(r)) == stmt_model(old(self).token_views(), old(self)@),
            r is Ok ==> final(self)@.ptr > old(self)@.ptr,
            old(self)@.ptr < old(self).token_views().len() && is_stmt_start(
                old(self).token_views()[old(self)@.ptr as int].token,
            ) ==> final(self)@.ptr > old(self)@.ptr,
        decreases old(self).token_views().len() - old(self)@.ptr, 2nat,
    {
        let lookahead_tok = match self.lookahead() {
            Ok(t) => t.token,
            Err(e) => {
                return Err(e);
            },
        };
        if lookahead_tok == Token::Additional(Additional::Ident) {
            self.parse_assignment_stmt()
        } else if lookahead_tok == Token::Keyword(Keyword::Input) {
            self.parse_input_statement()
        } else if lookahead_tok == Token::Keyword(Keyword::Output) {
            self.parse_output_statement()
        } else if lookahead_tok == Token::Keyword(Keyword::While) {
            self.parse_while_stmt()
        } else if lookahead_tok == Token::Keyword(Keyword::If) {
            self.parse_if_stmt()
        } else if lookahead_tok == Token::Symbol(Symbol::LCurly) {
            self.parse_stmt_block()
        } else {
            let expected = vec![
                Token::Additional(Additional::Ident),
                Token::Keyword(Keyword::Input),
                Token::Keyword(Keyword::Output),
                Token::Keyword(Keyword::If),
                Token::Keyword(Keyword::While),
                Token::Symbol(Symbol::LCurly),
            ];
            assert(expected@ =~= stmt_starters());
            Err(
                CompilationError::parsing_error(
                    self.last_seen_line,
                    self.last_seen_column,
                    ParsingErrorKind::unexpected_tok(expected.as_slice(), lookahead_tok),
                ),
            )
        }
    }

    /// `'{' stmt* '}'`
    fn parse_stmt_block(&mut self) -> (r: Result<(), CompilationError>)
        requires
            old(self).wf(),
        ensures
            Self::stepped(*old(self), *final(self)),
            (final(self)@, unit_outcome(r)) == stmt_block_model(
                old(self).token_views(),
                old(self)@,
            ),
            r is Ok ==> final(self)@.ptr > old(self)@.ptr,
            old(self)@.ptr < old(self).token_views().len() && old(self).token_views()[old(
                self,
            )@.ptr as int].token == Token::Symbol(Symbol::LCurly) ==> final(self)@.ptr > old(
                self,
            )@.ptr,
        decreases old(self).token_views().len() - old(self)@.ptr, 1nat,
    {
        match self.match_tok(Token::Symbol(Symbol::LCurly)) {
            Ok(_) => {},
            Err(e) => {
                return Err(e);
            },
        }
        match self.parse_stmtlist() {
            Ok(_) => {},
            Err(e) => {
                return Err(e);
            },
        }
        match self.match_tok(Token::Symbol(Symbol::RCurly)) {
            Ok(_) => Ok(()),
            Err(e) => Err(e),
        }
    }

    /// `stmt*` up to a closing brace, with recovery at the next token that
    /// can start a statement.
    fn parse_stmtlist(&mut self) -> (r: Result<(), CompilationError>)
        requires
            old(self).wf(),
        ensures
            Self::stepped(*old(self), *final(self)),
            (final(self)@, unit_outcome(r)) == stmtlist_model(old(self).token_views(), old(self)@),
        decreases old(self).token_views().len() - old(self)@.ptr, 3nat,
    {
        if self.is_lookahead(Token::Symbol(Symbol::RCurly)) {
            return Ok(());
        }
        let stmt = self.parse_stmt();
        if let Err(error) = stmt {
            match self.try_find_next_stmt() {
                Some(ptr_to_next_stmt) => {
                    self.ptr = ptr_to_next_stmt;
                    let ghost recorded = error_views(self.errors_found@);
                    self.errors_found.push(error);
                    assert(error_views(self.errors_found@) =~= recorded.push(error@));
                },
                None => {
                    return Err(error);
                },
            }
        }
        self.parse_stmtlist()
    }

    /// The first place from the current one on that holds a token which
    /// can start a statement.
    fn try_find_next_stmt(&self) -> (r: Option<usize>)
        requires
            self.wf(),
        ensures
            match r {
                Some(next) => next_stmt_start(self.token_views(), self@.ptr) == Some(next as nat)
                    && self@.ptr <= next < self.token_views().len() && is_stmt_start(
                    self.token_views()[next as int].token,
                ),
                None => next_stmt_start(self.token_views(), self@.ptr) is None,
            },
    {
        let n: usize = self.tokens.len();
        let mut ptr: usize = self.ptr;
        while ptr < n
            invariant
                self.ptr <= ptr <= n,
                n == self.tokens@.len(),
                next_stmt_start(self.token_views(), self@.ptr) == next_stmt_start(
                    self.token_views(),
                    ptr as nat,
                ),
            decreases n - ptr,
        {
            if starts_stmt(self.tokens[ptr].token) {
                return Some(ptr);
            }
            ptr += 1;
        }
        None
    }
}

} // verus!
