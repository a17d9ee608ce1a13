use quadc::boolexpr::{BoolExpr, RelOp};
use quadc::codegen::{CodeGenerator, CodeReference, VarType};
use quadc::error::{
    CodeGenErrorKind, CompilationError, CompilationErrorKind, ParsingErrorKind,
};
use quadc::expression::{BinaryOp, Expression};
use quadc::lexer::{LexedToken, Lexeme, Lexer};
use quadc::parser::Parser;
use quadc::token::{Additional, Operator, Symbol, Token};

fn parser_for(text: &str) -> Parser {
    Parser::new(Lexer::lex_tokens(String::from(text)).expect("the pattern table compiles"))
}

fn try_expression(text: &str) -> Result<Expression, CompilationError> {
    parser_for(text).parse_expression()
}

fn try_bool_expression(text: &str) -> Result<BoolExpr, CompilationError> {
    parser_for(text).parse_boolexpr()
}

fn compile_expression(expr: &str) -> String {
    match try_expression(expr) {
        Ok(e) => e.code_generated,
        Err(e) => panic!("{}", e.render()),
    }
}

fn compile_bool_expression(expr: &str) -> String {
    match try_bool_expression(expr) {
        Ok(e) => e.code_generated,
        Err(e) => panic!("{}", e.render()),
    }
}

fn compile_expression_with_variables(expr: &str, vars: &[(String, VarType)]) -> String {
    let mut parser = parser_for(expr);
    for (var_name, var_type) in vars.iter() {
        parser.code_generator.register_variable(var_name, *var_type);
    }
    match parser.parse_expression() {
        Ok(e) => e.code_generated,
        Err(e) => panic!("{}", e.render()),
    }
}

fn compilation_test_template(to_compile: &str, expected: &str, compiler: fn(&str) -> String) {
    let compiled = compiler(to_compile);
    if expected != compiled {
        panic!(
            "\n\nUnexpected result while compiling: {}.\n\nExpected: \n{}\n\nFound: \n{}",
            to_compile, expected, compiled
        );
    }
}

#[test]
fn test_expressions() {
    compilation_test_template(
        "2 + 2 * 3 + 1",
        "IMLT _t0 2 3\nIADD _t1 _t0 1\nIADD _t2 2 _t1\n",
        compile_expression,
    );
    compilation_test_template(
        "2.0 + 2 * 3 + 1",
        "IMLT _t0 2 3\nIADD _t1 _t0 1\nITOR _t2 _t1\nRADD _t3 2.0 _t2\n",
        compile_expression,
    );
    compilation_test_template(
        "((2.0 + 2)) * 3 + 1.0",
        "ITOR _t0 2\nRADD _t1 2.0 _t0\nITOR _t2 3\nRMLT _t3 _t1 _t2\nRADD _t4 _t3 1.0\n",
        compile_expression,
    );
    assert_eq!(
        "ITOR _t0 var2\nRADD _t1 var _t0\nRMLT _t2 var _t1\n",
        compile_expression_with_variables(
            "var * (var + static_cast<float> (var2))",
            &[
                (String::from("var"), VarType::Float),
                (String::from("var2"), VarType::Int)
            ]
        )
    );
}

#[test]
fn test_bool_expression() {
    compilation_test_template(
        "1 + 1 > 3 || 2 == 1 + 1",
        "IADD _t0 1 1\n\
        IGRT _t1 _t0 3\n\
        ISUB _t4 1 _t1\n\
        IADD _t2 1 1\n\
        IEQL _t3 2 _t2\n\
        ISUB _t5 1 _t3\n\
        IMLT _t6 _t4 _t5\n\
        ISUB _t7 1 _t6\n",
        compile_bool_expression,
    );
}

#[should_panic(expected = "Undeclared Variable")]
#[test]
fn test_error_1() {
    compile_expression("var + var");
}

#[should_panic(expected = "Unexpected Token")]
#[test]
fn test_error_2() {
    compile_expression("while");
}

#[should_panic(expected = "Unexpected EOF")]
#[test]
fn test_error_3() {
    compile_bool_expression("1 + 1");
}

#[test]
fn undeclared_variable_is_diagnosed_with_all_names() {
    let mut parser = parser_for("var + var");
    parser.code_generator.register_variable("other", VarType::Int);
    parser.code_generator.register_variable("more", VarType::Float);
    let err = parser.parse_expression().unwrap_err();
    assert_eq!(err.line, 1);
    assert_eq!(err.column, 0);
    match err.err_kind {
        CompilationErrorKind::CodeGenError(CodeGenErrorKind::UndeclaredVariable {
            varname,
            all_variables,
        }) => {
            assert_eq!(varname, "var");
            assert_eq!(all_variables, vec![String::from("other"), String::from("more")]);
        }
        other => panic!("unexpected diagnostic: {:?}", other),
    }
}

#[test]
fn keyword_is_no_factor() {
    let err = try_expression("while").unwrap_err();
    match err.err_kind {
        CompilationErrorKind::ParsingError(ParsingErrorKind::UnexpectedToken {
            expected,
            found,
        }) => {
            assert_eq!(
                expected,
                vec![
                    Token::Operator(Operator::CAST),
                    Token::Additional(Additional::Ident),
                    Token::Additional(Additional::Num),
                    Token::Symbol(Symbol::LParen),
                ]
            );
            assert_eq!(found, Token::Keyword(quadc::token::Keyword::While));
        }
        other => panic!("unexpected diagnostic: {:?}", other),
    }
}

#[test]
fn comparison_needs_operator_and_right_side() {
    let err = try_bool_expression("1 + 1").unwrap_err();
    assert!(matches!(
        err.err_kind,
        CompilationErrorKind::ParsingError(ParsingErrorKind::UnexpectedEOF)
    ));
    assert_eq!((err.line, err.column), (0, 0));
}

#[test]
fn operators_group_to_the_right() {
    assert_eq!(
        compile_expression("8 - 4 - 2"),
        "ISUB _t0 4 2\nISUB _t1 8 _t0\n"
    );
    assert_eq!(
        compile_expression("8 / 4 / 2"),
        "IDIV _t0 4 2\nIDIV _t1 8 _t0\n"
    );
}

#[test]
fn float_literals_are_rendered_in_shortest_form() {
    assert_eq!(compile_expression("2. + 1"), "ITOR _t0 1\nRADD _t1 2.0 _t0\n");
    assert_eq!(compile_expression("01.50 * 0.25"), "RMLT _t0 1.5 0.25\n");
    assert_eq!(quadc::text::float_literal_string("10.0100"), Some(String::from("10.01")));
    assert_eq!(quadc::text::float_literal_string("000.000"), Some(String::from("0.0")));
    assert_eq!(quadc::text::float_literal_string(".5"), None);
    assert_eq!(quadc::text::float_literal_string("1.2.3"), None);
    assert_eq!(quadc::text::float_literal_string("12"), None);
}

#[test]
fn integer_literals() {
    assert_eq!(quadc::text::parse_int_literal("0"), Some(0));
    assert_eq!(quadc::text::parse_int_literal("007"), Some(7));
    assert_eq!(quadc::text::parse_int_literal("2147483647"), Some(2147483647));
    assert_eq!(quadc::text::parse_int_literal("2147483648"), None);
    assert_eq!(quadc::text::parse_int_literal("99999999999999999999"), None);
    assert_eq!(quadc::text::parse_int_literal(""), None);
    assert_eq!(quadc::text::parse_int_literal("1a"), None);
    assert_eq!(quadc::text::parse_int_literal("-1"), None);
}

#[test]
fn literal_out_of_range_is_an_internal_error() {
    let err = try_expression("99999999999").unwrap_err();
    match err.err_kind {
        CompilationErrorKind::InternalError(message) => {
            assert_eq!(message, "Could not parse literal: 99999999999");
        }
        other => panic!("unexpected diagnostic: {:?}", other),
    }
}

#[test]
fn decimal_rendering() {
    assert_eq!(quadc::text::decimal_string(0), "0");
    assert_eq!(quadc::text::decimal_string(9), "9");
    assert_eq!(quadc::text::decimal_string(10), "10");
    assert_eq!(quadc::text::decimal_string(1234567890), "1234567890");
    assert_eq!(quadc::text::int_string(-42), "-42");
    assert_eq!(quadc::text::int_string(i32::MIN), "-2147483648");
    assert_eq!(quadc::text::int_string(i32::MAX), "2147483647");
}

#[test]
fn promotion_is_commutative() {
    let all = [VarType::Int, VarType::Float];
    for a in all {
        for b in all {
            assert_eq!(a.combine(b), b.combine(a));
        }
    }
    assert_eq!(VarType::Int.combine(VarType::Int), VarType::Int);
    assert_eq!(VarType::Int.combine(VarType::Float), VarType::Float);
    assert_eq!(VarType::Float.combine(VarType::Int), VarType::Float);
    assert_eq!(VarType::Float.combine(VarType::Float), VarType::Float);
    assert_eq!(VarType::Int.as_str(), "int");
    assert_eq!(VarType::Float.as_str(), "float");
}

#[test]
fn cast_to_own_type_emits_nothing() {
    let mut codegen = CodeGenerator::new();
    let e = Expression::cast(VarType::Int, Expression::int_literal(5), &mut codegen);
    assert_eq!(e.ty, VarType::Int);
    assert!(matches!(e.code_ref, CodeReference::IntLiteral(5)));
    assert_eq!(e.code_generated, "");
    assert_eq!(codegen.temp_count(), 0);

    assert_eq!(compile_expression("static_cast<int>(3)"), "");
    assert_eq!(compile_expression("static_cast<float>(2.5)"), "");
}

#[test]
fn cast_to_other_type_takes_a_temporary() {
    let mut codegen = CodeGenerator::new();
    let e = Expression::cast(VarType::Float, Expression::int_literal(5), &mut codegen);
    assert_eq!(e.ty, VarType::Float);
    assert_eq!(e.code_ref.render(), "_t0");
    assert_eq!(e.code_generated, "ITOR _t0 5\n");
    assert_eq!(codegen.temp_count(), 1);
    assert_eq!(codegen.get_var_type("_t0").unwrap(), VarType::Float);

    let f = Expression::cast(
        VarType::Int,
        Expression::float_literal(String::from("2.5")),
        &mut codegen,
    );
    assert_eq!(f.code_generated, "RTOI _t1 2.5\n");
    assert_eq!(compile_expression("static_cast<int>(2.5 + 1.0)"), "RADD _t0 2.5 1.0\nRTOI _t1 _t0\n");
}

#[test]
fn double_negation_is_not_simplified() {
    assert_eq!(
        compile_bool_expression("!(!(1 < 2))"),
        "ILSS _t0 1 2\nISUB _t1 1 _t0\nISUB _t2 1 _t1\n"
    );
    assert_eq!(compile_bool_expression("!(1 < 2)"), "ILSS _t0 1 2\nISUB _t1 1 _t0\n");
}

#[test]
fn or_emits_both_operands() {
    let code = compile_bool_expression("1 == 1 || 2 == 3");
    assert_eq!(
        code,
        "IEQL _t0 1 1\nISUB _t2 1 _t0\nIEQL _t1 2 3\nISUB _t3 1 _t1\nIMLT _t4 _t2 _t3\nISUB _t5 1 _t4\n"
    );
    let mut codegen = CodeGenerator::new();
    let a = BoolExpr {
        code_ref: CodeReference::VarName(String::from("a")),
        code_generated: String::from("<left>"),
    };
    let b = BoolExpr {
        code_ref: CodeReference::VarName(String::from("b")),
        code_generated: String::from("<right>"),
    };
    let r = BoolExpr::or(a, b, &mut codegen);
    assert_eq!(
        r.code_generated,
        "<left>ISUB _t0 1 a\n<right>ISUB _t1 1 b\nIMLT _t2 _t0 _t1\nISUB _t3 1 _t2\n"
    );
    assert_eq!(r.code_ref.render(), "_t3");
    assert_eq!(codegen.temp_count(), 4);
}

#[test]
fn and_is_a_product() {
    assert_eq!(
        compile_bool_expression("1 < 2 && 2.0 != 3"),
        "ILSS _t0 1 2\nITOR _t1 3\nRNQL _t2 2.0 _t1\nIMLT _t3 _t0 _t2\n"
    );
}

#[test]
fn comparisons_with_equality_negate_the_strict_ones() {
    assert_eq!(compile_bool_expression("1 <= 2"), "IGRT _t0 1 2\nISUB _t1 1 _t0\n");
    assert_eq!(compile_bool_expression("1 >= 2"), "ILSS _t0 1 2\nISUB _t1 1 _t0\n");
    assert_eq!(
        compile_bool_expression("1 <= 2.5"),
        "ITOR _t0 1\nRGRT _t1 _t0 2.5\nISUB _t2 1 _t1\n"
    );
    let mut codegen = CodeGenerator::new();
    let r = BoolExpr::relop(
        Expression::int_literal(1),
        Expression::int_literal(2),
        RelOp::GrtEq,
        &mut codegen,
    );
    assert_eq!(r.code_generated, "ILSS _t0 1 2\nISUB _t1 1 _t0\n");
    assert!(matches!(&r.code_ref, CodeReference::VarName(name) if name == "_t1"));
    assert_eq!(codegen.temp_count(), 2);
    assert_eq!(compile_bool_expression("1 > 2"), "IGRT _t0 1 2\n");
    assert_eq!(compile_bool_expression("1 != 2"), "INQL _t0 1 2\n");
}

#[test]
fn operators_from_lexemes() {
    assert!(matches!(BinaryOp::from_lexeme(Lexeme(String::from("+"))), BinaryOp::Add));
    assert!(matches!(BinaryOp::from_lexeme(Lexeme(String::from("-"))), BinaryOp::Sub));
    assert!(matches!(BinaryOp::from_lexeme(Lexeme(String::from("*"))), BinaryOp::Mul));
    assert!(matches!(BinaryOp::from_lexeme(Lexeme(String::from("/"))), BinaryOp::Div));
    assert!(BinaryOp::try_from_lexeme(&Lexeme(String::from("%"))).is_none());
    assert!(matches!(RelOp::from_lexeme(Lexeme(String::from("=="))), RelOp::Eq));
    assert!(matches!(RelOp::from_lexeme(Lexeme(String::from("!="))), RelOp::NotEq));
    assert!(matches!(RelOp::from_lexeme(Lexeme(String::from("<"))), RelOp::Less));
    assert!(matches!(RelOp::from_lexeme(Lexeme(String::from(">"))), RelOp::Grt));
    assert!(matches!(RelOp::from_lexeme(Lexeme(String::from("<="))), RelOp::LessEq));
    assert!(matches!(RelOp::from_lexeme(Lexeme(String::from(">="))), RelOp::GrtEq));
    assert!(RelOp::try_from_lexeme(&Lexeme(String::from("="))).is_none());
}

#[test]
fn instruction_texts() {
    let mut codegen = CodeGenerator::new();
    let a = CodeReference::VarName(String::from("x"));
    let b = CodeReference::IntLiteral(-3);
    let c = CodeReference::FloatLiteral(String::from("1.5"));
    assert_eq!(codegen.gen_cast_stmt(VarType::Float, &a, &b), "ITOR x -3\n");
    assert_eq!(codegen.gen_cast_stmt(VarType::Int, &a, &c), "RTOI x 1.5\n");
    assert_eq!(codegen.bin_op(VarType::Int, BinaryOp::Add, &a, &b, &b), "IADD x -3 -3\n");
    assert_eq!(codegen.bin_op(VarType::Float, BinaryOp::Sub, &a, &c, &c), "RSUB x 1.5 1.5\n");
    assert_eq!(codegen.bin_op(VarType::Float, BinaryOp::Mul, &a, &c, &c), "RMLT x 1.5 1.5\n");
    assert_eq!(codegen.bin_op(VarType::Int, BinaryOp::Div, &a, &b, &b), "IDIV x -3 -3\n");
    assert_eq!(codegen.relop(VarType::Int, RelOp::Eq, &a, &b, &b), "IEQL x -3 -3\n");
    assert_eq!(codegen.relop(VarType::Float, RelOp::NotEq, &a, &c, &c), "RNQL x 1.5 1.5\n");
    assert_eq!(codegen.relop(VarType::Int, RelOp::Less, &a, &b, &b), "ILSS x -3 -3\n");
    assert_eq!(codegen.relop(VarType::Float, RelOp::Grt, &a, &c, &c), "RGRT x 1.5 1.5\n");

    let l0 = codegen.new_label();
    let l1 = codegen.new_label();
    assert_eq!(l0.id(), 0);
    assert_eq!(l1.id(), 1);
    assert_eq!(codegen.label_count(), 2);
    assert_eq!(codegen.gen_label_decleration(l1), "L1:\n");
    assert_eq!(codegen.gen_jump_to_label(l0), "JUMP L0\n");
    let cond = BoolExpr { code_ref: a.clone(), code_generated: String::new() };
    assert_eq!(codegen.gen_jump_if_false(l1, cond), "JMPZ L1 x\n");
}

#[test]
fn statements_of_the_generator() {
    let mut codegen = CodeGenerator::new();
    codegen.register_variable("i", VarType::Int);
    codegen.register_variable("f", VarType::Float);
    assert_eq!(codegen.gen_input_stmt("i").unwrap(), "IINP i\n");
    assert_eq!(codegen.gen_input_stmt("f").unwrap(), "RINP f\n");
    assert!(matches!(
        codegen.gen_input_stmt("g"),
        Err(CodeGenErrorKind::UndeclaredVariable { .. })
    ));
    assert_eq!(codegen.gen_output_stmt(Expression::int_literal(4)).unwrap(), "IPRT 4\n");
    assert_eq!(
        codegen.gen_output_stmt(Expression::float_literal(String::from("4.5"))).unwrap(),
        "RPRT 4.5\n"
    );
    assert_eq!(
        codegen.gen_output_stmt(Expression::variable(String::from("f"), VarType::Float)).unwrap(),
        "RPRT f\n"
    );
    assert_eq!(
        codegen.gen_assignment_stmt("i", Expression::int_literal(4)).unwrap(),
        "IASN i 4\n"
    );
    assert_eq!(
        codegen
            .gen_assignment_stmt("f", Expression::float_literal(String::from("4.5")))
            .unwrap(),
        "RASN f 4.5\n"
    );
    match codegen.gen_assignment_stmt("i", Expression::float_literal(String::from("4.5"))) {
        Err(CodeGenErrorKind::TypeMismatchInAssignment {
            expected_ref,
            expected_type,
            found_ref,
            found_type,
        }) => {
            assert_eq!(expected_ref.render(), "i");
            assert_eq!(expected_type, VarType::Int);
            assert_eq!(found_ref.render(), "4.5");
            assert_eq!(found_type, VarType::Float);
        }
        other => panic!("unexpected outcome: {:?}", other),
    }
}

#[test]
fn registration_is_an_upsert() {
    let mut codegen = CodeGenerator::new();
    assert!(codegen.get_var_type("x").is_err());
    codegen.register_variable("x", VarType::Int);
    codegen.register_variable("y", VarType::Float);
    assert_eq!(codegen.get_var_type("x").unwrap(), VarType::Int);
    codegen.register_variable("x", VarType::Float);
    assert_eq!(codegen.get_var_type("x").unwrap(), VarType::Float);
    assert_eq!(codegen.get_var_type("y").unwrap(), VarType::Float);
    match codegen.get_var_type("z") {
        Err(CodeGenErrorKind::UndeclaredVariable { varname, all_variables }) => {
            assert_eq!(varname, "z");
            assert_eq!(all_variables, vec![String::from("x"), String::from("y")]);
        }
        other => panic!("unexpected outcome: {:?}", other),
    }
    let t0 = codegen.new_tmp_var(VarType::Int);
    let t1 = codegen.new_tmp_var(VarType::Float);
    assert_eq!(t0.render(), "_t0");
    assert_eq!(t1.render(), "_t1");
    assert_eq!(codegen.get_var_type("_t1").unwrap(), VarType::Float);
}

#[test]
fn diagnostics_are_rendered_with_position_category_and_details() {
    let eof = CompilationError::unexpected_eof();
    assert_eq!(
        eof.render(),
        "\n[Line 0, Column 0]:\n  Parsing Error: Unexpected EOF Error\n    Unexpected reach of EOF\n"
    );
    let tok = CompilationError::parsing_error(
        3,
        7,
        ParsingErrorKind::unexpected_tok(
            &[Token::Symbol(Symbol::SemiColon), Token::Additional(Additional::Num)],
            Token::Operator(Operator::ADDOP),
        ),
    );
    assert_eq!(
        tok.render(),
        "\n[Line 3, Column 7]:\n  Parsing Error: Unexpected Token Error\n    Expected one of the following tokens: \n\t SemiColon (Symbol)\n\t Num\n    Found:\n\t ADDOP (Operator)\n"
    );
    let undeclared = CompilationError::codegen_error(
        12,
        0,
        CodeGenErrorKind::undefined_variable("v", vec![String::from("a"), String::from("b")]),
    );
    assert_eq!(
        undeclared.render(),
        "\n[Line 12, Column 0]:\n  Code Generation Error: Undeclared Variable Error\n    Use of Undeclared Variable: v\n    These are all of the declared variables: a, b, \n    Fix this error by declaring the variable at the beginning of the program.\n"
    );
    let mismatch = CompilationError::codegen_error(
        1,
        2,
        CodeGenErrorKind::type_mismtach(
            CodeReference::VarName(String::from("a")),
            VarType::Int,
            CodeReference::FloatLiteral(String::from("1.5")),
            VarType::Float,
        ),
    );
    assert_eq!(
        mismatch.render(),
        "\n[Line 1, Column 2]:\n  Code Generation Error: Provided Incorrect type in Assignment Error\n    Expected type int because a has type int\n    But found 1.5 with type float\n    Fix this error by casting 1.5 to int using static_cast<int>.\n"
    );
    let internal = CompilationError::internal_error(String::from("broken"));
    assert_eq!(internal.render(), "\n[Line 0, Column 0]:\n  Internal error: broken\n");
}

fn token(text: &str, token: Token, column: usize) -> LexedToken {
    LexedToken { lexeme: Lexeme(String::from(text)), token, line: 1, column }
}

#[test]
fn tokens_with_texts_they_cannot_have_are_internal_errors() {
    let tokens = vec![
        token("static_cast<double>", Token::Operator(Operator::CAST), 4),
        token("(", Token::Symbol(Symbol::LParen), 23),
    ];
    match Parser::new(tokens).parse_expression().unwrap_err().err_kind {
        CompilationErrorKind::InternalError(message) => assert_eq!(
            message,
            "Lexer mistakenly parsed static_cast<double> as CAST token. Line 1 Column 4"
        ),
        other => panic!("unexpected diagnostic: {:?}", other),
    }
    let tokens = vec![
        token("1", Token::Additional(Additional::Num), 0),
        token("%", Token::Operator(Operator::MULOP), 2),
        token("2", Token::Additional(Additional::Num), 4),
    ];
    match Parser::new(tokens).parse_expression().unwrap_err().err_kind {
        CompilationErrorKind::InternalError(message) => {
            assert_eq!(message, "Could not parse lexeme as an operator: %")
        }
        other => panic!("unexpected diagnostic: {:?}", other),
    }
    let tokens = vec![
        token("1", Token::Additional(Additional::Num), 0),
        token("=", Token::Operator(Operator::RELOP), 2),
        token("2", Token::Additional(Additional::Num), 4),
    ];
    match Parser::new(tokens).parse_boolexpr().unwrap_err().err_kind {
        CompilationErrorKind::InternalError(message) => {
            assert_eq!(message, "Could not parse lexeme as an operator: =")
        }
        other => panic!("unexpected diagnostic: {:?}", other),
    }
    let tokens = vec![token("1x", Token::Additional(Additional::Num), 0)];
    assert!(matches!(
        Parser::new(tokens).parse_expression().unwrap_err().err_kind,
        CompilationErrorKind::InternalError(_)
    ));
}

#[test]
fn a_missing_bracket_is_diagnosed_where_it_is_missed() {
    let err = try_expression("(1 + 2").unwrap_err();
    assert!(matches!(
        err.err_kind,
        CompilationErrorKind::ParsingError(ParsingErrorKind::UnexpectedEOF)
    ));
    let err = try_expression("(1 + 2 ;").unwrap_err();
    match err.err_kind {
        CompilationErrorKind::ParsingError(ParsingErrorKind::UnexpectedToken {
            expected,
            found,
        }) => {
            assert_eq!(expected, vec![Token::Symbol(Symbol::RParen)]);
            assert_eq!(found, Token::Symbol(Symbol::SemiColon));
        }
        other => panic!("unexpected diagnostic: {:?}", other),
    }
    assert_eq!((err.line, err.column), (1, 7));
}

#[test]
fn variables_can_be_registered_with_the_parser() {
    let mut parser = parser_for("n * 2.5");
    parser.register_variable("n", VarType::Int);
    let e = parser.parse_expression().unwrap();
    assert_eq!(e.ty, VarType::Float);
    assert_eq!(e.code_generated, "ITOR _t0 n\nRMLT _t1 _t0 2.5\n");
    assert_eq!(e.code_ref.render(), "_t1");
}

fn single_precision_text(literal: &str) -> String {
    format!("{:?}", literal.parse::<f32>().unwrap())
}

#[test]
fn short_float_literals_render_as_single_precision_does() {
    let fractions = ["", "0", "5", "25", "50", "125", "001", "010", "000", "999"];
    for whole in 0..1000usize {
        for fraction in fractions {
            let literal = format!("{}.{}", whole, fraction);
            assert_eq!(
                quadc::text::float_literal_string(&literal),
                Some(single_precision_text(&literal)),
                "for {}",
                literal
            );
        }
    }
    for literal in [
        "0.0001",
        "0.000100",
        "00.0005",
        "0.123456",
        "123456.0",
        "1234.56",
        "007.50",
        "1000000.0",
        "1000000000000000.0",
        "9999990000000000.",
        "16777216.0",
    ] {
        assert_eq!(
            quadc::text::float_literal_string(literal),
            Some(single_precision_text(literal)),
            "for {}",
            literal
        );
    }
}

#[test]
fn long_float_literals_keep_their_own_digits() {
    assert_eq!(
        quadc::text::float_literal_string("0.123456789"),
        Some(String::from("0.123456789"))
    );
    assert_eq!(single_precision_text("0.123456789"), "0.12345679");
    assert_eq!(
        quadc::text::float_literal_string("16777217.0"),
        Some(String::from("16777217.0"))
    );
    assert_eq!(single_precision_text("16777217.0"), "16777216.0");
    assert_eq!(
        quadc::text::float_literal_string("100000000000000000000.0"),
        Some(String::from("100000000000000000000.0"))
    );
    assert_eq!(single_precision_text("100000000000000000000.0"), "1e20");
    assert_eq!(
        quadc::text::float_literal_string("0.00001"),
        Some(String::from("0.00001"))
    );
    assert_eq!(single_precision_text("0.00001"), "1e-5");
}
