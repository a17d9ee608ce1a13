use quadc::compiler::Compiler;
use quadc::error::{CodeGenErrorKind, CompilationErrorKind, ParsingErrorKind};
use quadc::lexer::{split_lines, token_listing, LexReport, LexedToken, Lexer};
use quadc::parser::{starts_stmt, Parser};
use quadc::token::{
    build_regex_set, classification, pattern_text, Additional, Keyword, NonToken, Operator,
    RegexMatch, Symbol, Token,
};

fn lex(text: &str) -> Vec<LexedToken> {
    Lexer::lex_tokens(String::from(text)).expect("the pattern table compiles")
}

fn summary(tokens: &[LexedToken]) -> Vec<(String, Token, usize, usize)> {
    tokens.iter().map(|t| (t.lexeme.0.clone(), t.token, t.line, t.column)).collect()
}

fn compile(text: &str) -> Result<String, Vec<quadc::error::CompilationError>> {
    Compiler::init(String::from(text)).compile()
}

#[test]
fn tokens_carry_text_and_position() {
    let tokens = lex("if x1 <= 10\n  output(y_2);");
    assert_eq!(
        summary(&tokens),
        vec![
            (String::from("if"), Token::Keyword(Keyword::If), 1, 0),
            (String::from("x1"), Token::Additional(Additional::Ident), 1, 3),
            (String::from("<="), Token::Operator(Operator::RELOP), 1, 6),
            (String::from("10"), Token::Additional(Additional::Num), 1, 9),
            (String::from("output"), Token::Keyword(Keyword::Output), 2, 2),
            (String::from("("), Token::Symbol(Symbol::LParen), 2, 8),
            (String::from("y_2"), Token::Additional(Additional::Ident), 2, 9),
            (String::from(")"), Token::Symbol(Symbol::RParen), 2, 12),
            (String::from(";"), Token::Symbol(Symbol::SemiColon), 2, 13),
        ]
    );
}

#[test]
fn longest_match_wins_over_table_order() {
    let kinds: Vec<Token> = lex("iffy if intx int static_cast<int> 3.25 == = ! != || &&")
        .iter()
        .map(|t| t.token)
        .collect();
    assert_eq!(
        kinds,
        vec![
            Token::Additional(Additional::Ident),
            Token::Keyword(Keyword::If),
            Token::Additional(Additional::Ident),
            Token::Keyword(Keyword::Int),
            Token::Operator(Operator::CAST),
            Token::Additional(Additional::Num),
            Token::Operator(Operator::RELOP),
            Token::Symbol(Symbol::Equals),
            Token::Operator(Operator::NOT),
            Token::Operator(Operator::RELOP),
            Token::Operator(Operator::OR),
            Token::Operator(Operator::AND),
        ]
    );
}

#[test]
fn comments_are_passed_over() {
    let tokens = lex("a /* b $ c\n d */ e\n/* f");
    let texts: Vec<String> = tokens.iter().map(|t| t.lexeme.0.clone()).collect();
    assert_eq!(texts, vec![String::from("a"), String::from("e")]);
    assert_eq!(tokens[1].line, 2);
}

#[test]
fn unrecognized_text_is_reported_and_ends_the_line() {
    let lexer = Lexer::new(String::from("a = $ b;\nc 12ab d\ne")).unwrap();
    let (tokens, reports) = lexer.get_all_tokens_and_reports();
    let texts: Vec<String> = tokens.iter().map(|t| t.lexeme.0.clone()).collect();
    assert_eq!(
        texts,
        vec![String::from("a"), String::from("="), String::from("c"), String::from("e")]
    );
    assert_eq!(
        reports,
        vec![LexReport { line: 1, column: 4 }, LexReport { line: 2, column: 2 }]
    );
}

#[test]
fn tokens_can_be_pulled_one_at_a_time() {
    let mut lexer = Lexer::new(String::from("x\n\n+")).unwrap();
    let first = lexer.get_next_token().unwrap();
    assert_eq!((first.lexeme.0.as_str(), first.line, first.column), ("x", 1, 0));
    let second = lexer.get_next_token().unwrap();
    assert_eq!((second.lexeme.0.as_str(), second.line, second.column), ("+", 3, 0));
    assert!(lexer.get_next_token().is_none());
    assert!(lexer.get_next_token().is_none());
    assert!(lexer.reports().is_empty());
    assert!(lex("").is_empty());
}

#[test]
fn lines_are_split_at_line_feeds() {
    assert_eq!(split_lines("a\nb\r\nc"), vec!["a", "b", "c"]);
    assert_eq!(split_lines("a\n\nb\n"), vec!["a", "", "b"]);
    assert_eq!(split_lines("a\rb\r"), vec!["a\rb\r"]);
    assert_eq!(split_lines("\r\n"), vec![""]);
    assert!(split_lines("").is_empty());
}

#[test]
fn the_pattern_table_and_its_classes() {
    assert!(build_regex_set().is_ok());
    assert_eq!(pattern_text(0), "^break$");
    assert_eq!(pattern_text(22), r"^\|\|$");
    assert_eq!(pattern_text(27), r"^[0-9]+(\.[0-9]*)?$");
    assert_eq!(pattern_text(32), "^[0-9]+(.[0-9]*)?[a-zA-Z]+$");
    for i in 0..28usize {
        match classification(i) {
            RegexMatch::Token(t) => assert_eq!(t.id() as usize, i + 10),
            other => panic!("unexpected class: {:?}", other),
        }
    }
    assert!(matches!(classification(28), RegexMatch::NonToken(NonToken::Spaces)));
    assert!(matches!(classification(29), RegexMatch::NonToken(NonToken::StartComment)));
    assert!(matches!(classification(30), RegexMatch::NonToken(NonToken::EndComment)));
    assert!(matches!(classification(31), RegexMatch::NonToken(NonToken::Error(_))));
    assert!(matches!(classification(32), RegexMatch::NonToken(NonToken::Error(_))));
    assert_eq!(classification(28)._get_id(), 0);
    assert_eq!(classification(30)._get_id(), 1);
    assert_eq!(classification(5)._get_id(), 15);
    assert_eq!(RegexMatch::from_token_id(37)._get_id(), 37);
    assert_eq!(Token::Keyword(Keyword::Break).id(), 10);
    assert_eq!(Token::Symbol(Symbol::Equals).id(), 28);
    assert_eq!(Token::Operator(Operator::CAST).id(), 35);
    assert_eq!(Token::Additional(Additional::Num).id(), 37);
    assert_eq!(Token::Keyword(Keyword::While).describe(), "While (Keyword)");
    assert_eq!(Token::Additional(Additional::Ident).describe(), "Ident");
    assert!(starts_stmt(Token::Symbol(Symbol::LCurly)));
    assert!(!starts_stmt(Token::Symbol(Symbol::RCurly)));
}

#[test]
fn a_whole_program() {
    let source = "a, b : int;\n\
                  c : float;\n\
                  {\n\
                  \x20 input(a);\n\
                  \x20 b = a + 1;\n\
                  \x20 if (a < b) output(b); else output(a);\n\
                  \x20 while (b > 0) { b = b - 1; }\n\
                  \x20 c = static_cast<float>(b); /* widen */\n\
                  \x20 output(c);\n\
                  }\n";
    let expected = "IINP a\n\
                    IADD _t0 a 1\n\
                    IASN b _t0\n\
                    ILSS _t1 a b\n\
                    JMPZ L0 _t1\n\
                    IPRT b\n\
                    JUMP L1\n\
                    L0:\n\
                    IPRT a\n\
                    L1:\n\
                    L2:\n\
                    IGRT _t2 b 0\n\
                    JMPZ L3 _t2\n\
                    ISUB _t3 b 1\n\
                    IASN b _t3\n\
                    JUMP L2\n\
                    L3:\n\
                    ITOR _t4 b\n\
                    RASN c _t4\n\
                    RPRT c\n\
                    HALT";
    assert_eq!(compile(source).unwrap(), expected);
}

#[test]
fn the_smallest_program() {
    assert_eq!(compile("{}").unwrap(), "HALT");
    assert_eq!(compile("x : float; { x = 1.0; }").unwrap(), "RASN x 1.0\nHALT");
}

#[test]
fn later_declaration_overwrites_the_type() {
    assert_eq!(
        compile("x : int;\nx : float;\n{ input(x); }").unwrap(),
        "RINP x\nHALT"
    );
}

#[test]
fn two_malformed_statements_give_two_diagnostics() {
    let errors = compile("a : int;\n{\n a = ;\n output(a;\n a = 1;\n}").unwrap_err();
    assert_eq!(errors.len(), 2);
    assert_eq!((errors[0].line, errors[0].column), (3, 5));
    assert_eq!((errors[1].line, errors[1].column), (4, 9));
    for e in errors.iter() {
        assert!(matches!(
            e.err_kind,
            CompilationErrorKind::ParsingError(ParsingErrorKind::UnexpectedToken { .. })
        ));
    }
}

#[test]
fn a_malformed_declaration_is_not_recovered() {
    let errors = compile("a int;\n{ a = ; }").unwrap_err();
    assert_eq!(errors.len(), 1);
    let errors = compile("a : int\nb : int;\n{ a = 1; }").unwrap_err();
    assert_eq!(errors.len(), 1);
    let errors = compile("a : int\n{ a = 1; }").unwrap_err();
    assert_eq!(errors.len(), 1);
    match &errors[0].err_kind {
        CompilationErrorKind::ParsingError(ParsingErrorKind::UnexpectedToken {
            expected,
            found,
        }) => {
            assert_eq!(expected, &vec![Token::Symbol(Symbol::SemiColon)]);
            assert_eq!(*found, Token::Symbol(Symbol::LCurly));
        }
        other => panic!("unexpected diagnostic: {:?}", other),
    }
    assert_eq!((errors[0].line, errors[0].column), (2, 0));
}

#[test]
fn an_error_with_no_later_statement_ends_the_parse() {
    let errors = compile("{ output(1) }").unwrap_err();
    assert_eq!(errors.len(), 1);
    let errors = compile("").unwrap_err();
    assert_eq!(errors.len(), 1);
    assert!(matches!(
        errors[0].err_kind,
        CompilationErrorKind::ParsingError(ParsingErrorKind::UnexpectedEOF)
    ));
}

#[test]
fn assignment_does_not_convert() {
    let errors = compile("a : int; { a = 1.5; }").unwrap_err();
    assert_eq!(errors.len(), 1);
    assert!(matches!(
        errors[0].err_kind,
        CompilationErrorKind::CodeGenError(CodeGenErrorKind::TypeMismatchInAssignment { .. })
    ));
    assert_eq!(
        compile("a : int; { a = static_cast<int>(1.5); }").unwrap(),
        "RTOI _t0 1.5\nIASN a _t0\nHALT"
    );
}

#[test]
fn undeclared_variables_in_statements() {
    let errors = compile("{ input(x); }").unwrap_err();
    assert_eq!(errors.len(), 1);
    assert!(matches!(
        errors[0].err_kind,
        CompilationErrorKind::CodeGenError(CodeGenErrorKind::UndeclaredVariable { .. })
    ));
    let errors = compile("a : int; { x = 1; a = 2; y = 3; }").unwrap_err();
    assert_eq!(errors.len(), 2);
}

#[test]
fn lexical_reports_come_beside_the_outcome() {
    let (outcome, reports) =
        Compiler::init(String::from("a : int;\n{ a = 1; # }\n}")).compile_reporting();
    assert_eq!(outcome.unwrap(), "IASN a 1\nHALT");
    assert_eq!(reports, vec![LexReport { line: 2, column: 9 }]);
    let set = build_regex_set().unwrap();
    let (outcome, reports) = Compiler::init(String::from("{}")).compile_with(set);
    assert_eq!(outcome.unwrap(), "HALT");
    assert!(reports.is_empty());
}

#[test]
fn parser_reads_a_given_token_list() {
    let parser = Parser::new(lex("v : int; { output(v + 2); }"));
    assert_eq!(parser.parse_program().unwrap(), "IADD _t0 v 2\nIPRT _t0\nHALT");
}

#[test]
fn tokens_are_listed_one_on_each_line() {
    assert_eq!(
        token_listing(&lex("while (x) 7")),
        "while: While (Keyword)\n(: LParen (Symbol)\nx: Ident\n): RParen (Symbol)\n7: Num\n"
    );
    assert_eq!(token_listing(&lex("  ")), "");
}

#[test]
fn text_outside_ascii_is_unrecognized() {
    let lexer = Lexer::new(String::from("x \u{e9} y\nz\u{4e2d}")).unwrap();
    let (tokens, reports) = lexer.get_all_tokens_and_reports();
    let texts: Vec<String> = tokens.iter().map(|t| t.lexeme.0.clone()).collect();
    assert_eq!(texts, vec![String::from("x"), String::from("z")]);
    assert_eq!(
        reports,
        vec![LexReport { line: 1, column: 2 }, LexReport { line: 2, column: 1 }]
    );
}

#[test]
fn the_first_matching_pattern_classifies() {
    let tokens = lex("int float");
    assert_eq!(tokens[0].token, Token::Keyword(Keyword::Int));
    assert_eq!(tokens[1].token, Token::Keyword(Keyword::Float));
    let tokens = lex("1a 2");
    assert!(tokens.is_empty());
}
