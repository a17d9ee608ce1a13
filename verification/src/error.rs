//! Diagnostics: what went wrong, and where in the source.

use vstd::prelude::*;
use vstd::string::*;
use crate::codegen::{ref_text, CodeReference, RefView, VarType};
use crate::text::{decimal, decimal_string};
use crate::token::Token;

verus! {

/// A semantic error found while code was generated.
#[derive(Debug)]
pub enum CodeGenErrorKind {
    UndeclaredVariable { varname: String, all_variables: Vec<String> },
    TypeMismatchInAssignment {
        expected_ref: CodeReference,
        expected_type: VarType,
        found_ref: CodeReference,
        found_type: VarType,
    },
}

/// A violation of the grammar.
#[derive(Debug)]
pub enum ParsingErrorKind {
    UnexpectedEOF,
    UnexpectedToken { expected: Vec<Token>, found: Token },
}

/// A lexical error. The library never makes one: the lexer reports what
/// it cannot read on the spot and goes on.
#[derive(Copy, Clone, Debug)]
pub enum LexingErrorKind {
    UnrecognizedToken,
}

/// A diagnostic: a position in the source and what was found there.
#[derive(Debug)]
pub struct CompilationError {
    pub line: usize,
    pub column: usize,
    pub err_kind: CompilationErrorKind,
}

/// What a diagnostic found.
#[derive(Debug)]
pub enum CompilationErrorKind {
    InternalError(String),
    ParsingError(ParsingErrorKind),
    CodeGenError(CodeGenErrorKind),
    LexingError(LexingErrorKind),
}

/// What a [`CodeGenErrorKind`] stands for.
pub enum CodeGenErrorView {
    UndeclaredVariable { varname: Seq<char>, all_variables: Seq<Seq<char>> },
    TypeMismatchInAssignment {
        expected_ref: RefView,
        expected_type: VarType,
        found_ref: RefView,
        found_type: VarType,
    },
}

/// What a [`ParsingErrorKind`] stands for.
pub enum ParsingErrorView {
    UnexpectedEOF,
    UnexpectedToken { expected: Seq<Token>, found: Token },
}

/// What a [`CompilationErrorKind`] stands for.
pub enum ErrorKindView {
    InternalError(Seq<char>),
    ParsingError(ParsingErrorView),
    CodeGenError(CodeGenErrorView),
    LexingError,
}

/// What a [`CompilationError`] stands for.
pub struct ErrorView {
    pub line: nat,
    pub column: nat,
    pub kind: ErrorKindView,
}

impl View for CodeGenErrorKind {
    type V = CodeGenErrorView;

    open spec fn view(&self) -> CodeGenErrorView {
        match self {
            CodeGenErrorKind::UndeclaredVariable { varname, all_variables } => {
                CodeGenErrorView::UndeclaredVariable {
                    varname: varname@,
                    all_variables: all_variables.deep_view(),
                }
            },
            CodeGenErrorKind::TypeMismatchInAssignment {
                expected_ref,
                expected_type,
                found_ref,
                found_type,
            } => CodeGenErrorView::TypeMismatchInAssignment {
                expected_ref: expected_ref@,
                expected_type: *expected_type,
                found_ref: found_ref@,
                found_type: *found_type,
            },
        }
    }
}

impl View for ParsingErrorKind {
    type V = ParsingErrorView;

    open spec fn view(&self) -> ParsingErrorView {
        match self {
            ParsingErrorKind::UnexpectedEOF => ParsingErrorView::UnexpectedEOF,
            ParsingErrorKind::UnexpectedToken { expected, found } => {
                ParsingErrorView::UnexpectedToken { expected: expected@, found: *found }
            },
        }
    }
}

impl View for CompilationErrorKind {
    type V = ErrorKindView;

    open spec fn view(&self) -> ErrorKindView {
        match self {
            CompilationErrorKind::InternalError(s) => ErrorKindView::InternalError(s@),
            CompilationErrorKind::ParsingError(e) => ErrorKindView::ParsingError(e@),
            CompilationErrorKind::CodeGenError(e) => ErrorKindView::CodeGenError(e@),
            CompilationErrorKind::LexingError(_) => ErrorKindView::LexingError,
        }
    }
}

impl View for CompilationError {
    type V = ErrorView;

    open spec fn view(&self) -> ErrorView {
        ErrorView { line: self.line as nat, column: self.column as nat, kind: self.err_kind@ }
    }
}

/// The diagnostics of a list, each as what it stands for.
pub open spec fn error_views(errors: Seq<CompilationError>) -> Seq<ErrorView> {
    Seq::new(errors.len(), |i: int| errors[i]@)
}

impl CompilationError {
    /// A grammar violation at the given position.
    pub open spec fn parsing_error_view(line: nat, column: nat, kind: ParsingErrorView) -> ErrorView {
        ErrorView { line, column, kind: ErrorKindView::ParsingError(kind) }
    }

    /// A semantic error at the given position.
    pub open spec fn codegen_error_view(line: nat, column: nat, kind: CodeGenErrorView) -> ErrorView {
        ErrorView { line, column, kind: ErrorKindView::CodeGenError(kind) }
    }

    /// A broken invariant of the compiler itself; it has no position.
    pub open spec fn internal_error_view(desc: Seq<char>) -> ErrorView {
        ErrorView { line: 0, column: 0, kind: ErrorKindView::InternalError(desc) }
    }

    /// The end of the input where a token was expected; it has no position.
    pub open spec fn unexpected_eof_view() -> ErrorView {
        ErrorView {
            line: 0,
            column: 0,
            kind: ErrorKindView::ParsingError(ParsingErrorView::UnexpectedEOF),
        }
    }

    /// A grammar violation at the given position.
    pub fn parsing_error(line: usize, column: usize, err_kind: ParsingErrorKind) -> (r: Self)
        ensures
            r@ == Self::parsing_error_view(line as nat, column as nat, err_kind@),
    {
        Self { line, column, err_kind: CompilationErrorKind::ParsingError(err_kind) }
    }

    /// A semantic error at the given position.
    pub fn codegen_error(line: usize, column: usize, err_kind: CodeGenErrorKind) -> (r: Self)
        ensures
            r@ == Self::codegen_error_view(line as nat, column as nat, err_kind@),
    {
        Self { line, column, err_kind: CompilationErrorKind::CodeGenError(err_kind) }
    }

    /// A broken invariant of the compiler itself; it has no position.
    pub fn internal_error(desc: String) -> (r: Self)
        ensures
            r@ == Self::internal_error_view(desc@),
    {
        Self { line: 0, column: 0, err_kind: CompilationErrorKind::InternalError(desc) }
    }

    /// The end of the input where a token was expected; it has no position.
    pub fn unexpected_eof() -> (r: Self)
        ensures
            r@ == Self::unexpected_eof_view(),
    {
        Self {
            line: 0,
            column: 0,
            err_kind: CompilationErrorKind::ParsingError(ParsingErrorKind::UnexpectedEOF),
        }
    }
}

impl CodeGenErrorKind {
    /// The use of a name that was never registered, with all names that
    /// were.
    pub fn undefined_variable(var_name: &str, all_variables: Vec<String>) -> (r: Self)
        ensures
            r@ == (CodeGenErrorView::UndeclaredVariable {
                varname: var_name@,
                all_variables: all_variables.deep_view(),
            }),
    {
        Self::UndeclaredVariable { varname: String::from_str(var_name), all_variables }
    }

    /// An assignment whose two sides have different types.
    pub fn type_mismtach(
        expected_ref: CodeReference,
        expected_type: VarType,
        found_ref: CodeReference,
        found_type: VarType,
    ) -> (r: Self)
        ensures
            r@ == (CodeGenErrorView::TypeMismatchInAssignment {
                expected_ref: expected_ref@,
                expected_type,
                found_ref: found_ref@,
                found_type,
            }),
    {
        CodeGenErrorKind::TypeMismatchInAssignment {
            expected_ref,
            expected_type,
            found_ref,
            found_type,
        }
    }
}

impl ParsingErrorKind {
    /// A token that is none of those the grammar allows at its place.
    pub fn unexpected_tok(expected: &[Token], found: Token) -> (r: Self)
        ensures
            r@ == (ParsingErrorView::UnexpectedToken { expected: expected@, found }),
    {
        let n: usize = expected.len();
        let mut list: Vec<Token> = Vec::new();
        let mut i: usize = 0;
        while i < n
            invariant
                i <= n,
                n == expected@.len(),
                list@ == expected@.take(i as int),
            decreases n - i,
        {
            list.push(expected[i]);
            assert(list@ =~= expected@.take(i as int + 1));
            i = i + 1;
        }
        assert(expected@.take(n as int) =~= expected@);
        Self::UnexpectedToken { expected: list, found }
    }
}

/// The expected tokens as a diagnostic lists them: each on a line of its
/// own.
pub open spec fn token_lines(expected: Seq<Token>) -> Seq<char>
    decreases expected.len(),
{
    if expected.len() == 0 {
        Seq::empty()
    } else {
        token_lines(expected.drop_last()) + "\n\t "@ + expected.last().description()
    }
}

/// The registered names as a diagnostic lists them: each followed by a
/// comma and a space.
pub open spec fn name_list(names: Seq<Seq<char>>) -> Seq<char>
    decreases names.len(),
{
    if names.len() == 0 {
        Seq::empty()
    } else {
        name_list(names.drop_last()) + names.last() + ", "@
    }
}

/// The text of a grammar violation: the category, then the details.
pub open spec fn parsing_error_text(e: ParsingErrorView) -> Seq<char> {
    match e {
        ParsingErrorView::UnexpectedEOF => "Unexpected EOF Error\n    Unexpected reach of EOF"@,
        ParsingErrorView::UnexpectedToken { expected, found } => {
            "Unexpected Token Error\n    Expected one of the following tokens: "@ + token_lines(
                expected,
            ) + "\n    Found:"@ + "\n\t "@ + found.description()
        },
    }
}

/// The text of a semantic error: the category, then the details.
pub open spec fn codegen_error_text(e: CodeGenErrorView) -> Seq<char> {
    match e {
        CodeGenErrorView::UndeclaredVariable { varname, all_variables } => {
            "Undeclared Variable Error\n    Use of Undeclared Variable: "@ + varname
                + "\n    These are all of the declared variables: "@ + name_list(all_variables)
                + "\n    Fix this error by declaring the variable at the beginning of the program."@
        },
        CodeGenErrorView::TypeMismatchInAssignment {
            expected_ref,
            expected_type,
            found_ref,
            found_type,
        } => {
            "Provided Incorrect type in Assignment Error\n    Expected type "@
                + expected_type.spec_as_str() + " because "@ + ref_text(
                expected_ref,
            ) + " has type "@ + expected_type.spec_as_str() + "\n    But found "@
                + ref_text(found_ref) + " with type "@ + found_type.spec_as_str()
                + "\n    Fix this error by casting "@ + ref_text(found_ref)
                + " to "@ + expected_type.spec_as_str() + " using static_cast<"@
                + expected_type.spec_as_str() + ">."@
        },
    }
}

/// The text of what a diagnostic found.
pub open spec fn error_kind_text(e: ErrorKindView) -> Seq<char> {
    match e {
        ErrorKindView::InternalError(desc) => "  Internal error: "@ + desc,
        ErrorKindView::ParsingError(e) => "  Parsing Error: "@ + parsing_error_text(e),
        ErrorKindView::LexingError => "  Lexing Error: "@,
        ErrorKindView::CodeGenError(e) => "  Code Generation Error: "@ + codegen_error_text(e),
    }
}

/// The text of a diagnostic: the position in square brackets, then what
/// was found there.
pub open spec fn error_text(e: ErrorView) -> Seq<char> {
    "\n[Line "@ + decimal(e.line) + ", Column "@ + decimal(e.column)
        + "]:\n"@ + error_kind_text(e.kind) + "\n"@
}

impl ParsingErrorKind {
    /// The text of the error: the category, then the details.
    pub fn render(&self) -> (r: String)
        ensures
            r@ == parsing_error_text(self@),
    {
        match self {
            ParsingErrorKind::UnexpectedEOF => String::from_str(
                "Unexpected EOF Error\n    Unexpected reach of EOF",
            ),
            ParsingErrorKind::UnexpectedToken { expected, found } => {
                let mut out = String::from_str(
                    "Unexpected Token Error\n    Expected one of the following tokens: ",
                );
                let ghost head = out@;
                let n: usize = expected.len();
                let mut i: usize = 0;
                assert(token_lines(expected@.take(0)) =~= Seq::<char>::empty());
                assert(head + Seq::<char>::empty() =~= head);
                while i < n
                    invariant
                        i <= n,
                        n == expected@.len(),
                        out@ == head + token_lines(expected@.take(i as int)),
                    decreases n - i,
                {
                    let name = expected[i].describe();
                    out.append("\n\t ");
                    out.append(name.as_str());
                    proof {
                        assert(expected@.take(i as int + 1).drop_last() =~= expected@.take(
                            i as int,
                        ));
                        assert(expected@.take(i as int + 1).last() == expected@[i as int]);
                        assert(out@ =~= head + token_lines(expected@.take(i as int + 1)));
                    }
                    i = i + 1;
                }
                assert(expected@.take(n as int) =~= expected@);
                out.append("\n    Found:");
                out.append("\n\t ");
                let name = found.describe();
                out.append(name.as_str());
                out
            },
        }
    }
}

impl CodeGenErrorKind {
    /// The text of the error: the category, then the details.
    pub fn render(&self) -> (r: String)
        ensures
            r@ == codegen_error_text(self@),
    {
        match self {
            CodeGenErrorKind::UndeclaredVariable { varname, all_variables } => {
                let mut out = String::from_str(
                    "Undeclared Variable Error\n    Use of Undeclared Variable: ",
                );
                out.append(varname.as_str());
                out.append("\n    These are all of the declared variables: ");
                let ghost head = out@;
                let ghost names = all_variables.deep_view();
                let n: usize = all_variables.len();
                let mut i: usize = 0;
                assert(name_list(names.take(0)) =~= Seq::<char>::empty());
                assert(head + Seq::<char>::empty() =~= head);
                while i < n
                    invariant
                        i <= n,
                        n == all_variables@.len(),
                        names == all_variables.deep_view(),
                        out@ == head + name_list(names.take(i as int)),
                    decreases n - i,
                {
                    out.append(all_variables[i].as_str());
                    out.append(", ");
                    proof {
                        assert(names.take(i as int + 1).drop_last() =~= names.take(i as int));
                        assert(names.take(i as int + 1).last() == all_variables@[i as int]@);
                        assert(out@ =~= head + name_list(names.take(i as int + 1)));
                    }
                    i = i + 1;
                }
                assert(names.take(n as int) =~= names);
                out.append(
                    "\n    Fix this error by declaring the variable at the beginning of the program.",
                );
                out
            },
            CodeGenErrorKind::TypeMismatchInAssignment {
                expected_ref,
                expected_type,
                found_ref,
                found_type,
            } => {
                let expected_text = expected_ref.render();
                let found_text = found_ref.render();
                let mut out = String::from_str(
                    "Provided Incorrect type in Assignment Error\n    Expected type ",
                );
                out.append(expected_type.as_str());
                out.append(" because ");
                out.append(expected_text.as_str());
                out.append(" has type ");
                out.append(expected_type.as_str());
                out.append("\n    But found ");
                out.append(found_text.as_str());
                out.append(" with type ");
                out.append(found_type.as_str());
                out.append("\n    Fix this error by casting ");
                out.append(found_text.as_str());
                out.append(" to ");
                out.append(expected_type.as_str());
                out.append(" using static_cast<");
                out.append(expected_type.as_str());
                out.append(">.");
                out
            },
        }
    }
}

impl CompilationErrorKind {
    /// The text of what a diagnostic found.
    pub fn render(&self) -> (r: String)
        ensures
            r@ == error_kind_text(self@),
    {
        match self {
            CompilationErrorKind::InternalError(desc) => {
                let mut out = String::from_str("  Internal error: ");
                out.append(desc.as_str());
                out
            },
            CompilationErrorKind::ParsingError(e) => {
                let mut out = String::from_str("  Parsing Error: ");
                let details = e.render();
                out.append(details.as_str());
                out
            },
            CompilationErrorKind::LexingError(_) => String::from_str("  Lexing Error: "),
            CompilationErrorKind::CodeGenError(e) => {
                let mut out = String::from_str("  Code Generation Error: ");
                let details = e.render();
                out.append(details.as_str());
                out
            },
        }
    }
}

impl CompilationError {
    /// The text of the diagnostic: the position in square brackets, then
    /// what was found there.
    pub fn render(&self) -> (r: String)
        ensures
            r@ == error_text(self@),
    {
        let mut out = String::from_str("\n[Line ");
        let line = decimal_string(self.line);
        out.append(line.as_str());
        out.append(", Column ");
        let column = decimal_string(self.column);
        out.append(column.as_str());
        out.append("]:\n");
        let kind = self.err_kind.render();
        out.append(kind.as_str());
        out.append("\n");
        out
    }
}

} // verus!
