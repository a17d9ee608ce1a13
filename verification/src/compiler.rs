//! The entry point: source text in, code or diagnostics out.

use vstd::prelude::*;
use vstd::string::*;
use crate::error::{error_views, CompilationError, ErrorView};
use crate::lexer::{reports_of, tokens_of, LexReport, Lexer, TokenView};
use crate::parser::{program_outcome, Parser};
use crate::parser_model::{initial_state, program_model};
use crate::regexset::{regex_set_builds, regex_set_patterns, regex_set_plain};
use crate::token::{build_regex_set, pattern_table};

verus! {

/// A compilation of one source text.
pub struct Compiler {
    source_code: String,
}

/// The most tokens that one compilation takes; the counters of
/// temporaries and labels cannot overflow below it.
pub open spec fn token_limit() -> nat {
    (usize::MAX / 8) as nat
}

/// What parsing a token list gives: the outcome of the program rule, or
/// an internal error where the list is longer than the limit.
pub open spec fn parse_model(tokens: Seq<TokenView>) -> Result<Seq<char>, Seq<ErrorView>> {
    if tokens.len() > token_limit() {
        Err(seq![CompilationError::internal_error_view("Too many tokens."@)])
    } else {
        program_model(tokens, initial_state())
    }
}

/// What compiling a source text gives.
pub open spec fn compile_model(source: Seq<char>) -> Result<Seq<char>, Seq<ErrorView>> {
    parse_model(tokens_of(source))
}

/// What a compilation gives where the matcher refuses the pattern table.
pub open spec fn no_patterns() -> Result<Seq<char>, Seq<ErrorView>> {
    Err(seq![CompilationError::internal_error_view("Failed to build regex set."@)])
}

impl Compiler {
    /// The source text to be compiled.
    pub closed spec fn source(&self) -> Seq<char> {
        self.source_code@
    }

    /// A compiler for the given source text.
    pub fn init(source_code: String) -> (r: Compiler)
        ensures
            r.source() == source_code@,
    {
        Compiler { source_code }
    }

    /// Compiles the source text with the given plain set of the pattern
    /// table: the emitted code, or the diagnostics in the order of
    /// detection; and beside it what the lexer reported.
    pub fn compile_with(self, regex_set: regex::RegexSet) -> (r: (
        Result<String, Vec<CompilationError>>,
        Vec<LexReport>,
    ))
        requires
            regex_set_plain(regex_set),
            regex_set_patterns(regex_set) == pattern_table(),
        ensures
            program_outcome(r.0) == compile_model(self.source()),
            r.1@ == reports_of(self.source()),
    {
        let lexer = Lexer::with_regex_set(self.source_code, regex_set);
        let (tokens, reports) = lexer.get_all_tokens_and_reports();
        if tokens.len() > usize::MAX / 8 {
            let mut errors: Vec<CompilationError> = Vec::new();
            errors.push(CompilationError::internal_error(String::from_str("Too many tokens.")));
            assert(error_views(errors@) =~= seq![
                CompilationError::internal_error_view("Too many tokens."@),
            ]);
            return (Err(errors), reports);
        }
        let parser = Parser::new(tokens);
        (parser.parse_program(), reports)
    }

    /// Compiles the source text, and gives beside the outcome what the
    /// lexer reported. Where the matcher takes the pattern table, the
    /// outcome is that of lexing and parsing the text; where it refuses the
    /// table, the outcome is that one internal error for every text.
    pub fn compile_reporting(self) -> (r: (Result<String, Vec<CompilationError>>, Vec<LexReport>))
        ensures
            regex_set_builds(pattern_table()) ==> program_outcome(r.0) == compile_model(
                self.source(),
            ) && r.1@ == reports_of(self.source()),
            !regex_set_builds(pattern_table()) ==> program_outcome(r.0) == no_patterns() && r.1@
                == Seq::<LexReport>::empty(),
    {
        match build_regex_set() {
            Ok(regex_set) => self.compile_with(regex_set),
            Err(e) => {
                let mut errors: Vec<CompilationError> = Vec::new();
                errors.push(e);
                assert(error_views(errors@) =~= seq![
                    CompilationError::internal_error_view("Failed to build regex set."@),
                ]);
                let reports: Vec<LexReport> = Vec::new();
                assert(reports@ =~= Seq::<LexReport>::empty());
                (Err(errors), reports)
            },
        }
    }

    /// Compiles the source text: the emitted code, or the diagnostics in
    /// the order of detection. Where the matcher takes the pattern table,
    /// the outcome is that of lexing and parsing the text.
    pub fn compile(self) -> (r: Result<String, Vec<CompilationError>>)
        ensures
            regex_set_builds(pattern_table()) ==> program_outcome(r) == compile_model(
                self.source(),
            ),
            !regex_set_builds(pattern_table()) ==> program_outcome(r) == no_patterns(),
    {
        let (outcome, _) = self.compile_reporting();
        outcome
    }
}

} // verus!
