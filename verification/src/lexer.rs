//! The lexer: source text to tokens, by longest match against the pattern
//! table, one line at a time.

use vstd::prelude::*;
use vstd::std_specs::iter::IteratorSpec;
use vstd::string::*;
use crate::error::CompilationError;
use crate::regexset::{
    matching_patterns,
    regex_set_builds,
    regex_set_matches,
    regex_set_patterns,
    regex_set_plain,
};
use crate::token::{
    build_regex_set,
    class_at,
    classification,
    pattern_table,
    NonToken,
    RegexMatch,
    Token,
    PATTERN_COUNT,
};

verus! {

/// The exact text that produced a token.
#[derive(Debug)]
pub struct Lexeme(pub String);

impl View for Lexeme {
    type V = Seq<char>;

    open spec fn view(&self) -> Seq<char> {
        self.0@
    }
}

impl Clone for Lexeme {
    fn clone(&self) -> (r: Self)
        ensures
            r@ == self@,
    {
        Lexeme(self.0.clone())
    }
}

/// A token with its text and the place of its first character: the line
/// counted from 1, the column from 0.
#[derive(Debug)]
pub struct LexedToken {
    pub lexeme: Lexeme,
    pub token: Token,
    pub line: usize,
    pub column: usize,
}

/// What a [`LexedToken`] stands for.
pub struct TokenView {
    pub lexeme: Seq<char>,
    pub token: Token,
    pub line: nat,
    pub column: nat,
}

impl View for LexedToken {
    type V = TokenView;

    open spec fn view(&self) -> TokenView {
        TokenView {
            lexeme: self.lexeme@,
            token: self.token,
            line: self.line as nat,
            column: self.column as nat,
        }
    }
}

impl Clone for LexedToken {
    fn clone(&self) -> (r: Self)
        ensures
            r@ == self@,
    {
        LexedToken {
            lexeme: self.lexeme.clone(),
            token: self.token,
            line: self.line,
            column: self.column,
        }
    }
}

/// The tokens of a list, each as what it stands for.
pub open spec fn token_views(tokens: Seq<LexedToken>) -> Seq<TokenView> {
    Seq::new(tokens.len(), |i: int| tokens[i]@)
}

/// The report of text that is no token: the line, counted from 1, and the
/// column, counted from 0, where it starts.
#[derive(Copy, Clone, Debug, PartialEq, Eq, Structural)]
pub struct LexReport {
    pub line: usize,
    pub column: usize,
}

/// Where the lexer stands: the line and column, both counted from 0,
/// whether it is inside a comment, and what it has reported.
pub struct LexState {
    pub line: nat,
    pub col: nat,
    pub in_comment: bool,
    pub reports: Seq<LexReport>,
}

/// The lexer over one source text.
pub struct Lexer {
    lines: Vec<String>,
    current_line: usize,
    current_char: usize,
    in_comment: bool,
    regex_set: regex::RegexSet,
    reports: Vec<LexReport>,
}

/// A line without the carriage return that may end it.
pub open spec fn without_cr(line: Seq<char>) -> Seq<char> {
    if line.len() > 0 && line.last() == '\r' {
        line.drop_last()
    } else {
        line
    }
}

/// The lines of `s` from position `i` on, where the current line began at
/// `start`. A line ends at a line feed, which is not part of it, nor is a
/// carriage return just before it. Text after the last line feed is a line
/// of its own.
pub open spec fn lines_from(s: Seq<char>, start: int, i: int) -> Seq<Seq<char>>
    decreases s.len() - i,
{
    if i < start || start < 0 {
        Seq::empty()
    } else if i >= s.len() {
        if start < s.len() {
            seq![s.subrange(start, s.len() as int)]
        } else {
            Seq::empty()
        }
    } else if s[i] == '\n' {
        seq![without_cr(s.subrange(start, i))] + lines_from(s, i + 1, i + 1)
    } else {
        lines_from(s, start, i + 1)
    }
}

/// The lines of a source text.
pub open spec fn lines_of(s: Seq<char>) -> Seq<Seq<char>> {
    lines_from(s, 0, 0)
}

/// The length of the longest of the first `n` prefixes of `rest` that some
/// pattern matches, or 0 where none of them is matched.
pub open spec fn longest_match_len(patterns: Seq<Seq<char>>, rest: Seq<char>, n: nat) -> nat
    decreases n,
{
    if n == 0 {
        0
    } else if regex_set_matches(patterns, rest.take(n as int)).len() > 0 {
        n
    } else {
        longest_match_len(patterns, rest, (n - 1) as nat)
    }
}

/// How many characters the next piece of `rest` has: the longest prefix
/// that a pattern matches, or one character that no pattern knows.
pub open spec fn piece_len(patterns: Seq<Seq<char>>, rest: Seq<char>) -> nat {
    let k = longest_match_len(patterns, rest, rest.len());
    if k == 0 {
        1
    } else {
        k
    }
}

/// What the next piece of `rest` is: the classification of the first
/// pattern that matches the longest matched prefix; an error where no
/// pattern matches any prefix.
pub open spec fn piece_class(patterns: Seq<Seq<char>>, rest: Seq<char>) -> RegexMatch {
    let k = longest_match_len(patterns, rest, rest.len());
    if k == 0 {
        class_at(PATTERN_COUNT - 1)
    } else {
        class_at(regex_set_matches(patterns, rest.take(k as int))[0] as int)
    }
}

/// How many characters of the current line are still to be read.
pub open spec fn chars_left(lines: Seq<Seq<char>>, st: LexState) -> nat {
    if st.line < lines.len() && st.col <= lines[st.line as int].len() {
        (lines[st.line as int].len() - st.col) as nat
    } else {
        0
    }
}

/// One step of the lexer inside a line: it reads the next piece and
/// either hands out a token or only moves on. A comment mark switches the
/// comment state; inside a comment everything else is passed over; outside
/// one, white space is passed over, a token is handed out, and text that is
/// no token is reported and ends the line.
pub open spec fn lex_step(patterns: Seq<Seq<char>>, lines: Seq<Seq<char>>, st: LexState) -> (
    LexState,
    Option<TokenView>,
) {
    let rest = lines[st.line as int].subrange(st.col as int, lines[st.line as int].len() as int);
    let k = piece_len(patterns, rest);
    let moved = LexState { col: st.col + k, ..st };
    match piece_class(patterns, rest) {
        RegexMatch::NonToken(NonToken::StartComment) => (
            LexState { in_comment: true, ..moved },
            None,
        ),
        RegexMatch::NonToken(NonToken::EndComment) => (
            LexState { in_comment: false, ..moved },
            None,
        ),
        RegexMatch::NonToken(NonToken::Error(_)) => if st.in_comment {
            (moved, None)
        } else {
            (
                LexState {
                    line: st.line + 1,
                    col: 0,
                    in_comment: false,
                    reports: st.reports.push(
                        LexReport { line: (st.line + 1) as usize, column: st.col as usize },
                    ),
                },
                None,
            )
        },
        RegexMatch::NonToken(_) => (moved, None),
        RegexMatch::Token(token) => if st.in_comment {
            (moved, None)
        } else {
            (
                moved,
                Some(
                    TokenView {
                        lexeme: rest.take(k as int),
                        token,
                        line: st.line + 1,
                        column: st.col,
                    },
                ),
            )
        },
    }
}

/// The next token from a state on, with the state after it; no token
/// where the input ends first.
pub open spec fn next_token_from(patterns: Seq<Seq<char>>, lines: Seq<Seq<char>>, st: LexState) -> (
    LexState,
    Option<TokenView>,
)
    decreases lines.len() - st.line, chars_left(lines, st),
{
    if st.line >= lines.len() {
        (st, None)
    } else if st.col >= lines[st.line as int].len() {
        next_token_from(patterns, lines, LexState { line: st.line + 1, col: 0, ..st })
    } else {
        let (st2, tok) = lex_step(patterns, lines, st);
        match tok {
            Some(t) => (st2, Some(t)),
            None => next_token_from(patterns, lines, st2),
        }
    }
}

/// All tokens from a state on.
pub open spec fn tokens_from(patterns: Seq<Seq<char>>, lines: Seq<Seq<char>>, st: LexState) -> Seq<
    TokenView,
>
    decreases lines.len() - st.line, chars_left(lines, st),
{
    if st.line >= lines.len() {
        Seq::empty()
    } else if st.col >= lines[st.line as int].len() {
        tokens_from(patterns, lines, LexState { line: st.line + 1, col: 0, ..st })
    } else {
        let (st2, tok) = lex_step(patterns, lines, st);
        match tok {
            Some(t) => seq![t] + tokens_from(patterns, lines, st2),
            None => tokens_from(patterns, lines, st2),
        }
    }
}

/// All reports made from a state on, after those made before.
pub open spec fn reports_from(patterns: Seq<Seq<char>>, lines: Seq<Seq<char>>, st: LexState) -> Seq<
    LexReport,
>
    decreases lines.len() - st.line, chars_left(lines, st),
{
    if st.line >= lines.len() {
        st.reports
    } else if st.col >= lines[st.line as int].len() {
        reports_from(patterns, lines, LexState { line: st.line + 1, col: 0, ..st })
    } else {
        reports_from(patterns, lines, lex_step(patterns, lines, st).0)
    }
}

/// The state in which lexing starts.
pub open spec fn start_state() -> LexState {
    LexState { line: 0, col: 0, in_comment: false, reports: Seq::empty() }
}

/// The tokens of a source text.
pub open spec fn tokens_of(source: Seq<char>) -> Seq<TokenView> {
    tokens_from(pattern_table(), lines_of(source), start_state())
}

/// The reports that lexing a source text makes.
pub open spec fn reports_of(source: Seq<char>) -> Seq<LexReport> {
    reports_from(pattern_table(), lines_of(source), start_state())
}

/// The longest matched prefix is matched, and no longer prefix is.
pub proof fn lemma_longest_match(patterns: Seq<Seq<char>>, rest: Seq<char>, n: nat)
    ensures
        ({
            let k = longest_match_len(patterns, rest, n);
            &&& k <= n
            &&& k > 0 ==> regex_set_matches(patterns, rest.take(k as int)).len() > 0
            &&& forall|j: int|
                k < j <= n ==> (#[trigger] regex_set_matches(patterns, rest.take(j))).len() == 0
        }),
    decreases n,
{
    if n > 0 && regex_set_matches(patterns, rest.take(n as int)).len() == 0 {
        lemma_longest_match(patterns, rest, (n - 1) as nat);
    }
}

/// All tokens from a state are the next token and all tokens after it.
pub proof fn lemma_tokens_unfold(patterns: Seq<Seq<char>>, lines: Seq<Seq<char>>, st: LexState)
    ensures
        tokens_from(patterns, lines, st) == (match next_token_from(patterns, lines, st) {
            (st2, Some(t)) => seq![t] + tokens_from(patterns, lines, st2),
            (_, None) => Seq::empty(),
        }),
        reports_from(patterns, lines, st) == reports_from(
            patterns,
            lines,
            next_token_from(patterns, lines, st).0,
        ),
        ({
            let (st2, tok) = next_token_from(patterns, lines, st);
            &&& tok is None ==> st2.line >= lines.len()
            &&& tok is Some ==> st2.line < lines.len() && (st2.line > st.line || (st2.line
                == st.line && chars_left(lines, st2) < chars_left(lines, st)))
        }),
    decreases lines.len() - st.line, chars_left(lines, st),
{
    if st.line >= lines.len() {
    } else if st.col >= lines[st.line as int].len() {
        lemma_tokens_unfold(patterns, lines, LexState { line: st.line + 1, col: 0, ..st });
    } else {
        let (st2, tok) = lex_step(patterns, lines, st);
        if tok is None {
            lemma_tokens_unfold(patterns, lines, st2);
        }
    }
}

/// Splits a source text into its lines.
pub fn split_lines(source: &str) -> (r: Vec<String>)
    ensures
        r.deep_view() == lines_of(source@),
{
    broadcast use vstd::string::group_string_axioms;

    let n: usize = source.unicode_len();
    let mut lines: Vec<String> = Vec::new();
    let mut start: usize = 0;
    let mut i: usize = 0;
    let mut cr_before: bool = false;
    let mut chars = source.chars();
    assert(source@.skip(0) =~= source@);
    while i < n
        invariant
            start <= i <= n,
            n == source@.len(),
            chars.remaining() == source@.skip(i as int),
            cr_before == (i > start && source@[i as int - 1] == '\r'),
            lines_of(source@) == lines.deep_view() + lines_from(source@, start as int, i as int),
        decreases n - i,
    {
        let ghost before_next = chars;
        let next = chars.next();
        proof {
            assert(vstd::string::next_post(&before_next, &chars, next));
            assert(source@.skip(i as int)[0] == source@[i as int]);
            assert(source@.skip(i as int).drop_first() =~= source@.skip(i as int + 1));
        }
        // A character is left as long as `i < n`.
        assert(next == Some(source@[i as int]));
        if let Some(c) = next {
            if c == '\n' {
                let end: usize = if cr_before {
                    i - 1
                } else {
                    i
                };
                let line = String::from_str(source.substring_char(start, end));
                proof {
                    let whole = source@.subrange(start as int, i as int);
                    assert(line@ =~= without_cr(whole));
                    assert(lines.deep_view().push(line@) + lines_from(
                        source@,
                        i as int + 1,
                        i as int + 1,
                    ) =~= lines.deep_view() + (seq![without_cr(whole)] + lines_from(
                        source@,
                        i as int + 1,
                        i as int + 1,
                    )));
                }
                let ghost before = lines.deep_view();
                lines.push(line);
                assert(lines.deep_view() =~= before.push(line@));
                start = i + 1;
                cr_before = false;
            } else {
                cr_before = c == '\r';
            }
            i = i + 1;
        }
    }
    if start < i {
        let line = String::from_str(source.substring_char(start, i));
        let ghost before = lines.deep_view();
        lines.push(line);
        assert(lines.deep_view() =~= before.push(line@));
        assert(before.push(line@) =~= before + seq![source@.subrange(start as int, i as int)]);
    } else {
        assert(lines.deep_view() + Seq::<Seq<char>>::empty() =~= lines.deep_view());
    }
    lines
}

/// Finds the longest prefix of `rest` that a pattern of a plain set matches,
/// shrinking from the whole text one character at a time. Gives its
/// length and the place of the first pattern that matches it.
pub fn longest_match(set: &regex::RegexSet, rest: &str) -> (r: Option<(usize, usize)>)
    requires
        regex_set_plain(*set),
    ensures
        match r {
            Some((k, index)) => {
                &&& k == longest_match_len(regex_set_patterns(*set), rest@, rest@.len())
                &&& 0 < k <= rest@.len()
                &&& index == regex_set_matches(regex_set_patterns(*set), rest@.take(k as int))[0]
                &&& index < regex_set_patterns(*set).len()
            },
            None => longest_match_len(regex_set_patterns(*set), rest@, rest@.len()) == 0,
        },
{
    let n: usize = rest.unicode_len();
    let mut k: usize = n;
    while k > 0
        invariant
            k <= n,
            n == rest@.len(),
            regex_set_plain(*set),
            longest_match_len(regex_set_patterns(*set), rest@, n as nat) == longest_match_len(
                regex_set_patterns(*set),
                rest@,
                k as nat,
            ),
        decreases k,
    {
        let candidate = rest.substring_char(0, k);
        assert(candidate@ =~= rest@.take(k as int));
        let matched = matching_patterns(set, candidate);
        if matched.len() > 0 {
            return Some((k, matched[0]));
        }
        k = k - 1;
    }
    None
}

impl Lexer {
    /// The lines that the lexer reads.
    pub closed spec fn lines(&self) -> Seq<Seq<char>> {
        self.lines.deep_view()
    }

    /// Where the lexer stands.
    pub closed spec fn state(&self) -> LexState {
        LexState {
            line: self.current_line as nat,
            col: self.current_char as nat,
            in_comment: self.in_comment,
            reports: self.reports@,
        }
    }

    /// The lexer matches with a plain set of the pattern table and stands
    /// inside its text.
    pub closed spec fn wf(&self) -> bool {
        &&& regex_set_plain(self.regex_set)
        &&& regex_set_patterns(self.regex_set) == pattern_table()
        &&& self.current_line <= self.lines@.len()
    }

    /// Lexes a whole source text.
    pub fn lex_tokens(source_code: String) -> (r: Result<Vec<LexedToken>, CompilationError>)
        ensures
            r is Ok <==> regex_set_builds(pattern_table()),
            match r {
                Ok(tokens) => token_views(tokens@) == tokens_of(source_code@),
                Err(e) => e@ == CompilationError::internal_error_view(
                    "Failed to build regex set."@,
                ),
            },
    {
        match Lexer::new(source_code) {
            Ok(lexer) => Ok(lexer.get_all_tokens()),
            Err(e) => Err(e),
        }
    }

    /// A lexer at the start of the given text, with a plain set of the
    /// pattern table to match against.
    pub fn with_regex_set(source_code: String, regex_set: regex::RegexSet) -> (r: Lexer)
        requires
            regex_set_plain(regex_set),
            regex_set_patterns(regex_set) == pattern_table(),
        ensures
            r.wf(),
            r.lines() == lines_of(source_code@),
            r.state() == start_state(),
    {
        Lexer {
            lines: split_lines(source_code.as_str()),
            current_line: 0,
            current_char: 0,
            in_comment: false,
            regex_set,
            reports: Vec::new(),
        }
    }

    /// A lexer at the start of the given text. It fails exactly where the
    /// matcher refuses the pattern table.
    pub fn new(source_code: String) -> (r: Result<Lexer, CompilationError>)
        ensures
            r is Ok <==> regex_set_builds(pattern_table()),
            match r {
                Ok(lexer) => lexer.wf() && lexer.lines() == lines_of(source_code@) && lexer.state()
                    == start_state(),
                Err(e) => e@ == CompilationError::internal_error_view(
                    "Failed to build regex set."@,
                ),
            },
    {
        match build_regex_set() {
            Ok(regex_set) => Ok(Lexer::with_regex_set(source_code, regex_set)),
            Err(e) => Err(e),
        }
    }

    /// What the lexer has reported so far.
    pub fn reports(&self) -> (r: Vec<LexReport>)
        ensures
            r@ == self.state().reports,
    {
        self.reports.clone()
    }

    /// Hands out the next token, or nothing at the end of the input.
    pub fn get_next_token(&mut self) -> (r: Option<LexedToken>)
        requires
            old(self).wf(),
        ensures
            final(self).wf(),
            final(self).lines() == old(self).lines(),
            (final(self).state(), match r {
                Some(t) => Some(t@),
                None => None,
            }) == next_token_from(pattern_table(), old(self).lines(), old(self).state()),
    {
        loop
            invariant
                self.wf(),
                self.lines == old(self).lines,
                next_token_from(pattern_table(), self.lines(), self.state()) == next_token_from(
                    pattern_table(),
                    old(self).lines(),
                    old(self).state(),
                ),
            decreases self.lines().len() - self.state().line, chars_left(self.lines(), self.state()),
        {
            if self.current_line >= self.lines.len() {
                return None;
            }
            let line = self.lines[self.current_line].as_str();
            let line_len: usize = line.unicode_len();
            assert(line@ == self.lines.deep_view()[self.current_line as int]);
            if self.current_char >= line_len {
                self.current_line += 1;
                self.current_char = 0;
                continue ;
            }
            let rest = line.substring_char(self.current_char, line_len);
            let ghost st = self.state();
            let ghost step = lex_step(pattern_table(), self.lines(), st);
            let start: usize = self.current_char;
            let (k, matched) = match longest_match(&self.regex_set, rest) {
                Some((k, index)) => (k, classification(index)),
                None => (1usize, classification(PATTERN_COUNT - 1)),
            };
            assert(k == piece_len(pattern_table(), rest@));
            assert(matched == piece_class(pattern_table(), rest@));
            self.current_char += k;
            match matched {
                RegexMatch::NonToken(non_token) => match non_token {
                    NonToken::StartComment => {
                        self.in_comment = true;
                    },
                    NonToken::EndComment => {
                        self.in_comment = false;
                    },
                    NonToken::Error(_) => {
                        if !self.in_comment {
                            self.reports.push(
                                LexReport { line: self.current_line + 1, column: start },
                            );
                            self.current_line += 1;
                            self.current_char = 0;
                        }
                    },
                    _ => {},
                },
                RegexMatch::Token(token) => {
                    if !self.in_comment {
                        let lexeme = Lexeme(String::from_str(rest.substring_char(0, k)));
                        assert(lexeme@ =~= rest@.take(k as int));
                        assert(self.state() == step.0);
                        return Some(
                            LexedToken { lexeme, token, line: self.current_line + 1, column: start },
                        );
                    }
                },
            }
            assert(self.state() == step.0);
        }
    }

    /// Hands out all tokens that are left.
    pub fn get_all_tokens(self) -> (r: Vec<LexedToken>)
        requires
            self.wf(),
        ensures
            token_views(r@) == tokens_from(pattern_table(), self.lines(), self.state()),
    {
        let (tokens, _) = self.get_all_tokens_and_reports();
        tokens
    }

    /// Hands out all tokens that are left, and everything that was
    /// reported up to the end of the input.
    pub fn get_all_tokens_and_reports(self) -> (r: (Vec<LexedToken>, Vec<LexReport>))
        requires
            self.wf(),
        ensures
            token_views(r.0@) == tokens_from(pattern_table(), self.lines(), self.state()),
            r.1@ == reports_from(pattern_table(), self.lines(), self.state()),
    {
        let mut lexer = self;
        let mut toks: Vec<LexedToken> = Vec::new();
        loop
            invariant
                lexer.wf(),
                lexer.lines() == self.lines(),
                token_views(toks@) + tokens_from(pattern_table(), lexer.lines(), lexer.state())
                    == tokens_from(pattern_table(), self.lines(), self.state()),
                reports_from(pattern_table(), lexer.lines(), lexer.state()) == reports_from(
                    pattern_table(),
                    self.lines(),
                    self.state(),
                ),
            decreases lexer.lines().len() - lexer.state().line, chars_left(lexer.lines(), lexer.state()),
        {
            proof {
                lemma_tokens_unfold(pattern_table(), lexer.lines(), lexer.state());
            }
            let ghost before = token_views(toks@);
            match lexer.get_next_token() {
                Some(tok) => {
                    toks.push(tok);
                    assert(token_views(toks@) =~= before.push(tok@));
                    assert(before.push(tok@) + tokens_from(
                        pattern_table(),
                        lexer.lines(),
                        lexer.state(),
                    ) =~= before + (seq![tok@] + tokens_from(
                        pattern_table(),
                        lexer.lines(),
                        lexer.state(),
                    )));
                },
                None => {
                    assert(before + Seq::<TokenView>::empty() =~= before);
                    return (toks, lexer.reports);
                },
            }
        }
    }
}

/// A listing of tokens: for each a line with its text, a colon, and the
/// token's description.
pub open spec fn listing_text(tokens: Seq<TokenView>) -> Seq<char>
    decreases tokens.len(),
{
    if tokens.len() == 0 {
        Seq::empty()
    } else {
        listing_text(tokens.drop_last()) + tokens.last().lexeme + ": "@
            + tokens.last().token.description() + "\n"@
    }
}

/// Lists the given tokens, one on each line.
pub fn token_listing(tokens: &Vec<LexedToken>) -> (r: String)
    ensures
        r@ == listing_text(token_views(tokens@)),
{
    let ghost views = token_views(tokens@);
    let mut output = String::new();
    let n: usize = tokens.len();
    let mut i: usize = 0;
    assert(listing_text(views.take(0)) =~= Seq::<char>::empty());
    while i < n
        invariant
            i <= n,
            n == tokens@.len(),
            views == token_views(tokens@),
            output@ == listing_text(views.take(i as int)),
        decreases n - i,
    {
        let description = tokens[i].token.describe();
        output.append(tokens[i].lexeme.0.as_str());
        output.append(": ");
        output.append(description.as_str());
        output.append("\n");
        proof {
            assert(views.take(i as int + 1).drop_last() =~= views.take(i as int));
            assert(views.take(i as int + 1).last() == tokens@[i as int]@);
        }
        i = i + 1;
    }
    assert(views.take(n as int) =~= views);
    output
}

} // verus!
