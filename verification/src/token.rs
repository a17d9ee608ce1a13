//! The token model: the closed set of lexical categories, their stable
//! numeric ids, and the ordered table of patterns the lexer matches.

use vstd::prelude::*;
use vstd::string::*;
use crate::error::CompilationError;
use crate::regexset::{new_regex_set, regex_set_builds, regex_set_patterns, regex_set_plain};

verus! {

/// The numeric id of a token.
pub type TokenID = u16;

/// The id of the first token of the table; the others follow in order.
pub const STARTING_TOKEN_ID: TokenID = 10;

pub const BREAK_ID: TokenID = 10;
pub const CASE_ID: TokenID = 11;
pub const DEFAULT_ID: TokenID = 12;
pub const ELSE_ID: TokenID = 13;
pub const FLOAT_ID: TokenID = 14;
pub const IF_ID: TokenID = 15;
pub const INPUT_ID: TokenID = 16;
pub const INT_ID: TokenID = 17;
pub const OUTPUT_ID: TokenID = 18;
pub const SWITCH_ID: TokenID = 19;
pub const WHILE_ID: TokenID = 20;
pub const RPAREN_ID: TokenID = 21;
pub const LPAREN_ID: TokenID = 22;
pub const RCURLY_ID: TokenID = 23;
pub const LCURLY_ID: TokenID = 24;
pub const COMMA_ID: TokenID = 25;
pub const COLON_ID: TokenID = 26;
pub const SEMICOLON_ID: TokenID = 27;
pub const EQUALS_ID: TokenID = 28;
pub const RELOP_ID: TokenID = 29;
pub const ADDOP_ID: TokenID = 30;
pub const MULOP_ID: TokenID = 31;
pub const OR_ID: TokenID = 32;
pub const AND_ID: TokenID = 33;
pub const NOT_ID: TokenID = 34;
pub const CAST_ID: TokenID = 35;
pub const IDENT_ID: TokenID = 36;
pub const NUM_ID: TokenID = 37;

/// The number of entries in the pattern table.
pub const PATTERN_COUNT: usize = 33;

/// What is said of text that is no token.
pub const UNRECOGNIZED_TOKEN_ERR: &'static str = "Token Error: unrecognized token.";

/// The reserved words. Some are lexed though no grammar rule reads them.
#[derive(Copy, Clone, Debug, PartialEq, Eq, Structural)]
pub enum Keyword {
    Break,
    Case,
    Default,
    Else,
    Float,
    If,
    Input,
    Int,
    Output,
    Switch,
    While,
}

/// The punctuation.
#[derive(Copy, Clone, Debug, PartialEq, Eq, Structural)]
pub enum Symbol {
    RParen,
    LParen,
    RCurly,
    LCurly,
    Comma,
    Colon,
    SemiColon,
    Equals,
}

/// The operator classes. Which operator of its class a token is, its
/// text says.
#[derive(Copy, Clone, Debug, PartialEq, Eq, Structural)]
pub enum Operator {
    RELOP,
    ADDOP,
    MULOP,
    OR,
    AND,
    NOT,
    CAST,
}

/// Identifiers and numbers.
#[derive(Copy, Clone, Debug, PartialEq, Eq, Structural)]
pub enum Additional {
    Ident,
    Num,
}

/// A lexical category.
#[derive(Copy, Clone, Debug, PartialEq, Eq, Structural)]
pub enum Token {
    Keyword(Keyword),
    Symbol(Symbol),
    Operator(Operator),
    Additional(Additional),
}

/// What a pattern of the table stands for when it is no token.
#[derive(Copy, Clone, Debug)]
pub enum NonToken {
    Spaces,
    StartComment,
    EndComment,
    EOF,
    Error(&'static str),
}

/// The classification of a pattern of the table.
#[derive(Copy, Clone, Debug)]
pub enum RegexMatch {
    NonToken(NonToken),
    Token(Token),
}

/// The token whose id is `id`; ids outside the table give the last token.
pub open spec fn token_of_id(id: int) -> Token {
    if id == 10 { Token::Keyword(Keyword::Break) }
    else if id == 11 { Token::Keyword(Keyword::Case) }
    else if id == 12 { Token::Keyword(Keyword::Default) }
    else if id == 13 { Token::Keyword(Keyword::Else) }
    else if id == 14 { Token::Keyword(Keyword::Float) }
    else if id == 15 { Token::Keyword(Keyword::If) }
    else if id == 16 { Token::Keyword(Keyword::Input) }
    else if id == 17 { Token::Keyword(Keyword::Int) }
    else if id == 18 { Token::Keyword(Keyword::Output) }
    else if id == 19 { Token::Keyword(Keyword::Switch) }
    else if id == 20 { Token::Keyword(Keyword::While) }
    else if id == 21 { Token::Symbol(Symbol::RParen) }
    else if id == 22 { Token::Symbol(Symbol::LParen) }
    else if id == 23 { Token::Symbol(Symbol::RCurly) }
    else if id == 24 { Token::Symbol(Symbol::LCurly) }
    else if id == 25 { Token::Symbol(Symbol::Comma) }
    else if id == 26 { Token::Symbol(Symbol::Colon) }
    else if id == 27 { Token::Symbol(Symbol::SemiColon) }
    else if id == 28 { Token::Symbol(Symbol::Equals) }
    else if id == 29 { Token::Operator(Operator::RELOP) }
    else if id == 30 { Token::Operator(Operator::ADDOP) }
    else if id == 31 { Token::Operator(Operator::MULOP) }
    else if id == 32 { Token::Operator(Operator::OR) }
    else if id == 33 { Token::Operator(Operator::AND) }
    else if id == 34 { Token::Operator(Operator::NOT) }
    else if id == 35 { Token::Operator(Operator::CAST) }
    else if id == 36 { Token::Additional(Additional::Ident) }
    else { Token::Additional(Additional::Num) }
}

impl Keyword {
    pub open spec fn spec_id(self) -> TokenID {
        match self {
            Keyword::Break => 10,
            Keyword::Case => 11,
            Keyword::Default => 12,
            Keyword::Else => 13,
            Keyword::Float => 14,
            Keyword::If => 15,
            Keyword::Input => 16,
            Keyword::Int => 17,
            Keyword::Output => 18,
            Keyword::Switch => 19,
            Keyword::While => 20,
        }
    }
}

impl Symbol {
    pub open spec fn spec_id(self) -> TokenID {
        match self {
            Symbol::RParen => 21,
            Symbol::LParen => 22,
            Symbol::RCurly => 23,
            Symbol::LCurly => 24,
            Symbol::Comma => 25,
            Symbol::Colon => 26,
            Symbol::SemiColon => 27,
            Symbol::Equals => 28,
        }
    }
}

impl Operator {
    pub open spec fn spec_id(self) -> TokenID {
        match self {
            Operator::RELOP => 29,
            Operator::ADDOP => 30,
            Operator::MULOP => 31,
            Operator::OR => 32,
            Operator::AND => 33,
            Operator::NOT => 34,
            Operator::CAST => 35,
        }
    }
}

impl Additional {
    pub open spec fn spec_id(self) -> TokenID {
        match self {
            Additional::Ident => 36,
            Additional::Num => 37,
        }
    }
}

impl Token {
    /// The stable numeric id of the token.
    pub open spec fn spec_id(self) -> TokenID {
        match self {
            Token::Keyword(keyword) => keyword.spec_id(),
            Token::Symbol(symbol) => symbol.spec_id(),
            Token::Operator(operator) => operator.spec_id(),
            Token::Additional(additional) => additional.spec_id(),
        }
    }

    /// The stable numeric id of the token: between 10 and 37, and the
    /// token's place in the table.
    pub fn id(&self) -> (r: TokenID)
        ensures
            r == self.spec_id(),
            STARTING_TOKEN_ID <= r <= NUM_ID,
            token_of_id(r as int) == *self,
    {
        match self {
            Token::Keyword(keyword) => match keyword {
                Keyword::Break => BREAK_ID,
                Keyword::Case => CASE_ID,
                Keyword::Default => DEFAULT_ID,
                Keyword::Else => ELSE_ID,
                Keyword::Float => FLOAT_ID,
                Keyword::If => IF_ID,
                Keyword::Input => INPUT_ID,
                Keyword::Int => INT_ID,
                Keyword::Output => OUTPUT_ID,
                Keyword::Switch => SWITCH_ID,
                Keyword::While => WHILE_ID,
            },
            Token::Symbol(symbol) => match symbol {
                Symbol::RParen => RPAREN_ID,
                Symbol::LParen => LPAREN_ID,
                Symbol::RCurly => RCURLY_ID,
                Symbol::LCurly => LCURLY_ID,
                Symbol::Comma => COMMA_ID,
                Symbol::Colon => COLON_ID,
                Symbol::SemiColon => SEMICOLON_ID,
                Symbol::Equals => EQUALS_ID,
            },
            Token::Operator(operator) => match operator {
                Operator::RELOP => RELOP_ID,
                Operator::ADDOP => ADDOP_ID,
                Operator::MULOP => MULOP_ID,
                Operator::OR => OR_ID,
                Operator::AND => AND_ID,
                Operator::NOT => NOT_ID,
                Operator::CAST => CAST_ID,
            },
            Token::Additional(additional) => match additional {
                Additional::Ident => IDENT_ID,
                Additional::Num => NUM_ID,
            },
        }
    }

    /// The text that a diagnostic shows for the token: its name, and its
    /// category in brackets for keywords, symbols and operators.
    pub fn describe(&self) -> (r: String)
        ensures
            r@ == self.description(),
    {
        let mut out = String::from_str(self.name());
        match self {
            Token::Keyword(_) => out.append(" (Keyword)"),
            Token::Symbol(_) => out.append(" (Symbol)"),
            Token::Operator(_) => out.append(" (Operator)"),
            Token::Additional(_) => {
                assert(out@ + Seq::<char>::empty() =~= out@);
            },
        }
        out
    }

    /// See [`Token::describe`].
    pub open spec fn description(self) -> Seq<char> {
        self.spec_name() + (match self {
            Token::Keyword(_) => " (Keyword)"@,
            Token::Symbol(_) => " (Symbol)"@,
            Token::Operator(_) => " (Operator)"@,
            Token::Additional(_) => Seq::<char>::empty(),
        })
    }

    /// The name of the token's variant.
    pub open spec fn spec_name(self) -> Seq<char> {
        match self {
            Token::Keyword(Keyword::Break) => "Break"@,
            Token::Keyword(Keyword::Case) => "Case"@,
            Token::Keyword(Keyword::Default) => "Default"@,
            Token::Keyword(Keyword::Else) => "Else"@,
            Token::Keyword(Keyword::Float) => "Float"@,
            Token::Keyword(Keyword::If) => "If"@,
            Token::Keyword(Keyword::Input) => "Input"@,
            Token::Keyword(Keyword::Int) => "Int"@,
            Token::Keyword(Keyword::Output) => "Output"@,
            Token::Keyword(Keyword::Switch) => "Switch"@,
            Token::Keyword(Keyword::While) => "While"@,
            Token::Symbol(Symbol::RParen) => "RParen"@,
            Token::Symbol(Symbol::LParen) => "LParen"@,
            Token::Symbol(Symbol::RCurly) => "RCurly"@,
            Token::Symbol(Symbol::LCurly) => "LCurly"@,
            Token::Symbol(Symbol::Comma) => "Comma"@,
            Token::Symbol(Symbol::Colon) => "Colon"@,
            Token::Symbol(Symbol::SemiColon) => "SemiColon"@,
            Token::Symbol(Symbol::Equals) => "Equals"@,
            Token::Operator(Operator::RELOP) => "RELOP"@,
            Token::Operator(Operator::ADDOP) => "ADDOP"@,
            Token::Operator(Operator::MULOP) => "MULOP"@,
            Token::Operator(Operator::OR) => "OR"@,
            Token::Operator(Operator::AND) => "AND"@,
            Token::Operator(Operator::NOT) => "NOT"@,
            Token::Operator(Operator::CAST) => "CAST"@,
            Token::Additional(Additional::Ident) => "Ident"@,
            Token::Additional(Additional::Num) => "Num"@,
        }
    }

    /// The name of the token's variant.
    pub fn name(&self) -> (r: &'static str)
        ensures
            r@ == self.spec_name(),
    {
        match self {
            Token::Keyword(Keyword::Break) => "Break",
            Token::Keyword(Keyword::Case) => "Case",
            Token::Keyword(Keyword::Default) => "Default",
            Token::Keyword(Keyword::Else) => "Else",
            Token::Keyword(Keyword::Float) => "Float",
            Token::Keyword(Keyword::If) => "If",
            Token::Keyword(Keyword::Input) => "Input",
            Token::Keyword(Keyword::Int) => "Int",
            Token::Keyword(Keyword::Output) => "Output",
            Token::Keyword(Keyword::Switch) => "Switch",
            Token::Keyword(Keyword::While) => "While",
            Token::Symbol(Symbol::RParen) => "RParen",
            Token::Symbol(Symbol::LParen) => "LParen",
            Token::Symbol(Symbol::RCurly) => "RCurly",
            Token::Symbol(Symbol::LCurly) => "LCurly",
            Token::Symbol(Symbol::Comma) => "Comma",
            Token::Symbol(Symbol::Colon) => "Colon",
            Token::Symbol(Symbol::SemiColon) => "SemiColon",
            Token::Symbol(Symbol::Equals) => "Equals",
            Token::Operator(Operator::RELOP) => "RELOP",
            Token::Operator(Operator::ADDOP) => "ADDOP",
            Token::Operator(Operator::MULOP) => "MULOP",
            Token::Operator(Operator::OR) => "OR",
            Token::Operator(Operator::AND) => "AND",
            Token::Operator(Operator::NOT) => "NOT",
            Token::Operator(Operator::CAST) => "CAST",
            Token::Additional(Additional::Ident) => "Ident",
            Token::Additional(Additional::Num) => "Num",
        }
    }
}

impl RegexMatch {
    /// The classification that stands for the token with the given id.
    pub fn from_token_id(id: TokenID) -> (r: Self)
        requires
            STARTING_TOKEN_ID <= id <= NUM_ID,
        ensures
            r matches RegexMatch::Token(t) && t == token_of_id(id as int) && t.spec_id() == id,
    {
        let t = if id == 10 { Token::Keyword(Keyword::Break) }
        else if id == 11 { Token::Keyword(Keyword::Case) }
        else if id == 12 { Token::Keyword(Keyword::Default) }
        else if id == 13 { Token::Keyword(Keyword::Else) }
        else if id == 14 { Token::Keyword(Keyword::Float) }
        else if id == 15 { Token::Keyword(Keyword::If) }
        else if id == 16 { Token::Keyword(Keyword::Input) }
        else if id == 17 { Token::Keyword(Keyword::Int) }
        else if id == 18 { Token::Keyword(Keyword::Output) }
        else if id == 19 { Token::Keyword(Keyword::Switch) }
        else if id == 20 { Token::Keyword(Keyword::While) }
        else if id == 21 { Token::Symbol(Symbol::RParen) }
        else if id == 22 { Token::Symbol(Symbol::LParen) }
        else if id == 23 { Token::Symbol(Symbol::RCurly) }
        else if id == 24 { Token::Symbol(Symbol::LCurly) }
        else if id == 25 { Token::Symbol(Symbol::Comma) }
        else if id == 26 { Token::Symbol(Symbol::Colon) }
        else if id == 27 { Token::Symbol(Symbol::SemiColon) }
        else if id == 28 { Token::Symbol(Symbol::Equals) }
        else if id == 29 { Token::Operator(Operator::RELOP) }
        else if id == 30 { Token::Operator(Operator::ADDOP) }
        else if id == 31 { Token::Operator(Operator::MULOP) }
        else if id == 32 { Token::Operator(Operator::OR) }
        else if id == 33 { Token::Operator(Operator::AND) }
        else if id == 34 { Token::Operator(Operator::NOT) }
        else if id == 35 { Token::Operator(Operator::CAST) }
        else if id == 36 { Token::Additional(Additional::Ident) }
        else { Token::Additional(Additional::Num) };
        RegexMatch::Token(t)
    }

    /// 0 for white space, the token's id for a token, 1 for anything else.
    pub open spec fn spec_get_id(self) -> TokenID {
        match self {
            RegexMatch::NonToken(NonToken::Spaces) => 0,
            RegexMatch::Token(token) => token.spec_id(),
            _ => 1,
        }
    }

    /// 0 for white space, the token's id for a token, 1 for anything else.
    pub fn _get_id(&self) -> (r: TokenID)
        ensures
            r == self.spec_get_id(),
    {
        match self {
            RegexMatch::NonToken(NonToken::Spaces) => 0,
            RegexMatch::Token(token) => token.id(),
            _ => 1,
        }
    }
}

/// The pattern at place `i` of the table. Every pattern is anchored at both
/// ends, so it speaks of a whole candidate text.
pub open spec fn pattern_at(i: int) -> Seq<char> {
    if i == 0 { "^break$"@ }
    else if i == 1 { "^case$"@ }
    else if i == 2 { "^default$"@ }
    else if i == 3 { "^else$"@ }
    else if i == 4 { "^float$"@ }
    else if i == 5 { "^if$"@ }
    else if i == 6 { "^input$"@ }
    else if i == 7 { "^int$"@ }
    else if i == 8 { "^output$"@ }
    else if i == 9 { "^switch$"@ }
    else if i == 10 { "^while$"@ }
    else if i == 11 { "^\\)$"@ }
    else if i == 12 { "^\\($"@ }
    else if i == 13 { "^\\}$"@ }
    else if i == 14 { "^\\{$"@ }
    else if i == 15 { "^,$"@ }
    else if i == 16 { "^:$"@ }
    else if i == 17 { "^;$"@ }
    else if i == 18 { "^=$"@ }
    else if i == 19 { "^(==|!=|<|>|<=|>=)$"@ }
    else if i == 20 { "^(\\+|-)$"@ }
    else if i == 21 { "^(\\*|/)$"@ }
    else if i == 22 { "^\\|\\|$"@ }
    else if i == 23 { "^&&$"@ }
    else if i == 24 { "^!$"@ }
    else if i == 25 { "^static_cast<(int|float)>$"@ }
    else if i == 26 { "^[a-zA-Z][_a-zA-Z0-9]*$"@ }
    else if i == 27 { "^[0-9]+(\\.[0-9]*)?$"@ }
    else if i == 28 { "^[ \\t]+$"@ }
    else if i == 29 { "^/\\*$"@ }
    else if i == 30 { "^\\*/$"@ }
    else if i == 31 { "^.$"@ }
    else { "^[0-9]+(.[0-9]*)?[a-zA-Z]+$"@ }
}

/// The whole table of patterns, in order.
pub open spec fn pattern_table() -> Seq<Seq<char>> {
    Seq::new(PATTERN_COUNT as nat, |i: int| pattern_at(i))
}

/// The pattern at place `i` of the table.
pub fn pattern_text(i: usize) -> (r: &'static str)
    requires
        i < PATTERN_COUNT,
    ensures
        r@ == pattern_at(i as int),
{
    if i == 0 { "^break$" }
    else if i == 1 { "^case$" }
    else if i == 2 { "^default$" }
    else if i == 3 { "^else$" }
    else if i == 4 { "^float$" }
    else if i == 5 { "^if$" }
    else if i == 6 { "^input$" }
    else if i == 7 { "^int$" }
    else if i == 8 { "^output$" }
    else if i == 9 { "^switch$" }
    else if i == 10 { "^while$" }
    else if i == 11 { "^\\)$" }
    else if i == 12 { "^\\($" }
    else if i == 13 { "^\\}$" }
    else if i == 14 { "^\\{$" }
    else if i == 15 { "^,$" }
    else if i == 16 { "^:$" }
    else if i == 17 { "^;$" }
    else if i == 18 { "^=$" }
    else if i == 19 { "^(==|!=|<|>|<=|>=)$" }
    else if i == 20 { "^(\\+|-)$" }
    else if i == 21 { "^(\\*|/)$" }
    else if i == 22 { "^\\|\\|$" }
    else if i == 23 { "^&&$" }
    else if i == 24 { "^!$" }
    else if i == 25 { "^static_cast<(int|float)>$" }
    else if i == 26 { "^[a-zA-Z][_a-zA-Z0-9]*$" }
    else if i == 27 { "^[0-9]+(\\.[0-9]*)?$" }
    else if i == 28 { "^[ \\t]+$" }
    else if i == 29 { "^/\\*$" }
    else if i == 30 { "^\\*/$" }
    else if i == 31 { "^.$" }
    else { "^[0-9]+(.[0-9]*)?[a-zA-Z]+$" }
}

/// What the pattern at place `i` of the table stands for: the first 28
/// entries are the tokens in the order of their ids, then come white space,
/// the two comment marks, and two forms of unrecognized text.
pub open spec fn class_at(i: int) -> RegexMatch {
    if 0 <= i < 28 {
        RegexMatch::Token(token_of_id(i + 10))
    } else if i == 28 {
        RegexMatch::NonToken(NonToken::Spaces)
    } else if i == 29 {
        RegexMatch::NonToken(NonToken::StartComment)
    } else if i == 30 {
        RegexMatch::NonToken(NonToken::EndComment)
    } else {
        RegexMatch::NonToken(NonToken::Error(UNRECOGNIZED_TOKEN_ERR))
    }
}

/// What the pattern at place `i` of the table stands for.
pub fn classification(i: usize) -> (r: RegexMatch)
    requires
        i < PATTERN_COUNT,
    ensures
        r == class_at(i as int),
{
    if i < 28 {
        RegexMatch::from_token_id((i + 10) as u16)
    } else if i == 28 {
        RegexMatch::NonToken(NonToken::Spaces)
    } else if i == 29 {
        RegexMatch::NonToken(NonToken::StartComment)
    } else if i == 30 {
        RegexMatch::NonToken(NonToken::EndComment)
    } else {
        RegexMatch::NonToken(NonToken::Error(UNRECOGNIZED_TOKEN_ERR))
    }
}

/// Compiles the pattern table into one set that tests a text against all
/// patterns at once. Where the matcher takes the table, the set is plain
/// and holds exactly the table; where it refuses it, the failure comes
/// back as an internal error.
pub fn build_regex_set() -> (r: Result<regex::RegexSet, CompilationError>)
    ensures
        r is Ok <==> regex_set_builds(pattern_table()),
        match r {
            Ok(set) => regex_set_plain(set) && regex_set_patterns(set) == pattern_table(),
            Err(e) => e@ == CompilationError::internal_error_view("Failed to build regex set."@),
        },
{
    let mut patterns: Vec<String> = Vec::new();
    let mut i: usize = 0;
    while i < PATTERN_COUNT
        invariant
            i <= PATTERN_COUNT,
            patterns@.len() == i,
            forall|j: int| 0 <= j < i ==> (#[trigger] patterns@[j])@ == pattern_at(j),
        decreases PATTERN_COUNT - i,
    {
        patterns.push(String::from_str(pattern_text(i)));
        i = i + 1;
    }
    assert(crate::regexset::pattern_views(patterns@) =~= pattern_table());
    match new_regex_set(&patterns) {
        Ok(set) => {
            assert(regex_set_patterns(set) =~= pattern_table());
            Ok(set)
        },
        Err(_) => Err(
            CompilationError::internal_error(String::from_str("Failed to build regex set.")),
        ),
    }
}

/// Two tokens with the same id are the same token.
pub proof fn lemma_token_id_injective(a: Token, b: Token)
    requires
        a.spec_id() == b.spec_id(),
    ensures
        a == b,
{
}

} // verus!
