//! The Pratt parsing tables: what each token kind may begin, what it may
//! continue, and how tightly it binds.

use vstd::prelude::*;

verus! {

/// How a token is parsed: its prefix handler, its infix handler, and the
/// precedence of its infix role.
#[derive(Clone, Copy, PartialEq, Eq, Structural)]
pub struct ParseRule {
    pub prefix: ParseFn,
    pub infix: ParseFn,
    pub precedence: ParsePrecedence,
}

impl ParseRule {
    pub fn new(prefix: ParseFn, infix: ParseFn, precedence: ParsePrecedence) -> (r: ParseRule)
        ensures
            r == (ParseRule { prefix, infix, precedence }),
    {
        ParseRule { prefix, infix, precedence }
    }
}

/// Binding strength, low to high.
#[derive(Clone, Copy, PartialEq, Eq, Structural, Debug)]
pub enum ParsePrecedence {
    Lowest,
    Assignment,  // =
    Or,  // or
    And,  // and
    Equality,  // == !=
    Comparison,  // < > <= >=
    Term,  // + -
    Factor,  // * /
    Unary,  // ! -
    Call,  // ()
    Primary,
}

/// The numeric rank of a precedence level.
pub open spec fn spec_prec(p: ParsePrecedence) -> int {
    match p {
        ParsePrecedence::Lowest => 0,
        ParsePrecedence::Assignment => 1,
        ParsePrecedence::Or => 2,
        ParsePrecedence::And => 3,
        ParsePrecedence::Equality => 4,
        ParsePrecedence::Comparison => 5,
        ParsePrecedence::Term => 6,
        ParsePrecedence::Factor => 7,
        ParsePrecedence::Unary => 8,
        ParsePrecedence::Call => 9,
        ParsePrecedence::Primary => 10,
    }
}

impl ParsePrecedence {
    pub fn as_u8(self) -> (r: u8)
        ensures
            r == spec_prec(self),
    {
        match self {
            ParsePrecedence::Lowest => 0,
            ParsePrecedence::Assignment => 1,
            ParsePrecedence::Or => 2,
            ParsePrecedence::And => 3,
            ParsePrecedence::Equality => 4,
            ParsePrecedence::Comparison => 5,
            ParsePrecedence::Term => 6,
            ParsePrecedence::Factor => 7,
            ParsePrecedence::Unary => 8,
            ParsePrecedence::Call => 9,
            ParsePrecedence::Primary => 10,
        }
    }

    pub fn from_u8(value: u8) -> (r: Option<ParsePrecedence>)
        ensures
            (r matches Some(p) ==> spec_prec(p) == value),
            value <= 10 ==> r is Some,
    {
        match value {
            0 => Some(ParsePrecedence::Lowest),
            1 => Some(ParsePrecedence::Assignment),
            2 => Some(ParsePrecedence::Or),
            3 => Some(ParsePrecedence::And),
            4 => Some(ParsePrecedence::Equality),
            5 => Some(ParsePrecedence::Comparison),
            6 => Some(ParsePrecedence::Term),
            7 => Some(ParsePrecedence::Factor),
            8 => Some(ParsePrecedence::Unary),
            9 => Some(ParsePrecedence::Call),
            10 => Some(ParsePrecedence::Primary),
            _ => None,
        }
    }

    /// Whether this level binds no tighter than `other`.
    pub fn le(self, other: ParsePrecedence) -> (r: bool)
        ensures
            r == (spec_prec(self) <= spec_prec(other)),
    {
        self.as_u8() <= other.as_u8()
    }
}

/// The parsing action a rule names; `Nothing` marks a token with no role in
/// that position.
#[derive(Clone, Copy, PartialEq, Eq, Structural, Debug)]
pub enum ParseFn {
    Nothing,
    Number,
    Binary,
    Grouping,
    Call,
    Unary,
    Variable,
    String,
    Literal,
    And,
    Or,
}

} // verus!
