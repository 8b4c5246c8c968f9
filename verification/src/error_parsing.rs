//! Error definitions for the tokenizing and parsing process.
use vstd::prelude::*;
use crate::error::EvalAltResult;
use crate::position::{position_text, Position};
use crate::text::{decimal_text, write_decimal};

verus! {

/// Error encountered when tokenizing the script text.
#[derive(PartialEq, Eq, Debug, Clone, Hash)]
pub enum LexError {
    /// An unexpected symbol is encountered when tokenizing the script text.
    UnexpectedInput(String),
    /// A string literal is not terminated before a new-line or EOF.
    UnterminatedString,
    /// A string literal is longer than the limit (wrapped value).
    StringTooLong(usize),
    /// A string/character/numeric escape sequence is in an invalid format.
    MalformedEscapeSequence(String),
    /// A numeric literal is in an invalid format.
    MalformedNumber(String),
    /// A character literal is in an invalid format.
    MalformedChar(String),
    /// An identifier is in an invalid format.
    MalformedIdentifier(String),
    /// Bad symbol encountered when tokenizing the script text.
    ImproperSymbol(String, String),
}

/// Type of error encountered when parsing a script.
#[derive(PartialEq, Eq, Debug, Clone, Hash)]
pub enum ParseErrorType {
    /// The script ends prematurely.
    UnexpectedEOF,
    /// Error in the script text. Wrapped value is the lex error.
    BadInput(LexError),
    /// An unknown operator is encountered. Wrapped value is the operator.
    UnknownOperator(String),
    /// Expecting a particular token but not finding one. Wrapped values are the token and description.
    MissingToken(String, String),
    /// Expecting a particular symbol but not finding one. Wrapped value is the description.
    MissingSymbol(String),
    /// An expression in function call arguments `()` has syntax error.
    MalformedCallExpr(String),
    /// An expression in indexing brackets `[]` has syntax error.
    MalformedIndexExpr(String),
    /// An expression in an `in` expression has syntax error.
    MalformedInExpr(String),
    /// A capturing has syntax error.
    MalformedCapture(String),
    /// A map definition has duplicated property names. Wrapped value is the property name.
    DuplicatedProperty(String),
    /// A `switch` case is duplicated.
    DuplicatedSwitchCase,
    /// A variable name is duplicated. Wrapped value is the variable name.
    DuplicatedVariable(String),
    /// The default case of a `switch` statement is not the last.
    WrongSwitchDefaultCase,
    /// The case condition of a `switch` statement is not appropriate.
    WrongSwitchCaseCondition,
    /// Missing a property name for custom types and maps.
    PropertyExpected,
    /// Missing a variable name after the `let`, `const`, `for` or `catch` keywords.
    VariableExpected,
    /// An identifier is a reserved keyword.
    Reserved(String),
    /// An expression is of the wrong type: the type requested and the type found.
    MismatchedType(String, String),
    /// Missing an expression. Wrapped value is the expression type.
    ExprExpected(String),
    /// Defining a doc-comment in an inappropriate place.
    WrongDocComment,
    /// Defining a function `fn` in an inappropriate place.
    WrongFnDefinition,
    /// Defining a function with a name that conflicts with an existing function.
    FnDuplicatedDefinition(String, usize),
    /// Missing a function name after the `fn` keyword.
    FnMissingName,
    /// A function definition is missing the parameters list.
    FnMissingParams(String),
    /// A function definition has duplicated parameters: function name and parameter name.
    FnDuplicatedParam(String, String),
    /// A function definition is missing the body.
    FnMissingBody(String),
    /// Export statement not at global level.
    WrongExport,
    /// Assignment to a constant variable.
    AssignmentToConstant(String),
    /// Assignment to an inappropriate left-hand-side expression.
    AssignmentToInvalidLHS(String),
    /// Expression exceeding the maximum levels of complexity.
    ExprTooDeep,
    /// Literal exceeding the maximum size: the data type name and the maximum size.
    LiteralTooLarge(String, usize),
    /// Break statement not inside a loop.
    LoopBreak,
}

/// Error when parsing a script: the kind of error and where it occurred.
#[derive(PartialEq, Eq, Debug, Clone, Hash)]
pub struct ParseError(pub Box<ParseErrorType>, pub Position);

/// How a tokenizing error is reported as a parse error: an over-long string literal
/// becomes `LiteralTooLarge`, everything else is wrapped as `BadInput`.
pub open spec fn lex_to_parse(err: LexError, r: ParseErrorType) -> bool {
    match err {
        LexError::StringTooLong(max) => r matches ParseErrorType::LiteralTooLarge(s, m) && s@
            == "Length of string literal"@ && m == max,
        _ => r == ParseErrorType::BadInput(err),
    }
}

impl ParseErrorType {
    /// Convert a tokenizing error into a parse error type.
    pub fn from_lex_error(err: LexError) -> (r: ParseErrorType)
        ensures
            lex_to_parse(err, r),
    {
        match err {
            LexError::StringTooLong(max) => ParseErrorType::LiteralTooLarge(
                String::from_str("Length of string literal"),
                max,
            ),
            _ => ParseErrorType::BadInput(err),
        }
    }

    /// Make a [`ParseError`] using the current type and position.
    pub fn into_err(self, pos: Position) -> (r: ParseError)
        ensures
            *r.0 == self,
            r.1 == pos,
    {
        ParseError(Box::new(self), pos)
    }
}

impl ParseErrorType {
    /// The evaluation error for this syntax error, with no position.
    pub fn into_eval_error(self) -> (r: EvalAltResult)
        ensures
            r == EvalAltResult::ErrorParsing(self, Position::spec_none()),
    {
        EvalAltResult::ErrorParsing(self, Position::none())
    }
}

impl ParseError {
    /// The evaluation error for this syntax error, at its position.
    pub fn into_eval_error(self) -> (r: EvalAltResult)
        ensures
            r == EvalAltResult::ErrorParsing(*self.0, self.1),
    {
        EvalAltResult::ErrorParsing(*self.0, self.1)
    }
}

impl LexError {
    /// Convert a [`LexError`] into a [`ParseError`].
    pub fn into_err(self, pos: Position) -> (r: ParseError)
        ensures
            lex_to_parse(self, *r.0),
            r.1 == pos,
    {
        ParseError(Box::new(ParseErrorType::from_lex_error(self)), pos)
    }
}

/// The message of a tokenizing error.
pub open spec fn lex_error_text(e: LexError) -> Seq<char> {
    match e {
        LexError::UnexpectedInput(s) => "Unexpected '"@ + s@ + "'"@,
        LexError::MalformedEscapeSequence(s) => "Invalid escape sequence: '"@ + s@ + "'"@,
        LexError::MalformedNumber(s) => "Invalid number: '"@ + s@ + "'"@,
        LexError::MalformedChar(s) => "Invalid character: '"@ + s@ + "'"@,
        LexError::MalformedIdentifier(s) => "Variable name is not proper: '"@ + s@ + "'"@,
        LexError::UnterminatedString => "Open string is not terminated"@,
        LexError::StringTooLong(max) => "Length of string literal"@ + " exceeds the maximum limit ("@ + decimal_text(
            max as int,
        ) + ")"@,
        LexError::ImproperSymbol(s, d) => if d@.len() == 0 {
            "Invalid symbol encountered: '"@ + s@ + "'"@
        } else {
            d@
        },
    }
}

/// `text` where it is not empty, else `default`.
pub open spec fn or_default(text: Seq<char>, default: Seq<char>) -> Seq<char> {
    if text.len() == 0 {
        default
    } else {
        text
    }
}

/// The message of a parse error type.
pub open spec fn parse_error_type_text(e: ParseErrorType) -> Seq<char> {
    match e {
        ParseErrorType::BadInput(err) => lex_error_text(err),
        ParseErrorType::UnknownOperator(s) => "Unknown operator: '"@ + s@ + "'"@,
        ParseErrorType::MalformedCallExpr(s) => or_default(s@, "Invalid expression in function call arguments"@),
        ParseErrorType::MalformedIndexExpr(s) => or_default(s@, "Invalid index in indexing expression"@),
        ParseErrorType::MalformedInExpr(s) => or_default(s@, "Invalid 'in' expression"@),
        ParseErrorType::MalformedCapture(s) => or_default(s@, "Invalid capturing"@),
        ParseErrorType::FnDuplicatedDefinition(s, n) => "Function '"@ + s@ + "' with "@ + if n == 0 {
            "no parameters already exists"@
        } else if n == 1 {
            "1 parameter already exists"@
        } else {
            decimal_text(n as int) + " parameters already exists"@
        },
        ParseErrorType::FnMissingBody(s) => if s@.len() == 0 {
            "Expecting body statement block for anonymous function"@
        } else {
            "Expecting body statement block for function '"@ + s@ + "'"@
        },
        ParseErrorType::FnMissingParams(s) => "Expecting parameters for function '"@ + s@ + "'"@,
        ParseErrorType::FnDuplicatedParam(s, arg) => "Duplicated parameter '"@ + arg@ + "' for function '"@ + s@
            + "'"@,
        ParseErrorType::DuplicatedProperty(s) => "Duplicated property '"@ + s@ + "' for object map literal"@,
        ParseErrorType::DuplicatedSwitchCase => "Duplicated switch case"@,
        ParseErrorType::DuplicatedVariable(s) => "Duplicated variable name '"@ + s@ + "'"@,
        ParseErrorType::MismatchedType(r, a) => "Expecting "@ + r@ + ", not "@ + a@,
        ParseErrorType::ExprExpected(s) => "Expecting "@ + s@ + " expression"@,
        ParseErrorType::MissingToken(token, s) => "Expecting '"@ + token@ + "' "@ + s@,
        ParseErrorType::MissingSymbol(s) => or_default(s@, "Expecting a symbol"@),
        ParseErrorType::AssignmentToConstant(s) => if s@.len() == 0 {
            "Cannot assign to a constant value"@
        } else {
            "Cannot assign to constant '"@ + s@ + "'"@
        },
        ParseErrorType::AssignmentToInvalidLHS(s) => or_default(s@, "Expression cannot be assigned to"@),
        ParseErrorType::LiteralTooLarge(typ, max) => typ@ + " exceeds the maximum limit ("@ + decimal_text(
            max as int,
        ) + ")"@,
        ParseErrorType::Reserved(s) => "'"@ + s@ + "' is a reserved keyword"@,
        ParseErrorType::UnexpectedEOF => "Script is incomplete"@,
        ParseErrorType::WrongSwitchDefaultCase => "Default switch case is not the last"@,
        ParseErrorType::WrongSwitchCaseCondition => "Default switch case cannot have condition"@,
        ParseErrorType::PropertyExpected => "Expecting name of a property"@,
        ParseErrorType::VariableExpected => "Expecting name of a variable"@,
        ParseErrorType::WrongFnDefinition => "Function definitions must be at global level and cannot be inside a block or another function"@,
        ParseErrorType::FnMissingName => "Expecting function name in function declaration"@,
        ParseErrorType::WrongDocComment => "Doc-comment must be followed immediately by a function definition"@,
        ParseErrorType::WrongExport => "Export statement can only appear at global level"@,
        ParseErrorType::ExprTooDeep => "Expression exceeds maximum complexity"@,
        ParseErrorType::LoopBreak => "Break statement should only be used inside a loop"@,
    }
}

/// The text shown after a message for its position: ` (line L, position P)`, or
/// nothing for no position.
pub open spec fn position_suffix(p: Position) -> Seq<char> {
    if p == Position::spec_none() {
        Seq::<char>::empty()
    } else {
        " ("@ + position_text(p) + ")"@
    }
}

/// Append the position suffix of `p` to `out`.
pub fn write_position_suffix(out: &mut String, p: Position)
    ensures
        final(out)@ == old(out)@ + position_suffix(p),
{
    if !p.is_none() {
        out.append(" (");
        out.append(p.to_text().as_str());
        out.append(")");
    } else {
        assert(old(out)@ + position_suffix(p) == old(out)@);
    }
}

fn quoted(head: &str, s: &str, tail: &str) -> (r: String)
    ensures
        r@ == head@ + s@ + tail@,
{
    let mut r = String::from_str(head);
    r.append(s);
    r.append(tail);
    r
}

fn or_default_text(s: &str, default: &str) -> (r: String)
    ensures
        r@ == or_default(s@, default@),
{
    if s.is_empty() {
        String::from_str(default)
    } else {
        String::from_str(s)
    }
}

fn limit_text(head: &str, max: usize) -> (r: String)
    ensures
        r@ == head@ + " exceeds the maximum limit ("@ + decimal_text(max as int) + ")"@,
{
    let mut r = String::from_str(head);
    r.append(" exceeds the maximum limit (");
    write_decimal(&mut r, max as i128);
    r.append(")");
    r
}

impl LexError {
    /// The message of the error.
    pub fn to_text(&self) -> (r: String)
        ensures
            r@ == lex_error_text(*self),
    {
        match self {
            LexError::UnexpectedInput(s) => quoted("Unexpected '", s.as_str(), "'"),
            LexError::MalformedEscapeSequence(s) => quoted("Invalid escape sequence: '", s.as_str(), "'"),
            LexError::MalformedNumber(s) => quoted("Invalid number: '", s.as_str(), "'"),
            LexError::MalformedChar(s) => quoted("Invalid character: '", s.as_str(), "'"),
            LexError::MalformedIdentifier(s) => quoted("Variable name is not proper: '", s.as_str(), "'"),
            LexError::UnterminatedString => String::from_str("Open string is not terminated"),
            LexError::StringTooLong(max) => limit_text("Length of string literal", *max),
            LexError::ImproperSymbol(s, d) => if d.as_str().is_empty() {
                quoted("Invalid symbol encountered: '", s.as_str(), "'")
            } else {
                d.clone()
            },
        }
    }
}

impl ParseErrorType {
    /// The message of the error.
    pub fn to_text(&self) -> (r: String)
        ensures
            r@ == parse_error_type_text(*self),
    {
        match self {
            ParseErrorType::BadInput(err) => err.to_text(),
            ParseErrorType::UnknownOperator(s) => quoted("Unknown operator: '", s.as_str(), "'"),
            ParseErrorType::MalformedCallExpr(s) => or_default_text(
                s.as_str(),
                "Invalid expression in function call arguments",
            ),
            ParseErrorType::MalformedIndexExpr(s) => or_default_text(s.as_str(), "Invalid index in indexing expression"),
            ParseErrorType::MalformedInExpr(s) => or_default_text(s.as_str(), "Invalid 'in' expression"),
            ParseErrorType::MalformedCapture(s) => or_default_text(s.as_str(), "Invalid capturing"),
            ParseErrorType::FnDuplicatedDefinition(s, n) => {
                let mut r = quoted("Function '", s.as_str(), "' with ");
                if *n == 0 {
                    r.append("no parameters already exists");
                } else if *n == 1 {
                    r.append("1 parameter already exists");
                } else {
                    write_decimal(&mut r, *n as i128);
                    r.append(" parameters already exists");
                }
                r
            },
            ParseErrorType::FnMissingBody(s) => if s.as_str().is_empty() {
                String::from_str("Expecting body statement block for anonymous function")
            } else {
                quoted("Expecting body statement block for function '", s.as_str(), "'")
            },
            ParseErrorType::FnMissingParams(s) => quoted("Expecting parameters for function '", s.as_str(), "'"),
            ParseErrorType::FnDuplicatedParam(s, arg) => {
                let mut r = quoted("Duplicated parameter '", arg.as_str(), "' for function '");
                r.append(s.as_str());
                r.append("'");
                r
            },
            ParseErrorType::DuplicatedProperty(s) => quoted(
                "Duplicated property '",
                s.as_str(),
                "' for object map literal",
            ),
            ParseErrorType::DuplicatedSwitchCase => String::from_str("Duplicated switch case"),
            ParseErrorType::DuplicatedVariable(s) => quoted("Duplicated variable name '", s.as_str(), "'"),
            ParseErrorType::MismatchedType(r, a) => {
                let mut t = quoted("Expecting ", r.as_str(), ", not ");
                t.append(a.as_str());
                t
            },
            ParseErrorType::ExprExpected(s) => quoted("Expecting ", s.as_str(), " expression"),
            ParseErrorType::MissingToken(token, s) => {
                let mut t = quoted("Expecting '", token.as_str(), "' ");
                t.append(s.as_str());
                t
            },
            ParseErrorType::MissingSymbol(s) => or_default_text(s.as_str(), "Expecting a symbol"),
            ParseErrorType::AssignmentToConstant(s) => if s.as_str().is_empty() {
                String::from_str("Cannot assign to a constant value")
            } else {
                quoted("Cannot assign to constant '", s.as_str(), "'")
            },
            ParseErrorType::AssignmentToInvalidLHS(s) => or_default_text(s.as_str(), "Expression cannot be assigned to"),
            ParseErrorType::LiteralTooLarge(typ, max) => limit_text(typ.as_str(), *max),
            ParseErrorType::Reserved(s) => quoted("'", s.as_str(), "' is a reserved keyword"),
            ParseErrorType::UnexpectedEOF => String::from_str("Script is incomplete"),
            ParseErrorType::WrongSwitchDefaultCase => String::from_str("Default switch case is not the last"),
            ParseErrorType::WrongSwitchCaseCondition => String::from_str("Default switch case cannot have condition"),
            ParseErrorType::PropertyExpected => String::from_str("Expecting name of a property"),
            ParseErrorType::VariableExpected => String::from_str("Expecting name of a variable"),
            ParseErrorType::WrongFnDefinition => String::from_str(
                "Function definitions must be at global level and cannot be inside a block or another function",
            ),
            ParseErrorType::FnMissingName => String::from_str("Expecting function name in function declaration"),
            ParseErrorType::WrongDocComment => String::from_str(
                "Doc-comment must be followed immediately by a function definition",
            ),
            ParseErrorType::WrongExport => String::from_str("Export statement can only appear at global level"),
            ParseErrorType::ExprTooDeep => String::from_str("Expression exceeds maximum complexity"),
            ParseErrorType::LoopBreak => String::from_str("Break statement should only be used inside a loop"),
        }
    }
}

impl ParseError {
    /// The message of the error, followed by its position where it has one.
    pub fn to_text(&self) -> (r: String)
        ensures
            r@ == parse_error_type_text(*self.0) + position_suffix(self.1),
    {
        let mut r = self.0.to_text();
        write_position_suffix(&mut r, self.1);
        r
    }
}

} // verus!
