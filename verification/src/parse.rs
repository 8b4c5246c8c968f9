//! Parsing support: the token stream, parse settings and state, and the checks made
//! on parsed expressions.
use vstd::prelude::*;
use crate::ast::{spec_expr_position, Expr};
use crate::dynamic::{spec_flatten, spec_type_desc, AccessMode, Union};
use crate::error_parsing::{lex_to_parse, LexError, ParseError, ParseErrorType};
use crate::position::Position;
use crate::text::str_eq;
use crate::token::{is_valid_identifier, valid_identifier};
use crate::engine::{make_getter, make_setter, FN_GET, FN_SET};
use crate::fn_hash::calc_fn_hash;
use crate::immutable_string::ImmutableString;
use crate::INT;

verus! {

/// Invalid variable name that acts as a search barrier in a scope.
pub const SCOPE_SEARCH_BARRIER_MARKER: &'static str = "$BARRIER$";

/// A punctuation or operator symbol.
#[derive(Clone, Copy, PartialEq, Eq, Structural, Debug, Hash)]
pub enum Symbol {
    LeftBrace,
    RightBrace,
    LeftParen,
    RightParen,
    LeftBracket,
    RightBracket,
    Plus,
    UnaryPlus,
    Minus,
    UnaryMinus,
    Multiply,
    Divide,
    Modulo,
    PowerOf,
    LeftShift,
    RightShift,
    SemiColon,
    Colon,
    DoubleColon,
    DoubleArrow,
    Underscore,
    Comma,
    Period,
    MapStart,
    Equals,
    LessThan,
    GreaterThan,
    LessThanEqualsTo,
    GreaterThanEqualsTo,
    EqualsTo,
    NotEqualsTo,
    Bang,
    Pipe,
    Or,
    XOr,
    Ampersand,
    And,
    PlusAssign,
    MinusAssign,
    MultiplyAssign,
    DivideAssign,
    LeftShiftAssign,
    RightShiftAssign,
    AndAssign,
    OrAssign,
    XOrAssign,
    ModuloAssign,
    PowerOfAssign,
    ExclusiveRange,
    InclusiveRange,
}

/// The text of a symbol.
pub open spec fn symbol_text(s: Symbol) -> Seq<char> {
    match s {
        Symbol::LeftBrace => "{"@,
        Symbol::RightBrace => "}"@,
        Symbol::LeftParen => "("@,
        Symbol::RightParen => ")"@,
        Symbol::LeftBracket => "["@,
        Symbol::RightBracket => "]"@,
        Symbol::Plus => "+"@,
        Symbol::UnaryPlus => "+"@,
        Symbol::Minus => "-"@,
        Symbol::UnaryMinus => "-"@,
        Symbol::Multiply => "*"@,
        Symbol::Divide => "/"@,
        Symbol::Modulo => "%"@,
        Symbol::PowerOf => "**"@,
        Symbol::LeftShift => "<<"@,
        Symbol::RightShift => ">>"@,
        Symbol::SemiColon => ";"@,
        Symbol::Colon => ":"@,
        Symbol::DoubleColon => "::"@,
        Symbol::DoubleArrow => "=>"@,
        Symbol::Underscore => "_"@,
        Symbol::Comma => ","@,
        Symbol::Period => "."@,
        Symbol::MapStart => "#{"@,
        Symbol::Equals => "="@,
        Symbol::LessThan => "<"@,
        Symbol::GreaterThan => ">"@,
        Symbol::LessThanEqualsTo => "<="@,
        Symbol::GreaterThanEqualsTo => ">="@,
        Symbol::EqualsTo => "=="@,
        Symbol::NotEqualsTo => "!="@,
        Symbol::Bang => "!"@,
        Symbol::Pipe => "|"@,
        Symbol::Or => "||"@,
        Symbol::XOr => "^"@,
        Symbol::Ampersand => "&"@,
        Symbol::And => "&&"@,
        Symbol::PlusAssign => "+="@,
        Symbol::MinusAssign => "-="@,
        Symbol::MultiplyAssign => "*="@,
        Symbol::DivideAssign => "/="@,
        Symbol::LeftShiftAssign => "<<="@,
        Symbol::RightShiftAssign => ">>="@,
        Symbol::AndAssign => "&="@,
        Symbol::OrAssign => "|="@,
        Symbol::XOrAssign => "^="@,
        Symbol::ModuloAssign => "%="@,
        Symbol::PowerOfAssign => "**="@,
        Symbol::ExclusiveRange => ".."@,
        Symbol::InclusiveRange => "..="@,
    }
}

impl Symbol {
    /// The text of the symbol.
    pub fn literal_syntax(&self) -> (r: &'static str)
        ensures
            r@ == symbol_text(*self),
    {
        match self {
            Symbol::LeftBrace => "{",
            Symbol::RightBrace => "}",
            Symbol::LeftParen => "(",
            Symbol::RightParen => ")",
            Symbol::LeftBracket => "[",
            Symbol::RightBracket => "]",
            Symbol::Plus => "+",
            Symbol::UnaryPlus => "+",
            Symbol::Minus => "-",
            Symbol::UnaryMinus => "-",
            Symbol::Multiply => "*",
            Symbol::Divide => "/",
            Symbol::Modulo => "%",
            Symbol::PowerOf => "**",
            Symbol::LeftShift => "<<",
            Symbol::RightShift => ">>",
            Symbol::SemiColon => ";",
            Symbol::Colon => ":",
            Symbol::DoubleColon => "::",
            Symbol::DoubleArrow => "=>",
            Symbol::Underscore => "_",
            Symbol::Comma => ",",
            Symbol::Period => ".",
            Symbol::MapStart => "#{",
            Symbol::Equals => "=",
            Symbol::LessThan => "<",
            Symbol::GreaterThan => ">",
            Symbol::LessThanEqualsTo => "<=",
            Symbol::GreaterThanEqualsTo => ">=",
            Symbol::EqualsTo => "==",
            Symbol::NotEqualsTo => "!=",
            Symbol::Bang => "!",
            Symbol::Pipe => "|",
            Symbol::Or => "||",
            Symbol::XOr => "^",
            Symbol::Ampersand => "&",
            Symbol::And => "&&",
            Symbol::PlusAssign => "+=",
            Symbol::MinusAssign => "-=",
            Symbol::MultiplyAssign => "*=",
            Symbol::DivideAssign => "/=",
            Symbol::LeftShiftAssign => "<<=",
            Symbol::RightShiftAssign => ">>=",
            Symbol::AndAssign => "&=",
            Symbol::OrAssign => "|=",
            Symbol::XOrAssign => "^=",
            Symbol::ModuloAssign => "%=",
            Symbol::PowerOfAssign => "**=",
            Symbol::ExclusiveRange => "..",
            Symbol::InclusiveRange => "..=",
        }
    }
}

/// A token produced by the tokenizer.
#[derive(Debug, PartialEq, Eq)]
pub enum Token {
    /// A punctuation or operator symbol.
    Symbol(Symbol),
    /// An integer constant.
    IntegerConstant(INT),
    /// A character constant.
    CharConstant(char),
    /// A string constant.
    StringConstant(String),
    /// An identifier.
    Identifier(String),
    /// A reserved keyword or symbol.
    Reserved(String),
    /// A custom keyword or symbol.
    Custom(String),
    /// A tokenizing error.
    LexError(LexError),
    /// The end of the input.
    EOF,
}

/// A stream of tokens with their positions; after the last one it yields `EOF` forever.
pub struct TokenStream {
    rev: Vec<(Token, Position)>,
    eof: Token,
    end: Position,
}

impl TokenStream {
    /// The tokens still to come, in order.
    pub closed spec fn remaining(&self) -> Seq<(Token, Position)> {
        self.rev@.reverse()
    }

    /// The position reported with `EOF` once the tokens run out.
    pub closed spec fn end_position(&self) -> Position {
        self.end
    }

    /// The stream holds its end marker.
    pub closed spec fn wf(&self) -> bool {
        self.eof is EOF
    }

    /// The next token and its position.
    pub open spec fn next_token(&self) -> (Token, Position) {
        if self.remaining().len() > 0 {
            self.remaining()[0]
        } else {
            (Token::EOF, self.end_position())
        }
    }

    /// The stream after the next token has been taken.
    pub open spec fn advanced(&self, after: &TokenStream) -> bool {
        &&& after.wf()
        &&& after.end_position() == self.end_position()
        &&& after.remaining() == if self.remaining().len() > 0 {
            self.remaining().drop_first()
        } else {
            self.remaining()
        }
    }

    /// A stream over these tokens, ending at `end`.
    pub fn new(tokens: Vec<(Token, Position)>, end: Position) -> (r: TokenStream)
        ensures
            r.wf(),
            r.remaining() == tokens@,
            r.end_position() == end,
    {
        let mut tokens = tokens;
        let ghost original = tokens@;
        let mut rev: Vec<(Token, Position)> = Vec::new();
        while tokens.len() > 0
            invariant
                original == tokens@ + rev@.reverse(),
            decreases tokens.len(),
        {
            let t = tokens.pop().unwrap();
            let ghost before = rev@;
            rev.push(t);
            assert(rev@.reverse() == seq![t] + before.reverse());
            assert(original == tokens@ + rev@.reverse());
        }
        assert(original == rev@.reverse());
        TokenStream { rev, eof: Token::EOF, end }
    }

    /// Look at the next token without taking it.
    pub fn peek(&self) -> (r: (&Token, Position))
        requires
            self.wf(),
        ensures
            *r.0 == self.next_token().0,
            r.1 == self.next_token().1,
    {
        let n = self.rev.len();
        if n > 0 {
            let e = &self.rev[n - 1];
            (&e.0, e.1)
        } else {
            (&self.eof, self.end)
        }
    }

    /// Take the next token.
    pub fn next(&mut self) -> (r: (Token, Position))
        requires
            old(self).wf(),
        ensures
            r == old(self).next_token(),
            old(self).advanced(final(self)),
    {
        match self.rev.pop() {
            Some(t) => {
                assert(old(self).remaining()[0] == t);
                assert(self.remaining() == old(self).remaining().drop_first());
                t
            },
            None => (Token::EOF, self.end),
        }
    }
}

/// Make sure that the next expression is not a statement expression (i.e. wrapped in `{}`).
pub fn ensure_not_statement_expr(input: &mut TokenStream, kind_name: &str) -> (r: Result<(), ParseError>)
    requires
        old(input).wf(),
    ensures
        *final(input) == *old(input),
        old(input).next_token().0 matches Token::Symbol(Symbol::LeftBrace) ==> (r matches Err(e) && *e.0 matches ParseErrorType::ExprExpected(s) && s@ == kind_name@ && e.1 == old(input).next_token().1),
        !(old(input).next_token().0 matches Token::Symbol(Symbol::LeftBrace)) ==> r is Ok,
{
    let (t, pos) = input.peek();
    match t {
        Token::Symbol(Symbol::LeftBrace) => Err(ParseErrorType::ExprExpected(String::from_str(kind_name)).into_err(pos)),
        _ => Ok(()),
    }
}

/// Make sure that the next expression is not a mis-typed assignment (i.e. `a = b` instead of `a == b`).
pub fn ensure_not_assignment(input: &mut TokenStream) -> (r: Result<(), ParseError>)
    requires
        old(input).wf(),
    ensures
        *final(input) == *old(input),
        old(input).next_token().0 matches Token::Symbol(Symbol::Equals) ==> (r matches Err(e) && *e.0 matches ParseErrorType::BadInput(LexError::ImproperSymbol(a, b)) && a@ == "="@ && b@ == "Possibly a typo of '=='?"@ && e.1 == old(input).next_token().1),
        !(old(input).next_token().0 matches Token::Symbol(Symbol::Equals)) ==> r is Ok,
{
    let (t, pos) = input.peek();
    match t {
        Token::Symbol(Symbol::Equals) => Err(LexError::ImproperSymbol(
            String::from_str("="),
            String::from_str("Possibly a typo of '=='?"),
        ).into_err(pos)),
        _ => Ok(()),
    }
}

/// Consume the next token, which must be the given symbol; returns its position.
pub fn eat_token(input: &mut TokenStream, token: Symbol) -> (r: Position)
    requires
        old(input).wf(),
        old(input).next_token().0 == Token::Symbol(token),
    ensures
        r == old(input).next_token().1,
        old(input).advanced(final(input)),
{
    let (_, pos) = input.next();
    pos
}

/// Match a particular symbol, consuming it if matched.
pub fn match_token(input: &mut TokenStream, token: Symbol) -> (r: (bool, Position))
    requires
        old(input).wf(),
    ensures
        r.0 == (old(input).next_token().0 == Token::Symbol(token)),
        r.1 == old(input).next_token().1,
        r.0 ==> old(input).advanced(final(input)),
        !r.0 ==> *final(input) == *old(input),
{
    let (t, pos) = input.peek();
    let matched = match t {
        Token::Symbol(s) => *s == token,
        _ => false,
    };
    if matched {
        (true, eat_token(input, token))
    } else {
        (false, pos)
    }
}

/// Parse a variable name.
pub fn parse_var_name(input: &mut TokenStream) -> (r: Result<(String, Position), ParseError>)
    requires
        old(input).wf(),
    ensures
        old(input).advanced(final(input)),
        ({
            let (t, pos) = old(input).next_token();
            match t {
                Token::Identifier(s) => r == Ok::<(String, Position), ParseError>((s, pos)),
                Token::Reserved(s) => if valid_identifier(s@) {
                    r matches Err(e) && *e.0 == ParseErrorType::Reserved(s) && e.1 == pos
                } else {
                    r matches Err(e) && *e.0 == ParseErrorType::VariableExpected && e.1 == pos
                },
                Token::LexError(err) => r matches Err(e) && lex_to_parse(err, *e.0) && e.1 == pos,
                _ => r matches Err(e) && *e.0 == ParseErrorType::VariableExpected && e.1 == pos,
            }
        }),
{
    let (t, pos) = input.next();
    match t {
        Token::Identifier(s) => Ok((s, pos)),
        Token::Reserved(s) => {
            if is_valid_identifier(s.as_str()) {
                Err(ParseErrorType::Reserved(s).into_err(pos))
            } else {
                Err(ParseErrorType::VariableExpected.into_err(pos))
            }
        },
        Token::LexError(err) => Err(err.into_err(pos)),
        _ => Err(ParseErrorType::VariableExpected.into_err(pos)),
    }
}

/// Parse a symbol.
pub fn parse_symbol(input: &mut TokenStream) -> (r: Result<(String, Position), ParseError>)
    requires
        old(input).wf(),
    ensures
        old(input).advanced(final(input)),
        ({
            let (t, pos) = old(input).next_token();
            match t {
                Token::Symbol(sym) => r matches Ok((s, p)) && s@ == symbol_text(sym) && p == pos,
                Token::Reserved(s) => if !valid_identifier(s@) {
                    r == Ok::<(String, Position), ParseError>((s, pos))
                } else {
                    r matches Err(e) && *e.0 matches ParseErrorType::MissingSymbol(m) && m@.len() == 0 && e.1 == pos
                },
                Token::LexError(err) => r matches Err(e) && lex_to_parse(err, *e.0) && e.1 == pos,
                _ => r matches Err(e) && *e.0 matches ParseErrorType::MissingSymbol(m) && m@.len() == 0 && e.1 == pos,
            }
        }),
{
    let (t, pos) = input.next();
    match t {
        Token::Symbol(sym) => Ok((String::from_str(sym.literal_syntax()), pos)),
        Token::Reserved(s) => {
            if !is_valid_identifier(s.as_str()) {
                Ok((s, pos))
            } else {
                Err(ParseErrorType::MissingSymbol(String::new()).into_err(pos))
            }
        },
        Token::LexError(err) => Err(err.into_err(pos)),
        _ => Err(ParseErrorType::MissingSymbol(String::new()).into_err(pos)),
    }
}

/// A factory of identifiers from text strings (each identifier is its own copy).
pub struct IdentifierBuilder;

impl IdentifierBuilder {
    /// An identifier holding the text.
    pub fn get(&mut self, text: &str) -> (r: String)
        ensures
            r@ == text@,
    {
        String::from_str(text)
    }
}

/// All the settings for a particular parsing function.
#[derive(Clone, Copy, PartialEq, Eq, Structural, Debug, Hash)]
pub struct ParseSettings {
    /// Current position.
    pub pos: Position,
    /// Is the construct being parsed located at global level?
    pub is_global: bool,
    /// Is the construct being parsed located at function definition level?
    pub is_function_scope: bool,
    /// Is the current position inside a loop?
    pub is_breakable: bool,
    /// Is anonymous function allowed?
    pub allow_anonymous_fn: bool,
    /// Is if-expression allowed?
    pub allow_if_expr: bool,
    /// Is switch expression allowed?
    pub allow_switch_expr: bool,
    /// Is statement-expression allowed?
    pub allow_stmt_expr: bool,
    /// Current expression nesting level.
    pub level: usize,
}

impl ParseSettings {
    /// The same settings one expression level higher.
    pub fn level_up(&self) -> (r: ParseSettings)
        requires
            self.level < usize::MAX,
        ensures
            r == (ParseSettings { level: (self.level + 1) as usize, ..*self }),
    {
        ParseSettings { level: self.level + 1, ..*self }
    }

    /// Make sure that the current level of expression nesting is within the limit (if any).
    pub fn ensure_level_within_max_limit(&self, limit: Option<usize>) -> (r: Result<(), ParseError>)
        ensures
            (limit matches Some(l) && self.level > l) ==> (r matches Err(e) && *e.0 == ParseErrorType::ExprTooDeep && e.1 == self.pos),
            !(limit matches Some(l) && self.level > l) ==> r is Ok,
    {
        if let Some(l) = limit {
            if self.level > l {
                return Err(ParseErrorType::ExprTooDeep.into_err(self.pos));
            }
        }
        Ok(())
    }
}

/// The current state of the parser: the names declared so far.
pub struct ParseState {
    /// The variables declared so far, innermost last, with their access modes.
    pub stack: Vec<(String, AccessMode)>,
    /// Size of the variables stack upon entry of the current block.
    pub entry_stack_len: usize,
    /// Variables used without being declared, with where they were first used.
    pub external_vars: Vec<(String, Position)>,
    /// Should the next access to an undeclared variable be recorded?
    pub allow_capture: bool,
    /// The names of the imported modules, innermost last.
    pub modules: Vec<String>,
    /// Maximum levels of expression nesting.
    pub max_expr_depth: Option<usize>,
    /// Maximum levels of expression nesting in functions.
    pub max_function_expr_depth: Option<usize>,
}

/// Position (counted from 1 at the innermost) of the innermost declaration of `name`
/// among the stack entries from the top, skipping barrier markers.
pub open spec fn innermost(stack: Seq<(String, AccessMode)>, name: Seq<char>, i: int) -> bool {
    &&& 0 <= i < stack.len()
    &&& stack[stack.len() - 1 - i].0@ == name
    &&& stack[stack.len() - 1 - i].0@ != SCOPE_SEARCH_BARRIER_MARKER@
    &&& forall|j: int| 0 <= j < i ==> (#[trigger] stack[stack.len() - 1 - j]).0@ != name
        || stack[stack.len() - 1 - j].0@ == SCOPE_SEARCH_BARRIER_MARKER@
}

/// Is there a barrier marker among the `upto` innermost entries?
pub open spec fn barrier_within(stack: Seq<(String, AccessMode)>, upto: int) -> bool {
    exists|j: int| 0 <= j < upto && j < stack.len() && (#[trigger] stack[stack.len() - 1 - j]).0@
        == SCOPE_SEARCH_BARRIER_MARKER@
}

/// Is `name` among the recorded external variables?
pub open spec fn has_external(ext: Seq<(String, Position)>, name: Seq<char>) -> bool {
    exists|j: int| 0 <= j < ext.len() && (#[trigger] ext[j]).0@ == name
}

impl ParseState {
    /// A new parser state with the given expression depth limits.
    pub fn new(max_expr_depth: Option<usize>, max_function_expr_depth: Option<usize>) -> (r: ParseState)
        ensures
            r.stack@.len() == 0,
            r.entry_stack_len == 0,
            r.external_vars@.len() == 0,
            r.allow_capture,
            r.modules@.len() == 0,
            r.max_expr_depth == max_expr_depth,
            r.max_function_expr_depth == max_function_expr_depth,
    {
        ParseState {
            stack: Vec::new(),
            entry_stack_len: 0,
            external_vars: Vec::new(),
            allow_capture: true,
            modules: Vec::new(),
            max_expr_depth,
            max_function_expr_depth,
        }
    }

    /// Find the innermost declaration of a variable, counted from 1 at the innermost
    /// declaration; `None` when it is not declared, or only beyond a search barrier.
    ///
    /// An undeclared variable is recorded as external (once, with its first position)
    /// unless capturing is switched off, in which case it is switched back on.
    pub fn access_var(&mut self, name: &str, pos: Position) -> (r: Option<usize>)
        ensures
            final(self).stack == old(self).stack,
            final(self).modules == old(self).modules,
            final(self).entry_stack_len == old(self).entry_stack_len,
            final(self).max_expr_depth == old(self).max_expr_depth,
            final(self).max_function_expr_depth == old(self).max_function_expr_depth,
            final(self).allow_capture,
            ({
                let st = old(self).stack@;
                let found = exists|i: int| innermost(st, name@, i);
                &&& (forall|i: int| innermost(st, name@, i) ==> (r == if barrier_within(st, i) {
                    None
                } else {
                    Some((i + 1) as usize)
                }))
                &&& (!found ==> r is None)
                &&& (old(self).allow_capture && !found && !has_external(old(self).external_vars@, name@))
                    ==> (final(self).external_vars@.len() == old(self).external_vars@.len() + 1
                    && final(self).external_vars@.take(old(self).external_vars@.len() as int)
                    == old(self).external_vars@
                    && final(self).external_vars@.last().0@ == name@
                    && final(self).external_vars@.last().1 == pos)
                &&& !(old(self).allow_capture && !found && !has_external(old(self).external_vars@, name@))
                    ==> final(self).external_vars == old(self).external_vars
            }),
    {
        let (index, barrier) = self.search_stack(name);
        if self.allow_capture {
            if index.is_none() && !self.has_external_var(name) {
                self.external_vars.push((String::from_str(name), pos));
            }
        } else {
            self.allow_capture = true;
        }
        if barrier {
            None
        } else {
            index
        }
    }

    /// Search the variables from the innermost: the 1-based position of the innermost
    /// declaration of `name` (if any), and whether a barrier lies above it.
    fn search_stack(&self, name: &str) -> (r: (Option<usize>, bool))
        ensures
            ({
                let st = self.stack@;
                &&& r.0 matches Some(k) ==> innermost(st, name@, k - 1) && r.1 == barrier_within(st, k - 1)
                &&& r.0 is None ==> (forall|i: int| !innermost(st, name@, i)) && r.1 == barrier_within(st, st.len() as int)
            }),
    {
        let n = self.stack.len();
        let ghost st = self.stack@;
        let mut barrier = false;
        let mut i: usize = 0;
        while i < n
            invariant
                n == st.len(),
                st == self.stack@,
                i <= n,
                barrier == barrier_within(st, i as int),
                forall|j: int| 0 <= j < i ==> (#[trigger] st[st.len() - 1 - j]).0@ != name@
                    || st[st.len() - 1 - j].0@ == SCOPE_SEARCH_BARRIER_MARKER@,
            decreases n - i,
        {
            let entry_name = self.stack[n - 1 - i].0.as_str();
            if str_eq(entry_name, SCOPE_SEARCH_BARRIER_MARKER) {
                barrier = true;
                assert(barrier_within(st, i + 1));
            } else if str_eq(entry_name, name) {
                assert(innermost(st, name@, i as int));
                return (Some(i + 1), barrier);
            } else {
                assert(barrier_within(st, i + 1) == barrier_within(st, i as int));
            }
            i = i + 1;
        }
        proof {
            assert forall|k: int| !innermost(st, name@, k) by {
                if 0 <= k < st.len() {
                    assert(st[st.len() - 1 - k].0@ != name@ || st[st.len() - 1 - k].0@ == SCOPE_SEARCH_BARRIER_MARKER@);
                }
            }
        }
        (None, barrier)
    }

    /// Has this name been recorded as an external variable?
    fn has_external_var(&self, name: &str) -> (r: bool)
        ensures
            r == has_external(self.external_vars@, name@),
    {
        let mut j: usize = 0;
        while j < self.external_vars.len()
            invariant
                j <= self.external_vars@.len(),
                forall|k: int| 0 <= k < j ==> (#[trigger] self.external_vars@[k]).0@ != name@,
            decreases self.external_vars.len() - j,
        {
            if str_eq(self.external_vars[j].0.as_str(), name) {
                return true;
            }
            j = j + 1;
        }
        false
    }

    /// Find the innermost imported module with this name, counted from 1 at the innermost.
    pub fn find_module(&self, name: &str) -> (r: Option<usize>)
        ensures
            r matches Some(k) ==> 1 <= k <= self.modules@.len() && self.modules@[self.modules@.len() - k]@ == name@
                && forall|j: int| 1 <= j < k ==> (#[trigger] self.modules@[self.modules@.len() - j])@ != name@,
            r is None ==> forall|j: int| 0 <= j < self.modules@.len() ==> (#[trigger] self.modules@[j])@ != name@,
    {
        let n = self.modules.len();
        let mut i: usize = 0;
        while i < n
            invariant
                n == self.modules@.len(),
                i <= n,
                forall|j: int| 1 <= j <= i ==> (#[trigger] self.modules@[n - j])@ != name@,
            decreases n - i,
        {
            if str_eq(self.modules[n - 1 - i].as_str(), name) {
                return Some(i + 1);
            }
            i = i + 1;
        }
        proof {
            assert forall|j: int| 0 <= j < n implies (#[trigger] self.modules@[j])@ != name@ by {
                assert(self.modules@[n - (n - j)] == self.modules@[j]);
            }
        }
        None
    }

    /// An identifier holding the text.
    pub fn get_identifier(&mut self, text: &str) -> (r: String)
        ensures
            r@ == text@,
            *final(self) == *old(self),
    {
        String::from_str(text)
    }
}

/// The name of the kind of value an expression can never be a boolean for, if any.
pub open spec fn non_bool_kind(e: Expr) -> Option<Seq<char>> {
    match e {
        Expr::Unit(_) => Some("()"@),
        Expr::DynamicConstant(v, _) => if spec_flatten(*v).value is Bool {
            None
        } else {
            Some(spec_type_desc(*v))
        },
        Expr::IntegerConstant(_, _) => Some("a number"@),
        Expr::CharConstant(_, _) => Some("a character"@),
        Expr::StringConstant(_, _) => Some("a string"@),
        Expr::InterpolatedString(_, _) => Some("a string"@),
        Expr::Array(_, _) => Some("an array"@),
        Expr::MapLiteral(_, _) => Some("an object map"@),
        _ => None,
    }
}

/// The name of the kind of value an expression can never be iterated over for, if any.
pub open spec fn non_iterable_kind(e: Expr) -> Option<Seq<char>> {
    match e {
        Expr::Unit(_) => Some("()"@),
        Expr::BoolConstant(_, _) => Some("a boolean"@),
        Expr::IntegerConstant(_, _) => Some("a number"@),
        Expr::CharConstant(_, _) => Some("a character"@),
        Expr::StringConstant(_, _) => Some("a string"@),
        Expr::InterpolatedString(_, _) => Some("a string"@),
        Expr::MapLiteral(_, _) => Some("an object map"@),
        _ => None,
    }
}

impl Expr {
    /// Raise an error if the expression can never yield a boolean value.
    pub fn ensure_bool_expr(self) -> (r: Result<Expr, ParseError>)
        ensures
            match non_bool_kind(self) {
                None => r == Ok::<Expr, ParseError>(self),
                Some(k) => r matches Err(e) && *e.0 matches ParseErrorType::MismatchedType(a, b) && a@
                    == "a boolean expression"@ && b@ == k && e.1 == spec_expr_position(self),
            },
    {
        let kind: &str = match &self {
            Expr::Unit(_) => "()",
            Expr::DynamicConstant(v, _) => {
                match v.as_bool() {
                    Ok(_) => {
                        return Ok(self);
                    },
                    Err(_) => v.type_desc(),
                }
            },
            Expr::IntegerConstant(_, _) => "a number",
            Expr::CharConstant(_, _) => "a character",
            Expr::StringConstant(_, _) => "a string",
            Expr::InterpolatedString(_, _) => "a string",
            Expr::Array(_, _) => "an array",
            Expr::MapLiteral(_, _) => "an object map",
            _ => {
                return Ok(self);
            },
        };
        let pos = self.position();
        Err(ParseErrorType::MismatchedType(String::from_str("a boolean expression"), String::from_str(kind)).into_err(pos))
    }

    /// Raise an error if the expression can never yield an iterable value.
    pub fn ensure_iterable(self) -> (r: Result<Expr, ParseError>)
        ensures
            match non_iterable_kind(self) {
                None => r == Ok::<Expr, ParseError>(self),
                Some(k) => r matches Err(e) && *e.0 matches ParseErrorType::MismatchedType(a, b) && a@
                    == "an iterable value"@ && b@ == k && e.1 == spec_expr_position(self),
            },
    {
        let kind: &str = match &self {
            Expr::Unit(_) => "()",
            Expr::BoolConstant(_, _) => "a boolean",
            Expr::IntegerConstant(_, _) => "a number",
            Expr::CharConstant(_, _) => "a character",
            Expr::StringConstant(_, _) => "a string",
            Expr::InterpolatedString(_, _) => "a string",
            Expr::MapLiteral(_, _) => "an object map",
            _ => {
                return Ok(self);
            },
        };
        let pos = self.position();
        Err(ParseErrorType::MismatchedType(String::from_str("an iterable value"), String::from_str(kind)).into_err(pos))
    }
}

/// Is `r` the property access that the variable `e` turns into: getter and setter
/// names made from the variable's name, and the name and position of the variable?
pub open spec fn is_property_of(e: Expr, r: Expr) -> bool {
    e matches Expr::Variable(_, pos, x) && r matches Expr::Property(p) && p.0.0@ == FN_GET@ + x.name@ && p.1.0@
        == FN_SET@ + x.name@ && p.2.0@ == x.name@ && p.2.1 == pos
}

impl Expr {
    /// Turn a variable without namespace into a property access (as on the right of a
    /// dot); any other expression is left as it is.
    pub fn into_property(self, state: &mut ParseState) -> (r: Expr)
        ensures
            *final(state) == *old(state),
            (self matches Expr::Variable(_, _, x) && x.namespace is None) ==> is_property_of(self, r),
            !(self matches Expr::Variable(_, _, x) && x.namespace is None) ==> r == self,
    {
        match self {
            Expr::Variable(index, pos, x) => {
                if x.namespace.is_none() {
                    let ident = x.name;
                    let getter = state.get_identifier(make_getter(ident.as_str()).as_str());
                    let hash_get = calc_fn_hash(getter.as_str(), 1);
                    let setter = state.get_identifier(make_setter(ident.as_str()).as_str());
                    let hash_set = calc_fn_hash(setter.as_str(), 2);
                    let name = state.get_identifier(ident.as_str());
                    Expr::Property(Box::new(((getter, hash_get), (setter, hash_set), (ImmutableString::from_string(name), pos))))
                } else {
                    Expr::Variable(index, pos, x)
                }
            },
            _ => self,
        }
    }
}

} // verus!
