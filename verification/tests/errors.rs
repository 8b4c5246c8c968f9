use rhai::dynamic::Dynamic;
use rhai::error::EvalAltResult;
use rhai::error_parsing::{LexError, ParseError, ParseErrorType};
use rhai::immutable_string::ImmutableString;
use rhai::map::ObjectMap;
use rhai::position::Position;

fn pos(line: u16, p: u16) -> Position {
    Position::new(line, p)
}

#[test]
fn error_texts_with_positions() {
    let e = EvalAltResult::ErrorVariableNotFound(String::from("x"), pos(1, 5));
    assert_eq!(e.to_text(), "Variable not found: x (line 1, position 5)");
    let e = EvalAltResult::ErrorFunctionNotFound(String::from("foo (i64)"), Position::none());
    assert_eq!(e.to_text(), "Function not found: foo (i64)");
    let e = EvalAltResult::ErrorModuleNotFound(String::from("m"), pos(2, 1));
    assert_eq!(e.to_text(), "Module not found: 'm' (line 2, position 1)");
}

#[test]
fn error_texts_nested() {
    let inner = Box::new(EvalAltResult::ErrorArithmetic(String::from("Division by zero: 1 / 0"), pos(3, 4)));
    let e = EvalAltResult::ErrorInFunctionCall(String::from("f"), String::from("src"), inner, pos(9, 9));
    assert_eq!(
        e.to_text(),
        "Division by zero: 1 / 0 (line 3, position 4) in call to function f @ 'src' (line 9, position 9)"
    );
    let inner = Box::new(EvalAltResult::ErrorUnboundThis(Position::none()));
    let e = EvalAltResult::ErrorInFunctionCall(String::from("anon$123"), String::new(), inner, Position::none());
    assert_eq!(e.to_text(), "'this' is not bound in call to closure");
    let inner = Box::new(EvalAltResult::ErrorFor(Position::none()));
    let e = EvalAltResult::ErrorInModule(String::new(), inner, Position::none());
    assert_eq!(e.to_text(), "Error in module: For loop expects a type with an iterator defined");
    let inner = Box::new(EvalAltResult::ErrorStackOverflow(Position::none()));
    let e = EvalAltResult::ErrorInModule(String::from("m"), inner, Position::none());
    assert_eq!(e.to_text(), "Error in module 'm': Stack overflow");
}

#[test]
fn error_texts_bounds() {
    let e = EvalAltResult::ErrorArrayBounds(0, 3, Position::none());
    assert_eq!(e.to_text(), "Array index 3 out of bounds: array is empty");
    let e = EvalAltResult::ErrorArrayBounds(1, 3, Position::none());
    assert_eq!(e.to_text(), "Array index 3 out of bounds: only 1 element in the array");
    let e = EvalAltResult::ErrorArrayBounds(5, -9, Position::none());
    assert_eq!(e.to_text(), "Array index -9 out of bounds: only 5 elements in the array");
    let e = EvalAltResult::ErrorStringBounds(1, 2, Position::none());
    assert_eq!(e.to_text(), "String index 2 out of bounds: only 1 character in the string");
    let e = EvalAltResult::ErrorBitFieldBounds(64, 70, Position::none());
    assert_eq!(e.to_text(), "Bit-field index 70 out of bounds: only 64 bits in the bit-field");
}

#[test]
fn error_texts_types_and_runtime() {
    let e = EvalAltResult::ErrorMismatchDataType(String::from("i64"), String::from("string"), Position::none());
    assert_eq!(e.to_text(), "Data type is incorrect: string (expecting i64)");
    let e = EvalAltResult::ErrorMismatchOutputType(String::from("i64"), String::new(), Position::none());
    assert_eq!(e.to_text(), "Output type is incorrect, expecting i64");
    let e = EvalAltResult::ErrorMismatchOutputType(String::new(), String::from("bool"), Position::none());
    assert_eq!(e.to_text(), "Output type is incorrect: bool");
    let e = EvalAltResult::ErrorRuntime(Dynamic::unit(), Position::none());
    assert_eq!(e.to_text(), "Runtime error");
    let e = EvalAltResult::ErrorRuntime(Dynamic::from_string(ImmutableString::new()), Position::none());
    assert_eq!(e.to_text(), "Runtime error");
    let e = EvalAltResult::ErrorRuntime(Dynamic::from_int(42), pos(1, 1));
    assert_eq!(e.to_text(), "Runtime error: 42 (line 1, position 1)");
    let e = EvalAltResult::ErrorSystem(String::new(), String::from("boom"));
    assert_eq!(e.to_text(), "boom");
    let e = EvalAltResult::ErrorSystem(String::from("IO"), String::from("boom"));
    assert_eq!(e.to_text(), "IO: boom");
    let e = EvalAltResult::LoopBreak(false, Position::none());
    assert_eq!(e.to_text(), "'continue' not inside a loop");
    let e = EvalAltResult::ErrorDotExpr(String::new(), Position::none());
    assert_eq!(e.to_text(), "Malformed dot expression");
    let e = EvalAltResult::ErrorArithmetic(String::new(), Position::none());
    assert_eq!(e.to_text(), "Arithmetic error");
    let e = EvalAltResult::ErrorDataTooLarge(String::from("Length of string"), Position::none());
    assert_eq!(e.to_text(), "Length of string exceeds maximum limit");
    let e = EvalAltResult::Return(Dynamic::unit(), Position::none());
    assert_eq!(e.to_text(), "NOT AN ERROR - function returns value");
}

#[test]
fn parse_error_texts() {
    let e = EvalAltResult::ErrorParsing(ParseErrorType::UnexpectedEOF, pos(4, 2));
    assert_eq!(e.to_text(), "Syntax error: Script is incomplete (line 4, position 2)");
    let p = ParseErrorType::FnDuplicatedDefinition(String::from("f"), 0);
    assert_eq!(p.to_text(), "Function 'f' with no parameters already exists");
    let p = ParseErrorType::FnDuplicatedDefinition(String::from("f"), 1);
    assert_eq!(p.to_text(), "Function 'f' with 1 parameter already exists");
    let p = ParseErrorType::FnDuplicatedDefinition(String::from("f"), 3);
    assert_eq!(p.to_text(), "Function 'f' with 3 parameters already exists");
    let p = ParseErrorType::MissingToken(String::from(")"), String::from("to close"));
    assert_eq!(p.to_text(), "Expecting ')' to close");
    let p = ParseErrorType::MalformedCallExpr(String::new());
    assert_eq!(p.to_text(), "Invalid expression in function call arguments");
    let p = ParseErrorType::BadInput(LexError::UnexpectedInput(String::from("@")));
    assert_eq!(p.to_text(), "Unexpected '@'");
    let p = ParseErrorType::LiteralTooLarge(String::from("Array"), 10);
    assert_eq!(p.to_text(), "Array exceeds the maximum limit (10)");
    let p = ParseErrorType::FnDuplicatedParam(String::from("f"), String::from("x"));
    assert_eq!(p.to_text(), "Duplicated parameter 'x' for function 'f'");
    let e = ParseError(Box::new(ParseErrorType::VariableExpected), pos(1, 2));
    assert_eq!(e.to_text(), "Expecting name of a variable (line 1, position 2)");
    let e = ParseError(Box::new(ParseErrorType::ExprTooDeep), Position::none());
    assert_eq!(e.to_text(), "Expression exceeds maximum complexity");
}

#[test]
fn lex_error_texts() {
    assert_eq!(LexError::StringTooLong(100).to_text(), "Length of string literal exceeds the maximum limit (100)");
    assert_eq!(LexError::UnterminatedString.to_text(), "Open string is not terminated");
    assert_eq!(LexError::ImproperSymbol(String::from("="), String::new()).to_text(), "Invalid symbol encountered: '='");
    assert_eq!(
        LexError::ImproperSymbol(String::from("="), String::from("Possibly a typo of '=='?")).to_text(),
        "Possibly a typo of '=='?"
    );
    assert_eq!(LexError::MalformedNumber(String::from("1x")).to_text(), "Invalid number: '1x'");
}

#[test]
fn lex_errors_become_parse_errors() {
    assert_eq!(
        ParseErrorType::from_lex_error(LexError::StringTooLong(5)),
        ParseErrorType::LiteralTooLarge(String::from("Length of string literal"), 5)
    );
    assert_eq!(
        ParseErrorType::from_lex_error(LexError::UnterminatedString),
        ParseErrorType::BadInput(LexError::UnterminatedString)
    );
    let e = LexError::MalformedChar(String::from("ab")).into_err(pos(1, 1));
    assert_eq!(*e.0, ParseErrorType::BadInput(LexError::MalformedChar(String::from("ab"))));
}

#[test]
fn error_kinds() {
    let e = EvalAltResult::ErrorRuntime(Dynamic::unit(), Position::none());
    assert!(e.is_catchable() && !e.is_pseudo_error() && !e.is_system_exception());
    let e = EvalAltResult::LoopBreak(true, Position::none());
    assert!(!e.is_catchable() && e.is_pseudo_error() && !e.is_system_exception());
    let e = EvalAltResult::ErrorTooManyOperations(Position::none());
    assert!(!e.is_catchable() && !e.is_pseudo_error() && e.is_system_exception());
}

#[test]
fn error_positions() {
    let mut e = EvalAltResult::ErrorFor(pos(1, 1));
    assert_eq!(e.position(), pos(1, 1));
    assert_eq!(e.set_position(pos(2, 3)).position(), pos(2, 3));
    assert_eq!(e.position(), pos(2, 3));
    assert_eq!(e.take_position(), pos(2, 3));
    assert!(e.position().is_none());
    let e = Box::new(e).fill_position(pos(5, 5));
    assert_eq!(e.position(), pos(5, 5));
    let e = e.fill_position(pos(6, 6));
    assert_eq!(e.position(), pos(5, 5));
    let mut s = EvalAltResult::ErrorSystem(String::new(), String::from("x"));
    s.set_position(pos(1, 1));
    assert!(s.position().is_none());
    let mut c = EvalAltResult::ErrorStackOverflow(pos(7, 7));
    c.clear_position();
    assert!(c.position().is_none());
}

#[test]
fn error_fields_dumped() {
    let mut m = ObjectMap::new();
    let e = EvalAltResult::ErrorInFunctionCall(
        String::from("f"),
        String::from("lib"),
        Box::new(EvalAltResult::ErrorFor(Position::none())),
        Position::none(),
    );
    e.dump_fields(&mut m);
    assert_eq!(m.get("error").unwrap().to_text(), "ErrorInFunctionCall");
    assert_eq!(m.get("function").unwrap().to_text(), "f");
    assert_eq!(m.get("source").unwrap().to_text(), "lib");
    assert_eq!(m.len(), 3);

    let mut m = ObjectMap::new();
    EvalAltResult::ErrorArrayBounds(4, -7, Position::none()).dump_fields(&mut m);
    assert_eq!(m.get("error").unwrap().to_text(), "ErrorArrayBounds");
    assert_eq!(m.get("length").unwrap().as_int(), Ok(4));
    assert_eq!(m.get("index").unwrap().as_int(), Ok(-7));

    let mut m = ObjectMap::new();
    EvalAltResult::ErrorTerminated(Dynamic::from_int(9), Position::none()).dump_fields(&mut m);
    assert_eq!(m.get("token").unwrap().as_int(), Ok(9));

    let mut m = ObjectMap::new();
    EvalAltResult::LoopBreak(true, Position::none()).dump_fields(&mut m);
    assert_eq!(m.get("error").unwrap().to_text(), "LoopBreak");
    assert_eq!(m.len(), 1);
}

#[test]
fn positions_shown() {
    assert_eq!(Position::none().to_text(), "none");
    assert_eq!(pos(12, 34).to_text(), "line 12, position 34");
    assert_eq!(Position::start().line(), Some(1));
    assert_eq!(Position::none().line(), None);
}

#[test]
fn errors_from_text_and_syntax_errors() {
    let e = EvalAltResult::from_text("boom");
    match *e {
        EvalAltResult::ErrorRuntime(ref d, p) => {
            assert_eq!(d.to_text(), "boom");
            assert!(p.is_none());
        }
        _ => panic!("expected a run-time error"),
    }
    let t = ParseErrorType::UnknownOperator(String::from("=>"));
    match t.into_eval_error() {
        EvalAltResult::ErrorParsing(ParseErrorType::UnknownOperator(ref s), p) => {
            assert_eq!(s, "=>");
            assert!(p.is_none());
        }
        _ => panic!("expected a syntax error"),
    }
    let pe = ParseErrorType::UnknownOperator(String::from("@")).into_err(Position::new(2, 3));
    match pe.into_eval_error() {
        EvalAltResult::ErrorParsing(ParseErrorType::UnknownOperator(ref s), p) => {
            assert_eq!(s, "@");
            assert_eq!(p, Position::new(2, 3));
        }
        _ => panic!("expected a syntax error"),
    }
}
