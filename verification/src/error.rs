//! Error definitions for the evaluation process.
use vstd::prelude::*;
use crate::dynamic::{display_text, is_string_value, spec_flatten, Dynamic, Union};
use crate::engine::is_anonymous_fn;
use crate::immutable_string::ImmutableString;
use crate::map::ObjectMap;
use crate::fn_ptr::FN_ANONYMOUS;
use crate::error_parsing::{parse_error_type_text, position_suffix, write_position_suffix, ParseErrorType};
use crate::position::Position;
use crate::text::{decimal_text, has_prefix, write_decimal};
use crate::INT;

verus! {

/// Evaluation result: every error that evaluating a script can raise.
///
/// All wrapped [`Position`] values represent the location in the script where the error occurs.
#[derive(Debug)]
pub enum EvalAltResult {
    /// System error: the error message and the text of the internal error.
    ErrorSystem(String, String),
    /// Syntax error.
    ErrorParsing(ParseErrorType, Position),
    /// Usage of an unknown variable. Wrapped value is the variable name.
    ErrorVariableNotFound(String, Position),
    /// Call to an unknown function. Wrapped value is the function signature.
    ErrorFunctionNotFound(String, Position),
    /// An error has occurred inside a called function: the function name, its source, and the interior error.
    ErrorInFunctionCall(String, String, Box<EvalAltResult>, Position),
    /// Usage of an unknown module. Wrapped value is the module name.
    ErrorModuleNotFound(String, Position),
    /// An error has occurred while loading a module: the module name and the interior error.
    ErrorInModule(String, Box<EvalAltResult>, Position),
    /// Access to `this` that is not bound.
    ErrorUnboundThis(Position),
    /// Data is not of the required type: the type requested and the actual type.
    ErrorMismatchDataType(String, String, Position),
    /// Returned type is not the required output type: the type requested and the actual type.
    ErrorMismatchOutputType(String, String, Position),
    /// Array access out-of-bounds: the number of elements and the index.
    ErrorArrayBounds(usize, INT, Position),
    /// String indexing out-of-bounds: the number of characters and the index.
    ErrorStringBounds(usize, INT, Position),
    /// Bit-field indexing out-of-bounds: the number of bits and the index.
    ErrorBitFieldBounds(usize, INT, Position),
    /// Indexing into a type that has no indexer. Wrapped value is the type name.
    ErrorIndexingType(String, Position),
    /// The `for` statement encounters a type that is not an iterator.
    ErrorFor(Position),
    /// Data race detected when accessing a variable. Wrapped value is the variable name.
    ErrorDataRace(String, Position),
    /// Assignment to a constant variable. Wrapped value is the variable name.
    ErrorAssignmentToConstant(String, Position),
    /// Inappropriate property access. Wrapped value is the property name.
    ErrorDotExpr(String, Position),
    /// Arithmetic error encountered. Wrapped value is the error message.
    ErrorArithmetic(String, Position),
    /// Number of operations over maximum limit.
    ErrorTooManyOperations(Position),
    /// Modules over maximum limit.
    ErrorTooManyModules(Position),
    /// Call stack over maximum limit.
    ErrorStackOverflow(Position),
    /// Data value over maximum size limit. Wrapped value is the type name.
    ErrorDataTooLarge(String, Position),
    /// The script is prematurely terminated. Wrapped value is the termination token.
    ErrorTerminated(Dynamic, Position),
    /// Run-time error encountered. Wrapped value is the error token.
    ErrorRuntime(Dynamic, Position),
    /// Breaking out of loops: `true` for `break`, `false` for `continue`.
    LoopBreak(bool, Position),
    /// Not an error: value returned from a script via the `return` keyword.
    Return(Dynamic, Position),
}

/// The position recorded in an error (none for system errors).
pub open spec fn spec_position(e: EvalAltResult) -> Position {
    match e {
        EvalAltResult::ErrorSystem(_, _) => Position::spec_none(),
        EvalAltResult::ErrorParsing(_, pos) => pos,
        EvalAltResult::ErrorVariableNotFound(_, pos) => pos,
        EvalAltResult::ErrorFunctionNotFound(_, pos) => pos,
        EvalAltResult::ErrorInFunctionCall(_, _, _, pos) => pos,
        EvalAltResult::ErrorModuleNotFound(_, pos) => pos,
        EvalAltResult::ErrorInModule(_, _, pos) => pos,
        EvalAltResult::ErrorUnboundThis(pos) => pos,
        EvalAltResult::ErrorMismatchDataType(_, _, pos) => pos,
        EvalAltResult::ErrorMismatchOutputType(_, _, pos) => pos,
        EvalAltResult::ErrorArrayBounds(_, _, pos) => pos,
        EvalAltResult::ErrorStringBounds(_, _, pos) => pos,
        EvalAltResult::ErrorBitFieldBounds(_, _, pos) => pos,
        EvalAltResult::ErrorIndexingType(_, pos) => pos,
        EvalAltResult::ErrorFor(pos) => pos,
        EvalAltResult::ErrorDataRace(_, pos) => pos,
        EvalAltResult::ErrorAssignmentToConstant(_, pos) => pos,
        EvalAltResult::ErrorDotExpr(_, pos) => pos,
        EvalAltResult::ErrorArithmetic(_, pos) => pos,
        EvalAltResult::ErrorTooManyOperations(pos) => pos,
        EvalAltResult::ErrorTooManyModules(pos) => pos,
        EvalAltResult::ErrorStackOverflow(pos) => pos,
        EvalAltResult::ErrorDataTooLarge(_, pos) => pos,
        EvalAltResult::ErrorTerminated(_, pos) => pos,
        EvalAltResult::ErrorRuntime(_, pos) => pos,
        EvalAltResult::LoopBreak(_, pos) => pos,
        EvalAltResult::Return(_, pos) => pos,
    }
}

/// The same error with its position replaced (system errors carry none and are unchanged).
pub open spec fn spec_with_position(e: EvalAltResult, new_position: Position) -> EvalAltResult {
    match e {
        EvalAltResult::ErrorSystem(x0, x1) => EvalAltResult::ErrorSystem(x0, x1),
        EvalAltResult::ErrorParsing(x0, _) => EvalAltResult::ErrorParsing(x0, new_position),
        EvalAltResult::ErrorVariableNotFound(x0, _) => EvalAltResult::ErrorVariableNotFound(x0, new_position),
        EvalAltResult::ErrorFunctionNotFound(x0, _) => EvalAltResult::ErrorFunctionNotFound(x0, new_position),
        EvalAltResult::ErrorInFunctionCall(x0, x1, x2, _) => EvalAltResult::ErrorInFunctionCall(x0, x1, x2, new_position),
        EvalAltResult::ErrorModuleNotFound(x0, _) => EvalAltResult::ErrorModuleNotFound(x0, new_position),
        EvalAltResult::ErrorInModule(x0, x1, _) => EvalAltResult::ErrorInModule(x0, x1, new_position),
        EvalAltResult::ErrorUnboundThis(_) => EvalAltResult::ErrorUnboundThis(new_position),
        EvalAltResult::ErrorMismatchDataType(x0, x1, _) => EvalAltResult::ErrorMismatchDataType(x0, x1, new_position),
        EvalAltResult::ErrorMismatchOutputType(x0, x1, _) => EvalAltResult::ErrorMismatchOutputType(x0, x1, new_position),
        EvalAltResult::ErrorArrayBounds(x0, x1, _) => EvalAltResult::ErrorArrayBounds(x0, x1, new_position),
        EvalAltResult::ErrorStringBounds(x0, x1, _) => EvalAltResult::ErrorStringBounds(x0, x1, new_position),
        EvalAltResult::ErrorBitFieldBounds(x0, x1, _) => EvalAltResult::ErrorBitFieldBounds(x0, x1, new_position),
        EvalAltResult::ErrorIndexingType(x0, _) => EvalAltResult::ErrorIndexingType(x0, new_position),
        EvalAltResult::ErrorFor(_) => EvalAltResult::ErrorFor(new_position),
        EvalAltResult::ErrorDataRace(x0, _) => EvalAltResult::ErrorDataRace(x0, new_position),
        EvalAltResult::ErrorAssignmentToConstant(x0, _) => EvalAltResult::ErrorAssignmentToConstant(x0, new_position),
        EvalAltResult::ErrorDotExpr(x0, _) => EvalAltResult::ErrorDotExpr(x0, new_position),
        EvalAltResult::ErrorArithmetic(x0, _) => EvalAltResult::ErrorArithmetic(x0, new_position),
        EvalAltResult::ErrorTooManyOperations(_) => EvalAltResult::ErrorTooManyOperations(new_position),
        EvalAltResult::ErrorTooManyModules(_) => EvalAltResult::ErrorTooManyModules(new_position),
        EvalAltResult::ErrorStackOverflow(_) => EvalAltResult::ErrorStackOverflow(new_position),
        EvalAltResult::ErrorDataTooLarge(x0, _) => EvalAltResult::ErrorDataTooLarge(x0, new_position),
        EvalAltResult::ErrorTerminated(x0, _) => EvalAltResult::ErrorTerminated(x0, new_position),
        EvalAltResult::ErrorRuntime(x0, _) => EvalAltResult::ErrorRuntime(x0, new_position),
        EvalAltResult::LoopBreak(x0, _) => EvalAltResult::LoopBreak(x0, new_position),
        EvalAltResult::Return(x0, _) => EvalAltResult::Return(x0, new_position),
    }
}

/// Errors that are not errors: loop breaks and returned values.
pub open spec fn spec_is_pseudo_error(e: EvalAltResult) -> bool {
    e is LoopBreak || e is Return
}

/// Errors that a script can catch.
pub open spec fn spec_is_catchable(e: EvalAltResult) -> bool {
    e is ErrorVariableNotFound || e is ErrorFunctionNotFound || e is ErrorInFunctionCall || e is ErrorModuleNotFound || e is ErrorInModule || e is ErrorUnboundThis || e is ErrorMismatchDataType || e is ErrorMismatchOutputType || e is ErrorArrayBounds || e is ErrorStringBounds || e is ErrorBitFieldBounds || e is ErrorIndexingType || e is ErrorFor || e is ErrorDataRace || e is ErrorAssignmentToConstant || e is ErrorDotExpr || e is ErrorArithmetic || e is ErrorRuntime
}

/// Errors that stop a script for good.
pub open spec fn spec_is_system_exception(e: EvalAltResult) -> bool {
    e is ErrorSystem || e is ErrorParsing || e is ErrorTooManyOperations || e is ErrorTooManyModules || e is ErrorStackOverflow || e is ErrorDataTooLarge || e is ErrorTerminated
}

impl EvalAltResult {
    /// Is this a pseudo error? [`LoopBreak`][EvalAltResult::LoopBreak] and [`Return`][EvalAltResult::Return] are pseudo errors.
    pub fn is_pseudo_error(&self) -> (r: bool)
        ensures
            r == spec_is_pseudo_error(*self),
    {
        match self {
            EvalAltResult::ErrorSystem(_, _) => false,
            EvalAltResult::ErrorParsing(_, _) => false,
            EvalAltResult::ErrorVariableNotFound(_, _) => false,
            EvalAltResult::ErrorFunctionNotFound(_, _) => false,
            EvalAltResult::ErrorInFunctionCall(_, _, _, _) => false,
            EvalAltResult::ErrorModuleNotFound(_, _) => false,
            EvalAltResult::ErrorInModule(_, _, _) => false,
            EvalAltResult::ErrorUnboundThis(_) => false,
            EvalAltResult::ErrorMismatchDataType(_, _, _) => false,
            EvalAltResult::ErrorMismatchOutputType(_, _, _) => false,
            EvalAltResult::ErrorArrayBounds(_, _, _) => false,
            EvalAltResult::ErrorStringBounds(_, _, _) => false,
            EvalAltResult::ErrorBitFieldBounds(_, _, _) => false,
            EvalAltResult::ErrorIndexingType(_, _) => false,
            EvalAltResult::ErrorFor(_) => false,
            EvalAltResult::ErrorDataRace(_, _) => false,
            EvalAltResult::ErrorAssignmentToConstant(_, _) => false,
            EvalAltResult::ErrorDotExpr(_, _) => false,
            EvalAltResult::ErrorArithmetic(_, _) => false,
            EvalAltResult::ErrorTooManyOperations(_) => false,
            EvalAltResult::ErrorTooManyModules(_) => false,
            EvalAltResult::ErrorStackOverflow(_) => false,
            EvalAltResult::ErrorDataTooLarge(_, _) => false,
            EvalAltResult::ErrorTerminated(_, _) => false,
            EvalAltResult::ErrorRuntime(_, _) => false,
            EvalAltResult::LoopBreak(_, _) => true,
            EvalAltResult::Return(_, _) => true,
        }
    }

    /// Can this error be caught?
    pub fn is_catchable(&self) -> (r: bool)
        ensures
            r == spec_is_catchable(*self),
    {
        match self {
            EvalAltResult::ErrorSystem(_, _) => false,
            EvalAltResult::ErrorParsing(_, _) => false,
            EvalAltResult::ErrorVariableNotFound(_, _) => true,
            EvalAltResult::ErrorFunctionNotFound(_, _) => true,
            EvalAltResult::ErrorInFunctionCall(_, _, _, _) => true,
            EvalAltResult::ErrorModuleNotFound(_, _) => true,
            EvalAltResult::ErrorInModule(_, _, _) => true,
            EvalAltResult::ErrorUnboundThis(_) => true,
            EvalAltResult::ErrorMismatchDataType(_, _, _) => true,
            EvalAltResult::ErrorMismatchOutputType(_, _, _) => true,
            EvalAltResult::ErrorArrayBounds(_, _, _) => true,
            EvalAltResult::ErrorStringBounds(_, _, _) => true,
            EvalAltResult::ErrorBitFieldBounds(_, _, _) => true,
            EvalAltResult::ErrorIndexingType(_, _) => true,
            EvalAltResult::ErrorFor(_) => true,
            EvalAltResult::ErrorDataRace(_, _) => true,
            EvalAltResult::ErrorAssignmentToConstant(_, _) => true,
            EvalAltResult::ErrorDotExpr(_, _) => true,
            EvalAltResult::ErrorArithmetic(_, _) => true,
            EvalAltResult::ErrorTooManyOperations(_) => false,
            EvalAltResult::ErrorTooManyModules(_) => false,
            EvalAltResult::ErrorStackOverflow(_) => false,
            EvalAltResult::ErrorDataTooLarge(_, _) => false,
            EvalAltResult::ErrorTerminated(_, _) => false,
            EvalAltResult::ErrorRuntime(_, _) => true,
            EvalAltResult::LoopBreak(_, _) => false,
            EvalAltResult::Return(_, _) => false,
        }
    }

    /// Is this error a system exception?
    pub fn is_system_exception(&self) -> (r: bool)
        ensures
            r == spec_is_system_exception(*self),
    {
        match self {
            EvalAltResult::ErrorSystem(_, _) => true,
            EvalAltResult::ErrorParsing(_, _) => true,
            EvalAltResult::ErrorVariableNotFound(_, _) => false,
            EvalAltResult::ErrorFunctionNotFound(_, _) => false,
            EvalAltResult::ErrorInFunctionCall(_, _, _, _) => false,
            EvalAltResult::ErrorModuleNotFound(_, _) => false,
            EvalAltResult::ErrorInModule(_, _, _) => false,
            EvalAltResult::ErrorUnboundThis(_) => false,
            EvalAltResult::ErrorMismatchDataType(_, _, _) => false,
            EvalAltResult::ErrorMismatchOutputType(_, _, _) => false,
            EvalAltResult::ErrorArrayBounds(_, _, _) => false,
            EvalAltResult::ErrorStringBounds(_, _, _) => false,
            EvalAltResult::ErrorBitFieldBounds(_, _, _) => false,
            EvalAltResult::ErrorIndexingType(_, _) => false,
            EvalAltResult::ErrorFor(_) => false,
            EvalAltResult::ErrorDataRace(_, _) => false,
            EvalAltResult::ErrorAssignmentToConstant(_, _) => false,
            EvalAltResult::ErrorDotExpr(_, _) => false,
            EvalAltResult::ErrorArithmetic(_, _) => false,
            EvalAltResult::ErrorTooManyOperations(_) => true,
            EvalAltResult::ErrorTooManyModules(_) => true,
            EvalAltResult::ErrorStackOverflow(_) => true,
            EvalAltResult::ErrorDataTooLarge(_, _) => true,
            EvalAltResult::ErrorTerminated(_, _) => true,
            EvalAltResult::ErrorRuntime(_, _) => false,
            EvalAltResult::LoopBreak(_, _) => false,
            EvalAltResult::Return(_, _) => false,
        }
    }

    /// Get the [position][Position] of this error.
    pub fn position(&self) -> (r: Position)
        ensures
            r == spec_position(*self),
    {
        match self {
            EvalAltResult::ErrorSystem(_, _) => Position::none(),
            EvalAltResult::ErrorParsing(_, pos) => *pos,
            EvalAltResult::ErrorVariableNotFound(_, pos) => *pos,
            EvalAltResult::ErrorFunctionNotFound(_, pos) => *pos,
            EvalAltResult::ErrorInFunctionCall(_, _, _, pos) => *pos,
            EvalAltResult::ErrorModuleNotFound(_, pos) => *pos,
            EvalAltResult::ErrorInModule(_, _, pos) => *pos,
            EvalAltResult::ErrorUnboundThis(pos) => *pos,
            EvalAltResult::ErrorMismatchDataType(_, _, pos) => *pos,
            EvalAltResult::ErrorMismatchOutputType(_, _, pos) => *pos,
            EvalAltResult::ErrorArrayBounds(_, _, pos) => *pos,
            EvalAltResult::ErrorStringBounds(_, _, pos) => *pos,
            EvalAltResult::ErrorBitFieldBounds(_, _, pos) => *pos,
            EvalAltResult::ErrorIndexingType(_, pos) => *pos,
            EvalAltResult::ErrorFor(pos) => *pos,
            EvalAltResult::ErrorDataRace(_, pos) => *pos,
            EvalAltResult::ErrorAssignmentToConstant(_, pos) => *pos,
            EvalAltResult::ErrorDotExpr(_, pos) => *pos,
            EvalAltResult::ErrorArithmetic(_, pos) => *pos,
            EvalAltResult::ErrorTooManyOperations(pos) => *pos,
            EvalAltResult::ErrorTooManyModules(pos) => *pos,
            EvalAltResult::ErrorStackOverflow(pos) => *pos,
            EvalAltResult::ErrorDataTooLarge(_, pos) => *pos,
            EvalAltResult::ErrorTerminated(_, pos) => *pos,
            EvalAltResult::ErrorRuntime(_, pos) => *pos,
            EvalAltResult::LoopBreak(_, pos) => *pos,
            EvalAltResult::Return(_, pos) => *pos,
        }
    }

    /// Override the [position][Position] of this error (system errors carry none), and hand
    /// back the error for chaining.
    pub fn set_position(&mut self, new_position: Position) -> (r: &mut Self)
        ensures
            *r == spec_with_position(*old(self), new_position),
            *final(self) == *final(r),
    {
        match self {
            EvalAltResult::ErrorSystem(_, _) => {},
            EvalAltResult::ErrorParsing(_, pos) => { *pos = new_position; },
            EvalAltResult::ErrorVariableNotFound(_, pos) => { *pos = new_position; },
            EvalAltResult::ErrorFunctionNotFound(_, pos) => { *pos = new_position; },
            EvalAltResult::ErrorInFunctionCall(_, _, _, pos) => { *pos = new_position; },
            EvalAltResult::ErrorModuleNotFound(_, pos) => { *pos = new_position; },
            EvalAltResult::ErrorInModule(_, _, pos) => { *pos = new_position; },
            EvalAltResult::ErrorUnboundThis(pos) => { *pos = new_position; },
            EvalAltResult::ErrorMismatchDataType(_, _, pos) => { *pos = new_position; },
            EvalAltResult::ErrorMismatchOutputType(_, _, pos) => { *pos = new_position; },
            EvalAltResult::ErrorArrayBounds(_, _, pos) => { *pos = new_position; },
            EvalAltResult::ErrorStringBounds(_, _, pos) => { *pos = new_position; },
            EvalAltResult::ErrorBitFieldBounds(_, _, pos) => { *pos = new_position; },
            EvalAltResult::ErrorIndexingType(_, pos) => { *pos = new_position; },
            EvalAltResult::ErrorFor(pos) => { *pos = new_position; },
            EvalAltResult::ErrorDataRace(_, pos) => { *pos = new_position; },
            EvalAltResult::ErrorAssignmentToConstant(_, pos) => { *pos = new_position; },
            EvalAltResult::ErrorDotExpr(_, pos) => { *pos = new_position; },
            EvalAltResult::ErrorArithmetic(_, pos) => { *pos = new_position; },
            EvalAltResult::ErrorTooManyOperations(pos) => { *pos = new_position; },
            EvalAltResult::ErrorTooManyModules(pos) => { *pos = new_position; },
            EvalAltResult::ErrorStackOverflow(pos) => { *pos = new_position; },
            EvalAltResult::ErrorDataTooLarge(_, pos) => { *pos = new_position; },
            EvalAltResult::ErrorTerminated(_, pos) => { *pos = new_position; },
            EvalAltResult::ErrorRuntime(_, pos) => { *pos = new_position; },
            EvalAltResult::LoopBreak(_, pos) => { *pos = new_position; },
            EvalAltResult::Return(_, pos) => { *pos = new_position; },
        }
        self
    }

    /// Remove the [position][Position] information from this error.
    pub fn clear_position(&mut self)
        ensures
            *final(self) == spec_with_position(*old(self), Position::spec_none()),
    {
        self.set_position(Position::none());
    }

    /// Remove the [position][Position] information from this error and return it.
    pub fn take_position(&mut self) -> (r: Position)
        ensures
            r == spec_position(*old(self)),
            *final(self) == spec_with_position(*old(self), Position::spec_none()),
    {
        let pos = self.position();
        self.set_position(Position::none());
        pos
    }

    /// A run-time error whose value is the string `err`, with no position.
    pub fn from_text(err: &str) -> (r: Box<EvalAltResult>)
        ensures
            *r matches EvalAltResult::ErrorRuntime(d, p) && is_string_value(d, err@) && p == Position::spec_none(),
    {
        Box::new(EvalAltResult::ErrorRuntime(Dynamic::from_string(ImmutableString::from_str(err)), Position::none()))
    }

    /// Give the error a position if it has none yet.
    pub fn fill_position(self: Box<Self>, new_position: Position) -> (r: Box<Self>)
        ensures
            *r == (if spec_position(*self) == Position::spec_none() {
                spec_with_position(*self, new_position)
            } else {
                *self
            }),
    {
        let mut e = self;
        if e.position().is_none() {
            e.set_position(new_position);
        }
        e
    }
}

/// The text of an index out of bounds: `kind index N out of bounds: ...`, where the
/// container is described by `empty`, `one` and `unit` (the plural of what it holds).
pub open spec fn bounds_text(kind: Seq<char>, max: usize, index: INT, empty: Seq<char>, one: Seq<char>, unit: Seq<char>) -> Seq<char> {
    kind + " index "@ + decimal_text(index as int) + " out of bounds: "@ + if max == 0 {
        empty
    } else if max == 1 {
        one
    } else {
        "only "@ + decimal_text(max as int) + unit
    }
}

/// The text of a type mismatch: `head` followed by the actual type `r` and the type
/// requested `s`, as far as they are known.
pub open spec fn mismatch_text(head: Seq<char>, s: Seq<char>, r: Seq<char>) -> Seq<char> {
    if r.len() == 0 {
        head + ", expecting "@ + s
    } else if s.len() == 0 {
        head + ": "@ + r
    } else {
        head + ": "@ + r + " (expecting "@ + s + ")"@
    }
}

/// The message of an error without its position.
pub open spec fn error_message(e: EvalAltResult) -> Seq<char>
    decreases e,
{
    match e {
        EvalAltResult::ErrorSystem(s, err) => if s@.len() == 0 {
            err@
        } else {
            s@ + ": "@ + err@
        },
        EvalAltResult::ErrorParsing(p, _) => "Syntax error: "@ + parse_error_type_text(p),
        EvalAltResult::ErrorInFunctionCall(s, src, err, _) => error_message(*err) + position_suffix(
            spec_position(*err),
        ) + (if has_prefix(s@, FN_ANONYMOUS@) {
            " in call to closure"@
        } else {
            " in call to function "@ + s@
        }) + (if src@.len() == 0 {
            Seq::<char>::empty()
        } else {
            " @ '"@ + src@ + "'"@
        }),
        EvalAltResult::ErrorInModule(s, err, _) => if s@.len() == 0 {
            "Error in module: "@ + error_message(*err) + position_suffix(spec_position(*err))
        } else {
            "Error in module '"@ + s@ + "': "@ + error_message(*err) + position_suffix(spec_position(*err))
        },
        EvalAltResult::ErrorFunctionNotFound(s, _) => "Function not found: "@ + s@,
        EvalAltResult::ErrorVariableNotFound(s, _) => "Variable not found: "@ + s@,
        EvalAltResult::ErrorModuleNotFound(s, _) => "Module not found: '"@ + s@ + "'"@,
        EvalAltResult::ErrorDataRace(s, _) => "Data race detected when accessing variable: "@ + s@,
        EvalAltResult::ErrorDotExpr(s, _) => if s@.len() == 0 {
            "Malformed dot expression"@
        } else {
            s@
        },
        EvalAltResult::ErrorIndexingType(s, _) => "Indexer not registered for '"@ + s@ + "'"@,
        EvalAltResult::ErrorUnboundThis(_) => "'this' is not bound"@,
        EvalAltResult::ErrorFor(_) => "For loop expects a type with an iterator defined"@,
        EvalAltResult::ErrorTooManyOperations(_) => "Too many operations"@,
        EvalAltResult::ErrorTooManyModules(_) => "Too many modules imported"@,
        EvalAltResult::ErrorStackOverflow(_) => "Stack overflow"@,
        EvalAltResult::ErrorTerminated(_, _) => "Script terminated"@,
        EvalAltResult::ErrorRuntime(d, _) => if spec_flatten(d).value is Unit || (spec_flatten(d).value matches Union::Str(
            t,
        ) && t@.len() == 0) {
            "Runtime error"@
        } else {
            "Runtime error: "@ + display_text(d)
        },
        EvalAltResult::ErrorAssignmentToConstant(s, _) => "Cannot modify constant "@ + s@,
        EvalAltResult::ErrorMismatchOutputType(s, r, _) => mismatch_text("Output type is incorrect"@, s@, r@),
        EvalAltResult::ErrorMismatchDataType(s, r, _) => mismatch_text("Data type is incorrect"@, s@, r@),
        EvalAltResult::ErrorArithmetic(s, _) => if s@.len() == 0 {
            "Arithmetic error"@
        } else {
            s@
        },
        EvalAltResult::LoopBreak(b, _) => if b {
            "'break' not inside a loop"@
        } else {
            "'continue' not inside a loop"@
        },
        EvalAltResult::Return(_, _) => "NOT AN ERROR - function returns value"@,
        EvalAltResult::ErrorArrayBounds(max, index, _) => bounds_text(
            "Array"@,
            max,
            index,
            "array is empty"@,
            "only 1 element in the array"@,
            " elements in the array"@,
        ),
        EvalAltResult::ErrorStringBounds(max, index, _) => bounds_text(
            "String"@,
            max,
            index,
            "string is empty"@,
            "only 1 character in the string"@,
            " characters in the string"@,
        ),
        EvalAltResult::ErrorBitFieldBounds(max, index, _) => "Bit-field"@ + " index "@ + decimal_text(index as int)
            + " out of bounds: "@ + "only "@ + decimal_text(max as int) + " bits in the bit-field"@,
        EvalAltResult::ErrorDataTooLarge(typ, _) => typ@ + " exceeds maximum limit"@,
    }
}

/// How an error is shown: its message, followed by its position where it has one.
pub open spec fn error_text(e: EvalAltResult) -> Seq<char> {
    error_message(e) + position_suffix(spec_position(e))
}

fn append3(out: &mut String, a: &str, b: &str, c: &str)
    ensures
        final(out)@ == old(out)@ + a@ + b@ + c@,
{
    out.append(a);
    out.append(b);
    out.append(c);
}

fn write_bounds(out: &mut String, kind: &str, max: usize, index: INT, empty: &str, one: &str, unit: &str)
    ensures
        final(out)@ == old(out)@ + bounds_text(kind@, max, index, empty@, one@, unit@),
{
    out.append(kind);
    out.append(" index ");
    write_decimal(out, index as i128);
    out.append(" out of bounds: ");
    if max == 0 {
        out.append(empty);
    } else if max == 1 {
        out.append(one);
    } else {
        out.append("only ");
        write_decimal(out, max as i128);
        out.append(unit);
    }
}

fn write_mismatch(out: &mut String, head: &str, s: &str, r: &str)
    ensures
        final(out)@ == old(out)@ + mismatch_text(head@, s@, r@),
{
    out.append(head);
    if r.is_empty() {
        out.append(", expecting ");
        out.append(s);
    } else if s.is_empty() {
        out.append(": ");
        out.append(r);
    } else {
        out.append(": ");
        out.append(r);
        out.append(" (expecting ");
        out.append(s);
        out.append(")");
    }
}

impl EvalAltResult {
    /// Append the message of the error, without its position, to `out`.
    pub fn write_message(&self, out: &mut String)
        ensures
            final(out)@ == old(out)@ + error_message(*self),
        decreases self,
    {
        match self {
            EvalAltResult::ErrorSystem(s, err) => {
                if s.as_str().is_empty() {
                    out.append(err.as_str());
                } else {
                    append3(out, s.as_str(), ": ", err.as_str());
                }
            },
            EvalAltResult::ErrorParsing(p, _) => {
                out.append("Syntax error: ");
                out.append(p.to_text().as_str());
            },
            EvalAltResult::ErrorInFunctionCall(s, src, err, _) => {
                err.write_message(out);
                write_position_suffix(out, err.position());
                if is_anonymous_fn(s.as_str()) {
                    out.append(" in call to closure");
                } else {
                    out.append(" in call to function ");
                    out.append(s.as_str());
                }
                if !src.as_str().is_empty() {
                    append3(out, " @ '", src.as_str(), "'");
                } else {
                    assert(out@ + Seq::<char>::empty() == out@);
                }
            },
            EvalAltResult::ErrorInModule(s, err, _) => {
                if s.as_str().is_empty() {
                    out.append("Error in module: ");
                } else {
                    append3(out, "Error in module '", s.as_str(), "': ");
                }
                err.write_message(out);
                write_position_suffix(out, err.position());
            },
            EvalAltResult::ErrorFunctionNotFound(s, _) => {
                out.append("Function not found: ");
                out.append(s.as_str());
            },
            EvalAltResult::ErrorVariableNotFound(s, _) => {
                out.append("Variable not found: ");
                out.append(s.as_str());
            },
            EvalAltResult::ErrorModuleNotFound(s, _) => append3(out, "Module not found: '", s.as_str(), "'"),
            EvalAltResult::ErrorDataRace(s, _) => {
                out.append("Data race detected when accessing variable: ");
                out.append(s.as_str());
            },
            EvalAltResult::ErrorDotExpr(s, _) => {
                if s.as_str().is_empty() {
                    out.append("Malformed dot expression");
                } else {
                    out.append(s.as_str());
                }
            },
            EvalAltResult::ErrorIndexingType(s, _) => append3(out, "Indexer not registered for '", s.as_str(), "'"),
            EvalAltResult::ErrorUnboundThis(_) => out.append("'this' is not bound"),
            EvalAltResult::ErrorFor(_) => out.append("For loop expects a type with an iterator defined"),
            EvalAltResult::ErrorTooManyOperations(_) => out.append("Too many operations"),
            EvalAltResult::ErrorTooManyModules(_) => out.append("Too many modules imported"),
            EvalAltResult::ErrorStackOverflow(_) => out.append("Stack overflow"),
            EvalAltResult::ErrorTerminated(_, _) => out.append("Script terminated"),
            EvalAltResult::ErrorRuntime(d, _) => {
                let plain = match crate::fn_builtin::flat_value(d) {
                    Union::Unit => true,
                    Union::Str(t) => t.is_empty(),
                    _ => false,
                };
                if plain {
                    out.append("Runtime error");
                } else {
                    out.append("Runtime error: ");
                    out.append(d.to_text().as_str());
                }
            },
            EvalAltResult::ErrorAssignmentToConstant(s, _) => {
                out.append("Cannot modify constant ");
                out.append(s.as_str());
            },
            EvalAltResult::ErrorMismatchOutputType(s, r, _) => write_mismatch(
                out,
                "Output type is incorrect",
                s.as_str(),
                r.as_str(),
            ),
            EvalAltResult::ErrorMismatchDataType(s, r, _) => write_mismatch(
                out,
                "Data type is incorrect",
                s.as_str(),
                r.as_str(),
            ),
            EvalAltResult::ErrorArithmetic(s, _) => {
                if s.as_str().is_empty() {
                    out.append("Arithmetic error");
                } else {
                    out.append(s.as_str());
                }
            },
            EvalAltResult::LoopBreak(b, _) => {
                if *b {
                    out.append("'break' not inside a loop");
                } else {
                    out.append("'continue' not inside a loop");
                }
            },
            EvalAltResult::Return(_, _) => out.append("NOT AN ERROR - function returns value"),
            EvalAltResult::ErrorArrayBounds(max, index, _) => write_bounds(
                out,
                "Array",
                *max,
                *index,
                "array is empty",
                "only 1 element in the array",
                " elements in the array",
            ),
            EvalAltResult::ErrorStringBounds(max, index, _) => write_bounds(
                out,
                "String",
                *max,
                *index,
                "string is empty",
                "only 1 character in the string",
                " characters in the string",
            ),
            EvalAltResult::ErrorBitFieldBounds(max, index, _) => {
                out.append("Bit-field");
                out.append(" index ");
                write_decimal(out, *index as i128);
                out.append(" out of bounds: ");
                out.append("only ");
                write_decimal(out, *max as i128);
                out.append(" bits in the bit-field");
            },
            EvalAltResult::ErrorDataTooLarge(typ, _) => {
                out.append(typ.as_str());
                out.append(" exceeds maximum limit");
            },
        }
    }

    /// The text of the error: its message, followed by its position where it has one.
    pub fn to_text(&self) -> (r: String)
        ensures
            r@ == error_text(*self),
    {
        let mut r = String::new();
        self.write_message(&mut r);
        write_position_suffix(&mut r, self.position());
        r
    }
}

/// Every error is of exactly one kind: a pseudo error, a catchable error, or a system
/// exception.
pub proof fn law_error_kinds_partition(e: EvalAltResult)
    ensures
        spec_is_pseudo_error(e) || spec_is_catchable(e) || spec_is_system_exception(e),
        !(spec_is_pseudo_error(e) && spec_is_catchable(e)),
        !(spec_is_pseudo_error(e) && spec_is_system_exception(e)),
        !(spec_is_catchable(e) && spec_is_system_exception(e)),
{
}

/// Setting the position of an error is read back by `position` (system errors carry
/// none), and changes neither the kind of the error nor its message.
pub proof fn law_set_position_reads_back(e: EvalAltResult, p: Position)
    ensures
        !(e is ErrorSystem) ==> spec_position(spec_with_position(e, p)) == p,
        e is ErrorSystem ==> spec_with_position(e, p) == e,
        spec_is_pseudo_error(spec_with_position(e, p)) == spec_is_pseudo_error(e),
        spec_is_catchable(spec_with_position(e, p)) == spec_is_catchable(e),
        spec_is_system_exception(spec_with_position(e, p)) == spec_is_system_exception(e),
        error_message(spec_with_position(e, p)) == error_message(e),
{
}

/// Setting a position twice is the same as setting the second one; setting back the
/// position an error had gives back the error.
pub proof fn law_set_position_overwrites(e: EvalAltResult, p: Position, q: Position)
    ensures
        spec_with_position(spec_with_position(e, p), q) == spec_with_position(e, q),
        spec_with_position(e, spec_position(e)) == e,
{
}

/// The name of the kind of an error, as recorded under `error` by `dump_fields`.
pub open spec fn error_name(e: EvalAltResult) -> Seq<char> {
    match e {
        EvalAltResult::ErrorSystem(_, _) => "ErrorSystem"@,
        EvalAltResult::ErrorParsing(_, _) => "ErrorParsing"@,
        EvalAltResult::ErrorVariableNotFound(_, _) => "ErrorVariableNotFound"@,
        EvalAltResult::ErrorFunctionNotFound(_, _) => "ErrorFunctionNotFound"@,
        EvalAltResult::ErrorInFunctionCall(_, _, _, _) => "ErrorInFunctionCall"@,
        EvalAltResult::ErrorModuleNotFound(_, _) => "ErrorModuleNotFound"@,
        EvalAltResult::ErrorInModule(_, _, _) => "ErrorInModule"@,
        EvalAltResult::ErrorUnboundThis(_) => "ErrorUnboundThis"@,
        EvalAltResult::ErrorMismatchDataType(_, _, _) => "ErrorMismatchDataType"@,
        EvalAltResult::ErrorMismatchOutputType(_, _, _) => "ErrorMismatchOutputType"@,
        EvalAltResult::ErrorArrayBounds(_, _, _) => "ErrorArrayBounds"@,
        EvalAltResult::ErrorStringBounds(_, _, _) => "ErrorStringBounds"@,
        EvalAltResult::ErrorBitFieldBounds(_, _, _) => "ErrorBitFieldBounds"@,
        EvalAltResult::ErrorIndexingType(_, _) => "ErrorIndexingType"@,
        EvalAltResult::ErrorFor(_) => "ErrorFor"@,
        EvalAltResult::ErrorDataRace(_, _) => "ErrorDataRace"@,
        EvalAltResult::ErrorAssignmentToConstant(_, _) => "ErrorAssignmentToConstant"@,
        EvalAltResult::ErrorDotExpr(_, _) => "ErrorDotExpr"@,
        EvalAltResult::ErrorArithmetic(_, _) => "ErrorArithmetic"@,
        EvalAltResult::ErrorTooManyOperations(_) => "ErrorTooManyOperations"@,
        EvalAltResult::ErrorTooManyModules(_) => "ErrorTooManyModules"@,
        EvalAltResult::ErrorStackOverflow(_) => "ErrorStackOverflow"@,
        EvalAltResult::ErrorDataTooLarge(_, _) => "ErrorDataTooLarge"@,
        EvalAltResult::ErrorTerminated(_, _) => "ErrorTerminated"@,
        EvalAltResult::ErrorRuntime(_, _) => "ErrorRuntime"@,
        EvalAltResult::LoopBreak(_, _) => "LoopBreak"@,
        EvalAltResult::Return(_, _) => "Return"@,
    }
}

/// Does `m` hold a string value with text `t` under `k`?
pub open spec fn holds_text(m: Map<Seq<char>, Dynamic>, k: Seq<char>, t: Seq<char>) -> bool {
    m.contains_key(k) && is_string_value(m[k], t)
}

/// Does `m` hold the integer `n` under `k`?
pub open spec fn holds_number(m: Map<Seq<char>, Dynamic>, k: Seq<char>, n: INT) -> bool {
    m.contains_key(k) && m[k] == Dynamic::spec_of(Union::Int(n))
}

/// The property names under which `dump_fields` records the fields of an error.
pub open spec fn field_names(e: EvalAltResult) -> Set<Seq<char>> {
    match e {
        EvalAltResult::ErrorFunctionNotFound(_, _) => set!["error"@, "function"@],
        EvalAltResult::ErrorInFunctionCall(_, _, _, _) => set!["error"@, "function"@, "source"@],
        EvalAltResult::ErrorInModule(_, _, _) => set!["error"@, "module"@],
        EvalAltResult::ErrorMismatchDataType(_, _, _) => set!["error"@, "requested"@, "actual"@],
        EvalAltResult::ErrorMismatchOutputType(_, _, _) => set!["error"@, "requested"@, "actual"@],
        EvalAltResult::ErrorArrayBounds(_, _, _) => set!["error"@, "length"@, "index"@],
        EvalAltResult::ErrorStringBounds(_, _, _) => set!["error"@, "length"@, "index"@],
        EvalAltResult::ErrorBitFieldBounds(_, _, _) => set!["error"@, "length"@, "index"@],
        EvalAltResult::ErrorIndexingType(_, _) => set!["error"@, "type"@],
        EvalAltResult::ErrorVariableNotFound(_, _) => set!["error"@, "variable"@],
        EvalAltResult::ErrorDataRace(_, _) => set!["error"@, "variable"@],
        EvalAltResult::ErrorAssignmentToConstant(_, _) => set!["error"@, "variable"@],
        EvalAltResult::ErrorModuleNotFound(_, _) => set!["error"@, "module"@],
        EvalAltResult::ErrorDotExpr(_, _) => set!["error"@, "property"@],
        EvalAltResult::ErrorDataTooLarge(_, _) => set!["error"@, "type"@],
        EvalAltResult::ErrorTerminated(_, _) => set!["error"@, "token"@],
        _ => set!["error"@],
    }
}

/// The fields of `e` as `dump_fields` records them: the kind under `error`, then the
/// error's own fields by name; other properties keep their values.
pub open spec fn fields_dumped(e: EvalAltResult, old: Map<Seq<char>, Dynamic>, new: Map<Seq<char>, Dynamic>) -> bool {
    &&& new.dom() == old.dom().union(field_names(e))
    &&& forall|k: Seq<char>| old.contains_key(k) && !field_names(e).contains(k) ==> new[k] == old[k]
    &&& holds_text(new, "error"@, error_name(e))
    &&& match e {
        EvalAltResult::ErrorFunctionNotFound(f, _) => holds_text(new, "function"@, f@),
        EvalAltResult::ErrorInFunctionCall(f, s, _, _) => holds_text(new, "function"@, f@) && holds_text(
            new,
            "source"@,
            s@,
        ),
        EvalAltResult::ErrorInModule(m, _, _) => holds_text(new, "module"@, m@),
        EvalAltResult::ErrorMismatchDataType(r, a, _) => holds_text(new, "requested"@, r@) && holds_text(
            new,
            "actual"@,
            a@,
        ),
        EvalAltResult::ErrorMismatchOutputType(r, a, _) => holds_text(new, "requested"@, r@) && holds_text(
            new,
            "actual"@,
            a@,
        ),
        EvalAltResult::ErrorArrayBounds(n, i, _) => holds_number(new, "length"@, n as INT) && holds_number(
            new,
            "index"@,
            i,
        ),
        EvalAltResult::ErrorStringBounds(n, i, _) => holds_number(new, "length"@, n as INT) && holds_number(
            new,
            "index"@,
            i,
        ),
        EvalAltResult::ErrorBitFieldBounds(n, i, _) => holds_number(new, "length"@, n as INT) && holds_number(
            new,
            "index"@,
            i,
        ),
        EvalAltResult::ErrorIndexingType(t, _) => holds_text(new, "type"@, t@),
        EvalAltResult::ErrorVariableNotFound(v, _) => holds_text(new, "variable"@, v@),
        EvalAltResult::ErrorDataRace(v, _) => holds_text(new, "variable"@, v@),
        EvalAltResult::ErrorAssignmentToConstant(v, _) => holds_text(new, "variable"@, v@),
        EvalAltResult::ErrorModuleNotFound(m, _) => holds_text(new, "module"@, m@),
        EvalAltResult::ErrorDotExpr(p, _) => holds_text(new, "property"@, p@),
        EvalAltResult::ErrorDataTooLarge(t, _) => holds_text(new, "type"@, t@),
        EvalAltResult::ErrorTerminated(t, _) => new.contains_key("token"@) && new["token"@] == t,
        _ => true,
    }
}

fn put(map: &mut ObjectMap, key: &str, value: Dynamic)
    requires
        old(map).wf(),
    ensures
        final(map).wf(),
        final(map)@ == old(map)@.insert(key@, value),
{
    let _ = map.insert(String::from_str(key), value);
}

fn text_value(t: &str) -> (d: Dynamic)
    ensures
        is_string_value(d, t@),
{
    Dynamic::from_string(ImmutableString::from_str(t))
}

impl EvalAltResult {
    /// The name of the kind of the error.
    pub fn error_name(&self) -> (r: &'static str)
        ensures
            r@ == error_name(*self),
    {
        match self {
            EvalAltResult::ErrorSystem(_, _) => "ErrorSystem",
            EvalAltResult::ErrorParsing(_, _) => "ErrorParsing",
            EvalAltResult::ErrorVariableNotFound(_, _) => "ErrorVariableNotFound",
            EvalAltResult::ErrorFunctionNotFound(_, _) => "ErrorFunctionNotFound",
            EvalAltResult::ErrorInFunctionCall(_, _, _, _) => "ErrorInFunctionCall",
            EvalAltResult::ErrorModuleNotFound(_, _) => "ErrorModuleNotFound",
            EvalAltResult::ErrorInModule(_, _, _) => "ErrorInModule",
            EvalAltResult::ErrorUnboundThis(_) => "ErrorUnboundThis",
            EvalAltResult::ErrorMismatchDataType(_, _, _) => "ErrorMismatchDataType",
            EvalAltResult::ErrorMismatchOutputType(_, _, _) => "ErrorMismatchOutputType",
            EvalAltResult::ErrorArrayBounds(_, _, _) => "ErrorArrayBounds",
            EvalAltResult::ErrorStringBounds(_, _, _) => "ErrorStringBounds",
            EvalAltResult::ErrorBitFieldBounds(_, _, _) => "ErrorBitFieldBounds",
            EvalAltResult::ErrorIndexingType(_, _) => "ErrorIndexingType",
            EvalAltResult::ErrorFor(_) => "ErrorFor",
            EvalAltResult::ErrorDataRace(_, _) => "ErrorDataRace",
            EvalAltResult::ErrorAssignmentToConstant(_, _) => "ErrorAssignmentToConstant",
            EvalAltResult::ErrorDotExpr(_, _) => "ErrorDotExpr",
            EvalAltResult::ErrorArithmetic(_, _) => "ErrorArithmetic",
            EvalAltResult::ErrorTooManyOperations(_) => "ErrorTooManyOperations",
            EvalAltResult::ErrorTooManyModules(_) => "ErrorTooManyModules",
            EvalAltResult::ErrorStackOverflow(_) => "ErrorStackOverflow",
            EvalAltResult::ErrorDataTooLarge(_, _) => "ErrorDataTooLarge",
            EvalAltResult::ErrorTerminated(_, _) => "ErrorTerminated",
            EvalAltResult::ErrorRuntime(_, _) => "ErrorRuntime",
            EvalAltResult::LoopBreak(_, _) => "LoopBreak",
            EvalAltResult::Return(_, _) => "Return",
        }
    }

    /// Record the kind and the fields of the error as properties of `map`.
    pub fn dump_fields(&self, map: &mut ObjectMap)
        requires
            old(map).wf(),
        ensures
            final(map).wf(),
            fields_dumped(*self, old(map)@, final(map)@),
    {
        proof {
            reveal_strlit("error");
            reveal_strlit("function");
            reveal_strlit("source");
            reveal_strlit("module");
            reveal_strlit("requested");
            reveal_strlit("actual");
            reveal_strlit("length");
            reveal_strlit("index");
            reveal_strlit("type");
            reveal_strlit("variable");
            reveal_strlit("property");
            reveal_strlit("token");
            assert("function"@ != "error"@) by {
                assert("function"@[0] != "error"@[0]);
            }
            assert("source"@ != "error"@) by {
                assert("source"@[0] != "error"@[0]);
            }
            assert("source"@ != "function"@) by {
                assert("source"@[0] != "function"@[0]);
            }
            assert("module"@ != "error"@) by {
                assert("module"@[0] != "error"@[0]);
            }
            assert("requested"@ != "error"@) by {
                assert("requested"@[0] != "error"@[0]);
            }
            assert("actual"@ != "error"@) by {
                assert("actual"@[0] != "error"@[0]);
            }
            assert("actual"@ != "requested"@) by {
                assert("actual"@[0] != "requested"@[0]);
            }
            assert("length"@ != "error"@) by {
                assert("length"@[0] != "error"@[0]);
            }
            assert("index"@ != "error"@) by {
                assert("index"@[0] != "error"@[0]);
            }
            assert("index"@ != "length"@) by {
                assert("index"@[0] != "length"@[0]);
            }
            assert("type"@ != "error"@) by {
                assert("type"@[0] != "error"@[0]);
            }
            assert("variable"@ != "error"@) by {
                assert("variable"@[0] != "error"@[0]);
            }
            assert("property"@ != "error"@) by {
                assert("property"@[0] != "error"@[0]);
            }
            assert("token"@ != "error"@) by {
                assert("token"@[0] != "error"@[0]);
            }
        }
        put(map, "error", text_value(self.error_name()));
        match self {
            EvalAltResult::ErrorFunctionNotFound(f, _) => put(map, "function", text_value(f.as_str())),
            EvalAltResult::ErrorInFunctionCall(f, s, _, _) => {
                put(map, "function", text_value(f.as_str()));
                put(map, "source", text_value(s.as_str()));
            },
            EvalAltResult::ErrorInModule(m, _, _) => put(map, "module", text_value(m.as_str())),
            EvalAltResult::ErrorMismatchDataType(r, a, _) | EvalAltResult::ErrorMismatchOutputType(r, a, _) => {
                put(map, "requested", text_value(r.as_str()));
                put(map, "actual", text_value(a.as_str()));
            },
            EvalAltResult::ErrorArrayBounds(n, i, _) | EvalAltResult::ErrorStringBounds(n, i, _)
            | EvalAltResult::ErrorBitFieldBounds(n, i, _) => {
                put(map, "length", Dynamic::from_int(#[verifier::truncate] (*n as INT)));
                put(map, "index", Dynamic::from_int(*i));
            },
            EvalAltResult::ErrorIndexingType(t, _) => put(map, "type", text_value(t.as_str())),
            EvalAltResult::ErrorVariableNotFound(v, _) | EvalAltResult::ErrorDataRace(v, _)
            | EvalAltResult::ErrorAssignmentToConstant(v, _) => put(map, "variable", text_value(v.as_str())),
            EvalAltResult::ErrorModuleNotFound(m, _) => put(map, "module", text_value(m.as_str())),
            EvalAltResult::ErrorDotExpr(p, _) => put(map, "property", text_value(p.as_str())),
            EvalAltResult::ErrorDataTooLarge(t, _) => put(map, "type", text_value(t.as_str())),
            EvalAltResult::ErrorTerminated(t, _) => put(map, "token", t.clone()),
            _ => {},
        }
        assert(map@.dom() =~= old(map)@.dom().union(field_names(*self)));
    }
}

} // verus!
