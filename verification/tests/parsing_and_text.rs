use rhai::ast::{Expr, VariableRef};
use rhai::custom_syntax::{Expression, SyntaxSettings, TokenClass};
use rhai::dynamic::{AccessMode, Dynamic};
use rhai::engine::{is_anonymous_fn, make_getter, make_setter, match_chaining_type, ChainType};
use rhai::error_parsing::{LexError, ParseErrorType};
use rhai::fn_hash::{
    calc_fn_hash, calc_fn_params_hash, calc_qualified_fn_hash, calc_qualified_var_hash, combine_hashes,
    fn_params_hash_items, hash_items, qualified_fn_hash_items, qualified_var_hash_items, HashItem, StraightHasher,
    StraightHasherBuilder,
};
use rhai::fn_ptr::{debug_fn_ptr, FnPtr};
use rhai::immutable_string::ImmutableString;
use rhai::parse::{
    eat_token, ensure_not_assignment, ensure_not_statement_expr, match_token, parse_symbol, parse_var_name,
    IdentifierBuilder, ParseSettings, ParseState, Symbol, Token, TokenStream,
};
use rhai::position::Position;
use rhai::text::{contains_char, contains_str, remove_all_str, remove_char};
use rhai::token::is_valid_identifier;

fn p(n: u16) -> Position {
    Position::new(1, n)
}

fn variable(name: &str) -> Expr {
    Expr::Variable(None, p(3), Box::new(VariableRef { index: None, namespace: None, name: String::from(name) }))
}

#[test]
fn token_stream_reads_in_order() {
    let mut input = TokenStream::new(
        vec![(Token::Identifier(String::from("x")), p(1)), (Token::Symbol(Symbol::Plus), p(3))],
        p(9),
    );
    assert_eq!(*input.peek().0, Token::Identifier(String::from("x")));
    assert_eq!(input.next(), (Token::Identifier(String::from("x")), p(1)));
    assert_eq!(match_token(&mut input, Symbol::Minus), (false, p(3)));
    assert_eq!(match_token(&mut input, Symbol::Plus), (true, p(3)));
    assert_eq!(input.next(), (Token::EOF, p(9)));
    assert_eq!(input.next(), (Token::EOF, p(9)));
}

#[test]
fn eating_tokens() {
    let mut input = TokenStream::new(vec![(Token::Symbol(Symbol::LeftParen), p(4))], p(5));
    assert_eq!(eat_token(&mut input, Symbol::LeftParen), p(4));
    assert_eq!(input.peek().1, p(5));
}

#[test]
fn variable_names_parsed() {
    let mut input = TokenStream::new(vec![(Token::Identifier(String::from("abc")), p(1))], p(2));
    assert_eq!(parse_var_name(&mut input).unwrap(), (String::from("abc"), p(1)));
    let mut input = TokenStream::new(vec![(Token::Reserved(String::from("fn")), p(1))], p(2));
    assert_eq!(*parse_var_name(&mut input).unwrap_err().0, ParseErrorType::Reserved(String::from("fn")));
    let mut input = TokenStream::new(vec![(Token::IntegerConstant(1), p(1))], p(2));
    assert_eq!(*parse_var_name(&mut input).unwrap_err().0, ParseErrorType::VariableExpected);
    let mut input = TokenStream::new(vec![(Token::LexError(LexError::StringTooLong(3)), p(1))], p(2));
    assert_eq!(
        *parse_var_name(&mut input).unwrap_err().0,
        ParseErrorType::LiteralTooLarge(String::from("Length of string literal"), 3)
    );
}

#[test]
fn symbols_parsed() {
    let mut input = TokenStream::new(vec![(Token::Symbol(Symbol::PowerOf), p(1))], p(2));
    assert_eq!(parse_symbol(&mut input).unwrap(), (String::from("**"), p(1)));
    let mut input = TokenStream::new(vec![(Token::Reserved(String::from(":=")), p(1))], p(2));
    assert_eq!(parse_symbol(&mut input).unwrap(), (String::from(":="), p(1)));
    let mut input = TokenStream::new(vec![(Token::Identifier(String::from("x")), p(1))], p(2));
    assert_eq!(*parse_symbol(&mut input).unwrap_err().0, ParseErrorType::MissingSymbol(String::new()));
}

#[test]
fn statement_and_assignment_guards() {
    let mut input = TokenStream::new(vec![(Token::Symbol(Symbol::LeftBrace), p(1))], p(2));
    assert_eq!(
        *ensure_not_statement_expr(&mut input, "a boolean").unwrap_err().0,
        ParseErrorType::ExprExpected(String::from("a boolean"))
    );
    let mut input = TokenStream::new(vec![(Token::Symbol(Symbol::Equals), p(1))], p(2));
    let e = ensure_not_assignment(&mut input).unwrap_err();
    assert_eq!(e.to_text(), "Possibly a typo of '=='? (line 1, position 1)");
    let mut input = TokenStream::new(vec![(Token::Symbol(Symbol::EqualsTo), p(1))], p(2));
    assert!(ensure_not_assignment(&mut input).is_ok());
}

#[test]
fn settings_levels() {
    let s = ParseSettings {
        pos: p(1),
        is_global: true,
        is_function_scope: false,
        is_breakable: false,
        allow_anonymous_fn: true,
        allow_if_expr: true,
        allow_switch_expr: true,
        allow_stmt_expr: true,
        level: 2,
    };
    assert_eq!(s.level_up().level, 3);
    assert!(s.ensure_level_within_max_limit(Some(2)).is_ok());
    assert!(s.ensure_level_within_max_limit(None).is_ok());
    assert_eq!(*s.ensure_level_within_max_limit(Some(1)).unwrap_err().0, ParseErrorType::ExprTooDeep);
}

#[test]
fn parse_state_variable_access() {
    let mut st = ParseState::new(Some(64), Some(32));
    st.stack.push((String::from("a"), AccessMode::ReadWrite));
    st.stack.push((String::from("b"), AccessMode::ReadWrite));
    assert_eq!(st.access_var("b", p(1)), Some(1));
    assert_eq!(st.access_var("a", p(1)), Some(2));
    assert_eq!(st.access_var("z", p(7)), None);
    assert_eq!(st.external_vars.len(), 1);
    assert_eq!(st.external_vars[0].0, "z");
    st.stack.push((String::from("$BARRIER$"), AccessMode::ReadWrite));
    assert_eq!(st.access_var("a", p(1)), None);
    st.modules.push(String::from("m"));
    st.modules.push(String::from("n"));
    assert_eq!(st.find_module("m"), Some(2));
    assert_eq!(st.find_module("q"), None);
    assert_eq!(st.get_identifier("id"), "id");
    let mut b = IdentifierBuilder;
    assert_eq!(b.get("xyz"), "xyz");
}

#[test]
fn expressions_checked() {
    let e = Expr::IntegerConstant(1, p(5));
    let err = e.ensure_bool_expr().unwrap_err();
    assert_eq!(*err.0, ParseErrorType::MismatchedType(String::from("a boolean expression"), String::from("a number")));
    assert!(Expr::BoolConstant(true, p(1)).ensure_bool_expr().is_ok());
    let err = Expr::BoolConstant(true, p(1)).ensure_iterable().unwrap_err();
    assert_eq!(*err.0, ParseErrorType::MismatchedType(String::from("an iterable value"), String::from("a boolean")));
    assert_eq!(variable("v").get_variable_name(true), Some("v"));
    assert_eq!(Expr::Unit(p(1)).get_variable_name(false), None);
    assert_eq!(variable("v").position(), p(3));
}

#[test]
fn variables_become_properties() {
    let mut st = ParseState::new(None, None);
    match variable("size").into_property(&mut st) {
        Expr::Property(x) => {
            assert_eq!(x.0 .0, "get$size");
            assert_eq!(x.1 .0, "set$size");
            assert_eq!(x.2 .0.as_str(), "size");
            assert_eq!(x.2 .1, p(3));
            assert_eq!(x.0 .1, calc_fn_hash("get$size", 1));
            assert_eq!(x.1 .1, calc_fn_hash("set$size", 2));
        }
        _ => panic!("expected a property"),
    }
    assert!(matches!(Expr::Unit(p(1)).into_property(&mut st), Expr::Unit(_)));
}

#[test]
fn chaining_types() {
    let lhs = Box::new((variable("a"), variable("b")));
    assert_eq!(match_chaining_type(&Expr::Index(lhs, p(1))), ChainType::Indexing);
    let lhs = Box::new((variable("a"), variable("b")));
    assert_eq!(match_chaining_type(&Expr::Dot(lhs, p(1))), ChainType::Dotting);
}

#[test]
fn custom_syntax_expressions() {
    let e = Expr::IntegerConstant(42, p(8));
    let x = Expression::from_expr(&e);
    assert_eq!(x.get_literal_value().unwrap().as_int(), Ok(42));
    assert_eq!(x.position(), p(8));
    assert!(x.get_variable_name().is_none());
    let v = variable("q");
    assert_eq!(Expression::from_expr(&v).get_variable_name(), Some("q"));
    assert!(Expression::from_expr(&v).get_literal_value().is_none());
}

#[test]
fn identifiers() {
    assert!(is_valid_identifier("abc_1"));
    assert!(is_valid_identifier("_x"));
    assert!(!is_valid_identifier("1abc"));
    assert!(!is_valid_identifier("_"));
    assert!(!is_valid_identifier(""));
    assert_eq!(make_getter("x"), "get$x");
    assert_eq!(make_setter("x"), "set$x");
    assert!(is_anonymous_fn("anon$abc"));
    assert!(!is_anonymous_fn("plain"));
}

#[test]
fn function_pointers() {
    let mut f = FnPtr::new("calc").unwrap();
    assert_eq!(f.fn_name(), "calc");
    assert!(!f.is_curried());
    f.add_curry(Dynamic::from_int(1)).add_curry(Dynamic::from_int(2));
    assert_eq!(f.num_curried(), 2);
    assert_eq!(f.curry()[1].as_int(), Ok(2));
    assert_eq!(f.to_text(), "Fn(calc)");
    assert_eq!(debug_fn_ptr(&mut f).as_str(), "Fn(calc)");
    f.set_curry(vec![]);
    assert!(!f.is_curried());
    match FnPtr::new("1bad") {
        Err(e) => assert_eq!(e.to_text(), "Function not found: 1bad"),
        Ok(_) => panic!("expected an error"),
    }
    assert!(!f.is_anonymous());
}

#[test]
fn text_searching_and_removal() {
    assert!(contains_str("abcdef", "cde"));
    assert!(!contains_str("abc", "abcd"));
    assert!(contains_str("", ""));
    assert!(contains_char("héllo", 'é'));
    assert!(!contains_char("hello", 'z'));
    assert_eq!(remove_all_str("aaaa", "aa"), "");
    assert_eq!(remove_all_str("aaa", "aa"), "a");
    assert_eq!(remove_all_str("aabb", "ab"), "ab");
    assert_eq!(remove_char("a,b,,c", ','), "abc");
}

#[test]
fn immutable_strings() {
    let mut s = ImmutableString::from_str("ab");
    let t = s.clone();
    s.push('c');
    assert_eq!(s.as_str(), "abc");
    assert_eq!(t.as_str(), "ab");
    s.push_str("de");
    assert_eq!(s.as_str(), "abcde");
    assert_eq!(s.concat(&ImmutableString::from_str("!")).as_str(), "abcde!");
    assert_eq!(s.concat_char('?').as_str(), "abcde?");
    assert_eq!(s.sub(&ImmutableString::from_str("cd")).as_str(), "abe");
    assert_eq!(s.subtract_char('a').as_str(), "bcde");
    let mut u = ImmutableString::new();
    u.add_assign(&ImmutableString::from_str("xy"));
    assert_eq!(u.as_str(), "xy");
    u.sub_assign(&ImmutableString::from_str("x"));
    assert_eq!(u.as_str(), "y");
    assert_eq!(u.into_owned(), "y");
}

#[test]
fn straight_hasher_returns_the_key() {
    let mut h = StraightHasherBuilder.build_hasher();
    assert_eq!(h.finish(), 42);
    h.write(&12345u64.to_ne_bytes());
    assert_eq!(h.finish(), 12345);
    assert_eq!(StraightHasher(7).finish(), 7);
}

#[test]
fn hash_keys_are_stable_within_a_run() {
    assert_eq!(calc_fn_hash("f", 2), calc_fn_hash("f", 2));
    assert_eq!(calc_fn_hash("f", 2), calc_qualified_fn_hash(&[], "f", 2));
    assert_eq!(calc_qualified_fn_hash(&["root"], "f", 2), calc_qualified_fn_hash(&["other"], "f", 2));
    assert_eq!(calc_qualified_var_hash(&["a", "b"], "x"), calc_qualified_var_hash(&["z", "b"], "x"));
    assert_eq!(calc_fn_params_hash(&[1, 2]), calc_fn_params_hash(&[1, 2]));
    assert_eq!(combine_hashes(0b1100, 0b1010), 0b0110);
}

fn record_call(name: &str, this: Option<&mut Dynamic>, args: Vec<Dynamic>) -> Result<Dynamic, Box<rhai::error::EvalAltResult>> {
    let mut total: i64 = 0;
    for a in &args {
        total = total * 10 + a.as_int().unwrap();
    }
    if let Some(obj) = this {
        *obj = Dynamic::from_string(ImmutableString::from_str(name));
        total += 1000;
    }
    Ok(Dynamic::from_int(total))
}

#[test]
fn fn_ptr_call_with_curry() {
    let mut f = FnPtr::new("add").unwrap();
    assert_eq!(f.call_dynamic(&record_call, None, vec![Dynamic::from_int(3)]).unwrap().as_int(), Ok(3));
    f.add_curry(Dynamic::from_int(1));
    f.add_curry(Dynamic::from_int(2));
    assert_eq!(
        f.call_dynamic(&record_call, None, vec![Dynamic::from_int(3), Dynamic::from_int(4)]).unwrap().as_int(),
        Ok(1234)
    );
    let mut obj = Dynamic::unit();
    assert_eq!(f.call_dynamic(&record_call, Some(&mut obj), Vec::new()).unwrap().as_int(), Ok(1012));
    assert_eq!(obj.to_text(), "add");
}

fn strings(items: &[&str]) -> Vec<String> {
    items.iter().map(|s| String::from(*s)).collect()
}

fn improper(e: &rhai::error_parsing::ParseError) -> (String, String) {
    match &*e.0 {
        ParseErrorType::BadInput(LexError::ImproperSymbol(s, m)) => (s.clone(), m.clone()),
        _ => panic!("expected an improper symbol"),
    }
}

#[test]
fn custom_syntax_registration() {
    let mut st = SyntaxSettings::new();
    let symbols = strings(&["exec", " | ", "$ident$", "|", "", ":=", "$block$"]);
    let classes = vec![
        None,
        Some(TokenClass::StandardSymbol),
        None,
        Some(TokenClass::StandardSymbol),
        None,
        Some(TokenClass::Reserved),
        None,
    ];
    assert!(st.register_custom_syntax(&symbols, &classes, true).is_ok());
    let c = st.custom_syntax("exec").unwrap();
    let segs: Vec<&str> = c.segments.iter().map(|s| s.as_str()).collect();
    assert_eq!(segs, vec!["exec", "|", "$ident$", "|", ":=", "$block$"]);
    assert!(c.scope_may_be_changed);
    assert_eq!(c.next_symbol(1).unwrap().as_str(), "|");
    assert!(c.next_symbol(6).is_none());
    assert_eq!(st.custom_keyword(":="), Some(None));
    assert_eq!(st.custom_keyword("|"), None);

    let e = st.register_custom_syntax(&strings(&["let", "$expr$"]), &[Some(TokenClass::StandardKeyword), None], false);
    let (s, m) = improper(&e.unwrap_err());
    assert_eq!(s, "let");
    assert_eq!(m, "Improper symbol for custom syntax at position #1: 'let'");
    let e = st.register_custom_syntax(&strings(&["  ", "$expr$"]), &[None, None], false);
    assert_eq!(improper(&e.unwrap_err()).1, "Improper symbol for custom syntax at position #1: '$expr$'");
    let e = st.register_custom_syntax(&strings(&["go", "1x"]), &[None, None], false);
    assert_eq!(improper(&e.unwrap_err()).1, "Improper symbol for custom syntax at position #2: '1x'");

    st.disable_symbol(String::from("let"));
    assert!(st.is_disabled("let"));
    assert!(st.register_custom_syntax(&strings(&["let", "$expr$"]), &[Some(TokenClass::StandardKeyword), None], false).is_ok());
    assert_eq!(st.custom_keyword("let"), Some(None));
    assert!(st.register_custom_syntax(&strings(&[" ", ""]), &[None, None], false).is_ok());
}

#[test]
fn custom_operators() {
    let mut st = SyntaxSettings::new();
    assert_eq!(st.register_custom_operator(String::from("foo"), None, 0).err().unwrap(), "precedence cannot be zero");
    assert!(st.register_custom_operator(String::from("foo"), None, 160).is_ok());
    assert_eq!(st.custom_keyword("foo"), Some(Some(160)));
    assert_eq!(
        st.register_custom_operator(String::from("if"), Some(TokenClass::StandardKeyword), 10).err().unwrap(),
        "'if' is a reserved keyword"
    );
    assert_eq!(
        st.register_custom_operator(String::from("+"), Some(TokenClass::StandardSymbol), 10).err().unwrap(),
        "'+' is a reserved operator"
    );
    assert_eq!(
        st.register_custom_operator(String::from("#"), Some(TokenClass::Other), 10).err().unwrap(),
        "'#' is a reserved symbol"
    );
    st.disable_symbol(String::from("+"));
    assert!(st.register_custom_operator(String::from("+"), Some(TokenClass::StandardSymbol), 10).is_ok());
    assert!(st.register_custom_operator(String::from(":="), Some(TokenClass::Reserved), 5).is_ok());
    assert_eq!(st.custom_keyword(":="), Some(Some(5)));
}

fn item_text(i: &HashItem) -> String {
    match i {
        HashItem::Text(t) => format!("T:{}", t),
        HashItem::Count(n) => format!("C:{}", n),
        HashItem::Key(k) => format!("K:{}", k),
    }
}

#[test]
fn what_the_hashes_are_fed() {
    let v: Vec<String> = qualified_var_hash_items(&["root", "a", "b"], "x").iter().map(item_text).collect();
    assert_eq!(v, vec!["T:a", "T:b", "C:3", "T:x"]);
    let f: Vec<String> = qualified_fn_hash_items(&[], "f", 2).iter().map(item_text).collect();
    assert_eq!(f, vec!["C:0", "T:f", "C:2"]);
    let p: Vec<String> = fn_params_hash_items(&[7, 9]).iter().map(item_text).collect();
    assert_eq!(p, vec!["K:7", "K:9", "C:2"]);
    assert_eq!(calc_qualified_var_hash(&["root", "a"], "x"), hash_items(&qualified_var_hash_items(&["root", "a"], "x")));
    assert_eq!(calc_fn_params_hash(&[7, 9]), hash_items(&fn_params_hash_items(&[7, 9])));
}
