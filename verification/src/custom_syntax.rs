//! Custom syntax: the expression handle passed to custom syntax implementations, and
//! the registration of custom syntax, custom operators and disabled symbols.
use vstd::prelude::*;
use crate::ast::{spec_expr_position, Expr};
use crate::dynamic::{Dynamic, Union};
use crate::entries::{entries_view, find_entry, insert_entry, keys_distinct, lemma_view_at};
use crate::error_parsing::{LexError, ParseError, ParseErrorType};
use crate::immutable_string::ImmutableString;
use crate::position::Position;
use crate::text::{decimal_text, str_eq, trim_text, trimmed, write_decimal};
use crate::token::{is_valid_identifier, valid_identifier};

verus! {

/// Special marker for matching an expression.
pub const CUSTOM_SYNTAX_MARKER_EXPR: &'static str = "$expr$";
/// Special marker for matching a statements block.
pub const CUSTOM_SYNTAX_MARKER_BLOCK: &'static str = "$block$";
/// Special marker for matching an identifier.
pub const CUSTOM_SYNTAX_MARKER_IDENT: &'static str = "$ident$";
/// Special marker for matching a single symbol.
pub const CUSTOM_SYNTAX_MARKER_SYMBOL: &'static str = "$symbol$";
/// Special marker for matching a string literal.
pub const CUSTOM_SYNTAX_MARKER_STRING: &'static str = "$string$";
/// Special marker for matching an integer number.
pub const CUSTOM_SYNTAX_MARKER_INT: &'static str = "$int$";
/// Special marker for matching a boolean value.
pub const CUSTOM_SYNTAX_MARKER_BOOL: &'static str = "$bool$";
/// Special marker for matching a floating-point number.
pub const CUSTOM_SYNTAX_MARKER_FLOAT: &'static str = "$float$";

/// An expression sub-tree in an AST.
pub struct Expression<'a>(pub &'a Expr);

/// The value of a literal constant expression (integer, character, string, boolean or
/// unit), if the expression is one.
pub open spec fn literal_value(e: Expr) -> Option<Dynamic> {
    match e {
        Expr::IntegerConstant(x, _) => Some(Dynamic::spec_of(Union::Int(x))),
        Expr::CharConstant(x, _) => Some(Dynamic::spec_of(Union::Char(x))),
        Expr::StringConstant(x, _) => Some(Dynamic::spec_of(Union::Str(x))),
        Expr::BoolConstant(x, _) => Some(Dynamic::spec_of(Union::Bool(x))),
        Expr::Unit(_) => Some(Dynamic::spec_of(Union::Unit)),
        _ => None,
    }
}

impl<'a> Expression<'a> {
    /// Wrap an expression.
    pub fn from_expr(expr: &'a Expr) -> (r: Expression<'a>)
        ensures
            r.0 == expr,
    {
        Expression(expr)
    }

    /// If this expression is a (non-qualified) variable name, return it.
    pub fn get_variable_name(&self) -> (r: Option<&str>)
        ensures
            r matches Some(n) ==> (*self.0 matches Expr::Variable(_, _, v) && n@ == v.name@ && v.namespace is None),
            r is None ==> !(*self.0 matches Expr::Variable(_, _, v) && v.namespace is None),
    {
        self.0.get_variable_name(true)
    }

    /// The expression.
    pub fn expr(&self) -> (r: &Expr)
        ensures
            r == self.0,
    {
        self.0
    }

    /// The position of this expression.
    pub fn position(&self) -> (r: Position)
        ensures
            r == spec_expr_position(*self.0),
    {
        self.0.position()
    }

    /// The value of this expression if it is a literal constant (integer, character,
    /// string, boolean or unit).
    pub fn get_literal_value(&self) -> (r: Option<Dynamic>)
        ensures
            r == literal_value(*self.0),
    {
        match self.0 {
            Expr::IntegerConstant(x, _) => Some(Dynamic::from_int(*x)),
            Expr::CharConstant(x, _) => Some(Dynamic::from_char(*x)),
            Expr::StringConstant(x, _) => Some(Dynamic::from_string(x.clone())),
            Expr::BoolConstant(x, _) => Some(Dynamic::from_bool(*x)),
            Expr::Unit(_) => Some(Dynamic::unit()),
            _ => None,
        }
    }
}

/// What the tokenizer makes of a piece of syntax that is one of its tokens.
#[derive(Clone, Copy, PartialEq, Eq, Structural, Debug)]
pub enum TokenClass {
    /// A reserved keyword or symbol (not in use yet).
    Reserved,
    /// A custom keyword or symbol registered earlier.
    Custom,
    /// A standard keyword, such as `let` or `if`.
    StandardKeyword,
    /// A standard operator or punctuation symbol, such as `+` or `(`.
    StandardSymbol,
    /// Any other token.
    Other,
}

/// A registered custom syntax: the symbols it matches in turn (markers standing for the
/// parts that vary), and whether evaluating it may change the scope.
#[derive(Debug)]
pub struct CustomSyntax {
    pub segments: Vec<ImmutableString>,
    pub scope_may_be_changed: bool,
}

/// The texts of a list of strings.
pub open spec fn texts(v: Seq<ImmutableString>) -> Seq<Seq<char>> {
    v.map_values(|x: ImmutableString| x@)
}

impl CustomSyntax {
    /// What the syntax looks like: its symbols and whether it may change the scope.
    pub open spec fn shape(&self) -> (Seq<Seq<char>>, bool) {
        (texts(self.segments@), self.scope_may_be_changed)
    }

    /// The symbol that the custom syntax expects next, after `stream_len` symbols were
    /// read; `None` once all of them were.
    pub fn next_symbol(&self, stream_len: usize) -> (r: Option<ImmutableString>)
        ensures
            stream_len >= self.segments@.len() ==> r is None,
            stream_len < self.segments@.len() ==> r == Some(self.segments@[stream_len as int]),
    {
        if stream_len >= self.segments.len() {
            None
        } else {
            Some(self.segments[stream_len].clone())
        }
    }
}

/// Is the symbol one of the markers for the varying parts of a custom syntax?
pub open spec fn is_marker(s: Seq<char>) -> bool {
    ||| s == CUSTOM_SYNTAX_MARKER_IDENT@
    ||| s == CUSTOM_SYNTAX_MARKER_SYMBOL@
    ||| s == CUSTOM_SYNTAX_MARKER_EXPR@
    ||| s == CUSTOM_SYNTAX_MARKER_BLOCK@
    ||| s == CUSTOM_SYNTAX_MARKER_BOOL@
    ||| s == CUSTOM_SYNTAX_MARKER_INT@
    ||| s == CUSTOM_SYNTAX_MARKER_STRING@
    ||| s == CUSTOM_SYNTAX_MARKER_FLOAT@
}

fn marker(s: &str) -> (r: bool)
    ensures
        r == is_marker(s@),
{
    str_eq(s, CUSTOM_SYNTAX_MARKER_IDENT) || str_eq(s, CUSTOM_SYNTAX_MARKER_SYMBOL) || str_eq(
        s,
        CUSTOM_SYNTAX_MARKER_EXPR,
    ) || str_eq(s, CUSTOM_SYNTAX_MARKER_BLOCK) || str_eq(s, CUSTOM_SYNTAX_MARKER_BOOL) || str_eq(
        s,
        CUSTOM_SYNTAX_MARKER_INT,
    ) || str_eq(s, CUSTOM_SYNTAX_MARKER_STRING) || str_eq(s, CUSTOM_SYNTAX_MARKER_FLOAT)
}

/// The custom keywords after `s` is used in a custom syntax: a disabled or reserved symbol
/// that is not a custom keyword yet becomes one (with no precedence).
pub open spec fn keywords_with(
    keywords: Map<Seq<char>, Option<u8>>,
    disabled: Set<Seq<char>>,
    s: Seq<char>,
    class: Option<TokenClass>,
) -> Map<Seq<char>, Option<u8>> {
    if (disabled.contains(s) || class == Some(TokenClass::Reserved)) && !keywords.contains_key(s) {
        keywords.insert(s, None)
    } else {
        keywords
    }
}

/// Reading the symbols of a custom syntax (already trimmed), each with its token class,
/// from the segments `segments` and custom keywords `keywords` read so far: empty symbols
/// are skipped; after the first segment, markers and tokens are taken; the first segment
/// may not be a standard keyword that is not disabled, and must otherwise be an
/// identifier; anything else is refused. The outcome: the segments, the custom keywords,
/// and the symbol refused with its position (counted from 1), if any.
pub open spec fn read_symbols(
    symbols: Seq<Seq<char>>,
    classes: Seq<Option<TokenClass>>,
    disabled: Set<Seq<char>>,
    segments: Seq<Seq<char>>,
    keywords: Map<Seq<char>, Option<u8>>,
) -> (Seq<Seq<char>>, Map<Seq<char>, Option<u8>>, Option<(Seq<char>, int)>)
    decreases symbols.len(),
{
    if symbols.len() == 0 {
        (segments, keywords, None)
    } else {
        let s = symbols[0];
        let class = classes[0];
        let rest = symbols.drop_first();
        let rest_classes = classes.drop_first();
        if s.len() == 0 {
            read_symbols(rest, rest_classes, disabled, segments, keywords)
        } else if segments.len() > 0 && is_marker(s) {
            read_symbols(rest, rest_classes, disabled, segments.push(s), keywords)
        } else if segments.len() > 0 && class is Some {
            read_symbols(rest, rest_classes, disabled, segments.push(s), keywords_with(keywords, disabled, s, class))
        } else if segments.len() == 0 && class == Some(TokenClass::StandardKeyword) && !disabled.contains(s) {
            (segments, keywords, Some((s, 1)))
        } else if segments.len() == 0 && valid_identifier(s) {
            read_symbols(rest, rest_classes, disabled, segments.push(s), keywords_with(keywords, disabled, s, class))
        } else {
            (segments, keywords, Some((s, segments.len() + 1int)))
        }
    }
}

/// The message for a symbol that cannot stand at a position of a custom syntax.
pub open spec fn improper_symbol_text(s: Seq<char>, position: int) -> Seq<char> {
    "Improper symbol for custom syntax at position #"@ + decimal_text(position) + ": '"@ + s + "'"@
}

/// Is `e` the error for the symbol `s` refused at `position` of a custom syntax?
pub open spec fn is_improper_symbol(e: ParseError, s: Seq<char>, position: int) -> bool {
    &&& *e.0 matches ParseErrorType::BadInput(LexError::ImproperSymbol(t, m))
    &&& t@ == s
    &&& m@ == improper_symbol_text(s, position)
    &&& e.1 == Position::spec_none()
}

/// The engine's settings that custom syntax reads and changes: the disabled keywords and
/// symbols, the custom keywords and operators (an operator with its precedence), and the
/// custom syntaxes by their first symbol.
#[derive(Debug)]
pub struct SyntaxSettings {
    disabled_symbols: Vec<String>,
    custom_keywords: Vec<(String, Option<u8>)>,
    custom_syntax: Vec<(String, CustomSyntax)>,
}

impl SyntaxSettings {
    /// The disabled keywords and symbols.
    pub closed spec fn disabled(&self) -> Set<Seq<char>> {
        Set::new(|s: Seq<char>| exists|i: int| 0 <= i < self.disabled_symbols@.len() && #[trigger] self.disabled_symbols@[i]@ == s)
    }

    /// The custom keywords and operators, with the precedence of an operator.
    pub closed spec fn keywords(&self) -> Map<Seq<char>, Option<u8>> {
        entries_view(self.custom_keywords@)
    }

    /// The custom syntaxes by their first symbol, each by its shape.
    pub closed spec fn syntaxes(&self) -> Map<Seq<char>, (Seq<Seq<char>>, bool)> {
        entries_view(self.custom_syntax@).map_values(|c: CustomSyntax| c.shape())
    }

    /// Well-formedness: each custom keyword and each custom syntax occurs once, and an
    /// operator's precedence is not zero.
    pub closed spec fn wf(&self) -> bool {
        &&& keys_distinct(self.custom_keywords@)
        &&& keys_distinct(self.custom_syntax@)
        &&& forall|k: Seq<char>| #[trigger] self.keywords().contains_key(k) ==> self.keywords()[k] != Some(0u8)
    }

    /// No symbol disabled, no custom keyword, no custom syntax.
    pub fn new() -> (r: SyntaxSettings)
        ensures
            r.wf(),
            r.disabled() == Set::<Seq<char>>::empty(),
            r.keywords() == Map::<Seq<char>, Option<u8>>::empty(),
            r.syntaxes() == Map::<Seq<char>, (Seq<Seq<char>>, bool)>::empty(),
    {
        let r = SyntaxSettings { disabled_symbols: Vec::new(), custom_keywords: Vec::new(), custom_syntax: Vec::new() };
        assert(r.disabled() =~= Set::<Seq<char>>::empty());
        assert(r.syntaxes() =~= Map::<Seq<char>, (Seq<Seq<char>>, bool)>::empty());
        r
    }

    /// Is this keyword or symbol disabled?
    pub fn is_disabled(&self, symbol: &str) -> (r: bool)
        ensures
            r == self.disabled().contains(symbol@),
    {
        let mut i: usize = 0;
        while i < self.disabled_symbols.len()
            invariant
                i <= self.disabled_symbols@.len(),
                forall|j: int| 0 <= j < i ==> (#[trigger] self.disabled_symbols@[j])@ != symbol@,
            decreases self.disabled_symbols@.len() - i,
        {
            if str_eq(self.disabled_symbols[i].as_str(), symbol) {
                assert(self.disabled_symbols@[i as int]@ == symbol@);
                return true;
            }
            i = i + 1;
        }
        false
    }

    /// The custom keyword or operator `keyword`, if registered: `Some` with its
    /// precedence as an operator (`None` for a keyword).
    pub fn custom_keyword(&self, keyword: &str) -> (r: Option<Option<u8>>)
        requires
            self.wf(),
        ensures
            r == (if self.keywords().contains_key(keyword@) {
                Some(self.keywords()[keyword@])
            } else {
                None
            }),
    {
        match find_entry(&self.custom_keywords, keyword) {
            Some(i) => {
                proof {
                    lemma_view_at(self.custom_keywords@, i as int);
                }
                Some(self.custom_keywords[i].1)
            },
            None => None,
        }
    }

    /// The custom syntax whose first symbol is `key`, if registered.
    pub fn custom_syntax(&self, key: &str) -> (r: Option<&CustomSyntax>)
        requires
            self.wf(),
        ensures
            r matches Some(c) ==> self.syntaxes().contains_key(key@) && self.syntaxes()[key@] == c.shape(),
            r is None ==> !self.syntaxes().contains_key(key@),
    {
        match find_entry(&self.custom_syntax, key) {
            Some(i) => {
                proof {
                    lemma_view_at(self.custom_syntax@, i as int);
                }
                Some(&self.custom_syntax[i].1)
            },
            None => None,
        }
    }

    /// Disable a keyword or symbol.
    pub fn disable_symbol(&mut self, symbol: String) -> (r: &mut Self)
        requires
            old(self).wf(),
        ensures
            r.wf(),
            r.disabled() == old(self).disabled().insert(symbol@),
            r.keywords() == old(self).keywords(),
            r.syntaxes() == old(self).syntaxes(),
            *final(self) == *final(r),
    {
        let ghost s = symbol@;
        self.disabled_symbols.push(symbol);
        proof {
            assert forall|t: Seq<char>| self.disabled().contains(t) <==> old(self).disabled().insert(s).contains(t) by {
                if old(self).disabled().contains(t) {
                    let i = choose|i: int| 0 <= i < old(self).disabled_symbols@.len() && #[trigger] old(self).disabled_symbols@[i]@ == t;
                    assert(self.disabled_symbols@[i]@ == t);
                }
                if t == s {
                    assert(self.disabled_symbols@[self.disabled_symbols@.len() - 1]@ == t);
                }
                if self.disabled().contains(t) {
                    let i = choose|i: int| 0 <= i < self.disabled_symbols@.len() && #[trigger] self.disabled_symbols@[i]@ == t;
                    if i < old(self).disabled_symbols@.len() {
                        assert(old(self).disabled_symbols@[i]@ == t);
                    }
                }
            }
            assert(self.disabled() =~= old(self).disabled().insert(s));
        }
        self
    }
}

/// The symbols of a custom syntax, trimmed of white space.
pub open spec fn trimmed_symbols(symbols: Seq<String>) -> Seq<Seq<char>> {
    symbols.map_values(|x: String| trimmed(x@))
}

/// The error for the symbol `s` refused at `position` of a custom syntax.
fn improper_symbol(s: String, position: usize) -> (r: ParseError)
    ensures
        is_improper_symbol(r, s@, position as int),
{
    let mut m = String::from_str("Improper symbol for custom syntax at position #");
    write_decimal(&mut m, position as i128);
    m.append(": '");
    m.append(s.as_str());
    m.append("'");
    LexError::ImproperSymbol(s, m).into_err(Position::none())
}

/// `new` is `old` after a custom syntax of these symbols (with their token classes) was
/// registered: the custom keywords are those reached by `read_symbols`, and, unless there
/// were no symbols at all, the syntax is registered under its first symbol.
pub open spec fn syntax_registered(
    old: SyntaxSettings,
    new: SyntaxSettings,
    symbols: Seq<String>,
    classes: Seq<Option<TokenClass>>,
    scope_may_be_changed: bool,
) -> bool {
    let res = read_symbols(trimmed_symbols(symbols), classes, old.disabled(), Seq::empty(), old.keywords());
    &&& new.wf()
    &&& new.disabled() == old.disabled()
    &&& new.keywords() == res.1
    &&& new.syntaxes() == (if res.0.len() == 0 {
        old.syntaxes()
    } else {
        old.syntaxes().insert(res.0[0], (res.0, scope_may_be_changed))
    })
}

impl SyntaxSettings {
    /// Note the use of `s` in a custom syntax: a disabled or reserved symbol that is not a
    /// custom keyword yet becomes one (with no precedence).
    fn mark_keyword(&mut self, s: &str, class: Option<TokenClass>)
        requires
            old(self).wf(),
        ensures
            final(self).wf(),
            final(self).disabled() == old(self).disabled(),
            final(self).syntaxes() == old(self).syntaxes(),
            final(self).keywords() == keywords_with(old(self).keywords(), old(self).disabled(), s@, class),
    {
        let reserved = match class {
            Some(TokenClass::Reserved) => true,
            _ => false,
        };
        if (self.is_disabled(s) || reserved) && self.custom_keyword(s).is_none() {
            insert_entry(&mut self.custom_keywords, String::from_str(s), None);
        }
    }

    /// Register a custom syntax: its symbols, each with the token class of its trimmed
    /// text (`None` if it is no token), and whether it may change the scope. Empty
    /// symbols are skipped; from the second symbol on, markers and tokens are accepted (a
    /// disabled or reserved symbol becomes a custom keyword); the first symbol must be an
    /// identifier, or a standard keyword that is disabled; any other symbol is an error
    /// that gives its position. A syntax with no symbols is ignored; otherwise it is
    /// registered under its first symbol, replacing any registered there before.
    pub fn register_custom_syntax(
        &mut self,
        symbols: &[String],
        classes: &[Option<TokenClass>],
        scope_may_be_changed: bool,
    ) -> (r: Result<&mut Self, ParseError>)
        requires
            old(self).wf(),
            classes@.len() == symbols@.len(),
        ensures
            (read_symbols(
                trimmed_symbols(symbols@),
                classes@,
                old(self).disabled(),
                Seq::empty(),
                old(self).keywords(),
            ).2 is None) == (r is Ok),
            r matches Ok(s) ==> syntax_registered(*old(self), *s, symbols@, classes@, scope_may_be_changed)
                && *final(self) == *final(s),
            r matches Err(e) ==> ({
                let res = read_symbols(
                    trimmed_symbols(symbols@),
                    classes@,
                    old(self).disabled(),
                    Seq::empty(),
                    old(self).keywords(),
                );
                &&& res.2 matches Some((t, n)) && is_improper_symbol(e, t, n)
                &&& final(self).wf()
                &&& final(self).disabled() == old(self).disabled()
                &&& final(self).keywords() == res.1
                &&& final(self).syntaxes() == old(self).syntaxes()
            }),
    {
        let ghost all = trimmed_symbols(symbols@);
        let ghost d = old(self).disabled();
        let ghost target = read_symbols(all, classes@, d, Seq::empty(), old(self).keywords());
        let mut segments: Vec<ImmutableString> = Vec::new();
        let mut i: usize = 0;
        proof {
            assert(all.skip(0) == all);
            assert(classes@.skip(0) == classes@);
            assert(texts(segments@) =~= Seq::<Seq<char>>::empty());
        }
        while i < symbols.len()
            invariant
                i <= symbols@.len() == classes@.len() == all.len(),
                all == trimmed_symbols(symbols@),
                segments@.len() <= i,
                self.wf(),
                self.disabled() == d,
                d == old(self).disabled(),
                self.syntaxes() == old(self).syntaxes(),
                target == read_symbols(all, classes@, d, Seq::empty(), old(self).keywords()),
                target == read_symbols(all.skip(i as int), classes@.skip(i as int), d, texts(segments@), self.keywords()),
            decreases symbols@.len() - i,
        {
            let s = trim_text(symbols[i].as_str());
            let class = classes[i];
            proof {
                assert(all.skip(i as int)[0] == all[i as int]);
                assert(all[i as int] == trimmed(symbols@[i as int]@));
                assert(classes@.skip(i as int)[0] == classes@[i as int]);
                assert(all.skip(i as int).drop_first() == all.skip(i + 1));
                assert(classes@.skip(i as int).drop_first() == classes@.skip(i + 1));
            }
            if s.as_str().is_empty() {
                i = i + 1;
                continue;
            }
            let first = segments.len() == 0;
            let ghost before = texts(segments@);
            if !first && marker(s.as_str()) {
                let ghost t = s@;
                segments.push(ImmutableString::from_string(s));
                assert(texts(segments@) =~= before.push(t));
            } else if !first && class.is_some() {
                self.mark_keyword(s.as_str(), class);
                let ghost t = s@;
                segments.push(ImmutableString::from_string(s));
                assert(texts(segments@) =~= before.push(t));
            } else if first && (match class {
                Some(TokenClass::StandardKeyword) => true,
                _ => false,
            }) && !self.is_disabled(s.as_str()) {
                return Err(improper_symbol(s, 1));
            } else if first && is_valid_identifier(s.as_str()) {
                self.mark_keyword(s.as_str(), class);
                let ghost t = s@;
                segments.push(ImmutableString::from_string(s));
                assert(texts(segments@) =~= before.push(t));
            } else {
                return Err(improper_symbol(s, segments.len() + 1));
            }
            i = i + 1;
        }
        proof {
            assert(all.skip(i as int) =~= Seq::<Seq<char>>::empty());
        }
        if segments.len() == 0 {
            return Ok(self);
        }
        let key = segments[0].as_str();
        let key = String::from_str(key);
        let ghost shape = (texts(segments@), scope_may_be_changed);
        let ghost before_view = entries_view(self.custom_syntax@);
        let entry = CustomSyntax { segments, scope_may_be_changed };
        assert(entry.shape() == shape);
        insert_entry(&mut self.custom_syntax, key, entry);
        proof {
            assert(self.syntaxes() =~= old(self).syntaxes().insert(shape.0[0], shape));
        }
        Ok(self)
    }
}

/// Why a keyword cannot become a custom operator, given its token class: an active
/// standard keyword, standard operator or other symbol is refused; identifiers, reserved
/// and custom symbols, and disabled ones, are accepted (`None`).
pub open spec fn operator_refusal(keyword: Seq<char>, class: Option<TokenClass>, disabled: Set<Seq<char>>) -> Option<Seq<char>> {
    match class {
        None => None,
        Some(TokenClass::Reserved) => None,
        Some(TokenClass::Custom) => None,
        Some(c) => if disabled.contains(keyword) {
            None
        } else {
            Some(
                "'"@ + keyword + match c {
                    TokenClass::StandardKeyword => "' is a reserved keyword"@,
                    TokenClass::StandardSymbol => "' is a reserved operator"@,
                    _ => "' is a reserved symbol"@,
                },
            )
        },
    }
}

impl SyntaxSettings {
    /// Register a custom operator with a precedence (which cannot be zero); `class` is the
    /// token class of `keyword` (`None` if it is no token). An active standard keyword or
    /// symbol cannot be made an operator; otherwise the keyword becomes a custom operator
    /// with this precedence.
    pub fn register_custom_operator(&mut self, keyword: String, class: Option<TokenClass>, precedence: u8) -> (r: Result<&mut Self, String>)
        requires
            old(self).wf(),
        ensures
            precedence == 0 ==> (r matches Err(m) && m@ == "precedence cannot be zero"@),
            precedence != 0 ==> match operator_refusal(keyword@, class, old(self).disabled()) {
                Some(m) => r matches Err(e) && e@ == m,
                None => r is Ok,
            },
            r matches Ok(s) ==> s.wf() && s.disabled() == old(self).disabled() && s.syntaxes() == old(self).syntaxes()
                && s.keywords() == old(self).keywords().insert(keyword@, Some(precedence)) && *final(self) == *final(s),
            r is Err ==> *final(self) == *old(self),
    {
        if precedence == 0 {
            return Err(String::from_str("precedence cannot be zero"));
        }
        let refused: Option<&str> = match class {
            None => None,
            Some(TokenClass::Reserved) => None,
            Some(TokenClass::Custom) => None,
            Some(TokenClass::StandardKeyword) => Some("' is a reserved keyword"),
            Some(TokenClass::StandardSymbol) => Some("' is a reserved operator"),
            Some(TokenClass::Other) => Some("' is a reserved symbol"),
        };
        if let Some(tail) = refused {
            if !self.is_disabled(keyword.as_str()) {
                let mut m = String::from_str("'");
                m.append(keyword.as_str());
                m.append(tail);
                return Err(m);
            }
        }
        let ghost k = keyword@;
        insert_entry(&mut self.custom_keywords, keyword, Some(precedence));
        assert(self.keywords() == old(self).keywords().insert(k, Some(precedence)));
        Ok(self)
    }
}

/// Disabling a keyword or symbol frees it: once disabled, any keyword or symbol may
/// become a custom operator, and a disabled standard keyword may start a custom syntax
/// (it is read as the first segment, and becomes a custom keyword).
pub proof fn law_disabled_symbols_are_free(
    keyword: Seq<char>,
    class: Option<TokenClass>,
    disabled: Set<Seq<char>>,
    rest: Seq<Seq<char>>,
    rest_classes: Seq<Option<TokenClass>>,
    keywords: Map<Seq<char>, Option<u8>>,
)
    requires
        disabled.contains(keyword),
        keyword.len() > 0,
        rest_classes.len() == rest.len(),
    ensures
        operator_refusal(keyword, class, disabled) is None,
        class == Some(TokenClass::StandardKeyword) && valid_identifier(keyword) ==> read_symbols(
            seq![keyword] + rest,
            seq![class] + rest_classes,
            disabled,
            Seq::empty(),
            keywords,
        ) == read_symbols(
            rest,
            rest_classes,
            disabled,
            seq![keyword],
            keywords_with(keywords, disabled, keyword, class),
        ),
{
    assert((seq![keyword] + rest).drop_first() =~= rest);
    assert((seq![class] + rest_classes).drop_first() =~= rest_classes);
    assert(Seq::<Seq<char>>::empty().push(keyword) =~= seq![keyword]);
}

} // verus!
