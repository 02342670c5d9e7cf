//! Nix source files: their kind, a simple expression tree read from their
//! syntax, parse errors with positions, and helpers that write Nix text.

use vstd::prelude::*;
use crate::ast::{NODE_ATTR_SET, NODE_IDENT, NODE_LIST, NODE_STRING, TOKEN_FLOAT, TOKEN_INTEGER};
use crate::domain_error::NixDomainError;
use crate::named::{insert, key_index, lemma_key_index, lemma_key_index_at};
use crate::syntax::{SyntaxNode, build_tree, events_model, flat, rnix_parse, rnix_parse_walk, well_nested};
use crate::text;

verus! {

broadcast use vstd::string::group_string_axioms;

/// rnix's `NODE_APPLY`.
pub const NODE_APPLY: u16 = 53;
/// rnix's `NODE_LAMBDA`.
pub const NODE_LAMBDA: u16 = 65;

// ---------------------------------------------------------------------------
// Errors and positions
// ---------------------------------------------------------------------------

/// The kind of a parse error.
#[derive(Debug, Clone, Copy, PartialEq, Eq, Structural)]
pub enum ParseErrorKind {
    /// A syntax error.
    SyntaxError,
    /// A flake of the wrong shape.
    InvalidFlake,
    /// A module of the wrong shape.
    InvalidModule,
    /// An invalid attribute.
    InvalidAttribute,
    /// A required field is missing.
    MissingField,
    /// An unexpected token.
    UnexpectedToken,
    /// An unclosed delimiter.
    UnclosedDelimiter,
    /// An invalid string escape.
    InvalidEscape,
}

/// A position in a file.
#[derive(Debug, Clone, Copy, PartialEq, Eq, Structural)]
pub struct Position {
    /// The line, from 1.
    pub line: usize,
    /// The column, from 1.
    pub column: usize,
    /// The byte offset.
    pub offset: usize,
}

/// A parse error of a Nix file.
#[derive(Debug, Clone, PartialEq)]
pub struct ParseError {
    /// What went wrong.
    pub message: String,
    /// Where, when known.
    pub position: Option<Position>,
    /// The kind of error.
    pub kind: ParseErrorKind,
}

impl ParseError {
    /// An error without a position.
    pub fn new(message: String, kind: ParseErrorKind) -> (r: Self)
        ensures
            r.message@ == message@,
            r.position is None,
            r.kind == kind,
    {
        ParseError { message, position: None, kind }
    }

    /// A syntax error that rnix reported, by its message.
    pub fn from_rnix(message: String) -> (r: Self)
        ensures
            r.message@ == message@,
            r.position is None,
            r.kind == ParseErrorKind::SyntaxError,
    {
        ParseError { message, position: None, kind: ParseErrorKind::SyntaxError }
    }

    /// The error at a position.
    pub fn with_position(self, position: Position) -> (r: Self)
        ensures
            r.message == self.message,
            r.kind == self.kind,
            r.position == Some(position),
    {
        ParseError { position: Some(position), ..self }
    }

    /// The error as text: `line:column: message` when the position is known.
    pub fn to_string(&self) -> (s: String)
        ensures
            s@ == match self.position {
                Some(p) => text::decimal_digits(p.line as nat) + ":"@ + text::decimal_digits(
                    p.column as nat,
                ) + ": "@ + self.message@,
                None => self.message@,
            },
    {
        match self.position {
            Some(p) => {
                let mut v = text::decimal(p.line as u64);
                text::append_str(&mut v, ":");
                let c = text::decimal(p.column as u64);
                text::append_chars(&mut v, c.as_slice());
                text::append_str(&mut v, ": ");
                text::append_str(&mut v, self.message.as_str());
                text::string_of(v.as_slice())
            },
            None => self.message.clone(),
        }
    }
}

/// Where a node stands in a file.
#[derive(Debug, Clone, PartialEq)]
pub struct Location {
    /// The file.
    pub file: Option<String>,
    /// The line, from 1.
    pub line: usize,
    /// The column, from 1.
    pub column: usize,
    /// The byte offset.
    pub offset: usize,
    /// The length in bytes.
    pub length: usize,
}

/// A binary operator of Nix.
#[derive(Debug, Clone, Copy, PartialEq, Eq, Structural)]
pub enum BinaryOperator {
    /// `+`
    Add,
    /// `-`
    Subtract,
    /// `*`
    Multiply,
    /// `/`
    Divide,
    /// `==`
    Equal,
    /// `!=`
    NotEqual,
    /// `<`
    Less,
    /// `<=`
    LessEqual,
    /// `>`
    Greater,
    /// `>=`
    GreaterEqual,
    /// `&&`
    And,
    /// `||`
    Or,
    /// `->`
    Implication,
    /// `//`
    Update,
    /// `++`
    Concat,
}

/// A unary operator of Nix.
#[derive(Debug, Clone, Copy, PartialEq, Eq, Structural)]
pub enum UnaryOperator {
    /// `!`
    Not,
    /// `-`
    Negate,
}

/// The Nix text of an attribute set binding each name to the given source.
pub open spec fn attrset_text(attrs: Seq<(Seq<char>, Seq<char>)>) -> Seq<char> {
    "{\n"@ + bindings_text(attrs) + "}"@
}

/// The lines `  name = value;` of bindings, in order.
pub open spec fn bindings_text(attrs: Seq<(Seq<char>, Seq<char>)>) -> Seq<char>
    decreases attrs.len(),
{
    if attrs.len() == 0 {
        Seq::empty()
    } else {
        bindings_text(attrs.drop_last()) + "  "@ + attrs.last().0 + " = "@ + attrs.last().1 + ";\n"@
    }
}

/// Writes an attribute set.
pub fn create_attrset(attrs: Vec<(&str, &str)>) -> (r: String)
    ensures
        r@ == attrset_text(attrs@.map_values(|p: (&str, &str)| (p.0@, p.1@))),
{
    let ghost a = attrs@.map_values(|p: (&str, &str)| (p.0@, p.1@));
    let mut v = text::chars_of("{\n");
    let mut i: usize = 0;
    assert(a.take(0) =~= Seq::<(Seq<char>, Seq<char>)>::empty());
    assert(v@ =~= "{\n"@ + bindings_text(a.take(0)));
    while i < attrs.len()
        invariant
            i <= attrs@.len(),
            a == attrs@.map_values(|p: (&str, &str)| (p.0@, p.1@)),
            v@ == "{\n"@ + bindings_text(a.take(i as int)),
        decreases attrs@.len() - i,
    {
        proof {
            assert(a.take(i + 1).drop_last() =~= a.take(i as int));
        }
        let (key, value) = attrs[i];
        text::append_str(&mut v, "  ");
        text::append_str(&mut v, key);
        text::append_str(&mut v, " = ");
        text::append_str(&mut v, value);
        text::append_str(&mut v, ";\n");
        i = i + 1;
    }
    assert(a.take(a.len() as int) =~= a);
    text::append_str(&mut v, "}");
    text::string_of(v.as_slice())
}

/// Writes a curried lambda: the parameters joined by `: `, then `: ` and
/// the body.
pub fn create_lambda(params: &[&str], body: &str) -> (r: String)
    ensures
        r@ == text::join_with(params@.map_values(|p: &str| p@), ": "@) + ": "@ + body@,
{
    let mut parts: Vec<Vec<char>> = Vec::new();
    let mut i: usize = 0;
    while i < params.len()
        invariant
            i <= params@.len(),
            parts@.len() == i,
            forall|j: int| 0 <= j < i ==> (#[trigger] parts@[j])@ == params@[j]@,
        decreases params@.len() - i,
    {
        parts.push(text::chars_of(params[i]));
        i = i + 1;
    }
    assert(text::views(parts@) =~= params@.map_values(|p: &str| p@));
    let mut v = text::join_str(parts.as_slice(), ": ");
    text::append_str(&mut v, ": ");
    text::append_str(&mut v, body);
    text::string_of(v.as_slice())
}

// ---------------------------------------------------------------------------
// Expressions
// ---------------------------------------------------------------------------

/// A simple Nix expression.
#[derive(Debug)]
pub enum NixExpr {
    /// A string.
    String(String),
    /// An integer.
    Int(i64),
    /// A float, as its literal.
    Float(String),
    /// A boolean.
    Bool(bool),
    /// A path.
    Path(String),
    /// An identifier.
    Identifier(String),
    /// A list.
    List(Vec<NixExpr>),
    /// An attribute set, each name bound once, in order of first binding.
    AttrSet(Vec<(String, NixExpr)>),
    /// An application.
    Apply(Box<NixExpr>, Box<NixExpr>),
    /// A lambda.
    Lambda(String, Box<NixExpr>),
    /// A `let` expression.
    Let(Vec<(String, NixExpr)>, Box<NixExpr>),
    /// A conditional.
    If(Box<NixExpr>, Box<NixExpr>, Box<NixExpr>),
    /// A `with` expression.
    With(Box<NixExpr>, Box<NixExpr>),
    /// Anything else, by its text.
    Other(String),
}

/// The content of an expression.
pub enum ExprView {
    Str(Seq<char>),
    Int(i64),
    Float(Seq<char>),
    Bool(bool),
    Path(Seq<char>),
    Ident(Seq<char>),
    List(Seq<ExprView>),
    AttrSet(Seq<(Seq<char>, ExprView)>),
    Apply(Box<ExprView>, Box<ExprView>),
    Lambda(Seq<char>, Box<ExprView>),
    Let(Seq<(Seq<char>, ExprView)>, Box<ExprView>),
    If(Box<ExprView>, Box<ExprView>, Box<ExprView>),
    With(Box<ExprView>, Box<ExprView>),
    Other(Seq<char>),
}

/// The content of an expression.
pub open spec fn expr_view(e: NixExpr) -> ExprView
    decreases e,
{
    match e {
        NixExpr::String(s) => ExprView::Str(s@),
        NixExpr::Int(i) => ExprView::Int(i),
        NixExpr::Float(f) => ExprView::Float(f@),
        NixExpr::Bool(b) => ExprView::Bool(b),
        NixExpr::Path(p) => ExprView::Path(p@),
        NixExpr::Identifier(s) => ExprView::Ident(s@),
        NixExpr::List(l) => ExprView::List(exprs_view(l@)),
        NixExpr::AttrSet(a) => ExprView::AttrSet(pairs_view(a@)),
        NixExpr::Apply(f, x) => ExprView::Apply(Box::new(expr_view(*f)), Box::new(expr_view(*x))),
        NixExpr::Lambda(p, b) => ExprView::Lambda(p@, Box::new(expr_view(*b))),
        NixExpr::Let(bs, b) => ExprView::Let(pairs_view(bs@), Box::new(expr_view(*b))),
        NixExpr::If(c, t, f) => ExprView::If(
            Box::new(expr_view(*c)),
            Box::new(expr_view(*t)),
            Box::new(expr_view(*f)),
        ),
        NixExpr::With(a, b) => ExprView::With(Box::new(expr_view(*a)), Box::new(expr_view(*b))),
        NixExpr::Other(s) => ExprView::Other(s@),
    }
}

/// The contents of a sequence of expressions.
pub open spec fn exprs_view(s: Seq<NixExpr>) -> Seq<ExprView>
    decreases s,
{
    if s.len() == 0 {
        Seq::empty()
    } else {
        exprs_view(s.drop_last()).push(expr_view(s.last()))
    }
}

/// The contents of a sequence of named expressions.
pub open spec fn pairs_view(s: Seq<(String, NixExpr)>) -> Seq<(Seq<char>, ExprView)>
    decreases s,
{
    if s.len() == 0 {
        Seq::empty()
    } else {
        pairs_view(s.drop_last()).push((s.last().0@, expr_view(s.last().1)))
    }
}

proof fn lemma_pairs_view(s: Seq<(String, NixExpr)>)
    ensures
        pairs_view(s).len() == s.len(),
        forall|i: int| 0 <= i < s.len() ==> #[trigger] pairs_view(s)[i] == (s[i].0@, expr_view(s[i].1)),
    decreases s.len(),
{
    if s.len() > 0 {
        lemma_pairs_view(s.drop_last());
    }
}

/// The expression a syntax node reads as: strings without their quotes,
/// identifiers, lists of their children, attribute sets of their bindings
/// (the text of a binding's first child names the expression of its second;
/// a later binding of a name replaces the earlier), and anything else by
/// its text.
pub open spec fn expr_spec(n: SyntaxNode) -> ExprView
    decreases n, 1int,
{
    if n.kind == NODE_STRING {
        ExprView::Str(text::trim_char(n.text@, '"'))
    } else if n.kind == TOKEN_INTEGER {
        ExprView::Int(
            match text::parse_i64_spec(n.text@) {
                Some(i) => i,
                None => 0,
            },
        )
    } else if n.kind == TOKEN_FLOAT {
        ExprView::Float(n.text@)
    } else if n.kind == NODE_IDENT {
        ExprView::Ident(n.text@)
    } else if n.kind == NODE_LIST {
        ExprView::List(list_exprs(n.children@))
    } else if n.kind == NODE_ATTR_SET {
        ExprView::AttrSet(attr_exprs(n.children@))
    } else {
        ExprView::Other(n.text@)
    }
}

/// The expressions of a list's children.
pub open spec fn list_exprs(cs: Seq<SyntaxNode>) -> Seq<ExprView>
    decreases cs, 0int,
{
    if cs.len() == 0 {
        Seq::empty()
    } else {
        list_exprs(cs.drop_last()).push(expr_spec(cs.last()))
    }
}

/// The bindings of an attribute set's children.
pub open spec fn attr_exprs(cs: Seq<SyntaxNode>) -> Seq<(Seq<char>, ExprView)>
    decreases cs, 0int,
{
    if cs.len() == 0 {
        Seq::empty()
    } else {
        let c = cs.last();
        if c.children@.len() >= 2 {
            insert(attr_exprs(cs.drop_last()), c.children@[0].text@, expr_spec(c.children@[1]))
        } else {
            attr_exprs(cs.drop_last())
        }
    }
}

/// Binds a name in a sequence of named expressions: replaces the first
/// binding of the name, or appends one.
fn bind_expr(v: &mut Vec<(String, NixExpr)>, name: String, e: NixExpr)
    ensures
        pairs_view(final(v)@) == insert(pairs_view(old(v)@), name@, expr_view(e)),
{
    let ghost m = pairs_view(v@);
    proof {
        lemma_pairs_view(v@);
        lemma_key_index(m, name@);
    }
    let nv = text::chars_of(name.as_str());
    let mut i: usize = 0;
    while i < v.len()
        invariant
            i <= v@.len(),
            v@ == old(v)@,
            m == pairs_view(v@),
            m.len() == v@.len(),
            forall|j: int| 0 <= j < v@.len() ==> #[trigger] m[j] == (v@[j].0@, expr_view(v@[j].1)),
            nv@ == name@,
            forall|j: int| 0 <= j < i ==> (#[trigger] m[j]).0 != name@,
        decreases v@.len() - i,
    {
        let kv = text::chars_of(v[i].0.as_str());
        if text::eq_chars(kv.as_slice(), nv.as_slice()) {
            proof {
                lemma_key_index_at(m, name@, i as int);
            }
            let ghost old_v = v@;
            v.set(i, (name, e));
            proof {
                lemma_pairs_view(v@);
                assert(pairs_view(v@) =~= m.update(i as int, (nv@, expr_view(e))));
            }
            return;
        }
        i = i + 1;
    }
    let ghost old_v = v@;
    v.push((name, e));
    proof {
        lemma_pairs_view(v@);
        assert(pairs_view(v@) =~= m.push((nv@, expr_view(e))));
    }
}

impl NixExpr {
    /// Reads a syntax node as an expression.
    pub fn from_ast(node: &SyntaxNode) -> (r: NixExpr)
        ensures
            expr_view(r) == expr_spec(*node),
        decreases node, 2int,
    {
        if node.kind == NODE_STRING {
            let v = text::chars_of(node.text.as_str());
            NixExpr::String(text::string_of(text::trim_matches(v.as_slice(), '"').as_slice()))
        } else if node.kind == TOKEN_INTEGER {
            let v = text::chars_of(node.text.as_str());
            NixExpr::Int(
                match text::parse_i64(v.as_slice()) {
                    Some(i) => i,
                    None => 0,
                },
            )
        } else if node.kind == TOKEN_FLOAT {
            NixExpr::Float(node.text.clone())
        } else if node.kind == NODE_IDENT {
            NixExpr::Identifier(node.text.clone())
        } else if node.kind == NODE_LIST {
            NixExpr::List(Self::list_items(node))
        } else if node.kind == NODE_ATTR_SET {
            NixExpr::AttrSet(Self::attr_items(node))
        } else {
            NixExpr::Other(node.text.clone())
        }
    }

    /// The expressions of a list's children.
    fn list_items(node: &SyntaxNode) -> (r: Vec<NixExpr>)
        ensures
            exprs_view(r@) == list_exprs(node.children@),
        decreases node, 1int,
    {
        let ghost cs = node.children@;
        let mut out: Vec<NixExpr> = Vec::new();
        let mut i: usize = 0;
        assert(cs.take(0) =~= Seq::<SyntaxNode>::empty());
        while i < node.children.len()
            invariant
                i <= cs.len(),
                cs == node.children@,
                exprs_view(out@) == list_exprs(cs.take(i as int)),
            decreases cs.len() - i,
        {
            proof {
                assert(cs.take(i + 1).drop_last() =~= cs.take(i as int));
                assert(cs.take(i + 1).last() == cs[i as int]);
            }
            let e = Self::from_ast(&node.children[i]);
            let ghost before = out@;
            out.push(e);
            assert(out@.drop_last() =~= before);
            i = i + 1;
        }
        assert(cs.take(cs.len() as int) =~= cs);
        out
    }

    /// The bindings of an attribute set's children.
    fn attr_items(node: &SyntaxNode) -> (r: Vec<(String, NixExpr)>)
        ensures
            pairs_view(r@) == attr_exprs(node.children@),
        decreases node, 1int,
    {
        let ghost cs = node.children@;
        let mut out: Vec<(String, NixExpr)> = Vec::new();
        let mut i: usize = 0;
        assert(cs.take(0) =~= Seq::<SyntaxNode>::empty());
        assert(pairs_view(out@) =~= Seq::<(Seq<char>, ExprView)>::empty());
        while i < node.children.len()
            invariant
                i <= cs.len(),
                cs == node.children@,
                pairs_view(out@) == attr_exprs(cs.take(i as int)),
            decreases cs.len() - i,
        {
            proof {
                assert(cs.take(i + 1).drop_last() =~= cs.take(i as int));
                assert(cs.take(i + 1).last() == cs[i as int]);
            }
            let c = &node.children[i];
            if c.children.len() >= 2 {
                let key = c.children[0].text.clone();
                let value = Self::from_ast(&c.children[1]);
                bind_expr(&mut out, key, value);
            }
            i = i + 1;
        }
        assert(cs.take(cs.len() as int) =~= cs);
        out
    }
}

// ---------------------------------------------------------------------------
// Files
// ---------------------------------------------------------------------------

/// rnix's `NODE_ROOT`.
pub const NODE_ROOT: u16 = 75;

/// The kind of a Nix file.
#[derive(Debug, Clone, Copy, PartialEq, Eq, Structural)]
pub enum NixFileType {
    /// A flake.
    Flake,
    /// A NixOS module.
    Module,
    /// An overlay.
    Overlay,
    /// A derivation.
    Derivation,
    /// A NixOS configuration.
    Configuration,
    /// Unknown.
    Unknown,
}

/// Whether one of a node's children mentions a name in its text.
pub open spec fn mentions(n: SyntaxNode, name: Seq<char>) -> bool {
    exists|i: int| 0 <= i < n.children@.len() && text::has_sub((#[trigger] n.children@[i]).text@, name)
}

/// A flake: an attribute set among the root's children that mentions
/// `description` and `outputs`.
pub open spec fn looks_like_flake(root: SyntaxNode) -> bool {
    exists|i: int|
        0 <= i < root.children@.len() && (#[trigger] root.children@[i]).kind == NODE_ATTR_SET && mentions(
            root.children@[i],
            "description"@,
        ) && mentions(root.children@[i], "outputs"@)
}

/// A module: an attribute set among the root's children that mentions
/// `options` and `config`, or `imports`.
pub open spec fn looks_like_module(root: SyntaxNode) -> bool {
    exists|i: int|
        0 <= i < root.children@.len() && (#[trigger] root.children@[i]).kind == NODE_ATTR_SET && ((mentions(
            root.children@[i],
            "options"@,
        ) && mentions(root.children@[i], "config"@)) || mentions(root.children@[i], "imports"@))
}

/// How many lambdas are nested through their bodies from a node, counted up
/// to the largest `usize`.
pub open spec fn lambda_depth(n: SyntaxNode) -> usize
    decreases n,
{
    if n.kind == NODE_LAMBDA {
        let inner: usize = if n.children@.len() > 1 {
            lambda_depth(n.children@[1])
        } else {
            0
        };
        if inner < usize::MAX {
            (inner + 1) as usize
        } else {
            inner
        }
    } else {
        0
    }
}

/// An overlay: a lambda of at least two curried parameters among the root's
/// children.
pub open spec fn looks_like_overlay(root: SyntaxNode) -> bool {
    exists|i: int|
        0 <= i < root.children@.len() && (#[trigger] root.children@[i]).kind == NODE_LAMBDA && lambda_depth(
            root.children@[i],
        ) >= 2
}

/// Whether a node or one below it applies something to a text that
/// mentions `mkDerivation`.
pub open spec fn calls_derivation(n: SyntaxNode) -> bool
    decreases n, 1int,
{
    (n.kind == NODE_APPLY && text::has_sub(n.text@, "mkDerivation"@)) || any_calls_derivation(n.children@)
}

/// Whether one of the nodes calls a derivation.
pub open spec fn any_calls_derivation(cs: Seq<SyntaxNode>) -> bool
    decreases cs, 0int,
{
    if cs.len() == 0 {
        false
    } else {
        any_calls_derivation(cs.drop_last()) || calls_derivation(cs.last())
    }
}

/// The kind of a file from its syntax tree, checked in order: flake, module,
/// overlay, derivation.
pub open spec fn file_type_of(root: SyntaxNode) -> NixFileType {
    if looks_like_flake(root) {
        NixFileType::Flake
    } else if looks_like_module(root) {
        NixFileType::Module
    } else if looks_like_overlay(root) {
        NixFileType::Overlay
    } else if calls_derivation(root) {
        NixFileType::Derivation
    } else {
        NixFileType::Unknown
    }
}

impl NixFileType {
    /// Whether one of a node's children mentions a name.
    fn has_attribute(node: &SyntaxNode, name: &str) -> (b: bool)
        ensures
            b == mentions(*node, name@),
    {
        let nv = text::chars_of(name);
        let mut i: usize = 0;
        while i < node.children.len()
            invariant
                i <= node.children@.len(),
                nv@ == name@,
                forall|j: int| 0 <= j < i ==> !text::has_sub((#[trigger] node.children@[j]).text@, name@),
            decreases node.children@.len() - i,
        {
            let t = text::chars_of(node.children[i].text.as_str());
            if text::contains(t.as_slice(), nv.as_slice()) {
                return true;
            }
            i = i + 1;
        }
        false
    }

    fn is_flake(ast: &SyntaxNode) -> (b: bool)
        ensures
            b == looks_like_flake(*ast),
    {
        let mut i: usize = 0;
        while i < ast.children.len()
            invariant
                i <= ast.children@.len(),
                forall|j: int|
                    0 <= j < i ==> !((#[trigger] ast.children@[j]).kind == NODE_ATTR_SET && mentions(
                        ast.children@[j],
                        "description"@,
                    ) && mentions(ast.children@[j], "outputs"@)),
            decreases ast.children@.len() - i,
        {
            let c = &ast.children[i];
            if c.kind == NODE_ATTR_SET && Self::has_attribute(c, "description") && Self::has_attribute(c, "outputs") {
                return true;
            }
            i = i + 1;
        }
        false
    }

    fn is_module(ast: &SyntaxNode) -> (b: bool)
        ensures
            b == looks_like_module(*ast),
    {
        let mut i: usize = 0;
        while i < ast.children.len()
            invariant
                i <= ast.children@.len(),
                forall|j: int|
                    0 <= j < i ==> !((#[trigger] ast.children@[j]).kind == NODE_ATTR_SET && ((mentions(
                        ast.children@[j],
                        "options"@,
                    ) && mentions(ast.children@[j], "config"@)) || mentions(ast.children@[j], "imports"@))),
            decreases ast.children@.len() - i,
        {
            let c = &ast.children[i];
            if c.kind == NODE_ATTR_SET {
                let has_options = Self::has_attribute(c, "options");
                let has_config = Self::has_attribute(c, "config");
                let has_imports = Self::has_attribute(c, "imports");
                if (has_options && has_config) || has_imports {
                    return true;
                }
            }
            i = i + 1;
        }
        false
    }

    fn count_lambda_params(lambda_node: &SyntaxNode) -> (r: usize)
        ensures
            r == lambda_depth(*lambda_node),
        decreases lambda_node,
    {
        if lambda_node.kind == NODE_LAMBDA {
            let inner = if lambda_node.children.len() > 1 {
                Self::count_lambda_params(&lambda_node.children[1])
            } else {
                0
            };
            if inner < usize::MAX {
                inner + 1
            } else {
                inner
            }
        } else {
            0
        }
    }

    fn is_overlay(ast: &SyntaxNode) -> (b: bool)
        ensures
            b == looks_like_overlay(*ast),
    {
        let mut i: usize = 0;
        while i < ast.children.len()
            invariant
                i <= ast.children@.len(),
                forall|j: int|
                    0 <= j < i ==> !((#[trigger] ast.children@[j]).kind == NODE_LAMBDA && lambda_depth(
                        ast.children@[j],
                    ) >= 2),
            decreases ast.children@.len() - i,
        {
            let c = &ast.children[i];
            if c.kind == NODE_LAMBDA && Self::count_lambda_params(c) >= 2 {
                return true;
            }
            i = i + 1;
        }
        false
    }

    fn contains_derivation_call(node: &SyntaxNode) -> (b: bool)
        ensures
            b == calls_derivation(*node),
        decreases node, 1int,
    {
        if node.kind == NODE_APPLY {
            let t = text::chars_of(node.text.as_str());
            if text::contains_str(t.as_slice(), "mkDerivation") {
                return true;
            }
        }
        Self::any_child_calls(node)
    }

    fn any_child_calls(node: &SyntaxNode) -> (b: bool)
        ensures
            b == any_calls_derivation(node.children@),
        decreases node, 0int,
    {
        let ghost cs = node.children@;
        let mut i: usize = 0;
        assert(cs.take(0) =~= Seq::<SyntaxNode>::empty());
        while i < node.children.len()
            invariant
                i <= cs.len(),
                cs == node.children@,
                !any_calls_derivation(cs.take(i as int)),
            decreases cs.len() - i,
        {
            proof {
                assert(cs.take(i + 1).drop_last() =~= cs.take(i as int));
                assert(cs.take(i + 1).last() == cs[i as int]);
            }
            if Self::contains_derivation_call(&node.children[i]) {
                proof {
                    lemma_any_calls_grows(cs, i + 1);
                    assert(cs.take(cs.len() as int) =~= cs);
                }
                return true;
            }
            i = i + 1;
        }
        assert(cs.take(cs.len() as int) =~= cs);
        false
    }

    /// The kind of a file from its syntax tree.
    pub fn detect(ast: &SyntaxNode) -> (r: NixFileType)
        ensures
            r == file_type_of(*ast),
    {
        if Self::is_flake(ast) {
            NixFileType::Flake
        } else if Self::is_module(ast) {
            NixFileType::Module
        } else if Self::is_overlay(ast) {
            NixFileType::Overlay
        } else if Self::contains_derivation_call(ast) {
            NixFileType::Derivation
        } else {
            NixFileType::Unknown
        }
    }
}

/// Once a prefix holds a derivation call, every longer prefix does.
proof fn lemma_any_calls_grows(cs: Seq<SyntaxNode>, k: int)
    requires
        0 < k <= cs.len(),
        calls_derivation(cs[k - 1]),
    ensures
        any_calls_derivation(cs.take(cs.len() as int)),
    decreases cs.len() - k,
{
    assert(cs.take(k).drop_last() =~= cs.take(k - 1));
    assert(cs.take(k).last() == cs[k - 1]);
    lemma_any_calls_prefix(cs, k, cs.len() as int);
}

proof fn lemma_any_calls_prefix(cs: Seq<SyntaxNode>, k: int, m: int)
    requires
        0 <= k <= m <= cs.len(),
        any_calls_derivation(cs.take(k)),
    ensures
        any_calls_derivation(cs.take(m)),
    decreases m - k,
{
    if k < m {
        assert(cs.take(k + 1).drop_last() =~= cs.take(k));
        lemma_any_calls_prefix(cs, k + 1, m);
    }
}

/// A parsed Nix file.
#[derive(Debug)]
pub struct NixFile {
    /// The syntax tree, from rnix's `NODE_ROOT`.
    pub ast: SyntaxNode,
    /// The file it came from.
    pub source: Option<String>,
    /// The source text.
    pub content: String,
    /// The syntax errors rnix reported.
    pub errors: Vec<ParseError>,
}

impl NixFile {
    /// Parses Nix source, keeping the syntax errors rnix reports beside the
    /// tree it builds.
    pub fn parse_string(content: String, source: Option<String>) -> (r: Result<NixFile, NixDomainError>)
        ensures
            r is Ok <==> well_nested(rnix_parse(content@).0),
            r matches Ok(f) ==> {
                &&& flat(f.ast) == rnix_parse(content@).0
                &&& crate::expression_reader::kinds_valid(f.ast)
                &&& f.content@ == content@
                &&& f.source == source
                &&& f.errors@.map_values(|e: ParseError| e.message@) == rnix_parse(content@).1
                &&& forall|i: int| 0 <= i < f.errors@.len() ==> (#[trigger] f.errors@[i]).kind
                    == ParseErrorKind::SyntaxError && f.errors@[i].position is None
            },
    {
        let (events, messages) = rnix_parse_walk(content.as_str());
        let mut errors: Vec<ParseError> = Vec::new();
        let mut i: usize = 0;
        while i < messages.len()
            invariant
                i <= messages@.len(),
                errors@.len() == i,
                forall|j: int| 0 <= j < i ==> (#[trigger] errors@[j]).message@ == messages@[j]@
                    && errors@[j].kind == ParseErrorKind::SyntaxError && errors@[j].position is None,
            decreases messages@.len() - i,
        {
            errors.push(ParseError::from_rnix(messages[i].clone()));
            i = i + 1;
        }
        assert(errors@.map_values(|e: ParseError| e.message@) =~= messages@.map_values(|s: String| s@));
        match build_tree(&events) {
            Some(ast) => {
                proof {
                    assert forall|i: int| 0 <= i < flat(ast).len() implies (#[trigger] flat(
                        ast,
                    )[i]).1 <= crate::expression_reader::LAST_KIND by {
                        assert(flat(ast)[i] == events@[i].model());
                    }
                    crate::expression_reader::lemma_kinds_valid_from_walk(ast);
                }
                Ok(NixFile { ast, source, content, errors })
            },
            None => Err(NixDomainError::ParseError(text::string_from("walk is not a single tree"))),
        }
    }

    /// The file's expression, read from its syntax tree by
    /// `expression_reader::from_syntax_node`.
    pub fn to_ast(&self) -> (r: Result<crate::expression::NixAst, crate::expression::AstError>)
        requires
            crate::expression_reader::kinds_valid(self.ast),
        ensures
            crate::expression_reader::outcome_view(r) == crate::expression_reader::read(self.ast),
    {
        crate::expression_reader::from_syntax_node(&self.ast)
    }

    /// Whether rnix reported syntax errors.
    pub fn has_errors(&self) -> (b: bool)
        ensures
            b == (self.errors@.len() > 0),
    {
        self.errors.len() > 0
    }

    /// The kind of the file.
    pub fn file_type(&self) -> (r: NixFileType)
        ensures
            r == file_type_of(self.ast),
    {
        NixFileType::detect(&self.ast)
    }

    /// The file's text, as written.
    pub fn format(&self) -> (r: Result<String, NixDomainError>)
        ensures
            r matches Ok(s) && s@ == self.content@,
    {
        Ok(self.content.clone())
    }
}

/// How files are parsed.
#[derive(Debug, Clone, Copy, PartialEq, Eq, Structural)]
pub struct ParserConfig {
    /// Whether comments are kept.
    pub preserve_comments: bool,
    /// Whether files are checked while parsed.
    pub validate: bool,
    /// Whether imported files are parsed too.
    pub follow_imports: bool,
    /// How deep imports are followed.
    pub max_depth: usize,
}

impl Default for ParserConfig {
    fn default() -> (r: Self)
        ensures
            r == (ParserConfig { preserve_comments: true, validate: true, follow_imports: false, max_depth: 10 }),
    {
        ParserConfig { preserve_comments: true, validate: true, follow_imports: false, max_depth: 10 }
    }
}

/// A file read as an expression.
#[derive(Debug)]
pub struct ParsedFile {
    /// The file it came from; empty for a text.
    pub path: String,
    /// Its expression.
    pub expr: NixExpr,
    /// The syntax errors rnix reported.
    pub errors: Vec<ParseError>,
}

/// Reads Nix files as expressions.
#[derive(Debug, Clone, Copy, PartialEq, Eq, Structural)]
pub struct NixParser {
    /// How it parses.
    pub config: ParserConfig,
}

impl NixParser {
    /// A parser with the default configuration.
    pub fn new() -> (r: Self)
        ensures
            r.config == (ParserConfig {
                preserve_comments: true,
                validate: true,
                follow_imports: false,
                max_depth: 10,
            }),
    {
        NixParser { config: ParserConfig::default() }
    }

    /// Reads a text: the expression of its syntax tree's root.
    pub fn parse_string(&self, content: &str) -> (r: Result<ParsedFile, NixDomainError>)
        ensures
            r is Ok <==> well_nested(rnix_parse(content@).0),
            r matches Ok(p) ==> {
                &&& p.path@.len() == 0
                &&& p.errors@.map_values(|e: ParseError| e.message@) == rnix_parse(content@).1
                &&& exists|root: SyntaxNode|
                    flat(root) == rnix_parse(content@).0 && expr_view(p.expr) == expr_spec(root)
            },
    {
        let file = match NixFile::parse_string(text::string_from(content), None) {
            Ok(f) => f,
            Err(e) => return Err(e),
        };
        let expr = NixExpr::from_ast(&file.ast);
        Ok(ParsedFile { path: String::new(), expr, errors: file.errors })
    }
}

/// A derivation read from a file.
#[derive(Debug, Clone, PartialEq)]
pub struct ParsedDerivation {
    /// The derivation's store path.
    pub drv_path: String,
    /// Its output paths.
    pub outputs: Vec<String>,
    /// Its system.
    pub system: String,
    /// Its dependencies.
    pub dependencies: Vec<String>,
}

/// Reads derivations.
pub struct DerivationParser;

impl DerivationParser {
    /// The derivation of a file. Derivation files are not read yet: every
    /// file gives the same placeholder derivation.
    pub fn parse(file: &NixFile) -> (r: Result<ParsedDerivation, NixDomainError>)
        ensures
            r matches Ok(d) && d.drv_path@ == "/nix/store/dummy.drv"@ && d.outputs@.map_values(
                |s: String| s@,
            ) == seq!["/nix/store/dummy-out"@] && d.system@ == "x86_64-linux"@ && d.dependencies@.len()
                == 0,
    {
        let outputs = vec![text::string_from("/nix/store/dummy-out")];
        assert(outputs@.map_values(|s: String| s@) =~= seq!["/nix/store/dummy-out"@]);
        Ok(
            ParsedDerivation {
                drv_path: text::string_from("/nix/store/dummy.drv"),
                outputs,
                system: text::string_from("x86_64-linux"),
                dependencies: Vec::new(),
            },
        )
    }
}

/// The metadata of a module.
#[derive(Debug, Clone, PartialEq)]
pub struct ModuleMeta {
    /// Its maintainers.
    pub maintainers: Vec<String>,
    /// Its description.
    pub description: Option<String>,
}

impl Default for ModuleMeta {
    fn default() -> (r: Self)
        ensures
            r.maintainers@.len() == 0,
            r.description is None,
    {
        ModuleMeta { maintainers: Vec::new(), description: None }
    }
}

/// Reads files with the location of each node.
#[derive(Debug, Clone, PartialEq)]
pub struct AdvancedParser {
    current_file: Option<String>,
}

impl AdvancedParser {
    /// The file being read, if any.
    pub closed spec fn file(&self) -> Option<String> {
        self.current_file
    }

    /// A parser reading no file.
    pub fn new() -> (r: Self)
        ensures
            r.file() is None,
    {
        AdvancedParser { current_file: None }
    }
}

/// What `AdvancedParser::parse_string` gives for a tree: its conversion
/// located at the whole text, the file unchanged; the conversion's message
/// as a parse error; or `Other` where the conversion does not return.
pub open spec fn located_outcome(
    t: SyntaxNode,
    file: Option<String>,
    r: Result<crate::expression::LocatedAst, NixDomainError>,
) -> bool {
    match crate::advanced_reader::convert(t) {
        None => r matches Err(NixDomainError::Other(_)),
        Some(Err(m)) => r matches Err(NixDomainError::ParseError(x)) && x@ == m,
        Some(Ok(a)) => r matches Ok(l) && {
            &&& crate::expression::ast_view(l.ast) == a
            &&& l.location.file == file
            &&& l.location.line == 0
            &&& l.location.column == 0
            &&& l.location.offset == 0
            &&& l.location.length == vstd::utf8::encode_utf8(t.text@).len() as usize
        },
    }
}

impl AdvancedParser {
    /// Parses Nix source and converts its tree, by the rules of
    /// `advanced_reader::convert`. rnix's syntax errors, joined by `; `,
    /// are the error where there are any.
    pub fn parse_string(&self, content: &str) -> (r: Result<crate::expression::LocatedAst, NixDomainError>)
        ensures
            rnix_parse(content@).1.len() > 0 ==> (r matches Err(NixDomainError::ParseError(m))
                && m@ == text::join_with(rnix_parse(content@).1, "; "@)),
            rnix_parse(content@).1.len() == 0 && !well_nested(rnix_parse(content@).0) ==> (
            r matches Err(NixDomainError::ParseError(m)) && m@ == "walk is not a single tree"@),
            rnix_parse(content@).1.len() == 0 && well_nested(rnix_parse(content@).0) ==> exists|
                t: SyntaxNode,
            | flat(t) == rnix_parse(content@).0 && located_outcome(t, self.file(), r),
    {
        let (events, messages) = rnix_parse_walk(content);
        if messages.len() > 0 {
            let mut parts: Vec<Vec<char>> = Vec::new();
            let mut i: usize = 0;
            while i < messages.len()
                invariant
                    i <= messages@.len(),
                    text::views(parts@) == messages@.take(i as int).map_values(|s: String| s@),
                decreases messages@.len() - i,
            {
                let ghost before = parts@;
                parts.push(text::chars_of(messages[i].as_str()));
                assert(text::views(parts@) =~= text::views(before).push(messages@[i as int]@));
                assert(messages@.take(i + 1).map_values(|s: String| s@) =~= messages@.take(
                    i as int,
                ).map_values(|s: String| s@).push(messages@[i as int]@));
                i = i + 1;
            }
            assert(messages@.take(i as int) =~= messages@);
            let joined = text::join_str(parts.as_slice(), "; ");
            return Err(NixDomainError::ParseError(text::string_of(joined.as_slice())));
        }
        match build_tree(&events) {
            None => Err(NixDomainError::ParseError(text::string_from("walk is not a single tree"))),
            Some(root) => {
                proof {
                    assert forall|i: int| 0 <= i < flat(root).len() implies (#[trigger] flat(
                        root,
                    )[i]).1 <= crate::expression_reader::LAST_KIND by {
                        assert(flat(root)[i] == events@[i].model());
                    }
                    crate::expression_reader::lemma_kinds_valid_from_walk(root);
                }
                let length = root.text.as_str().len();
                match crate::advanced_reader::convert_node(&root) {
                    None => Err(
                        NixDomainError::Other(
                            text::string_from("the default of a selection does not convert"),
                        ),
                    ),
                    Some(Err(m)) => Err(NixDomainError::ParseError(m)),
                    Some(Ok(ast)) => Ok(
                        crate::expression::LocatedAst {
                            ast,
                            location: Location {
                                file: self.current_file.clone(),
                                line: 0,
                                column: 0,
                                offset: 0,
                                length,
                            },
                        },
                    ),
                }
            },
        }
    }
}

impl Default for AdvancedParser {
    fn default() -> (r: Self)
        ensures
            r.file() is None,
    {
        AdvancedParser::new()
    }
}

} // verus!
