//! Nix expressions as a tree: literals, identifiers, attribute sets, lists,
//! functions and the other forms of the language.
//!
//! A float literal is kept as the text it was written with; a path as its
//! text.

use vstd::prelude::*;
use crate::source_parser::{BinaryOperator, UnaryOperator};

verus! {

/// A Nix expression.
#[derive(Debug)]
pub enum NixAst {
    /// An integer literal.
    Integer(i64),
    /// A float literal, as written.
    Float(String),
    /// A string literal.
    String(String),
    /// A path literal.
    Path(String),
    /// A boolean literal.
    Bool(bool),
    /// `null`.
    Null,
    /// An identifier.
    Identifier(String),
    /// An attribute set.
    AttrSet {
        /// Whether it is `rec`.
        recursive: bool,
        /// Its bindings, in order.
        bindings: Vec<Binding>,
    },
    /// A list.
    List(Vec<NixAst>),
    /// A function.
    Function {
        /// Its parameter.
        param: FunctionParam,
        /// Its body.
        body: Box<NixAst>,
    },
    /// A function application.
    Apply {
        /// The function.
        function: Box<NixAst>,
        /// The argument.
        argument: Box<NixAst>,
    },
    /// `let ... in ...`.
    Let {
        /// The bindings.
        bindings: Vec<Binding>,
        /// The body.
        body: Box<NixAst>,
    },
    /// `if ... then ... else ...`.
    If {
        /// The condition.
        condition: Box<NixAst>,
        /// The value when it holds.
        then_branch: Box<NixAst>,
        /// The value when it does not.
        else_branch: Box<NixAst>,
    },
    /// `with ...; ...`.
    With {
        /// The namespace brought into scope.
        namespace: Box<NixAst>,
        /// The body.
        body: Box<NixAst>,
    },
    /// `assert ...; ...`.
    Assert {
        /// The condition.
        condition: Box<NixAst>,
        /// The body.
        body: Box<NixAst>,
    },
    /// A binary operation.
    BinaryOp {
        /// The operator.
        op: BinaryOperator,
        /// The left operand.
        left: Box<NixAst>,
        /// The right operand.
        right: Box<NixAst>,
    },
    /// A unary operation.
    UnaryOp {
        /// The operator.
        op: UnaryOperator,
        /// The operand.
        operand: Box<NixAst>,
    },
    /// `e.a.b` or `e.a.b or d`.
    Select {
        /// The expression selected from.
        expr: Box<NixAst>,
        /// The attribute path.
        attr_path: AttrPath,
        /// The default, if any.
        default: Option<Box<NixAst>>,
    },
    /// `e ? a.b`.
    HasAttr {
        /// The expression tested.
        expr: Box<NixAst>,
        /// The attribute path.
        attr_path: AttrPath,
    },
    /// `import e`.
    Import(Box<NixAst>),
    /// `inherit (e) a b;` outside a binding.
    Inherit {
        /// The expression inherited from, if any.
        from: Option<Box<NixAst>>,
        /// The names inherited.
        attrs: Vec<String>,
    },
}

/// The parameter of a function.
#[derive(Debug)]
pub enum FunctionParam {
    /// A plain name.
    Identifier(String),
    /// A pattern `{ a, b ? d, ... } @ x`.
    Pattern {
        /// The fields.
        fields: Vec<PatternField>,
        /// The name bound to the whole argument, if any.
        bind: Option<String>,
        /// Whether further fields are allowed.
        ellipsis: bool,
    },
}

/// A field of a function pattern.
#[derive(Debug)]
pub struct PatternField {
    /// Its name.
    pub name: String,
    /// Its default, if any.
    pub default: Option<NixAst>,
}

/// An attribute path `a.b.c`.
#[derive(Debug)]
pub struct AttrPath {
    /// The segments.
    pub segments: Vec<AttrPathSegment>,
}

/// A segment of an attribute path.
#[derive(Debug)]
pub enum AttrPathSegment {
    /// A name.
    Identifier(String),
    /// A computed name `${e}`.
    Dynamic(NixAst),
}

/// A binding of an attribute set or a `let`.
#[derive(Debug)]
pub struct Binding {
    /// The path bound.
    pub attr_path: AttrPath,
    /// What it is bound to.
    pub value: BindingValue,
}

/// What a binding binds.
#[derive(Debug)]
pub enum BindingValue {
    /// An expression.
    Value(NixAst),
    /// `inherit (e) a;`.
    Inherit {
        /// The expression inherited from, if any.
        from: Option<NixAst>,
        /// The names inherited.
        attrs: Vec<String>,
    },
}

/// An expression with where it stands in its file.
#[derive(Debug)]
pub struct LocatedAst {
    /// The expression.
    pub ast: NixAst,
    /// Where it stands.
    pub location: crate::source_parser::Location,
}

/// An error of reading an expression from a syntax tree.
#[derive(Debug, Clone, PartialEq)]
pub enum AstError {
    /// A node of a kind that is not read.
    UnsupportedNode(String),
    /// A node whose parts are not as expected.
    InvalidStructure(String),
    /// A literal that does not parse.
    ParseError(String),
}

/// The message of an error.
pub open spec fn ast_error_text(e: AstError) -> Seq<char> {
    match e {
        AstError::UnsupportedNode(m) => "Unsupported node type: "@ + m@,
        AstError::InvalidStructure(m) => "Invalid node structure: "@ + m@,
        AstError::ParseError(m) => "Parse error: "@ + m@,
    }
}

impl AstError {
    /// The message of the error.
    pub fn to_string(&self) -> (s: String)
        ensures
            s@ == ast_error_text(*self),
    {
        let (prefix, m) = match self {
            AstError::UnsupportedNode(m) => ("Unsupported node type: ", m),
            AstError::InvalidStructure(m) => ("Invalid node structure: ", m),
            AstError::ParseError(m) => ("Parse error: ", m),
        };
        let mut v = crate::text::chars_of(prefix);
        crate::text::append_str(&mut v, m.as_str());
        crate::text::string_of(v.as_slice())
    }
}

/// An expression as plain values.
pub enum AstView {
    /// An integer.
    Integer(i64),
    /// A float, as written.
    Float(Seq<char>),
    /// A string.
    Str(Seq<char>),
    /// A path.
    Path(Seq<char>),
    /// A boolean.
    Bool(bool),
    /// `null`.
    Null,
    /// An identifier.
    Identifier(Seq<char>),
    /// An attribute set: whether it is `rec`, and its bindings.
    AttrSet(bool, Seq<BindingView>),
    /// A list.
    List(Seq<AstView>),
    /// A function.
    Function(ParamView, Box<AstView>),
    /// An application.
    Apply(Box<AstView>, Box<AstView>),
    /// `let`.
    Let(Seq<BindingView>, Box<AstView>),
    /// `if`.
    If(Box<AstView>, Box<AstView>, Box<AstView>),
    /// `with`.
    With(Box<AstView>, Box<AstView>),
    /// `assert`.
    Assert(Box<AstView>, Box<AstView>),
    /// A binary operation.
    BinaryOp(BinaryOperator, Box<AstView>, Box<AstView>),
    /// A unary operation.
    UnaryOp(UnaryOperator, Box<AstView>),
    /// A selection.
    Select(Box<AstView>, Seq<SegmentView>, Option<Box<AstView>>),
    /// A test for an attribute.
    HasAttr(Box<AstView>, Seq<SegmentView>),
    /// An import.
    Import(Box<AstView>),
    /// An inherit outside a binding.
    Inherit(Option<Box<AstView>>, Seq<Seq<char>>),
}

/// A function parameter as plain values.
pub enum ParamView {
    /// A name.
    Identifier(Seq<char>),
    /// A pattern: its fields with their defaults, the name bound to the
    /// whole argument, and whether it has an ellipsis.
    Pattern(Seq<(Seq<char>, Option<AstView>)>, Option<Seq<char>>, bool),
}

/// An attribute path segment as plain values.
pub enum SegmentView {
    /// A name.
    Identifier(Seq<char>),
    /// A computed name.
    Dynamic(AstView),
}

/// What a binding binds, as plain values.
pub enum ValueView {
    /// An expression.
    Value(AstView),
    /// An inherit: the expression inherited from, and the names.
    Inherit(Option<AstView>, Seq<Seq<char>>),
}

/// A binding as plain values.
pub struct BindingView {
    /// The path.
    pub path: Seq<SegmentView>,
    /// What it binds.
    pub value: ValueView,
}

/// The texts of a list of strings.
pub open spec fn string_texts(v: Seq<String>) -> Seq<Seq<char>> {
    v.map_values(|s: String| s@)
}

/// An expression as plain values.
pub open spec fn ast_view(a: NixAst) -> AstView
    decreases a, 1int,
{
    match a {
        NixAst::Integer(i) => AstView::Integer(i),
        NixAst::Float(t) => AstView::Float(t@),
        NixAst::String(s) => AstView::Str(s@),
        NixAst::Path(p) => AstView::Path(p@),
        NixAst::Bool(b) => AstView::Bool(b),
        NixAst::Null => AstView::Null,
        NixAst::Identifier(s) => AstView::Identifier(s@),
        NixAst::AttrSet { recursive, bindings } => AstView::AttrSet(recursive, bindings_view(bindings@)),
        NixAst::List(items) => AstView::List(items_view(items@)),
        NixAst::Function { param, body } => AstView::Function(param_view(param), Box::new(ast_view(*body))),
        NixAst::Apply { function, argument } => AstView::Apply(
            Box::new(ast_view(*function)),
            Box::new(ast_view(*argument)),
        ),
        NixAst::Let { bindings, body } => AstView::Let(bindings_view(bindings@), Box::new(ast_view(*body))),
        NixAst::If { condition, then_branch, else_branch } => AstView::If(
            Box::new(ast_view(*condition)),
            Box::new(ast_view(*then_branch)),
            Box::new(ast_view(*else_branch)),
        ),
        NixAst::With { namespace, body } => AstView::With(
            Box::new(ast_view(*namespace)),
            Box::new(ast_view(*body)),
        ),
        NixAst::Assert { condition, body } => AstView::Assert(
            Box::new(ast_view(*condition)),
            Box::new(ast_view(*body)),
        ),
        NixAst::BinaryOp { op, left, right } => AstView::BinaryOp(
            op,
            Box::new(ast_view(*left)),
            Box::new(ast_view(*right)),
        ),
        NixAst::UnaryOp { op, operand } => AstView::UnaryOp(op, Box::new(ast_view(*operand))),
        NixAst::Select { expr, attr_path, default } => AstView::Select(
            Box::new(ast_view(*expr)),
            segments_view(attr_path.segments@),
            match default {
                Some(d) => Some(Box::new(ast_view(*d))),
                None => None,
            },
        ),
        NixAst::HasAttr { expr, attr_path } => AstView::HasAttr(
            Box::new(ast_view(*expr)),
            segments_view(attr_path.segments@),
        ),
        NixAst::Import(x) => AstView::Import(Box::new(ast_view(*x))),
        NixAst::Inherit { from, attrs } => AstView::Inherit(
            match from {
                Some(x) => Some(Box::new(ast_view(*x))),
                None => None,
            },
            string_texts(attrs@),
        ),
    }
}

/// A parameter as plain values.
pub open spec fn param_view(p: FunctionParam) -> ParamView
    decreases p, 0int,
{
    match p {
        FunctionParam::Identifier(s) => ParamView::Identifier(s@),
        FunctionParam::Pattern { fields, bind, ellipsis } => ParamView::Pattern(
            fields_view(fields@),
            match bind {
                Some(b) => Some(b@),
                None => None,
            },
            ellipsis,
        ),
    }
}

/// Pattern fields as plain values.
pub open spec fn fields_view(fs: Seq<PatternField>) -> Seq<(Seq<char>, Option<AstView>)>
    decreases fs, 0int,
{
    if fs.len() == 0 {
        Seq::empty()
    } else {
        fields_view(fs.drop_last()).push(
            (
                fs.last().name@,
                match fs.last().default {
                    Some(d) => Some(ast_view(d)),
                    None => None,
                },
            ),
        )
    }
}

/// Path segments as plain values.
pub open spec fn segments_view(ss: Seq<AttrPathSegment>) -> Seq<SegmentView>
    decreases ss, 0int,
{
    if ss.len() == 0 {
        Seq::empty()
    } else {
        segments_view(ss.drop_last()).push(
            match ss.last() {
                AttrPathSegment::Identifier(s) => SegmentView::Identifier(s@),
                AttrPathSegment::Dynamic(e) => SegmentView::Dynamic(ast_view(e)),
            },
        )
    }
}

/// Bindings as plain values.
pub open spec fn bindings_view(bs: Seq<Binding>) -> Seq<BindingView>
    decreases bs, 0int,
{
    if bs.len() == 0 {
        Seq::empty()
    } else {
        bindings_view(bs.drop_last()).push(
            BindingView {
                path: segments_view(bs.last().attr_path.segments@),
                value: match bs.last().value {
                    BindingValue::Value(v) => ValueView::Value(ast_view(v)),
                    BindingValue::Inherit { from, attrs } => ValueView::Inherit(
                        match from {
                            Some(x) => Some(ast_view(x)),
                            None => None,
                        },
                        string_texts(attrs@),
                    ),
                },
            },
        )
    }
}

/// Expressions as plain values.
pub open spec fn items_view(items: Seq<NixAst>) -> Seq<AstView>
    decreases items, 0int,
{
    if items.len() == 0 {
        Seq::empty()
    } else {
        items_view(items.drop_last()).push(ast_view(items.last()))
    }
}

/// Whether an attribute path is exactly the given names, each segment a
/// plain name.
pub open spec fn path_is(p: AttrPath, names: Seq<Seq<char>>) -> bool {
    &&& p.segments@.len() == names.len()
    &&& forall|i: int|
        0 <= i < names.len() ==> (#[trigger] p.segments@[i] matches AttrPathSegment::Identifier(n)
            && n@ == names[i])
}

/// Whether a binding binds exactly the given path of names.
pub open spec fn binds(b: Binding, names: Seq<Seq<char>>) -> bool {
    path_is(b.attr_path, names)
}

} // verus!
