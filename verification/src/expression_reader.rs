//! Reading an expression tree from a concrete syntax tree.
//!
//! Each node kind of rnix is read into the expression form it stands for:
//! literals, identifiers, attribute sets, lists, functions, applications,
//! `let`, `if`, `with`, `assert`, operators, selections, strings, paths and
//! parentheses. The rules are stated by `read` and the functions it calls;
//! `from_syntax_node` follows them and is proved to.

use vstd::prelude::*;
use rowan::Language;
use crate::ast::{
    NODE_ATTRPATH, NODE_ATTRPATH_VALUE, NODE_ATTR_SET, NODE_IDENT, NODE_LIST, NODE_LITERAL,
    NODE_STRING, TOKEN_FLOAT, TOKEN_INTEGER,
};
use crate::expression::{
    AstError, AstView, AttrPath, AttrPathSegment, Binding, BindingValue, BindingView,
    FunctionParam, NixAst, ParamView, PatternField, SegmentView, ValueView, ast_view,
    bindings_view, fields_view, items_view, param_view, segments_view,
};
use crate::source_parser::{BinaryOperator, UnaryOperator, NODE_APPLY, NODE_LAMBDA, NODE_ROOT};
use crate::syntax::{SyntaxNode, enter_model, flat, flat_list};
use crate::text;

verus! {

/// rnix's `TOKEN_REC`.
pub const TOKEN_REC: u16 = 10;
/// rnix's `TOKEN_ELLIPSIS`.
pub const TOKEN_ELLIPSIS: u16 = 22;
/// rnix's `TOKEN_CONCAT`.
pub const TOKEN_CONCAT: u16 = 27;
/// rnix's `TOKEN_INVERT`.
pub const TOKEN_INVERT: u16 = 28;
/// rnix's `TOKEN_UPDATE`.
pub const TOKEN_UPDATE: u16 = 29;
/// rnix's `TOKEN_ADD`.
pub const TOKEN_ADD: u16 = 30;
/// rnix's `TOKEN_SUB`.
pub const TOKEN_SUB: u16 = 31;
/// rnix's `TOKEN_MUL`.
pub const TOKEN_MUL: u16 = 32;
/// rnix's `TOKEN_DIV`.
pub const TOKEN_DIV: u16 = 33;
/// rnix's `TOKEN_AND_AND`.
pub const TOKEN_AND_AND: u16 = 34;
/// rnix's `TOKEN_EQUAL`.
pub const TOKEN_EQUAL: u16 = 35;
/// rnix's `TOKEN_IMPLICATION`.
pub const TOKEN_IMPLICATION: u16 = 36;
/// rnix's `TOKEN_LESS`.
pub const TOKEN_LESS: u16 = 37;
/// rnix's `TOKEN_LESS_OR_EQ`.
pub const TOKEN_LESS_OR_EQ: u16 = 38;
/// rnix's `TOKEN_MORE`.
pub const TOKEN_MORE: u16 = 39;
/// rnix's `TOKEN_MORE_OR_EQ`.
pub const TOKEN_MORE_OR_EQ: u16 = 40;
/// rnix's `TOKEN_NOT_EQUAL`.
pub const TOKEN_NOT_EQUAL: u16 = 41;
/// rnix's `TOKEN_OR_OR`.
pub const TOKEN_OR_OR: u16 = 42;
/// rnix's `TOKEN_STRING_CONTENT`.
pub const TOKEN_STRING_CONTENT: u16 = 50;
/// rnix's `NODE_ASSERT`.
pub const NODE_ASSERT: u16 = 54;
/// rnix's `NODE_DYNAMIC`.
pub const NODE_DYNAMIC: u16 = 56;
/// rnix's `NODE_IF_ELSE`.
pub const NODE_IF_ELSE: u16 = 59;
/// rnix's `NODE_SELECT`.
pub const NODE_SELECT: u16 = 60;
/// rnix's `NODE_INHERIT`.
pub const NODE_INHERIT: u16 = 61;
/// rnix's `NODE_INHERIT_FROM`.
pub const NODE_INHERIT_FROM: u16 = 62;
/// rnix's `NODE_IDENT_PARAM`.
pub const NODE_IDENT_PARAM: u16 = 66;
/// rnix's `NODE_LET_IN`.
pub const NODE_LET_IN: u16 = 68;
/// rnix's `NODE_BIN_OP`.
pub const NODE_BIN_OP: u16 = 70;
/// rnix's `NODE_PAREN`.
pub const NODE_PAREN: u16 = 71;
/// rnix's `NODE_PATTERN`.
pub const NODE_PATTERN: u16 = 72;
/// rnix's `NODE_PAT_BIND`.
pub const NODE_PAT_BIND: u16 = 73;
/// rnix's `NODE_PAT_ENTRY`.
pub const NODE_PAT_ENTRY: u16 = 74;
/// rnix's `NODE_UNARY_OP`.
pub const NODE_UNARY_OP: u16 = 78;
/// rnix's `NODE_WITH`.
pub const NODE_WITH: u16 = 80;
/// rnix's `NODE_PATH`.
pub const NODE_PATH: u16 = 81;
/// rnix's `NODE_HAS_ATTR`.
pub const NODE_HAS_ATTR: u16 = 82;
/// rnix's `__LAST`, the largest number of its `SyntaxKind`.
pub const LAST_KIND: u16 = 83;

/// The `Debug` name of rnix's `SyntaxKind` with the given number.
pub uninterp spec fn syntax_kind_name(kind: u16) -> Seq<char>;

/// `format!("{:?}", ..)` of rnix's `SyntaxKind` with the given number, which
/// `NixLanguage::kind_from_raw` gives; that function panics on a number past
/// `__LAST`. The contract claims only that the text is the one named by
/// `syntax_kind_name`.
#[verifier::external_body]
pub(crate) fn kind_name(kind: u16) -> (r: String)
    requires
        kind <= LAST_KIND,
    ensures
        r@ == syntax_kind_name(kind),
{
    format!("{:?}", rnix::NixLanguage::kind_from_raw(rowan::SyntaxKind(kind)))
}

/// The `Display` text of the error of `s.parse::<i64>()`.
pub uninterp spec fn integer_error_text(s: Seq<char>) -> Seq<char>;

/// `text.parse::<i64>()`, its error given by its `Display` text. std
/// documents the text it takes: an optional sign and decimal digits whose
/// value fits; the contract states that through `parse_i64_spec` and names
/// the error's text `integer_error_text`.
#[verifier::external_body]
fn parse_integer(text: &str) -> (r: Result<i64, String>)
    ensures
        match r {
            Ok(v) => text::parse_i64_spec(text@) == Some(v),
            Err(m) => text::parse_i64_spec(text@) is None && m@ == integer_error_text(text@),
        },
{
    match text.parse::<i64>() {
        Ok(v) => Ok(v),
        Err(e) => Err(e.to_string()),
    }
}

/// An error as plain values.
pub enum ErrorView {
    /// A node of a kind that is not read.
    Unsupported(Seq<char>),
    /// A node whose parts are not as expected.
    Invalid(Seq<char>),
    /// A literal that does not parse.
    Parse(Seq<char>),
}

/// An error as plain values.
pub open spec fn error_view(e: AstError) -> ErrorView {
    match e {
        AstError::UnsupportedNode(m) => ErrorView::Unsupported(m@),
        AstError::InvalidStructure(m) => ErrorView::Invalid(m@),
        AstError::ParseError(m) => ErrorView::Parse(m@),
    }
}

/// The outcome of a read as plain values.
pub open spec fn outcome_view(r: Result<NixAst, AstError>) -> Result<AstView, ErrorView> {
    match r {
        Ok(a) => Ok(ast_view(a)),
        Err(e) => Err(error_view(e)),
    }
}

/// Every node of the tree has a kind that rnix has: at most `__LAST`.
pub open spec fn kinds_valid(n: SyntaxNode) -> bool
    decreases n,
{
    &&& n.kind <= LAST_KIND
    &&& forall|j: int| 0 <= j < n.children@.len() ==> kinds_valid(#[trigger] n.children@[j])
}

/// Whether a direct child is a token of the kind.
pub open spec fn token_of_kind(t: Option<(u16, String)>, k: u16) -> bool {
    match t {
        Some((kk, _)) => kk == k,
        None => false,
    }
}

/// Whether a direct child is a token with the text.
pub open spec fn token_with_text(t: Option<(u16, String)>, text: Seq<char>) -> bool {
    match t {
        Some((_, s)) => s@ == text,
        None => false,
    }
}

/// Whether a node has a direct token of the kind.
pub open spec fn has_token_kind(n: SyntaxNode, k: u16) -> bool {
    exists|i: int| 0 <= i < n.tokens@.len() && token_of_kind(#[trigger] n.tokens@[i], k)
}

/// Whether a node has a direct token with the text.
pub open spec fn has_token_text(n: SyntaxNode, t: Seq<char>) -> bool {
    exists|i: int| 0 <= i < n.tokens@.len() && token_with_text(#[trigger] n.tokens@[i], t)
}

/// The index of the first node of kind `a` or `b`; the length when there is
/// none.
pub open spec fn first_kind(cs: Seq<SyntaxNode>, a: u16, b: u16) -> int
    decreases cs.len(),
{
    if cs.len() == 0 {
        0
    } else {
        let i = first_kind(cs.drop_last(), a, b);
        if i < cs.len() - 1 {
            i
        } else if cs.last().kind == a || cs.last().kind == b {
            cs.len() - 1
        } else {
            cs.len() as int
        }
    }
}

/// The index of the first node of a kind other than `a` and `b`; the length
/// when there is none.
pub open spec fn first_other(cs: Seq<SyntaxNode>, a: u16, b: u16) -> int
    decreases cs.len(),
{
    if cs.len() == 0 {
        0
    } else {
        let i = first_other(cs.drop_last(), a, b);
        if i < cs.len() - 1 {
            i
        } else if cs.last().kind != a && cs.last().kind != b {
            cs.len() - 1
        } else {
            cs.len() as int
        }
    }
}

/// The binary operator a token kind stands for.
pub open spec fn binary_op_of_kind(k: u16) -> Option<BinaryOperator> {
    if k == TOKEN_ADD {
        Some(BinaryOperator::Add)
    } else if k == TOKEN_SUB {
        Some(BinaryOperator::Subtract)
    } else if k == TOKEN_MUL {
        Some(BinaryOperator::Multiply)
    } else if k == TOKEN_DIV {
        Some(BinaryOperator::Divide)
    } else if k == TOKEN_EQUAL {
        Some(BinaryOperator::Equal)
    } else if k == TOKEN_NOT_EQUAL {
        Some(BinaryOperator::NotEqual)
    } else if k == TOKEN_LESS {
        Some(BinaryOperator::Less)
    } else if k == TOKEN_LESS_OR_EQ {
        Some(BinaryOperator::LessEqual)
    } else if k == TOKEN_MORE {
        Some(BinaryOperator::Greater)
    } else if k == TOKEN_MORE_OR_EQ {
        Some(BinaryOperator::GreaterEqual)
    } else if k == TOKEN_AND_AND {
        Some(BinaryOperator::And)
    } else if k == TOKEN_OR_OR {
        Some(BinaryOperator::Or)
    } else if k == TOKEN_IMPLICATION {
        Some(BinaryOperator::Implication)
    } else if k == TOKEN_CONCAT {
        Some(BinaryOperator::Concat)
    } else if k == TOKEN_UPDATE {
        Some(BinaryOperator::Update)
    } else {
        None
    }
}

/// The operator of the first token that stands for a binary operator.
pub open spec fn first_binary_op(ts: Seq<Option<(u16, String)>>) -> Option<BinaryOperator>
    decreases ts.len(),
{
    if ts.len() == 0 {
        None
    } else {
        match first_binary_op(ts.drop_last()) {
            Some(op) => Some(op),
            None => match ts.last() {
                Some((k, _)) => binary_op_of_kind(k),
                None => None,
            },
        }
    }
}

/// The unary operator a token kind stands for.
pub open spec fn unary_op_of_kind(k: u16) -> Option<UnaryOperator> {
    if k == TOKEN_INVERT {
        Some(UnaryOperator::Not)
    } else if k == TOKEN_SUB {
        Some(UnaryOperator::Negate)
    } else {
        None
    }
}

/// The operator of the first token that stands for a unary operator.
pub open spec fn first_unary_op(ts: Seq<Option<(u16, String)>>) -> Option<UnaryOperator>
    decreases ts.len(),
{
    if ts.len() == 0 {
        None
    } else {
        match first_unary_op(ts.drop_last()) {
            Some(op) => Some(op),
            None => match ts.last() {
                Some((k, _)) => unary_op_of_kind(k),
                None => None,
            },
        }
    }
}

/// The texts of the string content tokens, joined.
pub open spec fn string_parts(ts: Seq<Option<(u16, String)>>) -> Seq<char>
    decreases ts.len(),
{
    if ts.len() == 0 {
        Seq::empty()
    } else {
        string_parts(ts.drop_last()) + match ts.last() {
            Some((k, s)) => if k == TOKEN_STRING_CONTENT {
                s@
            } else {
                Seq::empty()
            },
            None => Seq::empty(),
        }
    }
}

/// The content of a string node: its content tokens joined; where there
/// are none, its text without its quotes.
pub open spec fn string_content(n: SyntaxNode) -> Seq<char> {
    let c = string_parts(n.tokens@);
    let t = n.text@;
    if c.len() > 0 {
        c
    } else if t.len() > 1 && t[0] == '"' && t[t.len() - 1] == '"' {
        t.subrange(1, t.len() - 1)
    } else if t.len() > 3 && t[0] == '\'' && t[1] == '\'' && t[t.len() - 2] == '\'' && t[t.len()
        - 1] == '\'' {
        t.subrange(2, t.len() - 2)
    } else {
        t
    }
}

/// An identifier's text read as an expression: `true`, `false` and `null`
/// are literals.
pub open spec fn ident_view(t: Seq<char>) -> AstView {
    if t == "true"@ {
        AstView::Bool(true)
    } else if t == "false"@ {
        AstView::Bool(false)
    } else if t == "null"@ {
        AstView::Null
    } else {
        AstView::Identifier(t)
    }
}

/// An integer literal's text read as an expression.
pub open spec fn integer_view(t: Seq<char>) -> Result<AstView, ErrorView> {
    match text::parse_i64_spec(t) {
        Some(v) => Ok(AstView::Integer(v)),
        None => Err(ErrorView::Parse("Invalid integer: "@ + integer_error_text(t))),
    }
}

/// A literal node read as an expression. A literal node holds its one
/// token, so its text is the token's text.
pub open spec fn read_literal(n: SyntaxNode) -> Result<AstView, ErrorView> {
    match n.first_token {
        None => Err(ErrorView::Invalid("Literal node has no tokens"@)),
        Some(tk) => if tk == TOKEN_INTEGER {
            integer_view(n.text@)
        } else if tk == TOKEN_FLOAT {
            Ok(AstView::Float(n.text@))
        } else {
            let cs = n.children@;
            let i = first_kind(cs, NODE_STRING, NODE_PATH);
            if 0 <= i < cs.len() {
                if cs[i].kind == NODE_STRING {
                    Ok(AstView::Str(string_content(cs[i])))
                } else {
                    Ok(AstView::Path(cs[i].text@))
                }
            } else if n.text@ == "true"@ {
                Ok(AstView::Bool(true))
            } else if n.text@ == "false"@ {
                Ok(AstView::Bool(false))
            } else if n.text@ == "null"@ {
                Ok(AstView::Null)
            } else {
                Err(ErrorView::Unsupported("Unknown literal: "@ + syntax_kind_name(n.kind)))
            }
        },
    }
}

/// The name bound by the last `@` binding of a pattern that names one.
pub open spec fn pattern_bind(cs: Seq<SyntaxNode>) -> Option<Seq<char>>
    decreases cs.len(),
{
    if cs.len() == 0 {
        None
    } else {
        let prev = pattern_bind(cs.drop_last());
        let c = cs.last();
        let j = first_kind(c.children@, NODE_IDENT, NODE_IDENT);
        if c.kind == NODE_PAT_BIND && 0 <= j < c.children@.len() {
            Some(c.children@[j].text@)
        } else {
            prev
        }
    }
}

/// The texts of the identifier nodes among the nodes.
pub open spec fn ident_texts(cs: Seq<SyntaxNode>) -> Seq<Seq<char>>
    decreases cs.len(),
{
    if cs.len() == 0 {
        Seq::empty()
    } else if cs.last().kind == NODE_IDENT {
        ident_texts(cs.drop_last()).push(cs.last().text@)
    } else {
        ident_texts(cs.drop_last())
    }
}

/// The binding that inherits one name.
pub open spec fn inherit_binding(from: Option<AstView>, name: Seq<char>) -> BindingView {
    BindingView {
        path: seq![SegmentView::Identifier(name)],
        value: ValueView::Inherit(from, seq![name]),
    }
}

/// A node read as an expression.
pub open spec fn read(n: SyntaxNode) -> Result<AstView, ErrorView>
    decreases n, 2int,
{
    let k = n.kind;
    if k == NODE_LITERAL {
        read_literal(n)
    } else if k == NODE_IDENT {
        Ok(ident_view(n.text@))
    } else if k == NODE_ATTR_SET {
        Ok(AstView::AttrSet(has_token_kind(n, TOKEN_REC), bindings_of(n.children@)))
    } else if k == NODE_LIST {
        Ok(AstView::List(list_items(n.children@)))
    } else if k == NODE_LAMBDA {
        read_function(n)
    } else if k == NODE_APPLY {
        read_apply(n)
    } else if k == NODE_LET_IN {
        read_let(n)
    } else if k == NODE_IF_ELSE {
        read_if(n)
    } else if k == NODE_WITH {
        read_with(n)
    } else if k == NODE_ASSERT {
        read_assert(n)
    } else if k == NODE_BIN_OP {
        read_binary(n)
    } else if k == NODE_UNARY_OP {
        read_unary(n)
    } else if k == NODE_SELECT {
        read_select(n)
    } else if k == NODE_HAS_ATTR {
        read_has_attr(n)
    } else if k == NODE_STRING {
        Ok(AstView::Str(string_content(n)))
    } else if k == NODE_PATH {
        Ok(AstView::Path(n.text@))
    } else if k == NODE_PAREN {
        read_first(n, "Empty parentheses"@)
    } else if k == NODE_ROOT {
        read_first(n, "Empty root node"@)
    } else if k == NODE_INHERIT {
        Err(ErrorView::Invalid("Inherit must be inside an attribute set"@))
    } else if k == TOKEN_INTEGER {
        integer_view(n.text@)
    } else if k == TOKEN_FLOAT {
        Ok(AstView::Float(n.text@))
    } else if n.text@ == "true"@ {
        Ok(AstView::Bool(true))
    } else if n.text@ == "false"@ {
        Ok(AstView::Bool(false))
    } else if n.text@ == "null"@ {
        Ok(AstView::Null)
    } else {
        match first_ok(n.children@) {
            Some(a) => Ok(a),
            None => Err(ErrorView::Unsupported("Unsupported node kind: "@ + syntax_kind_name(k))),
        }
    }
}

/// The first child read, or the error with the message where there is no
/// child.
pub open spec fn read_first(n: SyntaxNode, msg: Seq<char>) -> Result<AstView, ErrorView>
    decreases n, 1int,
{
    if n.children@.len() > 0 {
        read(n.children@[0])
    } else {
        Err(ErrorView::Invalid(msg))
    }
}

/// The first of the nodes that reads without error, read.
pub open spec fn first_ok(cs: Seq<SyntaxNode>) -> Option<AstView>
    decreases cs, 0int,
{
    if cs.len() == 0 {
        None
    } else {
        match first_ok(cs.drop_last()) {
            Some(a) => Some(a),
            None => match read(cs.last()) {
                Ok(a) => Some(a),
                Err(_) => None,
            },
        }
    }
}

/// The nodes that read without error, read, in order.
pub open spec fn list_items(cs: Seq<SyntaxNode>) -> Seq<AstView>
    decreases cs, 0int,
{
    if cs.len() == 0 {
        Seq::empty()
    } else {
        match read(cs.last()) {
            Ok(a) => list_items(cs.drop_last()).push(a),
            Err(_) => list_items(cs.drop_last()),
        }
    }
}

/// The bindings of the binding and inherit nodes among the nodes, in order;
/// one that does not read is left out.
pub open spec fn bindings_of(cs: Seq<SyntaxNode>) -> Seq<BindingView>
    decreases cs, 0int,
{
    if cs.len() == 0 {
        Seq::empty()
    } else {
        let prev = bindings_of(cs.drop_last());
        let c = cs.last();
        if c.kind == NODE_ATTRPATH_VALUE {
            match read_binding(c) {
                Ok(b) => prev.push(b),
                Err(_) => prev,
            }
        } else if c.kind == NODE_INHERIT {
            match read_inherit(c) {
                Ok(bs) => prev + bs,
                Err(_) => prev,
            }
        } else {
            prev
        }
    }
}

/// The attribute path of the last path node among the nodes; the first
/// path that does not read is the error.
pub open spec fn last_path(cs: Seq<SyntaxNode>) -> Result<Option<Seq<SegmentView>>, ErrorView>
    decreases cs, 0int,
{
    if cs.len() == 0 {
        Ok(None)
    } else {
        match last_path(cs.drop_last()) {
            Err(e) => Err(e),
            Ok(p) => if cs.last().kind == NODE_ATTRPATH {
                match read_attr_path(cs.last()) {
                    Err(e) => Err(e),
                    Ok(s) => Ok(Some(s)),
                }
            } else {
                Ok(p)
            },
        }
    }
}

/// The index of the first node after index `a` of a kind other than `k`;
/// the length when there is none.
pub open spec fn first_other_after(cs: Seq<SyntaxNode>, a: int, k: u16) -> int
    decreases cs.len(),
{
    if cs.len() == 0 {
        0
    } else {
        let i = first_other_after(cs.drop_last(), a, k);
        if i < cs.len() - 1 {
            i
        } else if cs.len() - 1 > a && cs.last().kind != k {
            cs.len() - 1
        } else {
            cs.len() as int
        }
    }
}

/// The index of the value of a binding: the first child after the first
/// path node that is not a path node.
pub open spec fn value_index(cs: Seq<SyntaxNode>) -> int {
    first_other_after(cs, first_kind(cs, NODE_ATTRPATH, NODE_ATTRPATH), NODE_ATTRPATH)
}

/// A binding node read.
pub open spec fn read_binding(b: SyntaxNode) -> Result<BindingView, ErrorView>
    decreases b, 1int,
{
    let cs = b.children@;
    match last_path(cs) {
        Err(e) => Err(e),
        Ok(None) => Err(ErrorView::Invalid("Binding missing attribute path"@)),
        Ok(Some(path)) => {
            let v = value_index(cs);
            if 0 <= v < cs.len() {
                match read(cs[v]) {
                    Ok(x) => Ok(BindingView { path, value: ValueView::Value(x) }),
                    Err(e) => Err(e),
                }
            } else {
                Err(ErrorView::Invalid("Binding missing value"@))
            }
        },
    }
}

/// The segments of an attribute path's children; the first that does not
/// read is the error.
pub open spec fn path_segments(cs: Seq<SyntaxNode>) -> Result<Seq<SegmentView>, ErrorView>
    decreases cs, 0int,
{
    if cs.len() == 0 {
        Ok(Seq::empty())
    } else {
        match path_segments(cs.drop_last()) {
            Err(e) => Err(e),
            Ok(s) => {
                let c = cs.last();
                if c.kind == NODE_IDENT {
                    Ok(s.push(SegmentView::Identifier(c.text@)))
                } else if c.kind == NODE_STRING {
                    Ok(s.push(SegmentView::Identifier(string_content(c))))
                } else if c.kind == NODE_DYNAMIC {
                    match read_first(c, "Empty dynamic attribute"@) {
                        Ok(x) => Ok(s.push(SegmentView::Dynamic(x))),
                        Err(e) => Err(e),
                    }
                } else {
                    Ok(s)
                }
            },
        }
    }
}

/// An attribute path node read.
pub open spec fn read_attr_path(p: SyntaxNode) -> Result<Seq<SegmentView>, ErrorView>
    decreases p, 1int,
{
    match path_segments(p.children@) {
        Err(e) => Err(e),
        Ok(s) => if s.len() == 0 {
            Err(ErrorView::Invalid("Empty attribute path"@))
        } else {
            Ok(s)
        },
    }
}

/// An inherit node read: one binding for each name.
pub open spec fn read_inherit(n: SyntaxNode) -> Result<Seq<BindingView>, ErrorView>
    decreases n, 1int,
{
    let cs = n.children@;
    let i = first_kind(cs, NODE_INHERIT_FROM, NODE_INHERIT_FROM);
    let from: Result<Option<AstView>, ErrorView> = if 0 <= i < cs.len() && cs[i].children@.len()
        > 0 {
        match read(cs[i].children@[0]) {
            Ok(x) => Ok(Some(x)),
            Err(e) => Err(e),
        }
    } else {
        Ok(None)
    };
    match from {
        Err(e) => Err(e),
        Ok(f) => Ok(ident_texts(cs).map_values(|name: Seq<char>| inherit_binding(f, name))),
    }
}

/// A lambda node read.
pub open spec fn read_function(n: SyntaxNode) -> Result<AstView, ErrorView>
    decreases n, 1int,
{
    let cs = n.children@;
    if cs.len() == 0 {
        Err(ErrorView::Invalid("Function has no children"@))
    } else {
        let p: Result<ParamView, ErrorView> = if cs[0].kind == NODE_IDENT || cs[0].kind
            == NODE_IDENT_PARAM {
            Ok(ParamView::Identifier(cs[0].text@))
        } else if cs[0].kind == NODE_PATTERN {
            Ok(read_pattern(cs[0]))
        } else {
            Err(ErrorView::Invalid("Invalid function parameter"@))
        };
        match p {
            Err(e) => Err(e),
            Ok(param) => if cs.len() < 2 {
                Err(ErrorView::Invalid("Function missing body"@))
            } else {
                match read(cs[1]) {
                    Ok(b) => Ok(AstView::Function(param, Box::new(b))),
                    Err(e) => Err(e),
                }
            },
        }
    }
}

/// A pattern node read: its fields that read, the name bound to the whole
/// argument, and whether it has an ellipsis.
pub open spec fn read_pattern(p: SyntaxNode) -> ParamView
    decreases p, 1int,
{
    ParamView::Pattern(
        pattern_fields(p.children@),
        pattern_bind(p.children@),
        has_token_kind(p, TOKEN_ELLIPSIS),
    )
}

/// The fields of the pattern entry nodes among the nodes that read.
pub open spec fn pattern_fields(cs: Seq<SyntaxNode>) -> Seq<(Seq<char>, Option<AstView>)>
    decreases cs, 0int,
{
    if cs.len() == 0 {
        Seq::empty()
    } else if cs.last().kind == NODE_PAT_ENTRY {
        match read_pattern_field(cs.last()) {
            Ok(f) => pattern_fields(cs.drop_last()).push(f),
            Err(_) => pattern_fields(cs.drop_last()),
        }
    } else {
        pattern_fields(cs.drop_last())
    }
}

/// A pattern entry node read: its name and its default.
pub open spec fn read_pattern_field(f: SyntaxNode) -> Result<(Seq<char>, Option<AstView>), ErrorView>
    decreases f, 1int,
{
    let cs = f.children@;
    if cs.len() == 0 {
        Err(ErrorView::Invalid("Pattern field has no children"@))
    } else if cs[0].kind != NODE_IDENT {
        Err(ErrorView::Invalid("Pattern field missing name"@))
    } else if cs.len() > 1 {
        match read(cs[1]) {
            Ok(d) => Ok((cs[0].text@, Some(d))),
            Err(e) => Err(e),
        }
    } else {
        Ok((cs[0].text@, None))
    }
}

/// An application node read; `import` applied is an import.
pub open spec fn read_apply(n: SyntaxNode) -> Result<AstView, ErrorView>
    decreases n, 1int,
{
    let cs = n.children@;
    if cs.len() > 1 && read(cs[0]) == Ok::<AstView, ErrorView>(AstView::Identifier("import"@)) {
        match read(cs[1]) {
            Ok(x) => Ok(AstView::Import(Box::new(x))),
            Err(e) => Err(e),
        }
    } else if cs.len() < 2 {
        Err(ErrorView::Invalid("Apply needs at least 2 children"@))
    } else {
        match read(cs[0]) {
            Err(e) => Err(e),
            Ok(f) => match read(cs[1]) {
                Err(e) => Err(e),
                Ok(a) => Ok(AstView::Apply(Box::new(f), Box::new(a))),
            },
        }
    }
}

/// A `let` node read. Where the node has an `in` token, the bindings are the
/// binding and inherit children before the first other child, which is the
/// body; else all of them, and the body is the last child where it is no
/// binding.
pub open spec fn read_let(n: SyntaxNode) -> Result<AstView, ErrorView>
    decreases n, 1int,
{
    let cs = n.children@;
    let k = first_other(cs, NODE_ATTRPATH_VALUE, NODE_INHERIT);
    if has_token_text(n, "in"@) && 0 <= k < cs.len() {
        match read(cs[k]) {
            Ok(x) => Ok(AstView::Let(bindings_of(cs.take(k)), Box::new(x))),
            Err(e) => Err(e),
        }
    } else if cs.len() > 0 && cs.last().kind != NODE_ATTRPATH_VALUE && cs.last().kind
        != NODE_INHERIT {
        match read(cs.last()) {
            Ok(x) => Ok(AstView::Let(bindings_of(cs), Box::new(x))),
            Err(e) => Err(e),
        }
    } else {
        Err(ErrorView::Invalid("Let expression missing body"@))
    }
}

/// An `if` node read.
pub open spec fn read_if(n: SyntaxNode) -> Result<AstView, ErrorView>
    decreases n, 1int,
{
    let cs = n.children@;
    if cs.len() < 3 {
        Err(ErrorView::Invalid("If expression needs condition, then, and else parts"@))
    } else {
        match read(cs[0]) {
            Err(e) => Err(e),
            Ok(c) => match read(cs[1]) {
                Err(e) => Err(e),
                Ok(t) => match read(cs[2]) {
                    Err(e) => Err(e),
                    Ok(f) => Ok(AstView::If(Box::new(c), Box::new(t), Box::new(f))),
                },
            },
        }
    }
}

/// A `with` node read.
pub open spec fn read_with(n: SyntaxNode) -> Result<AstView, ErrorView>
    decreases n, 1int,
{
    let cs = n.children@;
    if cs.len() < 2 {
        Err(ErrorView::Invalid("With expression needs namespace and body"@))
    } else {
        match read(cs[0]) {
            Err(e) => Err(e),
            Ok(a) => match read(cs[1]) {
                Err(e) => Err(e),
                Ok(b) => Ok(AstView::With(Box::new(a), Box::new(b))),
            },
        }
    }
}

/// An `assert` node read.
pub open spec fn read_assert(n: SyntaxNode) -> Result<AstView, ErrorView>
    decreases n, 1int,
{
    let cs = n.children@;
    if cs.len() < 2 {
        Err(ErrorView::Invalid("Assert expression needs condition and body"@))
    } else {
        match read(cs[0]) {
            Err(e) => Err(e),
            Ok(a) => match read(cs[1]) {
                Err(e) => Err(e),
                Ok(b) => Ok(AstView::Assert(Box::new(a), Box::new(b))),
            },
        }
    }
}

/// A binary operation node read.
pub open spec fn read_binary(n: SyntaxNode) -> Result<AstView, ErrorView>
    decreases n, 1int,
{
    let cs = n.children@;
    if cs.len() < 2 {
        Err(ErrorView::Invalid("Binary operation needs at least 2 operands"@))
    } else {
        match first_binary_op(n.tokens@) {
            None => Err(ErrorView::Invalid("Binary operation missing operator"@)),
            Some(op) => match read(cs[0]) {
                Err(e) => Err(e),
                Ok(a) => match read(cs[1]) {
                    Err(e) => Err(e),
                    Ok(b) => Ok(AstView::BinaryOp(op, Box::new(a), Box::new(b))),
                },
            },
        }
    }
}

/// A unary operation node read.
pub open spec fn read_unary(n: SyntaxNode) -> Result<AstView, ErrorView>
    decreases n, 1int,
{
    let cs = n.children@;
    if cs.len() == 0 {
        Err(ErrorView::Invalid("Unary operation needs an operand"@))
    } else {
        match first_unary_op(n.tokens@) {
            None => Err(ErrorView::Invalid("Unary operation missing operator"@)),
            Some(op) => match read(cs[0]) {
                Err(e) => Err(e),
                Ok(a) => Ok(AstView::UnaryOp(op, Box::new(a))),
            },
        }
    }
}

/// The attribute path of a selection or test: the path node read, or a
/// single name from the node's text.
pub open spec fn selected_path(c: SyntaxNode) -> Result<Seq<SegmentView>, ErrorView>
    decreases c, 2int,
{
    if c.kind == NODE_ATTRPATH {
        read_attr_path(c)
    } else {
        Ok(seq![SegmentView::Identifier(c.text@)])
    }
}

/// A selection node read; with an `or` token, its third child is the
/// default.
pub open spec fn read_select(n: SyntaxNode) -> Result<AstView, ErrorView>
    decreases n, 1int,
{
    let cs = n.children@;
    if cs.len() < 2 {
        Err(ErrorView::Invalid("Select needs expression and attribute path"@))
    } else {
        match read(cs[0]) {
            Err(e) => Err(e),
            Ok(x) => match selected_path(cs[1]) {
                Err(e) => Err(e),
                Ok(path) => if cs.len() > 2 && has_token_text(n, "or"@) {
                    match read(cs[2]) {
                        Err(e) => Err(e),
                        Ok(d) => Ok(AstView::Select(Box::new(x), path, Some(Box::new(d)))),
                    }
                } else {
                    Ok(AstView::Select(Box::new(x), path, None))
                },
            },
        }
    }
}

/// A test-for-attribute node read.
pub open spec fn read_has_attr(n: SyntaxNode) -> Result<AstView, ErrorView>
    decreases n, 1int,
{
    let cs = n.children@;
    if cs.len() < 2 {
        Err(ErrorView::Invalid("Has attr needs expression and attribute path"@))
    } else {
        match read(cs[0]) {
            Err(e) => Err(e),
            Ok(x) => match selected_path(cs[1]) {
                Err(e) => Err(e),
                Ok(path) => Ok(AstView::HasAttr(Box::new(x), path)),
            },
        }
    }
}

/// The text `prefix` followed by `rest`.
pub(crate) fn joined(prefix: &str, rest: &str) -> (r: String)
    ensures
        r@ == prefix@ + rest@,
{
    let mut v = text::chars_of(prefix);
    text::append_str(&mut v, rest);
    text::string_of(v.as_slice())
}

/// The structure error with the message.
fn invalid(msg: &str) -> (e: AstError)
    ensures
        error_view(e) == ErrorView::Invalid(msg@),
{
    AstError::InvalidStructure(text::string_from(msg))
}

/// The index of the first child of kind `a` or `b`; the length when there
/// is none.
pub(crate) fn first_kind_index(cs: &Vec<SyntaxNode>, a: u16, b: u16) -> (r: usize)
    ensures
        r == first_kind(cs@, a, b),
{
    let mut r: usize = 0;
    let mut i: usize = 0;
    while i < cs.len()
        invariant
            i <= cs@.len(),
            r == first_kind(cs@.take(i as int), a, b),
        decreases cs@.len() - i,
    {
        assert(cs@.take(i + 1).drop_last() =~= cs@.take(i as int));
        if r < i {
        } else if cs[i].kind == a || cs[i].kind == b {
            r = i;
        } else {
            r = i + 1;
        }
        i = i + 1;
    }
    assert(cs@.take(i as int) =~= cs@);
    r
}

/// The index of the first child of a kind other than `a` and `b`.
pub(crate) fn first_other_index(cs: &Vec<SyntaxNode>, a: u16, b: u16) -> (r: usize)
    ensures
        r == first_other(cs@, a, b),
{
    let mut r: usize = 0;
    let mut i: usize = 0;
    while i < cs.len()
        invariant
            i <= cs@.len(),
            r == first_other(cs@.take(i as int), a, b),
        decreases cs@.len() - i,
    {
        assert(cs@.take(i + 1).drop_last() =~= cs@.take(i as int));
        if r < i {
        } else if cs[i].kind != a && cs[i].kind != b {
            r = i;
        } else {
            r = i + 1;
        }
        i = i + 1;
    }
    assert(cs@.take(i as int) =~= cs@);
    r
}

/// The index of the first child after index `a` of a kind other than `k`.
pub(crate) fn first_other_after_index(cs: &Vec<SyntaxNode>, a: usize, k: u16) -> (r: usize)
    ensures
        r == first_other_after(cs@, a as int, k),
{
    let mut r: usize = 0;
    let mut i: usize = 0;
    while i < cs.len()
        invariant
            i <= cs@.len(),
            r == first_other_after(cs@.take(i as int), a as int, k),
        decreases cs@.len() - i,
    {
        assert(cs@.take(i + 1).drop_last() =~= cs@.take(i as int));
        if r < i {
        } else if i > a && cs[i].kind != k {
            r = i;
        } else {
            r = i + 1;
        }
        i = i + 1;
    }
    assert(cs@.take(i as int) =~= cs@);
    r
}

/// Whether a node has a direct token of the kind.
fn has_kind_token(n: &SyntaxNode, k: u16) -> (b: bool)
    ensures
        b == has_token_kind(*n, k),
{
    let mut i: usize = 0;
    while i < n.tokens.len()
        invariant
            i <= n.tokens@.len(),
            forall|j: int| 0 <= j < i ==> !token_of_kind(#[trigger] n.tokens@[j], k),
        decreases n.tokens@.len() - i,
    {
        match &n.tokens[i] {
            Some((kk, _)) => {
                if *kk == k {
                    assert(token_of_kind(n.tokens@[i as int], k));
                    return true;
                }
            },
            None => {},
        }
        i = i + 1;
    }
    false
}

/// Whether a node has a direct token with the text.
fn has_text_token(n: &SyntaxNode, t: &str) -> (b: bool)
    ensures
        b == has_token_text(*n, t@),
{
    let mut i: usize = 0;
    while i < n.tokens.len()
        invariant
            i <= n.tokens@.len(),
            forall|j: int| 0 <= j < i ==> !token_with_text(#[trigger] n.tokens@[j], t@),
        decreases n.tokens@.len() - i,
    {
        match &n.tokens[i] {
            Some((_, s)) => {
                let v = text::chars_of(s.as_str());
                if text::eq_str(v.as_slice(), t) {
                    assert(token_with_text(n.tokens@[i as int], t@));
                    return true;
                }
            },
            None => {},
        }
        i = i + 1;
    }
    false
}

/// The binary operator a token kind stands for.
fn binary_op_for(k: u16) -> (r: Option<BinaryOperator>)
    ensures
        r == binary_op_of_kind(k),
{
    if k == TOKEN_ADD {
        Some(BinaryOperator::Add)
    } else if k == TOKEN_SUB {
        Some(BinaryOperator::Subtract)
    } else if k == TOKEN_MUL {
        Some(BinaryOperator::Multiply)
    } else if k == TOKEN_DIV {
        Some(BinaryOperator::Divide)
    } else if k == TOKEN_EQUAL {
        Some(BinaryOperator::Equal)
    } else if k == TOKEN_NOT_EQUAL {
        Some(BinaryOperator::NotEqual)
    } else if k == TOKEN_LESS {
        Some(BinaryOperator::Less)
    } else if k == TOKEN_LESS_OR_EQ {
        Some(BinaryOperator::LessEqual)
    } else if k == TOKEN_MORE {
        Some(BinaryOperator::Greater)
    } else if k == TOKEN_MORE_OR_EQ {
        Some(BinaryOperator::GreaterEqual)
    } else if k == TOKEN_AND_AND {
        Some(BinaryOperator::And)
    } else if k == TOKEN_OR_OR {
        Some(BinaryOperator::Or)
    } else if k == TOKEN_IMPLICATION {
        Some(BinaryOperator::Implication)
    } else if k == TOKEN_CONCAT {
        Some(BinaryOperator::Concat)
    } else if k == TOKEN_UPDATE {
        Some(BinaryOperator::Update)
    } else {
        None
    }
}

/// The operator of the first direct token that stands for a binary
/// operator.
fn binary_op_of(n: &SyntaxNode) -> (r: Option<BinaryOperator>)
    ensures
        r == first_binary_op(n.tokens@),
{
    let mut r: Option<BinaryOperator> = None;
    let mut i: usize = 0;
    while i < n.tokens.len()
        invariant
            i <= n.tokens@.len(),
            r == first_binary_op(n.tokens@.take(i as int)),
        decreases n.tokens@.len() - i,
    {
        assert(n.tokens@.take(i + 1).drop_last() =~= n.tokens@.take(i as int));
        if r.is_none() {
            match &n.tokens[i] {
                Some((k, _)) => {
                    r = binary_op_for(*k);
                },
                None => {},
            }
        }
        i = i + 1;
    }
    assert(n.tokens@.take(i as int) =~= n.tokens@);
    r
}

/// The operator of the first direct token that stands for a unary
/// operator.
fn unary_op_of(n: &SyntaxNode) -> (r: Option<UnaryOperator>)
    ensures
        r == first_unary_op(n.tokens@),
{
    let mut r: Option<UnaryOperator> = None;
    let mut i: usize = 0;
    while i < n.tokens.len()
        invariant
            i <= n.tokens@.len(),
            r == first_unary_op(n.tokens@.take(i as int)),
        decreases n.tokens@.len() - i,
    {
        assert(n.tokens@.take(i + 1).drop_last() =~= n.tokens@.take(i as int));
        if r.is_none() {
            match &n.tokens[i] {
                Some((k, _)) => {
                    if *k == TOKEN_INVERT {
                        r = Some(UnaryOperator::Not);
                    } else if *k == TOKEN_SUB {
                        r = Some(UnaryOperator::Negate);
                    }
                },
                None => {},
            }
        }
        i = i + 1;
    }
    assert(n.tokens@.take(i as int) =~= n.tokens@);
    r
}

/// The content of a string node.
fn string_node_content(n: &SyntaxNode) -> (r: String)
    ensures
        r@ == string_content(*n),
{
    let mut c: Vec<char> = Vec::new();
    let mut i: usize = 0;
    while i < n.tokens.len()
        invariant
            i <= n.tokens@.len(),
            c@ == string_parts(n.tokens@.take(i as int)),
        decreases n.tokens@.len() - i,
    {
        assert(n.tokens@.take(i + 1).drop_last() =~= n.tokens@.take(i as int));
        match &n.tokens[i] {
            Some((k, s)) => {
                if *k == TOKEN_STRING_CONTENT {
                    text::append_str(&mut c, s.as_str());
                }
            },
            None => {},
        }
        i = i + 1;
    }
    assert(n.tokens@.take(i as int) =~= n.tokens@);
    if c.len() > 0 {
        return text::string_of(c.as_slice());
    }
    let t = text::chars_of(n.text.as_str());
    let len = t.len();
    if len > 1 && t[0] == '"' && t[len - 1] == '"' {
        let inner = text::slice_vec(t.as_slice(), 1, len - 1);
        text::string_of(inner.as_slice())
    } else if len > 3 && t[0] == '\'' && t[1] == '\'' && t[len - 2] == '\'' && t[len - 1] == '\'' {
        let inner = text::slice_vec(t.as_slice(), 2, len - 2);
        text::string_of(inner.as_slice())
    } else {
        n.text.clone()
    }
}

/// An identifier's text read as an expression.
pub(crate) fn ident_node(t: &String) -> (r: NixAst)
    ensures
        ast_view(r) == ident_view(t@),
{
    let v = text::chars_of(t.as_str());
    if text::eq_str(v.as_slice(), "true") {
        NixAst::Bool(true)
    } else if text::eq_str(v.as_slice(), "false") {
        NixAst::Bool(false)
    } else if text::eq_str(v.as_slice(), "null") {
        NixAst::Null
    } else {
        NixAst::Identifier(t.clone())
    }
}

/// An integer literal's text read as an expression.
fn integer_node(t: &String) -> (r: Result<NixAst, AstError>)
    ensures
        outcome_view(r) == integer_view(t@),
{
    match parse_integer(t.as_str()) {
        Ok(v) => Ok(NixAst::Integer(v)),
        Err(m) => Err(AstError::ParseError(joined("Invalid integer: ", m.as_str()))),
    }
}

/// A literal node read as an expression.
fn literal_node(n: &SyntaxNode) -> (r: Result<NixAst, AstError>)
    requires
        n.kind <= LAST_KIND,
    ensures
        outcome_view(r) == read_literal(*n),
{
    match n.first_token {
        None => Err(invalid("Literal node has no tokens")),
        Some(tk) => {
            if tk == TOKEN_INTEGER {
                integer_node(&n.text)
            } else if tk == TOKEN_FLOAT {
                Ok(NixAst::Float(n.text.clone()))
            } else {
                let i = first_kind_index(&n.children, NODE_STRING, NODE_PATH);
                if i < n.children.len() {
                    if n.children[i].kind == NODE_STRING {
                        Ok(NixAst::String(string_node_content(&n.children[i])))
                    } else {
                        Ok(NixAst::Path(n.children[i].text.clone()))
                    }
                } else {
                    let v = text::chars_of(n.text.as_str());
                    if text::eq_str(v.as_slice(), "true") {
                        Ok(NixAst::Bool(true))
                    } else if text::eq_str(v.as_slice(), "false") {
                        Ok(NixAst::Bool(false))
                    } else if text::eq_str(v.as_slice(), "null") {
                        Ok(NixAst::Null)
                    } else {
                        let name = kind_name(n.kind);
                        Err(AstError::UnsupportedNode(joined("Unknown literal: ", name.as_str())))
                    }
                }
            }
        },
    }
}

/// The name bound by a pattern's last `@` binding that names one.
fn pattern_bind_of(p: &SyntaxNode) -> (r: Option<String>)
    ensures
        match r {
            Some(s) => pattern_bind(p.children@) == Some(s@),
            None => pattern_bind(p.children@) is None,
        },
{
    let cs = &p.children;
    let mut r: Option<String> = None;
    let mut i: usize = 0;
    while i < cs.len()
        invariant
            i <= cs@.len(),
            match r {
                Some(s) => pattern_bind(cs@.take(i as int)) == Some(s@),
                None => pattern_bind(cs@.take(i as int)) is None,
            },
        decreases cs@.len() - i,
    {
        assert(cs@.take(i + 1).drop_last() =~= cs@.take(i as int));
        let c = &cs[i];
        let j = first_kind_index(&c.children, NODE_IDENT, NODE_IDENT);
        if c.kind == NODE_PAT_BIND && j < c.children.len() {
            r = Some(c.children[j].text.clone());
        }
        i = i + 1;
    }
    assert(cs@.take(i as int) =~= cs@);
    r
}

/// The texts of the identifier children of a node.
fn ident_texts_of(n: &SyntaxNode) -> (r: Vec<String>)
    ensures
        r@.map_values(|s: String| s@) == ident_texts(n.children@),
{
    let cs = &n.children;
    let mut r: Vec<String> = Vec::new();
    let mut i: usize = 0;
    while i < cs.len()
        invariant
            i <= cs@.len(),
            r@.map_values(|s: String| s@) == ident_texts(cs@.take(i as int)),
        decreases cs@.len() - i,
    {
        assert(cs@.take(i + 1).drop_last() =~= cs@.take(i as int));
        if cs[i].kind == NODE_IDENT {
            let ghost before = r@;
            r.push(cs[i].text.clone());
            assert(r@.map_values(|s: String| s@) =~= before.map_values(|s: String| s@).push(
                cs@[i as int].text@,
            ));
        }
        i = i + 1;
    }
    assert(cs@.take(i as int) =~= cs@);
    r
}

/// The walk of one child of a list of nodes stands, unchanged, at some
/// offset in the walk of the list.
proof fn lemma_flat_list_piece(cs: Seq<SyntaxNode>, j: int) -> (o: int)
    requires
        0 <= j < cs.len(),
    ensures
        0 <= o,
        o + flat(cs[j]).len() <= flat_list(cs).len(),
        forall|k: int| 0 <= k < flat(cs[j]).len() ==> flat_list(cs)[o + k] == #[trigger] flat(cs[j])[k],
    decreases cs.len(),
{
    let a = flat_list(cs.drop_last());
    assert(flat_list(cs) == a + flat(cs.last()));
    if j == cs.len() - 1 {
        assert forall|k: int| 0 <= k < flat(cs[j]).len() implies flat_list(cs)[a.len() + k]
            == #[trigger] flat(cs[j])[k] by {
            assert((a + flat(cs.last()))[a.len() + k] == flat(cs.last())[k]);
        }
        a.len() as int
    } else {
        let o = lemma_flat_list_piece(cs.drop_last(), j);
        assert(cs.drop_last()[j] == cs[j]);
        assert forall|k: int| 0 <= k < flat(cs[j]).len() implies flat_list(cs)[o + k]
            == #[trigger] flat(cs[j])[k] by {
            assert(flat(cs.drop_last()[j])[k] == a[o + k]);
            assert((a + flat(cs.last()))[o + k] == a[o + k]);
        }
        o
    }
}

/// A tree whose walk holds only kinds that rnix has holds only such kinds.
pub proof fn lemma_kinds_valid_from_walk(n: SyntaxNode)
    requires
        forall|i: int| 0 <= i < flat(n).len() ==> (#[trigger] flat(n)[i]).1 <= LAST_KIND,
    ensures
        kinds_valid(n),
    decreases n,
{
    let inner = flat_list(n.children@);
    assert(flat(n) == seq![enter_model(n)] + inner + seq![crate::syntax::leave_model()]);
    assert(flat(n)[0] == enter_model(n));
    assert forall|j: int| 0 <= j < n.children@.len() implies kinds_valid(
        #[trigger] n.children@[j],
    ) by {
        let c = n.children@[j];
        let o = lemma_flat_list_piece(n.children@, j);
        assert forall|i: int| 0 <= i < flat(c).len() implies (#[trigger] flat(c)[i]).1
            <= LAST_KIND by {
            assert(flat(c)[i] == inner[o + i]);
            assert(flat(n)[1 + o + i] == inner[o + i]);
        }
        lemma_kinds_valid_from_walk(c);
    }
}

/// A binding as plain values.
pub open spec fn binding_view(b: Binding) -> BindingView {
    BindingView {
        path: segments_view(b.attr_path.segments@),
        value: match b.value {
            BindingValue::Value(v) => ValueView::Value(ast_view(v)),
            BindingValue::Inherit { from, attrs } => ValueView::Inherit(
                match from {
                    Some(x) => Some(ast_view(x)),
                    None => None,
                },
                crate::expression::string_texts(attrs@),
            ),
        },
    }
}

/// A path segment as plain values.
pub open spec fn segment_view(x: AttrPathSegment) -> SegmentView {
    match x {
        AttrPathSegment::Identifier(s) => SegmentView::Identifier(s@),
        AttrPathSegment::Dynamic(e) => SegmentView::Dynamic(ast_view(e)),
    }
}

/// A pattern field as plain values.
pub open spec fn field_view(f: PatternField) -> (Seq<char>, Option<AstView>) {
    (
        f.name@,
        match f.default {
            Some(d) => Some(ast_view(d)),
            None => None,
        },
    )
}

/// The outcome of reading a binding as plain values.
pub open spec fn binding_outcome(r: Result<Binding, AstError>) -> Result<BindingView, ErrorView> {
    match r {
        Ok(b) => Ok(binding_view(b)),
        Err(e) => Err(error_view(e)),
    }
}

/// The outcome of reading bindings as plain values.
pub open spec fn bindings_outcome(r: Result<Vec<Binding>, AstError>) -> Result<Seq<BindingView>, ErrorView> {
    match r {
        Ok(v) => Ok(bindings_view(v@)),
        Err(e) => Err(error_view(e)),
    }
}

/// The outcome of reading an attribute path as plain values.
pub open spec fn path_outcome(r: Result<AttrPath, AstError>) -> Result<Seq<SegmentView>, ErrorView> {
    match r {
        Ok(p) => Ok(segments_view(p.segments@)),
        Err(e) => Err(error_view(e)),
    }
}

/// The outcome of reading a pattern field as plain values.
pub open spec fn field_outcome(r: Result<PatternField, AstError>) -> Result<(Seq<char>, Option<AstView>), ErrorView> {
    match r {
        Ok(f) => Ok(field_view(f)),
        Err(e) => Err(error_view(e)),
    }
}

/// An optional expression as plain values.
pub open spec fn option_view(r: Option<NixAst>) -> Option<AstView> {
    match r {
        Some(a) => Some(ast_view(a)),
        None => None,
    }
}

pub(crate) proof fn lemma_items_view_push(s: Seq<NixAst>, x: NixAst)
    ensures
        items_view(s.push(x)) == items_view(s).push(ast_view(x)),
{
    assert(s.push(x).drop_last() =~= s);
}

pub(crate) proof fn lemma_bindings_view_push(s: Seq<Binding>, b: Binding)
    ensures
        bindings_view(s.push(b)) == bindings_view(s).push(binding_view(b)),
{
    assert(s.push(b).drop_last() =~= s);
}

proof fn lemma_segments_view_push(s: Seq<AttrPathSegment>, x: AttrPathSegment)
    ensures
        segments_view(s.push(x)) == segments_view(s).push(segment_view(x)),
{
    assert(s.push(x).drop_last() =~= s);
}

proof fn lemma_fields_view_push(s: Seq<PatternField>, f: PatternField)
    ensures
        fields_view(s.push(f)) == fields_view(s).push(field_view(f)),
{
    assert(s.push(f).drop_last() =~= s);
}

proof fn lemma_segments_view_len(s: Seq<AttrPathSegment>)
    ensures
        segments_view(s).len() == s.len(),
    decreases s.len(),
{
    if s.len() > 0 {
        lemma_segments_view_len(s.drop_last());
    }
}

proof fn lemma_bindings_view_append(a: Seq<Binding>, b: Seq<Binding>)
    ensures
        bindings_view(a + b) == bindings_view(a) + bindings_view(b),
    decreases b.len(),
{
    if b.len() == 0 {
        assert(a + b =~= a);
        assert(bindings_view(a) + bindings_view(b) =~= bindings_view(a));
    } else {
        lemma_bindings_view_append(a, b.drop_last());
        assert((a + b).drop_last() =~= a + b.drop_last());
        assert(bindings_view(a + b) =~= bindings_view(a) + bindings_view(b));
    }
}

/// The path of one name.
pub(crate) fn single_segment(name: String) -> (p: AttrPath)
    ensures
        segments_view(p.segments@) == seq![SegmentView::Identifier(name@)],
{
    let mut segments: Vec<AttrPathSegment> = Vec::new();
    segments.push(AttrPathSegment::Identifier(name));
    proof {
        lemma_segments_view_push(Seq::empty(), segments@[0]);
        assert(Seq::<AttrPathSegment>::empty().push(segments@[0]) =~= segments@);
    }
    AttrPath { segments }
}

/// Reads a syntax node as an expression, by the rules of `read`.
pub fn from_syntax_node(node: &SyntaxNode) -> (r: Result<NixAst, AstError>)
    requires
        kinds_valid(*node),
    ensures
        outcome_view(r) == read(*node),
    decreases node, 2int,
{
    let k = node.kind;
    if k == NODE_LITERAL {
        literal_node(node)
    } else if k == NODE_IDENT {
        Ok(ident_node(&node.text))
    } else if k == NODE_ATTR_SET {
        let recursive = has_kind_token(node, TOKEN_REC);
        let bindings = bindings_from(node, node.children.len());
        assert(node.children@.take(node.children@.len() as int) =~= node.children@);
        Ok(NixAst::AttrSet { recursive, bindings })
    } else if k == NODE_LIST {
        Ok(NixAst::List(list_from(node)))
    } else if k == NODE_LAMBDA {
        function_from(node)
    } else if k == NODE_APPLY {
        apply_from(node)
    } else if k == NODE_LET_IN {
        let_from(node)
    } else if k == NODE_IF_ELSE {
        if_from(node)
    } else if k == NODE_WITH {
        with_from(node)
    } else if k == NODE_ASSERT {
        assert_from(node)
    } else if k == NODE_BIN_OP {
        binary_from(node)
    } else if k == NODE_UNARY_OP {
        unary_from(node)
    } else if k == NODE_SELECT {
        select_from(node)
    } else if k == NODE_HAS_ATTR {
        has_attr_from(node)
    } else if k == NODE_STRING {
        Ok(NixAst::String(string_node_content(node)))
    } else if k == NODE_PATH {
        Ok(NixAst::Path(node.text.clone()))
    } else if k == NODE_PAREN {
        first_child_from(node, "Empty parentheses")
    } else if k == NODE_ROOT {
        first_child_from(node, "Empty root node")
    } else if k == NODE_INHERIT {
        Err(invalid("Inherit must be inside an attribute set"))
    } else if k == TOKEN_INTEGER {
        integer_node(&node.text)
    } else if k == TOKEN_FLOAT {
        Ok(NixAst::Float(node.text.clone()))
    } else {
        let v = text::chars_of(node.text.as_str());
        if text::eq_str(v.as_slice(), "true") {
            Ok(NixAst::Bool(true))
        } else if text::eq_str(v.as_slice(), "false") {
            Ok(NixAst::Bool(false))
        } else if text::eq_str(v.as_slice(), "null") {
            Ok(NixAst::Null)
        } else {
            match first_ok_from(node) {
                Some(a) => Ok(a),
                None => {
                    let name = kind_name(k);
                    Err(AstError::UnsupportedNode(joined("Unsupported node kind: ", name.as_str())))
                },
            }
        }
    }
}

/// The first child read, or the structure error with the message where
/// there is no child.
fn first_child_from(n: &SyntaxNode, msg: &str) -> (r: Result<NixAst, AstError>)
    requires
        kinds_valid(*n),
    ensures
        outcome_view(r) == read_first(*n, msg@),
    decreases n, 1int,
{
    if n.children.len() > 0 {
        assert(kinds_valid(n.children@[0]));
        from_syntax_node(&n.children[0])
    } else {
        Err(invalid(msg))
    }
}

/// The first child that reads without error, read.
fn first_ok_from(n: &SyntaxNode) -> (r: Option<NixAst>)
    requires
        kinds_valid(*n),
    ensures
        option_view(r) == first_ok(n.children@),
    decreases n, 0int,
{
    let mut r: Option<NixAst> = None;
    let mut i: usize = 0;
    while i < n.children.len()
        invariant
            i <= n.children@.len(),
            kinds_valid(*n),
            option_view(r) == first_ok(n.children@.take(i as int)),
        decreases n.children@.len() - i,
    {
        assert(n.children@.take(i + 1).drop_last() =~= n.children@.take(i as int));
        assert(kinds_valid(n.children@[i as int]));
        if r.is_none() {
            match from_syntax_node(&n.children[i]) {
                Ok(a) => {
                    r = Some(a);
                },
                Err(_) => {},
            }
        }
        i = i + 1;
    }
    assert(n.children@.take(i as int) =~= n.children@);
    r
}

/// The children that read without error, read, in order.
fn list_from(n: &SyntaxNode) -> (r: Vec<NixAst>)
    requires
        kinds_valid(*n),
    ensures
        items_view(r@) == list_items(n.children@),
    decreases n, 0int,
{
    let mut r: Vec<NixAst> = Vec::new();
    let mut i: usize = 0;
    while i < n.children.len()
        invariant
            i <= n.children@.len(),
            kinds_valid(*n),
            items_view(r@) == list_items(n.children@.take(i as int)),
        decreases n.children@.len() - i,
    {
        assert(n.children@.take(i + 1).drop_last() =~= n.children@.take(i as int));
        assert(kinds_valid(n.children@[i as int]));
        match from_syntax_node(&n.children[i]) {
            Ok(a) => {
                proof {
                    lemma_items_view_push(r@, a);
                }
                r.push(a);
            },
            Err(_) => {},
        }
        i = i + 1;
    }
    assert(n.children@.take(i as int) =~= n.children@);
    r
}

/// The bindings of the binding and inherit children among the first `upto`
/// children, in order.
fn bindings_from(n: &SyntaxNode, upto: usize) -> (r: Vec<Binding>)
    requires
        kinds_valid(*n),
        upto <= n.children@.len(),
    ensures
        bindings_view(r@) == bindings_of(n.children@.take(upto as int)),
    decreases n, 0int,
{
    let mut r: Vec<Binding> = Vec::new();
    let mut i: usize = 0;
    while i < upto
        invariant
            i <= upto,
            upto <= n.children@.len(),
            kinds_valid(*n),
            bindings_view(r@) == bindings_of(n.children@.take(i as int)),
        decreases upto - i,
    {
        assert(n.children@.take(i + 1).drop_last() =~= n.children@.take(i as int));
        assert(kinds_valid(n.children@[i as int]));
        if n.children[i].kind == NODE_ATTRPATH_VALUE {
            match binding_from(&n.children[i]) {
                Ok(b) => {
                    proof {
                        lemma_bindings_view_push(r@, b);
                    }
                    r.push(b);
                },
                Err(_) => {},
            }
        } else if n.children[i].kind == NODE_INHERIT {
            match inherit_from(&n.children[i]) {
                Ok(bs) => {
                    let mut bs = bs;
                    proof {
                        lemma_bindings_view_append(r@, bs@);
                    }
                    r.append(&mut bs);
                },
                Err(_) => {},
            }
        }
        i = i + 1;
    }
    r
}

/// A binding child read.
fn binding_from(b: &SyntaxNode) -> (r: Result<Binding, AstError>)
    requires
        kinds_valid(*b),
    ensures
        binding_outcome(r) == read_binding(*b),
    decreases b, 1int,
{
    match last_path_from(b) {
        Err(e) => Err(e),
        Ok(None) => Err(invalid("Binding missing attribute path")),
        Ok(Some(path)) => {
            let a = first_kind_index(&b.children, NODE_ATTRPATH, NODE_ATTRPATH);
            let v = first_other_after_index(&b.children, a, NODE_ATTRPATH);
            if v < b.children.len() {
                assert(kinds_valid(b.children@[v as int]));
                match from_syntax_node(&b.children[v]) {
                    Ok(x) => Ok(Binding { attr_path: path, value: BindingValue::Value(x) }),
                    Err(e) => Err(e),
                }
            } else {
                Err(invalid("Binding missing value"))
            }
        },
    }
}

/// The attribute path of the last path child; the first path that does not
/// read is the error.
fn last_path_from(b: &SyntaxNode) -> (r: Result<Option<AttrPath>, AstError>)
    requires
        kinds_valid(*b),
    ensures
        match r {
            Ok(Some(p)) => last_path(b.children@) == Ok::<Option<Seq<SegmentView>>, ErrorView>(
                Some(segments_view(p.segments@)),
            ),
            Ok(None) => last_path(b.children@) == Ok::<Option<Seq<SegmentView>>, ErrorView>(None),
            Err(e) => last_path(b.children@) == Err::<Option<Seq<SegmentView>>, ErrorView>(
                error_view(e),
            ),
        },
    decreases b, 0int,
{
    let mut r: Option<AttrPath> = None;
    let mut err: Option<AstError> = None;
    let mut i: usize = 0;
    while i < b.children.len()
        invariant
            i <= b.children@.len(),
            kinds_valid(*b),
            match err {
                Some(e) => last_path(b.children@.take(i as int)) == Err::<
                    Option<Seq<SegmentView>>,
                    ErrorView,
                >(error_view(e)),
                None => match r {
                    Some(p) => last_path(b.children@.take(i as int)) == Ok::<
                        Option<Seq<SegmentView>>,
                        ErrorView,
                    >(Some(segments_view(p.segments@))),
                    None => last_path(b.children@.take(i as int)) == Ok::<
                        Option<Seq<SegmentView>>,
                        ErrorView,
                    >(None),
                },
            },
        decreases b.children@.len() - i,
    {
        assert(b.children@.take(i + 1).drop_last() =~= b.children@.take(i as int));
        assert(kinds_valid(b.children@[i as int]));
        if err.is_none() && b.children[i].kind == NODE_ATTRPATH {
            match attr_path_from(&b.children[i]) {
                Ok(p) => {
                    r = Some(p);
                },
                Err(e) => {
                    err = Some(e);
                },
            }
        }
        i = i + 1;
    }
    assert(b.children@.take(i as int) =~= b.children@);
    match err {
        Some(e) => Err(e),
        None => Ok(r),
    }
}

/// An attribute path child read.
fn attr_path_from(p: &SyntaxNode) -> (r: Result<AttrPath, AstError>)
    requires
        kinds_valid(*p),
    ensures
        path_outcome(r) == read_attr_path(*p),
    decreases p, 1int,
{
    match segments_from(p) {
        Err(e) => Err(e),
        Ok(s) => {
            proof {
                lemma_segments_view_len(s@);
            }
            if s.len() == 0 {
                Err(invalid("Empty attribute path"))
            } else {
                Ok(AttrPath { segments: s })
            }
        },
    }
}

/// The segments of an attribute path's children.
fn segments_from(p: &SyntaxNode) -> (r: Result<Vec<AttrPathSegment>, AstError>)
    requires
        kinds_valid(*p),
    ensures
        match r {
            Ok(s) => path_segments(p.children@) == Ok::<Seq<SegmentView>, ErrorView>(
                segments_view(s@),
            ),
            Err(e) => path_segments(p.children@) == Err::<Seq<SegmentView>, ErrorView>(
                error_view(e),
            ),
        },
    decreases p, 0int,
{
    let mut out: Vec<AttrPathSegment> = Vec::new();
    let mut err: Option<AstError> = None;
    let mut i: usize = 0;
    while i < p.children.len()
        invariant
            i <= p.children@.len(),
            kinds_valid(*p),
            match err {
                Some(e) => path_segments(p.children@.take(i as int)) == Err::<
                    Seq<SegmentView>,
                    ErrorView,
                >(error_view(e)),
                None => path_segments(p.children@.take(i as int)) == Ok::<
                    Seq<SegmentView>,
                    ErrorView,
                >(segments_view(out@)),
            },
        decreases p.children@.len() - i,
    {
        assert(p.children@.take(i + 1).drop_last() =~= p.children@.take(i as int));
        assert(kinds_valid(p.children@[i as int]));
        if err.is_none() {
            let k = p.children[i].kind;
            if k == NODE_IDENT {
                let x = AttrPathSegment::Identifier(p.children[i].text.clone());
                proof {
                    lemma_segments_view_push(out@, x);
                }
                out.push(x);
            } else if k == NODE_STRING {
                let x = AttrPathSegment::Identifier(string_node_content(&p.children[i]));
                proof {
                    lemma_segments_view_push(out@, x);
                }
                out.push(x);
            } else if k == NODE_DYNAMIC {
                match first_child_from(&p.children[i], "Empty dynamic attribute") {
                    Ok(e) => {
                        let x = AttrPathSegment::Dynamic(e);
                        proof {
                            lemma_segments_view_push(out@, x);
                        }
                        out.push(x);
                    },
                    Err(e) => {
                        err = Some(e);
                    },
                }
            }
        }
        i = i + 1;
    }
    assert(p.children@.take(i as int) =~= p.children@);
    match err {
        Some(e) => Err(e),
        None => Ok(out),
    }
}

/// An inherit child read: one binding for each name.
fn inherit_from(n: &SyntaxNode) -> (r: Result<Vec<Binding>, AstError>)
    requires
        kinds_valid(*n),
    ensures
        bindings_outcome(r) == read_inherit(*n),
    decreases n, 1int,
{
    let i = first_kind_index(&n.children, NODE_INHERIT_FROM, NODE_INHERIT_FROM);
    let has_from = i < n.children.len() && n.children[i].children.len() > 0;
    let ghost from_view: Option<AstView> = None;
    if has_from {
        assert(kinds_valid(n.children@[i as int]));
        assert(kinds_valid(n.children@[i as int].children@[0]));
        match from_syntax_node(&n.children[i].children[0]) {
            Ok(x) => {
                proof {
                    from_view = Some(ast_view(x));
                }
            },
            Err(e) => {
                return Err(e);
            },
        }
    }
    let names = ident_texts_of(n);
    let ghost texts = names@.map_values(|s: String| s@);
    let mut r: Vec<Binding> = Vec::new();
    let mut j: usize = 0;
    while j < names.len()
        invariant
            j <= names@.len(),
            kinds_valid(*n),
            texts == names@.map_values(|s: String| s@),
            has_from ==> i < n.children@.len() && n.children@[i as int].children@.len() > 0
                && read(n.children@[i as int].children@[0]) == Ok::<AstView, ErrorView>(
                from_view->Some_0),
            has_from ==> from_view is Some,
            !has_from ==> from_view is None,
            bindings_view(r@) == texts.take(j as int).map_values(
                |name: Seq<char>| inherit_binding(from_view, name),
            ),
        decreases names@.len() - j,
    {
        let from: Option<NixAst> = if has_from {
            assert(kinds_valid(n.children@[i as int]));
            assert(kinds_valid(n.children@[i as int].children@[0]));
            match from_syntax_node(&n.children[i].children[0]) {
                Ok(x) => Some(x),
                Err(e) => {
                    return Err(e);
                },
            }
        } else {
            None
        };
        let mut attrs: Vec<String> = Vec::new();
        attrs.push(names[j].clone());
        let b = Binding {
            attr_path: single_segment(names[j].clone()),
            value: BindingValue::Inherit { from, attrs },
        };
        proof {
            assert(crate::expression::string_texts(attrs@) =~= seq![texts[j as int]]);
            assert(binding_view(b) == inherit_binding(from_view, texts[j as int]));
            lemma_bindings_view_push(r@, b);
            assert(texts.take(j + 1).map_values(|name: Seq<char>| inherit_binding(from_view, name))
                =~= texts.take(j as int).map_values(
                |name: Seq<char>| inherit_binding(from_view, name),
            ).push(inherit_binding(from_view, texts[j as int])));
        }
        r.push(b);
        j = j + 1;
    }
    assert(texts.take(j as int) =~= texts);
    Ok(r)
}

/// A lambda child read.
fn function_from(n: &SyntaxNode) -> (r: Result<NixAst, AstError>)
    requires
        kinds_valid(*n),
    ensures
        outcome_view(r) == read_function(*n),
    decreases n, 1int,
{
    if n.children.len() == 0 {
        return Err(invalid("Function has no children"));
    }
    assert(kinds_valid(n.children@[0]));
    let k0 = n.children[0].kind;
    let param = if k0 == NODE_IDENT || k0 == NODE_IDENT_PARAM {
        FunctionParam::Identifier(n.children[0].text.clone())
    } else if k0 == NODE_PATTERN {
        pattern_from(&n.children[0])
    } else {
        return Err(invalid("Invalid function parameter"));
    };
    assert(k0 == NODE_PATTERN ==> read_pattern(n.children@[0]) == param_view(param));
    assert(k0 == NODE_IDENT || k0 == NODE_IDENT_PARAM ==> ParamView::Identifier(n.children@[0].text@) == param_view(param));
    if n.children.len() < 2 {
        return Err(invalid("Function missing body"));
    }
    assert(kinds_valid(n.children@[1]));
    match from_syntax_node(&n.children[1]) {
        Ok(b) => {
            let r = NixAst::Function { param, body: Box::new(b) };
            assert(ast_view(r) == AstView::Function(param_view(param), Box::new(ast_view(b))));
            Ok(r)
        },
        Err(e) => Err(e),
    }
}

/// A pattern child read.
fn pattern_from(p: &SyntaxNode) -> (r: FunctionParam)
    requires
        kinds_valid(*p),
    ensures
        param_view(r) == read_pattern(*p),
    decreases p, 1int,
{
    let fields = pattern_fields_from(p);
    let bind = pattern_bind_of(p);
    let ellipsis = has_kind_token(p, TOKEN_ELLIPSIS);
    FunctionParam::Pattern { fields, bind, ellipsis }
}

/// The fields of the pattern entry children that read.
fn pattern_fields_from(p: &SyntaxNode) -> (r: Vec<PatternField>)
    requires
        kinds_valid(*p),
    ensures
        fields_view(r@) == pattern_fields(p.children@),
    decreases p, 0int,
{
    let mut r: Vec<PatternField> = Vec::new();
    let mut i: usize = 0;
    while i < p.children.len()
        invariant
            i <= p.children@.len(),
            kinds_valid(*p),
            fields_view(r@) == pattern_fields(p.children@.take(i as int)),
        decreases p.children@.len() - i,
    {
        assert(p.children@.take(i + 1).drop_last() =~= p.children@.take(i as int));
        assert(kinds_valid(p.children@[i as int]));
        if p.children[i].kind == NODE_PAT_ENTRY {
            match pattern_field_from(&p.children[i]) {
                Ok(f) => {
                    proof {
                        lemma_fields_view_push(r@, f);
                    }
                    r.push(f);
                },
                Err(_) => {},
            }
        }
        i = i + 1;
    }
    assert(p.children@.take(i as int) =~= p.children@);
    r
}

/// A pattern entry child read.
fn pattern_field_from(f: &SyntaxNode) -> (r: Result<PatternField, AstError>)
    requires
        kinds_valid(*f),
    ensures
        field_outcome(r) == read_pattern_field(*f),
    decreases f, 1int,
{
    if f.children.len() == 0 {
        Err(invalid("Pattern field has no children"))
    } else if f.children[0].kind != NODE_IDENT {
        Err(invalid("Pattern field missing name"))
    } else if f.children.len() > 1 {
        assert(kinds_valid(f.children@[1]));
        match from_syntax_node(&f.children[1]) {
            Ok(d) => Ok(PatternField { name: f.children[0].text.clone(), default: Some(d) }),
            Err(e) => Err(e),
        }
    } else {
        Ok(PatternField { name: f.children[0].text.clone(), default: None })
    }
}

/// An application child read; `import` applied is an import.
fn apply_from(n: &SyntaxNode) -> (r: Result<NixAst, AstError>)
    requires
        kinds_valid(*n),
    ensures
        outcome_view(r) == read_apply(*n),
    decreases n, 1int,
{
    if n.children.len() < 2 {
        return Err(invalid("Apply needs at least 2 children"));
    }
    assert(kinds_valid(n.children@[0]));
    assert(kinds_valid(n.children@[1]));
    let first = from_syntax_node(&n.children[0]);
    let is_import = match &first {
        Ok(NixAst::Identifier(name)) => {
            let v = text::chars_of(name.as_str());
            text::eq_str(v.as_slice(), "import")
        },
        _ => false,
    };
    if is_import {
        match from_syntax_node(&n.children[1]) {
            Ok(x) => Ok(NixAst::Import(Box::new(x))),
            Err(e) => Err(e),
        }
    } else {
        match first {
            Err(e) => Err(e),
            Ok(f) => match from_syntax_node(&n.children[1]) {
                Err(e) => Err(e),
                Ok(a) => Ok(NixAst::Apply { function: Box::new(f), argument: Box::new(a) }),
            },
        }
    }
}

/// A `let` child read.
fn let_from(n: &SyntaxNode) -> (r: Result<NixAst, AstError>)
    requires
        kinds_valid(*n),
    ensures
        outcome_view(r) == read_let(*n),
    decreases n, 1int,
{
    let len = n.children.len();
    let k = first_other_index(&n.children, NODE_ATTRPATH_VALUE, NODE_INHERIT);
    let has_in = has_text_token(n, "in");
    if has_in && k < len {
        assert(kinds_valid(n.children@[k as int]));
        match from_syntax_node(&n.children[k]) {
            Err(e) => Err(e),
            Ok(x) => {
                let bindings = bindings_from(n, k);
                Ok(NixAst::Let { bindings, body: Box::new(x) })
            },
        }
    } else if len > 0 && n.children[len - 1].kind != NODE_ATTRPATH_VALUE && n.children[len
        - 1].kind != NODE_INHERIT {
        assert(kinds_valid(n.children@[len - 1]));
        match from_syntax_node(&n.children[len - 1]) {
            Err(e) => Err(e),
            Ok(x) => {
                let bindings = bindings_from(n, len);
                assert(n.children@.take(len as int) =~= n.children@);
                Ok(NixAst::Let { bindings, body: Box::new(x) })
            },
        }
    } else {
        Err(invalid("Let expression missing body"))
    }
}

/// An `if` child read.
fn if_from(n: &SyntaxNode) -> (r: Result<NixAst, AstError>)
    requires
        kinds_valid(*n),
    ensures
        outcome_view(r) == read_if(*n),
    decreases n, 1int,
{
    if n.children.len() < 3 {
        return Err(invalid("If expression needs condition, then, and else parts"));
    }
    assert(kinds_valid(n.children@[0]));
    assert(kinds_valid(n.children@[1]));
    assert(kinds_valid(n.children@[2]));
    let c = match from_syntax_node(&n.children[0]) {
        Ok(c) => c,
        Err(e) => return Err(e),
    };
    let t = match from_syntax_node(&n.children[1]) {
        Ok(t) => t,
        Err(e) => return Err(e),
    };
    let f = match from_syntax_node(&n.children[2]) {
        Ok(f) => f,
        Err(e) => return Err(e),
    };
    Ok(NixAst::If { condition: Box::new(c), then_branch: Box::new(t), else_branch: Box::new(f) })
}

/// A `with` child read.
fn with_from(n: &SyntaxNode) -> (r: Result<NixAst, AstError>)
    requires
        kinds_valid(*n),
    ensures
        outcome_view(r) == read_with(*n),
    decreases n, 1int,
{
    if n.children.len() < 2 {
        return Err(invalid("With expression needs namespace and body"));
    }
    assert(kinds_valid(n.children@[0]));
    assert(kinds_valid(n.children@[1]));
    let a = match from_syntax_node(&n.children[0]) {
        Ok(a) => a,
        Err(e) => return Err(e),
    };
    let b = match from_syntax_node(&n.children[1]) {
        Ok(b) => b,
        Err(e) => return Err(e),
    };
    Ok(NixAst::With { namespace: Box::new(a), body: Box::new(b) })
}

/// An `assert` child read.
fn assert_from(n: &SyntaxNode) -> (r: Result<NixAst, AstError>)
    requires
        kinds_valid(*n),
    ensures
        outcome_view(r) == read_assert(*n),
    decreases n, 1int,
{
    if n.children.len() < 2 {
        return Err(invalid("Assert expression needs condition and body"));
    }
    assert(kinds_valid(n.children@[0]));
    assert(kinds_valid(n.children@[1]));
    let a = match from_syntax_node(&n.children[0]) {
        Ok(a) => a,
        Err(e) => return Err(e),
    };
    let b = match from_syntax_node(&n.children[1]) {
        Ok(b) => b,
        Err(e) => return Err(e),
    };
    Ok(NixAst::Assert { condition: Box::new(a), body: Box::new(b) })
}

/// A binary operation child read.
fn binary_from(n: &SyntaxNode) -> (r: Result<NixAst, AstError>)
    requires
        kinds_valid(*n),
    ensures
        outcome_view(r) == read_binary(*n),
    decreases n, 1int,
{
    if n.children.len() < 2 {
        return Err(invalid("Binary operation needs at least 2 operands"));
    }
    let op = match binary_op_of(n) {
        Some(op) => op,
        None => return Err(invalid("Binary operation missing operator")),
    };
    assert(kinds_valid(n.children@[0]));
    assert(kinds_valid(n.children@[1]));
    let a = match from_syntax_node(&n.children[0]) {
        Ok(a) => a,
        Err(e) => return Err(e),
    };
    let b = match from_syntax_node(&n.children[1]) {
        Ok(b) => b,
        Err(e) => return Err(e),
    };
    Ok(NixAst::BinaryOp { op, left: Box::new(a), right: Box::new(b) })
}

/// A unary operation child read.
fn unary_from(n: &SyntaxNode) -> (r: Result<NixAst, AstError>)
    requires
        kinds_valid(*n),
    ensures
        outcome_view(r) == read_unary(*n),
    decreases n, 1int,
{
    if n.children.len() == 0 {
        return Err(invalid("Unary operation needs an operand"));
    }
    let op = match unary_op_of(n) {
        Some(op) => op,
        None => return Err(invalid("Unary operation missing operator")),
    };
    assert(kinds_valid(n.children@[0]));
    match from_syntax_node(&n.children[0]) {
        Ok(a) => Ok(NixAst::UnaryOp { op, operand: Box::new(a) }),
        Err(e) => Err(e),
    }
}

/// The attribute path of a selection or test.
fn selected_path_from(c: &SyntaxNode) -> (r: Result<AttrPath, AstError>)
    requires
        kinds_valid(*c),
    ensures
        path_outcome(r) == selected_path(*c),
    decreases c, 2int,
{
    if c.kind == NODE_ATTRPATH {
        attr_path_from(c)
    } else {
        Ok(single_segment(c.text.clone()))
    }
}

/// A selection child read.
fn select_from(n: &SyntaxNode) -> (r: Result<NixAst, AstError>)
    requires
        kinds_valid(*n),
    ensures
        outcome_view(r) == read_select(*n),
    decreases n, 1int,
{
    if n.children.len() < 2 {
        return Err(invalid("Select needs expression and attribute path"));
    }
    assert(kinds_valid(n.children@[0]));
    assert(kinds_valid(n.children@[1]));
    let x = match from_syntax_node(&n.children[0]) {
        Ok(x) => x,
        Err(e) => return Err(e),
    };
    let path = match selected_path_from(&n.children[1]) {
        Ok(p) => p,
        Err(e) => return Err(e),
    };
    if n.children.len() > 2 && has_text_token(n, "or") {
        assert(kinds_valid(n.children@[2]));
        match from_syntax_node(&n.children[2]) {
            Ok(d) => Ok(NixAst::Select { expr: Box::new(x), attr_path: path, default: Some(Box::new(d)) }),
            Err(e) => Err(e),
        }
    } else {
        Ok(NixAst::Select { expr: Box::new(x), attr_path: path, default: None })
    }
}

/// A test-for-attribute child read.
fn has_attr_from(n: &SyntaxNode) -> (r: Result<NixAst, AstError>)
    requires
        kinds_valid(*n),
    ensures
        outcome_view(r) == read_has_attr(*n),
    decreases n, 1int,
{
    if n.children.len() < 2 {
        return Err(invalid("Has attr needs expression and attribute path"));
    }
    assert(kinds_valid(n.children@[0]));
    assert(kinds_valid(n.children@[1]));
    let x = match from_syntax_node(&n.children[0]) {
        Ok(x) => x,
        Err(e) => return Err(e),
    };
    match selected_path_from(&n.children[1]) {
        Ok(path) => Ok(NixAst::HasAttr { expr: Box::new(x), attr_path: path }),
        Err(e) => Err(e),
    }
}

} // verus!
