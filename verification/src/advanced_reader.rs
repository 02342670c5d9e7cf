//! The conversion of `AdvancedParser`: a syntax tree read as an expression
//! mostly by the text of its nodes.
//!
//! Bindings are read from the text of a binding node split at `=`, literals
//! from their text, and the parts of compound nodes by their position among
//! the child nodes. The rules are stated by `convert`, whose value is `None`
//! where reading a selection's default fails, which the conversion does not
//! survive.

use vstd::prelude::*;
use crate::ast::{NODE_ATTR_SET, NODE_IDENT, NODE_LIST, NODE_LITERAL, NODE_STRING};
use crate::expression::{
    AstView, AttrPath, AttrPathSegment, Binding, BindingValue, BindingView, FunctionParam,
    NixAst, ParamView, SegmentView, ValueView, ast_view, bindings_view, items_view,
};
use crate::expression_reader::{
    LAST_KIND, NODE_ASSERT, NODE_BIN_OP, NODE_HAS_ATTR, NODE_IF_ELSE, NODE_LET_IN, NODE_PATTERN,
    NODE_SELECT, NODE_UNARY_OP, NODE_WITH, first_kind, first_other, first_other_after,
    ident_view, kinds_valid, syntax_kind_name, binding_view, first_kind_index, first_other_index,
    first_other_after_index, ident_node, joined, kind_name, lemma_bindings_view_push,
    lemma_items_view_push, single_segment,
};
use crate::source_parser::{BinaryOperator, UnaryOperator, NODE_APPLY, NODE_LAMBDA, NODE_ROOT};
use crate::syntax::SyntaxNode;
use crate::text;

verus! {

/// rnix's `TOKEN_COMMENT`.
pub const TOKEN_COMMENT: u16 = 0;
/// rnix's `TOKEN_WHITESPACE`.
pub const TOKEN_WHITESPACE: u16 = 2;
/// rnix's `TOKEN_IN`.
pub const TOKEN_IN: u16 = 6;

/// The text of a node's first token: its first direct token, or the first
/// token of its first child where the node begins with a child node.
pub open spec fn first_token_text(n: SyntaxNode) -> Option<Seq<char>>
    decreases n,
{
    if n.tokens@.len() == 0 {
        None
    } else {
        match n.tokens@[0] {
            Some((_, t)) => Some(t@),
            None => if n.children@.len() > 0 {
                first_token_text(n.children@[0])
            } else {
                None
            },
        }
    }
}

/// A letter equal to the lower case ASCII letter `l`, in either case.
pub open spec fn letter_is(c: char, l: char) -> bool {
    c == l || (c as u32) + 32 == (l as u32)
}

/// The text is the lower case word `w`, in any case.
pub open spec fn word_is(s: Seq<char>, w: Seq<char>) -> bool {
    s.len() == w.len() && forall|i: int| 0 <= i < s.len() ==> letter_is(#[trigger] s[i], w[i])
}

/// The index of the first `e` or `E`; the length when there is none.
pub open spec fn exponent_index(s: Seq<char>) -> int
    decreases s.len(),
{
    if s.len() == 0 {
        0
    } else {
        let i = exponent_index(s.drop_last());
        if i < s.len() - 1 {
            i
        } else if s.last() == 'e' || s.last() == 'E' {
            s.len() - 1
        } else {
            s.len() as int
        }
    }
}

/// `Digit+ | Digit+ '.' Digit* | Digit* '.' Digit+`.
pub open spec fn mantissa_ok(m: Seq<char>) -> bool {
    match text::first_index(m, '.') {
        None => m.len() > 0 && text::all_digits(m),
        Some(j) => text::all_digits(m.take(j as int)) && text::all_digits(m.skip(j as int + 1)) && (j
            > 0 || m.len() > j + 1),
    }
}

/// `Sign? Digit+`.
pub open spec fn exponent_ok(x: Seq<char>) -> bool {
    let d = if x.len() > 0 && (x[0] == '+' || x[0] == '-') {
        x.drop_first()
    } else {
        x
    };
    d.len() > 0 && text::all_digits(d)
}

/// A decimal number of the float grammar: a mantissa and an optional
/// exponent.
pub open spec fn number_ok(b: Seq<char>) -> bool {
    let i = exponent_index(b);
    if i < b.len() {
        mantissa_ok(b.take(i)) && exponent_ok(b.skip(i + 1))
    } else {
        mantissa_ok(b)
    }
}

/// The texts `s.parse::<f64>()` accepts, by the grammar std documents for
/// it (any case): `Sign? ('inf' | 'infinity' | 'nan' | Number)`.
pub open spec fn float_text(s: Seq<char>) -> bool {
    let b = if s.len() > 0 && (s[0] == '+' || s[0] == '-') {
        s.drop_first()
    } else {
        s
    };
    word_is(b, "inf"@) || word_is(b, "infinity"@) || word_is(b, "nan"@) || number_ok(b)
}

/// A literal's text read: `true`, `false`, `null`, an integer, or a float
/// kept as written.
pub open spec fn literal_text_view(t: Seq<char>) -> Option<AstView> {
    if t == "true"@ {
        Some(AstView::Bool(true))
    } else if t == "false"@ {
        Some(AstView::Bool(false))
    } else if t == "null"@ {
        Some(AstView::Null)
    } else if text::parse_i64_spec(t) is Some {
        Some(AstView::Integer(text::parse_i64_spec(t)->Some_0))
    } else if float_text(t) {
        Some(AstView::Float(t))
    } else {
        None
    }
}

/// A literal node's text read, or the error naming it.
pub open spec fn literal_of_text(t: Seq<char>) -> Result<AstView, Seq<char>> {
    match literal_text_view(t) {
        Some(a) => Ok(a),
        None => Err("Unknown literal: "@ + t),
    }
}

/// A string node's text read: an indented string without its quotes, a
/// string without its quotes, a path, or the text itself.
pub open spec fn string_of_text(t: Seq<char>) -> AstView {
    if text::has_prefix(t, "''"@) {
        AstView::Str(text::strip_suffix_all(text::strip_prefix_all(t, "''"@), "''"@))
    } else if t.len() > 0 && t[0] == '"' {
        AstView::Str(text::trim_char(t, '"'))
    } else if text::has_prefix(t, "/"@) || text::has_prefix(t, "./"@) || text::has_prefix(
        t,
        "~/"@,
    ) {
        AstView::Path(t)
    } else {
        AstView::Str(t)
    }
}

/// The value of a binding read from its text.
pub open spec fn value_of_text(v: Seq<char>) -> AstView {
    if v.len() > 0 && v[0] == '"' && v.last() == '"' {
        AstView::Str(text::trim_char(v, '"'))
    } else if text::parse_i64_spec(v) is Some {
        AstView::Integer(text::parse_i64_spec(v)->Some_0)
    } else if v == "true"@ {
        AstView::Bool(true)
    } else if v == "false"@ {
        AstView::Bool(false)
    } else {
        AstView::Identifier(v)
    }
}

/// A binding read from its text `key = value;`: the text must hold exactly
/// one `=`.
pub open spec fn key_value(t: Seq<char>) -> Result<BindingView, Seq<char>> {
    let parts = text::pieces(t, '=');
    if parts.len() != 2 {
        Err("Invalid key-value binding"@)
    } else {
        let key = text::trimmed(parts[0]);
        let v = text::trimmed(text::strip_suffix_all(text::trimmed(parts[1]), ";"@));
        Ok(
            BindingView {
                path: seq![SegmentView::Identifier(key)],
                value: ValueView::Value(value_of_text(v)),
            },
        )
    }
}

/// The binding an inherit node is read as: no path, nothing inherited.
pub open spec fn empty_inherit() -> BindingView {
    BindingView { path: Seq::empty(), value: ValueView::Inherit(None, Seq::empty()) }
}

/// The bindings read from the texts of the nodes: a node whose text holds
/// `=` and does not start with `inherit` is read as a binding, left out
/// where that fails; one whose text starts with `inherit` is an empty
/// inherit.
pub open spec fn text_bindings(cs: Seq<SyntaxNode>) -> Seq<BindingView>
    decreases cs.len(),
{
    if cs.len() == 0 {
        Seq::empty()
    } else {
        let prev = text_bindings(cs.drop_last());
        let t = cs.last().text@;
        if text::has_sub(t, "="@) && !text::has_prefix(t, "inherit"@) {
            match key_value(t) {
                Ok(b) => prev.push(b),
                Err(_) => prev,
            }
        } else if text::has_prefix(t, "inherit"@) {
            prev.push(empty_inherit())
        } else {
            prev
        }
    }
}

/// A function parameter read: a name, or a pattern read as empty.
pub open spec fn param_of(c: SyntaxNode) -> Result<ParamView, Seq<char>> {
    if c.kind == NODE_IDENT {
        Ok(ParamView::Identifier(c.text@))
    } else if c.kind == NODE_PATTERN {
        Ok(ParamView::Pattern(Seq::empty(), None, false))
    } else {
        Err("Invalid function parameter"@)
    }
}

/// The binary operator a text stands for.
pub open spec fn binary_op_of_text(t: Seq<char>) -> Option<BinaryOperator> {
    if t == "+"@ {
        Some(BinaryOperator::Add)
    } else if t == "-"@ {
        Some(BinaryOperator::Subtract)
    } else if t == "*"@ {
        Some(BinaryOperator::Multiply)
    } else if t == "/"@ {
        Some(BinaryOperator::Divide)
    } else if t == "=="@ {
        Some(BinaryOperator::Equal)
    } else if t == "!="@ {
        Some(BinaryOperator::NotEqual)
    } else if t == "<"@ {
        Some(BinaryOperator::Less)
    } else if t == "<="@ {
        Some(BinaryOperator::LessEqual)
    } else if t == ">"@ {
        Some(BinaryOperator::Greater)
    } else if t == ">="@ {
        Some(BinaryOperator::GreaterEqual)
    } else if t == "&&"@ {
        Some(BinaryOperator::And)
    } else if t == "||"@ {
        Some(BinaryOperator::Or)
    } else if t == "->"@ {
        Some(BinaryOperator::Implication)
    } else if t == "++"@ {
        Some(BinaryOperator::Concat)
    } else if t == "//"@ {
        Some(BinaryOperator::Update)
    } else {
        None
    }
}

/// The unary operator a text stands for.
pub open spec fn unary_op_of_text(t: Seq<char>) -> Option<UnaryOperator> {
    if t == "!"@ {
        Some(UnaryOperator::Not)
    } else if t == "-"@ {
        Some(UnaryOperator::Negate)
    } else {
        None
    }
}

/// The index of the first node after index `a` whose text is `t`; the
/// length when there is none.
pub open spec fn first_text_after(cs: Seq<SyntaxNode>, a: int, t: Seq<char>) -> int
    decreases cs.len(),
{
    if cs.len() == 0 {
        0
    } else {
        let i = first_text_after(cs.drop_last(), a, t);
        if i < cs.len() - 1 {
            i
        } else if cs.len() - 1 > a && cs.last().text@ == t {
            cs.len() - 1
        } else {
            cs.len() as int
        }
    }
}

/// A node converted: `Some` of the expression or the error's message, or
/// `None` where the conversion does not return.
pub open spec fn convert(n: SyntaxNode) -> Option<Result<AstView, Seq<char>>>
    decreases n, 2int,
{
    let k = n.kind;
    if k == NODE_LITERAL {
        Some(literal_of_text(n.text@))
    } else if k == NODE_STRING {
        Some(Ok(string_of_text(n.text@)))
    } else if k == NODE_IDENT {
        Some(Ok(ident_view(n.text@)))
    } else if k == NODE_ATTR_SET {
        Some(
            Ok(
                AstView::AttrSet(
                    first_token_text(n) == Some("rec"@),
                    text_bindings(n.children@),
                ),
            ),
        )
    } else if k == NODE_LIST {
        match convert_items(n.children@) {
            None => None,
            Some(Err(e)) => Some(Err(e)),
            Some(Ok(s)) => Some(Ok(AstView::List(s))),
        }
    } else if k == NODE_LAMBDA {
        convert_lambda(n)
    } else if k == NODE_APPLY {
        convert_apply(n)
    } else if k == NODE_LET_IN {
        convert_let(n)
    } else if k == NODE_IF_ELSE {
        convert_if(n)
    } else if k == NODE_WITH {
        convert_with(n)
    } else if k == NODE_ASSERT {
        convert_assert(n)
    } else if k == NODE_BIN_OP {
        convert_binary(n)
    } else if k == NODE_UNARY_OP {
        convert_unary(n)
    } else if k == NODE_SELECT {
        convert_select(n)
    } else if k == NODE_HAS_ATTR {
        convert_has_attr(n)
    } else if k == NODE_ROOT {
        if n.children@.len() > 0 {
            convert(n.children@[0])
        } else {
            Some(Err("Empty file"@))
        }
    } else {
        convert_other(n)
    }
}

/// The child nodes other than whitespace and comments, converted in order;
/// the first error is the result.
pub open spec fn convert_items(cs: Seq<SyntaxNode>) -> Option<Result<Seq<AstView>, Seq<char>>>
    decreases cs, 0int,
{
    if cs.len() == 0 {
        Some(Ok(Seq::empty()))
    } else {
        match convert_items(cs.drop_last()) {
            None => None,
            Some(Err(e)) => Some(Err(e)),
            Some(Ok(s)) => if cs.last().kind == TOKEN_WHITESPACE || cs.last().kind == TOKEN_COMMENT {
                Some(Ok(s))
            } else {
                match convert(cs.last()) {
                    None => None,
                    Some(Err(e)) => Some(Err(e)),
                    Some(Ok(a)) => Some(Ok(s.push(a))),
                }
            },
        }
    }
}

/// A lambda converted: its first child is the parameter, its third the body.
pub open spec fn convert_lambda(n: SyntaxNode) -> Option<Result<AstView, Seq<char>>>
    decreases n, 1int,
{
    let cs = n.children@;
    if cs.len() == 0 {
        Some(Err("Lambda missing parameter"@))
    } else {
        match param_of(cs[0]) {
            Err(e) => Some(Err(e)),
            Ok(p) => if cs.len() < 3 {
                Some(Err("Lambda missing body"@))
            } else {
                match convert(cs[2]) {
                    None => None,
                    Some(Err(e)) => Some(Err(e)),
                    Some(Ok(b)) => Some(Ok(AstView::Function(p, Box::new(b)))),
                }
            },
        }
    }
}

/// An application converted: its first two children.
pub open spec fn convert_apply(n: SyntaxNode) -> Option<Result<AstView, Seq<char>>>
    decreases n, 1int,
{
    let cs = n.children@;
    if cs.len() == 0 {
        Some(Err("Apply missing function"@))
    } else {
        match convert(cs[0]) {
            None => None,
            Some(Err(e)) => Some(Err(e)),
            Some(Ok(f)) => if cs.len() < 2 {
                Some(Err("Apply missing argument"@))
            } else {
                match convert(cs[1]) {
                    None => None,
                    Some(Err(e)) => Some(Err(e)),
                    Some(Ok(a)) => Some(Ok(AstView::Apply(Box::new(f), Box::new(a)))),
                }
            },
        }
    }
}

/// A `let` converted: the bindings read from the children before the first
/// `in` child, and the body the first child after it that is not one.
pub open spec fn convert_let(n: SyntaxNode) -> Option<Result<AstView, Seq<char>>>
    decreases n, 1int,
{
    let cs = n.children@;
    let i = first_kind(cs, TOKEN_IN, TOKEN_IN);
    let j = first_other_after(cs, i, TOKEN_IN);
    if 0 <= j < cs.len() {
        match convert(cs[j]) {
            None => None,
            Some(Err(e)) => Some(Err(e)),
            Some(Ok(b)) => Some(Ok(AstView::Let(text_bindings(cs.take(i)), Box::new(b)))),
        }
    } else {
        Some(Err("Let missing body"@))
    }
}

/// An `if` converted: its second, fourth and sixth children.
pub open spec fn convert_if(n: SyntaxNode) -> Option<Result<AstView, Seq<char>>>
    decreases n, 1int,
{
    let cs = n.children@;
    if cs.len() < 2 {
        Some(Err("If missing condition"@))
    } else {
        match convert(cs[1]) {
            None => None,
            Some(Err(e)) => Some(Err(e)),
            Some(Ok(c)) => if cs.len() < 4 {
                Some(Err("If missing then branch"@))
            } else {
                match convert(cs[3]) {
                    None => None,
                    Some(Err(e)) => Some(Err(e)),
                    Some(Ok(t)) => if cs.len() < 6 {
                        Some(Err("If missing else branch"@))
                    } else {
                        match convert(cs[5]) {
                            None => None,
                            Some(Err(e)) => Some(Err(e)),
                            Some(Ok(f)) => Some(
                                Ok(AstView::If(Box::new(c), Box::new(t), Box::new(f))),
                            ),
                        }
                    },
                }
            },
        }
    }
}

/// A `with` converted: its second and fourth children.
pub open spec fn convert_with(n: SyntaxNode) -> Option<Result<AstView, Seq<char>>>
    decreases n, 1int,
{
    let cs = n.children@;
    if cs.len() < 2 {
        Some(Err("With missing namespace"@))
    } else {
        match convert(cs[1]) {
            None => None,
            Some(Err(e)) => Some(Err(e)),
            Some(Ok(a)) => if cs.len() < 4 {
                Some(Err("With missing body"@))
            } else {
                match convert(cs[3]) {
                    None => None,
                    Some(Err(e)) => Some(Err(e)),
                    Some(Ok(b)) => Some(Ok(AstView::With(Box::new(a), Box::new(b)))),
                }
            },
        }
    }
}

/// An `assert` converted: its second and fourth children.
pub open spec fn convert_assert(n: SyntaxNode) -> Option<Result<AstView, Seq<char>>>
    decreases n, 1int,
{
    let cs = n.children@;
    if cs.len() < 2 {
        Some(Err("Assert missing condition"@))
    } else {
        match convert(cs[1]) {
            None => None,
            Some(Err(e)) => Some(Err(e)),
            Some(Ok(a)) => if cs.len() < 4 {
                Some(Err("Assert missing body"@))
            } else {
                match convert(cs[3]) {
                    None => None,
                    Some(Err(e)) => Some(Err(e)),
                    Some(Ok(b)) => Some(Ok(AstView::Assert(Box::new(a), Box::new(b)))),
                }
            },
        }
    }
}

/// A binary operation converted: its first child, the operator read from
/// the second's text, and its third child.
pub open spec fn convert_binary(n: SyntaxNode) -> Option<Result<AstView, Seq<char>>>
    decreases n, 1int,
{
    let cs = n.children@;
    if cs.len() < 1 {
        Some(Err("Binary op missing left operand"@))
    } else {
        match convert(cs[0]) {
            None => None,
            Some(Err(e)) => Some(Err(e)),
            Some(Ok(a)) => if cs.len() < 2 {
                Some(Err("Binary op missing operator"@))
            } else {
                match binary_op_of_text(cs[1].text@) {
                    None => Some(Err("Unknown binary operator: "@ + cs[1].text@)),
                    Some(op) => if cs.len() < 3 {
                        Some(Err("Binary op missing right operand"@))
                    } else {
                        match convert(cs[2]) {
                            None => None,
                            Some(Err(e)) => Some(Err(e)),
                            Some(Ok(b)) => Some(
                                Ok(AstView::BinaryOp(op, Box::new(a), Box::new(b))),
                            ),
                        }
                    },
                }
            },
        }
    }
}

/// A unary operation converted: the operator read from the first child's
/// text, and the second child.
pub open spec fn convert_unary(n: SyntaxNode) -> Option<Result<AstView, Seq<char>>>
    decreases n, 1int,
{
    let cs = n.children@;
    if cs.len() < 1 {
        Some(Err("Unary op missing operator"@))
    } else {
        match unary_op_of_text(cs[0].text@) {
            None => Some(Err("Unknown unary operator: "@ + cs[0].text@)),
            Some(op) => if cs.len() < 2 {
                Some(Err("Unary op missing operand"@))
            } else {
                match convert(cs[1]) {
                    None => None,
                    Some(Err(e)) => Some(Err(e)),
                    Some(Ok(a)) => Some(Ok(AstView::UnaryOp(op, Box::new(a)))),
                }
            },
        }
    }
}

/// A selection converted: its first child, the third child's text as the
/// path, and as default the child after a later child whose text is `or`;
/// a default that does not convert stops the conversion.
pub open spec fn convert_select(n: SyntaxNode) -> Option<Result<AstView, Seq<char>>>
    decreases n, 1int,
{
    let cs = n.children@;
    if cs.len() < 1 {
        Some(Err("Select missing expression"@))
    } else {
        match convert(cs[0]) {
            None => None,
            Some(Err(e)) => Some(Err(e)),
            Some(Ok(x)) => if cs.len() < 3 {
                Some(Err("Select missing attribute path"@))
            } else {
                let path = seq![SegmentView::Identifier(cs[2].text@)];
                let j = first_text_after(cs, 2, "or"@);
                if 0 <= j && j + 1 < cs.len() {
                    match convert(cs[j + 1]) {
                        Some(Ok(d)) => Some(Ok(AstView::Select(Box::new(x), path, Some(Box::new(d))))),
                        _ => None,
                    }
                } else {
                    Some(Ok(AstView::Select(Box::new(x), path, None)))
                }
            },
        }
    }
}

/// A test for an attribute converted: its first child, and the third
/// child's text as the path.
pub open spec fn convert_has_attr(n: SyntaxNode) -> Option<Result<AstView, Seq<char>>>
    decreases n, 1int,
{
    let cs = n.children@;
    if cs.len() < 1 {
        Some(Err("HasAttr missing expression"@))
    } else {
        match convert(cs[0]) {
            None => None,
            Some(Err(e)) => Some(Err(e)),
            Some(Ok(x)) => if cs.len() < 3 {
                Some(Err("HasAttr missing attribute path"@))
            } else {
                Some(Ok(AstView::HasAttr(Box::new(x), seq![SegmentView::Identifier(cs[2].text@)])))
            },
        }
    }
}

/// An `import` converted: its second child.
pub open spec fn convert_import(n: SyntaxNode) -> Option<Result<AstView, Seq<char>>>
    decreases n, 0int,
{
    let cs = n.children@;
    if cs.len() < 2 {
        Some(Err("Import missing path"@))
    } else {
        match convert(cs[1]) {
            None => None,
            Some(Err(e)) => Some(Err(e)),
            Some(Ok(x)) => Some(Ok(AstView::Import(Box::new(x)))),
        }
    }
}

/// Any other node converted: a literal first token, else its first child
/// that is not whitespace or a comment, else an `import` by its text, else
/// its trimmed text as an identifier.
pub open spec fn convert_other(n: SyntaxNode) -> Option<Result<AstView, Seq<char>>>
    decreases n, 1int,
{
    let lit = match first_token_text(n) {
        Some(t) => literal_text_view(t),
        None => None,
    };
    let cs = n.children@;
    let i = first_other(cs, TOKEN_WHITESPACE, TOKEN_COMMENT);
    match lit {
        Some(a) => Some(Ok(a)),
        None => if 0 <= i < cs.len() {
            convert(cs[i])
        } else if text::has_prefix(n.text@, "import"@) {
            convert_import(n)
        } else if text::trimmed(n.text@).len() > 0 {
            Some(Ok(AstView::Identifier(text::trimmed(n.text@))))
        } else {
            Some(Err("Unsupported node kind: "@ + syntax_kind_name(n.kind)))
        },
    }
}

/// A conversion's outcome as plain values.
pub open spec fn conversion_view(r: Option<Result<NixAst, String>>) -> Option<Result<AstView, Seq<char>>> {
    match r {
        None => None,
        Some(Ok(a)) => Some(Ok(ast_view(a))),
        Some(Err(m)) => Some(Err(m@)),
    }
}

/// The outcome of converting a list's children as plain values.
pub open spec fn items_conversion_view(r: Option<Result<Vec<NixAst>, String>>) -> Option<Result<Seq<AstView>, Seq<char>>> {
    match r {
        None => None,
        Some(Ok(v)) => Some(Ok(items_view(v@))),
        Some(Err(m)) => Some(Err(m@)),
    }
}

/// The text of a node's first token.
fn first_token_of(n: &SyntaxNode) -> (r: Option<String>)
    ensures
        match r {
            Some(s) => first_token_text(*n) == Some(s@),
            None => first_token_text(*n) is None,
        },
    decreases n,
{
    if n.tokens.len() == 0 {
        None
    } else {
        match &n.tokens[0] {
            Some((_, t)) => Some(t.clone()),
            None => {
                if n.children.len() > 0 {
                    first_token_of(&n.children[0])
                } else {
                    None
                }
            },
        }
    }
}

/// Whether every character is an ASCII digit.
fn digits_only(s: &[char]) -> (b: bool)
    ensures
        b == text::all_digits(s@),
{
    let mut i: usize = 0;
    while i < s.len()
        invariant
            i <= s@.len(),
            forall|j: int| 0 <= j < i ==> '0' <= #[trigger] s@[j] <= '9',
        decreases s@.len() - i,
    {
        if !('0' <= s[i] && s[i] <= '9') {
            return false;
        }
        i = i + 1;
    }
    true
}

/// Whether the text is the lower case word, in any case.
fn word_matches(s: &[char], w: &str) -> (b: bool)
    ensures
        b == word_is(s@, w@),
{
    let wv = text::chars_of(w);
    if s.len() != wv.len() {
        return false;
    }
    let mut i: usize = 0;
    while i < s.len()
        invariant
            i <= s@.len(),
            s@.len() == wv@.len(),
            wv@ == w@,
            forall|j: int| 0 <= j < i ==> letter_is(#[trigger] s@[j], w@[j]),
        decreases s@.len() - i,
    {
        let c = s[i];
        let l = wv[i];
        if !(c == l || ((l as u32) >= 32 && (c as u32) == (l as u32) - 32)) {
            assert(!letter_is(s@[i as int], w@[i as int]));
            return false;
        }
        i = i + 1;
    }
    true
}

proof fn lemma_first_index_bound(s: Seq<char>, c: char)
    ensures
        text::first_index(s, c) matches Some(i) ==> i < s.len(),
    decreases s.len(),
{
    if s.len() > 0 {
        lemma_first_index_bound(s.drop_first(), c);
    }
}

/// `Digit+ | Digit+ '.' Digit* | Digit* '.' Digit+`.
fn mantissa_matches(m: &[char]) -> (b: bool)
    ensures
        b == mantissa_ok(m@),
{
    proof {
        lemma_first_index_bound(m@, '.');
    }
    match text::index_of(m, '.') {
        None => m.len() > 0 && digits_only(m),
        Some(j) => {
            assert(text::first_index(m@, '.') == Some(j as nat));
            let len = m.len();
            assert(j < len);
            let before = text::slice_vec(m, 0, j);
            let after = text::slice_vec(m, j + 1, len);
            assert(before@ =~= m@.take(j as int));
            assert(after@ =~= m@.skip(j as int + 1));
            digits_only(before.as_slice()) && digits_only(after.as_slice()) && (j > 0 || m.len() > j
                + 1)
        },
    }
}

/// `Sign? Digit+`.
fn exponent_matches(x: &[char]) -> (b: bool)
    ensures
        b == exponent_ok(x@),
{
    if x.len() > 0 && (x[0] == '+' || x[0] == '-') {
        let d = text::slice_vec(x, 1, x.len());
        assert(d@ =~= x@.drop_first());
        d.len() > 0 && digits_only(d.as_slice())
    } else {
        x.len() > 0 && digits_only(x)
    }
}

/// Whether the text is one that `s.parse::<f64>()` accepts.
fn is_float_text(s: &[char]) -> (b: bool)
    ensures
        b == float_text(s@),
{
    let body = if s.len() > 0 && (s[0] == '+' || s[0] == '-') {
        let d = text::slice_vec(s, 1, s.len());
        assert(d@ =~= s@.drop_first());
        d
    } else {
        let d = text::slice_vec(s, 0, s.len());
        assert(d@ =~= s@);
        d
    };
    if word_matches(body.as_slice(), "inf") || word_matches(body.as_slice(), "infinity")
        || word_matches(body.as_slice(), "nan") {
        return true;
    }
    let mut e: usize = 0;
    let mut i: usize = 0;
    while i < body.len()
        invariant
            i <= body@.len(),
            e == exponent_index(body@.take(i as int)),
        decreases body@.len() - i,
    {
        assert(body@.take(i + 1).drop_last() =~= body@.take(i as int));
        if e < i {
        } else if body[i] == 'e' || body[i] == 'E' {
            e = i;
        } else {
            e = i + 1;
        }
        i = i + 1;
    }
    assert(body@.take(i as int) =~= body@);
    if e < body.len() {
        let m = text::slice_vec(body.as_slice(), 0, e);
        let x = text::slice_vec(body.as_slice(), e + 1, body.len());
        assert(m@ =~= body@.take(e as int));
        assert(x@ =~= body@.skip(e as int + 1));
        mantissa_matches(m.as_slice()) && exponent_matches(x.as_slice())
    } else {
        mantissa_matches(body.as_slice())
    }
}

/// A literal's text read.
fn literal_from_text(t: &String) -> (r: Option<NixAst>)
    ensures
        crate::expression_reader::option_view(r) == literal_text_view(t@),
{
    let v = text::chars_of(t.as_str());
    if text::eq_str(v.as_slice(), "true") {
        Some(NixAst::Bool(true))
    } else if text::eq_str(v.as_slice(), "false") {
        Some(NixAst::Bool(false))
    } else if text::eq_str(v.as_slice(), "null") {
        Some(NixAst::Null)
    } else {
        match text::parse_i64(v.as_slice()) {
            Some(x) => Some(NixAst::Integer(x)),
            None => {
                if is_float_text(v.as_slice()) {
                    Some(NixAst::Float(t.clone()))
                } else {
                    None
                }
            },
        }
    }
}

/// A string node's text read.
fn string_from_text(t: &String) -> (r: NixAst)
    ensures
        ast_view(r) == string_of_text(t@),
{
    let v = text::chars_of(t.as_str());
    if text::starts_with_str(v.as_slice(), "''") {
        let a = text::trim_start_matches_str(v.as_slice(), "''");
        let b = text::trim_end_matches_str(a.as_slice(), "''");
        NixAst::String(text::string_of(b.as_slice()))
    } else if v.len() > 0 && v[0] == '"' {
        let a = text::trim_matches(v.as_slice(), '"');
        NixAst::String(text::string_of(a.as_slice()))
    } else if text::starts_with_str(v.as_slice(), "/") || text::starts_with_str(v.as_slice(), "./")
        || text::starts_with_str(v.as_slice(), "~/") {
        NixAst::Path(t.clone())
    } else {
        NixAst::String(t.clone())
    }
}

/// The value of a binding read from its text.
fn value_from_text(v: &[char]) -> (r: NixAst)
    ensures
        ast_view(r) == value_of_text(v@),
{
    if v.len() > 0 && v[0] == '"' && v[v.len() - 1] == '"' {
        let a = text::trim_matches(v, '"');
        NixAst::String(text::string_of(a.as_slice()))
    } else {
        match text::parse_i64(v) {
            Some(x) => NixAst::Integer(x),
            None => {
                if text::eq_str(v, "true") {
                    NixAst::Bool(true)
                } else if text::eq_str(v, "false") {
                    NixAst::Bool(false)
                } else {
                    NixAst::Identifier(text::string_of(v))
                }
            },
        }
    }
}

/// A binding read from its text.
fn binding_from_text(t: &String) -> (r: Option<Binding>)
    ensures
        match r {
            Some(b) => key_value(t@) == Ok::<BindingView, Seq<char>>(binding_view(b)),
            None => key_value(t@) is Err,
        },
{
    let v = text::chars_of(t.as_str());
    let parts = text::split_char(v.as_slice(), '=');
    assert(parts@.len() == text::views(parts@).len());
    if parts.len() != 2 {
        return None;
    }
    assert(text::views(parts@)[0] == parts@[0]@);
    assert(text::views(parts@)[1] == parts@[1]@);
    let key = text::trim(parts[0].as_slice());
    let raw = text::trim(parts[1].as_slice());
    let stripped = text::trim_end_matches_str(raw.as_slice(), ";");
    let value_text = text::trim(stripped.as_slice());
    let value = value_from_text(value_text.as_slice());
    let b = Binding { attr_path: single_segment(text::string_of(key.as_slice())), value: BindingValue::Value(value) };
    Some(b)
}

/// The binding an inherit node is read as.
fn empty_inherit_binding() -> (b: Binding)
    ensures
        binding_view(b) == empty_inherit(),
{
    let b = Binding {
        attr_path: AttrPath { segments: Vec::new() },
        value: BindingValue::Inherit { from: None, attrs: Vec::new() },
    };
    assert(b.attr_path.segments@ =~= Seq::<AttrPathSegment>::empty());
    assert(crate::expression::string_texts(Seq::<String>::empty()) =~= Seq::<Seq<char>>::empty());
    b
}

/// The bindings read from the texts of the first `upto` children.
fn text_bindings_from(n: &SyntaxNode, upto: usize) -> (r: Vec<Binding>)
    requires
        upto <= n.children@.len(),
    ensures
        bindings_view(r@) == text_bindings(n.children@.take(upto as int)),
{
    let mut r: Vec<Binding> = Vec::new();
    let mut i: usize = 0;
    while i < upto
        invariant
            i <= upto,
            upto <= n.children@.len(),
            bindings_view(r@) == text_bindings(n.children@.take(i as int)),
        decreases upto - i,
    {
        assert(n.children@.take(i + 1).drop_last() =~= n.children@.take(i as int));
        let t = &n.children[i].text;
        let v = text::chars_of(t.as_str());
        let has_eq = text::contains_str(v.as_slice(), "=");
        let is_inherit = text::starts_with_str(v.as_slice(), "inherit");
        if has_eq && !is_inherit {
            match binding_from_text(t) {
                Some(b) => {
                    proof {
                        lemma_bindings_view_push(r@, b);
                    }
                    r.push(b);
                },
                None => {},
            }
        } else if is_inherit {
            let b = empty_inherit_binding();
            proof {
                lemma_bindings_view_push(r@, b);
            }
            r.push(b);
        }
        i = i + 1;
    }
    r
}

/// A function parameter read.
fn param_from(c: &SyntaxNode) -> (r: Result<FunctionParam, String>)
    ensures
        match r {
            Ok(p) => param_of(*c) == Ok::<ParamView, Seq<char>>(crate::expression::param_view(p)),
            Err(m) => param_of(*c) == Err::<ParamView, Seq<char>>(m@),
        },
{
    if c.kind == NODE_IDENT {
        Ok(FunctionParam::Identifier(c.text.clone()))
    } else if c.kind == NODE_PATTERN {
        let p = FunctionParam::Pattern { fields: Vec::new(), bind: None, ellipsis: false };
        assert(crate::expression::fields_view(Seq::<crate::expression::PatternField>::empty()) =~= Seq::<(Seq<char>, Option<AstView>)>::empty());
        Ok(p)
    } else {
        Err(text::string_from("Invalid function parameter"))
    }
}

/// The binary operator a text stands for.
fn binary_op_from_text(t: &String) -> (r: Option<BinaryOperator>)
    ensures
        r == binary_op_of_text(t@),
{
    let v = text::chars_of(t.as_str());
    let s = v.as_slice();
    if text::eq_str(s, "+") {
        Some(BinaryOperator::Add)
    } else if text::eq_str(s, "-") {
        Some(BinaryOperator::Subtract)
    } else if text::eq_str(s, "*") {
        Some(BinaryOperator::Multiply)
    } else if text::eq_str(s, "/") {
        Some(BinaryOperator::Divide)
    } else if text::eq_str(s, "==") {
        Some(BinaryOperator::Equal)
    } else if text::eq_str(s, "!=") {
        Some(BinaryOperator::NotEqual)
    } else if text::eq_str(s, "<") {
        Some(BinaryOperator::Less)
    } else if text::eq_str(s, "<=") {
        Some(BinaryOperator::LessEqual)
    } else if text::eq_str(s, ">") {
        Some(BinaryOperator::Greater)
    } else if text::eq_str(s, ">=") {
        Some(BinaryOperator::GreaterEqual)
    } else if text::eq_str(s, "&&") {
        Some(BinaryOperator::And)
    } else if text::eq_str(s, "||") {
        Some(BinaryOperator::Or)
    } else if text::eq_str(s, "->") {
        Some(BinaryOperator::Implication)
    } else if text::eq_str(s, "++") {
        Some(BinaryOperator::Concat)
    } else if text::eq_str(s, "//") {
        Some(BinaryOperator::Update)
    } else {
        None
    }
}

/// The unary operator a text stands for.
fn unary_op_from_text(t: &String) -> (r: Option<UnaryOperator>)
    ensures
        r == unary_op_of_text(t@),
{
    let v = text::chars_of(t.as_str());
    if text::eq_str(v.as_slice(), "!") {
        Some(UnaryOperator::Not)
    } else if text::eq_str(v.as_slice(), "-") {
        Some(UnaryOperator::Negate)
    } else {
        None
    }
}

/// The index of the first child after index `a` whose text is `t`.
fn first_text_after_index(cs: &Vec<SyntaxNode>, a: usize, t: &str) -> (r: usize)
    ensures
        r == first_text_after(cs@, a as int, t@),
{
    let mut r: usize = 0;
    let mut i: usize = 0;
    while i < cs.len()
        invariant
            i <= cs@.len(),
            r == first_text_after(cs@.take(i as int), a as int, t@),
        decreases cs@.len() - i,
    {
        assert(cs@.take(i + 1).drop_last() =~= cs@.take(i as int));
        let same = {
            let v = text::chars_of(cs[i].text.as_str());
            text::eq_str(v.as_slice(), t)
        };
        if r < i {
        } else if i > a && same {
            r = i;
        } else {
            r = i + 1;
        }
        i = i + 1;
    }
    assert(cs@.take(i as int) =~= cs@);
    r
}

proof fn lemma_first_kind_le(cs: Seq<SyntaxNode>, a: u16, b: u16)
    ensures
        0 <= first_kind(cs, a, b) <= cs.len(),
    decreases cs.len(),
{
    if cs.len() > 0 {
        lemma_first_kind_le(cs.drop_last(), a, b);
    }
}

/// The state of converting a list's children: stopped, failed with a
/// message, or the items so far.
spec fn items_state(halted: bool, failed: Option<String>, out: Seq<NixAst>) -> Option<Result<Seq<AstView>, Seq<char>>> {
    if halted {
        None
    } else {
        match failed {
            Some(m) => Some(Err(m@)),
            None => Some(Ok(items_view(out))),
        }
    }
}

/// Converts a node by the rules of `convert`: `None` where the conversion
/// does not return.
pub fn convert_node(n: &SyntaxNode) -> (r: Option<Result<NixAst, String>>)
    requires
        kinds_valid(*n),
    ensures
        conversion_view(r) == convert(*n),
    decreases n, 2int,
{
    let k = n.kind;
    if k == NODE_LITERAL {
        match literal_from_text(&n.text) {
            Some(a) => Some(Ok(a)),
            None => Some(Err(joined("Unknown literal: ", n.text.as_str()))),
        }
    } else if k == NODE_STRING {
        Some(Ok(string_from_text(&n.text)))
    } else if k == NODE_IDENT {
        Some(Ok(ident_node(&n.text)))
    } else if k == NODE_ATTR_SET {
        let recursive = match first_token_of(n) {
            Some(t) => {
                let v = text::chars_of(t.as_str());
                text::eq_str(v.as_slice(), "rec")
            },
            None => false,
        };
        let bindings = text_bindings_from(n, n.children.len());
        assert(n.children@.take(n.children@.len() as int) =~= n.children@);
        Some(Ok(NixAst::AttrSet { recursive, bindings }))
    } else if k == NODE_LIST {
        match items_from(n) {
            None => None,
            Some(Err(e)) => Some(Err(e)),
            Some(Ok(v)) => Some(Ok(NixAst::List(v))),
        }
    } else if k == NODE_LAMBDA {
        lambda_from(n)
    } else if k == NODE_APPLY {
        apply_from(n)
    } else if k == NODE_LET_IN {
        let_from(n)
    } else if k == NODE_IF_ELSE {
        if_from(n)
    } else if k == NODE_WITH {
        with_from(n)
    } else if k == NODE_ASSERT {
        assert_from(n)
    } else if k == NODE_BIN_OP {
        binary_from(n)
    } else if k == NODE_UNARY_OP {
        unary_from(n)
    } else if k == NODE_SELECT {
        select_from(n)
    } else if k == NODE_HAS_ATTR {
        has_attr_from(n)
    } else if k == NODE_ROOT {
        if n.children.len() > 0 {
            assert(kinds_valid(n.children@[0]));
            convert_node(&n.children[0])
        } else {
            Some(Err(text::string_from("Empty file")))
        }
    } else {
        other_from(n)
    }
}

/// The children other than whitespace and comments, converted in order.
fn items_from(n: &SyntaxNode) -> (r: Option<Result<Vec<NixAst>, String>>)
    requires
        kinds_valid(*n),
    ensures
        items_conversion_view(r) == convert_items(n.children@),
    decreases n, 0int,
{
    let mut out: Vec<NixAst> = Vec::new();
    let mut failed: Option<String> = None;
    let mut halted = false;
    let mut i: usize = 0;
    while i < n.children.len()
        invariant
            i <= n.children@.len(),
            kinds_valid(*n),
            convert_items(n.children@.take(i as int)) == items_state(halted, failed, out@),
        decreases n.children@.len() - i,
    {
        assert(n.children@.take(i + 1).drop_last() =~= n.children@.take(i as int));
        assert(kinds_valid(n.children@[i as int]));
        let kind = n.children[i].kind;
        if !halted && failed.is_none() && kind != TOKEN_WHITESPACE && kind != TOKEN_COMMENT {
            match convert_node(&n.children[i]) {
                None => {
                    halted = true;
                },
                Some(Err(m)) => {
                    failed = Some(m);
                },
                Some(Ok(a)) => {
                    proof {
                        lemma_items_view_push(out@, a);
                    }
                    out.push(a);
                },
            }
        }
        i = i + 1;
    }
    assert(n.children@.take(i as int) =~= n.children@);
    if halted {
        None
    } else {
        match failed {
            Some(m) => Some(Err(m)),
            None => Some(Ok(out)),
        }
    }
}

/// A lambda converted.
fn lambda_from(n: &SyntaxNode) -> (r: Option<Result<NixAst, String>>)
    requires
        kinds_valid(*n),
    ensures
        conversion_view(r) == convert_lambda(*n),
    decreases n, 1int,
{
    if n.children.len() == 0 {
        return Some(Err(text::string_from("Lambda missing parameter")));
    }
    let param = match param_from(&n.children[0]) {
        Ok(p) => p,
        Err(m) => return Some(Err(m)),
    };
    if n.children.len() < 3 {
        return Some(Err(text::string_from("Lambda missing body")));
    }
    assert(kinds_valid(n.children@[2]));
    match convert_node(&n.children[2]) {
        None => None,
        Some(Err(m)) => Some(Err(m)),
        Some(Ok(b)) => {
            let r = NixAst::Function { param, body: Box::new(b) };
            assert(ast_view(r) == AstView::Function(crate::expression::param_view(param), Box::new(ast_view(b))));
            Some(Ok(r))
        },
    }
}

/// An application converted.
fn apply_from(n: &SyntaxNode) -> (r: Option<Result<NixAst, String>>)
    requires
        kinds_valid(*n),
    ensures
        conversion_view(r) == convert_apply(*n),
    decreases n, 1int,
{
    if n.children.len() == 0 {
        return Some(Err(text::string_from("Apply missing function")));
    }
    assert(kinds_valid(n.children@[0]));
    let f = match convert_node(&n.children[0]) {
        None => return None,
        Some(Err(m)) => return Some(Err(m)),
        Some(Ok(f)) => f,
    };
    if n.children.len() < 2 {
        return Some(Err(text::string_from("Apply missing argument")));
    }
    assert(kinds_valid(n.children@[1]));
    match convert_node(&n.children[1]) {
        None => None,
        Some(Err(m)) => Some(Err(m)),
        Some(Ok(a)) => Some(Ok(NixAst::Apply { function: Box::new(f), argument: Box::new(a) })),
    }
}

/// A `let` converted.
fn let_from(n: &SyntaxNode) -> (r: Option<Result<NixAst, String>>)
    requires
        kinds_valid(*n),
    ensures
        conversion_view(r) == convert_let(*n),
    decreases n, 1int,
{
    let i = first_kind_index(&n.children, TOKEN_IN, TOKEN_IN);
    let j = first_other_after_index(&n.children, i, TOKEN_IN);
    proof {
        lemma_first_kind_le(n.children@, TOKEN_IN, TOKEN_IN);
    }
    if j < n.children.len() {
        assert(kinds_valid(n.children@[j as int]));
        match convert_node(&n.children[j]) {
            None => None,
            Some(Err(m)) => Some(Err(m)),
            Some(Ok(b)) => {
                let bindings = text_bindings_from(n, i);
                Some(Ok(NixAst::Let { bindings, body: Box::new(b) }))
            },
        }
    } else {
        Some(Err(text::string_from("Let missing body")))
    }
}

/// An `if` converted.
fn if_from(n: &SyntaxNode) -> (r: Option<Result<NixAst, String>>)
    requires
        kinds_valid(*n),
    ensures
        conversion_view(r) == convert_if(*n),
    decreases n, 1int,
{
    if n.children.len() < 2 {
        return Some(Err(text::string_from("If missing condition")));
    }
    assert(kinds_valid(n.children@[1]));
    let c = match convert_node(&n.children[1]) {
        None => return None,
        Some(Err(m)) => return Some(Err(m)),
        Some(Ok(c)) => c,
    };
    if n.children.len() < 4 {
        return Some(Err(text::string_from("If missing then branch")));
    }
    assert(kinds_valid(n.children@[3]));
    let t = match convert_node(&n.children[3]) {
        None => return None,
        Some(Err(m)) => return Some(Err(m)),
        Some(Ok(t)) => t,
    };
    if n.children.len() < 6 {
        return Some(Err(text::string_from("If missing else branch")));
    }
    assert(kinds_valid(n.children@[5]));
    match convert_node(&n.children[5]) {
        None => None,
        Some(Err(m)) => Some(Err(m)),
        Some(Ok(f)) => Some(
            Ok(NixAst::If { condition: Box::new(c), then_branch: Box::new(t), else_branch: Box::new(f) }),
        ),
    }
}

/// A `with` converted.
fn with_from(n: &SyntaxNode) -> (r: Option<Result<NixAst, String>>)
    requires
        kinds_valid(*n),
    ensures
        conversion_view(r) == convert_with(*n),
    decreases n, 1int,
{
    if n.children.len() < 2 {
        return Some(Err(text::string_from("With missing namespace")));
    }
    assert(kinds_valid(n.children@[1]));
    let a = match convert_node(&n.children[1]) {
        None => return None,
        Some(Err(m)) => return Some(Err(m)),
        Some(Ok(a)) => a,
    };
    if n.children.len() < 4 {
        return Some(Err(text::string_from("With missing body")));
    }
    assert(kinds_valid(n.children@[3]));
    match convert_node(&n.children[3]) {
        None => None,
        Some(Err(m)) => Some(Err(m)),
        Some(Ok(b)) => Some(Ok(NixAst::With { namespace: Box::new(a), body: Box::new(b) })),
    }
}

/// An `assert` converted.
fn assert_from(n: &SyntaxNode) -> (r: Option<Result<NixAst, String>>)
    requires
        kinds_valid(*n),
    ensures
        conversion_view(r) == convert_assert(*n),
    decreases n, 1int,
{
    if n.children.len() < 2 {
        return Some(Err(text::string_from("Assert missing condition")));
    }
    assert(kinds_valid(n.children@[1]));
    let a = match convert_node(&n.children[1]) {
        None => return None,
        Some(Err(m)) => return Some(Err(m)),
        Some(Ok(a)) => a,
    };
    if n.children.len() < 4 {
        return Some(Err(text::string_from("Assert missing body")));
    }
    assert(kinds_valid(n.children@[3]));
    match convert_node(&n.children[3]) {
        None => None,
        Some(Err(m)) => Some(Err(m)),
        Some(Ok(b)) => Some(Ok(NixAst::Assert { condition: Box::new(a), body: Box::new(b) })),
    }
}

/// A binary operation converted.
fn binary_from(n: &SyntaxNode) -> (r: Option<Result<NixAst, String>>)
    requires
        kinds_valid(*n),
    ensures
        conversion_view(r) == convert_binary(*n),
    decreases n, 1int,
{
    if n.children.len() < 1 {
        return Some(Err(text::string_from("Binary op missing left operand")));
    }
    assert(kinds_valid(n.children@[0]));
    let a = match convert_node(&n.children[0]) {
        None => return None,
        Some(Err(m)) => return Some(Err(m)),
        Some(Ok(a)) => a,
    };
    if n.children.len() < 2 {
        return Some(Err(text::string_from("Binary op missing operator")));
    }
    let op = match binary_op_from_text(&n.children[1].text) {
        Some(op) => op,
        None => return Some(Err(joined("Unknown binary operator: ", n.children[1].text.as_str()))),
    };
    if n.children.len() < 3 {
        return Some(Err(text::string_from("Binary op missing right operand")));
    }
    assert(kinds_valid(n.children@[2]));
    match convert_node(&n.children[2]) {
        None => None,
        Some(Err(m)) => Some(Err(m)),
        Some(Ok(b)) => Some(Ok(NixAst::BinaryOp { op, left: Box::new(a), right: Box::new(b) })),
    }
}

/// A unary operation converted.
fn unary_from(n: &SyntaxNode) -> (r: Option<Result<NixAst, String>>)
    requires
        kinds_valid(*n),
    ensures
        conversion_view(r) == convert_unary(*n),
    decreases n, 1int,
{
    if n.children.len() < 1 {
        return Some(Err(text::string_from("Unary op missing operator")));
    }
    let op = match unary_op_from_text(&n.children[0].text) {
        Some(op) => op,
        None => return Some(Err(joined("Unknown unary operator: ", n.children[0].text.as_str()))),
    };
    if n.children.len() < 2 {
        return Some(Err(text::string_from("Unary op missing operand")));
    }
    assert(kinds_valid(n.children@[1]));
    match convert_node(&n.children[1]) {
        None => None,
        Some(Err(m)) => Some(Err(m)),
        Some(Ok(a)) => Some(Ok(NixAst::UnaryOp { op, operand: Box::new(a) })),
    }
}

/// A selection converted.
fn select_from(n: &SyntaxNode) -> (r: Option<Result<NixAst, String>>)
    requires
        kinds_valid(*n),
    ensures
        conversion_view(r) == convert_select(*n),
    decreases n, 1int,
{
    if n.children.len() < 1 {
        return Some(Err(text::string_from("Select missing expression")));
    }
    assert(kinds_valid(n.children@[0]));
    let x = match convert_node(&n.children[0]) {
        None => return None,
        Some(Err(m)) => return Some(Err(m)),
        Some(Ok(x)) => x,
    };
    if n.children.len() < 3 {
        return Some(Err(text::string_from("Select missing attribute path")));
    }
    let path = single_segment(n.children[2].text.clone());
    let j = first_text_after_index(&n.children, 2, "or");
    if j < n.children.len() && j + 1 < n.children.len() {
        assert(kinds_valid(n.children@[j + 1]));
        match convert_node(&n.children[j + 1]) {
            Some(Ok(d)) => Some(Ok(NixAst::Select { expr: Box::new(x), attr_path: path, default: Some(Box::new(d)) })),
            _ => None,
        }
    } else {
        Some(Ok(NixAst::Select { expr: Box::new(x), attr_path: path, default: None }))
    }
}

/// A test for an attribute converted.
fn has_attr_from(n: &SyntaxNode) -> (r: Option<Result<NixAst, String>>)
    requires
        kinds_valid(*n),
    ensures
        conversion_view(r) == convert_has_attr(*n),
    decreases n, 1int,
{
    if n.children.len() < 1 {
        return Some(Err(text::string_from("HasAttr missing expression")));
    }
    assert(kinds_valid(n.children@[0]));
    let x = match convert_node(&n.children[0]) {
        None => return None,
        Some(Err(m)) => return Some(Err(m)),
        Some(Ok(x)) => x,
    };
    if n.children.len() < 3 {
        return Some(Err(text::string_from("HasAttr missing attribute path")));
    }
    let path = single_segment(n.children[2].text.clone());
    Some(Ok(NixAst::HasAttr { expr: Box::new(x), attr_path: path }))
}

/// An `import` converted.
fn import_from(n: &SyntaxNode) -> (r: Option<Result<NixAst, String>>)
    requires
        kinds_valid(*n),
    ensures
        conversion_view(r) == convert_import(*n),
    decreases n, 0int,
{
    if n.children.len() < 2 {
        return Some(Err(text::string_from("Import missing path")));
    }
    assert(kinds_valid(n.children@[1]));
    match convert_node(&n.children[1]) {
        None => None,
        Some(Err(m)) => Some(Err(m)),
        Some(Ok(x)) => Some(Ok(NixAst::Import(Box::new(x)))),
    }
}

/// Any other node converted.
fn other_from(n: &SyntaxNode) -> (r: Option<Result<NixAst, String>>)
    requires
        kinds_valid(*n),
    ensures
        conversion_view(r) == convert_other(*n),
    decreases n, 1int,
{
    let lit = match first_token_of(n) {
        Some(t) => literal_from_text(&t),
        None => None,
    };
    match lit {
        Some(a) => {
            return Some(Ok(a));
        },
        None => {},
    }
    let i = first_other_index(&n.children, TOKEN_WHITESPACE, TOKEN_COMMENT);
    if i < n.children.len() {
        assert(kinds_valid(n.children@[i as int]));
        return convert_node(&n.children[i]);
    }
    let v = text::chars_of(n.text.as_str());
    if text::starts_with_str(v.as_slice(), "import") {
        return import_from(n);
    }
    let t = text::trim(v.as_slice());
    if t.len() > 0 {
        Some(Ok(NixAst::Identifier(text::string_of(t.as_slice()))))
    } else {
        let name = kind_name(n.kind);
        Some(Err(joined("Unsupported node kind: ", name.as_str())))
    }
}

} // verus!
