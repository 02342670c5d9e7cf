//! Parsed Nix source and its conversion to Nix values.

use vstd::prelude::*;
use crate::syntax::{SyntaxNode, rnix_parse, well_nested, flat, build_tree};
use crate::syntax;
use crate::text;
use crate::named::insert;
use crate::value::{ValueModel, NixValue, NixAttrset, NixList, NixString, NixInteger, NixFloat, NixBool, NixNull, values_model};

verus! {

broadcast use vstd::string::group_string_axioms;

/// rnix's `TOKEN_FLOAT`.
pub const TOKEN_FLOAT: u16 = 43;
/// rnix's `TOKEN_IDENT`.
pub const TOKEN_IDENT: u16 = 44;
/// rnix's `TOKEN_INTEGER`.
pub const TOKEN_INTEGER: u16 = 45;
/// rnix's `NODE_ATTRPATH`.
pub const NODE_ATTRPATH: u16 = 55;
/// rnix's `NODE_IDENT`.
pub const NODE_IDENT: u16 = 58;
/// rnix's `NODE_STRING`.
pub const NODE_STRING: u16 = 63;
/// rnix's `NODE_LIST`.
pub const NODE_LIST: u16 = 69;
/// rnix's `NODE_ATTR_SET`.
pub const NODE_ATTR_SET: u16 = 76;
/// rnix's `NODE_ATTRPATH_VALUE`.
pub const NODE_ATTRPATH_VALUE: u16 = 77;
/// rnix's `NODE_LITERAL`.
pub const NODE_LITERAL: u16 = 79;

/// Errors of parsing and converting Nix source.
#[derive(Debug, Clone)]
pub enum AstError {
    /// rnix reported a syntax error; the text of the first one.
    ParseError(String),
    /// The tree holds something the conversion cannot represent.
    InvalidSyntax(String),
}

/// The human-readable text of an error.
pub open spec fn ast_error_message(e: AstError) -> Seq<char> {
    match e {
        AstError::ParseError(m) => "Parse error: "@ + m@,
        AstError::InvalidSyntax(m) => "Invalid syntax: "@ + m@,
    }
}

impl AstError {
    /// The error as its `Display` prints it.
    pub fn to_string(&self) -> (s: String)
        ensures
            s@ == ast_error_message(*self),
    {
        let mut v: Vec<char> = Vec::new();
        match self {
            AstError::ParseError(m) => {
                text::append_str(&mut v, "Parse error: ");
                text::append_str(&mut v, m.as_str());
            },
            AstError::InvalidSyntax(m) => {
                text::append_str(&mut v, "Invalid syntax: ");
                text::append_str(&mut v, m.as_str());
            },
        }
        text::string_of(v.as_slice())
    }
}

/// A parsed Nix source text.
#[derive(Debug)]
pub struct NixAst {
    /// The root node (rnix's `NODE_ROOT`).
    pub root: SyntaxNode,
}

/// The source parses: rnix reports no error and its walk is one tree.
pub open spec fn parses(source: Seq<char>) -> bool {
    rnix_parse(source).1.len() == 0 && well_nested(rnix_parse(source).0)
}

/// `r` is what parsing `source` gives: a tree exactly when the source parses,
/// flattening to rnix's walk; otherwise rnix's first error, or a note that
/// the walk is not one tree.
pub open spec fn parsed_as(source: Seq<char>, r: Result<NixAst, AstError>) -> bool {
    &&& r is Ok <==> parses(source)
    &&& r matches Ok(a) ==> flat(a.root) == rnix_parse(source).0
    &&& r matches Err(AstError::ParseError(m)) ==> rnix_parse(source).1.len() > 0 && m@
        == rnix_parse(source).1[0]
    &&& r matches Err(AstError::InvalidSyntax(_)) ==> rnix_parse(source).1.len() == 0
    &&& rnix_parse(source).1.len() > 0 ==> r matches Err(AstError::ParseError(_))
}

impl NixAst {
    /// Parses Nix source. Fails with the first syntax error rnix reports.
    pub fn parse(source: &str) -> (r: Result<NixAst, AstError>)
        ensures
            r is Ok <==> parses(source@),
            r matches Ok(a) ==> flat(a.root) == rnix_parse(source@).0,
            r matches Err(AstError::ParseError(m)) ==> rnix_parse(source@).1.len() > 0 && m@
                == rnix_parse(source@).1[0],
            r matches Err(AstError::InvalidSyntax(_)) ==> rnix_parse(source@).1.len() == 0,
            parsed_as(source@, r),
    {
        let (events, errors) = syntax::rnix_parse_walk(source);
        if errors.len() > 0 {
            let m = errors[0].clone();
            return Err(AstError::ParseError(m));
        }
        match build_tree(&events) {
            Some(root) => Ok(NixAst { root }),
            None => Err(AstError::InvalidSyntax(text::string_from("walk is not a single tree"))),
        }
    }
}

// ---------------------------------------------------------------------------
// Specification of the conversion
// ---------------------------------------------------------------------------

/// Kinds of node that denote a value.
pub open spec fn is_expr_kind(k: u16) -> bool {
    k == NODE_ATTR_SET || k == NODE_LIST || k == NODE_STRING || k == NODE_IDENT || k
        == NODE_LITERAL
}

/// The first node, in preorder, that denotes a value.
pub open spec fn find_expr(n: SyntaxNode) -> Option<SyntaxNode>
    decreases n,
{
    if is_expr_kind(n.kind) {
        Some(n)
    } else {
        find_expr_list(n.children@)
    }
}

/// The first node denoting a value in a list of subtrees.
pub open spec fn find_expr_list(cs: Seq<SyntaxNode>) -> Option<SyntaxNode>
    decreases cs,
{
    if cs.len() == 0 {
        None
    } else {
        match find_expr(cs[0]) {
            Some(x) => Some(x),
            None => find_expr_list(cs.drop_first()),
        }
    }
}

/// The first node of kind `k`, in preorder, starting with `n` itself.
pub open spec fn find_kind(n: SyntaxNode, k: u16) -> Option<SyntaxNode>
    decreases n,
{
    if n.kind == k {
        Some(n)
    } else {
        find_kind_list(n.children@, k)
    }
}

/// The first node of kind `k` in a list of subtrees.
pub open spec fn find_kind_list(cs: Seq<SyntaxNode>, k: u16) -> Option<SyntaxNode>
    decreases cs,
{
    if cs.len() == 0 {
        None
    } else {
        match find_kind(cs[0], k) {
            Some(x) => Some(x),
            None => find_kind_list(cs.drop_first(), k),
        }
    }
}

/// The name of an attribute path: the text of its first identifier.
pub open spec fn attr_name(n: SyntaxNode) -> Option<Seq<char>> {
    match find_kind(n, NODE_IDENT) {
        Some(x) => Some(x.text@),
        None => None,
    }
}

/// The value a literal denotes. An integer literal within `i64` is an
/// integer; a float literal, or an integer literal beyond `i64`, is a float
/// (std's float parser accepts both forms, so the float is kept as its
/// literal); `true`, `false` and `null` are what they say; anything else is
/// an unknown literal.
pub open spec fn literal_value(t: Seq<char>, first_token: Option<u16>) -> Result<
    ValueModel,
    Seq<char>,
> {
    match text::parse_i64_spec(t) {
        Some(i) => Ok(ValueModel::Int(i)),
        None => if first_token == Some(TOKEN_FLOAT) || (t.len() > 0 && text::all_digits(t)) {
            Ok(ValueModel::Float(t))
        } else if t == "true"@ {
            Ok(ValueModel::Bool(true))
        } else if t == "false"@ {
            Ok(ValueModel::Bool(false))
        } else if t == "null"@ {
            Ok(ValueModel::Null)
        } else {
            Err("Unknown literal: "@ + t)
        },
    }
}

/// The value a node of value kind denotes, or the message of the error.
pub open spec fn convert_spec(n: SyntaxNode) -> Result<ValueModel, Seq<char>>
    decreases n, 1int,
{
    if n.kind == NODE_ATTR_SET {
        match attrs_spec(n.children@) {
            Ok(m) => Ok(ValueModel::Attrs(m)),
            Err(e) => Err(e),
        }
    } else if n.kind == NODE_LIST {
        match list_spec(n.children@) {
            Ok(l) => Ok(ValueModel::List(l)),
            Err(e) => Err(e),
        }
    } else if n.kind == NODE_STRING {
        Ok(ValueModel::Str(text::trim_char(n.text@, '"')))
    } else if n.kind == NODE_LITERAL {
        literal_value(n.text@, n.first_token)
    } else {
        Ok(ValueModel::Str(n.text@))
    }
}

/// The attributes bound by the children of an attribute set, in order.
pub open spec fn attrs_spec(cs: Seq<SyntaxNode>) -> Result<Seq<(Seq<char>, ValueModel)>, Seq<char>>
    decreases cs, 0int,
{
    if cs.len() == 0 {
        Ok(Seq::empty())
    } else {
        match attrs_spec(cs.drop_last()) {
            Err(e) => Err(e),
            Ok(m) => if cs.last().kind == NODE_ATTRPATH_VALUE {
                match binding_spec(cs.last().children@) {
                    Err(e) => Err(e),
                    Ok((Some(k), Some(v))) => Ok(insert(m, k, v)),
                    Ok(_) => Ok(m),
                }
            } else {
                Ok(m)
            },
        }
    }
}

/// The name and value of a binding, from its children: the last attribute
/// path gives the name, the last child of value kind gives the value.
pub open spec fn binding_spec(cs: Seq<SyntaxNode>) -> Result<
    (Option<Seq<char>>, Option<ValueModel>),
    Seq<char>,
>
    decreases cs, 0int,
{
    if cs.len() == 0 {
        Ok((None, None))
    } else {
        match binding_spec(cs.drop_last()) {
            Err(e) => Err(e),
            Ok((k, v)) => if cs.last().kind == NODE_ATTRPATH {
                Ok((attr_name(cs.last()), v))
            } else if is_expr_kind(cs.last().kind) {
                match convert_spec(cs.last()) {
                    Ok(x) => Ok((k, Some(x))),
                    Err(e) => Err(e),
                }
            } else {
                Ok((k, v))
            },
        }
    }
}

/// The values of the children of a list that denote values.
pub open spec fn list_spec(cs: Seq<SyntaxNode>) -> Result<Seq<ValueModel>, Seq<char>>
    decreases cs, 0int,
{
    if cs.len() == 0 {
        Ok(Seq::empty())
    } else {
        match list_spec(cs.drop_last()) {
            Err(e) => Err(e),
            Ok(l) => if is_expr_kind(cs.last().kind) {
                match convert_spec(cs.last()) {
                    Ok(x) => Ok(l.push(x)),
                    Err(e) => Err(e),
                }
            } else {
                Ok(l)
            },
        }
    }
}

/// Once the bindings of a prefix fail, those of every longer prefix fail alike.
pub proof fn lemma_attrs_err_stays(cs: Seq<SyntaxNode>, k: int, j: int)
    requires
        0 <= k <= j <= cs.len(),
        attrs_spec(cs.take(k)) is Err,
    ensures
        attrs_spec(cs.take(j)) == attrs_spec(cs.take(k)),
    decreases j - k,
{
    if j > k {
        lemma_attrs_err_stays(cs, k, j - 1);
        assert(cs.take(j).drop_last() =~= cs.take(j - 1));
    }
}

/// Once a prefix of a binding's children fails, every longer prefix fails alike.
pub proof fn lemma_binding_err_stays(cs: Seq<SyntaxNode>, k: int, j: int)
    requires
        0 <= k <= j <= cs.len(),
        binding_spec(cs.take(k)) is Err,
    ensures
        binding_spec(cs.take(j)) == binding_spec(cs.take(k)),
    decreases j - k,
{
    if j > k {
        lemma_binding_err_stays(cs, k, j - 1);
        assert(cs.take(j).drop_last() =~= cs.take(j - 1));
    }
}

/// Once a prefix of a list's children fails, every longer prefix fails alike.
pub proof fn lemma_list_err_stays(cs: Seq<SyntaxNode>, k: int, j: int)
    requires
        0 <= k <= j <= cs.len(),
        list_spec(cs.take(k)) is Err,
    ensures
        list_spec(cs.take(j)) == list_spec(cs.take(k)),
    decreases j - k,
{
    if j > k {
        lemma_list_err_stays(cs, k, j - 1);
        assert(cs.take(j).drop_last() =~= cs.take(j - 1));
    }
}

/// What `find_expr` finds denotes a value.
pub proof fn lemma_find_expr_kind(n: SyntaxNode)
    ensures
        find_expr(n) matches Some(x) ==> is_expr_kind(x.kind),
    decreases n,
{
    if !is_expr_kind(n.kind) {
        lemma_find_expr_list_kind(n.children@);
    }
}

/// What `find_expr_list` finds denotes a value.
pub proof fn lemma_find_expr_list_kind(cs: Seq<SyntaxNode>)
    ensures
        find_expr_list(cs) matches Some(x) ==> is_expr_kind(x.kind),
    decreases cs,
{
    if cs.len() > 0 {
        lemma_find_expr_kind(cs[0]);
        lemma_find_expr_list_kind(cs.drop_first());
    }
}

/// The value a parsed source denotes: that of its first node of value kind.
pub open spec fn ast_value(root: SyntaxNode) -> Result<ValueModel, Seq<char>> {
    match find_expr(root) {
        Some(e) => convert_spec(e),
        None => Err("No expression found in AST"@),
    }
}


// ---------------------------------------------------------------------------
// Conversion
// ---------------------------------------------------------------------------

/// The conversion gave the expected value, or failed with the expected message.
pub open spec fn converted(r: Result<NixValue, AstError>, s: Result<ValueModel, Seq<char>>) -> bool {
    match s {
        Ok(m) => r matches Ok(v) && v.model() == m,
        Err(e) => r matches Err(AstError::InvalidSyntax(x)) && x@ == e,
    }
}

/// Whether a node kind denotes a value.
pub fn is_expression_kind(k: u16) -> (b: bool)
    ensures
        b == is_expr_kind(k),
{
    k == NODE_ATTR_SET || k == NODE_LIST || k == NODE_STRING || k == NODE_IDENT || k
        == NODE_LITERAL
}

/// Whether every character is an ASCII digit.
fn all_digits(s: &[char]) -> (b: bool)
    ensures
        b == text::all_digits(s@),
{
    let mut i: usize = 0;
    while i < s.len()
        invariant
            i <= s.len(),
            forall|j: int| 0 <= j < i ==> '0' <= #[trigger] s@[j] <= '9',
        decreases s.len() - i,
    {
        if !('0' <= s[i] && s[i] <= '9') {
            return false;
        }
        i = i + 1;
    }
    true
}

/// Converts rnix syntax trees to Nix values.
pub struct AstConverter;

impl AstConverter {
    /// A converter.
    pub fn new() -> (r: Self) {
        AstConverter
    }

    /// The value of a parsed source: that of its first node of value kind.
    pub fn convert(&self, ast: &NixAst) -> (r: Result<NixValue, AstError>)
        ensures
            converted(r, ast_value(ast.root)),
    {
        proof {
            lemma_find_expr_kind(ast.root);
        }
        match self.find_expression(&ast.root) {
            Some(e) => self.convert_node(e),
            None => Err(AstError::InvalidSyntax(text::string_from("No expression found in AST"))),
        }
    }

    /// The first node of value kind, in preorder.
    fn find_expression<'a>(&self, n: &'a SyntaxNode) -> (r: Option<&'a SyntaxNode>)
        ensures
            match find_expr(*n) {
                Some(x) => r matches Some(y) && *y == x,
                None => r is None,
            },
        decreases n,
    {
        if is_expression_kind(n.kind) {
            return Some(n);
        }
        let mut i: usize = 0;
        assert(n.children@.skip(0) =~= n.children@);
        while i < n.children.len()
            invariant
                i <= n.children.len(),
                !is_expr_kind(n.kind),
                find_expr(*n) == find_expr_list(n.children@.skip(i as int)),
            decreases n.children.len() - i,
        {
            let c = &n.children[i];
            proof {
                assert(n.children@.skip(i as int)[0] == *c);
                assert(n.children@.skip(i as int).drop_first() =~= n.children@.skip(i + 1));
            }
            match self.find_expression(c) {
                Some(x) => return Some(x),
                None => {},
            }
            i = i + 1;
        }
        None
    }

    /// The first node of kind `k`, in preorder.
    fn find_kind<'a>(&self, n: &'a SyntaxNode, k: u16) -> (r: Option<&'a SyntaxNode>)
        ensures
            match find_kind(*n, k) {
                Some(x) => r matches Some(y) && *y == x,
                None => r is None,
            },
        decreases n,
    {
        if n.kind == k {
            return Some(n);
        }
        let mut i: usize = 0;
        assert(n.children@.skip(0) =~= n.children@);
        while i < n.children.len()
            invariant
                i <= n.children.len(),
                n.kind != k,
                find_kind(*n, k) == find_kind_list(n.children@.skip(i as int), k),
            decreases n.children.len() - i,
        {
            let c = &n.children[i];
            proof {
                assert(n.children@.skip(i as int)[0] == *c);
                assert(n.children@.skip(i as int).drop_first() =~= n.children@.skip(i + 1));
            }
            match self.find_kind(c, k) {
                Some(x) => return Some(x),
                None => {},
            }
            i = i + 1;
        }
        None
    }

    /// Converts a node of value kind.
    fn convert_node(&self, n: &SyntaxNode) -> (r: Result<NixValue, AstError>)
        requires
            is_expr_kind(n.kind),
        ensures
            converted(r, convert_spec(*n)),
        decreases n, 2int,
    {
        if n.kind == NODE_ATTR_SET {
            self.convert_attrset(n)
        } else if n.kind == NODE_LIST {
            self.convert_list(n)
        } else if n.kind == NODE_STRING {
            self.convert_string(n)
        } else if n.kind == NODE_LITERAL {
            self.convert_literal(n)
        } else {
            self.convert_ident(n)
        }
    }

    /// Converts an attribute set node.
    fn convert_attrset(&self, n: &SyntaxNode) -> (r: Result<NixValue, AstError>)
        requires
            n.kind == NODE_ATTR_SET,
        ensures
            converted(r, convert_spec(*n)),
        decreases n, 1int,
    {
        let mut attrs = NixAttrset::new();
        let mut i: usize = 0;
        let ghost cs = n.children@;
        assert(cs.take(0) =~= Seq::<SyntaxNode>::empty());
        while i < n.children.len()
            invariant
                i <= n.children.len(),
                cs == n.children@,
                n.kind == NODE_ATTR_SET,
                attrs_spec(cs.take(i as int)) == Ok::<_, Seq<char>>(attrs.model()),
            decreases n.children.len() - i,
        {
            let c = &n.children[i];
            proof {
                assert(cs.take(i + 1).drop_last() =~= cs.take(i as int));
                assert(cs.take(i + 1).last() == *c);
            }
            if c.kind == NODE_ATTRPATH_VALUE {
                match self.extract_binding(c) {
                    Err(e) => {
                        proof {
                            let m = binding_spec(c.children@)->Err_0;
                            assert(attrs_spec(cs.take(i + 1)) == Err::<
                                Seq<(Seq<char>, ValueModel)>,
                                Seq<char>,
                            >(m));
                            lemma_attrs_err_stays(cs, i + 1, cs.len() as int);
                            assert(cs.take(cs.len() as int) =~= cs);
                            assert(convert_spec(*n) == Err::<ValueModel, Seq<char>>(m));
                        }
                        return Err(e);
                    },
                    Ok(Some((k, v))) => {
                        attrs.insert(k, v);
                    },
                    Ok(None) => {},
                }
            }
            i = i + 1;
        }
        assert(cs.take(n.children.len() as int) =~= cs);
        Ok(NixValue::Attrset(attrs))
    }

    /// The name and value of a binding node, when it has both.
    fn extract_binding(&self, n: &SyntaxNode) -> (r: Result<Option<(String, NixValue)>, AstError>)
        ensures
            match binding_spec(n.children@) {
                Ok((Some(k), Some(v))) => r matches Ok(Some((x, y))) && x@ == k && y.model() == v,
                Ok(_) => r matches Ok(None),
                Err(e) => r matches Err(AstError::InvalidSyntax(x)) && x@ == e,
            },
        decreases n, 1int,
    {
        let mut key: Option<String> = None;
        let mut value: Option<NixValue> = None;
        let mut i: usize = 0;
        let ghost cs = n.children@;
        assert(cs.take(0) =~= Seq::<SyntaxNode>::empty());
        while i < n.children.len()
            invariant
                i <= n.children.len(),
                cs == n.children@,
                binding_spec(cs.take(i as int)) matches Ok((k, v)) && (match k {
                    Some(kk) => key matches Some(x) && x@ == kk,
                    None => key is None,
                }) && (match v {
                    Some(vv) => value matches Some(y) && y.model() == vv,
                    None => value is None,
                }),
            decreases n.children.len() - i,
        {
            let c = &n.children[i];
            proof {
                assert(cs.take(i + 1).drop_last() =~= cs.take(i as int));
                assert(cs.take(i + 1).last() == *c);
            }
            if c.kind == NODE_ATTRPATH {
                key = self.extract_attr_name(c);
            } else if is_expression_kind(c.kind) {
                match self.convert_node(c) {
                    Ok(v) => {
                        value = Some(v);
                    },
                    Err(e) => {
                        proof {
                            lemma_binding_err_stays(cs, i + 1, cs.len() as int);
                            assert(cs.take(cs.len() as int) =~= cs);
                        }
                        return Err(e);
                    },
                }
            }
            i = i + 1;
        }
        assert(cs.take(n.children.len() as int) =~= cs);
        match (key, value) {
            (Some(k), Some(v)) => Ok(Some((k, v))),
            _ => Ok(None),
        }
    }

    /// The name of an attribute path: the text of its first identifier.
    fn extract_attr_name(&self, n: &SyntaxNode) -> (r: Option<String>)
        ensures
            match attr_name(*n) {
                Some(k) => r matches Some(x) && x@ == k,
                None => r is None,
            },
    {
        match self.find_kind(n, NODE_IDENT) {
            Some(x) => Some(x.text.clone()),
            None => None,
        }
    }

    /// Converts a list node.
    fn convert_list(&self, n: &SyntaxNode) -> (r: Result<NixValue, AstError>)
        requires
            n.kind == NODE_LIST,
        ensures
            converted(r, convert_spec(*n)),
        decreases n, 1int,
    {
        let mut elements: Vec<NixValue> = Vec::new();
        let mut i: usize = 0;
        let ghost cs = n.children@;
        assert(cs.take(0) =~= Seq::<SyntaxNode>::empty());
        while i < n.children.len()
            invariant
                i <= n.children.len(),
                cs == n.children@,
                n.kind == NODE_LIST,
                list_spec(cs.take(i as int)) == Ok::<_, Seq<char>>(values_model(elements@)),
            decreases n.children.len() - i,
        {
            let c = &n.children[i];
            proof {
                assert(cs.take(i + 1).drop_last() =~= cs.take(i as int));
                assert(cs.take(i + 1).last() == *c);
            }
            if is_expression_kind(c.kind) {
                match self.convert_node(c) {
                    Ok(v) => {
                        let ghost before = elements@;
                        elements.push(v);
                        proof {
                            assert(elements@.drop_last() =~= before);
                        }
                    },
                    Err(e) => {
                        proof {
                            let m = convert_spec(*c)->Err_0;
                            assert(list_spec(cs.take(i + 1)) == Err::<Seq<ValueModel>, Seq<char>>(
                                m,
                            ));
                            lemma_list_err_stays(cs, i + 1, cs.len() as int);
                            assert(cs.take(cs.len() as int) =~= cs);
                            assert(convert_spec(*n) == Err::<ValueModel, Seq<char>>(m));
                        }
                        return Err(e);
                    },
                }
            }
            i = i + 1;
        }
        assert(cs.take(n.children.len() as int) =~= cs);
        Ok(NixValue::List(NixList { elements }))
    }

    /// Converts a string node: its text without the enclosing quotes.
    fn convert_string(&self, n: &SyntaxNode) -> (r: Result<NixValue, AstError>)
        requires
            n.kind == NODE_STRING,
        ensures
            converted(r, convert_spec(*n)),
    {
        let t = text::chars_of(n.text.as_str());
        let content = text::trim_matches(t.as_slice(), '"');
        Ok(NixValue::String(NixString { value: text::string_of(content.as_slice()) }))
    }

    /// Converts a literal node.
    fn convert_literal(&self, n: &SyntaxNode) -> (r: Result<NixValue, AstError>)
        requires
            n.kind == NODE_LITERAL,
        ensures
            converted(r, convert_spec(*n)),
    {
        let t = text::chars_of(n.text.as_str());
        let ts = t.as_slice();
        match text::parse_i64(ts) {
            Some(i) => return Ok(NixValue::Integer(NixInteger { value: i })),
            None => {},
        }
        let is_float_token = match n.first_token {
            Some(k) => k == TOKEN_FLOAT,
            None => false,
        };
        if is_float_token || (ts.len() > 0 && all_digits(ts)) {
            return Ok(NixValue::Float(NixFloat { literal: n.text.clone() }));
        }
        if text::eq_str(ts, "true") {
            return Ok(NixValue::Bool(NixBool { value: true }));
        }
        if text::eq_str(ts, "false") {
            return Ok(NixValue::Bool(NixBool { value: false }));
        }
        if text::eq_str(ts, "null") {
            return Ok(NixValue::Null(NixNull));
        }
        let mut m: Vec<char> = Vec::new();
        text::append_str(&mut m, "Unknown literal: ");
        text::append_chars(&mut m, ts);
        Err(AstError::InvalidSyntax(text::string_of(m.as_slice())))
    }

    /// Converts an identifier node: it stands for the string of its text.
    fn convert_ident(&self, n: &SyntaxNode) -> (r: Result<NixValue, AstError>)
        requires
            n.kind == NODE_IDENT,
        ensures
            converted(r, convert_spec(*n)),
    {
        Ok(NixValue::String(NixString { value: n.text.clone() }))
    }
}

impl Default for AstConverter {
    fn default() -> (r: Self) {
        AstConverter::new()
    }
}

/// Converts a parsed source to the value it denotes.
pub fn ast_to_value(ast: &NixAst) -> (r: Result<NixValue, AstError>)
    ensures
        converted(r, ast_value(ast.root)),
{
    let converter = AstConverter::new();
    converter.convert(ast)
}

} // verus!
