//! Questions asked of a Nix syntax tree: where an attribute is bound and to
//! what, the string a node holds, the parts of a function, the nodes of a
//! kind, the imports of a module and the names of an attribute path.

use vstd::prelude::*;
use crate::ast::{NODE_ATTRPATH, NODE_ATTR_SET, NODE_IDENT, NODE_LIST, NODE_STRING};
use crate::named::{first_where, lemma_first_where};
use crate::source_parser::{NODE_APPLY, NODE_LAMBDA};
use crate::syntax::SyntaxNode;
use crate::text;

verus! {

broadcast use vstd::string::group_string_axioms;

/// The attribute set a node stands for: the node itself when it is one,
/// else its first child that is one.
pub open spec fn attr_set_of(n: SyntaxNode) -> Option<SyntaxNode> {
    if n.kind == NODE_ATTR_SET {
        Some(n)
    } else {
        match first_where(n.children@, |c: SyntaxNode| c.kind == NODE_ATTR_SET) {
            Some(i) => Some(n.children@[i]),
            None => None,
        }
    }
}

/// Whether a child of an attribute set reads as a binding of `name`: its
/// text, trimmed, starts with the name and holds `=`.
pub open spec fn reads_as_binding(c: SyntaxNode, name: Seq<char>) -> bool {
    text::has_prefix(text::trimmed(c.text@), name) && text::has_sub(text::trimmed(c.text@), "="@)
}

/// Whether a node is of a kind that holds a value of a binding: a string,
/// an attribute set or a list.
pub open spec fn is_value_node(c: SyntaxNode) -> bool {
    c.kind == NODE_STRING || c.kind == NODE_ATTR_SET || c.kind == NODE_LIST
}

/// Whether a child reads as a binding of `name` and has a child holding a value.
pub open spec fn binds_value(c: SyntaxNode, name: Seq<char>) -> bool {
    reads_as_binding(c, name) && first_where(c.children@, |v: SyntaxNode| is_value_node(v)) is Some
}

/// The value node of the binding of `name` in the attribute set a node
/// stands for: in the first child that reads as a binding of it and has a
/// child holding a value, that first such child.
pub open spec fn attribute_value_of(n: SyntaxNode, name: Seq<char>) -> Option<SyntaxNode> {
    match attr_set_of(n) {
        None => None,
        Some(s) => match first_where(s.children@, |c: SyntaxNode| binds_value(c, name)) {
            None => None,
            Some(i) => {
                let c = s.children@[i];
                Some(c.children@[first_where(c.children@, |v: SyntaxNode| is_value_node(v))->0])
            },
        },
    }
}

/// The string a node holds: the text of the node, or else of its first
/// string child, without the quotes at its ends.
pub open spec fn string_value_of(n: SyntaxNode) -> Option<Seq<char>> {
    if n.kind == NODE_STRING {
        Some(text::trim_end_char(text::trim_start_char(n.text@, '"'), '"'))
    } else {
        match first_where(n.children@, |c: SyntaxNode| c.kind == NODE_STRING) {
            Some(i) => Some(
                text::trim_end_char(text::trim_start_char(n.children@[i].text@, '"'), '"'),
            ),
            None => None,
        }
    }
}

/// The nodes of a tree, each before its children.
pub open spec fn preorder(n: SyntaxNode) -> Seq<SyntaxNode>
    decreases n, 1int,
{
    seq![n] + preorder_list(n.children@)
}

/// The nodes of a sequence of trees, each tree in preorder.
pub open spec fn preorder_list(cs: Seq<SyntaxNode>) -> Seq<SyntaxNode>
    decreases cs, 0int,
{
    if cs.len() == 0 {
        Seq::empty()
    } else {
        preorder_list(cs.drop_last()) + preorder(cs.last())
    }
}

/// The nodes of a sequence that are of kind `k`, in order.
pub open spec fn of_kind(ns: Seq<SyntaxNode>, k: u16) -> Seq<SyntaxNode>
    decreases ns.len(),
{
    if ns.len() == 0 {
        Seq::empty()
    } else {
        of_kind(ns.drop_last(), k) + if ns.last().kind == k {
            seq![ns.last()]
        } else {
            Seq::<SyntaxNode>::empty()
        }
    }
}

proof fn lemma_of_kind_append(a: Seq<SyntaxNode>, b: Seq<SyntaxNode>, k: u16)
    ensures
        of_kind(a + b, k) == of_kind(a, k) + of_kind(b, k),
    decreases b.len(),
{
    if b.len() == 0 {
        assert(a + b =~= a);
        assert(of_kind(a, k) + of_kind(b, k) =~= of_kind(a, k));
    } else {
        lemma_of_kind_append(a, b.drop_last(), k);
        assert((a + b).drop_last() =~= a + b.drop_last());
        assert((a + b).last() == b.last());
    }
}

/// Whether a node applies a function and its text holds `name`.
pub open spec fn calls(n: SyntaxNode, name: Seq<char>) -> bool {
    n.kind == NODE_APPLY && text::has_sub(n.text@, name)
}

/// The texts of the identifier children of a node.
pub open spec fn ident_texts(cs: Seq<SyntaxNode>) -> Seq<Seq<char>>
    decreases cs.len(),
{
    if cs.len() == 0 {
        Seq::empty()
    } else {
        ident_texts(cs.drop_last()) + if cs.last().kind == NODE_IDENT {
            seq![cs.last().text@]
        } else {
            Seq::<Seq<char>>::empty()
        }
    }
}

/// The position of the first child of a kind.
fn first_child_of_kind(n: &SyntaxNode, k: u16) -> (r: Option<usize>)
    ensures
        r matches Some(i) ==> first_where(n.children@, |c: SyntaxNode| c.kind == k) == Some(i as int)
            && i < n.children@.len(),
        r is None ==> first_where(n.children@, |c: SyntaxNode| c.kind == k) is None,
{
    let ghost p = |c: SyntaxNode| c.kind == k;
    proof {
        lemma_first_where(n.children@, p);
    }
    let mut i: usize = 0;
    while i < n.children.len()
        invariant
            i <= n.children@.len(),
            p == (|c: SyntaxNode| c.kind == k),
            forall|j: int| 0 <= j < i ==> !p(#[trigger] n.children@[j]),
            match first_where(n.children@, p) {
                Some(m) => 0 <= m < n.children@.len() && p(n.children@[m]) && forall|j: int|
                    0 <= j < m ==> !p(#[trigger] n.children@[j]),
                None => forall|j: int| 0 <= j < n.children@.len() ==> !p(#[trigger] n.children@[j]),
            },
        decreases n.children@.len() - i,
    {
        if n.children[i].kind == k {
            assert(p(n.children@[i as int]));
            return Some(i);
        }
        i = i + 1;
    }
    None
}

/// The attribute set a node stands for.
fn attr_set_node(n: &SyntaxNode) -> (r: Option<&SyntaxNode>)
    ensures
        match attr_set_of(*n) {
            Some(s) => r matches Some(x) && *x == s,
            None => r is None,
        },
{
    if n.kind == NODE_ATTR_SET {
        Some(n)
    } else {
        match first_child_of_kind(n, NODE_ATTR_SET) {
            Some(i) => Some(&n.children[i]),
            None => None,
        }
    }
}

/// Whether a child reads as a binding of `name`.
fn reads_as(c: &SyntaxNode, name: &str) -> (b: bool)
    ensures
        b == reads_as_binding(*c, name@),
{
    let v = text::chars_of(c.text.as_str());
    let t = text::trim(v.as_slice());
    let n = text::chars_of(name);
    text::starts_with(t.as_slice(), n.as_slice()) && text::contains_str(t.as_slice(), "=")
}

/// The position of the first child holding a value.
fn first_value_child(c: &SyntaxNode) -> (r: Option<usize>)
    ensures
        r matches Some(i) ==> first_where(c.children@, |v: SyntaxNode| is_value_node(v)) == Some(
            i as int,
        ) && i < c.children@.len(),
        r is None ==> first_where(c.children@, |v: SyntaxNode| is_value_node(v)) is None,
{
    let ghost p = |v: SyntaxNode| is_value_node(v);
    proof {
        lemma_first_where(c.children@, p);
    }
    let mut i: usize = 0;
    while i < c.children.len()
        invariant
            i <= c.children@.len(),
            p == (|v: SyntaxNode| is_value_node(v)),
            forall|j: int| 0 <= j < i ==> !p(#[trigger] c.children@[j]),
            match first_where(c.children@, p) {
                Some(m) => 0 <= m < c.children@.len() && p(c.children@[m]) && forall|j: int|
                    0 <= j < m ==> !p(#[trigger] c.children@[j]),
                None => forall|j: int| 0 <= j < c.children@.len() ==> !p(#[trigger] c.children@[j]),
            },
        decreases c.children@.len() - i,
    {
        let k = c.children[i].kind;
        if k == NODE_STRING || k == NODE_ATTR_SET || k == NODE_LIST {
            assert(p(c.children@[i as int]));
            return Some(i);
        }
        i = i + 1;
    }
    None
}

/// The child of an attribute set that binds `name`: the first child of the
/// set the node stands for whose text, trimmed, starts with the name and
/// holds `=`.
pub fn find_attribute<'a>(attrset: &'a SyntaxNode, name: &str) -> (r: Option<&'a SyntaxNode>)
    ensures
        match attr_set_of(*attrset) {
            None => r is None,
            Some(s) => match first_where(s.children@, |c: SyntaxNode| reads_as_binding(c, name@)) {
                Some(i) => r matches Some(x) && *x == s.children@[i],
                None => r is None,
            },
        },
{
    let s = match attr_set_node(attrset) {
        Some(s) => s,
        None => {
            return None;
        },
    };
    let ghost p = |c: SyntaxNode| reads_as_binding(c, name@);
    proof {
        lemma_first_where(s.children@, p);
    }
    let mut i: usize = 0;
    while i < s.children.len()
        invariant
            i <= s.children@.len(),
            p == (|c: SyntaxNode| reads_as_binding(c, name@)),
            attr_set_of(*attrset) == Some(*s),
            forall|j: int| 0 <= j < i ==> !p(#[trigger] s.children@[j]),
            match first_where(s.children@, p) {
                Some(m) => 0 <= m < s.children@.len() && p(s.children@[m]) && forall|j: int|
                    0 <= j < m ==> !p(#[trigger] s.children@[j]),
                None => forall|j: int| 0 <= j < s.children@.len() ==> !p(#[trigger] s.children@[j]),
            },
        decreases s.children@.len() - i,
    {
        if reads_as(&s.children[i], name) {
            assert(p(s.children@[i as int]));
            return Some(&s.children[i]);
        }
        i = i + 1;
    }
    None
}

/// The node holding the value bound to `name` in an attribute set: a string,
/// attribute set or list child of the first binding of the name that has one.
pub fn get_attribute_value<'a>(attrset: &'a SyntaxNode, name: &str) -> (r: Option<&'a SyntaxNode>)
    ensures
        match attribute_value_of(*attrset, name@) {
            Some(v) => r matches Some(x) && *x == v,
            None => r is None,
        },
{
    let s = match attr_set_node(attrset) {
        Some(s) => s,
        None => {
            return None;
        },
    };
    let ghost p = |c: SyntaxNode| binds_value(c, name@);
    proof {
        lemma_first_where(s.children@, p);
    }
    let mut i: usize = 0;
    while i < s.children.len()
        invariant
            i <= s.children@.len(),
            p == (|c: SyntaxNode| binds_value(c, name@)),
            attr_set_of(*attrset) == Some(*s),
            forall|j: int| 0 <= j < i ==> !p(#[trigger] s.children@[j]),
            match first_where(s.children@, p) {
                Some(m) => 0 <= m < s.children@.len() && p(s.children@[m]) && forall|j: int|
                    0 <= j < m ==> !p(#[trigger] s.children@[j]),
                None => forall|j: int| 0 <= j < s.children@.len() ==> !p(#[trigger] s.children@[j]),
            },
        decreases s.children@.len() - i,
    {
        let c = &s.children[i];
        if reads_as(c, name) {
            match first_value_child(c) {
                Some(k) => {
                    assert(p(s.children@[i as int]));
                    return Some(&c.children[k]);
                },
                None => {},
            }
        }
        i = i + 1;
    }
    None
}

/// The string a node holds, without the quotes at its ends: the node's own
/// text when it is a string, else that of its first string child.
pub fn extract_string_value(node: &SyntaxNode) -> (r: Option<String>)
    ensures
        match string_value_of(*node) {
            Some(v) => r matches Some(s) && s@ == v,
            None => r is None,
        },
{
    if node.kind == NODE_STRING {
        let v = text::chars_of(node.text.as_str());
        let t = text::trim_matches(v.as_slice(), '"');
        Some(text::string_of(t.as_slice()))
    } else {
        match first_child_of_kind(node, NODE_STRING) {
            Some(i) => {
                let v = text::chars_of(node.children[i].text.as_str());
                let t = text::trim_matches(v.as_slice(), '"');
                Some(text::string_of(t.as_slice()))
            },
            None => None,
        }
    }
}

/// Whether a node is an attribute set.
pub fn is_attrset(node: &SyntaxNode) -> (b: bool)
    ensures
        b == (node.kind == NODE_ATTR_SET),
{
    node.kind == NODE_ATTR_SET
}

/// Whether a node is a function.
pub fn is_lambda(node: &SyntaxNode) -> (b: bool)
    ensures
        b == (node.kind == NODE_LAMBDA),
{
    node.kind == NODE_LAMBDA
}

/// The parameter of a function: the text of its first child, when that is
/// an identifier.
pub fn get_lambda_param(lambda: &SyntaxNode) -> (r: Option<String>)
    ensures
        if lambda.children@.len() > 0 && lambda.children@[0].kind == NODE_IDENT {
            r matches Some(s) && s@ == lambda.children@[0].text@
        } else {
            r is None
        },
{
    if lambda.children.len() > 0 && lambda.children[0].kind == NODE_IDENT {
        Some(lambda.children[0].text.clone())
    } else {
        None
    }
}

/// The body of a function: its second child.
pub fn get_lambda_body(lambda: &SyntaxNode) -> (r: Option<&SyntaxNode>)
    ensures
        if lambda.children@.len() > 1 {
            r matches Some(x) && *x == lambda.children@[1]
        } else {
            r is None
        },
{
    if lambda.children.len() > 1 {
        Some(&lambda.children[1])
    } else {
        None
    }
}

/// Adds to `out` the nodes of kind `k` of a tree, each before those of its
/// children.
fn collect_kind<'a>(n: &'a SyntaxNode, k: u16, out: &mut Vec<&'a SyntaxNode>)
    ensures
        final(out)@.map_values(|x: &SyntaxNode| *x) == old(out)@.map_values(|x: &SyntaxNode| *x)
            + of_kind(preorder(*n), k),
    decreases n,
{
    let ghost o0 = out@.map_values(|x: &SyntaxNode| *x);
    if n.kind == k {
        out.push(n);
    }
    proof {
        assert(of_kind(seq![*n], k) == if n.kind == k {
            seq![*n]
        } else {
            Seq::<SyntaxNode>::empty()
        }) by {
            assert(seq![*n].drop_last() =~= Seq::<SyntaxNode>::empty());
            assert(seq![*n].last() == *n);
            assert(of_kind(Seq::<SyntaxNode>::empty(), k) == Seq::<SyntaxNode>::empty());
            reveal_with_fuel(of_kind, 2);
        }
        assert(out@.map_values(|x: &SyntaxNode| *x) =~= o0 + of_kind(seq![*n], k));
    }
    let mut i: usize = 0;
    assert(n.children@.take(0) =~= Seq::<SyntaxNode>::empty());
    while i < n.children.len()
        invariant
            i <= n.children@.len(),
            out@.map_values(|x: &SyntaxNode| *x) == o0 + of_kind(seq![*n], k) + of_kind(
                preorder_list(n.children@.take(i as int)),
                k,
            ),
        decreases n.children@.len() - i,
    {
        let ghost before = out@.map_values(|x: &SyntaxNode| *x);
        collect_kind(&n.children[i], k, out);
        proof {
            let t = n.children@.take(i + 1);
            assert(t.drop_last() =~= n.children@.take(i as int));
            assert(t.last() == n.children@[i as int]);
            lemma_of_kind_append(
                preorder_list(n.children@.take(i as int)),
                preorder(n.children@[i as int]),
                k,
            );
        }
        i = i + 1;
    }
    proof {
        assert(n.children@.take(n.children@.len() as int) =~= n.children@);
        lemma_of_kind_append(seq![*n], preorder_list(n.children@), k);
    }
}

/// The nodes of kind `kind` in a tree, each before those of its children.
pub fn find_all_by_kind<'a>(root: &'a SyntaxNode, kind: u16) -> (r: Vec<&'a SyntaxNode>)
    ensures
        r@.map_values(|x: &SyntaxNode| *x) == of_kind(preorder(*root), kind),
{
    let mut out: Vec<&'a SyntaxNode> = Vec::new();
    collect_kind(root, kind, &mut out);
    assert(out@.map_values(|x: &SyntaxNode| *x) =~= of_kind(preorder(*root), kind));
    out
}

/// The strings held by the nodes of a sequence, for those that hold one.
pub open spec fn strings_held(cs: Seq<SyntaxNode>) -> Seq<Seq<char>>
    decreases cs.len(),
{
    if cs.len() == 0 {
        Seq::empty()
    } else {
        strings_held(cs.drop_last()) + match string_value_of(cs.last()) {
            Some(v) => seq![v],
            None => Seq::<Seq<char>>::empty(),
        }
    }
}

/// The imports of a module: the strings held by the elements of the list
/// bound to `imports`; none when `imports` is not bound to a list.
pub open spec fn imports_of(module: SyntaxNode) -> Seq<Seq<char>> {
    match attribute_value_of(module, "imports"@) {
        Some(v) => if v.kind == NODE_LIST {
            strings_held(v.children@)
        } else {
            Seq::empty()
        },
        None => Seq::empty(),
    }
}

/// The paths a module imports.
pub fn extract_imports(module: &SyntaxNode) -> (r: Vec<String>)
    ensures
        r@.map_values(|s: String| s@) == imports_of(*module),
{
    let mut out: Vec<String> = Vec::new();
    match get_attribute_value(module, "imports") {
        Some(list) => {
            if list.kind == NODE_LIST {
                let mut i: usize = 0;
                assert(list.children@.take(0) =~= Seq::<SyntaxNode>::empty());
                while i < list.children.len()
                    invariant
                        i <= list.children@.len(),
                        out@.map_values(|s: String| s@) == strings_held(
                            list.children@.take(i as int),
                        ),
                    decreases list.children@.len() - i,
                {
                    let ghost before = out@;
                    let v = extract_string_value(&list.children[i]);
                    match v {
                        Some(t) => {
                            out.push(t);
                            assert(out@.map_values(|s: String| s@) =~= before.map_values(
                                |s: String| s@,
                            ).push(string_value_of(list.children@[i as int])->0));
                        },
                        None => {},
                    }
                    proof {
                        let t = list.children@.take(i + 1);
                        assert(t.drop_last() =~= list.children@.take(i as int));
                        assert(t.last() == list.children@[i as int]);
                    }
                    i = i + 1;
                    assert(out@.map_values(|s: String| s@) =~= strings_held(
                        list.children@.take(i as int),
                    ));
                }
                assert(list.children@.take(list.children@.len() as int) =~= list.children@);
            }
        },
        None => {},
    }
    assert(out@.map_values(|s: String| s@) =~= imports_of(*module));
    out
}

/// Whether a node or one of the nodes below it applies a function and its
/// text holds `name`.
pub open spec fn calls_within(n: SyntaxNode, name: Seq<char>) -> bool
    decreases n, 1int,
{
    calls(n, name) || calls_within_list(n.children@, name)
}

/// Whether a node of one of the trees of a sequence makes such a call.
pub open spec fn calls_within_list(cs: Seq<SyntaxNode>, name: Seq<char>) -> bool
    decreases cs, 0int,
{
    cs.len() > 0 && (calls_within_list(cs.drop_last(), name) || calls_within(cs.last(), name))
}

/// Whether a tree applies a function anywhere with `function_name` in the
/// text of the application.
pub fn contains_function_call(node: &SyntaxNode, function_name: &str) -> (b: bool)
    ensures
        b == calls_within(*node, function_name@),
    decreases node,
{
    if node.kind == NODE_APPLY {
        let v = text::chars_of(node.text.as_str());
        let p = text::chars_of(function_name);
        if text::contains(v.as_slice(), p.as_slice()) {
            return true;
        }
    }
    let mut i: usize = 0;
    while i < node.children.len()
        invariant
            i <= node.children@.len(),
            !calls(*node, function_name@),
            !calls_within_list(node.children@.take(i as int), function_name@),
        decreases node.children@.len() - i,
    {
        proof {
            let t = node.children@.take(i + 1);
            assert(t.drop_last() =~= node.children@.take(i as int));
            assert(t.last() == node.children@[i as int]);
        }
        if contains_function_call(&node.children[i], function_name) {
            proof {
                lemma_calls_within_prefix(node.children@, i + 1, function_name@);
            }
            return true;
        }
        i = i + 1;
    }
    assert(node.children@.take(node.children@.len() as int) =~= node.children@);
    false
}

proof fn lemma_calls_within_prefix(cs: Seq<SyntaxNode>, k: int, name: Seq<char>)
    requires
        0 <= k <= cs.len(),
        calls_within_list(cs.take(k), name),
    ensures
        calls_within_list(cs, name),
    decreases cs.len() - k,
{
    if k < cs.len() {
        let t = cs.take(k + 1);
        assert(t.drop_last() =~= cs.take(k));
        lemma_calls_within_prefix(cs, k + 1, name);
    } else {
        assert(cs.take(k) =~= cs);
    }
}

/// The names of an attribute path: the texts of its identifier children;
/// none for a node that is not an attribute path or has no identifiers.
pub fn extract_attr_path(node: &SyntaxNode) -> (r: Option<Vec<String>>)
    ensures
        if node.kind == NODE_ATTRPATH && ident_texts(node.children@).len() > 0 {
            r matches Some(v) && v@.map_values(|s: String| s@) == ident_texts(node.children@)
        } else {
            r is None
        },
{
    if node.kind != NODE_ATTRPATH {
        return None;
    }
    let mut parts: Vec<String> = Vec::new();
    let mut i: usize = 0;
    assert(node.children@.take(0) =~= Seq::<SyntaxNode>::empty());
    while i < node.children.len()
        invariant
            i <= node.children@.len(),
            parts@.map_values(|s: String| s@) == ident_texts(node.children@.take(i as int)),
        decreases node.children@.len() - i,
    {
        let ghost before = parts@;
        if node.children[i].kind == NODE_IDENT {
            parts.push(node.children[i].text.clone());
            assert(parts@.map_values(|s: String| s@) =~= before.map_values(|s: String| s@).push(
                node.children@[i as int].text@,
            ));
        }
        proof {
            let t = node.children@.take(i + 1);
            assert(t.drop_last() =~= node.children@.take(i as int));
            assert(t.last() == node.children@[i as int]);
        }
        i = i + 1;
        assert(parts@.map_values(|s: String| s@) =~= ident_texts(node.children@.take(i as int)));
    }
    assert(node.children@.take(node.children@.len() as int) =~= node.children@);
    if parts.len() == 0 {
        None
    } else {
        Some(parts)
    }
}

} // verus!
