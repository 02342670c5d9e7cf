//! Editing and building Nix expression trees: adding, reading, replacing and
//! removing attributes and list elements, and rewriting or searching a tree.

use vstd::prelude::*;
use crate::domain_error::NixDomainError;
use crate::expression::{
    AttrPath, AttrPathSegment, Binding, BindingValue, FunctionParam, NixAst, binds, path_is,
};
use crate::named::{first_where, lemma_first_where};
use crate::source_parser::BinaryOperator;
use crate::text;

verus! {

broadcast use vstd::string::group_string_axioms;

/// The names of a path given as string slices.
pub open spec fn names_of(path: Seq<&str>) -> Seq<Seq<char>> {
    path.map_values(|s: &str| s@)
}

/// The position of the first binding of exactly the given path.
pub open spec fn binding_index(bs: Seq<Binding>, names: Seq<Seq<char>>) -> Option<int> {
    first_where(bs, |b: Binding| binds(b, names))
}

/// An attribute added to a set in which its path is not bound yet is what a
/// lookup of that path finds: the added binding is the first of the path.
/// Where the path is bound already, an addition leaves the first binding of
/// it where it was.
pub proof fn law_get_after_add(
    olds: Seq<Binding>,
    news: Seq<Binding>,
    names: Seq<Seq<char>>,
    value: NixAst,
)
    requires
        news.len() == olds.len() + 1,
        news.drop_last() == olds,
        binds(news.last(), names),
        news.last().value == BindingValue::Value(value),
    ensures
        binding_index(olds, names) is None ==> binding_index(news, names) == Some(olds.len() as int)
            && news[olds.len() as int].value == BindingValue::Value(value),
        binding_index(olds, names) is Some ==> binding_index(news, names) == binding_index(
            olds,
            names,
        ),
{
    let p = |b: Binding| binds(b, names);
    lemma_first_where(olds, p);
    lemma_first_where(news, p);
    assert forall|j: int| 0 <= j < olds.len() implies news[j] == olds[j] by {
        assert(news.drop_last()[j] == news[j]);
    }
    assert(p(news[olds.len() as int]));
    match first_where(olds, p) {
        Some(k) => {
            assert(p(news[k]));
            match first_where(news, p) {
                Some(m) => {
                    if m < k {
                        assert(p(olds[m]));
                    }
                },
                None => {},
            }
        },
        None => {
            match first_where(news, p) {
                Some(m) => {
                    if m < olds.len() {
                        assert(p(olds[m]));
                    }
                },
                None => {},
            }
        },
    }
}

/// After the value of a path's first binding is replaced, a lookup of the
/// path finds that binding still, now holding the new value.
pub proof fn law_get_after_update(
    olds: Seq<Binding>,
    names: Seq<Seq<char>>,
    i: int,
    new_value: NixAst,
)
    requires
        binding_index(olds, names) == Some(i),
    ensures
        binding_index(
            olds.update(
                i,
                Binding { attr_path: olds[i].attr_path, value: BindingValue::Value(new_value) },
            ),
            names,
        ) == Some(i),
        olds.update(
            i,
            Binding { attr_path: olds[i].attr_path, value: BindingValue::Value(new_value) },
        )[i].value == BindingValue::Value(new_value),
{
    let p = |b: Binding| binds(b, names);
    let news = olds.update(
        i,
        Binding { attr_path: olds[i].attr_path, value: BindingValue::Value(new_value) },
    );
    lemma_first_where(olds, p);
    lemma_first_where(news, p);
    assert(p(news[i]));
    match first_where(news, p) {
        Some(m) => {
            if m < i {
                assert(news[m] == olds[m]);
            }
        },
        None => {},
    }
}

/// An attribute path of plain names.
fn ident_path(path: &Vec<&str>) -> (r: AttrPath)
    ensures
        path_is(r, names_of(path@)),
{
    let mut segments: Vec<AttrPathSegment> = Vec::new();
    let mut i: usize = 0;
    while i < path.len()
        invariant
            i <= path.len(),
            segments@.len() == i,
            forall|j: int|
                0 <= j < i ==> (#[trigger] segments@[j] matches AttrPathSegment::Identifier(n)
                    && n@ == path@[j]@),
        decreases path.len() - i,
    {
        segments.push(AttrPathSegment::Identifier(text::string_from(path[i])));
        i = i + 1;
    }
    AttrPath { segments }
}

/// Whether an attribute path is exactly the given names.
fn attr_path_matches(path: &AttrPath, target: &Vec<&str>) -> (b: bool)
    ensures
        b == path_is(*path, names_of(target@)),
{
    if path.segments.len() != target.len() {
        return false;
    }
    let mut i: usize = 0;
    while i < target.len()
        invariant
            i <= target.len(),
            path.segments@.len() == target@.len(),
            forall|j: int|
                0 <= j < i ==> (#[trigger] path.segments@[j] matches AttrPathSegment::Identifier(n)
                    && n@ == target@[j]@),
        decreases target.len() - i,
    {
        match &path.segments[i] {
            AttrPathSegment::Identifier(name) => {
                let v = text::chars_of(name.as_str());
                if !text::eq_str(v.as_slice(), target[i]) {
                    return false;
                }
            },
            AttrPathSegment::Dynamic(_) => {
                return false;
            },
        }
        i = i + 1;
    }
    true
}

/// The position of the first binding of exactly the given path.
fn find_binding(bindings: &Vec<Binding>, path: &Vec<&str>) -> (r: Option<usize>)
    ensures
        r matches Some(i) ==> binding_index(bindings@, names_of(path@)) == Some(i as int) && i
            < bindings@.len(),
        r is None ==> binding_index(bindings@, names_of(path@)) is None,
{
    let ghost names = names_of(path@);
    let ghost p = |b: Binding| binds(b, names);
    proof {
        lemma_first_where(bindings@, p);
    }
    let mut i: usize = 0;
    while i < bindings.len()
        invariant
            i <= bindings.len(),
            p == (|b: Binding| binds(b, names)),
            names == names_of(path@),
            forall|j: int| 0 <= j < i ==> !p(#[trigger] bindings@[j]),
            match first_where(bindings@, p) {
                Some(k) => 0 <= k < bindings@.len() && p(bindings@[k]) && forall|j: int|
                    0 <= j < k ==> !p(#[trigger] bindings@[j]),
                None => forall|j: int| 0 <= j < bindings@.len() ==> !p(#[trigger] bindings@[j]),
            },
        decreases bindings.len() - i,
    {
        if attr_path_matches(&bindings[i].attr_path, path) {
            assert(p(bindings@[i as int]));
            return Some(i);
        }
        i = i + 1;
    }
    None
}

/// The error of an edit applied to an expression of the wrong form.
fn form_error(message: &str) -> (r: Result<(), NixDomainError>)
    ensures
        r matches Err(NixDomainError::ParseError(m)) && m@ == message@,
{
    Err(NixDomainError::ParseError(text::string_from(message)))
}

/// Whether `new` is `old` rewritten by `f`: where `f` gives an expression
/// for a node, that expression stands in its place; where it gives none, the
/// node stays and its children are rewritten in turn.
pub open spec fn rewritten<F: Fn(&NixAst) -> Option<NixAst>>(f: F, old: NixAst, new: NixAst) -> bool
    decreases old, 1int,
{
    ||| f.ensures((&old,), Some(new))
    ||| f.ensures((&old,), None::<NixAst>) && children_rewritten(f, old, new)
}

/// Whether `new` is `old` with each of its children rewritten by `f` and
/// all else kept. The children are the values of its bindings (not what a
/// binding inherits from), the elements of a list, the parts of a function,
/// application, `let`, `if`, `with`, `assert` and operation, the expression
/// and default of a selection, the expression of a test and of an import.
pub open spec fn children_rewritten<F: Fn(&NixAst) -> Option<NixAst>>(
    f: F,
    old: NixAst,
    new: NixAst,
) -> bool
    decreases old, 0int,
{
    match old {
        NixAst::AttrSet { recursive, bindings } => new matches NixAst::AttrSet {
            recursive: r2,
            bindings: b2,
        } && r2 == recursive && bindings_rewritten(f, bindings@, b2@),
        NixAst::List(items) => new matches NixAst::List(i2) && items_rewritten(f, items@, i2@),
        NixAst::Function { param, body } => new matches NixAst::Function { param: p2, body: b2 }
            && p2 == param && rewritten(f, *body, *b2),
        NixAst::Apply { function, argument } => new matches NixAst::Apply {
            function: f2,
            argument: a2,
        } && rewritten(f, *function, *f2) && rewritten(f, *argument, *a2),
        NixAst::Let { bindings, body } => new matches NixAst::Let { bindings: b2, body: y2 }
            && bindings_rewritten(f, bindings@, b2@) && rewritten(f, *body, *y2),
        NixAst::If { condition, then_branch, else_branch } => new matches NixAst::If {
            condition: c2,
            then_branch: t2,
            else_branch: e2,
        } && rewritten(f, *condition, *c2) && rewritten(f, *then_branch, *t2) && rewritten(
            f,
            *else_branch,
            *e2,
        ),
        NixAst::With { namespace, body } => new matches NixAst::With { namespace: n2, body: b2 }
            && rewritten(f, *namespace, *n2) && rewritten(f, *body, *b2),
        NixAst::Assert { condition, body } => new matches NixAst::Assert {
            condition: c2,
            body: b2,
        } && rewritten(f, *condition, *c2) && rewritten(f, *body, *b2),
        NixAst::BinaryOp { op, left, right } => new matches NixAst::BinaryOp {
            op: o2,
            left: l2,
            right: r2,
        } && o2 == op && rewritten(f, *left, *l2) && rewritten(f, *right, *r2),
        NixAst::UnaryOp { op, operand } => new matches NixAst::UnaryOp { op: o2, operand: x2 }
            && o2 == op && rewritten(f, *operand, *x2),
        NixAst::Select { expr, attr_path, default } => new matches NixAst::Select {
            expr: e2,
            attr_path: p2,
            default: d2,
        } && p2 == attr_path && rewritten(f, *expr, *e2) && match default {
            Some(d) => d2 matches Some(dd) && rewritten(f, *d, *dd),
            None => d2 is None,
        },
        NixAst::HasAttr { expr, attr_path } => new matches NixAst::HasAttr {
            expr: e2,
            attr_path: p2,
        } && p2 == attr_path && rewritten(f, *expr, *e2),
        NixAst::Import(p) => new matches NixAst::Import(p2) && rewritten(f, *p, *p2),
        _ => new == old,
    }
}

/// Whether each binding of `news` is the one of `olds` at its place with
/// its value rewritten by `f`; inherited bindings are kept.
pub open spec fn bindings_rewritten<F: Fn(&NixAst) -> Option<NixAst>>(
    f: F,
    olds: Seq<Binding>,
    news: Seq<Binding>,
) -> bool
    decreases olds, 0int,
{
    if olds.len() == 0 {
        news.len() == 0
    } else {
        &&& news.len() == olds.len()
        &&& bindings_rewritten(f, olds.drop_last(), news.drop_last())
        &&& news.last().attr_path == olds.last().attr_path
        &&& match olds.last().value {
            BindingValue::Value(v) => news.last().value matches BindingValue::Value(v2)
                && rewritten(f, v, v2),
            BindingValue::Inherit { .. } => news.last().value == olds.last().value,
        }
    }
}

/// Whether each element of `news` is the one of `olds` at its place
/// rewritten by `f`.
pub open spec fn items_rewritten<F: Fn(&NixAst) -> Option<NixAst>>(
    f: F,
    olds: Seq<NixAst>,
    news: Seq<NixAst>,
) -> bool
    decreases olds, 0int,
{
    if olds.len() == 0 {
        news.len() == 0
    } else {
        &&& news.len() == olds.len()
        &&& items_rewritten(f, olds.drop_last(), news.drop_last())
        &&& rewritten(f, olds.last(), news.last())
    }
}

/// An expression rewritten by `f`.
fn rewrite<F: Fn(&NixAst) -> Option<NixAst>>(ast: NixAst, f: &F) -> (r: NixAst)
    requires
        forall|n: &NixAst| f.requires((n,)),
    ensures
        rewritten(*f, ast, r),
    decreases ast,
{
    let replaced = f(&ast);
    match replaced {
        Some(n) => {
            return n;
        },
        None => {},
    }
    let ghost a0 = ast;
    let r = match ast {
        NixAst::AttrSet { recursive, bindings } => {
            let b2 = rewrite_bindings(bindings, f, Ghost(a0));
            NixAst::AttrSet { recursive, bindings: b2 }
        },
        NixAst::List(items) => NixAst::List(rewrite_items(items, f, Ghost(a0))),
        NixAst::Function { param, body } => NixAst::Function {
            param,
            body: Box::new(rewrite(*body, f)),
        },
        NixAst::Apply { function, argument } => {
            let f2 = rewrite(*function, f);
            let a2 = rewrite(*argument, f);
            NixAst::Apply { function: Box::new(f2), argument: Box::new(a2) }
        },
        NixAst::Let { bindings, body } => {
            let b2 = rewrite_bindings(bindings, f, Ghost(a0));
            let y2 = rewrite(*body, f);
            NixAst::Let { bindings: b2, body: Box::new(y2) }
        },
        NixAst::If { condition, then_branch, else_branch } => {
            let c2 = rewrite(*condition, f);
            let t2 = rewrite(*then_branch, f);
            let e2 = rewrite(*else_branch, f);
            NixAst::If {
                condition: Box::new(c2),
                then_branch: Box::new(t2),
                else_branch: Box::new(e2),
            }
        },
        NixAst::With { namespace, body } => {
            let n2 = rewrite(*namespace, f);
            let b2 = rewrite(*body, f);
            NixAst::With { namespace: Box::new(n2), body: Box::new(b2) }
        },
        NixAst::Assert { condition, body } => {
            let c2 = rewrite(*condition, f);
            let b2 = rewrite(*body, f);
            NixAst::Assert { condition: Box::new(c2), body: Box::new(b2) }
        },
        NixAst::BinaryOp { op, left, right } => {
            let l2 = rewrite(*left, f);
            let r2 = rewrite(*right, f);
            NixAst::BinaryOp { op, left: Box::new(l2), right: Box::new(r2) }
        },
        NixAst::UnaryOp { op, operand } => NixAst::UnaryOp {
            op,
            operand: Box::new(rewrite(*operand, f)),
        },
        NixAst::Select { expr, attr_path, default } => {
            let e2 = rewrite(*expr, f);
            let d2 = match default {
                Some(d) => Some(Box::new(rewrite(*d, f))),
                None => None,
            };
            NixAst::Select { expr: Box::new(e2), attr_path, default: d2 }
        },
        NixAst::HasAttr { expr, attr_path } => NixAst::HasAttr {
            expr: Box::new(rewrite(*expr, f)),
            attr_path,
        },
        NixAst::Import(p) => NixAst::Import(Box::new(rewrite(*p, f))),
        other => other,
    };
    r
}

/// The elements of the list `parent`, each rewritten by `f`.
fn rewrite_items<F: Fn(&NixAst) -> Option<NixAst>>(
    items: Vec<NixAst>,
    f: &F,
    Ghost(parent): Ghost<NixAst>,
) -> (r: Vec<NixAst>)
    requires
        forall|n: &NixAst| f.requires((n,)),
        parent matches NixAst::List(b) && b == items,
    ensures
        items_rewritten(*f, items@, r@),
    decreases parent, 0int,
{
    let ghost olds = items@;
    let mut rest = items;
    let mut out: Vec<NixAst> = Vec::new();
    while rest.len() > 0
        invariant
            forall|n: &NixAst| f.requires((n,)),
            parent matches NixAst::List(pb) && pb@ == olds,
            out@.len() + rest@.len() == olds.len(),
            rest@ == olds.skip(out@.len() as int),
            items_rewritten(*f, olds.take(out@.len() as int), out@),
        decreases rest@.len(),
    {
        let ghost k = out@.len() as int;
        let x = rest.remove(0);
        assert(x == olds[k]);
        assert(decreases_to!(parent => x)) by {
            match parent {
                NixAst::List(pb) => {
                    assert(decreases_to!(parent => pb));
                    assert(decreases_to!(pb => pb@));
                    assert(pb@[k] == x);
                },
                _ => {},
            }
        }
        let y = rewrite(x, f);
        let ghost before = out@;
        out.push(y);
        proof {
            assert(olds.take(k + 1).drop_last() =~= olds.take(k));
            assert(out@.drop_last() =~= before);
            assert(rest@ =~= olds.skip(k + 1));
        }
    }
    assert(olds.take(olds.len() as int) =~= olds);
    out
}

/// The bindings of `parent` with their values rewritten by `f`.
fn rewrite_bindings<F: Fn(&NixAst) -> Option<NixAst>>(
    bindings: Vec<Binding>,
    f: &F,
    Ghost(parent): Ghost<NixAst>,
) -> (r: Vec<Binding>)
    requires
        forall|n: &NixAst| f.requires((n,)),
        (parent matches NixAst::AttrSet { bindings: b, .. } && b == bindings) || (
        parent matches NixAst::Let { bindings: b, .. } && b == bindings),
    ensures
        bindings_rewritten(*f, bindings@, r@),
    decreases parent, 0int,
{
    let ghost olds = bindings@;
    let mut rest = bindings;
    let mut out: Vec<Binding> = Vec::new();
    while rest.len() > 0
        invariant
            forall|n: &NixAst| f.requires((n,)),
            (parent matches NixAst::AttrSet { bindings: b, .. } && b@ == olds) || (
            parent matches NixAst::Let { bindings: b, .. } && b@ == olds),
            out@.len() + rest@.len() == olds.len(),
            rest@ == olds.skip(out@.len() as int),
            bindings_rewritten(*f, olds.take(out@.len() as int), out@),
        decreases rest@.len(),
    {
        let ghost k = out@.len() as int;
        let b = rest.remove(0);
        assert(b == olds[k]);
        let Binding { attr_path, value } = b;
        let v2 = match value {
            BindingValue::Value(v) => {
                assert(decreases_to!(parent => v)) by {
                    match parent {
                        NixAst::AttrSet { bindings: pb, .. } => {
                            assert(decreases_to!(parent => pb));
                            assert(decreases_to!(pb => pb@));
                            assert(pb@[k] == olds[k]);
                        },
                        NixAst::Let { bindings: pb, .. } => {
                            assert(decreases_to!(parent => pb));
                            assert(decreases_to!(pb => pb@));
                            assert(pb@[k] == olds[k]);
                        },
                        _ => {},
                    }
                }
                BindingValue::Value(rewrite(v, f))
            },
            other => other,
        };
        let ghost before = out@;
        out.push(Binding { attr_path, value: v2 });
        proof {
            assert(olds.take(k + 1).drop_last() =~= olds.take(k));
            assert(out@.drop_last() =~= before);
            assert(rest@ =~= olds.skip(k + 1));
        }
    }
    assert(olds.take(olds.len() as int) =~= olds);
    out
}

/// The nodes of an expression in the order a search visits them: the node,
/// then the values of its bindings (not what a binding inherits from), its
/// list elements, and the other children in order; an import's expression
/// is not searched.
pub open spec fn search_order(a: NixAst) -> Seq<NixAst>
    decreases a, 1int,
{
    seq![a] + match a {
        NixAst::AttrSet { bindings, .. } => bindings_order(bindings@),
        NixAst::List(items) => items_order(items@),
        NixAst::Function { body, .. } => search_order(*body),
        NixAst::Apply { function, argument } => search_order(*function) + search_order(*argument),
        NixAst::Let { bindings, body } => bindings_order(bindings@) + search_order(*body),
        NixAst::If { condition, then_branch, else_branch } => search_order(*condition)
            + search_order(*then_branch) + search_order(*else_branch),
        NixAst::With { namespace, body } => search_order(*namespace) + search_order(*body),
        NixAst::Assert { condition, body } => search_order(*condition) + search_order(*body),
        NixAst::BinaryOp { left, right, .. } => search_order(*left) + search_order(*right),
        NixAst::UnaryOp { operand, .. } => search_order(*operand),
        NixAst::Select { expr, default, .. } => search_order(*expr) + match default {
            Some(d) => search_order(*d),
            None => Seq::empty(),
        },
        NixAst::HasAttr { expr, .. } => search_order(*expr),
        _ => Seq::empty(),
    }
}

/// The search order of the values of a sequence of bindings.
pub open spec fn bindings_order(bs: Seq<Binding>) -> Seq<NixAst>
    decreases bs, 0int,
{
    if bs.len() == 0 {
        Seq::empty()
    } else {
        bindings_order(bs.drop_last()) + match bs.last().value {
            BindingValue::Value(v) => search_order(v),
            BindingValue::Inherit { .. } => Seq::empty(),
        }
    }
}

/// The search order of a sequence of expressions.
pub open spec fn items_order(items: Seq<NixAst>) -> Seq<NixAst>
    decreases items, 0int,
{
    if items.len() == 0 {
        Seq::empty()
    } else {
        items_order(items.drop_last()) + search_order(items.last())
    }
}

/// Whether `out` is what `p` picks from `nodes`: the nodes for which it
/// says yes, in order, and no node for which it says no.
pub open spec fn picked<F: Fn(&NixAst) -> bool>(p: F, nodes: Seq<NixAst>, out: Seq<NixAst>) -> bool
    decreases nodes.len(),
{
    if nodes.len() == 0 {
        out.len() == 0
    } else {
        ||| p.ensures((&nodes.last(),), true) && out.len() > 0 && out.last() == nodes.last()
            && picked(p, nodes.drop_last(), out.drop_last())
        ||| p.ensures((&nodes.last(),), false) && picked(p, nodes.drop_last(), out)
    }
}

/// The referenced nodes of a result list.
pub open spec fn derefs<'a>(v: Seq<&'a NixAst>) -> Seq<NixAst> {
    v.map_values(|x: &NixAst| *x)
}

/// Adds to `results` the nodes of `ast` that `p` picks, in search order.
fn search<'a, F: Fn(&NixAst) -> bool>(
    ast: &'a NixAst,
    p: &F,
    results: &mut Vec<&'a NixAst>,
    Ghost(seen): Ghost<Seq<NixAst>>,
)
    requires
        forall|n: &NixAst| p.requires((n,)),
        picked(*p, seen, derefs(old(results)@)),
    ensures
        picked(*p, seen + search_order(*ast), derefs(final(results)@)),
    decreases ast,
{
    let b = p(ast);
    let ghost r0 = results@;
    if b {
        results.push(ast);
    }
    let ghost seen1 = seen.push(*ast);
    proof {
        assert(seen1.drop_last() =~= seen);
        assert(seen1.last() == *ast);
        if b {
            assert(derefs(results@).drop_last() =~= derefs(r0));
        }
        assert(seen + search_order(*ast) =~= seen1 + (search_order(*ast).skip(1)));
    }
    match ast {
        NixAst::AttrSet { bindings, .. } => {
            search_bindings(bindings, p, results, Ghost(seen1), Ghost(*ast));
            assert(search_order(*ast).skip(1) =~= bindings_order(bindings@));
        },
        NixAst::List(items) => {
            search_items(items, p, results, Ghost(seen1), Ghost(*ast));
            assert(search_order(*ast).skip(1) =~= items_order(items@));
        },
        NixAst::Function { body, .. } => {
            search(body, p, results, Ghost(seen1));
            assert(search_order(*ast).skip(1) =~= search_order(**body));
        },
        NixAst::Apply { function, argument } => {
            search(function, p, results, Ghost(seen1));
            search(argument, p, results, Ghost(seen1 + search_order(**function)));
            assert(search_order(*ast).skip(1) =~= search_order(**function) + search_order(
                **argument,
            ));
            assert(seen1 + search_order(**function) + search_order(**argument) =~= seen1 + (
            search_order(**function) + search_order(**argument)));
        },
        NixAst::Let { bindings, body } => {
            search_bindings(bindings, p, results, Ghost(seen1), Ghost(*ast));
            search(body, p, results, Ghost(seen1 + bindings_order(bindings@)));
            assert(search_order(*ast).skip(1) =~= bindings_order(bindings@) + search_order(
                **body,
            ));
            assert(seen1 + bindings_order(bindings@) + search_order(**body) =~= seen1 + (
            bindings_order(bindings@) + search_order(**body)));
        },
        NixAst::If { condition, then_branch, else_branch } => {
            search(condition, p, results, Ghost(seen1));
            let ghost s2 = seen1 + search_order(**condition);
            search(then_branch, p, results, Ghost(s2));
            search(else_branch, p, results, Ghost(s2 + search_order(**then_branch)));
            assert(search_order(*ast).skip(1) =~= search_order(**condition) + search_order(
                **then_branch,
            ) + search_order(**else_branch));
            assert(s2 + search_order(**then_branch) + search_order(**else_branch) =~= seen1 + (
            search_order(**condition) + search_order(**then_branch) + search_order(
                **else_branch,
            )));
        },
        NixAst::With { namespace, body } => {
            search(namespace, p, results, Ghost(seen1));
            search(body, p, results, Ghost(seen1 + search_order(**namespace)));
            assert(search_order(*ast).skip(1) =~= search_order(**namespace) + search_order(
                **body,
            ));
            assert(seen1 + search_order(**namespace) + search_order(**body) =~= seen1 + (
            search_order(**namespace) + search_order(**body)));
        },
        NixAst::Assert { condition, body } => {
            search(condition, p, results, Ghost(seen1));
            search(body, p, results, Ghost(seen1 + search_order(**condition)));
            assert(search_order(*ast).skip(1) =~= search_order(**condition) + search_order(
                **body,
            ));
            assert(seen1 + search_order(**condition) + search_order(**body) =~= seen1 + (
            search_order(**condition) + search_order(**body)));
        },
        NixAst::BinaryOp { left, right, .. } => {
            search(left, p, results, Ghost(seen1));
            search(right, p, results, Ghost(seen1 + search_order(**left)));
            assert(search_order(*ast).skip(1) =~= search_order(**left) + search_order(**right));
            assert(seen1 + search_order(**left) + search_order(**right) =~= seen1 + (search_order(
                **left,
            ) + search_order(**right)));
        },
        NixAst::UnaryOp { operand, .. } => {
            search(operand, p, results, Ghost(seen1));
            assert(search_order(*ast).skip(1) =~= search_order(**operand));
        },
        NixAst::Select { expr, default, .. } => {
            search(expr, p, results, Ghost(seen1));
            match default {
                Some(d) => {
                    search(d, p, results, Ghost(seen1 + search_order(**expr)));
                    assert(search_order(*ast).skip(1) =~= search_order(**expr) + search_order(
                        **d,
                    ));
                    assert(seen1 + search_order(**expr) + search_order(**d) =~= seen1 + (
                    search_order(**expr) + search_order(**d)));
                },
                None => {
                    assert(search_order(*ast).skip(1) =~= search_order(**expr));
                },
            }
        },
        NixAst::HasAttr { expr, .. } => {
            search(expr, p, results, Ghost(seen1));
            assert(search_order(*ast).skip(1) =~= search_order(**expr));
        },
        _ => {
            assert(search_order(*ast).skip(1) =~= Seq::<NixAst>::empty());
            assert(seen1 + Seq::<NixAst>::empty() =~= seen1);
        },
    }
}

/// Adds to `results` the nodes of the binding values of `parent` that `p`
/// picks, in search order.
fn search_bindings<'a, F: Fn(&NixAst) -> bool>(
    bindings: &'a Vec<Binding>,
    p: &F,
    results: &mut Vec<&'a NixAst>,
    Ghost(seen): Ghost<Seq<NixAst>>,
    Ghost(parent): Ghost<NixAst>,
)
    requires
        forall|n: &NixAst| p.requires((n,)),
        picked(*p, seen, derefs(old(results)@)),
        (parent matches NixAst::AttrSet { bindings: b, .. } && b == *bindings) || (
        parent matches NixAst::Let { bindings: b, .. } && b == *bindings),
    ensures
        picked(*p, seen + bindings_order(bindings@), derefs(final(results)@)),
    decreases parent, 0int,
{
    let mut i: usize = 0;
    assert(bindings@.take(0) =~= Seq::<Binding>::empty());
    assert(seen + Seq::<NixAst>::empty() =~= seen);
    while i < bindings.len()
        invariant
            forall|n: &NixAst| p.requires((n,)),
            (parent matches NixAst::AttrSet { bindings: b, .. } && b == *bindings) || (
            parent matches NixAst::Let { bindings: b, .. } && b == *bindings),
            i <= bindings.len(),
            picked(*p, seen + bindings_order(bindings@.take(i as int)), derefs(results@)),
        decreases bindings.len() - i,
    {
        let ghost k = i as int;
        let ghost before = seen + bindings_order(bindings@.take(k));
        assert(bindings@.take(k + 1).drop_last() =~= bindings@.take(k));
        match &bindings[i].value {
            BindingValue::Value(v) => {
                assert(decreases_to!(parent => *v)) by {
                    match parent {
                        NixAst::AttrSet { bindings: pb, .. } => {
                            assert(decreases_to!(parent => pb));
                            assert(decreases_to!(pb => pb@));
                        },
                        NixAst::Let { bindings: pb, .. } => {
                            assert(decreases_to!(parent => pb));
                            assert(decreases_to!(pb => pb@));
                        },
                        _ => {},
                    }
                }
                search(v, p, results, Ghost(before));
                assert(seen + bindings_order(bindings@.take(k + 1)) =~= before + search_order(*v));
            },
            BindingValue::Inherit { .. } => {
                assert(seen + bindings_order(bindings@.take(k + 1)) =~= before);
            },
        }
        i = i + 1;
    }
    assert(bindings@.take(bindings.len() as int) =~= bindings@);
}

/// Adds to `results` the nodes of the elements of `parent` that `p` picks,
/// in search order.
fn search_items<'a, F: Fn(&NixAst) -> bool>(
    items: &'a Vec<NixAst>,
    p: &F,
    results: &mut Vec<&'a NixAst>,
    Ghost(seen): Ghost<Seq<NixAst>>,
    Ghost(parent): Ghost<NixAst>,
)
    requires
        forall|n: &NixAst| p.requires((n,)),
        picked(*p, seen, derefs(old(results)@)),
        parent matches NixAst::List(b) && b == *items,
    ensures
        picked(*p, seen + items_order(items@), derefs(final(results)@)),
    decreases parent, 0int,
{
    let mut i: usize = 0;
    assert(items@.take(0) =~= Seq::<NixAst>::empty());
    assert(seen + Seq::<NixAst>::empty() =~= seen);
    while i < items.len()
        invariant
            forall|n: &NixAst| p.requires((n,)),
            parent matches NixAst::List(b) && b == *items,
            i <= items.len(),
            picked(*p, seen + items_order(items@.take(i as int)), derefs(results@)),
        decreases items.len() - i,
    {
        let ghost k = i as int;
        let ghost before = seen + items_order(items@.take(k));
        assert(items@.take(k + 1).drop_last() =~= items@.take(k));
        let x = &items[i];
        assert(decreases_to!(parent => *x)) by {
            match parent {
                NixAst::List(pb) => {
                    assert(decreases_to!(parent => pb));
                    assert(decreases_to!(pb => pb@));
                },
                _ => {},
            }
        }
        search(x, p, results, Ghost(before));
        assert(seen + items_order(items@.take(k + 1)) =~= before + search_order(*x));
        i = i + 1;
    }
    assert(items@.take(items.len() as int) =~= items@);
}

/// The number of nodes of an expression, counting the values and the
/// inherited-from expressions of its bindings and all its other children.
pub open spec fn tree_size(a: NixAst) -> nat
    decreases a, 1int,
{
    1 + match a {
        NixAst::AttrSet { bindings, .. } => bindings_size(bindings@),
        NixAst::List(items) => items_size(items@),
        NixAst::Function { body, .. } => tree_size(*body),
        NixAst::Apply { function, argument } => tree_size(*function) + tree_size(*argument),
        NixAst::Let { bindings, body } => bindings_size(bindings@) + tree_size(*body),
        NixAst::If { condition, then_branch, else_branch } => tree_size(*condition) + tree_size(
            *then_branch,
        ) + tree_size(*else_branch),
        NixAst::With { namespace, body } => tree_size(*namespace) + tree_size(*body),
        NixAst::Assert { condition, body } => tree_size(*condition) + tree_size(*body),
        NixAst::BinaryOp { left, right, .. } => tree_size(*left) + tree_size(*right),
        NixAst::UnaryOp { operand, .. } => tree_size(*operand),
        NixAst::Select { expr, default, .. } => tree_size(*expr) + match default {
            Some(d) => tree_size(*d),
            None => 0,
        },
        NixAst::HasAttr { expr, .. } => tree_size(*expr),
        NixAst::Import(p) => tree_size(*p),
        _ => 0,
    }
}

/// The number of nodes below a sequence of bindings.
pub open spec fn bindings_size(bs: Seq<Binding>) -> nat
    decreases bs, 0int,
{
    if bs.len() == 0 {
        0
    } else {
        bindings_size(bs.drop_last()) + match bs.last().value {
            BindingValue::Value(v) => tree_size(v),
            BindingValue::Inherit { from: Some(x), .. } => tree_size(x),
            BindingValue::Inherit { from: None, .. } => 0,
        }
    }
}

/// The number of nodes of a sequence of expressions.
pub open spec fn items_size(items: Seq<NixAst>) -> nat
    decreases items, 0int,
{
    if items.len() == 0 {
        0
    } else {
        items_size(items.drop_last()) + tree_size(items.last())
    }
}

proof fn lemma_bindings_size_prefix(bs: Seq<Binding>, k: int)
    requires
        0 <= k <= bs.len(),
    ensures
        bindings_size(bs.take(k)) <= bindings_size(bs),
    decreases bs.len() - k,
{
    if k < bs.len() {
        lemma_bindings_size_prefix(bs, k + 1);
        assert(bs.take(k + 1).drop_last() =~= bs.take(k));
    } else {
        assert(bs.take(k) =~= bs);
    }
}

proof fn lemma_items_size_prefix(items: Seq<NixAst>, k: int)
    requires
        0 <= k <= items.len(),
    ensures
        items_size(items.take(k)) <= items_size(items),
    decreases items.len() - k,
{
    if k < items.len() {
        lemma_items_size_prefix(items, k + 1);
        assert(items.take(k + 1).drop_last() =~= items.take(k));
    } else {
        assert(items.take(k) =~= items);
    }
}

/// The course of a replacement through a tree: a node replaced, or a node
/// kept with the courses through its children.
pub enum Tally {
    /// The node was replaced.
    Replaced,
    /// The node was kept; the courses through its children, in order.
    Kept(Seq<Tally>),
}

/// How many replacements a course made.
pub open spec fn tally_total(t: Tally) -> nat
    decreases t,
{
    match t {
        Tally::Replaced => 1,
        Tally::Kept(ts) => tallies_total(ts),
    }
}

/// How many replacements a sequence of courses made.
pub open spec fn tallies_total(ts: Seq<Tally>) -> nat
    decreases ts,
{
    if ts.len() == 0 {
        0
    } else {
        tallies_total(ts.drop_last()) + tally_total(ts.last())
    }
}

/// Whether `new` is `old` with replacements made along the course `t`: a
/// node that `p` selects and for which `g` gives an expression is replaced
/// by it and not searched further; the children of any other node are
/// searched in turn. The children are as for rewriting, and also the
/// expression an attribute set's binding inherits from.
pub open spec fn replaced<P: Fn(&NixAst) -> bool, G: Fn(&NixAst) -> Option<NixAst>>(
    p: P,
    g: G,
    old: NixAst,
    new: NixAst,
    t: Tally,
) -> bool
    decreases old, 1int,
{
    match t {
        Tally::Replaced => p.ensures((&old,), true) && g.ensures((&old,), Some(new)),
        Tally::Kept(ts) => (p.ensures((&old,), false) || (p.ensures((&old,), true) && g.ensures(
            (&old,),
            None::<NixAst>,
        ))) && children_replaced(p, g, old, new, ts),
    }
}

/// Whether `new` is `old` with replacements made in its children along the
/// courses `ts`, one for each child, and all else kept.
pub open spec fn children_replaced<P: Fn(&NixAst) -> bool, G: Fn(&NixAst) -> Option<NixAst>>(
    p: P,
    g: G,
    old: NixAst,
    new: NixAst,
    ts: Seq<Tally>,
) -> bool
    decreases old, 0int,
{
    match old {
        NixAst::AttrSet { recursive, bindings } => new matches NixAst::AttrSet {
            recursive: r2,
            bindings: b2,
        } && r2 == recursive && bindings_replaced(p, g, bindings@, b2@, ts, true),
        NixAst::List(items) => new matches NixAst::List(i2) && items_replaced(p, g, items@, i2@, ts),
        NixAst::Function { param, body } => new matches NixAst::Function { param: p2, body: b2 }
            && p2 == param && ts.len() == 1 && replaced(p, g, *body, *b2, ts[0]),
        NixAst::Apply { function, argument } => new matches NixAst::Apply {
            function: f2,
            argument: a2,
        } && ts.len() == 2 && replaced(p, g, *function, *f2, ts[0]) && replaced(
            p,
            g,
            *argument,
            *a2,
            ts[1],
        ),
        NixAst::Let { bindings, body } => new matches NixAst::Let { bindings: b2, body: y2 }
            && ts.len() == bindings@.len() + 1 && bindings_replaced(
            p,
            g,
            bindings@,
            b2@,
            ts.drop_last(),
            false,
        ) && replaced(p, g, *body, *y2, ts.last()),
        NixAst::If { condition, then_branch, else_branch } => new matches NixAst::If {
            condition: c2,
            then_branch: t2,
            else_branch: e2,
        } && ts.len() == 3 && replaced(p, g, *condition, *c2, ts[0]) && replaced(
            p,
            g,
            *then_branch,
            *t2,
            ts[1],
        ) && replaced(p, g, *else_branch, *e2, ts[2]),
        NixAst::With { namespace, body } => new matches NixAst::With { namespace: n2, body: b2 }
            && ts.len() == 2 && replaced(p, g, *namespace, *n2, ts[0]) && replaced(
            p,
            g,
            *body,
            *b2,
            ts[1],
        ),
        NixAst::Assert { condition, body } => new matches NixAst::Assert {
            condition: x2,
            body: b2,
        } && ts.len() == 2 && replaced(p, g, *condition, *x2, ts[0]) && replaced(
            p,
            g,
            *body,
            *b2,
            ts[1],
        ),
        NixAst::BinaryOp { op, left, right } => new matches NixAst::BinaryOp {
            op: o2,
            left: l2,
            right: r2,
        } && o2 == op && ts.len() == 2 && replaced(p, g, *left, *l2, ts[0]) && replaced(
            p,
            g,
            *right,
            *r2,
            ts[1],
        ),
        NixAst::UnaryOp { op, operand } => new matches NixAst::UnaryOp { op: o2, operand: x2 }
            && o2 == op && ts.len() == 1 && replaced(p, g, *operand, *x2, ts[0]),
        NixAst::Select { expr, attr_path, default } => new matches NixAst::Select {
            expr: e2,
            attr_path: p2,
            default: d2,
        } && p2 == attr_path && replaced(p, g, *expr, *e2, ts[0]) && match default {
            Some(d) => d2 matches Some(dd) && ts.len() == 2 && replaced(p, g, *d, *dd, ts[1]),
            None => d2 is None && ts.len() == 1,
        },
        NixAst::HasAttr { expr, attr_path } => new matches NixAst::HasAttr {
            expr: e2,
            attr_path: p2,
        } && p2 == attr_path && ts.len() == 1 && replaced(p, g, *expr, *e2, ts[0]),
        NixAst::Import(x) => new matches NixAst::Import(x2) && ts.len() == 1 && replaced(
            p,
            g,
            *x,
            *x2,
            ts[0],
        ),
        _ => new == old && ts.len() == 0,
    }
}

/// Whether each binding of `news` is the one of `olds` at its place with
/// replacements made in its value and, when `with_from` holds, in the
/// expression it inherits from, along the course at its place in `ts`.
pub open spec fn bindings_replaced<P: Fn(&NixAst) -> bool, G: Fn(&NixAst) -> Option<NixAst>>(
    p: P,
    g: G,
    olds: Seq<Binding>,
    news: Seq<Binding>,
    ts: Seq<Tally>,
    with_from: bool,
) -> bool
    decreases olds, 0int,
{
    if olds.len() == 0 {
        news.len() == 0 && ts.len() == 0
    } else {
        &&& news.len() == olds.len()
        &&& ts.len() == olds.len()
        &&& news.last().attr_path == olds.last().attr_path
        &&& bindings_replaced(p, g, olds.drop_last(), news.drop_last(), ts.drop_last(), with_from)
        &&& match olds.last().value {
            BindingValue::Value(v) => news.last().value matches BindingValue::Value(v2)
                && replaced(p, g, v, v2, ts.last()),
            BindingValue::Inherit { from, attrs } => if with_from && from is Some {
                news.last().value matches BindingValue::Inherit { from: Some(x2), attrs: a2 }
                    && a2 == attrs && replaced(p, g, from->0, x2, ts.last())
            } else {
                news.last().value == olds.last().value && ts.last() == Tally::Kept(
                    Seq::empty(),
                )
            },
        }
    }
}

/// Whether each element of `news` is the one of `olds` at its place with
/// replacements made along the course at its place in `ts`.
pub open spec fn items_replaced<P: Fn(&NixAst) -> bool, G: Fn(&NixAst) -> Option<NixAst>>(
    p: P,
    g: G,
    olds: Seq<NixAst>,
    news: Seq<NixAst>,
    ts: Seq<Tally>,
) -> bool
    decreases olds, 0int,
{
    if olds.len() == 0 {
        news.len() == 0 && ts.len() == 0
    } else {
        &&& news.len() == olds.len()
        &&& ts.len() == olds.len()
        &&& items_replaced(p, g, olds.drop_last(), news.drop_last(), ts.drop_last())
        &&& replaced(p, g, olds.last(), news.last(), ts.last())
    }
}

/// An expression with replacements made, and how many were made.
fn replace_in<P: Fn(&NixAst) -> bool, G: Fn(&NixAst) -> Option<NixAst>>(
    ast: NixAst,
    p: &P,
    g: &G,
) -> (r: (NixAst, usize, Ghost<Tally>))
    requires
        forall|n: &NixAst| p.requires((n,)),
        forall|n: &NixAst| g.requires((n,)),
        tree_size(ast) <= usize::MAX,
    ensures
        replaced(*p, *g, ast, r.0, r.2@),
        r.1 == tally_total(r.2@),
        r.1 <= tree_size(ast),
    decreases ast,
{
    let selected = p(&ast);
    if selected {
        match g(&ast) {
            Some(n) => {
                return (n, 1, Ghost(Tally::Replaced));
            },
            None => {},
        }
    }
    let ghost a0 = ast;
    match ast {
        NixAst::AttrSet { recursive, bindings } => {
            let (b2, c, ts) = replace_bindings(bindings, p, g, true, Ghost(a0));
            (NixAst::AttrSet { recursive, bindings: b2 }, c, Ghost(Tally::Kept(ts@)))
        },
        NixAst::List(items) => {
            let (i2, c, ts) = replace_items(items, p, g, Ghost(a0));
            (NixAst::List(i2), c, Ghost(Tally::Kept(ts@)))
        },
        NixAst::Function { param, body } => {
            let (b2, c, t) = replace_in(*body, p, g);
            proof {
                lemma_tallies_one(t@);
            }
            (NixAst::Function { param, body: Box::new(b2) }, c, Ghost(Tally::Kept(seq![t@])))
        },
        NixAst::Apply { function, argument } => {
            let (f2, c1, t1) = replace_in(*function, p, g);
            let (a2, c2, t2) = replace_in(*argument, p, g);
            proof {
                lemma_tallies_two(t1@, t2@);
            }
            (
                NixAst::Apply { function: Box::new(f2), argument: Box::new(a2) },
                c1 + c2,
                Ghost(Tally::Kept(seq![t1@, t2@])),
            )
        },
        NixAst::Let { bindings, body } => {
            let (b2, c1, ts) = replace_bindings(bindings, p, g, false, Ghost(a0));
            let (y2, c2, t2) = replace_in(*body, p, g);
            let ghost all = ts@.push(t2@);
            proof {
                assert(all.drop_last() =~= ts@);
            }
            (NixAst::Let { bindings: b2, body: Box::new(y2) }, c1 + c2, Ghost(Tally::Kept(all)))
        },
        NixAst::If { condition, then_branch, else_branch } => {
            let (c2, n1, t1) = replace_in(*condition, p, g);
            let (t2v, n2, t2) = replace_in(*then_branch, p, g);
            let (e2, n3, t3) = replace_in(*else_branch, p, g);
            proof {
                lemma_tallies_three(t1@, t2@, t3@);
            }
            (
                NixAst::If {
                    condition: Box::new(c2),
                    then_branch: Box::new(t2v),
                    else_branch: Box::new(e2),
                },
                n1 + n2 + n3,
                Ghost(Tally::Kept(seq![t1@, t2@, t3@])),
            )
        },
        NixAst::With { namespace, body } => {
            let (n2, c1, t1) = replace_in(*namespace, p, g);
            let (b2, c2, t2) = replace_in(*body, p, g);
            proof {
                lemma_tallies_two(t1@, t2@);
            }
            (
                NixAst::With { namespace: Box::new(n2), body: Box::new(b2) },
                c1 + c2,
                Ghost(Tally::Kept(seq![t1@, t2@])),
            )
        },
        NixAst::Assert { condition, body } => {
            let (x2, c1, t1) = replace_in(*condition, p, g);
            let (b2, c2, t2) = replace_in(*body, p, g);
            proof {
                lemma_tallies_two(t1@, t2@);
            }
            (
                NixAst::Assert { condition: Box::new(x2), body: Box::new(b2) },
                c1 + c2,
                Ghost(Tally::Kept(seq![t1@, t2@])),
            )
        },
        NixAst::BinaryOp { op, left, right } => {
            let (l2, c1, t1) = replace_in(*left, p, g);
            let (r2, c2, t2) = replace_in(*right, p, g);
            proof {
                lemma_tallies_two(t1@, t2@);
            }
            (
                NixAst::BinaryOp { op, left: Box::new(l2), right: Box::new(r2) },
                c1 + c2,
                Ghost(Tally::Kept(seq![t1@, t2@])),
            )
        },
        NixAst::UnaryOp { op, operand } => {
            let (x2, c, t) = replace_in(*operand, p, g);
            proof {
                lemma_tallies_one(t@);
            }
            (NixAst::UnaryOp { op, operand: Box::new(x2) }, c, Ghost(Tally::Kept(seq![t@])))
        },
        NixAst::Select { expr, attr_path, default } => {
            let (e2, c1, t1) = replace_in(*expr, p, g);
            match default {
                Some(d) => {
                    let (dd, c2, t2) = replace_in(*d, p, g);
                    proof {
                        lemma_tallies_two(t1@, t2@);
                    }
                    (
                        NixAst::Select {
                            expr: Box::new(e2),
                            attr_path,
                            default: Some(Box::new(dd)),
                        },
                        c1 + c2,
                        Ghost(Tally::Kept(seq![t1@, t2@])),
                    )
                },
                None => {
                    proof {
                        lemma_tallies_one(t1@);
                    }
                    (
                        NixAst::Select { expr: Box::new(e2), attr_path, default: None },
                        c1,
                        Ghost(Tally::Kept(seq![t1@])),
                    )
                },
            }
        },
        NixAst::HasAttr { expr, attr_path } => {
            let (e2, c, t) = replace_in(*expr, p, g);
            proof {
                lemma_tallies_one(t@);
            }
            (NixAst::HasAttr { expr: Box::new(e2), attr_path }, c, Ghost(Tally::Kept(seq![t@])))
        },
        NixAst::Import(x) => {
            let (x2, c, t) = replace_in(*x, p, g);
            proof {
                lemma_tallies_one(t@);
            }
            (NixAst::Import(Box::new(x2)), c, Ghost(Tally::Kept(seq![t@])))
        },
        other => {
            assert(tallies_total(Seq::<Tally>::empty()) == 0);
            (other, 0, Ghost(Tally::Kept(Seq::empty())))
        },
    }
}

proof fn lemma_tallies_one(t: Tally)
    ensures
        tallies_total(seq![t]) == tally_total(t),
{
    assert(seq![t].drop_last() =~= Seq::<Tally>::empty());
    assert(seq![t].last() == t);
    assert(tallies_total(Seq::<Tally>::empty()) == 0);
    reveal_with_fuel(tallies_total, 2);
}

proof fn lemma_tallies_two(t1: Tally, t2: Tally)
    ensures
        tallies_total(seq![t1, t2]) == tally_total(t1) + tally_total(t2),
{
    assert(seq![t1, t2].drop_last() =~= seq![t1]);
    lemma_tallies_one(t1);
}

proof fn lemma_tallies_three(t1: Tally, t2: Tally, t3: Tally)
    ensures
        tallies_total(seq![t1, t2, t3]) == tally_total(t1) + tally_total(t2) + tally_total(t3),
{
    assert(seq![t1, t2, t3].drop_last() =~= seq![t1, t2]);
    lemma_tallies_two(t1, t2);
}

/// The bindings of `parent` with replacements made in their values and,
/// when `with_from` holds, in what they inherit from; how many were made,
/// and the course through each binding.
fn replace_bindings<P: Fn(&NixAst) -> bool, G: Fn(&NixAst) -> Option<NixAst>>(
    bindings: Vec<Binding>,
    p: &P,
    g: &G,
    with_from: bool,
    Ghost(parent): Ghost<NixAst>,
) -> (r: (Vec<Binding>, usize, Ghost<Seq<Tally>>))
    requires
        forall|n: &NixAst| p.requires((n,)),
        forall|n: &NixAst| g.requires((n,)),
        (parent matches NixAst::AttrSet { bindings: b, .. } && b == bindings) || (
        parent matches NixAst::Let { bindings: b, .. } && b == bindings),
        tree_size(parent) <= usize::MAX,
    ensures
        bindings_replaced(*p, *g, bindings@, r.0@, r.2@, with_from),
        r.1 == tallies_total(r.2@),
        r.1 <= bindings_size(bindings@),
    decreases parent, 0int,
{
    let ghost olds = bindings@;
    assert(bindings_size(olds) < tree_size(parent));
    let mut rest = bindings;
    let mut out: Vec<Binding> = Vec::new();
    let mut total: usize = 0;
    let ghost mut ts: Seq<Tally> = Seq::empty();
    assert(olds.take(0) =~= Seq::<Binding>::empty());
    while rest.len() > 0
        invariant
            forall|n: &NixAst| p.requires((n,)),
            forall|n: &NixAst| g.requires((n,)),
            (parent matches NixAst::AttrSet { bindings: b, .. } && b@ == olds) || (
            parent matches NixAst::Let { bindings: b, .. } && b@ == olds),
            bindings_size(olds) < tree_size(parent) <= usize::MAX,
            out@.len() + rest@.len() == olds.len(),
            rest@ == olds.skip(out@.len() as int),
            bindings_replaced(*p, *g, olds.take(out@.len() as int), out@, ts, with_from),
            total == tallies_total(ts),
            total <= bindings_size(olds.take(out@.len() as int)),
        decreases rest@.len(),
    {
        let ghost k = out@.len() as int;
        let b = rest.remove(0);
        assert(b == olds[k]);
        proof {
            assert(olds.take(k + 1).drop_last() =~= olds.take(k));
            lemma_bindings_size_prefix(olds, k + 1);
        }
        let Binding { attr_path, value } = b;
        let (v2, c2, t2) = match value {
            BindingValue::Value(v) => {
                assert(decreases_to!(parent => v)) by {
                    match parent {
                        NixAst::AttrSet { bindings: pb, .. } => {
                            assert(decreases_to!(parent => pb));
                            assert(decreases_to!(pb => pb@));
                            assert(pb@[k] == olds[k]);
                        },
                        NixAst::Let { bindings: pb, .. } => {
                            assert(decreases_to!(parent => pb));
                            assert(decreases_to!(pb => pb@));
                            assert(pb@[k] == olds[k]);
                        },
                        _ => {},
                    }
                }
                let (v2, c2, t2) = replace_in(v, p, g);
                (BindingValue::Value(v2), c2, t2)
            },
            BindingValue::Inherit { from, attrs } => {
                if with_from {
                    match from {
                        Some(x) => {
                            assert(decreases_to!(parent => x)) by {
                                match parent {
                                    NixAst::AttrSet { bindings: pb, .. } => {
                                        assert(decreases_to!(parent => pb));
                                        assert(decreases_to!(pb => pb@));
                                        assert(pb@[k] == olds[k]);
                                    },
                                    NixAst::Let { bindings: pb, .. } => {
                                        assert(decreases_to!(parent => pb));
                                        assert(decreases_to!(pb => pb@));
                                        assert(pb@[k] == olds[k]);
                                    },
                                    _ => {},
                                }
                            }
                            let (x2, c2, t2) = replace_in(x, p, g);
                            (BindingValue::Inherit { from: Some(x2), attrs }, c2, t2)
                        },
                        None => (
                            BindingValue::Inherit { from: None, attrs },
                            0,
                            Ghost(Tally::Kept(Seq::empty())),
                        ),
                    }
                } else {
                    (BindingValue::Inherit { from, attrs }, 0, Ghost(Tally::Kept(Seq::empty())))
                }
            },
        };
        assert(tally_total(Tally::Kept(Seq::empty())) == 0) by {
            assert(tallies_total(Seq::<Tally>::empty()) == 0);
        }
        let ghost before = out@;
        let ghost ts0 = ts;
        out.push(Binding { attr_path, value: v2 });
        proof {
            ts = ts.push(t2@);
            assert(out@.drop_last() =~= before);
            assert(ts.drop_last() =~= ts0);
            assert(rest@ =~= olds.skip(k + 1));
        }
        total = total + c2;
    }
    assert(olds.take(olds.len() as int) =~= olds);
    (out, total, Ghost(ts))
}

/// The elements of the list `parent` with replacements made; how many were
/// made, and the course through each element.
fn replace_items<P: Fn(&NixAst) -> bool, G: Fn(&NixAst) -> Option<NixAst>>(
    items: Vec<NixAst>,
    p: &P,
    g: &G,
    Ghost(parent): Ghost<NixAst>,
) -> (r: (Vec<NixAst>, usize, Ghost<Seq<Tally>>))
    requires
        forall|n: &NixAst| p.requires((n,)),
        forall|n: &NixAst| g.requires((n,)),
        parent matches NixAst::List(b) && b == items,
        tree_size(parent) <= usize::MAX,
    ensures
        items_replaced(*p, *g, items@, r.0@, r.2@),
        r.1 == tallies_total(r.2@),
        r.1 <= items_size(items@),
    decreases parent, 0int,
{
    let ghost olds = items@;
    assert(items_size(olds) < tree_size(parent));
    let mut rest = items;
    let mut out: Vec<NixAst> = Vec::new();
    let mut total: usize = 0;
    let ghost mut ts: Seq<Tally> = Seq::empty();
    assert(olds.take(0) =~= Seq::<NixAst>::empty());
    while rest.len() > 0
        invariant
            forall|n: &NixAst| p.requires((n,)),
            forall|n: &NixAst| g.requires((n,)),
            parent matches NixAst::List(b) && b@ == olds,
            items_size(olds) < tree_size(parent) <= usize::MAX,
            out@.len() + rest@.len() == olds.len(),
            rest@ == olds.skip(out@.len() as int),
            items_replaced(*p, *g, olds.take(out@.len() as int), out@, ts),
            total == tallies_total(ts),
            total <= items_size(olds.take(out@.len() as int)),
        decreases rest@.len(),
    {
        let ghost k = out@.len() as int;
        let x = rest.remove(0);
        assert(x == olds[k]);
        proof {
            assert(olds.take(k + 1).drop_last() =~= olds.take(k));
            lemma_items_size_prefix(olds, k + 1);
        }
        assert(decreases_to!(parent => x)) by {
            match parent {
                NixAst::List(pb) => {
                    assert(decreases_to!(parent => pb));
                    assert(decreases_to!(pb => pb@));
                    assert(pb@[k] == x);
                },
                _ => {},
            }
        }
        let (y, c2, t2) = replace_in(x, p, g);
        let ghost before = out@;
        let ghost ts0 = ts;
        out.push(y);
        proof {
            ts = ts.push(t2@);
            assert(out@.drop_last() =~= before);
            assert(ts.drop_last() =~= ts0);
            assert(rest@ =~= olds.skip(k + 1));
        }
        total = total + c2;
    }
    assert(olds.take(olds.len() as int) =~= olds);
    (out, total, Ghost(ts))
}

/// Edits of Nix expression trees.
pub struct AstManipulator;

impl AstManipulator {
    /// Adds a binding of `path` to `value` at the end of an attribute set;
    /// any other expression is refused and left as it was.
    pub fn add_attribute(ast: &mut NixAst, path: Vec<&str>, value: NixAst) -> (r: Result<
        (),
        NixDomainError,
    >)
        ensures
            match *old(ast) {
                NixAst::AttrSet { recursive, bindings } => {
                    &&& r is Ok
                    &&& *final(ast) matches NixAst::AttrSet { recursive: r2, bindings: b2 }
                    &&& r2 == recursive
                    &&& b2@.len() == bindings@.len() + 1
                    &&& b2@.drop_last() == bindings@
                    &&& binds(b2@.last(), names_of(path@))
                    &&& b2@.last().value == BindingValue::Value(value)
                },
                _ => *final(ast) == *old(ast) && (r matches Err(NixDomainError::ParseError(m))
                    && m@ == "Can only add attributes to attribute sets"@),
            },
    {
        let attr_path = ident_path(&path);
        match ast {
            NixAst::AttrSet { bindings, .. } => {
                let ghost before = bindings@;
                bindings.push(Binding { attr_path, value: BindingValue::Value(value) });
                assert(bindings@.drop_last() =~= before);
                Ok(())
            },
            _ => form_error("Can only add attributes to attribute sets"),
        }
    }

    /// The value bound by the first binding of `path` in an attribute set:
    /// none when no binding has that path, when it inherits, or when the
    /// expression is not an attribute set.
    pub fn get_attribute<'a>(ast: &'a NixAst, path: Vec<&str>) -> (r: Option<&'a NixAst>)
        ensures
            match *ast {
                NixAst::AttrSet { bindings, .. } => match binding_index(bindings@, names_of(path@)) {
                    Some(i) => match bindings@[i].value {
                        BindingValue::Value(v) => r matches Some(x) && *x == v,
                        BindingValue::Inherit { .. } => r is None,
                    },
                    None => r is None,
                },
                _ => r is None,
            },
    {
        match ast {
            NixAst::AttrSet { bindings, .. } => match find_binding(bindings, &path) {
                Some(i) => {
                    match &bindings[i].value {
                        BindingValue::Value(v) => Some(v),
                        BindingValue::Inherit { .. } => None,
                    }
                },
                None => None,
            },
            _ => None,
        }
    }

    /// Removes the first binding of `path` from an attribute set, giving the
    /// value it bound (none when it inherited or no binding has the path);
    /// any other expression is refused and left as it was.
    pub fn remove_attribute(ast: &mut NixAst, path: Vec<&str>) -> (r: Result<
        Option<NixAst>,
        NixDomainError,
    >)
        ensures
            match *old(ast) {
                NixAst::AttrSet { recursive, bindings } => match binding_index(
                    bindings@,
                    names_of(path@),
                ) {
                    Some(i) => {
                        &&& *final(ast) matches NixAst::AttrSet { recursive: r2, bindings: b2 }
                        &&& r2 == recursive
                        &&& b2@ == bindings@.remove(i)
                        &&& match bindings@[i].value {
                            BindingValue::Value(v) => r == Ok::<Option<NixAst>, NixDomainError>(
                                Some(v),
                            ),
                            BindingValue::Inherit { .. } => r == Ok::<
                                Option<NixAst>,
                                NixDomainError,
                            >(None),
                        }
                    },
                    None => *final(ast) == *old(ast) && r == Ok::<Option<NixAst>, NixDomainError>(
                        None,
                    ),
                },
                _ => *final(ast) == *old(ast) && (r matches Err(NixDomainError::ParseError(m))
                    && m@ == "Can only remove attributes from attribute sets"@),
            },
    {
        match ast {
            NixAst::AttrSet { bindings, .. } => match find_binding(bindings, &path) {
                Some(i) => {
                    let binding = bindings.remove(i);
                    match binding.value {
                        BindingValue::Value(v) => Ok(Some(v)),
                        BindingValue::Inherit { .. } => Ok(None),
                    }
                },
                None => Ok(None),
            },
            _ => Err(
                NixDomainError::ParseError(
                    text::string_from("Can only remove attributes from attribute sets"),
                ),
            ),
        }
    }

    /// Replaces the value of the first binding of `path` in an attribute set
    /// by `new_value`, giving the value it replaced; a binding that inherits,
    /// or no binding of the path, leaves the set as it was and gives none.
    /// Any other expression is refused and left as it was.
    pub fn update_attribute(ast: &mut NixAst, path: Vec<&str>, new_value: NixAst) -> (r: Result<
        Option<NixAst>,
        NixDomainError,
    >)
        ensures
            match *old(ast) {
                NixAst::AttrSet { recursive, bindings } => match binding_index(
                    bindings@,
                    names_of(path@),
                ) {
                    Some(i) => match bindings@[i].value {
                        BindingValue::Value(v) => {
                            &&& *final(ast) matches NixAst::AttrSet { recursive: r2, bindings: b2 }
                            &&& r2 == recursive
                            &&& b2@ == bindings@.update(
                                i,
                                Binding {
                                    attr_path: bindings@[i].attr_path,
                                    value: BindingValue::Value(new_value),
                                },
                            )
                            &&& r == Ok::<Option<NixAst>, NixDomainError>(Some(v))
                        },
                        BindingValue::Inherit { .. } => *final(ast) == *old(ast) && r == Ok::<
                            Option<NixAst>,
                            NixDomainError,
                        >(None),
                    },
                    None => *final(ast) == *old(ast) && r == Ok::<Option<NixAst>, NixDomainError>(
                        None,
                    ),
                },
                _ => *final(ast) == *old(ast) && (r matches Err(NixDomainError::ParseError(m))
                    && m@ == "Can only update attributes in attribute sets"@),
            },
    {
        match ast {
            NixAst::AttrSet { bindings, .. } => match find_binding(bindings, &path) {
                Some(i) => {
                    let is_value = match &bindings[i].value {
                        BindingValue::Value(_) => true,
                        BindingValue::Inherit { .. } => false,
                    };
                    if !is_value {
                        return Ok(None);
                    }
                    let ghost before = bindings@;
                    let binding = bindings.remove(i);
                    match binding.value {
                        BindingValue::Value(v) => {
                            bindings.insert(
                                i,
                                Binding {
                                    attr_path: binding.attr_path,
                                    value: BindingValue::Value(new_value),
                                },
                            );
                            assert(bindings@ =~= before.update(
                                i as int,
                                Binding {
                                    attr_path: before[i as int].attr_path,
                                    value: BindingValue::Value(new_value),
                                },
                            ));
                            Ok(Some(v))
                        },
                        BindingValue::Inherit { .. } => Ok(None),
                    }
                },
                None => Ok(None),
            },
            _ => Err(
                NixDomainError::ParseError(
                    text::string_from("Can only update attributes in attribute sets"),
                ),
            ),
        }
    }

    /// Appends an element to a list; any other expression is refused and
    /// left as it was.
    pub fn add_list_element(ast: &mut NixAst, element: NixAst) -> (r: Result<(), NixDomainError>)
        ensures
            match *old(ast) {
                NixAst::List(elements) => r is Ok && (*final(ast) matches NixAst::List(e2) && e2@
                    == elements@.push(element)),
                _ => *final(ast) == *old(ast) && (r matches Err(NixDomainError::ParseError(m))
                    && m@ == "Can only add elements to lists"@),
            },
    {
        match ast {
            NixAst::List(elements) => {
                elements.push(element);
                Ok(())
            },
            _ => form_error("Can only add elements to lists"),
        }
    }

    /// Removes the element at `index` from a list, giving it (none when the
    /// index is past the end, and the list stays); any other expression is
    /// refused and left as it was.
    pub fn remove_list_element(ast: &mut NixAst, index: usize) -> (r: Result<
        Option<NixAst>,
        NixDomainError,
    >)
        ensures
            match *old(ast) {
                NixAst::List(elements) => if index < elements@.len() {
                    r == Ok::<Option<NixAst>, NixDomainError>(Some(elements@[index as int]))
                        && (*final(ast) matches NixAst::List(e2) && e2@ == elements@.remove(
                        index as int,
                    ))
                } else {
                    r == Ok::<Option<NixAst>, NixDomainError>(None) && *final(ast) == *old(ast)
                },
                _ => *final(ast) == *old(ast) && (r matches Err(NixDomainError::ParseError(m))
                    && m@ == "Can only remove elements from lists"@),
            },
    {
        match ast {
            NixAst::List(elements) => {
                if index < elements.len() {
                    Ok(Some(elements.remove(index)))
                } else {
                    Ok(None)
                }
            },
            _ => Err(
                NixDomainError::ParseError(text::string_from("Can only remove elements from lists")),
            ),
        }
    }

    /// Rewrites an expression by `transformer`: a node for which it gives an
    /// expression is replaced by that expression and not searched further;
    /// the children of any other node are rewritten in turn.
    pub fn transform_nodes<F: Fn(&NixAst) -> Option<NixAst>>(ast: &mut NixAst, transformer: &F)
        requires
            forall|n: &NixAst| transformer.requires((n,)),
        ensures
            rewritten(*transformer, *old(ast), *final(ast)),
    {
        let mut taken = NixAst::Null;
        std::mem::swap(ast, &mut taken);
        *ast = rewrite(taken, transformer);
    }

    /// The nodes of an expression for which `predicate` holds, in the order
    /// of a search from the root.
    pub fn find_nodes<'a, F: Fn(&NixAst) -> bool>(ast: &'a NixAst, predicate: &F) -> (r: Vec<
        &'a NixAst,
    >)
        requires
            forall|n: &NixAst| predicate.requires((n,)),
        ensures
            picked(*predicate, search_order(*ast), derefs(r@)),
    {
        let mut results: Vec<&'a NixAst> = Vec::new();
        assert(derefs(results@) =~= Seq::<NixAst>::empty());
        search(ast, predicate, &mut results, Ghost(Seq::<NixAst>::empty()));
        assert(Seq::<NixAst>::empty() + search_order(*ast) =~= search_order(*ast));
        results
    }

    /// Replaces the nodes that `predicate` selects and for which `replacer`
    /// gives an expression, searching from the root and not below a node
    /// once it is replaced; gives how many were replaced.
    pub fn replace_nodes<P: Fn(&NixAst) -> bool, G: Fn(&NixAst) -> Option<NixAst>>(
        ast: &mut NixAst,
        predicate: P,
        replacer: G,
    ) -> (r: Result<usize, NixDomainError>)
        requires
            forall|n: &NixAst| predicate.requires((n,)),
            forall|n: &NixAst| replacer.requires((n,)),
            tree_size(*old(ast)) <= usize::MAX,
        ensures
            r matches Ok(count) && exists|t: Tally|
                replaced(predicate, replacer, *old(ast), *final(ast), t) && tally_total(t) == count,
    {
        let mut taken = NixAst::Null;
        std::mem::swap(ast, &mut taken);
        let ghost a0 = taken;
        let (n, count, t) = replace_in(taken, &predicate, &replacer);
        *ast = n;
        assert(replaced(predicate, replacer, a0, *ast, t@) && tally_total(t@) == count);
        Ok(count)
    }

    /// The function `param: body`.
    pub fn simple_function(param: &str, body: NixAst) -> (r: NixAst)
        ensures
            r matches NixAst::Function { param: FunctionParam::Identifier(p), body: b } && p@
                == param@ && *b == body,
    {
        NixAst::Function {
            param: FunctionParam::Identifier(text::string_from(param)),
            body: Box::new(body),
        }
    }

    /// The expression `if condition then then_branch else else_branch`.
    pub fn if_expr(condition: NixAst, then_branch: NixAst, else_branch: NixAst) -> (r: NixAst)
        ensures
            r == (NixAst::If {
                condition: Box::new(condition),
                then_branch: Box::new(then_branch),
                else_branch: Box::new(else_branch),
            }),
    {
        NixAst::If {
            condition: Box::new(condition),
            then_branch: Box::new(then_branch),
            else_branch: Box::new(else_branch),
        }
    }

    /// The expression `left op right`.
    pub fn binary_op(op: BinaryOperator, left: NixAst, right: NixAst) -> (r: NixAst)
        ensures
            r == (NixAst::BinaryOp { op, left: Box::new(left), right: Box::new(right) }),
    {
        NixAst::BinaryOp { op, left: Box::new(left), right: Box::new(right) }
    }
}

/// Builds Nix expressions, an attribute set one binding at a time.
pub struct AstBuilder {
    current: Option<NixAst>,
}

impl AstBuilder {
    /// The expression built so far, if any.
    pub closed spec fn current(&self) -> Option<NixAst> {
        self.current
    }

    /// A builder with nothing built yet.
    pub fn new() -> (r: Self)
        ensures
            r.current() is None,
    {
        AstBuilder { current: None }
    }

    /// Starts an empty, non-recursive attribute set, dropping whatever was
    /// built before.
    pub fn attr_set(self) -> (r: Self)
        ensures
            r.current() matches Some(NixAst::AttrSet { recursive, bindings }) && !recursive
                && bindings@.len() == 0,
    {
        AstBuilder { current: Some(NixAst::AttrSet { recursive: false, bindings: Vec::new() }) }
    }

    /// Binds `name` to `value` at the end of the attribute set being built;
    /// when no attribute set is being built, nothing changes.
    pub fn add_attr(self, name: &str, value: NixAst) -> (r: Self)
        ensures
            match self.current() {
                Some(NixAst::AttrSet { recursive, bindings }) => {
                    &&& r.current() matches Some(NixAst::AttrSet { recursive: r2, bindings: b2 })
                    &&& r2 == recursive
                    &&& b2@.len() == bindings@.len() + 1
                    &&& b2@.drop_last() == bindings@
                    &&& binds(b2@.last(), seq![name@])
                    &&& b2@.last().value == BindingValue::Value(value)
                },
                _ => r.current() == self.current(),
            },
    {
        let mut this = self;
        match &mut this.current {
            Some(NixAst::AttrSet { bindings, .. }) => {
                let mut segments: Vec<AttrPathSegment> = Vec::new();
                segments.push(AttrPathSegment::Identifier(text::string_from(name)));
                let ghost before = bindings@;
                bindings.push(
                    Binding { attr_path: AttrPath { segments }, value: BindingValue::Value(value) },
                );
                assert(bindings@.drop_last() =~= before);
            },
            _ => {},
        }
        this
    }

    /// The expression built, or `null` when nothing was.
    pub fn build(self) -> (r: NixAst)
        ensures
            r == match self.current() {
                Some(a) => a,
                None => NixAst::Null,
            },
    {
        match self.current {
            Some(a) => a,
            None => NixAst::Null,
        }
    }

    /// The function `param: body`.
    pub fn simple_function(param: &str, body: NixAst) -> (r: NixAst)
        ensures
            r matches NixAst::Function { param: FunctionParam::Identifier(p), body: b } && p@
                == param@ && *b == body,
    {
        AstManipulator::simple_function(param, body)
    }

    /// The expression `if condition then then_branch else else_branch`.
    pub fn if_expr(condition: NixAst, then_branch: NixAst, else_branch: NixAst) -> (r: NixAst)
        ensures
            r == (NixAst::If {
                condition: Box::new(condition),
                then_branch: Box::new(then_branch),
                else_branch: Box::new(else_branch),
            }),
    {
        AstManipulator::if_expr(condition, then_branch, else_branch)
    }

    /// The expression `left op right`.
    pub fn binary_op(op: BinaryOperator, left: NixAst, right: NixAst) -> (r: NixAst)
        ensures
            r == (NixAst::BinaryOp { op, left: Box::new(left), right: Box::new(right) }),
    {
        AstManipulator::binary_op(op, left, right)
    }

    /// A string literal.
    pub fn string(s: &str) -> (r: NixAst)
        ensures
            r matches NixAst::String(t) && t@ == s@,
    {
        NixAst::String(text::string_from(s))
    }

    /// An integer literal.
    pub fn integer(i: i64) -> (r: NixAst)
        ensures
            r == NixAst::Integer(i),
    {
        NixAst::Integer(i)
    }

    /// A boolean literal.
    pub fn bool(b: bool) -> (r: NixAst)
        ensures
            r == NixAst::Bool(b),
    {
        NixAst::Bool(b)
    }

    /// A non-recursive attribute set of the given bindings.
    pub fn attr_set_with(bindings: Vec<Binding>) -> (r: NixAst)
        ensures
            r == (NixAst::AttrSet { recursive: false, bindings }),
    {
        NixAst::AttrSet { recursive: false, bindings }
    }

    /// A list of the given elements.
    pub fn list(elements: Vec<NixAst>) -> (r: NixAst)
        ensures
            r == NixAst::List(elements),
    {
        NixAst::List(elements)
    }
}

impl Default for AstBuilder {
    fn default() -> (r: Self)
        ensures
            r.current() is None,
    {
        AstBuilder::new()
    }
}

} // verus!
