//! The concrete syntax tree of a Nix source text.
//!
//! rnix parses the text; its tree is handed over as the preorder walk of its
//! nodes, and a verified builder turns that walk back into a plain tree.

use vstd::prelude::*;
use rnix::WalkEvent;

verus! {

/// One step of a preorder walk over the nodes of a syntax tree.
#[derive(Debug, Clone)]
pub enum SyntaxEvent {
    /// A node is entered: its kind, its text, the kind of its first token,
    /// and its direct children in order, each token as its kind and text and
    /// each child node as `None`.
    Enter { kind: u16, text: String, first_token: Option<u16>, tokens: Vec<Option<(u16, String)>> },
    /// The most recently entered node is left.
    Leave,
}

/// A direct child of a node, as plain values: a token's kind and text, or
/// `None` for a child node.
pub type TokenModel = Option<(u16, Seq<char>)>;

/// The plain content of a direct child.
pub open spec fn token_model(t: Option<(u16, String)>) -> TokenModel {
    match t {
        Some((k, s)) => Some((k, s@)),
        None => None,
    }
}

/// The plain content of the direct children of a node.
pub open spec fn tokens_model(ts: Seq<Option<(u16, String)>>) -> Seq<TokenModel> {
    ts.map_values(|t: Option<(u16, String)>| token_model(t))
}

/// What an event says, as plain values: whether it enters a node, the
/// node's kind, text, first token kind and direct children (`0`, empty,
/// `None` and empty on leave).
pub type EventModel = (bool, u16, Seq<char>, Option<u16>, Seq<TokenModel>);

impl SyntaxEvent {
    /// The plain content of the event.
    pub open spec fn model(&self) -> EventModel {
        match self {
            SyntaxEvent::Enter { kind, text, first_token, tokens } => (
                true,
                *kind,
                text@,
                *first_token,
                tokens_model(tokens@),
            ),
            SyntaxEvent::Leave => (false, 0u16, Seq::empty(), None, Seq::empty()),
        }
    }
}

/// The plain content of a sequence of events.
pub open spec fn events_model(e: Seq<SyntaxEvent>) -> Seq<EventModel> {
    e.map_values(|x: SyntaxEvent| x.model())
}

/// The preorder node walk and the error messages that rnix produces for a
/// source text. rnix's parser is deterministic, so both depend on the text
/// alone.
pub uninterp spec fn rnix_parse(source: Seq<char>) -> (Seq<EventModel>, Seq<Seq<char>>);

/// Calls `rnix::Root::parse` and hands over, unchanged, the preorder walk
/// over the nodes of the resulting tree (`SyntaxNode::preorder`), each node
/// with `kind()`, `text()`, the kind of `first_token()` and, for each of
/// `children_with_tokens()`, a token's `kind()` and `text()` or `None` for a
/// node, together with the
/// `Display` text of each error of `Parse::errors()`. The contract claims
/// that these are the values named by `rnix_parse` for this source, and that
/// each kind is a number of rnix's `SyntaxKind`, at most that of `__LAST`
/// (its `kind_from_raw` asserts as much).
#[verifier::external_body]
pub(crate) fn rnix_parse_walk(source: &str) -> (r: (Vec<SyntaxEvent>, Vec<String>))
    ensures
        (events_model(r.0@), r.1@.map_values(|s: String| s@)) == rnix_parse(source@),
        forall|i: int| 0 <= i < r.0@.len() ==> (#[trigger] r.0@[i]).model().1 <= 83,
{
    let parse = rnix::Root::parse(source);
    let events = parse.syntax().preorder().map(|e| match e {
        WalkEvent::Enter(n) => SyntaxEvent::Enter {
            kind: n.kind() as u16,
            text: n.text().to_string(),
            first_token: n.first_token().map(|t| t.kind() as u16),
            tokens: n.children_with_tokens().map(|c| c.into_token().map(|t| (t.kind() as u16, t.text().to_string()))).collect(),
        },
        WalkEvent::Leave(_) => SyntaxEvent::Leave,
    }).collect();
    (events, parse.errors().iter().map(|e| e.to_string()).collect())
}

/// A node of the concrete syntax tree.
#[derive(Debug)]
pub struct SyntaxNode {
    /// rnix's `SyntaxKind` of the node, as its number.
    pub kind: u16,
    /// The source text the node spans.
    pub text: String,
    /// The kind of the node's first token, if it has one.
    pub first_token: Option<u16>,
    /// The node's direct children in source order: each token as its kind
    /// and text, and `None` in the place of each child node.
    pub tokens: Vec<Option<(u16, String)>>,
    /// The child nodes, in source order.
    pub children: Vec<SyntaxNode>,
}

/// The event that enters a node.
pub open spec fn enter_model(n: SyntaxNode) -> EventModel {
    (true, n.kind, n.text@, n.first_token, tokens_model(n.tokens@))
}

/// The event that leaves a node.
pub open spec fn leave_model() -> EventModel {
    (false, 0u16, Seq::empty(), None, Seq::empty())
}

/// The preorder walk of a node: enter, the walks of the children, leave.
pub open spec fn flat(n: SyntaxNode) -> Seq<EventModel>
    decreases n,
{
    seq![enter_model(n)] + flat_list(n.children@) + seq![leave_model()]
}

/// The concatenated walks of a list of nodes.
pub open spec fn flat_list(cs: Seq<SyntaxNode>) -> Seq<EventModel>
    decreases cs,
{
    if cs.len() == 0 {
        Seq::empty()
    } else {
        flat_list(cs.drop_last()) + flat(cs.last())
    }
}

/// The nesting depth after a sequence of events: entries minus leaves.
pub open spec fn depth(e: Seq<EventModel>) -> int
    decreases e.len(),
{
    if e.len() == 0 {
        0
    } else {
        depth(e.drop_last()) + if e.last().0 {
            1int
        } else {
            -1int
        }
    }
}

/// A walk of exactly one tree: it starts by entering a node, returns to depth
/// zero at its end and nowhere before.
pub open spec fn well_nested(e: Seq<EventModel>) -> bool {
    &&& e.len() > 0
    &&& e[0].0
    &&& depth(e) == 0
    &&& forall|k: int| 1 <= k < e.len() ==> depth(#[trigger] e.take(k)) >= 1
}

/// An open node while a walk is read back into a tree.
struct Frame {
    kind: u16,
    text: String,
    first_token: Option<u16>,
    tokens: Vec<Option<(u16, String)>>,
    children: Vec<SyntaxNode>,
}

spec fn frame_enter(f: Frame) -> EventModel {
    (true, f.kind, f.text@, f.first_token, tokens_model(f.tokens@))
}

/// The events read so far for a stack of open nodes.
spec fn frames_flat(s: Seq<Frame>) -> Seq<EventModel>
    decreases s.len(),
{
    if s.len() == 0 {
        Seq::empty()
    } else {
        frames_flat(s.drop_last()) + seq![frame_enter(s.last())] + flat_list(s.last().children@)
    }
}

proof fn lemma_flat_list_push(cs: Seq<SyntaxNode>, x: SyntaxNode)
    ensures
        flat_list(cs.push(x)) == flat_list(cs) + flat(x),
{
    assert(cs.push(x).drop_last() =~= cs);
}

proof fn lemma_depth_push(e: Seq<EventModel>, x: EventModel)
    ensures
        depth(e.push(x)) == depth(e) + if x.0 {
            1int
        } else {
            -1int
        },
{
    assert(e.push(x).drop_last() =~= e);
}

/// A copy of the direct children of a node.
fn copy_tokens(ts: &Vec<Option<(u16, String)>>) -> (r: Vec<Option<(u16, String)>>)
    ensures
        tokens_model(r@) == tokens_model(ts@),
{
    let mut r: Vec<Option<(u16, String)>> = Vec::new();
    let mut i: usize = 0;
    while i < ts.len()
        invariant
            i <= ts@.len(),
            tokens_model(r@) == tokens_model(ts@.take(i as int)),
        decreases ts@.len() - i,
    {
        let c = match &ts[i] {
            Some((k, s)) => Some((*k, s.clone())),
            None => None,
        };
        let ghost before = r@;
        r.push(c);
        assert(tokens_model(r@) =~= tokens_model(before).push(token_model(ts@[i as int])));
        i = i + 1;
        assert(tokens_model(r@) =~= tokens_model(ts@.take(i as int)));
    }
    assert(ts@.take(ts@.len() as int) =~= ts@);
    r
}

/// Reads a preorder walk back into the tree it walks.
pub fn build_tree(events: &Vec<SyntaxEvent>) -> (r: Option<SyntaxNode>)
    ensures
        r is Some <==> well_nested(events_model(events@)),
        r matches Some(t) ==> flat(t) == events_model(events@),
{
    let ghost ev = events_model(events@);
    let mut stack: Vec<Frame> = Vec::new();
    let mut pos: usize = 0;
    let n = events.len();
    assert(ev.take(0) =~= Seq::<EventModel>::empty());
    while pos < n
        invariant
            n == events.len(),
            ev == events_model(events@),
            ev.len() == n,
            pos <= n,
            frames_flat(stack@) == ev.take(pos as int),
            stack@.len() == depth(ev.take(pos as int)),
            pos > 0 ==> ev[0].0,
            forall|k: int| 1 <= k <= pos ==> depth(#[trigger] ev.take(k)) >= 1,
        decreases n - pos,
    {
        let ghost prefix = ev.take(pos as int);
        assert(ev.take(pos + 1) =~= prefix.push(ev[pos as int]));
        assert(ev[pos as int] == events@[pos as int].model());
        proof {
            lemma_depth_push(prefix, ev[pos as int]);
        }
        match &events[pos] {
            SyntaxEvent::Enter { kind, text, first_token, tokens } => {
                let f = Frame {
                    kind: *kind,
                    text: text.clone(),
                    first_token: *first_token,
                    tokens: copy_tokens(tokens),
                    children: Vec::new(),
                };
                proof {
                    let s2 = stack@.push(f);
                    assert(s2.drop_last() =~= stack@);
                    assert(flat_list(f.children@) =~= Seq::<EventModel>::empty());
                    assert(frames_flat(s2) =~= prefix.push(ev[pos as int]));
                }
                stack.push(f);
            },
            SyntaxEvent::Leave => {
                if stack.len() == 0 {
                    proof {
                        if pos > 0 {
                            assert(depth(ev.take(pos as int)) >= 1);
                        }
                    }
                    return None;
                }
                let f = stack.pop().unwrap();
                let node = SyntaxNode {
                    kind: f.kind,
                    text: f.text,
                    first_token: f.first_token,
                    tokens: f.tokens,
                    children: f.children,
                };
                let ghost rest = stack@;
                proof {
                    assert(frames_flat(rest.push(f)) == frames_flat(rest) + seq![frame_enter(f)]
                        + flat_list(f.children@)) by {
                        assert(rest.push(f).drop_last() =~= rest);
                    }
                    assert(flat(node) =~= seq![enter_model(node)] + flat_list(node.children@)
                        + seq![leave_model()]);
                    assert(ev.take(pos + 1) =~= frames_flat(rest) + flat(node));
                }
                if stack.len() == 0 {
                    if pos + 1 == n {
                        proof {
                            assert(ev.take(n as int) =~= ev);
                            assert(frames_flat(rest) =~= Seq::<EventModel>::empty());
                            assert(flat(node) =~= ev);
                            assert forall|k: int| 1 <= k < ev.len() implies depth(
                                #[trigger] ev.take(k),
                            ) >= 1 by {}
                        }
                        return Some(node);
                    } else {
                        proof {
                            assert(1 <= pos + 1 < n);
                            assert(depth(ev.take(pos + 1)) == 0);
                        }
                        return None;
                    }
                }
                let mut top = stack.pop().unwrap();
                let ghost rest2 = stack@;
                let ghost old_children = top.children@;
                top.children.push(node);
                proof {
                    lemma_flat_list_push(old_children, node);
                    assert(rest.drop_last() =~= rest2);
                    let s2 = rest2.push(top);
                    assert(s2.drop_last() =~= rest2);
                    assert(frames_flat(s2) =~= frames_flat(rest) + flat(node));
                }
                stack.push(top);
            },
        }
        pos = pos + 1;
    }
    proof {
        assert(ev.take(n as int) =~= ev);
        if n > 0 {
            assert(depth(ev.take(n as int)) >= 1);
        }
    }
    None
}

} // verus!
