//! What a validation finds: errors and warnings, and how recording them
//! changes a result.

use vstd::prelude::*;

verus! {

/// The errors and the warnings that a check finds, in order.
pub type Findings = (Seq<Seq<char>>, Seq<Seq<char>>);

/// Nothing found.
pub open spec fn nothing() -> Findings {
    (Seq::empty(), Seq::empty())
}

/// One error.
pub open spec fn error(m: Seq<char>) -> Findings {
    (seq![m], Seq::empty())
}

/// One warning.
pub open spec fn warning(m: Seq<char>) -> Findings {
    (Seq::empty(), seq![m])
}

/// The findings of two checks, one after the other.
pub open spec fn both(a: Findings, b: Findings) -> Findings {
    (a.0 + b.0, a.1 + b.1)
}

/// The findings when a condition holds, nothing otherwise.
pub open spec fn provided(c: bool, f: Findings) -> Findings {
    if c {
        f
    } else {
        nothing()
    }
}

/// The content of a validation result.
pub struct ResultView {
    pub valid: bool,
    pub errors: Seq<Seq<char>>,
    pub warnings: Seq<Seq<char>>,
}

/// A result with the findings of a check recorded: each error makes it invalid.
pub open spec fn apply(r: ResultView, f: Findings) -> ResultView {
    ResultView { valid: r.valid && f.0.len() == 0, errors: r.errors + f.0, warnings: r.warnings + f.1 }
}

/// Recording two checks one after the other records their joint findings.
pub broadcast proof fn lemma_apply_both(r: ResultView, a: Findings, b: Findings)
    ensures
        #[trigger] apply(apply(r, a), b) == apply(r, both(a, b)),
{
    assert(apply(apply(r, a), b).errors =~= apply(r, both(a, b)).errors);
    assert(apply(apply(r, a), b).warnings =~= apply(r, both(a, b)).warnings);
}

/// Recording nothing changes nothing.
pub broadcast proof fn lemma_apply_nothing(r: ResultView)
    ensures
        #[trigger] apply(r, nothing()) == r,
{
    assert(apply(r, nothing()).errors =~= r.errors);
    assert(apply(r, nothing()).warnings =~= r.warnings);
}

} // verus!
