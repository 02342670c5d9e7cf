//! Nix values: the semantic content of a Nix expression.

use vstd::prelude::*;
use crate::text;
use crate::named::{insert, key_index, lemma_key_index, lemma_key_index_at, lookup};

verus! {

/// A Nix string.
#[derive(Debug)]
pub struct NixString {
    pub value: String,
}

/// A Nix integer.
#[derive(Debug)]
pub struct NixInteger {
    pub value: i64,
}

/// A Nix float, held as the decimal literal that denotes it.
#[derive(Debug)]
pub struct NixFloat {
    pub literal: String,
}

/// A Nix boolean.
#[derive(Debug)]
pub struct NixBool {
    pub value: bool,
}

/// The Nix `null`.
#[derive(Debug)]
pub struct NixNull;

/// A filesystem path.
#[derive(Debug)]
pub struct NixPath {
    pub path: String,
}

/// A lookup path such as `<nixpkgs>`.
#[derive(Debug)]
pub struct NixLookupPath {
    pub path: String,
}

/// A Nix list.
#[derive(Debug)]
pub struct NixList {
    pub elements: Vec<NixValue>,
}

/// One attribute of an attribute set.
#[derive(Debug)]
pub struct NixBinding {
    pub name: String,
    pub value: NixValue,
}

/// A Nix attribute set. Names are unique; attributes keep the order in which
/// their names were first inserted.
#[derive(Debug)]
pub struct NixAttrset {
    pub attributes: Vec<NixBinding>,
}

/// A Nix value.
#[derive(Debug)]
pub enum NixValue {
    String(NixString),
    Integer(NixInteger),
    Float(NixFloat),
    Bool(NixBool),
    Null(NixNull),
    Path(NixPath),
    LookupPath(NixLookupPath),
    Attrset(NixAttrset),
    List(NixList),
}

/// The mathematical content of a Nix value.
pub enum ValueModel {
    Str(Seq<char>),
    Int(i64),
    Float(Seq<char>),
    Bool(bool),
    Null,
    Path(Seq<char>),
    LookupPath(Seq<char>),
    Attrs(Seq<(Seq<char>, ValueModel)>),
    List(Seq<ValueModel>),
}

impl NixValue {
    /// The content of the value.
    pub open spec fn model(&self) -> ValueModel
        decreases self,
    {
        match self {
            NixValue::String(s) => ValueModel::Str(s.value@),
            NixValue::Integer(i) => ValueModel::Int(i.value),
            NixValue::Float(f) => ValueModel::Float(f.literal@),
            NixValue::Bool(b) => ValueModel::Bool(b.value),
            NixValue::Null(_) => ValueModel::Null,
            NixValue::Path(p) => ValueModel::Path(p.path@),
            NixValue::LookupPath(p) => ValueModel::LookupPath(p.path@),
            NixValue::Attrset(a) => ValueModel::Attrs(bindings_model(a.attributes@)),
            NixValue::List(l) => ValueModel::List(values_model(l.elements@)),
        }
    }
}

/// The content of a sequence of values.
pub open spec fn values_model(s: Seq<NixValue>) -> Seq<ValueModel>
    decreases s,
{
    if s.len() == 0 {
        Seq::empty()
    } else {
        values_model(s.drop_last()).push(s.last().model())
    }
}

/// The content of a sequence of attributes.
pub open spec fn bindings_model(s: Seq<NixBinding>) -> Seq<(Seq<char>, ValueModel)>
    decreases s,
{
    if s.len() == 0 {
        Seq::empty()
    } else {
        bindings_model(s.drop_last()).push((s.last().name@, s.last().value.model()))
    }
}

/// The model of a sequence of values, element by element.
pub proof fn lemma_values_model_len(s: Seq<NixValue>)
    ensures
        values_model(s).len() == s.len(),
        forall|i: int| 0 <= i < s.len() ==> values_model(s)[i] == s[i].model(),
    decreases s.len(),
{
    if s.len() > 0 {
        lemma_values_model_len(s.drop_last());
    }
}

/// The model of a sequence of attributes, element by element.
pub proof fn lemma_bindings_model(s: Seq<NixBinding>)
    ensures
        bindings_model(s).len() == s.len(),
        forall|i: int|
            0 <= i < s.len() ==> #[trigger] bindings_model(s)[i] == (s[i].name@, s[i].value.model()),
    decreases s.len(),
{
    if s.len() > 0 {
        lemma_bindings_model(s.drop_last());
    }
}

impl NixAttrset {
    /// The attributes as name/value pairs.
    pub open spec fn model(&self) -> Seq<(Seq<char>, ValueModel)> {
        bindings_model(self.attributes@)
    }

    /// An empty attribute set.
    pub fn new() -> (r: Self)
        ensures
            r.model() == Seq::<(Seq<char>, ValueModel)>::empty(),
    {
        NixAttrset { attributes: Vec::new() }
    }

    /// The number of attributes.
    pub fn len(&self) -> (n: usize)
        ensures
            n == self.model().len(),
    {
        proof {
            lemma_bindings_model(self.attributes@);
        }
        self.attributes.len()
    }

    /// Position of the attribute with the given name.
    fn position(&self, name: &[char]) -> (r: Option<usize>)
        ensures
            r matches Some(i) ==> i < self.model().len() && self.model()[i as int].0 == name@
                && forall|j: int| 0 <= j < i ==> self.model()[j].0 != name@,
            r is None ==> forall|j: int| 0 <= j < self.model().len() ==> self.model()[j].0 != name@,
    {
        proof {
            lemma_bindings_model(self.attributes@);
        }
        let mut i: usize = 0;
        while i < self.attributes.len()
            invariant
                i <= self.attributes.len(),
                bindings_model(self.attributes@).len() == self.attributes@.len(),
                forall|j: int| 0 <= j < i ==> self.model()[j].0 != name@,
                forall|j: int|
                    0 <= j < self.attributes@.len() ==> #[trigger] bindings_model(
                        self.attributes@,
                    )[j] == (self.attributes@[j].name@, self.attributes@[j].value.model()),
            decreases self.attributes.len() - i,
        {
            let nm = text::chars_of(self.attributes[i].name.as_str());
            if text::eq_chars(nm.as_slice(), name) {
                return Some(i);
            }
            i = i + 1;
        }
        None
    }

    /// The value bound to a name.
    pub fn get(&self, name: &str) -> (r: Option<&NixValue>)
        ensures
            match lookup(self.model(), name@) {
                Some(v) => r matches Some(x) && x.model() == v,
                None => r is None,
            },
    {
        let nm = text::chars_of(name);
        match self.position(nm.as_slice()) {
            Some(i) => {
                proof {
                    lemma_key_index_at(self.model(), name@, i as int);
                    lemma_bindings_model(self.attributes@);
                }
                Some(&self.attributes[i].value)
            },
            None => {
                proof {
                    lemma_key_index(self.model(), name@);
                }
                None
            },
        }
    }

    /// Whether a name is bound.
    pub fn contains_key(&self, name: &str) -> (b: bool)
        ensures
            b == lookup(self.model(), name@) is Some,
    {
        self.get(name).is_some()
    }

    /// Binds a name, replacing an existing binding of it in place.
    pub fn insert(&mut self, name: String, value: NixValue)
        ensures
            final(self).model() == insert(old(self).model(), name@, value.model()),
    {
        let nm = text::chars_of(name.as_str());
        let ghost m = self.model();
        proof {
            lemma_bindings_model(self.attributes@);
        }
        match self.position(nm.as_slice()) {
            Some(i) => {
                let ghost old_attrs = self.attributes@;
                self.attributes.set(i, NixBinding { name, value });
                proof {
                    lemma_bindings_model(self.attributes@);
                    lemma_key_index_at(m, nm@, i as int);
                    assert(self.model() =~= insert(m, nm@, value.model())) by {
                        assert forall|j: int| 0 <= j < m.len() implies #[trigger] self.model()[j]
                            == insert(m, nm@, value.model())[j] by {
                            if j != i {
                                assert(self.attributes@[j] == old_attrs[j]);
                            }
                        }
                    }
                }
            },
            None => {
                let ghost old_attrs = self.attributes@;
                self.attributes.push(NixBinding { name, value });
                proof {
                    assert(self.attributes@.drop_last() =~= old_attrs);
                    lemma_key_index(m, nm@);
                    if key_index(m, nm@) is Some {
                        let k = key_index(m, nm@)->0;
                        assert(m[k as int].0 == nm@);
                    }
                }
            },
        }
    }
}

} // verus!
