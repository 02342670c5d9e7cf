//! Reading a flake's description and inputs from its value.

use vstd::prelude::*;
use crate::ast::AstError;
use crate::named::{NameMap, lookup};
use crate::value::{NixAttrset, NixValue, ValueModel, lemma_bindings_model};

verus! {

/// An input of a flake.
#[derive(Debug, Clone, PartialEq)]
pub struct FlakeInput {
    /// Its name, such as `nixpkgs`.
    pub name: String,
    /// Its URL.
    pub url: Option<String>,
    /// The input it follows.
    pub follows: Option<String>,
}

/// A package of a flake.
#[derive(Debug, Clone, PartialEq)]
pub struct FlakePackage {
    /// Its name.
    pub name: String,
    /// Its version.
    pub version: Option<String>,
    /// Its build inputs.
    pub build_inputs: Vec<String>,
    /// Its native build inputs.
    pub native_build_inputs: Vec<String>,
    /// Whether its tests run.
    pub do_check: bool,
}

/// A development shell of a flake.
#[derive(Debug, Clone, PartialEq)]
pub struct FlakeDevShell {
    /// Its name.
    pub name: String,
    /// The packages in it.
    pub packages: Vec<String>,
    /// Its build inputs.
    pub build_inputs: Vec<String>,
    /// Its native build inputs.
    pub native_build_inputs: Vec<String>,
    /// Its environment variables.
    pub environment: NameMap<String>,
    /// Its shell hook.
    pub shell_hook: Option<String>,
}

/// What a flake's value shows.
#[derive(Debug, Clone, PartialEq)]
pub struct FlakeAnalysis {
    /// Its description.
    pub description: Option<String>,
    /// Its inputs, in the order of the `inputs` attribute set.
    pub inputs: Vec<FlakeInput>,
    /// Its packages.
    pub packages: Vec<FlakePackage>,
    /// Its development shells.
    pub dev_shells: Vec<FlakeDevShell>,
    /// Its system.
    pub system: Option<String>,
}

/// The content of an input.
pub struct FlakeInputView {
    pub name: Seq<char>,
    pub url: Option<Seq<char>>,
    pub follows: Option<Seq<char>>,
}

impl View for FlakeInput {
    type V = FlakeInputView;

    open spec fn view(&self) -> FlakeInputView {
        FlakeInputView {
            name: self.name@,
            url: crate::topology::opt_text(self.url),
            follows: crate::topology::opt_text(self.follows),
        }
    }
}

/// The string bound to a name, if it is bound to a string.
pub open spec fn string_at(a: Seq<(Seq<char>, ValueModel)>, name: Seq<char>) -> Option<Seq<char>> {
    match lookup(a, name) {
        Some(ValueModel::Str(s)) => Some(s),
        _ => None,
    }
}

/// The input an attribute of `inputs` describes: its `url` and `follows`
/// when it is an attribute set that binds them to strings.
pub open spec fn input_of(name: Seq<char>, v: ValueModel) -> FlakeInputView {
    match v {
        ValueModel::Attrs(a) => FlakeInputView { name: name, url: string_at(a, "url"@), follows: string_at(a, "follows"@) },
        _ => FlakeInputView { name: name, url: None, follows: None },
    }
}

/// The inputs an `inputs` attribute set describes, in order.
pub open spec fn inputs_of(a: Seq<(Seq<char>, ValueModel)>) -> Seq<FlakeInputView> {
    a.map_values(|e: (Seq<char>, ValueModel)| input_of(e.0, e.1))
}

/// The description of a flake value: its `description` when it binds a
/// string.
pub open spec fn description_of(v: ValueModel) -> Option<Seq<char>> {
    match v {
        ValueModel::Attrs(a) => string_at(a, "description"@),
        _ => None,
    }
}

/// The inputs of a flake value: those of its `inputs` attribute set.
pub open spec fn flake_inputs(v: ValueModel) -> Seq<FlakeInputView> {
    match v {
        ValueModel::Attrs(a) => match lookup(a, "inputs"@) {
            Some(ValueModel::Attrs(i)) => inputs_of(i),
            _ => Seq::empty(),
        },
        _ => Seq::empty(),
    }
}

/// The text of a string value.
fn string_value(v: Option<&NixValue>) -> (r: Option<String>)
    ensures
        crate::topology::opt_text(r) == match v {
            Some(x) => match x.model() {
                ValueModel::Str(s) => Some(s),
                _ => None,
            },
            None => None,
        },
{
    match v {
        Some(NixValue::String(s)) => Some(s.value.clone()),
        _ => None,
    }
}

/// Reads flakes.
pub struct FlakeAnalyzer;

impl FlakeAnalyzer {
    /// An analyzer.
    pub fn new() -> (r: Self) {
        FlakeAnalyzer
    }

    /// The inputs an `inputs` attribute set describes.
    fn extract_inputs(&self, inputs: &NixAttrset) -> (r: Vec<FlakeInput>)
        ensures
            r@.map_values(|x: FlakeInput| x@) == inputs_of(inputs.model()),
    {
        proof {
            lemma_bindings_model(inputs.attributes@);
        }
        let mut out: Vec<FlakeInput> = Vec::new();
        let mut i: usize = 0;
        while i < inputs.attributes.len()
            invariant
                i <= inputs.attributes@.len(),
                inputs.model().len() == inputs.attributes@.len(),
                forall|j: int|
                    0 <= j < inputs.attributes@.len() ==> #[trigger] inputs.model()[j] == (
                        inputs.attributes@[j].name@,
                        inputs.attributes@[j].value.model(),
                    ),
                out@.len() == i,
                forall|j: int| 0 <= j < i ==> (#[trigger] out@[j])@ == input_of(inputs.model()[j].0, inputs.model()[j].1),
            decreases inputs.attributes@.len() - i,
        {
            let b = &inputs.attributes[i];
            let input = match &b.value {
                NixValue::Attrset(a) => FlakeInput {
                    name: b.name.clone(),
                    url: string_value(a.get("url")),
                    follows: string_value(a.get("follows")),
                },
                _ => FlakeInput { name: b.name.clone(), url: None, follows: None },
            };
            proof {
                assert(inputs.model()[i as int] == (b.name@, b.value.model()));
            }
            out.push(input);
            i = i + 1;
        }
        assert(out@.map_values(|x: FlakeInput| x@) =~= inputs_of(inputs.model()));
        out
    }

    /// Reads a flake's outputs. Outputs are a function of the inputs, which
    /// this reading does not evaluate, so nothing is read from them.
    fn analyze_outputs(&self, value: &NixValue, analysis: &mut FlakeAnalysis)
        ensures
            *final(analysis) == *old(analysis),
    {
    }

    /// Reads a flake's description and inputs from its value. Packages,
    /// development shells and the system stay empty.
    pub fn analyze(&self, value: &NixValue) -> (r: Result<FlakeAnalysis, AstError>)
        ensures
            r matches Ok(a) && {
                &&& crate::topology::opt_text(a.description) == description_of(value.model())
                &&& a.inputs@.map_values(|x: FlakeInput| x@) == flake_inputs(value.model())
                &&& a.packages@.len() == 0
                &&& a.dev_shells@.len() == 0
                &&& a.system is None
            },
    {
        let mut analysis = FlakeAnalysis {
            description: None,
            inputs: Vec::new(),
            packages: Vec::new(),
            dev_shells: Vec::new(),
            system: None,
        };
        assert(analysis.inputs@.map_values(|x: FlakeInput| x@) =~= Seq::<FlakeInputView>::empty());
        match value {
            NixValue::Attrset(attrs) => {
                analysis.description = string_value(attrs.get("description"));
                match attrs.get("inputs") {
                    Some(NixValue::Attrset(inputs)) => {
                        analysis.inputs = self.extract_inputs(inputs);
                    },
                    _ => {},
                }
                match attrs.get("outputs") {
                    Some(outputs) => self.analyze_outputs(outputs, &mut analysis),
                    None => {},
                }
            },
            _ => {},
        }
        Ok(analysis)
    }
}

impl Default for FlakeAnalyzer {
    fn default() -> (r: Self) {
        FlakeAnalyzer::new()
    }
}

/// Reads a flake's description and inputs from its value.
pub fn analyze_flake(value: &NixValue) -> (r: Result<FlakeAnalysis, AstError>)
    ensures
        r matches Ok(a) && {
            &&& crate::topology::opt_text(a.description) == description_of(value.model())
            &&& a.inputs@.map_values(|x: FlakeInput| x@) == flake_inputs(value.model())
            &&& a.packages@.len() == 0
            &&& a.dev_shells@.len() == 0
            &&& a.system is None
        },
{
    let analyzer = FlakeAnalyzer::new();
    analyzer.analyze(value)
}

} // verus!
