//! Reading a flake from its syntax tree, editing its inputs, and writing it
//! out again.

use vstd::prelude::*;
use crate::ast::{NODE_ATTRPATH, NODE_ATTR_SET, NODE_IDENT, NODE_STRING};
use crate::domain_error::NixDomainError;
use crate::git::FlakeRef;
use crate::named::{NameMap, first_where, insert, key_index, lemma_first_where, lemma_insert_map, lookup, map_values_of};
use crate::source_parser::NixFile;
use crate::syntax::SyntaxNode;
use crate::syntax_query::{attribute_value_of, extract_string_value, get_attribute_value, string_value_of};
use crate::text;

verus! {

broadcast use vstd::string::group_string_axioms;

/// The flake's attribute set: the first child of the root that is one.
pub open spec fn flake_set_of(root: SyntaxNode) -> Option<SyntaxNode> {
    match first_where(root.children@, |c: SyntaxNode| c.kind == NODE_ATTR_SET) {
        Some(i) => Some(root.children@[i]),
        None => None,
    }
}

/// The name an input binding gives: the first identifier of its first
/// attribute path.
pub open spec fn input_name(c: SyntaxNode) -> Option<Seq<char>> {
    match first_where(c.children@, |x: SyntaxNode| x.kind == NODE_ATTRPATH) {
        Some(i) => match first_where(c.children@[i].children@, |x: SyntaxNode| x.kind == NODE_IDENT) {
            Some(j) => Some(c.children@[i].children@[j].text@),
            None => None,
        },
        None => None,
    }
}

/// The value of an input binding: its first child that is a string or an
/// attribute set.
pub open spec fn input_value(c: SyntaxNode) -> Option<SyntaxNode> {
    match first_where(
        c.children@,
        |x: SyntaxNode| x.kind == NODE_STRING || x.kind == NODE_ATTR_SET,
    ) {
        Some(i) => Some(c.children@[i]),
        None => None,
    }
}

/// The URL an input's value gives: the string itself, or the string bound to
/// `url` in an attribute set.
pub open spec fn input_url(v: SyntaxNode) -> Option<Seq<char>> {
    if v.kind == NODE_STRING {
        string_value_of(v)
    } else if v.kind == NODE_ATTR_SET {
        match attribute_value_of(v, "url"@) {
            Some(u) => string_value_of(u),
            None => None,
        }
    } else {
        None
    }
}

/// The input a child of the `inputs` set declares, as its name and URL.
pub open spec fn input_entry(c: SyntaxNode) -> Option<(Seq<char>, Seq<char>)> {
    if text::has_sub(c.text@, "="@) {
        match (input_name(c), input_value(c)) {
            (Some(k), Some(v)) => match input_url(v) {
                Some(u) => Some((k, u)),
                None => None,
            },
            _ => None,
        }
    } else {
        None
    }
}

/// The inputs the children of the `inputs` set declare; a later declaration
/// of a name replaces the earlier.
pub open spec fn inputs_from(cs: Seq<SyntaxNode>) -> Seq<(Seq<char>, Seq<char>)>
    decreases cs.len(),
{
    if cs.len() == 0 {
        Seq::empty()
    } else {
        match input_entry(cs.last()) {
            Some((k, u)) => insert(inputs_from(cs.drop_last()), k, u),
            None => inputs_from(cs.drop_last()),
        }
    }
}

/// The inputs of a flake: those of the attribute set bound to `inputs`.
pub open spec fn flake_inputs_of(flake: SyntaxNode) -> Seq<(Seq<char>, Seq<char>)> {
    match attribute_value_of(flake, "inputs"@) {
        Some(n) => if n.kind == NODE_ATTR_SET {
            inputs_from(n.children@)
        } else {
            Seq::empty()
        },
        None => Seq::empty(),
    }
}

/// The description of a flake.
pub open spec fn flake_description_of(flake: SyntaxNode) -> Option<Seq<char>> {
    match attribute_value_of(flake, "description"@) {
        Some(v) => string_value_of(v),
        None => None,
    }
}

/// The setting a line of `nixConfig` makes: split at its one `=`, the name
/// trimmed and the value trimmed without trailing semicolons.
pub open spec fn config_entry(line: Seq<char>) -> Option<(Seq<char>, Seq<char>)> {
    let parts = text::pieces(line, '=');
    if text::has_sub(line, "="@) && parts.len() == 2 {
        Some((text::trimmed(parts[0]), text::strip_suffix_all(text::trimmed(parts[1]), ";"@)))
    } else {
        None
    }
}

/// The settings of a sequence of lines; a later setting of a name replaces
/// the earlier.
pub open spec fn config_from(lines: Seq<Seq<char>>) -> Seq<(Seq<char>, Seq<char>)>
    decreases lines.len(),
{
    if lines.len() == 0 {
        Seq::empty()
    } else {
        match config_entry(lines.last()) {
            Some((k, v)) => insert(config_from(lines.drop_last()), k, v),
            None => config_from(lines.drop_last()),
        }
    }
}

/// The `nixConfig` settings of a flake, read line by line from the text of
/// the attribute set bound to it.
pub open spec fn nix_config_of(flake: SyntaxNode) -> Option<Seq<(Seq<char>, Seq<char>)>> {
    match attribute_value_of(flake, "nixConfig"@) {
        Some(n) => if n.kind == NODE_ATTR_SET {
            Some(config_from(text::line_seq(n.text@)))
        } else {
            None
        },
        None => None,
    }
}

/// The URLs of named flake references.
pub open spec fn input_urls(m: Seq<(Seq<char>, FlakeRef)>) -> Seq<(Seq<char>, Seq<char>)> {
    map_values_of(m, |r: FlakeRef| r.uri@)
}

/// The texts of named strings.
pub open spec fn setting_texts(m: Seq<(Seq<char>, String)>) -> Seq<(Seq<char>, Seq<char>)> {
    map_values_of(m, |s: String| s@)
}

/// The inputs of a flake.
#[derive(Debug)]
pub struct FlakeInputs {
    /// Each input's reference, by name.
    pub inputs: NameMap<FlakeRef>,
}

/// The outputs of a flake, by kind and name. They are not read from the
/// source, so they are empty.
#[derive(Debug)]
pub struct FlakeOutputs {
    /// Packages.
    pub packages: NameMap<String>,
    /// Development shells.
    pub dev_shells: NameMap<String>,
    /// Apps.
    pub apps: NameMap<String>,
    /// NixOS modules.
    pub nixos_modules: NameMap<String>,
    /// Overlays.
    pub overlays: NameMap<String>,
}

/// A flake as read from its source.
#[derive(Debug)]
pub struct ParsedFlake {
    /// The parsed file.
    pub file: NixFile,
    /// The description.
    pub description: Option<String>,
    /// The inputs.
    pub inputs: FlakeInputs,
    /// The outputs.
    pub outputs: FlakeOutputs,
    /// The `nixConfig` settings, if the flake has them.
    pub nix_config: Option<NameMap<String>>,
}

/// Reads flakes.
pub struct FlakeParser;

/// The position of the first child of a kind.
fn child_of_kind(n: &SyntaxNode, k: u16) -> (r: Option<usize>)
    ensures
        r matches Some(i) ==> first_where(n.children@, |c: SyntaxNode| c.kind == k) == Some(i as int)
            && i < n.children@.len(),
        r is None ==> first_where(n.children@, |c: SyntaxNode| c.kind == k) is None,
{
    let ghost p = |c: SyntaxNode| c.kind == k;
    proof {
        lemma_first_where(n.children@, p);
    }
    let mut i: usize = 0;
    while i < n.children.len()
        invariant
            i <= n.children@.len(),
            p == (|c: SyntaxNode| c.kind == k),
            forall|j: int| 0 <= j < i ==> !p(#[trigger] n.children@[j]),
            match first_where(n.children@, p) {
                Some(m) => 0 <= m < n.children@.len() && p(n.children@[m]) && forall|j: int|
                    0 <= j < m ==> !p(#[trigger] n.children@[j]),
                None => forall|j: int| 0 <= j < n.children@.len() ==> !p(#[trigger] n.children@[j]),
            },
        decreases n.children@.len() - i,
    {
        if n.children[i].kind == k {
            assert(p(n.children@[i as int]));
            return Some(i);
        }
        i = i + 1;
    }
    None
}

/// The position of the first child that is a string or an attribute set.
fn value_child(n: &SyntaxNode) -> (r: Option<usize>)
    ensures
        r matches Some(i) ==> first_where(
            n.children@,
            |x: SyntaxNode| x.kind == NODE_STRING || x.kind == NODE_ATTR_SET,
        ) == Some(i as int) && i < n.children@.len(),
        r is None ==> first_where(
            n.children@,
            |x: SyntaxNode| x.kind == NODE_STRING || x.kind == NODE_ATTR_SET,
        ) is None,
{
    let ghost p = |x: SyntaxNode| x.kind == NODE_STRING || x.kind == NODE_ATTR_SET;
    proof {
        lemma_first_where(n.children@, p);
    }
    let mut i: usize = 0;
    while i < n.children.len()
        invariant
            i <= n.children@.len(),
            p == (|x: SyntaxNode| x.kind == NODE_STRING || x.kind == NODE_ATTR_SET),
            forall|j: int| 0 <= j < i ==> !p(#[trigger] n.children@[j]),
            match first_where(n.children@, p) {
                Some(m) => 0 <= m < n.children@.len() && p(n.children@[m]) && forall|j: int|
                    0 <= j < m ==> !p(#[trigger] n.children@[j]),
                None => forall|j: int| 0 <= j < n.children@.len() ==> !p(#[trigger] n.children@[j]),
            },
        decreases n.children@.len() - i,
    {
        let k = n.children[i].kind;
        if k == NODE_STRING || k == NODE_ATTR_SET {
            assert(p(n.children@[i as int]));
            return Some(i);
        }
        i = i + 1;
    }
    None
}

/// The URL an input's value gives.
fn extract_input_url(v: &SyntaxNode) -> (r: Option<String>)
    ensures
        match input_url(*v) {
            Some(u) => r matches Some(s) && s@ == u,
            None => r is None,
        },
{
    if v.kind == NODE_STRING {
        extract_string_value(v)
    } else if v.kind == NODE_ATTR_SET {
        match get_attribute_value(v, "url") {
            Some(u) => extract_string_value(u),
            None => None,
        }
    } else {
        None
    }
}

/// The input a child of the `inputs` set declares.
fn read_input(c: &SyntaxNode) -> (r: Option<(String, String)>)
    ensures
        match input_entry(*c) {
            Some((k, u)) => r matches Some((a, b)) && a@ == k && b@ == u,
            None => r is None,
        },
{
    let t = text::chars_of(c.text.as_str());
    if !text::contains_str(t.as_slice(), "=") {
        return None;
    }
    let name = match child_of_kind(c, NODE_ATTRPATH) {
        Some(i) => match child_of_kind(&c.children[i], NODE_IDENT) {
            Some(j) => Some(c.children[i].children[j].text.clone()),
            None => None,
        },
        None => None,
    };
    let value = match value_child(c) {
        Some(i) => Some(&c.children[i]),
        None => None,
    };
    match (name, value) {
        (Some(k), Some(v)) => match extract_input_url(v) {
            Some(u) => Some((k, u)),
            None => None,
        },
        _ => None,
    }
}

impl FlakeParser {
    /// The inputs the children of the `inputs` set declare.
    fn extract_inputs(flake: &SyntaxNode) -> (r: FlakeInputs)
        ensures
            input_urls(r.inputs.model()) == flake_inputs_of(*flake),
    {
        let mut inputs: NameMap<FlakeRef> = NameMap::new();
        assert(input_urls(inputs.model()) =~= Seq::<(Seq<char>, Seq<char>)>::empty());
        match get_attribute_value(flake, "inputs") {
            Some(node) => {
                if node.kind == NODE_ATTR_SET {
                    let mut i: usize = 0;
                    assert(node.children@.take(0) =~= Seq::<SyntaxNode>::empty());
                    while i < node.children.len()
                        invariant
                            i <= node.children@.len(),
                            input_urls(inputs.model()) == inputs_from(node.children@.take(i as int)),
                        decreases node.children@.len() - i,
                    {
                        proof {
                            let t = node.children@.take(i + 1);
                            assert(t.drop_last() =~= node.children@.take(i as int));
                            assert(t.last() == node.children@[i as int]);
                        }
                        match read_input(&node.children[i]) {
                            Some((k, u)) => {
                                let ghost m = inputs.model();
                                let r = FlakeRef::new(u);
                                proof {
                                    lemma_insert_map(m, |r: FlakeRef| r.uri@, k@, r);
                                }
                                inputs.insert(k, r);
                            },
                            None => {},
                        }
                        i = i + 1;
                    }
                    assert(node.children@.take(node.children@.len() as int) =~= node.children@);
                }
            },
            None => {},
        }
        FlakeInputs { inputs }
    }

    /// The `nixConfig` settings of a flake.
    fn extract_nix_config(flake: &SyntaxNode) -> (r: Option<NameMap<String>>)
        ensures
            match nix_config_of(*flake) {
                Some(c) => r matches Some(m) && setting_texts(m.model()) == c,
                None => r is None,
            },
    {
        match get_attribute_value(flake, "nixConfig") {
            Some(node) => {
                if node.kind == NODE_ATTR_SET {
                    let t = text::chars_of(node.text.as_str());
                    let ls = text::lines(t.as_slice());
                    let mut config: NameMap<String> = NameMap::new();
                    let mut i: usize = 0;
                    assert(text::views(ls@).take(0) =~= Seq::<Seq<char>>::empty());
                    assert(setting_texts(config.model()) =~= Seq::<(Seq<char>, Seq<char>)>::empty());
                    while i < ls.len()
                        invariant
                            i <= ls@.len(),
                            text::views(ls@) == text::line_seq(node.text@),
                            setting_texts(config.model()) == config_from(
                                text::views(ls@).take(i as int),
                            ),
                        decreases ls@.len() - i,
                    {
                        let ghost vs = text::views(ls@);
                        proof {
                            let tk = vs.take(i + 1);
                            assert(tk.drop_last() =~= vs.take(i as int));
                            assert(tk.last() == ls@[i as int]@);
                        }
                        let line = ls[i].as_slice();
                        let parts = text::split_char(line, '=');
                        if text::contains_str(line, "=") && parts.len() == 2 {
                            proof {
                                assert(text::views(parts@)[0] == parts@[0]@);
                                assert(text::views(parts@)[1] == parts@[1]@);
                            }
                            let key = text::trim(parts[0].as_slice());
                            let v1 = text::trim(parts[1].as_slice());
                            let value = text::trim_end_matches_str(v1.as_slice(), ";");
                            let ghost m = config.model();
                            let vs2 = text::string_of(value.as_slice());
                            proof {
                                lemma_insert_map(m, |s: String| s@, key@, vs2);
                            }
                            config.insert(text::string_of(key.as_slice()), vs2);
                        }
                        i = i + 1;
                    }
                    assert(text::views(ls@).take(ls@.len() as int) =~= text::views(ls@));
                    Some(config)
                } else {
                    None
                }
            },
            None => None,
        }
    }

    /// Reads a parsed file as a flake: its description, its inputs and its
    /// `nixConfig` settings, from the first attribute set under the root.
    /// A file with syntax errors, or without such a set, is refused.
    pub fn parse(file: NixFile) -> (r: Result<ParsedFlake, NixDomainError>)
        ensures
            file.errors@.len() > 0 ==> (r matches Err(NixDomainError::ParseError(m)) && m@
                == "Cannot parse flake with syntax errors"@),
            file.errors@.len() == 0 ==> match flake_set_of(file.ast) {
                None => r matches Err(NixDomainError::ParseError(m)) && m@
                    == "Not a valid flake: no attribute set found"@,
                Some(f) => r matches Ok(p) && {
                    &&& p.file == file
                    &&& match flake_description_of(f) {
                        Some(d) => p.description matches Some(s) && s@ == d,
                        None => p.description is None,
                    }
                    &&& input_urls(p.inputs.inputs.model()) == flake_inputs_of(f)
                    &&& p.outputs.packages.model().len() == 0
                    &&& p.outputs.dev_shells.model().len() == 0
                    &&& p.outputs.apps.model().len() == 0
                    &&& p.outputs.nixos_modules.model().len() == 0
                    &&& p.outputs.overlays.model().len() == 0
                    &&& match nix_config_of(f) {
                        Some(c) => p.nix_config matches Some(m) && setting_texts(m.model()) == c,
                        None => p.nix_config is None,
                    }
                },
            },
    {
        if file.errors.len() > 0 {
            return Err(
                NixDomainError::ParseError(text::string_from("Cannot parse flake with syntax errors")),
            );
        }
        let i = match child_of_kind(&file.ast, NODE_ATTR_SET) {
            Some(i) => i,
            None => {
                return Err(
                    NixDomainError::ParseError(
                        text::string_from("Not a valid flake: no attribute set found"),
                    ),
                );
            },
        };
        let flake = &file.ast.children[i];
        let description = match get_attribute_value(flake, "description") {
            Some(v) => extract_string_value(v),
            None => None,
        };
        let inputs = Self::extract_inputs(flake);
        let nix_config = Self::extract_nix_config(flake);
        let outputs = FlakeOutputs {
            packages: NameMap::new(),
            dev_shells: NameMap::new(),
            apps: NameMap::new(),
            nixos_modules: NameMap::new(),
            overlays: NameMap::new(),
        };
        Ok(ParsedFlake { file, description, inputs, outputs, nix_config })
    }
}

/// The lines that pin the inputs when a flake is written out.
pub open spec fn inputs_block(entries: Seq<(Seq<char>, FlakeRef)>) -> Seq<char>
    decreases entries.len(),
{
    if entries.len() == 0 {
        Seq::empty()
    } else {
        inputs_block(entries.drop_last()) + "    "@ + entries.last().0 + ".url = \""@
            + entries.last().1.uri@ + "\";\n"@
    }
}

/// The lines of the `nixConfig` settings when a flake is written out.
pub open spec fn config_block(entries: Seq<(Seq<char>, String)>) -> Seq<char>
    decreases entries.len(),
{
    if entries.len() == 0 {
        Seq::empty()
    } else {
        config_block(entries.drop_last()) + "    "@ + entries.last().0 + " = "@
            + entries.last().1@ + ";\n"@
    }
}

/// The source of a flake written out from its description, inputs and
/// settings; its outputs are not kept.
pub open spec fn flake_text(
    description: Option<String>,
    inputs: Seq<(Seq<char>, FlakeRef)>,
    config: Option<NameMap<String>>,
) -> Seq<char> {
    "{\n"@ + match description {
        Some(d) => "  description = \""@ + d@ + "\";\n\n"@,
        None => Seq::empty(),
    } + if inputs.len() > 0 {
        "  inputs = {\n"@ + inputs_block(inputs) + "  };\n\n"@
    } else {
        Seq::empty()
    } + "  outputs = { self, ... }: {\n"@ + "    # original outputs not kept\n"@ + "  };\n"@
        + match config {
        Some(c) => "\n  nixConfig = {\n"@ + config_block(c.model()) + "  };\n"@,
        None => Seq::empty(),
    } + "}\n"@
}

/// Appends the lines that pin the inputs.
fn push_inputs(v: &mut Vec<char>, inputs: &NameMap<FlakeRef>)
    ensures
        final(v)@ == old(v)@ + inputs_block(inputs.model()),
{
    let mut i: usize = 0;
    let ghost v0 = old(v)@;
    assert(inputs.model().take(0) =~= Seq::<(Seq<char>, FlakeRef)>::empty());
    while i < inputs.len()
        invariant
            i <= inputs.model().len(),
            v@ == v0 + inputs_block(inputs.model().take(i as int)),
        decreases inputs.model().len() - i,
    {
        let ghost t = inputs.model().take(i + 1);
        assert(t.drop_last() =~= inputs.model().take(i as int));
        text::append_str(v, "    ");
        text::append_str(v, inputs.name_at(i).as_str());
        text::append_str(v, ".url = \"");
        text::append_str(v, inputs.value_at(i).uri.as_str());
        text::append_str(v, "\";\n");
        i = i + 1;
        assert(v@ =~= v0 + inputs_block(inputs.model().take(i as int)));
    }
    assert(inputs.model().take(inputs.model().len() as int) =~= inputs.model());
}

/// Appends the lines of the settings.
fn push_config(v: &mut Vec<char>, config: &NameMap<String>)
    ensures
        final(v)@ == old(v)@ + config_block(config.model()),
{
    let mut i: usize = 0;
    let ghost v0 = old(v)@;
    assert(config.model().take(0) =~= Seq::<(Seq<char>, String)>::empty());
    while i < config.len()
        invariant
            i <= config.model().len(),
            v@ == v0 + config_block(config.model().take(i as int)),
        decreases config.model().len() - i,
    {
        let ghost t = config.model().take(i + 1);
        assert(t.drop_last() =~= config.model().take(i as int));
        text::append_str(v, "    ");
        text::append_str(v, config.name_at(i).as_str());
        text::append_str(v, " = ");
        text::append_str(v, config.value_at(i).as_str());
        text::append_str(v, ";\n");
        i = i + 1;
        assert(v@ =~= v0 + config_block(config.model().take(i as int)));
    }
    assert(config.model().take(config.model().len() as int) =~= config.model());
}

/// The message for an input a flake does not have.
fn missing_input(name: &str) -> (r: NixDomainError)
    ensures
        r matches NixDomainError::ValidationError(m) && m@ == "Input '"@ + name@ + "' not found"@,
{
    let mut v = text::chars_of("Input '");
    text::append_str(&mut v, name);
    text::append_str(&mut v, "' not found");
    NixDomainError::ValidationError(text::string_of(v.as_slice()))
}

/// What writing a flake out leaves: its file holds the text written out
/// from its description, inputs and settings, and has been parsed again
/// when that succeeded.
pub open spec fn rewritten_as(p: ParsedFlake, r: Result<(), NixDomainError>) -> bool {
    let t = flake_text(p.description, p.inputs.inputs.model(), p.nix_config);
    &&& p.file.content@ == t
    &&& (r is Ok <==> crate::syntax::well_nested(crate::syntax::rnix_parse(t).0))
    &&& r is Ok ==> crate::syntax::flat(p.file.ast) == crate::syntax::rnix_parse(t).0
}

impl ParsedFlake {
    /// Writes the flake out from its description, inputs and settings, and
    /// parses the result again.
    fn regenerate_content(&mut self) -> (r: Result<(), NixDomainError>)
        ensures
            final(self).description == old(self).description,
            final(self).inputs == old(self).inputs,
            final(self).outputs == old(self).outputs,
            final(self).nix_config == old(self).nix_config,
            rewritten_as(*final(self), r),
    {
        let mut v = text::chars_of("{\n");
        match &self.description {
            Some(d) => {
                text::append_str(&mut v, "  description = \"");
                text::append_str(&mut v, d.as_str());
                text::append_str(&mut v, "\";\n\n");
            },
            None => {},
        }
        let ghost a = v@;
        if self.inputs.inputs.len() > 0 {
            text::append_str(&mut v, "  inputs = {\n");
            push_inputs(&mut v, &self.inputs.inputs);
            text::append_str(&mut v, "  };\n\n");
        }
        let ghost b = v@;
        text::append_str(&mut v, "  outputs = { self, ... }: {\n");
        text::append_str(&mut v, "    # original outputs not kept\n");
        text::append_str(&mut v, "  };\n");
        let ghost c = v@;
        match &self.nix_config {
            Some(config) => {
                text::append_str(&mut v, "\n  nixConfig = {\n");
                push_config(&mut v, config);
                text::append_str(&mut v, "  };\n");
            },
            None => {},
        }
        let ghost d = v@;
        text::append_str(&mut v, "}\n");
        assert(v@ =~= flake_text(self.description, self.inputs.inputs.model(), self.nix_config));
        let content = text::string_of(v.as_slice());
        let source = match &self.file.source {
            Some(s) => Some(s.clone()),
            None => None,
        };
        self.file.content = text::string_of(v.as_slice());
        match NixFile::parse_string(content, source) {
            Ok(f) => {
                self.file = f;
                Ok(())
            },
            Err(e) => Err(e),
        }
    }

    /// Adds an input, or points an existing one at the new URL, and writes
    /// the flake out again.
    pub fn add_input(&mut self, name: &str, url: &str) -> (r: Result<(), NixDomainError>)
        ensures
            input_urls(final(self).inputs.inputs.model()) == insert(
                input_urls(old(self).inputs.inputs.model()),
                name@,
                url@,
            ),
            final(self).description == old(self).description,
            final(self).nix_config == old(self).nix_config,
            rewritten_as(*final(self), r),
    {
        let ghost m = self.inputs.inputs.model();
        let fr = FlakeRef::new(text::string_from(url));
        proof {
            lemma_insert_map(m, |r: FlakeRef| r.uri@, name@, fr);
        }
        self.inputs.inputs.insert(text::string_from(name), fr);
        self.regenerate_content()
    }

    /// Points an existing input at a new URL and writes the flake out again;
    /// an input the flake does not have is refused and nothing changes.
    pub fn update_input(&mut self, name: &str, new_url: &str) -> (r: Result<(), NixDomainError>)
        ensures
            lookup(old(self).inputs.inputs.model(), name@) is None ==> *final(self) == *old(self)
                && (r matches Err(NixDomainError::ValidationError(m)) && m@ == "Input '"@ + name@
                + "' not found"@),
            lookup(old(self).inputs.inputs.model(), name@) is Some ==> {
                &&& input_urls(final(self).inputs.inputs.model()) == insert(
                    input_urls(old(self).inputs.inputs.model()),
                    name@,
                    new_url@,
                )
                &&& final(self).description == old(self).description
                &&& final(self).nix_config == old(self).nix_config
                &&& rewritten_as(*final(self), r)
            },
    {
        if !self.inputs.inputs.contains_key(name) {
            return Err(missing_input(name));
        }
        self.add_input(name, new_url)
    }

    /// Removes an input and writes the flake out again; an input the flake
    /// does not have is refused and nothing changes.
    pub fn remove_input(&mut self, name: &str) -> (r: Result<(), NixDomainError>)
        ensures
            match key_index(old(self).inputs.inputs.model(), name@) {
                None => *final(self) == *old(self) && (r matches Err(
                    NixDomainError::ValidationError(m),
                ) && m@ == "Input '"@ + name@ + "' not found"@),
                Some(i) => {
                    &&& final(self).inputs.inputs.model() == old(self).inputs.inputs.model().remove(
                        i as int,
                    )
                    &&& final(self).description == old(self).description
                    &&& final(self).nix_config == old(self).nix_config
                    &&& rewritten_as(*final(self), r)
                },
            },
    {
        match self.inputs.inputs.remove(name) {
            None => Err(missing_input(name)),
            Some(_) => self.regenerate_content(),
        }
    }

    /// The flake's source text.
    pub fn to_string(&self) -> (r: String)
        ensures
            r@ == self.file.content@,
    {
        self.file.content.clone()
    }
}

} // verus!
