use vstd::prelude::*;
use crate::ast::{ExprRef, Import, ValueVariant};
use crate::line_index::Range;
use crate::search::{first_index, lemma_first_index};
use crate::visibility::Publicity;

verus! {

/// What hovering shows: rendered text and the range it describes.
#[derive(Debug)]
pub struct Hover {
    pub contents: String,
    pub range: Range,
}

/// The text of each string.
pub open spec fn names_of(v: Seq<String>) -> Seq<Seq<char>> {
    v.map_values(|h: String| h@)
}

/// The link to a value's page in the package registry's hosted documentation.
pub open spec fn hexdocs_link_section(package: Seq<char>, module: Seq<char>, name: Seq<char>) -> Seq<char> {
    "\nView on [HexDocs](https://hexdocs.pm/"@ + package + "/"@ + module + ".html#"@ + name + ")"@
}

/// Renders the link to the hosted documentation of `name` in `module_name` of `package_name`.
pub fn format_hexdocs_link_section(package_name: &str, module_name: &str, name: &str) -> (r: String)
    ensures
        r@ == hexdocs_link_section(package_name@, module_name@, name@),
{
    let mut s = String::from_str("\nView on [HexDocs](https://hexdocs.pm/");
    s.append(package_name);
    s.append("/");
    s.append(module_name);
    s.append(".html#");
    s.append(name);
    s.append(")");
    s
}

pub open spec fn imported_from_registry(module_name: Seq<char>, hex_deps: Seq<String>) -> spec_fn(Import) -> bool {
    |p: Import| p.module@ == module_name && names_of(hex_deps).contains(p.package@)
}

/// Index of the first import of `module_name` whose package is in `hex_deps`, or -1.
pub open spec fn hex_import(imps: Seq<Import>, module_name: Seq<char>, hex_deps: Seq<String>) -> int {
    first_index(imps, imported_from_registry(module_name, hex_deps))
}

/// The link section for `name` of `module_name`, when the module is imported
/// from a package of the registry.
pub open spec fn link_section_for(module_name: Seq<char>, name: Seq<char>, imps: Seq<Import>, hex_deps: Seq<String>) -> Option<Seq<char>> {
    let k = hex_import(imps, module_name, hex_deps);
    if k >= 0 {
        Some(hexdocs_link_section(imps[k].package@, module_name, name))
    } else {
        None
    }
}

pub fn contains_string(v: &Vec<String>, s: &String) -> (r: bool)
    ensures
        r == names_of(v@).contains(s@),
{
    let mut i: usize = 0;
    while i < v.len()
        invariant
            i <= v@.len(),
            forall|k: int| 0 <= k < i ==> (#[trigger] v@[k])@ != s@,
        decreases v@.len() - i,
    {
        if v[i] == *s {
            assert(names_of(v@)[i as int] == s@);
            return true;
        }
        i = i + 1;
    }
    assert forall|k: int| 0 <= k < v@.len() implies #[trigger] names_of(v@)[k] != s@ by {
        assert(names_of(v@)[k] == v@[k]@);
    }
    false
}

/// The link section for a value reached through an import, when the package
/// it is imported from comes from the registry.
pub fn get_hexdocs_link_section(module_name: &String, name: &String, imports: &Vec<Import>, hex_deps: &Vec<String>) -> (r: Option<String>)
    ensures
        r is Some <==> link_section_for(module_name@, name@, imports@, hex_deps@) is Some,
        r matches Some(s) ==> link_section_for(module_name@, name@, imports@, hex_deps@) == Some(s@),
{
    proof {
        lemma_first_index(imports@, imported_from_registry(module_name@, hex_deps@));
    }
    let mut i: usize = 0;
    while i < imports.len()
        invariant
            i <= imports@.len(),
            forall|j: int| 0 <= j < i ==> !((#[trigger] imports@[j]).module@ == module_name@
                && names_of(hex_deps@).contains(imports@[j].package@)),
        decreases imports@.len() - i,
    {
        proof {
            lemma_first_index(imports@, imported_from_registry(module_name@, hex_deps@));
        }
        let p = &imports[i];
        if p.module == *module_name && contains_string(hex_deps, &p.package) {
            return Some(format_hexdocs_link_section(p.package.as_str(), module_name.as_str(), name.as_str()));
        }
        i = i + 1;
    }
    None
}

/// A link is shown for a value reached through an import exactly when its
/// module is imported from a package that comes from the registry.
pub proof fn lemma_link_iff_imported_from_registry(module_name: Seq<char>, name: Seq<char>, imps: Seq<Import>, hex_deps: Seq<String>)
    ensures
        link_section_for(module_name, name, imps, hex_deps) is Some <==> exists|i: int|
            0 <= i < imps.len() && (#[trigger] imps[i]).module@ == module_name
                && names_of(hex_deps).contains(imps[i].package@),
{
    lemma_first_index(imps, imported_from_registry(module_name, hex_deps));
    if hex_import(imps, module_name, hex_deps) >= 0 {
        let k = hex_import(imps, module_name, hex_deps);
        assert(imps[k].module@ == module_name);
    }
}

/// The module and name that an expression refers to, when it names an
/// importable module function or constant, or selects from a module.
pub open spec fn expr_qualified_name(e: ExprRef) -> Option<(Seq<char>, Seq<char>)> {
    match e {
        ExprRef::Var { name, publicity, variant } => if publicity != Publicity::Private {
            match variant {
                ValueVariant::ModuleFn { module } => Some((module@, name@)),
                ValueVariant::ModuleConstant { module } => Some((module@, name@)),
                _ => None,
            }
        } else {
            None
        },
        ExprRef::ModuleSelect { module_name, label } => Some((module_name@, label@)),
        ExprRef::Other => None,
    }
}

pub fn get_expr_qualified_name(expression: &ExprRef) -> (r: Option<(&String, &String)>)
    ensures
        r is Some <==> expr_qualified_name(*expression) is Some,
        r matches Some(p) ==> expr_qualified_name(*expression) == Some((p.0@, p.1@)),
{
    match expression {
        ExprRef::Var { name, publicity, variant } => {
            if *publicity == Publicity::Private {
                return None;
            }
            match variant {
                ValueVariant::ModuleFn { module } => Some((module, name)),
                ValueVariant::ModuleConstant { module } => Some((module, name)),
                _ => None,
            }
        },
        ExprRef::ModuleSelect { module_name, label } => Some((module_name, label)),
        ExprRef::Other => None,
    }
}

pub open spec fn doc_or_empty(d: Option<String>) -> Seq<char> {
    match d {
        Some(s) => s@,
        None => Seq::empty(),
    }
}

/// A fenced type signature, then documentation, then a link section.
pub open spec fn hover_text(type_text: Seq<char>, documentation: Seq<char>, link: Seq<char>) -> Seq<char> {
    "```gleam\n"@ + type_text + "\n```\n"@ + documentation + link
}

/// A fenced type signature alone.
pub open spec fn signature_text(type_text: Seq<char>) -> Seq<char> {
    "```gleam\n"@ + type_text + "\n```"@
}

/// Renders a type signature, its documentation and a link section.
pub fn render_hover(type_text: &String, documentation: &Option<String>, link: &str) -> (r: String)
    ensures
        r@ == hover_text(type_text@, doc_or_empty(*documentation), link@),
{
    let mut s = String::from_str("```gleam\n");
    s.append(type_text.as_str());
    s.append("\n```\n");
    match documentation {
        Some(d) => s.append(d.as_str()),
        None => {},
    }
    s.append(link);
    assert(s@ =~= hover_text(type_text@, doc_or_empty(*documentation), link@));
    s
}

/// Renders a type signature alone.
pub fn render_signature(type_text: &String) -> (r: String)
    ensures
        r@ == signature_text(type_text@),
{
    let mut s = String::from_str("```gleam\n");
    s.append(type_text.as_str());
    s.append("\n```");
    s
}

} // verus!
