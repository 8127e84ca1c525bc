use vstd::prelude::*;
use crate::ast::{DefinitionKind, Module, ModuleInterface, Node, NodeKind, Span};
use crate::completion::{
    completion_types, completion_values, find_type, find_value, first_interface, first_type, first_value,
    get_module_interface, type_completions, value_completions,
};
use crate::hover::{
    contains_string, doc_or_empty, expr_qualified_name, format_hexdocs_link_section, get_expr_qualified_name,
    get_hexdocs_link_section, hexdocs_link_section, hover_text, link_section_for, render_hover, render_signature,
    signature_text, Hover,
};
use crate::import_completion::{distinct_interface_names, import_completions, import_line_completions, unqualified_completions_from_module, unqualified_offers};
use crate::items::{items_view, CompletionItem, ItemView};
use crate::line_index::{offset_of, position_of};
use crate::locator::{find_node, locate_in};
use crate::search::{first_index, lemma_first_index};
use crate::code_action::{code_action_unused_imports, is_removal_action, offers_removal, CodeAction};
use crate::line_index::{LineIndex, Range};
use crate::hover::names_of;
use vstd::string::StringSliceAdditionalSpecFns;
use vstd::utf8::encode_utf8;

verus! {

/// Whether an operation (re)compiled anything since the last response.
#[derive(Debug)]
pub enum Compilation {
    /// Compilation was attempted and succeeded for these modules.
    Yes(Vec<String>),
    /// Compilation was not attempted for this operation.
    No,
}

/// The envelope in which every request is answered.
#[derive(Debug)]
pub struct Response<T> {
    pub result: Result<T, String>,
    pub warnings: Vec<String>,
    pub compilation: Compilation,
}

/// Where a package of the dependency manifest comes from.
#[derive(Clone, Copy, Debug, PartialEq, Eq, Structural)]
pub enum PackageSource {
    Hex,
    Git,
    Local,
}

/// A package of the dependency manifest.
#[derive(Debug)]
pub struct ManifestPackage {
    pub name: String,
    pub source: PackageSource,
}

/// What one run of the project compiler produced.
#[derive(Debug)]
pub struct Snapshot {
    /// Every compiled module of the root package.
    pub modules: Vec<Module>,
    /// Every module that the root package may import.
    pub interfaces: Vec<ModuleInterface>,
    /// Paths of the modules that this run compiled.
    pub compiled: Vec<String>,
}

/// No two modules share a name.
pub open spec fn distinct_module_names(ms: Seq<Module>) -> bool {
    forall|i: int, j: int| 0 <= i < j < ms.len() ==> (#[trigger] ms[i]).name@ != (#[trigger] ms[j]).name@
}

impl Snapshot {
    /// The compiler keys modules and interfaces by name: each name occurs once.
    pub open spec fn wf(&self) -> bool {
        distinct_module_names(self.modules@) && distinct_interface_names(self.interfaces@)
    }
}

/// The request-handling engine of one open project.
#[derive(Debug)]
pub struct LanguageServerEngine {
    /// Directory that holds the project.
    pub root_path: String,
    /// Name of the root package.
    pub root_package: String,
    pub dependencies: Vec<String>,
    pub dev_dependencies: Vec<String>,
    pub modules: Vec<Module>,
    pub interfaces: Vec<ModuleInterface>,
    pub modules_compiled_since_last_feedback: Vec<String>,
    pub compiled_since_last_feedback: bool,
    /// Warnings not yet reported.
    pub warnings: Vec<String>,
    /// Packages that come from the public registry; only their values get a
    /// documentation link on hover.
    pub hex_deps: Vec<String>,
}

/// Names of the packages that come from the registry, in manifest order.
pub open spec fn hex_packages(ps: Seq<ManifestPackage>) -> Seq<Seq<char>>
    decreases ps.len(),
{
    if ps.len() == 0 {
        seq![]
    } else if ps.last().source == PackageSource::Hex {
        hex_packages(ps.drop_last()).push(ps.last().name@)
    } else {
        hex_packages(ps.drop_last())
    }
}

/// The compilation tag that a response reports, drained from the engine.
pub open spec fn feedback(e: LanguageServerEngine) -> Option<Seq<String>> {
    if e.compiled_since_last_feedback {
        Some(e.modules_compiled_since_last_feedback@)
    } else {
        None
    }
}

pub open spec fn reported(c: Compilation) -> Option<Seq<String>> {
    match c {
        Compilation::Yes(v) => Some(v@),
        Compilation::No => None,
    }
}

/// After answering, nothing is left to report and the project is unchanged.
pub open spec fn drained(before: LanguageServerEngine, after: LanguageServerEngine) -> bool {
    &&& !after.compiled_since_last_feedback
    &&& after.modules_compiled_since_last_feedback@.len() == 0
    &&& after.warnings@.len() == 0
    &&& after.root_path == before.root_path
    &&& after.root_package == before.root_package
    &&& after.dependencies == before.dependencies
    &&& after.dev_dependencies == before.dev_dependencies
    &&& after.modules == before.modules
    &&& after.interfaces == before.interfaces
    &&& after.hex_deps == before.hex_deps
}

/// The source text of a module, as bytes.
pub open spec fn code_bytes(m: Module) -> Seq<u8> {
    encode_utf8(m.code@)
}

/// Once a response has been built, the next one reports that nothing was
/// compiled unless something compiled in between, whatever its result.
pub proof fn lemma_next_response_reports_no_compilation(
    before: LanguageServerEngine,
    after: LanguageServerEngine,
    next: Compilation,
)
    requires
        drained(before, after),
        reported(next) == feedback(after),
    ensures
        reported(next) is None,
        next is No,
{
}

/// Index of the first `c` in `s` at or after `k`, or -1.
pub open spec fn find_char(s: Seq<char>, c: char, k: int) -> int
    decreases s.len() - k,
{
    if k < 0 || k >= s.len() {
        -1
    } else if s[k] == c {
        k
    } else {
        find_char(s, c, k + 1)
    }
}

/// The module name of a source file: its path below the project's source
/// (or test) directory, without the extension.
pub open spec fn module_name_of(root: Seq<char>, path: Seq<char>) -> Option<Seq<char>> {
    if path.len() > root.len() && path.subrange(0, root.len() as int) == root && path[root.len() as int] == '/' {
        let k = find_char(path, '/', root.len() as int + 1);
        let rest = path.subrange(k + 1, path.len() as int);
        if k >= 0 && rest.len() >= 6 && rest.subrange(rest.len() - 6, rest.len() as int) == ".gleam"@ {
            Some(rest.subrange(0, rest.len() - 6))
        } else {
            None
        }
    } else {
        None
    }
}

pub open spec fn module_has_name(name: Seq<char>) -> spec_fn(Module) -> bool {
    |m: Module| m.name@ == name
}

/// Index of the first module named `name`, or -1.
pub open spec fn first_module(ms: Seq<Module>, name: Seq<char>) -> int {
    first_index(ms, module_has_name(name))
}

/// The module that the file at `path` holds, in the current snapshot.
pub open spec fn module_at(e: LanguageServerEngine, path: Seq<char>) -> Option<Module> {
    match module_name_of(e.root_path@, path) {
        Some(name) => {
            let k = first_module(e.modules@, name);
            if k >= 0 { Some(e.modules@[k]) } else { None }
        },
        None => None,
    }
}

proof fn lemma_find_char(s: Seq<char>, c: char, k: int)
    requires
        0 <= k,
    ensures
        find_char(s, c, k) >= 0 ==> k <= find_char(s, c, k) < s.len() && s[find_char(s, c, k)] == c,
        find_char(s, c, k) < 0 || find_char(s, c, k) >= k,
    decreases s.len() - k,
{
    if k < s.len() && s[k] != c {
        lemma_find_char(s, c, k + 1);
    }
}

/// Finds the module name of the source file at `path` below `root`.
pub fn module_name_for_path(root: &String, path: &String) -> (r: Option<String>)
    ensures
        r is Some <==> module_name_of(root@, path@) is Some,
        r matches Some(n) ==> module_name_of(root@, path@) == Some(n@),
{
    let p = path.as_str();
    let plen = p.unicode_len();
    let rlen = root.as_str().unicode_len();
    if !(plen > rlen) {
        return None;
    }
    let prefix = String::from_str(p.substring_char(0, rlen));
    if !(prefix == *root) || p.get_char(rlen) != '/' {
        return None;
    }
    let mut k: usize = rlen + 1;
    while k < plen && p.get_char(k) != '/'
        invariant
            rlen + 1 <= k <= plen == p@.len(),
            find_char(p@, '/', k as int) == find_char(p@, '/', rlen + 1),
        decreases plen - k,
    {
        k = k + 1;
    }
    if k >= plen {
        return None;
    }
    let rest = p.substring_char(k + 1, plen);
    let rest_len = plen - (k + 1);
    if rest_len < 6 {
        return None;
    }
    let ext = String::from_str(rest.substring_char(rest_len - 6, rest_len));
    let gleam = String::from_str(".gleam");
    if !(ext == gleam) {
        return None;
    }
    Some(String::from_str(rest.substring_char(0, rest_len - 6)))
}

/// A place in a source file.
#[derive(Debug)]
pub struct Location {
    pub path: String,
    pub range: Range,
}

/// The range that a span covers in the text `b`.
pub open spec fn range_of(b: Seq<u8>, span: Span) -> Range {
    Range { start: position_of(b, span.start as int), end: position_of(b, span.end as int) }
}

/// The node of `m` under the cursor.
pub open spec fn node_at(m: Module, line: usize, character: usize) -> Option<Node> {
    locate_in(m.ast.definitions@, offset_of(code_bytes(m), line as int, character as nat) as usize)
}

/// Where the definition of what is under the cursor lives, as a path and a range.
pub open spec fn definition_at(e: LanguageServerEngine, path: Seq<char>, line: usize, character: usize) -> Option<(Seq<char>, Range)> {
    match module_at(e, path) {
        None => None,
        Some(m) => match node_at(m, line, character) {
            None => None,
            Some(n) => match n.definition {
                None => None,
                Some(d) => match d.module {
                    None => Some((path, range_of(code_bytes(m), d.span))),
                    Some(name) => {
                        let k = first_module(e.modules@, name@);
                        if k < 0 {
                            None
                        } else {
                            Some((e.modules@[k].path@, range_of(code_bytes(e.modules@[k]), d.span)))
                        }
                    },
                },
            },
        },
    }
}

/// What hovering over node `n` of module `m` shows: its text and range.
pub open spec fn hover_of(e: LanguageServerEngine, m: Module, n: Node) -> Option<(Seq<char>, Range)> {
    let range = range_of(code_bytes(m), n.span);
    let ty = n.type_text@;
    let doc = doc_or_empty(n.documentation);
    match n.kind {
        NodeKind::Statement => None,
        NodeKind::ModuleStatement(DefinitionKind::Function) => Some((hover_text(ty, doc, Seq::empty()), range)),
        NodeKind::ModuleStatement(DefinitionKind::ModuleConstant) => Some((hover_text(ty, doc, Seq::empty()), range)),
        NodeKind::ModuleStatement(_) => None,
        NodeKind::UnqualifiedImport { name, module, is_type } => {
            let k = first_interface(e.interfaces@, module@);
            if k < 0 {
                None
            } else {
                let iface = e.interfaces@[k];
                if is_type {
                    let t = first_type(iface.types@, name@);
                    if t < 0 {
                        None
                    } else {
                        Some((hover_text(iface.types@[t].type_text@, doc_or_empty(iface.types@[t].documentation), Seq::empty()), range))
                    }
                } else {
                    let v = first_value(iface.values@, name@);
                    let link = if names_of(e.hex_deps@).contains(iface.package@) {
                        hexdocs_link_section(iface.package@, iface.name@, name@)
                    } else {
                        Seq::empty()
                    };
                    if v < 0 {
                        None
                    } else {
                        Some((hover_text(iface.values@[v].type_text@, doc_or_empty(iface.values@[v].documentation), link), range))
                    }
                }
            }
        },
        NodeKind::Pattern => Some((hover_text(ty, doc, Seq::empty()), range)),
        NodeKind::Expression(x) => {
            let link = match expr_qualified_name(x) {
                Some((module_name, name)) => match link_section_for(module_name, name, m.ast.imports@, e.hex_deps@) {
                    Some(l) => l,
                    None => Seq::empty(),
                },
                None => Seq::empty(),
            };
            Some((hover_text(ty, doc, link), range))
        },
        NodeKind::Arg => Some((signature_text(ty), range)),
        NodeKind::FunctionBody => None,
        NodeKind::Annotation => Some((hover_text(ty, doc, Seq::empty()), range)),
    }
}

/// What hovering at the cursor shows.
pub open spec fn hover_at(e: LanguageServerEngine, path: Seq<char>, line: usize, character: usize) -> Option<(Seq<char>, Range)> {
    match module_at(e, path) {
        None => None,
        Some(m) => match node_at(m, line, character) {
            None => None,
            Some(n) => hover_of(e, m, n),
        },
    }
}

/// Completions at the cursor: the import line being written first, then the
/// node of the syntax tree under the cursor.
pub open spec fn completion_at(e: LanguageServerEngine, path: Seq<char>, line: usize, character: usize, src: Seq<u8>) -> Option<Seq<ItemView>> {
    let ifs = e.interfaces@;
    let root = e.root_package@;
    match module_at(e, path) {
        None => None,
        Some(m) => match import_line_completions(src, line, character, m, ifs, root, e.dependencies@, e.dev_dependencies@) {
            Some(v) => Some(v),
            None => match node_at(m, line, character) {
                None => None,
                Some(n) => match n.kind {
                    NodeKind::Pattern => None,
                    NodeKind::Statement => Some(value_completions(ifs, root, m)),
                    NodeKind::Expression(_) => Some(value_completions(ifs, root, m)),
                    NodeKind::FunctionBody => Some(value_completions(ifs, root, m)),
                    NodeKind::ModuleStatement(DefinitionKind::Function) => Some(type_completions(ifs, root, m)),
                    NodeKind::ModuleStatement(DefinitionKind::TypeAlias) => Some(type_completions(ifs, root, m)),
                    NodeKind::ModuleStatement(DefinitionKind::CustomType) => Some(type_completions(ifs, root, m)),
                    NodeKind::ModuleStatement(DefinitionKind::Import { module }) => {
                        let k = first_interface(ifs, module@);
                        if k < 0 {
                            None
                        } else {
                            Some(unqualified_offers(ifs[k], m.ast.imports@, root, true))
                        }
                    },
                    NodeKind::ModuleStatement(DefinitionKind::ModuleConstant) => None,
                    NodeKind::UnqualifiedImport { .. } => None,
                    NodeKind::Arg => None,
                    NodeKind::Annotation => Some(type_completions(ifs, root, m)),
                },
            },
        },
    }
}

impl LanguageServerEngine {
    /// The snapshot held keys modules and interfaces by name.
    pub open spec fn wf(&self) -> bool {
        distinct_module_names(self.modules@) && distinct_interface_names(self.interfaces@)
    }

    /// A new engine for a project, before anything is compiled. The packages
    /// of the manifest that come from the registry are noted for hover links.
    pub fn new(
        root_path: String,
        root_package: String,
        dependencies: Vec<String>,
        dev_dependencies: Vec<String>,
        packages: &Vec<ManifestPackage>,
    ) -> (r: LanguageServerEngine)
        ensures
            r.root_path == root_path,
            r.root_package == root_package,
            r.dependencies == dependencies,
            r.dev_dependencies == dev_dependencies,
            r.modules@.len() == 0,
            r.interfaces@.len() == 0,
            r.wf(),
            r.modules_compiled_since_last_feedback@.len() == 0,
            !r.compiled_since_last_feedback,
            r.warnings@.len() == 0,
            names_of(r.hex_deps@) == hex_packages(packages@),
    {
        let mut hex_deps: Vec<String> = Vec::new();
        let mut i: usize = 0;
        assert(names_of(hex_deps@) =~= hex_packages(packages@.subrange(0, 0)));
        while i < packages.len()
            invariant
                i <= packages@.len(),
                names_of(hex_deps@) == hex_packages(packages@.subrange(0, i as int)),
            decreases packages@.len() - i,
        {
            assert(packages@.subrange(0, i + 1).drop_last() =~= packages@.subrange(0, i as int));
            let ghost prev = hex_deps@;
            if packages[i].source == PackageSource::Hex {
                hex_deps.push(packages[i].name.clone());
                assert(names_of(hex_deps@) =~= names_of(prev).push(packages@[i as int].name@));
            }
            i = i + 1;
        }
        assert(packages@.subrange(0, packages@.len() as int) =~= packages@);
        LanguageServerEngine {
            root_path,
            root_package,
            dependencies,
            dev_dependencies,
            modules: Vec::new(),
            interfaces: Vec::new(),
            modules_compiled_since_last_feedback: Vec::new(),
            compiled_since_last_feedback: false,
            warnings: Vec::new(),
            hex_deps,
        }
    }

    /// Wraps a result with the warnings and the compilation record gathered
    /// since the last response, and starts both afresh. Every request is
    /// answered through here.
    pub fn respond<T>(&mut self, result: Result<T, String>) -> (r: Response<T>)
        ensures
            r.result == result,
            r.warnings@ == old(self).warnings@,
            reported(r.compilation) == feedback(*old(self)),
            drained(*old(self), *final(self)),
    {
        let mut warnings: Vec<String> = Vec::new();
        std::mem::swap(&mut warnings, &mut self.warnings);
        let mut modules: Vec<String> = Vec::new();
        std::mem::swap(&mut modules, &mut self.modules_compiled_since_last_feedback);
        let compilation = if self.compiled_since_last_feedback {
            self.compiled_since_last_feedback = false;
            Compilation::Yes(modules)
        } else {
            Compilation::No
        };
        Response { result, warnings, compilation }
    }

    /// Takes in what a run of the project compiler produced, with the
    /// warnings it raised; a failed run keeps the previous snapshot.
    fn compile(&mut self, outcome: Result<Snapshot, String>, warnings: Vec<String>) -> (r: Result<(), String>)
        ensures
            final(self).compiled_since_last_feedback,
            final(self).warnings@ == old(self).warnings@ + warnings@,
            final(self).root_path == old(self).root_path,
            final(self).root_package == old(self).root_package,
            final(self).dependencies == old(self).dependencies,
            final(self).dev_dependencies == old(self).dev_dependencies,
            final(self).hex_deps == old(self).hex_deps,
            match outcome {
                Ok(s) => {
                    &&& r is Ok
                    &&& final(self).modules == s.modules
                    &&& final(self).interfaces == s.interfaces
                    &&& final(self).modules_compiled_since_last_feedback@
                        == old(self).modules_compiled_since_last_feedback@ + s.compiled@
                },
                Err(e) => {
                    &&& r == Err::<(), String>(e)
                    &&& final(self).modules == old(self).modules
                    &&& final(self).interfaces == old(self).interfaces
                    &&& final(self).modules_compiled_since_last_feedback
                        == old(self).modules_compiled_since_last_feedback
                },
            },
    {
        self.compiled_since_last_feedback = true;
        let mut warnings = warnings;
        self.warnings.append(&mut warnings);
        match outcome {
            Ok(snapshot) => {
                let Snapshot { modules, interfaces, compiled } = snapshot;
                let mut compiled = compiled;
                self.modules = modules;
                self.interfaces = interfaces;
                self.modules_compiled_since_last_feedback.append(&mut compiled);
                Ok(())
            },
            Err(e) => Err(e),
        }
    }

    /// Records a compilation and answers with everything it compiled since
    /// the last response.
    pub fn compile_please(&mut self, outcome: Result<Snapshot, String>, warnings: Vec<String>) -> (r: Response<()>)
        requires
            outcome matches Ok(s) ==> s.wf(),
        ensures
            old(self).wf() ==> final(self).wf(),
            r.warnings@ == old(self).warnings@ + warnings@,
            match outcome {
                Ok(s) => {
                    &&& r.result is Ok
                    &&& reported(r.compilation) == Some(old(self).modules_compiled_since_last_feedback@ + s.compiled@)
                    &&& final(self).modules == s.modules
                    &&& final(self).interfaces == s.interfaces
                },
                Err(e) => {
                    &&& r.result == Err::<(), String>(e)
                    &&& reported(r.compilation) == Some(old(self).modules_compiled_since_last_feedback@)
                    &&& final(self).modules == old(self).modules
                    &&& final(self).interfaces == old(self).interfaces
                },
            },
            !final(self).compiled_since_last_feedback,
            final(self).modules_compiled_since_last_feedback@.len() == 0,
            final(self).warnings@.len() == 0,
            final(self).root_path == old(self).root_path,
            final(self).root_package == old(self).root_package,
            final(self).dependencies == old(self).dependencies,
            final(self).dev_dependencies == old(self).dev_dependencies,
            final(self).hex_deps == old(self).hex_deps,
    {
        let result = self.compile(outcome, warnings);
        self.respond(result)
    }

    /// The loaded module named `name`.
    fn module_named(&self, name: &String) -> (r: Option<&Module>)
        ensures
            first_module(self.modules@, name@) < 0 ==> r is None,
            first_module(self.modules@, name@) >= 0 ==> r == Some(&self.modules@[first_module(self.modules@, name@)]),
    {
        proof {
            lemma_first_index(self.modules@, module_has_name(name@));
        }
        let mut i: usize = 0;
        while i < self.modules.len()
            invariant
                i <= self.modules@.len(),
                forall|j: int| 0 <= j < i ==> (#[trigger] self.modules@[j]).name@ != name@,
            decreases self.modules@.len() - i,
        {
            proof {
                lemma_first_index(self.modules@, module_has_name(name@));
            }
            if self.modules[i].name == *name {
                return Some(&self.modules[i]);
            }
            i = i + 1;
        }
        None
    }

    /// The module held by the file at `path`.
    pub fn module_for_path(&self, path: &String) -> (r: Option<&Module>)
        ensures
            r is Some <==> module_at(*self, path@) is Some,
            r matches Some(m) ==> module_at(*self, path@) == Some(*m),
    {
        let name = match module_name_for_path(&self.root_path, path) {
            Some(n) => n,
            None => return None,
        };
        self.module_named(&name)
    }

    /// Code actions for a selection in the file at `path`: the removal of
    /// unused imports, when one of them overlaps the selection.
    pub fn action(&mut self, path: &String, selection: Range) -> (r: Response<Option<Vec<CodeAction>>>)
        ensures
            drained(*old(self), *final(self)),
            r.warnings@ == old(self).warnings@,
            reported(r.compilation) == feedback(*old(self)),
            r.result matches Ok(a) && (a is Some <==> match module_at(*old(self), path@) {
                Some(m) => offers_removal(code_bytes(m), LineIndex::starts_of(code_bytes(m)), m.ast.unused_imports@, selection),
                None => false,
            }),
            r.result matches Ok(Some(v)) ==> v@.len() == 1 && match module_at(*old(self), path@) {
                Some(m) => is_removal_action(v@[0], code_bytes(m), m.ast.unused_imports@),
                None => false,
            },
    {
        let actions = match self.module_for_path(path) {
            None => None,
            Some(module) => match code_action_unused_imports(module.code.as_str(), &module.ast.unused_imports, selection) {
                Some(a) => {
                    let mut v: Vec<CodeAction> = Vec::new();
                    v.push(a);
                    Some(v)
                },
                None => None,
            },
        };
        self.respond(Ok(actions))
    }

    /// The node under the cursor in `module`, with the module's line index.
    fn module_node_at_position<'a>(module: &'a Module, line: usize, character: usize) -> (r: (LineIndex, Option<&'a Node>))
        ensures
            r.0.bytes@ == code_bytes(*module),
            r.0.wf(),
            r.1 is Some <==> node_at(*module, line, character) is Some,
            r.1 matches Some(n) ==> node_at(*module, line, character) == Some(*n),
    {
        let line_numbers = LineIndex::new(module.code.as_str());
        let byte_index = line_numbers.byte_index(line, character);
        let node = find_node(&module.ast.definitions, byte_index);
        (line_numbers, node)
    }

    fn definition(&self, path: &String, line: usize, character: usize) -> (r: Option<Location>)
        ensures
            r is Some <==> definition_at(*self, path@, line, character) is Some,
            r matches Some(l) ==> definition_at(*self, path@, line, character) == Some((l.path@, l.range)),
    {
        let module = match self.module_for_path(path) {
            Some(m) => m,
            None => return None,
        };
        let (line_numbers, node) = Self::module_node_at_position(module, line, character);
        let node = match node {
            Some(n) => n,
            None => return None,
        };
        let location = match &node.definition {
            Some(d) => d,
            None => return None,
        };
        match &location.module {
            None => Some(Location { path: path.clone(), range: line_numbers.range(location.span.start, location.span.end) }),
            Some(name) => match self.module_named(name) {
                Some(target) => {
                    let target_lines = LineIndex::new(target.code.as_str());
                    Some(Location {
                        path: target.path.clone(),
                        range: target_lines.range(location.span.start, location.span.end),
                    })
                },
                None => None,
            },
        }
    }

    /// Where the definition of what is under the cursor lives; nothing where
    /// no node is there, it has no known definition, or the module holding
    /// the definition is not loaded.
    pub fn goto_definition(&mut self, path: &String, line: usize, character: usize) -> (r: Response<Option<Location>>)
        ensures
            drained(*old(self), *final(self)),
            r.warnings@ == old(self).warnings@,
            reported(r.compilation) == feedback(*old(self)),
            r.result is Ok,
            r.result matches Ok(o) && (o is Some <==> definition_at(*old(self), path@, line, character) is Some),
            r.result matches Ok(Some(l)) ==> definition_at(*old(self), path@, line, character) == Some((l.path@, l.range)),
    {
        let location = self.definition(path, line, character);
        self.respond(Ok(location))
    }

    fn hover_for_node(&self, module: &Module, line_numbers: &LineIndex, node: &Node) -> (r: Option<Hover>)
        requires
            line_numbers.bytes@ == code_bytes(*module),
        ensures
            r is Some <==> hover_of(*self, *module, *node) is Some,
            r matches Some(h) ==> hover_of(*self, *module, *node) == Some((h.contents@, h.range)),
    {
        let range = line_numbers.range(node.span.start, node.span.end);
        proof {
            reveal_strlit("");
        }
        match &node.kind {
            NodeKind::Statement => None,
            NodeKind::ModuleStatement(DefinitionKind::Function) => Some(Hover { contents: render_hover(&node.type_text, &node.documentation, ""), range }),
            NodeKind::ModuleStatement(DefinitionKind::ModuleConstant) => Some(Hover { contents: render_hover(&node.type_text, &node.documentation, ""), range }),
            NodeKind::ModuleStatement(_) => None,
            NodeKind::UnqualifiedImport { name, module: module_name, is_type } => {
                let iface = match get_module_interface(&self.interfaces, module_name) {
                    Some(i) => i,
                    None => return None,
                };
                if *is_type {
                    match find_type(iface, name) {
                        Some(t) => Some(Hover { contents: render_hover(&t.type_text, &t.documentation, ""), range }),
                        None => None,
                    }
                } else {
                    match find_value(iface, name) {
                        Some(v) => {
                            let link = if contains_string(&self.hex_deps, &iface.package) {
                                format_hexdocs_link_section(iface.package.as_str(), iface.name.as_str(), name.as_str())
                            } else {
                                String::new()
                            };
                            Some(Hover { contents: render_hover(&v.type_text, &v.documentation, link.as_str()), range })
                        },
                        None => None,
                    }
                }
            },
            NodeKind::Pattern => Some(Hover { contents: render_hover(&node.type_text, &node.documentation, ""), range }),
            NodeKind::Expression(expression) => {
                let link = match get_expr_qualified_name(expression) {
                    Some((module_name, name)) => match get_hexdocs_link_section(module_name, name, &module.ast.imports, &self.hex_deps) {
                        Some(l) => l,
                        None => String::new(),
                    },
                    None => String::new(),
                };
                Some(Hover { contents: render_hover(&node.type_text, &node.documentation, link.as_str()), range })
            },
            NodeKind::Arg => Some(Hover { contents: render_signature(&node.type_text), range }),
            NodeKind::FunctionBody => None,
            NodeKind::Annotation => Some(Hover { contents: render_hover(&node.type_text, &node.documentation, ""), range }),
        }
    }

    /// What to show when hovering at the cursor in the file at `path`.
    pub fn hover(&mut self, path: &String, line: usize, character: usize) -> (r: Response<Option<Hover>>)
        ensures
            drained(*old(self), *final(self)),
            r.warnings@ == old(self).warnings@,
            reported(r.compilation) == feedback(*old(self)),
            r.result is Ok,
            r.result matches Ok(o) && (o is Some <==> hover_at(*old(self), path@, line, character) is Some),
            r.result matches Ok(Some(h)) ==> hover_at(*old(self), path@, line, character) == Some((h.contents@, h.range)),
    {
        let found = match self.module_for_path(path) {
            Some(module) => {
                let (line_numbers, node) = Self::module_node_at_position(module, line, character);
                match node {
                    Some(n) => self.hover_for_node(module, &line_numbers, n),
                    None => None,
                }
            },
            None => None,
        };
        self.respond(Ok(found))
    }

    fn completions(&self, path: &String, line: usize, character: usize, src: &str) -> (r: Option<Vec<CompletionItem>>)
        ensures
            r is Some <==> completion_at(*self, path@, line, character, src.spec_bytes()) is Some,
            r matches Some(v) ==> completion_at(*self, path@, line, character, src.spec_bytes()) == Some(items_view(v@)),
    {
        let module = match self.module_for_path(path) {
            Some(m) => m,
            None => return None,
        };
        let root = &self.root_package;
        let ifs = &self.interfaces;
        match import_completions(src, line, character, module, ifs, root, &self.dependencies, &self.dev_dependencies) {
            Some(v) => return Some(v),
            None => {},
        }
        let (_line_numbers, found) = Self::module_node_at_position(module, line, character);
        let found = match found {
            Some(n) => n,
            None => return None,
        };
        match &found.kind {
            NodeKind::Pattern => None,
            NodeKind::Statement => Some(completion_values(ifs, root, module)),
            NodeKind::Expression(_) => Some(completion_values(ifs, root, module)),
            NodeKind::FunctionBody => Some(completion_values(ifs, root, module)),
            NodeKind::ModuleStatement(DefinitionKind::Function) => Some(completion_types(ifs, root, module)),
            NodeKind::ModuleStatement(DefinitionKind::TypeAlias) => Some(completion_types(ifs, root, module)),
            NodeKind::ModuleStatement(DefinitionKind::CustomType) => Some(completion_types(ifs, root, module)),
            NodeKind::ModuleStatement(DefinitionKind::Import { module: imported }) => match get_module_interface(ifs, imported) {
                Some(importing_module) => Some(unqualified_completions_from_module(importing_module, module, true, root)),
                None => None,
            },
            NodeKind::ModuleStatement(DefinitionKind::ModuleConstant) => None,
            NodeKind::UnqualifiedImport { .. } => None,
            NodeKind::Arg => None,
            NodeKind::Annotation => Some(completion_types(ifs, root, module)),
        }
    }

    /// Completion candidates at the cursor in the file at `path`, where `src`
    /// is the file's text as the editor currently holds it.
    pub fn completion(&mut self, path: &String, line: usize, character: usize, src: &str) -> (r: Response<Option<Vec<CompletionItem>>>)
        ensures
            drained(*old(self), *final(self)),
            r.warnings@ == old(self).warnings@,
            reported(r.compilation) == feedback(*old(self)),
            r.result is Ok,
            r.result matches Ok(o) && (o is Some <==> completion_at(*old(self), path@, line, character, src.spec_bytes()) is Some),
            r.result matches Ok(Some(v)) ==> completion_at(*old(self), path@, line, character, src.spec_bytes()) == Some(items_view(v@)),
    {
        let items = self.completions(path, line, character, src);
        self.respond(Ok(items))
    }
}

} // verus!
