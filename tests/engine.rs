use lsp_engine::ast::{
    DefinitionKind, DefinitionLocation, ExprRef, Import, Module, ModuleAst, ModuleInterface, Node, NodeKind, Origin,
    Span, TypeEntry, Unqualified, ValueEntry, ValueVariant,
};
use lsp_engine::completion::{completion_types, completion_values};
use lsp_engine::engine::{module_name_for_path, Compilation, LanguageServerEngine, ManifestPackage, PackageSource, Snapshot};
use lsp_engine::hover::{format_hexdocs_link_section, get_expr_qualified_name, get_hexdocs_link_section};
use lsp_engine::import_completion::{complete_modules_for_import, import_completions, unqualified_completions_from_module};
use lsp_engine::items::{CompletionItem, CompletionKind};
use lsp_engine::line_index::{Position, Range};
use lsp_engine::visibility::Publicity;

fn s(x: &str) -> String {
    x.to_string()
}

fn value(name: &str, publicity: Publicity, variant: ValueVariant, type_text: &str, doc: Option<&str>) -> ValueEntry {
    ValueEntry { name: s(name), publicity, variant, type_text: s(type_text), documentation: doc.map(s) }
}

fn type_entry(name: &str, publicity: Publicity) -> TypeEntry {
    TypeEntry { name: s(name), publicity, is_variable: false, type_text: s(name), documentation: None }
}

fn interface(name: &str, package: &str, origin: Origin, is_internal: bool) -> ModuleInterface {
    ModuleInterface { name: s(name), package: s(package), origin, is_internal, types: vec![], values: vec![] }
}

fn list_interface() -> ModuleInterface {
    let mut i = interface("gleam/list", "gleam_stdlib", Origin::Src, false);
    let mut continuation = type_entry("Continuation", Publicity::Public);
    continuation.type_text = s("Continuation(a)");
    continuation.documentation = Some(s("A lazy step."));
    i.types = vec![continuation, type_entry("Hidden", Publicity::Private)];
    i.values = vec![
        value("map", Publicity::Public, ValueVariant::ModuleFn { module: s("gleam/list") }, "fn(List(a), fn(a) -> b) -> List(b)", Some("Maps a list.")),
        value("secret", Publicity::Private, ValueVariant::ModuleFn { module: s("gleam/list") }, "fn() -> Nil", None),
        value("filter", Publicity::Public, ValueVariant::ModuleFn { module: s("gleam/list") }, "fn(List(a), fn(a) -> Bool) -> List(a)", None),
    ];
    i
}

fn import(module: &str, package: &str, used: Option<&str>, types: Vec<&str>, values: Vec<&str>) -> Import {
    Import {
        module: s(module),
        package: s(package),
        used_name: used.map(s),
        unqualified_types: types.into_iter().map(|n| Unqualified { name: s(n), as_name: None }).collect(),
        unqualified_values: values.into_iter().map(|n| Unqualified { name: s(n), as_name: None }).collect(),
    }
}

fn node(start: usize, end: usize, kind: NodeKind, type_text: &str, children: Vec<Node>) -> Node {
    Node { span: Span { start, end }, kind, type_text: s(type_text), documentation: None, definition: None, children }
}

const APP_CODE: &str = "import gleam/list\n\npub fn main() {\n  list.map\n}\n";

fn app_module(imports: Vec<Import>) -> Module {
    let select = node(
        37,
        45,
        NodeKind::Expression(ExprRef::ModuleSelect { module_name: s("gleam/list"), label: s("map") }),
        "fn(List(a), fn(a) -> b) -> List(b)",
        vec![],
    );
    let body = node(33, 47, NodeKind::FunctionBody, "", vec![select]);
    let mut main = node(19, 47, NodeKind::ModuleStatement(DefinitionKind::Function), "fn() -> Nil", vec![body]);
    main.documentation = Some(s("Runs the app."));
    let import_node = node(0, 17, NodeKind::ModuleStatement(DefinitionKind::Import { module: s("gleam/list") }), "", vec![]);
    Module {
        name: s("app"),
        path: s("/project/src/app.gleam"),
        code: s(APP_CODE),
        origin: Origin::Src,
        package: s("app"),
        is_internal: false,
        ast: ModuleAst {
            definitions: vec![import_node, main],
            imports,
            types: vec![],
            values: vec![value("main", Publicity::Public, ValueVariant::ModuleFn { module: s("app") }, "fn() -> Nil", None)],
            unused_imports: vec![],
        },
    }
}

fn engine(hex: bool) -> LanguageServerEngine {
    let source = if hex { PackageSource::Hex } else { PackageSource::Git };
    let packages = vec![ManifestPackage { name: s("gleam_stdlib"), source }, ManifestPackage { name: s("local_lib"), source: PackageSource::Local }];
    let mut e = LanguageServerEngine::new(s("/project"), s("app"), vec![s("gleam_stdlib")], vec![s("gleeunit")], &packages);
    let snapshot = Snapshot {
        modules: vec![app_module(vec![import("gleam/list", "gleam_stdlib", Some("list"), vec![], vec![])])],
        interfaces: vec![list_interface()],
        compiled: vec![s("/project/src/app.gleam")],
    };
    let _ = e.compile_please(Ok(snapshot), vec![]);
    e
}

fn labels(items: &[CompletionItem]) -> Vec<String> {
    items.iter().map(|i| i.label.clone()).collect()
}

#[test]
fn hexdocs_link_format() {
    assert_eq!(
        format_hexdocs_link_section("gleam_stdlib", "gleam/list", "map"),
        "\nView on [HexDocs](https://hexdocs.pm/gleam_stdlib/gleam/list.html#map)"
    );
}

#[test]
fn hexdocs_link_needs_registry_import() {
    let imports = vec![import("gleam/list", "gleam_stdlib", Some("list"), vec![], vec![])];
    let hex = vec![s("gleam_stdlib")];
    assert_eq!(
        get_hexdocs_link_section(&s("gleam/list"), &s("map"), &imports, &hex),
        Some(s("\nView on [HexDocs](https://hexdocs.pm/gleam_stdlib/gleam/list.html#map)"))
    );
    assert_eq!(get_hexdocs_link_section(&s("gleam/list"), &s("map"), &imports, &vec![]), None);
    assert_eq!(get_hexdocs_link_section(&s("gleam/dict"), &s("new"), &imports, &hex), None);
}

#[test]
fn qualified_names_of_expressions() {
    let var = ExprRef::Var { name: s("map"), publicity: Publicity::Public, variant: ValueVariant::ModuleFn { module: s("gleam/list") } };
    assert_eq!(get_expr_qualified_name(&var), Some((&s("gleam/list"), &s("map"))));
    let private = ExprRef::Var { name: s("x"), publicity: Publicity::Private, variant: ValueVariant::ModuleFn { module: s("a") } };
    assert_eq!(get_expr_qualified_name(&private), None);
    let local = ExprRef::Var { name: s("x"), publicity: Publicity::Public, variant: ValueVariant::LocalVariable };
    assert_eq!(get_expr_qualified_name(&local), None);
}

#[test]
fn module_names_from_paths() {
    let root = s("/project");
    assert_eq!(module_name_for_path(&root, &s("/project/src/app.gleam")), Some(s("app")));
    assert_eq!(module_name_for_path(&root, &s("/project/test/app/web_test.gleam")), Some(s("app/web_test")));
    assert_eq!(module_name_for_path(&root, &s("/project/app.gleam")), None);
    assert_eq!(module_name_for_path(&root, &s("/project/src/app.erl")), None);
    assert_eq!(module_name_for_path(&root, &s("/elsewhere/src/app.gleam")), None);
}

#[test]
fn hex_packages_noted_at_start() {
    let packages = vec![
        ManifestPackage { name: s("gleam_stdlib"), source: PackageSource::Hex },
        ManifestPackage { name: s("local_lib"), source: PackageSource::Local },
        ManifestPackage { name: s("gleeunit"), source: PackageSource::Hex },
    ];
    let e = LanguageServerEngine::new(s("/p"), s("app"), vec![], vec![], &packages);
    assert_eq!(e.hex_deps, vec![s("gleam_stdlib"), s("gleeunit")]);
}

#[test]
fn compilation_reported_once() {
    let mut e = LanguageServerEngine::new(s("/project"), s("app"), vec![], vec![], &vec![]);
    let snapshot = Snapshot { modules: vec![], interfaces: vec![], compiled: vec![s("src/app.gleam")] };
    let first = e.compile_please(Ok(snapshot), vec![s("unused variable")]);
    assert!(first.result.is_ok());
    assert_eq!(first.warnings, vec![s("unused variable")]);
    assert!(matches!(&first.compilation, Compilation::Yes(v) if *v == vec![s("src/app.gleam")]));
    let second = e.hover(&s("/project/src/missing.gleam"), 0, 0);
    assert!(matches!(second.compilation, Compilation::No));
    assert!(second.warnings.is_empty());
}

#[test]
fn respond_after_compilation_reports_nothing() {
    let mut e = LanguageServerEngine::new(s("/project"), s("app"), vec![], vec![], &vec![]);
    let snapshot = Snapshot { modules: vec![], interfaces: vec![], compiled: vec![s("src/a.gleam")] };
    let first = e.compile_please(Ok(snapshot), vec![]);
    assert!(matches!(first.compilation, Compilation::Yes(_)));
    let second = e.respond::<()>(Err(s("lookup failed")));
    assert_eq!(second.result, Err(s("lookup failed")));
    assert!(matches!(second.compilation, Compilation::No));
}

#[test]
fn failed_compilation_still_reported_once() {
    let mut e = LanguageServerEngine::new(s("/project"), s("app"), vec![], vec![], &vec![]);
    let first = e.compile_please(Err(s("syntax error")), vec![]);
    assert_eq!(first.result, Err(s("syntax error")));
    assert!(matches!(&first.compilation, Compilation::Yes(v) if v.is_empty()));
    let second = e.compile_please(Err(s("still broken")), vec![]);
    assert!(matches!(&second.compilation, Compilation::Yes(_)));
    let third = e.goto_definition(&s("/project/src/app.gleam"), 0, 0);
    assert!(matches!(third.compilation, Compilation::No));
}

#[test]
fn hover_on_registry_value_links_docs() {
    let mut e = engine(true);
    let r = e.hover(&s("/project/src/app.gleam"), 3, 4);
    assert!(matches!(r.compilation, Compilation::No));
    let h = r.result.unwrap().expect("a hover");
    assert_eq!(
        h.contents,
        "```gleam\nfn(List(a), fn(a) -> b) -> List(b)\n```\n\nView on [HexDocs](https://hexdocs.pm/gleam_stdlib/gleam/list.html#map)"
    );
    assert_eq!(h.range, Range { start: Position { line: 3, character: 2 }, end: Position { line: 3, character: 10 } });
}

#[test]
fn hover_without_registry_has_no_link() {
    let mut e = engine(false);
    let h = e.hover(&s("/project/src/app.gleam"), 3, 4).result.unwrap().expect("a hover");
    assert_eq!(h.contents, "```gleam\nfn(List(a), fn(a) -> b) -> List(b)\n```\n");
}

#[test]
fn hover_on_function_head_shows_docs() {
    let mut e = engine(true);
    let h = e.hover(&s("/project/src/app.gleam"), 2, 1).result.unwrap().expect("a hover");
    assert_eq!(h.contents, "```gleam\nfn() -> Nil\n```\nRuns the app.");
    assert_eq!(h.range, Range { start: Position { line: 2, character: 0 }, end: Position { line: 4, character: 1 } });
}

#[test]
fn hover_on_import_shows_nothing() {
    let mut e = engine(true);
    assert!(e.hover(&s("/project/src/app.gleam"), 0, 3).result.unwrap().is_none());
    assert!(e.hover(&s("/project/src/app.gleam"), 1, 0).result.unwrap().is_none());
}

#[test]
fn goto_definition_in_same_and_other_module() {
    let mut e = LanguageServerEngine::new(s("/project"), s("app"), vec![], vec![], &vec![]);
    let mut m = app_module(vec![]);
    m.ast.definitions[1].children[0].children[0].definition = Some(DefinitionLocation { module: Some(s("other")), span: Span { start: 4, end: 7 } });
    m.ast.definitions[0].definition = Some(DefinitionLocation { module: None, span: Span { start: 19, end: 47 } });
    let other = Module {
        name: s("other"),
        path: s("/project/src/other.gleam"),
        code: s("\n\npub fn map() {}\n"),
        origin: Origin::Src,
        package: s("app"),
        is_internal: false,
        ast: ModuleAst { definitions: vec![], imports: vec![], types: vec![], values: vec![], unused_imports: vec![] },
    };
    let _ = e.compile_please(Ok(Snapshot { modules: vec![m, other], interfaces: vec![], compiled: vec![] }), vec![]);
    let here = e.goto_definition(&s("/project/src/app.gleam"), 0, 2).result.unwrap().expect("a location");
    assert_eq!(here.path, "/project/src/app.gleam");
    assert_eq!(here.range, Range { start: Position { line: 2, character: 0 }, end: Position { line: 4, character: 1 } });
    let there = e.goto_definition(&s("/project/src/app.gleam"), 3, 4).result.unwrap().expect("a location");
    assert_eq!(there.path, "/project/src/other.gleam");
    assert_eq!(there.range, Range { start: Position { line: 2, character: 2 }, end: Position { line: 2, character: 5 } });
    assert!(e.goto_definition(&s("/project/src/app.gleam"), 2, 1).result.unwrap().is_none());
}

#[test]
fn value_completion_in_expression() {
    let mut e = engine(true);
    let items = e.completion(&s("/project/src/app.gleam"), 3, 4, APP_CODE).result.unwrap().expect("items");
    assert_eq!(labels(&items), vec![s("main"), s("list.map"), s("list.filter")]);
    assert_eq!(items[1].kind, Some(CompletionKind::Function));
    assert_eq!(items[1].detail, Some(s("fn(List(a), fn(a) -> b) -> List(b)")));
    assert_eq!(items[1].documentation, Some(s("Maps a list.")));
}

#[test]
fn type_completion_in_function_head() {
    let mut e = engine(true);
    let items = e.completion(&s("/project/src/app.gleam"), 2, 1, APP_CODE).result.unwrap().expect("items");
    let l = labels(&items);
    assert_eq!(&l[..9], &["BitArray", "Bool", "Float", "Int", "List", "Nil", "Result", "String", "UtfCodepoint"]);
    assert_eq!(&l[9..], &["list.Continuation"]);
    assert_eq!(items[0].detail, Some(s("BitArray")));
    assert_eq!(items[4].detail, Some(s("List(a)")));
    assert_eq!(items[6].detail, Some(s("Result(a, b)")));
    assert_eq!(items[9].detail, Some(s("Continuation(a)")));
    assert_eq!(items[9].documentation, Some(s("A lazy step.")));
    assert_eq!(items[9].kind, Some(CompletionKind::Class));
}

#[test]
fn completion_for_unknown_module_is_empty() {
    let mut e = engine(true);
    let r = e.completion(&s("/project/src/nothing.gleam"), 0, 0, "");
    assert!(r.result.unwrap().is_none());
}

#[test]
fn import_line_offers_unqualified_names() {
    let mut e = engine(true);
    let src = "import gleam/list.{\n";
    let items = e.completion(&s("/project/src/app.gleam"), 0, 19, src).result.unwrap().expect("items");
    assert_eq!(labels(&items), vec![s("Continuation"), s("map"), s("filter")]);
    assert_eq!(items[0].insert_text, Some(s("type Continuation")));
    assert_eq!(items[1].insert_text, None);
}

#[test]
fn import_line_with_unicode_spaces() {
    let mut e = engine(true);
    let src = "\u{000B}import\u{00A0}gleam/list\u{3000}.{\n";
    let items = e.completion(&s("/project/src/app.gleam"), 0, 22, src).result.unwrap().expect("items");
    assert_eq!(labels(&items), vec![s("Continuation"), s("map"), s("filter")]);
}

#[test]
fn import_line_after_type_keyword() {
    let mut e = engine(true);
    let src = "import gleam/list.{type \n";
    let items = e.completion(&s("/project/src/app.gleam"), 0, 24, src).result.unwrap().expect("items");
    assert_eq!(items[0].label, "Continuation");
    assert_eq!(items[0].insert_text, None);
}

#[test]
fn import_line_offers_modules() {
    let mut e = engine(true);
    let src = "import gle\n";
    let items = e.completion(&s("/project/src/app.gleam"), 0, 10, src).result.unwrap().expect("items");
    // gleam/list is imported already by the compiled module.
    assert!(items.is_empty());
}

#[test]
fn whole_module_completion_filters() {
    let current = app_module(vec![import("gleam/list", "gleam_stdlib", Some("list"), vec![], vec![])]);
    let ifs = vec![
        interface("gleam/list", "gleam_stdlib", Origin::Src, false),
        interface("gleam/dict", "gleam_stdlib", Origin::Src, false),
        interface("app", "app", Origin::Src, false),
        interface("app/helper", "app", Origin::Src, true),
        interface("app_test", "app", Origin::Test, false),
        interface("gleeunit", "gleeunit", Origin::Src, false),
        interface("transitive", "deep", Origin::Src, false),
        interface("gleam_stdlib/internal", "gleam_stdlib", Origin::Src, true),
        interface("gleam", "", Origin::Src, false),
    ];
    let start = Position { line: 0, character: 7 };
    let end = Position { line: 0, character: 10 };
    let deps = vec![s("gleam_stdlib")];
    let dev = vec![s("gleeunit")];
    let items = complete_modules_for_import(&current, &ifs, &s("app"), &deps, &dev, start, end);
    assert_eq!(labels(&items), vec![s("gleam/dict"), s("app/helper"), s("gleam")]);
    let edit = items[0].text_edit.as_ref().expect("an edit");
    assert_eq!(edit.range, Range { start, end });
    assert_eq!(edit.new_text, "gleam/dict");
    assert_eq!(items[0].kind, Some(CompletionKind::Module));

    let mut test_module = app_module(vec![]);
    test_module.name = s("app/web_test");
    test_module.origin = Origin::Test;
    let items = complete_modules_for_import(&test_module, &ifs, &s("app"), &deps, &dev, start, end);
    assert_eq!(
        labels(&items),
        vec![s("gleam/list"), s("gleam/dict"), s("app"), s("app/helper"), s("app_test"), s("gleeunit"), s("gleam")]
    );
}

#[test]
fn import_line_range_covers_rest_of_line() {
    let mut current = app_module(vec![]);
    current.ast.imports = vec![];
    let ifs = vec![interface("gleam/dict", "gleam_stdlib", Origin::Src, false)];
    let items = import_completions("x\n  import gle\n", 1, 12, &current, &ifs, &s("app"), &vec![s("gleam_stdlib")], &vec![])
        .expect("the import path");
    let edit = items[0].text_edit.as_ref().expect("an edit");
    assert_eq!(edit.range, Range { start: Position { line: 1, character: 9 }, end: Position { line: 1, character: 12 } });
    assert!(import_completions("let x\n", 0, 3, &current, &ifs, &s("app"), &vec![], &vec![]).is_none());
}

#[test]
fn unqualified_completions_skip_imported_and_hidden() {
    let current = app_module(vec![import("gleam/list", "gleam_stdlib", Some("list"), vec!["Continuation"], vec!["map"])]);
    let iface = list_interface();
    let items = unqualified_completions_from_module(&iface, &current, false, &s("app"));
    assert_eq!(labels(&items), vec![s("filter")]);
}

#[test]
fn unqualified_completions_repeatable() {
    let current = app_module(vec![import("gleam/list", "gleam_stdlib", Some("list"), vec![], vec!["filter"])]);
    let iface = list_interface();
    let a = unqualified_completions_from_module(&iface, &current, true, &s("app"));
    let b = unqualified_completions_from_module(&iface, &current, true, &s("app"));
    assert_eq!(labels(&a), labels(&b));
    assert_eq!(labels(&a), vec![s("Continuation"), s("map")]);
    let ia: Vec<Option<String>> = a.iter().map(|i| i.insert_text.clone()).collect();
    let ib: Vec<Option<String>> = b.iter().map(|i| i.insert_text.clone()).collect();
    assert_eq!(ia, ib);
}

#[test]
fn internal_items_only_for_root_package() {
    let mut iface = interface("app/inner", "app", Origin::Src, false);
    iface.values = vec![value("helper", Publicity::Internal, ValueVariant::LocalConstant, "Int", None)];
    let current = app_module(vec![]);
    let items = unqualified_completions_from_module(&iface, &current, false, &s("app"));
    assert_eq!(labels(&items), vec![s("helper")]);
    assert_eq!(items[0].kind, Some(CompletionKind::Constant));
    let items = unqualified_completions_from_module(&iface, &current, false, &s("other"));
    assert!(items.is_empty());
}

#[test]
fn value_kinds_of_records() {
    let mut iface = interface("shapes", "app", Origin::Src, false);
    iface.values = vec![
        value("Circle", Publicity::Public, ValueVariant::Record { arity: 1 }, "fn(Int) -> Shape", None),
        value("Empty", Publicity::Public, ValueVariant::Record { arity: 0 }, "Shape", None),
    ];
    let items = unqualified_completions_from_module(&iface, &app_module(vec![]), false, &s("app"));
    assert_eq!(items[0].kind, Some(CompletionKind::Constructor));
    assert_eq!(items[1].kind, Some(CompletionKind::EnumMember));
}

#[test]
fn unqualified_imports_completed_by_used_name() {
    let mut imp = import("gleam/list", "gleam_stdlib", None, vec!["Continuation"], vec!["map"]);
    imp.unqualified_values[0].as_name = Some(s("each"));
    let current = app_module(vec![imp]);
    let ifs = vec![list_interface()];
    let values = completion_values(&ifs, &s("app"), &current);
    assert_eq!(labels(&values), vec![s("main"), s("each")]);
    let types = completion_types(&ifs, &s("app"), &current);
    assert_eq!(labels(&types)[9..].to_vec(), vec![s("Continuation")]);
}
