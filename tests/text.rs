use lsp_engine::ast::{DefinitionKind, ExprRef, Node, NodeKind, Span};
use lsp_engine::code_action::{code_action_unused_imports, delete_line, overlaps, CodeActionKind};
use lsp_engine::line_index::{LineIndex, Position, Range};
use lsp_engine::locator::{find_in_node, find_node};
use lsp_engine::run::{erl_arguments, module_to_run, Which};
use lsp_engine::visibility::{is_suggestable, Publicity};

fn node(start: usize, end: usize, kind: NodeKind, children: Vec<Node>) -> Node {
    Node {
        span: Span { start, end },
        kind,
        type_text: String::new(),
        documentation: None,
        definition: None,
        children,
    }
}

fn pos(line: usize, character: usize) -> Position {
    Position { line, character }
}

fn range(a: (usize, usize), b: (usize, usize)) -> Range {
    Range { start: pos(a.0, a.1), end: pos(b.0, b.1) }
}

#[test]
fn visibility_table() {
    let root = "app".to_string();
    let other = "lib".to_string();
    assert!(!is_suggestable(Publicity::Private, &root, &root));
    assert!(!is_suggestable(Publicity::Private, &other, &root));
    assert!(is_suggestable(Publicity::Internal, &root, &root));
    assert!(!is_suggestable(Publicity::Internal, &other, &root));
    assert!(is_suggestable(Publicity::Public, &root, &root));
    assert!(is_suggestable(Publicity::Public, &other, &root));
}

#[test]
fn line_index_positions() {
    let li = LineIndex::new("ab\ncd\n");
    assert_eq!(li.line_starts, vec![0, 3, 6]);
    assert_eq!(li.position(0), pos(0, 0));
    assert_eq!(li.position(4), pos(1, 1));
    assert_eq!(li.position(6), pos(2, 0));
    assert_eq!(li.position(100), pos(2, 0));
    assert_eq!(li.byte_index(1, 1), 4);
    assert_eq!(li.byte_index(1, 9), 5);
    assert_eq!(li.byte_index(7, 0), 6);
}

#[test]
fn line_index_counts_utf16_units() {
    // 'é' is two bytes and one unit; the crab is four bytes and two units.
    let src = "é\u{1F980}x";
    let li = LineIndex::new(src);
    assert_eq!(li.position(2), pos(0, 1));
    assert_eq!(li.position(6), pos(0, 3));
    assert_eq!(li.position(7), pos(0, 4));
    assert_eq!(li.byte_index(0, 1), 2);
    assert_eq!(li.byte_index(0, 3), 6);
    assert_eq!(li.byte_index(0, 4), 7);
}

#[test]
fn locator_prefers_following_token() {
    let a = node(0, 3, NodeKind::Expression(ExprRef::Other), vec![]);
    let b = node(3, 5, NodeKind::Pattern, vec![]);
    let defs = vec![node(0, 5, NodeKind::ModuleStatement(DefinitionKind::Function), vec![a, b])];
    let found = find_node(&defs, 3).expect("a node");
    assert_eq!(found.span, Span { start: 3, end: 5 });
    assert!(matches!(found.kind, NodeKind::Pattern));
    let found = find_node(&defs, 1).expect("a node");
    assert_eq!(found.span, Span { start: 0, end: 3 });
}

#[test]
fn locator_finds_deepest_containing_node() {
    let leaf = node(2, 4, NodeKind::Arg, vec![]);
    let mid = node(1, 6, NodeKind::Statement, vec![leaf]);
    let root = node(0, 10, NodeKind::FunctionBody, vec![mid]);
    let found = find_in_node(&root, 3).expect("a node");
    assert!(matches!(found.kind, NodeKind::Arg));
    let found = find_in_node(&root, 5).expect("a node");
    assert!(matches!(found.kind, NodeKind::Statement));
    let found = find_in_node(&root, 8).expect("a node");
    assert!(matches!(found.kind, NodeKind::FunctionBody));
    assert!(find_in_node(&root, 10).is_none());
    assert!(find_node(&vec![root], 12).is_none());
}

#[test]
fn locator_boundary_between_nested_tokens() {
    let a = node(4, 7, NodeKind::Expression(ExprRef::Other), vec![]);
    let inner = node(7, 9, NodeKind::Pattern, vec![]);
    let b = node(7, 12, NodeKind::Statement, vec![inner]);
    let body = node(2, 14, NodeKind::FunctionBody, vec![a, b]);
    let defs = vec![node(0, 20, NodeKind::ModuleStatement(DefinitionKind::Function), vec![body])];
    let found = find_node(&defs, 7).expect("a node");
    assert_eq!(found.span, Span { start: 7, end: 9 });
    assert!(matches!(found.kind, NodeKind::Pattern));
}

#[test]
fn locator_empty_span_holds_its_offset() {
    let empty = node(4, 4, NodeKind::Annotation, vec![]);
    let defs = vec![node(0, 4, NodeKind::Statement, vec![]), empty];
    let found = find_node(&defs, 4).expect("a node");
    assert!(matches!(found.kind, NodeKind::Annotation));
}

#[test]
fn overlapping_ranges() {
    assert!(overlaps(range((0, 0), (1, 0)), range((0, 5), (0, 6))));
    assert!(overlaps(range((0, 5), (0, 6)), range((0, 0), (1, 0))));
    assert!(overlaps(range((0, 0), (1, 0)), range((1, 0), (1, 3))));
    assert!(!overlaps(range((0, 0), (1, 0)), range((1, 1), (1, 3))));
    assert!(!overlaps(range((2, 0), (2, 1)), range((0, 0), (1, 0))));
}

#[test]
fn delete_line_needs_whole_line() {
    let li = LineIndex::new("import foo\nimport bar as b\n");
    assert!(delete_line(&Span { start: 0, end: 10 }, &li));
    assert!(!delete_line(&Span { start: 0, end: 9 }, &li));
    assert!(!delete_line(&Span { start: 21, end: 26 }, &li));
    assert!(!delete_line(&Span { start: 1, end: 10 }, &li));
}

#[test]
fn unused_imports_removed_with_their_lines() {
    let src = "import foo\nimport bar\nfn main() {}\n";
    let unused = vec![Span { start: 11, end: 21 }, Span { start: 0, end: 10 }];
    let action = code_action_unused_imports(src, &unused, range((0, 2), (0, 3))).expect("an action");
    assert_eq!(action.title, "Remove unused imports");
    assert_eq!(action.kind, CodeActionKind::QuickFix);
    assert!(action.is_preferred);
    assert_eq!(action.edits.len(), 2);
    assert_eq!(action.edits[0].range, range((0, 0), (1, 0)));
    assert_eq!(action.edits[0].new_text, "");
    assert_eq!(action.edits[1].range, range((1, 0), (2, 0)));
    assert_eq!(action.edits[1].new_text, "");
}

#[test]
fn unused_imports_first_line_only() {
    let src = "import foo\nimport bar\nfn main() {}\n";
    let unused = vec![Span { start: 0, end: 10 }];
    let action = code_action_unused_imports(src, &unused, range((0, 0), (0, 1))).expect("an action");
    assert_eq!(action.edits.len(), 1);
    assert_eq!(action.edits[0].range, range((0, 0), (1, 0)));
}

#[test]
fn unused_imports_not_under_selection() {
    let src = "import foo\nimport bar\nfn main() {}\n";
    let unused = vec![Span { start: 0, end: 10 }, Span { start: 11, end: 21 }];
    assert!(code_action_unused_imports(src, &unused, range((2, 3), (2, 5))).is_none());
    assert!(code_action_unused_imports(src, &vec![], range((0, 0), (0, 2))).is_none());
}

#[test]
fn unused_alias_keeps_line() {
    let src = "import foo.{a, b}\n";
    let unused = vec![Span { start: 15, end: 16 }];
    let action = code_action_unused_imports(src, &unused, range((0, 15), (0, 16))).expect("an action");
    assert_eq!(action.edits[0].range, range((0, 15), (0, 16)));
}

#[test]
fn run_module_names() {
    let name = "app".to_string();
    assert_eq!(module_to_run(Which::Src, &name), "app");
    assert_eq!(module_to_run(Which::Test, &name), "app_test");
}

#[test]
fn erl_command_arguments() {
    let args = erl_arguments(&"app".to_string(), &vec!["build/a/ebin".to_string(), "build/b/ebin".to_string()]);
    assert_eq!(args.len(), 10);
    assert_eq!(&args[..6], &["+pc", "unicode", "-pa", "build/a/ebin", "-pa", "build/b/ebin"]);
    assert_eq!(args[6], "-eval");
    assert!(args[7].starts_with("\ntry\n    app:main(),\n    erlang:halt(0)\n"));
    assert!(args[7].ends_with("erlang:halt(127, [{flush, true}])\nend.\n"));
    assert_eq!(&args[8..], &["-noshell", "-extra"]);
}
