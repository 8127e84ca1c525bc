use vstd::prelude::*;
use crate::ast::{Import, Module, ModuleInterface, Origin, TypeEntry, Unqualified, ValueEntry};
use crate::code_action::TextEdit;
use crate::items::{
    items_view, type_completion, type_item, value_completion, value_item, CompletionItem,
    CompletionKind, ItemView,
};
use crate::line_index::{offset_of, position_of, LineIndex, Position, Range};
use vstd::string::StringSliceAdditionalSpecFns;
use vstd::utf8::encode_utf8;
use crate::search::{first_index, lemma_first_index};
use crate::visibility::{is_suggestable, suggestable};

verus! {

pub open spec fn unqualified_of(imp: Import, as_type: bool) -> Seq<Unqualified> {
    if as_type {
        imp.unqualified_types@
    } else {
        imp.unqualified_values@
    }
}

/// `name` is already imported unqualified, as a type or as a value, by an
/// import of `module_name`.
pub open spec fn already_imported(imps: Seq<Import>, module_name: Seq<char>, name: Seq<char>, as_type: bool) -> bool {
    exists|i: int, j: int|
        0 <= i < imps.len() && imps[i].module@ == module_name && 0 <= j < unqualified_of(imps[i], as_type).len()
            && (#[trigger] unqualified_of(imps[i], as_type)[j]).name@ == name
}

fn is_already_imported(imps: &Vec<Import>, module_name: &String, name: &String, as_type: bool) -> (r: bool)
    ensures
        r == already_imported(imps@, module_name@, name@, as_type),
{
    let mut i: usize = 0;
    while i < imps.len()
        invariant
            i <= imps@.len(),
            forall|a: int, j: int|
                0 <= a < i && imps@[a].module@ == module_name@ && 0 <= j < unqualified_of(imps@[a], as_type).len()
                    ==> (#[trigger] unqualified_of(imps@[a], as_type)[j]).name@ != name@,
        decreases imps@.len() - i,
    {
        let imp = &imps[i];
        if imp.module == *module_name {
            let us = if as_type { &imp.unqualified_types } else { &imp.unqualified_values };
            let mut j: usize = 0;
            while j < us.len()
                invariant
                    j <= us@.len(),
                    i < imps@.len(),
                    imps@[i as int].module@ == module_name@,
                    us@ == unqualified_of(imps@[i as int], as_type),
                    forall|k: int| 0 <= k < j ==> us@[k].name@ != name@,
                decreases us@.len() - j,
            {
                if us[j].name == *name {
                    assert(unqualified_of(imps@[i as int], as_type)[j as int].name@ == name@);
                    return true;
                }
                j = j + 1;
            }
        }
        i = i + 1;
    }
    false
}

/// A type completion that writes the `type` keyword before the name.
pub open spec fn with_type_keyword(item: ItemView, keyword: bool) -> ItemView {
    if keyword {
        ItemView {
            label: item.label,
            kind: item.kind,
            detail: item.detail,
            documentation: item.documentation,
            insert_text: Some("type "@ + item.label),
            edit: item.edit,
        }
    } else {
        item
    }
}

/// Types of `iface` that can still be imported unqualified.
pub open spec fn offered_types(ts: Seq<TypeEntry>, iface: ModuleInterface, imps: Seq<Import>, root: Seq<char>, keyword: bool) -> Seq<ItemView>
    decreases ts.len(),
{
    if ts.len() == 0 {
        seq![]
    } else {
        let rest = offered_types(ts.drop_last(), iface, imps, root, keyword);
        let t = ts.last();
        if suggestable(t.publicity, iface.package@, root) && !already_imported(imps, iface.name@, t.name@, true) {
            rest.push(with_type_keyword(type_item(None, t.name@, t), keyword))
        } else {
            rest
        }
    }
}

/// Values of `iface` that can still be imported unqualified.
pub open spec fn offered_values(vs: Seq<ValueEntry>, iface: ModuleInterface, imps: Seq<Import>, root: Seq<char>) -> Seq<ItemView>
    decreases vs.len(),
{
    if vs.len() == 0 {
        seq![]
    } else {
        let rest = offered_values(vs.drop_last(), iface, imps, root);
        let v = vs.last();
        if suggestable(v.publicity, iface.package@, root) && !already_imported(imps, iface.name@, v.name@, false) {
            rest.push(value_item(None, v.name@, v))
        } else {
            rest
        }
    }
}

/// What may be imported unqualified from `iface` into a module with imports `imps`.
pub open spec fn unqualified_offers(iface: ModuleInterface, imps: Seq<Import>, root: Seq<char>, keyword: bool) -> Seq<ItemView> {
    offered_types(iface.types@, iface, imps, root, keyword) + offered_values(iface.values@, iface, imps, root)
}

/// Completions for the unqualified part of an import of `importing_module`:
/// its suggestable types and values that `module` does not import yet, types
/// first; with `include_type_in_completion` a type is written with the
/// `type` keyword before it.
pub fn unqualified_completions_from_module(
    importing_module: &ModuleInterface,
    module: &Module,
    include_type_in_completion: bool,
    root: &String,
) -> (r: Vec<CompletionItem>)
    ensures
        items_view(r@) == unqualified_offers(*importing_module, module.ast.imports@, root@, include_type_in_completion),
{
    let imps = &module.ast.imports;
    let ts = &importing_module.types;
    let mut out: Vec<CompletionItem> = Vec::new();
    let mut i: usize = 0;
    assert(items_view(out@) =~= offered_types(ts@.subrange(0, 0), *importing_module, imps@, root@, include_type_in_completion));
    while i < ts.len()
        invariant
            i <= ts@.len(),
            ts == &importing_module.types,
            items_view(out@) == offered_types(ts@.subrange(0, i as int), *importing_module, imps@, root@, include_type_in_completion),
        decreases ts@.len() - i,
    {
        let t = &ts[i];
        assert(ts@.subrange(0, i + 1).drop_last() =~= ts@.subrange(0, i as int));
        let ghost prev = out@;
        if is_suggestable(t.publicity, &importing_module.package, root)
            && !is_already_imported(imps, &importing_module.name, &t.name, true) {
            let completion = type_completion(None, &t.name, t);
            if include_type_in_completion {
                let mut text = String::from_str("type ");
                text.append(completion.label.as_str());
                proof {
                    reveal_strlit("type ");
                }
                out.push(CompletionItem {
                    label: completion.label,
                    kind: completion.kind,
                    detail: completion.detail,
                    documentation: completion.documentation,
                    insert_text: Some(text),
                    text_edit: completion.text_edit,
                });
            } else {
                out.push(completion);
            }
            assert(items_view(out@) =~= items_view(prev).push(out@.last()@));
        }
        i = i + 1;
    }
    assert(ts@.subrange(0, ts@.len() as int) =~= ts@);
    let vs = &importing_module.values;
    let ghost types_part = items_view(out@);
    let mut j: usize = 0;
    assert(items_view(out@) =~= types_part + offered_values(vs@.subrange(0, 0), *importing_module, imps@, root@));
    while j < vs.len()
        invariant
            j <= vs@.len(),
            vs == &importing_module.values,
            items_view(out@) == types_part + offered_values(vs@.subrange(0, j as int), *importing_module, imps@, root@),
        decreases vs@.len() - j,
    {
        let v = &vs[j];
        assert(vs@.subrange(0, j + 1).drop_last() =~= vs@.subrange(0, j as int));
        let ghost prev = out@;
        if is_suggestable(v.publicity, &importing_module.package, root)
            && !is_already_imported(imps, &importing_module.name, &v.name, false) {
            out.push(value_completion(None, &v.name, v));
            assert(items_view(out@) =~= items_view(prev).push(out@.last()@));
        }
        j = j + 1;
    }
    assert(vs@.subrange(0, vs@.len() as int) =~= vs@);
    out
}

/// Calling twice on the same snapshot and cursor gives the same candidates
/// in the same order.
pub proof fn lemma_unqualified_completions_repeatable(
    iface: ModuleInterface,
    module: Module,
    root: Seq<char>,
    keyword: bool,
    first: Seq<CompletionItem>,
    second: Seq<CompletionItem>,
)
    requires
        items_view(first) == unqualified_offers(iface, module.ast.imports@, root, keyword),
        items_view(second) == unqualified_offers(iface, module.ast.imports@, root, keyword),
    ensures
        items_view(first) == items_view(second),
{
}


/// Packages whose modules may be imported directly from `m`: the direct
/// dependencies, and the direct dev-dependencies for a test module.
pub open spec fn direct_dependency(package: Seq<char>, deps: Seq<String>, dev_deps: Seq<String>, origin: Origin) -> bool {
    (exists|i: int| 0 <= i < deps.len() && (#[trigger] deps[i])@ == package)
        || (origin != Origin::Src && exists|i: int| 0 <= i < dev_deps.len() && (#[trigger] dev_deps[i])@ == package)
}

/// `m` is offered when an import of a whole module is being written in `current`.
pub open spec fn offered_module(m: ModuleInterface, current: Module, root: Seq<char>, deps: Seq<String>, dev_deps: Seq<String>) -> bool {
    &&& (m.package@ == root || m.package@.len() == 0 || direct_dependency(m.package@, deps, dev_deps, current.origin))
    &&& (m.origin == Origin::Src || current.origin != Origin::Src)
    &&& (m.package@ == root || !m.is_internal)
    &&& !(exists|i: int| 0 <= i < current.ast.imports@.len() && (#[trigger] current.ast.imports@[i]).module@ == m.name@)
    &&& m.name@ != current.name@
}

pub open spec fn module_item(m: ModuleInterface, range: Range) -> ItemView {
    ItemView {
        label: m.name@,
        kind: Some(CompletionKind::Module),
        detail: None,
        documentation: None,
        insert_text: None,
        edit: Some((range, m.name@)),
    }
}

/// The modules offered for an import, in the order the compiler lists them.
pub open spec fn module_offers(ifs: Seq<ModuleInterface>, current: Module, root: Seq<char>, deps: Seq<String>, dev_deps: Seq<String>, range: Range) -> Seq<ItemView>
    decreases ifs.len(),
{
    if ifs.len() == 0 {
        seq![]
    } else {
        let rest = module_offers(ifs.drop_last(), current, root, deps, dev_deps, range);
        if offered_module(ifs.last(), current, root, deps, dev_deps) {
            rest.push(module_item(ifs.last(), range))
        } else {
            rest
        }
    }
}

fn contains_name(names: &Vec<String>, name: &String) -> (r: bool)
    ensures
        r == exists|i: int| 0 <= i < names@.len() && (#[trigger] names@[i])@ == name@,
{
    let mut i: usize = 0;
    while i < names.len()
        invariant
            i <= names@.len(),
            forall|k: int| 0 <= k < i ==> (#[trigger] names@[k])@ != name@,
        decreases names@.len() - i,
    {
        if names[i] == *name {
            return true;
        }
        i = i + 1;
    }
    false
}

fn imports_module(imps: &Vec<Import>, name: &String) -> (r: bool)
    ensures
        r == exists|i: int| 0 <= i < imps@.len() && (#[trigger] imps@[i]).module@ == name@,
{
    let mut i: usize = 0;
    while i < imps.len()
        invariant
            i <= imps@.len(),
            forall|k: int| 0 <= k < i ==> (#[trigger] imps@[k]).module@ != name@,
        decreases imps@.len() - i,
    {
        if imps[i].module == *name {
            return true;
        }
        i = i + 1;
    }
    false
}

fn is_offered_module(m: &ModuleInterface, current: &Module, root: &String, deps: &Vec<String>, dev_deps: &Vec<String>) -> (r: bool)
    ensures
        r == offered_module(*m, *current, root@, deps@, dev_deps@),
{
    let is_root = m.package == *root;
    let reachable = is_root || m.package.as_str().is_empty() || contains_name(deps, &m.package)
        || (current.origin != Origin::Src && contains_name(dev_deps, &m.package));
    reachable && (m.origin == Origin::Src || current.origin != Origin::Src) && (is_root || !m.is_internal)
        && !imports_module(&current.ast.imports, &m.name) && m.name != current.name
}

/// Whole-module completions for an import line: each importable module that
/// belongs to the root package, the prelude or a direct dependency, that a
/// source module may see, that is not internal to another package, not yet
/// imported and not the current module. Accepting one replaces `start..end`.
pub fn complete_modules_for_import(
    current_module: &Module,
    ifs: &Vec<ModuleInterface>,
    root: &String,
    deps: &Vec<String>,
    dev_deps: &Vec<String>,
    start: Position,
    end: Position,
) -> (r: Vec<CompletionItem>)
    ensures
        items_view(r@) == module_offers(ifs@, *current_module, root@, deps@, dev_deps@, Range { start, end }),
{
    let mut out: Vec<CompletionItem> = Vec::new();
    let mut i: usize = 0;
    assert(items_view(out@) =~= module_offers(ifs@.subrange(0, 0), *current_module, root@, deps@, dev_deps@, Range { start, end }));
    while i < ifs.len()
        invariant
            i <= ifs@.len(),
            items_view(out@) == module_offers(ifs@.subrange(0, i as int), *current_module, root@, deps@, dev_deps@, Range { start, end }),
        decreases ifs@.len() - i,
    {
        let m = &ifs[i];
        assert(ifs@.subrange(0, i + 1).drop_last() =~= ifs@.subrange(0, i as int));
        let ghost prev = out@;
        if is_offered_module(m, current_module, root, deps, dev_deps) {
            out.push(CompletionItem {
                label: m.name.clone(),
                kind: Some(CompletionKind::Module),
                detail: None,
                documentation: None,
                insert_text: None,
                text_edit: Some(TextEdit { range: Range { start, end }, new_text: m.name.clone() }),
            });
            assert(items_view(out@) =~= items_view(prev).push(out@.last()@));
        }
        i = i + 1;
    }
    assert(ifs@.subrange(0, ifs@.len() as int) =~= ifs@);
    out
}

/// None of the reasons to leave `m` out of whole-module completion holds:
/// it is not the current module, not already imported, not a test module
/// offered to a source module, not internal to another package, and its
/// package is the root, the prelude or a direct (dev-)dependency.
pub open spec fn meets_import_rules(m: ModuleInterface, current: Module, root: Seq<char>, deps: Seq<String>, dev_deps: Seq<String>) -> bool {
    &&& m.name@ != current.name@
    &&& forall|i: int| 0 <= i < current.ast.imports@.len() ==> (#[trigger] current.ast.imports@[i]).module@ != m.name@
    &&& !(current.origin == Origin::Src && m.origin == Origin::Test)
    &&& !(m.is_internal && m.package@ != root)
    &&& (m.package@ == root || m.package@.len() == 0 || direct_dependency(m.package@, deps, dev_deps, current.origin))
}

/// `item` offers a module that the compiler knows and that meets the import rules.
pub open spec fn offers_importable(ifs: Seq<ModuleInterface>, item: ItemView, current: Module, root: Seq<char>, deps: Seq<String>, dev_deps: Seq<String>, range: Range) -> bool {
    exists|k: int| 0 <= k < ifs.len() && meets_import_rules(#[trigger] ifs[k], current, root, deps, dev_deps)
        && item == module_item(ifs[k], range)
}

/// Every module offered for an import is one the compiler knows that meets
/// the import rules, and every such module is offered.
pub proof fn lemma_offered_modules_are_importable(
    ifs: Seq<ModuleInterface>,
    current: Module,
    root: Seq<char>,
    deps: Seq<String>,
    dev_deps: Seq<String>,
    range: Range,
)
    ensures
        forall|x: int| 0 <= x < module_offers(ifs, current, root, deps, dev_deps, range).len() ==>
            offers_importable(ifs, #[trigger] module_offers(ifs, current, root, deps, dev_deps, range)[x], current, root, deps, dev_deps, range),
        forall|k: int| 0 <= k < ifs.len() && meets_import_rules(#[trigger] ifs[k], current, root, deps, dev_deps)
            ==> module_offers(ifs, current, root, deps, dev_deps, range).contains(module_item(ifs[k], range)),
    decreases ifs.len(),
{
    if ifs.len() > 0 {
        let pre = ifs.drop_last();
        lemma_offered_modules_are_importable(pre, current, root, deps, dev_deps, range);
        let offers = module_offers(ifs, current, root, deps, dev_deps, range);
        let pre_offers = module_offers(pre, current, root, deps, dev_deps, range);
        assert forall|x: int| 0 <= x < offers.len() implies offers_importable(ifs, #[trigger] offers[x], current, root, deps, dev_deps, range) by {
            if x < pre_offers.len() {
                assert(offers_importable(pre, pre_offers[x], current, root, deps, dev_deps, range));
                let k = choose|k: int| 0 <= k < pre.len() && meets_import_rules(#[trigger] pre[k], current, root, deps, dev_deps)
                    && pre_offers[x] == module_item(pre[k], range);
                assert(ifs[k] == pre[k]);
            } else {
                assert(ifs[ifs.len() - 1] == ifs.last());
            }
        }
        assert forall|k: int| 0 <= k < ifs.len() && meets_import_rules(#[trigger] ifs[k], current, root, deps, dev_deps)
            implies offers.contains(module_item(ifs[k], range)) by {
            if k < pre.len() {
                assert(ifs[k] == pre[k]);
                let x = choose|x: int| 0 <= x < pre_offers.len() && pre_offers[x] == module_item(pre[k], range);
                assert(offers[x] == pre_offers[x]);
            } else {
                assert(offers[offers.len() - 1] == module_item(ifs[k], range));
            }
        }
    }
}

/// No two interfaces share a module name.
pub open spec fn distinct_interface_names(ifs: Seq<ModuleInterface>) -> bool {
    forall|i: int, j: int| 0 <= i < j < ifs.len() ==> (#[trigger] ifs[i]).name@ != (#[trigger] ifs[j]).name@
}

/// When the compiler knows each module under one name, whole-module
/// completion offers each name at most once.
pub proof fn lemma_offered_modules_distinct(
    ifs: Seq<ModuleInterface>,
    current: Module,
    root: Seq<char>,
    deps: Seq<String>,
    dev_deps: Seq<String>,
    range: Range,
)
    requires
        distinct_interface_names(ifs),
    ensures
        forall|x: int, y: int| 0 <= x < y < module_offers(ifs, current, root, deps, dev_deps, range).len()
            ==> (#[trigger] module_offers(ifs, current, root, deps, dev_deps, range)[x]).label
                != (#[trigger] module_offers(ifs, current, root, deps, dev_deps, range)[y]).label,
    decreases ifs.len(),
{
    if ifs.len() > 0 {
        let pre = ifs.drop_last();
        assert(distinct_interface_names(pre)) by {
            assert forall|i: int, j: int| 0 <= i < j < pre.len() implies (#[trigger] pre[i]).name@ != (#[trigger] pre[j]).name@ by {
                assert(pre[i] == ifs[i] && pre[j] == ifs[j]);
            }
        }
        lemma_offered_modules_distinct(pre, current, root, deps, dev_deps, range);
        lemma_offered_modules_are_importable(pre, current, root, deps, dev_deps, range);
        let offers = module_offers(ifs, current, root, deps, dev_deps, range);
        let pre_offers = module_offers(pre, current, root, deps, dev_deps, range);
        if offered_module(ifs.last(), current, root, deps, dev_deps) {
            assert forall|x: int, y: int| 0 <= x < y < offers.len() implies (#[trigger] offers[x]).label != (#[trigger] offers[y]).label by {
                if y == offers.len() - 1 {
                    assert(offers_importable(pre, pre_offers[x], current, root, deps, dev_deps, range));
                    let k = choose|k: int| 0 <= k < pre.len() && meets_import_rules(#[trigger] pre[k], current, root, deps, dev_deps)
                        && pre_offers[x] == module_item(pre[k], range);
                    assert(pre[k] == ifs[k]);
                    assert(ifs.last() == ifs[ifs.len() - 1]);
                } else {
                    assert(offers[x] == pre_offers[x] && offers[y] == pre_offers[y]);
                }
            }
        }
    }
}

/// A three-byte UTF-8 sequence that encodes a white-space character
/// (U+1680, U+2000 to U+200A, U+2028, U+2029, U+202F, U+205F, U+3000).
pub open spec fn is_wide_space(a: u8, b: u8, c: u8) -> bool {
    (a == 0xE1 && b == 0x9A && c == 0x80)
        || (a == 0xE2 && b == 0x80 && ((0x80 <= c && c <= 0x8A) || c == 0xA8 || c == 0xA9 || c == 0xAF))
        || (a == 0xE2 && b == 0x81 && c == 0x9F)
        || (a == 0xE3 && b == 0x80 && c == 0x80)
}

/// Byte length of the white-space character that starts at `k` in `l`, or 0
/// where none does: tab to carriage return, space, U+0085, U+00A0 and the
/// three-byte ones.
pub open spec fn space_at(l: Seq<u8>, k: int) -> int {
    if k < 0 || k >= l.len() {
        0
    } else if (9 <= l[k] && l[k] <= 13) || l[k] == 32 {
        1
    } else if k + 1 < l.len() && l[k] == 0xC2 && (l[k + 1] == 0x85 || l[k + 1] == 0xA0) {
        2
    } else if k + 2 < l.len() && is_wide_space(l[k], l[k + 1], l[k + 2]) {
        3
    } else {
        0
    }
}

/// Byte length of the white-space character that ends at `hi` and starts no
/// earlier than `lo`, or 0.
pub open spec fn space_before(l: Seq<u8>, lo: int, hi: int) -> int {
    if hi - 1 >= lo && space_at(l, hi - 1) == 1 {
        1
    } else if hi - 2 >= lo && space_at(l, hi - 2) == 2 {
        2
    } else if hi - 3 >= lo && space_at(l, hi - 3) == 3 {
        3
    } else {
        0
    }
}

/// First offset at or after `k`, and no later than `hi`, that does not start
/// a white-space character lying before `hi`.
pub open spec fn skip_space(l: Seq<u8>, k: int, hi: int) -> int
    decreases hi - k,
{
    if k < hi && space_at(l, k) > 0 && k + space_at(l, k) <= hi {
        skip_space(l, k + space_at(l, k), hi)
    } else {
        k
    }
}

/// End of `l[lo..hi]` once trailing white space is dropped.
pub open spec fn trim_end(l: Seq<u8>, lo: int, hi: int) -> int
    decreases hi - lo,
{
    if lo < hi && space_before(l, lo, hi) > 0 {
        trim_end(l, lo, hi - space_before(l, lo, hi))
    } else {
        hi
    }
}

/// Index of the first `c` in `l` at or after `k`, or -1.
pub open spec fn find_byte(l: Seq<u8>, c: u8, k: int) -> int
    decreases l.len() - k,
{
    if k < 0 || k >= l.len() {
        -1
    } else if l[k] == c {
        k
    } else {
        find_byte(l, c, k + 1)
    }
}

pub open spec fn import_keyword() -> Seq<u8> {
    seq![105u8, 109u8, 112u8, 111u8, 114u8, 116u8]
}

pub open spec fn type_keyword() -> Seq<u8> {
    seq![116u8, 121u8, 112u8, 101u8]
}

pub open spec fn interface_spelled(n: Seq<u8>) -> spec_fn(ModuleInterface) -> bool {
    |m: ModuleInterface| encode_utf8(m.name@) == n
}

/// Index of the first interface whose name is written as the bytes `n`, or -1.
pub open spec fn interface_named(ifs: Seq<ModuleInterface>, n: Seq<u8>) -> int {
    first_index(ifs, interface_spelled(n))
}

/// Where the whole-module edit of an import line starts: after the keyword and one space.
pub open spec fn edit_start_column(ws: int) -> usize {
    if ws + 7 <= usize::MAX { (ws + 7) as usize } else { usize::MAX }
}

/// What the completion of the line being written offers when that line is an
/// import: `None` where the line is no import (or the text gives no answer),
/// so that completion goes on from the syntax tree.
pub open spec fn import_line_completions(
    b: Seq<u8>,
    line: usize,
    character: usize,
    module: Module,
    ifs: Seq<ModuleInterface>,
    root: Seq<char>,
    deps: Seq<String>,
    dev_deps: Seq<String>,
) -> Option<Seq<ItemView>> {
    let s = offset_of(b, line as int, 0);
    let e = offset_of(b, line + 1, 0);
    let l = b.subrange(s, e);
    let ws = skip_space(l, 0, l.len() as int);
    if s > e || !(ws + 6 <= l.len() && l.subrange(ws, ws + 6) == import_keyword()) {
        None
    } else {
        let d = find_byte(l, 46u8, 0);
        if d >= 0 {
            let ns = skip_space(l, ws + 6, d);
            let ne = trim_end(l, ns, d);
            let k = interface_named(ifs, l.subrange(ns, ne));
            if k < 0 || character > l.len() {
                None
            } else {
                let ce = trim_end(l, 0, character as int);
                let typed = ce >= 4 && l.subrange(ce - 4, ce) == type_keyword();
                Some(unqualified_offers(ifs[k], module.ast.imports@, root, !typed))
            }
        } else {
            let content_end = if e > s && b[e - 1] == 10u8 { e - 1 } else { e };
            let start = Position { line, character: edit_start_column(ws) };
            let end = position_of(b, content_end);
            Some(module_offers(ifs, module, root, deps, dev_deps, Range { start, end }))
        }
    }
}

proof fn lemma_find_byte(l: Seq<u8>, c: u8, k: int)
    requires
        0 <= k,
    ensures
        find_byte(l, c, k) >= 0 ==> k <= find_byte(l, c, k) < l.len() && l[find_byte(l, c, k)] == c
            && forall|j: int| k <= j < find_byte(l, c, k) ==> l[j] != c,
    decreases l.len() - k,
{
    if k < l.len() && l[k] != c {
        lemma_find_byte(l, c, k + 1);
    }
}

proof fn lemma_skip_space(l: Seq<u8>, k: int, hi: int)
    requires
        0 <= k <= hi <= l.len(),
    ensures
        k <= skip_space(l, k, hi) <= hi,
        forall|j: int| k <= j < skip_space(l, k, hi) ==> l[j] != 46u8,
    decreases hi - k,
{
    if k < hi && space_at(l, k) > 0 && k + space_at(l, k) <= hi {
        lemma_skip_space(l, k + space_at(l, k), hi);
    }
}

fn bytes_equal(a: &[u8], lo: usize, hi: usize, other: &[u8]) -> (r: bool)
    requires
        lo <= hi <= a@.len(),
    ensures
        r == (a@.subrange(lo as int, hi as int) == other@),
{
    if hi - lo != other.len() {
        return false;
    }
    let mut i: usize = 0;
    while i < other.len()
        invariant
            lo <= hi <= a@.len(),
            hi - lo == other@.len(),
            i <= other@.len(),
            forall|k: int| 0 <= k < i ==> a@[lo + k] == other@[k],
        decreases other@.len() - i,
    {
        if a[lo + i] != other[i] {
            assert(a@.subrange(lo as int, hi as int)[i as int] != other@[i as int]);
            return false;
        }
        i = i + 1;
    }
    assert(a@.subrange(lo as int, hi as int) =~= other@);
    true
}

fn find_interface_by_bytes<'a>(ifs: &'a Vec<ModuleInterface>, b: &[u8], lo: usize, hi: usize) -> (r: Option<&'a ModuleInterface>)
    requires
        lo <= hi <= b@.len(),
    ensures
        interface_named(ifs@, b@.subrange(lo as int, hi as int)) < 0 ==> r is None,
        interface_named(ifs@, b@.subrange(lo as int, hi as int)) >= 0 ==> r == Some(
            &ifs@[interface_named(ifs@, b@.subrange(lo as int, hi as int))],
        ),
{
    let ghost n = b@.subrange(lo as int, hi as int);
    proof {
        lemma_first_index(ifs@, interface_spelled(n));
    }
    let mut i: usize = 0;
    while i < ifs.len()
        invariant
            lo <= hi <= b@.len(),
            n == b@.subrange(lo as int, hi as int),
            i <= ifs@.len(),
            forall|j: int| 0 <= j < i ==> encode_utf8((#[trigger] ifs@[j]).name@) != n,
        decreases ifs@.len() - i,
    {
        proof {
            lemma_first_index(ifs@, interface_spelled(n));
        }
        if bytes_equal(b, lo, hi, ifs[i].name.as_str().as_bytes()) {
            return Some(&ifs[i]);
        }
        i = i + 1;
    }
    None
}

fn space_at_exec(l: &[u8], k: usize) -> (r: usize)
    ensures
        r == space_at(l@, k as int),
{
    let n = l.len();
    if k >= n {
        return 0;
    }
    let a = l[k];
    if (9 <= a && a <= 13) || a == 32 {
        return 1;
    }
    if k + 1 < n && a == 0xC2 && (l[k + 1] == 0x85 || l[k + 1] == 0xA0) {
        return 2;
    }
    if k + 1 < n && k + 2 < n {
        let b = l[k + 1];
        let c = l[k + 2];
        if (a == 0xE1 && b == 0x9A && c == 0x80)
            || (a == 0xE2 && b == 0x80 && ((0x80 <= c && c <= 0x8A) || c == 0xA8 || c == 0xA9 || c == 0xAF))
            || (a == 0xE2 && b == 0x81 && c == 0x9F)
            || (a == 0xE3 && b == 0x80 && c == 0x80) {
            return 3;
        }
    }
    0
}

fn space_before_exec(l: &[u8], lo: usize, hi: usize) -> (r: usize)
    requires
        lo <= hi <= l@.len(),
    ensures
        r == space_before(l@, lo as int, hi as int),
        r <= hi - lo,
{
    if hi - lo >= 1 && space_at_exec(l, hi - 1) == 1 {
        1
    } else if hi - lo >= 2 && space_at_exec(l, hi - 2) == 2 {
        2
    } else if hi - lo >= 3 && space_at_exec(l, hi - 3) == 3 {
        3
    } else {
        0
    }
}

fn skip_space_exec(l: &[u8], k: usize, hi: usize) -> (r: usize)
    requires
        k <= hi <= l@.len(),
    ensures
        r == skip_space(l@, k as int, hi as int),
        k <= r <= hi,
{
    let mut p = k;
    loop
        invariant
            k <= p <= hi <= l@.len(),
            skip_space(l@, p as int, hi as int) == skip_space(l@, k as int, hi as int),
        decreases hi - p,
    {
        if p >= hi {
            return p;
        }
        let w = space_at_exec(l, p);
        if w == 0 || w > hi - p {
            return p;
        }
        p = p + w;
    }
}

fn trim_end_exec(l: &[u8], lo: usize, hi: usize) -> (r: usize)
    requires
        lo <= hi <= l@.len(),
    ensures
        r == trim_end(l@, lo as int, hi as int),
        lo <= r <= hi,
{
    let mut p = hi;
    loop
        invariant
            lo <= p <= hi <= l@.len(),
            trim_end(l@, lo as int, p as int) == trim_end(l@, lo as int, hi as int),
        decreases p - lo,
    {
        if p <= lo {
            return p;
        }
        let w = space_before_exec(l, lo, p);
        if w == 0 {
            return p;
        }
        p = p - w;
    }
}

fn find_byte_exec(l: &[u8], c: u8) -> (r: Option<usize>)
    ensures
        find_byte(l@, c, 0) < 0 ==> r is None,
        find_byte(l@, c, 0) >= 0 ==> r == Some(find_byte(l@, c, 0) as usize),
{
    let mut k: usize = 0;
    while k < l.len()
        invariant
            k <= l@.len(),
            find_byte(l@, c, k as int) == find_byte(l@, c, 0),
        decreases l@.len() - k,
    {
        if l[k] == c {
            return Some(k);
        }
        k = k + 1;
    }
    None
}


/// Completion for a line that is being written as an import, read from the
/// raw text `src` because such a line often does not parse yet. `None` where
/// the line is not an import, or names no known module before a `.`, or the
/// cursor lies past the line's end.
pub fn import_completions(
    src: &str,
    line: usize,
    character: usize,
    module: &Module,
    ifs: &Vec<ModuleInterface>,
    root: &String,
    deps: &Vec<String>,
    dev_deps: &Vec<String>,
) -> (r: Option<Vec<CompletionItem>>)
    ensures
        r is Some <==> import_line_completions(src.spec_bytes(), line, character, *module, ifs@, root@, deps@, dev_deps@) is Some,
        r matches Some(v) ==> import_line_completions(src.spec_bytes(), line, character, *module, ifs@, root@, deps@, dev_deps@)
            == Some(items_view(v@)),
{
    let line_num = LineIndex::new(src);
    let b = line_num.bytes.as_slice();
    let start_of_line = line_num.byte_index(line, 0);
    let end_of_line = if line < usize::MAX {
        line_num.byte_index(line + 1, 0)
    } else {
        proof {
            crate::line_index::lemma_starts_upto(b@, b@.len() as int);
            assert(crate::line_index::seek(b@, b@.len() as int, 0) == b@.len());
        }
        b.len()
    };
    proof {
        crate::line_index::lemma_starts_upto(b@, b@.len() as int);
        crate::line_index::lemma_seek_bound(b@, b@.len() as int, 0);
    }
    assert(b@ == src.spec_bytes());
    assert(start_of_line == offset_of(b@, line as int, 0));
    assert(end_of_line == offset_of(b@, line + 1, 0));
    if start_of_line > end_of_line {
        return None;
    }
    proof {
        let starts = crate::line_index::starts_upto(b@, b@.len() as int);
        let st = if 0 <= line < starts.len() { starts[line as int] as int } else { b@.len() as int };
        crate::line_index::lemma_seek_bound(b@, st, 0);
        let st2 = if 0 <= line + 1 < starts.len() { starts[line + 1] as int } else { b@.len() as int };
        crate::line_index::lemma_seek_bound(b@, st2, 0);
    }
    let l: &[u8] = &b[start_of_line..end_of_line];
    let len = l.len();
    let ws = skip_space_exec(l, 0, len);
    let keyword: Vec<u8> = vec![105u8, 109u8, 112u8, 111u8, 114u8, 116u8];
    assert(keyword@ =~= import_keyword());
    if !(len - ws >= 6 && bytes_equal(l, ws, ws + 6, keyword.as_slice())) {
        return None;
    }
    match find_byte_exec(l, 46u8) {
        Some(dot_index) => {
            proof {
                lemma_find_byte(l@, 46u8, 0);
                lemma_skip_space(l@, 0, len as int);
                if dot_index < ws + 6 {
                    if dot_index < ws {
                        assert(l@[dot_index as int] != 46u8);
                    } else {
                        assert(l@.subrange(ws as int, ws + 6)[dot_index - ws] == l@[dot_index as int]);
                    }
                }
            }
            let ns = skip_space_exec(l, ws + 6, dot_index);
            let ne = trim_end_exec(l, ns, dot_index);
            let importing_module = match find_interface_by_bytes(ifs, l, ns, ne) {
                Some(m) => m,
                None => return None,
            };
            if character > len {
                return None;
            }
            let ce = trim_end_exec(l, 0, character);
            let type_word: Vec<u8> = vec![116u8, 121u8, 112u8, 101u8];
            assert(type_word@ =~= type_keyword());
            let typed = ce >= 4 && bytes_equal(l, ce - 4, ce, type_word.as_slice());
            Some(unqualified_completions_from_module(importing_module, module, !typed, root))
        },
        None => {
            let content_end = if end_of_line > start_of_line && b[end_of_line - 1] == 10u8 {
                end_of_line - 1
            } else {
                end_of_line
            };
            let column = if ws <= usize::MAX - 7 { ws + 7 } else { usize::MAX };
            let start = Position { line, character: column };
            let end = line_num.position(content_end);
            Some(complete_modules_for_import(module, ifs, root, deps, dev_deps, start, end))
        },
    }
}

} // verus!
