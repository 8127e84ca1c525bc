use vstd::prelude::*;
use crate::ast::{Import, Module, ModuleInterface, TypeEntry, Unqualified, ValueEntry};
use crate::items::{
    items_view, opt_view, type_completion, type_item, value_completion, value_item, CompletionItem,
    CompletionKind, ItemView,
};
use crate::search::{first_index, lemma_first_index};
use crate::visibility::{is_suggestable, suggestable, Publicity};

verus! {

pub open spec fn interface_has_name(name: Seq<char>) -> spec_fn(ModuleInterface) -> bool {
    |m: ModuleInterface| m.name@ == name
}

pub open spec fn type_has_name(name: Seq<char>) -> spec_fn(TypeEntry) -> bool {
    |t: TypeEntry| t.name@ == name
}

pub open spec fn value_has_name(name: Seq<char>) -> spec_fn(ValueEntry) -> bool {
    |v: ValueEntry| v.name@ == name
}

/// Index of the first interface named `name`, or -1.
pub open spec fn first_interface(ifs: Seq<ModuleInterface>, name: Seq<char>) -> int {
    first_index(ifs, interface_has_name(name))
}

/// Index of the first type named `name`, or -1.
pub open spec fn first_type(ts: Seq<TypeEntry>, name: Seq<char>) -> int {
    first_index(ts, type_has_name(name))
}

/// Index of the first value named `name`, or -1.
pub open spec fn first_value(vs: Seq<ValueEntry>, name: Seq<char>) -> int {
    first_index(vs, value_has_name(name))
}

/// Looks up the interface of the module named `name`.
pub fn get_module_interface<'a>(ifs: &'a Vec<ModuleInterface>, name: &String) -> (r: Option<&'a ModuleInterface>)
    ensures
        first_interface(ifs@, name@) < 0 ==> r is None,
        first_interface(ifs@, name@) >= 0 ==> r == Some(&ifs@[first_interface(ifs@, name@)]),
{
    proof {
        lemma_first_index(ifs@, interface_has_name(name@));
    }
    let mut i: usize = 0;
    while i < ifs.len()
        invariant
            i <= ifs@.len(),
            forall|j: int| 0 <= j < i ==> (#[trigger] ifs@[j]).name@ != name@,
        decreases ifs@.len() - i,
    {
        proof {
            lemma_first_index(ifs@, interface_has_name(name@));
        }
        if ifs[i].name == *name {
            return Some(&ifs[i]);
        }
        i = i + 1;
    }
    None
}

/// The first type named `name` of an interface, whatever its publicity.
pub fn find_type<'a>(iface: &'a ModuleInterface, name: &String) -> (r: Option<&'a TypeEntry>)
    ensures
        first_type(iface.types@, name@) < 0 ==> r is None,
        first_type(iface.types@, name@) >= 0 ==> r == Some(&iface.types@[first_type(iface.types@, name@)]),
{
    proof {
        lemma_first_index(iface.types@, type_has_name(name@));
    }
    let mut i: usize = 0;
    while i < iface.types.len()
        invariant
            i <= iface.types@.len(),
            forall|j: int| 0 <= j < i ==> (#[trigger] iface.types@[j]).name@ != name@,
        decreases iface.types@.len() - i,
    {
        proof {
            lemma_first_index(iface.types@, type_has_name(name@));
        }
        if iface.types[i].name == *name {
            return Some(&iface.types[i]);
        }
        i = i + 1;
    }
    None
}

/// The first value named `name` of an interface, whatever its publicity.
pub fn find_value<'a>(iface: &'a ModuleInterface, name: &String) -> (r: Option<&'a ValueEntry>)
    ensures
        first_value(iface.values@, name@) < 0 ==> r is None,
        first_value(iface.values@, name@) >= 0 ==> r == Some(&iface.values@[first_value(iface.values@, name@)]),
{
    proof {
        lemma_first_index(iface.values@, value_has_name(name@));
    }
    let mut i: usize = 0;
    while i < iface.values.len()
        invariant
            i <= iface.values@.len(),
            forall|j: int| 0 <= j < i ==> (#[trigger] iface.values@[j]).name@ != name@,
        decreases iface.values@.len() - i,
    {
        proof {
            lemma_first_index(iface.values@, value_has_name(name@));
        }
        if iface.values[i].name == *name {
            return Some(&iface.values[i]);
        }
        i = i + 1;
    }
    None
}

/// The public type named `name`, if the interface exposes one.
pub open spec fn public_type(iface: ModuleInterface, name: Seq<char>) -> Option<TypeEntry> {
    let k = first_type(iface.types@, name);
    if k >= 0 && iface.types@[k].publicity == Publicity::Public {
        Some(iface.types@[k])
    } else {
        None
    }
}

/// The public value named `name`, if the interface exposes one.
pub open spec fn public_value(iface: ModuleInterface, name: Seq<char>) -> Option<ValueEntry> {
    let k = first_value(iface.values@, name);
    if k >= 0 && iface.values@[k].publicity == Publicity::Public {
        Some(iface.values@[k])
    } else {
        None
    }
}

fn get_public_type<'a>(iface: &'a ModuleInterface, name: &String) -> (r: Option<&'a TypeEntry>)
    ensures
        r is Some <==> public_type(*iface, name@) is Some,
        r matches Some(t) ==> public_type(*iface, name@) == Some(*t),
{
    match find_type(iface, name) {
        Some(t) => if t.publicity == Publicity::Public { Some(t) } else { None },
        None => None,
    }
}

fn get_public_value<'a>(iface: &'a ModuleInterface, name: &String) -> (r: Option<&'a ValueEntry>)
    ensures
        r is Some <==> public_value(*iface, name@) is Some,
        r matches Some(v) ==> public_value(*iface, name@) == Some(*v),
{
    match find_value(iface, name) {
        Some(v) => if v.publicity == Publicity::Public { Some(v) } else { None },
        None => None,
    }
}


pub open spec fn used_view(o: Option<String>) -> Option<Seq<char>> {
    opt_view(o)
}

/// Types of an imported module offered under the module's name.
pub open spec fn qualified_types(ts: Seq<TypeEntry>, package: Seq<char>, root: Seq<char>, used: Option<Seq<char>>) -> Seq<ItemView>
    decreases ts.len(),
{
    if ts.len() == 0 {
        seq![]
    } else {
        let rest = qualified_types(ts.drop_last(), package, root, used);
        let t = ts.last();
        if suggestable(t.publicity, package, root) && used is Some {
            rest.push(type_item(used, t.name@, t))
        } else {
            rest
        }
    }
}

/// Values of an imported module offered under the module's name.
pub open spec fn qualified_values(vs: Seq<ValueEntry>, package: Seq<char>, root: Seq<char>, used: Option<Seq<char>>) -> Seq<ItemView>
    decreases vs.len(),
{
    if vs.len() == 0 {
        seq![]
    } else {
        let rest = qualified_values(vs.drop_last(), package, root, used);
        let v = vs.last();
        if suggestable(v.publicity, package, root) && used is Some {
            rest.push(value_item(used, v.name@, v))
        } else {
            rest
        }
    }
}

/// Types imported unqualified, offered under the name they are used by.
pub open spec fn unqualified_types(us: Seq<Unqualified>, iface: ModuleInterface) -> Seq<ItemView>
    decreases us.len(),
{
    if us.len() == 0 {
        seq![]
    } else {
        let rest = unqualified_types(us.drop_last(), iface);
        let u = us.last();
        match public_type(iface, u.name@) {
            Some(t) => rest.push(type_item(None, u.spec_used_name(), t)),
            None => rest,
        }
    }
}

/// Values imported unqualified, offered under the name they are used by.
pub open spec fn unqualified_values(us: Seq<Unqualified>, iface: ModuleInterface) -> Seq<ItemView>
    decreases us.len(),
{
    if us.len() == 0 {
        seq![]
    } else {
        let rest = unqualified_values(us.drop_last(), iface);
        let u = us.last();
        match public_value(iface, u.name@) {
            Some(v) => rest.push(value_item(None, u.spec_used_name(), v)),
            None => rest,
        }
    }
}

fn qualified_type_items(iface: &ModuleInterface, used: &Option<String>, root: &String) -> (r: Vec<CompletionItem>)
    ensures
        items_view(r@) == qualified_types(iface.types@, iface.package@, root@, used_view(*used)),
{
    let mut out: Vec<CompletionItem> = Vec::new();
    let mut i: usize = 0;
    assert(iface.types@.subrange(0, 0) =~= Seq::<TypeEntry>::empty());
    assert(items_view(out@) =~= Seq::<ItemView>::empty());
    while i < iface.types.len()
        invariant
            i <= iface.types@.len(),
            items_view(out@) == qualified_types(iface.types@.subrange(0, i as int), iface.package@, root@, used_view(*used)),
        decreases iface.types@.len() - i,
    {
        let t = &iface.types[i];
        assert(iface.types@.subrange(0, i + 1).drop_last() =~= iface.types@.subrange(0, i as int));
        let ghost prev = out@;
        if is_suggestable(t.publicity, &iface.package, root) {
            match used {
                Some(m) => {
                    out.push(type_completion(Some(m), &t.name, t));
                    assert(items_view(out@) =~= items_view(prev).push(out@.last()@));
                },
                None => {},
            }
        }
        i = i + 1;
    }
    assert(iface.types@.subrange(0, iface.types@.len() as int) =~= iface.types@);
    out
}

fn qualified_value_items(iface: &ModuleInterface, used: &Option<String>, root: &String) -> (r: Vec<CompletionItem>)
    ensures
        items_view(r@) == qualified_values(iface.values@, iface.package@, root@, used_view(*used)),
{
    let mut out: Vec<CompletionItem> = Vec::new();
    let mut i: usize = 0;
    assert(iface.values@.subrange(0, 0) =~= Seq::<ValueEntry>::empty());
    assert(items_view(out@) =~= Seq::<ItemView>::empty());
    while i < iface.values.len()
        invariant
            i <= iface.values@.len(),
            items_view(out@) == qualified_values(iface.values@.subrange(0, i as int), iface.package@, root@, used_view(*used)),
        decreases iface.values@.len() - i,
    {
        let v = &iface.values[i];
        assert(iface.values@.subrange(0, i + 1).drop_last() =~= iface.values@.subrange(0, i as int));
        let ghost prev = out@;
        if is_suggestable(v.publicity, &iface.package, root) {
            match used {
                Some(m) => {
                    out.push(value_completion(Some(m), &v.name, v));
                    assert(items_view(out@) =~= items_view(prev).push(out@.last()@));
                },
                None => {},
            }
        }
        i = i + 1;
    }
    assert(iface.values@.subrange(0, iface.values@.len() as int) =~= iface.values@);
    out
}

fn unqualified_type_items(us: &Vec<Unqualified>, iface: &ModuleInterface) -> (r: Vec<CompletionItem>)
    ensures
        items_view(r@) == unqualified_types(us@, *iface),
{
    let mut out: Vec<CompletionItem> = Vec::new();
    let mut i: usize = 0;
    assert(us@.subrange(0, 0) =~= Seq::<Unqualified>::empty());
    assert(items_view(out@) =~= Seq::<ItemView>::empty());
    while i < us.len()
        invariant
            i <= us@.len(),
            items_view(out@) == unqualified_types(us@.subrange(0, i as int), *iface),
        decreases us@.len() - i,
    {
        let u = &us[i];
        assert(us@.subrange(0, i + 1).drop_last() =~= us@.subrange(0, i as int));
        let ghost prev = out@;
        match get_public_type(iface, &u.name) {
            Some(t) => {
                out.push(type_completion(None, u.used_name(), t));
                assert(items_view(out@) =~= items_view(prev).push(out@.last()@));
            },
            None => {},
        }
        i = i + 1;
    }
    assert(us@.subrange(0, us@.len() as int) =~= us@);
    out
}

fn unqualified_value_items(us: &Vec<Unqualified>, iface: &ModuleInterface) -> (r: Vec<CompletionItem>)
    ensures
        items_view(r@) == unqualified_values(us@, *iface),
{
    let mut out: Vec<CompletionItem> = Vec::new();
    let mut i: usize = 0;
    assert(us@.subrange(0, 0) =~= Seq::<Unqualified>::empty());
    assert(items_view(out@) =~= Seq::<ItemView>::empty());
    while i < us.len()
        invariant
            i <= us@.len(),
            items_view(out@) == unqualified_values(us@.subrange(0, i as int), *iface),
        decreases us@.len() - i,
    {
        let u = &us[i];
        assert(us@.subrange(0, i + 1).drop_last() =~= us@.subrange(0, i as int));
        let ghost prev = out@;
        match get_public_value(iface, &u.name) {
            Some(v) => {
                out.push(value_completion(None, u.used_name(), v));
                assert(items_view(out@) =~= items_view(prev).push(out@.last()@));
            },
            None => {},
        }
        i = i + 1;
    }
    assert(us@.subrange(0, us@.len() as int) =~= us@);
    out
}


/// The types that every module sees: each name with its printed signature.
pub open spec fn prelude_type_names() -> Seq<(Seq<char>, Seq<char>)> {
    seq![
        ("BitArray"@, "BitArray"@), ("Bool"@, "Bool"@), ("Float"@, "Float"@), ("Int"@, "Int"@),
        ("List"@, "List(a)"@), ("Nil"@, "Nil"@), ("Result"@, "Result(a, b)"@), ("String"@, "String"@),
        ("UtfCodepoint"@, "UtfCodepoint"@),
    ]
}

pub open spec fn prelude_item(name: Seq<char>, signature: Seq<char>) -> ItemView {
    ItemView {
        label: name,
        kind: Some(CompletionKind::Class),
        detail: Some(signature),
        documentation: None,
        insert_text: None,
        edit: None,
    }
}

pub open spec fn prelude_types() -> Seq<ItemView> {
    prelude_type_names().map_values(|p: (Seq<char>, Seq<char>)| prelude_item(p.0, p.1))
}

/// Types of the module itself.
pub open spec fn local_types(ts: Seq<TypeEntry>) -> Seq<ItemView> {
    ts.map_values(|t: TypeEntry| type_item(None, t.name@, t))
}

/// Values of the module itself, internal ones included.
pub open spec fn local_values(vs: Seq<ValueEntry>) -> Seq<ItemView> {
    vs.map_values(|v: ValueEntry| value_item(None, v.name@, v))
}

/// Types offered through one import; nothing while its module is unknown.
pub open spec fn import_types(imp: Import, ifs: Seq<ModuleInterface>, root: Seq<char>) -> Seq<ItemView> {
    let k = first_interface(ifs, imp.module@);
    if k < 0 {
        seq![]
    } else {
        qualified_types(ifs[k].types@, ifs[k].package@, root, used_view(imp.used_name))
            + unqualified_types(imp.unqualified_types@, ifs[k])
    }
}

/// Values offered through one import; nothing while its module is unknown.
pub open spec fn import_values(imp: Import, ifs: Seq<ModuleInterface>, root: Seq<char>) -> Seq<ItemView> {
    let k = first_interface(ifs, imp.module@);
    if k < 0 {
        seq![]
    } else {
        qualified_values(ifs[k].values@, ifs[k].package@, root, used_view(imp.used_name))
            + unqualified_values(imp.unqualified_values@, ifs[k])
    }
}

pub open spec fn imports_types(imps: Seq<Import>, ifs: Seq<ModuleInterface>, root: Seq<char>) -> Seq<ItemView>
    decreases imps.len(),
{
    if imps.len() == 0 {
        seq![]
    } else {
        imports_types(imps.drop_last(), ifs, root) + import_types(imps.last(), ifs, root)
    }
}

pub open spec fn imports_values(imps: Seq<Import>, ifs: Seq<ModuleInterface>, root: Seq<char>) -> Seq<ItemView>
    decreases imps.len(),
{
    if imps.len() == 0 {
        seq![]
    } else {
        imports_values(imps.drop_last(), ifs, root) + import_values(imps.last(), ifs, root)
    }
}

/// Everything offered where a type is expected.
pub open spec fn type_completions(ifs: Seq<ModuleInterface>, root: Seq<char>, m: Module) -> Seq<ItemView> {
    prelude_types() + local_types(m.ast.types@) + imports_types(m.ast.imports@, ifs, root)
}

/// Everything offered where a value is expected.
pub open spec fn value_completions(ifs: Seq<ModuleInterface>, root: Seq<char>, m: Module) -> Seq<ItemView> {
    local_values(m.ast.values@) + imports_values(m.ast.imports@, ifs, root)
}

proof fn lemma_items_view_append(a: Seq<CompletionItem>, b: Seq<CompletionItem>)
    ensures
        items_view(a + b) == items_view(a) + items_view(b),
{
    assert(items_view(a + b) =~= items_view(a) + items_view(b));
}

fn import_type_items(imp: &Import, ifs: &Vec<ModuleInterface>, root: &String) -> (r: Vec<CompletionItem>)
    ensures
        items_view(r@) == import_types(*imp, ifs@, root@),
{
    match get_module_interface(ifs, &imp.module) {
        None => {
            let out: Vec<CompletionItem> = Vec::new();
            assert(items_view(out@) =~= Seq::<ItemView>::empty());
            out
        },
        Some(iface) => {
            let mut out = qualified_type_items(iface, &imp.used_name, root);
            let mut rest = unqualified_type_items(&imp.unqualified_types, iface);
            let ghost (a, b) = (out@, rest@);
            out.append(&mut rest);
            proof {
                lemma_items_view_append(a, b);
            }
            out
        },
    }
}

fn import_value_items(imp: &Import, ifs: &Vec<ModuleInterface>, root: &String) -> (r: Vec<CompletionItem>)
    ensures
        items_view(r@) == import_values(*imp, ifs@, root@),
{
    match get_module_interface(ifs, &imp.module) {
        None => {
            let out: Vec<CompletionItem> = Vec::new();
            assert(items_view(out@) =~= Seq::<ItemView>::empty());
            out
        },
        Some(iface) => {
            let mut out = qualified_value_items(iface, &imp.used_name, root);
            let mut rest = unqualified_value_items(&imp.unqualified_values, iface);
            let ghost (a, b) = (out@, rest@);
            out.append(&mut rest);
            proof {
                lemma_items_view_append(a, b);
            }
            out
        },
    }
}

fn prelude_completion(name: &str, signature: &str) -> (r: CompletionItem)
    ensures
        r@ == prelude_item(name@, signature@),
{
    CompletionItem {
        label: String::from_str(name),
        kind: Some(CompletionKind::Class),
        detail: Some(String::from_str(signature)),
        documentation: None,
        insert_text: None,
        text_edit: None,
    }
}

/// Completions where a type is expected: the prelude's types, the module's
/// own, and those reachable through its imports.
pub fn completion_types(ifs: &Vec<ModuleInterface>, root: &String, module: &Module) -> (r: Vec<CompletionItem>)
    ensures
        items_view(r@) == type_completions(ifs@, root@, *module),
{
    let mut out: Vec<CompletionItem> = Vec::new();
    out.push(prelude_completion("BitArray", "BitArray"));
    out.push(prelude_completion("Bool", "Bool"));
    out.push(prelude_completion("Float", "Float"));
    out.push(prelude_completion("Int", "Int"));
    out.push(prelude_completion("List", "List(a)"));
    out.push(prelude_completion("Nil", "Nil"));
    out.push(prelude_completion("Result", "Result(a, b)"));
    out.push(prelude_completion("String", "String"));
    out.push(prelude_completion("UtfCodepoint", "UtfCodepoint"));
    assert(items_view(out@) =~= prelude_types());
    let types = &module.ast.types;
    let mut i: usize = 0;
    while i < types.len()
        invariant
            i <= types@.len(),
            items_view(out@) == prelude_types() + local_types(types@.subrange(0, i as int)),
        decreases types@.len() - i,
    {
        let ghost prev = out@;
        out.push(type_completion(None, &types[i].name, &types[i]));
        assert(items_view(out@) =~= items_view(prev).push(out@.last()@));
        i = i + 1;
        assert(local_types(types@.subrange(0, i as int)) =~= local_types(types@.subrange(0, i - 1)).push(
            type_item(None, types@[i - 1].name@, types@[i - 1]),
        ));
    }
    assert(types@.subrange(0, types@.len() as int) =~= types@);
    let imports = &module.ast.imports;
    let mut j: usize = 0;
    assert(imports@.subrange(0, 0) =~= Seq::<Import>::empty());
    assert(items_view(out@) =~= prelude_types() + local_types(types@) + imports_types(imports@.subrange(0, 0), ifs@, root@));
    while j < imports.len()
        invariant
            j <= imports@.len(),
            items_view(out@) == prelude_types() + local_types(types@) + imports_types(imports@.subrange(0, j as int), ifs@, root@),
        decreases imports@.len() - j,
    {
        let mut more = import_type_items(&imports[j], ifs, root);
        let ghost (a, b) = (out@, more@);
        out.append(&mut more);
        proof {
            lemma_items_view_append(a, b);
            assert(imports@.subrange(0, j + 1).drop_last() =~= imports@.subrange(0, j as int));
        }
        j = j + 1;
    }
    assert(imports@.subrange(0, imports@.len() as int) =~= imports@);
    out
}

/// Completions where a value is expected: the module's own values and those
/// reachable through its imports.
pub fn completion_values(ifs: &Vec<ModuleInterface>, root: &String, module: &Module) -> (r: Vec<CompletionItem>)
    ensures
        items_view(r@) == value_completions(ifs@, root@, *module),
{
    let mut out: Vec<CompletionItem> = Vec::new();
    let values = &module.ast.values;
    let mut i: usize = 0;
    assert(items_view(out@) =~= local_values(values@.subrange(0, 0)));
    while i < values.len()
        invariant
            i <= values@.len(),
            items_view(out@) == local_values(values@.subrange(0, i as int)),
        decreases values@.len() - i,
    {
        let ghost prev = out@;
        out.push(value_completion(None, &values[i].name, &values[i]));
        assert(items_view(out@) =~= items_view(prev).push(out@.last()@));
        i = i + 1;
        assert(local_values(values@.subrange(0, i as int)) =~= local_values(values@.subrange(0, i - 1)).push(
            value_item(None, values@[i - 1].name@, values@[i - 1]),
        ));
    }
    assert(values@.subrange(0, values@.len() as int) =~= values@);
    let imports = &module.ast.imports;
    let mut j: usize = 0;
    assert(imports@.subrange(0, 0) =~= Seq::<Import>::empty());
    assert(items_view(out@) =~= local_values(values@) + imports_values(imports@.subrange(0, 0), ifs@, root@));
    while j < imports.len()
        invariant
            j <= imports@.len(),
            items_view(out@) == local_values(values@) + imports_values(imports@.subrange(0, j as int), ifs@, root@),
        decreases imports@.len() - j,
    {
        let mut more = import_value_items(&imports[j], ifs, root);
        let ghost (a, b) = (out@, more@);
        out.append(&mut more);
        proof {
            lemma_items_view_append(a, b);
            assert(imports@.subrange(0, j + 1).drop_last() =~= imports@.subrange(0, j as int));
        }
        j = j + 1;
    }
    assert(imports@.subrange(0, imports@.len() as int) =~= imports@);
    out
}

} // verus!
