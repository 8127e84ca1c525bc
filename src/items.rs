use vstd::prelude::*;
use crate::ast::{TypeEntry, ValueEntry, ValueVariant};
use crate::code_action::TextEdit;
use crate::line_index::Range;

verus! {

/// The kind tag shown beside a completion.
#[derive(Clone, Copy, Debug, PartialEq, Eq, Structural)]
pub enum CompletionKind {
    Class,
    Variable,
    Constant,
    Function,
    EnumMember,
    Constructor,
    Module,
}

/// One completion candidate.
#[derive(Debug)]
pub struct CompletionItem {
    pub label: String,
    pub kind: Option<CompletionKind>,
    pub detail: Option<String>,
    pub documentation: Option<String>,
    /// Text inserted in place of the label, where it differs.
    pub insert_text: Option<String>,
    /// Edit applied in place of inserting, where the item replaces text.
    pub text_edit: Option<TextEdit>,
}

/// A completion candidate as plain values.
pub struct ItemView {
    pub label: Seq<char>,
    pub kind: Option<CompletionKind>,
    pub detail: Option<Seq<char>>,
    pub documentation: Option<Seq<char>>,
    pub insert_text: Option<Seq<char>>,
    pub edit: Option<(Range, Seq<char>)>,
}

pub open spec fn opt_view(o: Option<String>) -> Option<Seq<char>> {
    match o {
        Some(s) => Some(s@),
        None => None,
    }
}

impl View for CompletionItem {
    type V = ItemView;

    open spec fn view(&self) -> ItemView {
        ItemView {
            label: self.label@,
            kind: self.kind,
            detail: opt_view(self.detail),
            documentation: opt_view(self.documentation),
            insert_text: opt_view(self.insert_text),
            edit: match self.text_edit {
                Some(e) => Some((e.range, e.new_text@)),
                None => None,
            },
        }
    }
}

pub open spec fn items_view(items: Seq<CompletionItem>) -> Seq<ItemView> {
    items.map_values(|c: CompletionItem| c@)
}

/// `module.name`, or `name` alone.
pub open spec fn qualified_label(module: Option<Seq<char>>, name: Seq<char>) -> Seq<char> {
    match module {
        Some(m) => m + seq!['.'] + name,
        None => name,
    }
}

pub open spec fn type_item(module: Option<Seq<char>>, name: Seq<char>, t: TypeEntry) -> ItemView {
    ItemView {
        label: qualified_label(module, name),
        kind: Some(if t.is_variable { CompletionKind::Variable } else { CompletionKind::Class }),
        detail: Some(t.type_text@),
        documentation: opt_view(t.documentation),
        insert_text: None,
        edit: None,
    }
}

pub open spec fn value_kind(v: ValueVariant) -> CompletionKind {
    match v {
        ValueVariant::LocalVariable => CompletionKind::Variable,
        ValueVariant::ModuleConstant { .. } => CompletionKind::Constant,
        ValueVariant::LocalConstant => CompletionKind::Constant,
        ValueVariant::ModuleFn { .. } => CompletionKind::Function,
        ValueVariant::Record { arity } => if arity == 0 {
            CompletionKind::EnumMember
        } else {
            CompletionKind::Constructor
        },
    }
}

pub open spec fn value_item(module: Option<Seq<char>>, name: Seq<char>, v: ValueEntry) -> ItemView {
    ItemView {
        label: qualified_label(module, name),
        kind: Some(value_kind(v.variant)),
        detail: Some(v.type_text@),
        documentation: opt_view(v.documentation),
        insert_text: None,
        edit: None,
    }
}

pub fn copy_opt(o: &Option<String>) -> (r: Option<String>)
    ensures
        opt_view(r) == opt_view(*o),
{
    match o {
        Some(s) => Some(s.clone()),
        None => None,
    }
}

fn label(module: Option<&String>, name: &String) -> (r: String)
    ensures
        r@ == qualified_label(
            match module {
                Some(m) => Some(m@),
                None => None,
            },
            name@,
        ),
{
    match module {
        Some(m) => {
            let mut l = m.clone();
            l.append(".");
            l.append(name.as_str());
            proof {
                reveal_strlit(".");
            }
            l
        },
        None => name.clone(),
    }
}

/// Completion item for a type, qualified by `module` when given.
pub fn type_completion(module: Option<&String>, name: &String, type_: &TypeEntry) -> (r: CompletionItem)
    ensures
        r@ == type_item(
            match module {
                Some(m) => Some(m@),
                None => None,
            },
            name@,
            *type_,
        ),
{
    let kind = if type_.is_variable { CompletionKind::Variable } else { CompletionKind::Class };
    CompletionItem {
        label: label(module, name),
        kind: Some(kind),
        detail: Some(type_.type_text.clone()),
        documentation: copy_opt(&type_.documentation),
        insert_text: None,
        text_edit: None,
    }
}

/// Completion item for a value, qualified by `module` when given.
pub fn value_completion(module: Option<&String>, name: &String, value: &ValueEntry) -> (r: CompletionItem)
    ensures
        r@ == value_item(
            match module {
                Some(m) => Some(m@),
                None => None,
            },
            name@,
            *value,
        ),
{
    let kind = match &value.variant {
        ValueVariant::LocalVariable => CompletionKind::Variable,
        ValueVariant::ModuleConstant { .. } => CompletionKind::Constant,
        ValueVariant::LocalConstant => CompletionKind::Constant,
        ValueVariant::ModuleFn { .. } => CompletionKind::Function,
        ValueVariant::Record { arity } => if *arity == 0 {
            CompletionKind::EnumMember
        } else {
            CompletionKind::Constructor
        },
    };
    CompletionItem {
        label: label(module, name),
        kind: Some(kind),
        detail: Some(value.type_text.clone()),
        documentation: copy_opt(&value.documentation),
        insert_text: None,
        text_edit: None,
    }
}

} // verus!
