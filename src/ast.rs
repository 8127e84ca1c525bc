use vstd::prelude::*;
use crate::visibility::Publicity;

verus! {

/// A half-open span of byte offsets in a module's source.
#[derive(Clone, Copy, Debug, PartialEq, Eq, Structural)]
pub struct Span {
    pub start: usize,
    pub end: usize,
}

/// Whether a module belongs to the main build or to the test build.
#[derive(Clone, Copy, Debug, PartialEq, Eq, Structural)]
pub enum Origin {
    Src,
    Test,
}

/// One name of an `import` that is brought in unqualified, possibly renamed.
#[derive(Debug)]
pub struct Unqualified {
    pub name: String,
    pub as_name: Option<String>,
}

impl Unqualified {
    pub open spec fn spec_used_name(&self) -> Seq<char> {
        match self.as_name {
            Some(a) => a@,
            None => self.name@,
        }
    }

    /// The name under which the item is visible in the importing module.
    pub fn used_name(&self) -> (r: &String)
        ensures
            r@ == self.spec_used_name(),
    {
        match &self.as_name {
            Some(a) => a,
            None => &self.name,
        }
    }
}

/// A parsed `import` statement of a module.
#[derive(Debug)]
pub struct Import {
    /// Name of the imported module.
    pub module: String,
    /// Package that the imported module belongs to.
    pub package: String,
    /// Name by which the module is referred to, if it can be referred to.
    pub used_name: Option<String>,
    pub unqualified_types: Vec<Unqualified>,
    pub unqualified_values: Vec<Unqualified>,
}

/// What a referenced value is, as far as completion and hover care.
#[derive(Debug)]
pub enum ValueVariant {
    LocalVariable,
    ModuleConstant { module: String },
    LocalConstant,
    ModuleFn { module: String },
    Record { arity: usize },
}

/// A type that a module defines or exposes.
#[derive(Debug)]
pub struct TypeEntry {
    pub name: String,
    pub publicity: Publicity,
    /// Whether the type is a type variable rather than a named type.
    pub is_variable: bool,
    /// The type, pretty-printed.
    pub type_text: String,
    pub documentation: Option<String>,
}

/// A value that a module defines or exposes.
#[derive(Debug)]
pub struct ValueEntry {
    pub name: String,
    pub publicity: Publicity,
    pub variant: ValueVariant,
    /// The value's type, pretty-printed.
    pub type_text: String,
    pub documentation: Option<String>,
}

/// The externally visible surface of a compiled module.
#[derive(Debug)]
pub struct ModuleInterface {
    pub name: String,
    pub package: String,
    pub origin: Origin,
    pub is_internal: bool,
    pub types: Vec<TypeEntry>,
    pub values: Vec<ValueEntry>,
}

/// The kind of a module-level definition.
#[derive(Debug)]
pub enum DefinitionKind {
    Function,
    TypeAlias,
    CustomType,
    Import { module: String },
    ModuleConstant,
}

/// What an expression refers to.
#[derive(Debug)]
pub enum ExprRef {
    /// A variable, with the constructor that it resolved to.
    Var { name: String, publicity: Publicity, variant: ValueVariant },
    /// `module.label`.
    ModuleSelect { module_name: String, label: String },
    Other,
}

/// The kind of a located node.
#[derive(Debug)]
pub enum NodeKind {
    Statement,
    Expression(ExprRef),
    Pattern,
    ModuleStatement(DefinitionKind),
    Arg,
    Annotation,
    UnqualifiedImport { name: String, module: String, is_type: bool },
    FunctionBody,
}

/// Where a definition lives: in another module, or in the same one.
#[derive(Debug)]
pub struct DefinitionLocation {
    pub module: Option<String>,
    pub span: Span,
}

/// A node of a typed module, with its children in source order.
#[derive(Debug)]
pub struct Node {
    pub span: Span,
    pub kind: NodeKind,
    /// The node's type, pretty-printed.
    pub type_text: String,
    pub documentation: Option<String>,
    pub definition: Option<DefinitionLocation>,
    pub children: Vec<Node>,
}

/// The typed syntax tree of a module and what the compiler recorded of it.
#[derive(Debug)]
pub struct ModuleAst {
    /// Module-level definitions, in source order.
    pub definitions: Vec<Node>,
    pub imports: Vec<Import>,
    /// Types defined by the module itself.
    pub types: Vec<TypeEntry>,
    /// Values defined by the module itself.
    pub values: Vec<ValueEntry>,
    pub unused_imports: Vec<Span>,
}

/// One compiled source file.
#[derive(Debug)]
pub struct Module {
    pub name: String,
    pub path: String,
    pub code: String,
    pub origin: Origin,
    pub package: String,
    pub is_internal: bool,
    pub ast: ModuleAst,
}

} // verus!
