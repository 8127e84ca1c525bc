use vstd::prelude::*;

verus! {

/// Declared visibility of a type or value.
#[derive(Clone, Copy, Debug, PartialEq, Eq, Structural)]
pub enum Publicity {
    Private,
    Internal,
    Public,
}

/// Whether an item of `owner_package` with the given publicity may ever be
/// offered to a module of `root_package`.
pub open spec fn suggestable(publicity: Publicity, owner_package: Seq<char>, root_package: Seq<char>) -> bool {
    match publicity {
        Publicity::Private => false,
        Publicity::Internal => owner_package == root_package,
        Publicity::Public => true,
    }
}

/// Decides whether an item may be suggested to the current module.
pub fn is_suggestable(publicity: Publicity, owner_package: &String, root_package: &String) -> (r: bool)
    ensures
        r == suggestable(publicity, owner_package@, root_package@),
{
    match publicity {
        Publicity::Private => false,
        Publicity::Internal => *owner_package == *root_package,
        Publicity::Public => true,
    }
}

/// Every triple is decided by the publicity table: private items are never
/// suggested, public ones always, internal ones only to their own package.
pub proof fn lemma_visibility_total(publicity: Publicity, owner_package: Seq<char>, root_package: Seq<char>)
    ensures
        publicity == Publicity::Private ==> !suggestable(publicity, owner_package, root_package),
        publicity == Publicity::Public ==> suggestable(publicity, owner_package, root_package),
        publicity == Publicity::Internal ==> (suggestable(publicity, owner_package, root_package)
            <==> owner_package == root_package),
{
}

} // verus!
