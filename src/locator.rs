use vstd::prelude::*;
use crate::ast::{Node, Span};
use crate::search::{first_index, lemma_first_index};

verus! {

broadcast use vstd::std_specs::vec::group_vec_axioms;

/// A span holds an offset when the offset is inside it; the offset where a
/// span ends belongs to whatever starts there, and an empty span holds its own offset.
pub open spec fn holds(span: Span, offset: usize) -> bool {
    (span.start <= offset && offset < span.end) || (span.start == offset && offset == span.end)
}

pub open spec fn holds_at(offset: usize) -> spec_fn(Node) -> bool {
    |n: Node| holds(n.span, offset)
}

/// Index of the first node of `nodes` whose span holds `offset`, or -1.
pub open spec fn first_hit(nodes: Seq<Node>, offset: usize) -> int {
    first_index(nodes, holds_at(offset))
}

proof fn lemma_first_hit(nodes: Seq<Node>, offset: usize)
    ensures
        -1 <= first_hit(nodes, offset) < nodes.len(),
        first_hit(nodes, offset) >= 0 ==> holds(nodes[first_hit(nodes, offset)].span, offset),
        forall|i: int| 0 <= i < nodes.len() && (first_hit(nodes, offset) < 0 || i < first_hit(nodes, offset))
            ==> !holds(#[trigger] nodes[i].span, offset),
{
    lemma_first_index(nodes, holds_at(offset));
}

/// The deepest node under `n` that holds `offset`.
pub open spec fn locate(n: Node, offset: usize) -> Option<Node>
    decreases n,
{
    if !holds(n.span, offset) {
        None
    } else {
        let k = first_hit(n.children@, offset);
        if 0 <= k < n.children@.len() {
            locate(n.children@[k], offset)
        } else {
            Some(n)
        }
    }
}

/// The deepest node of a module's definitions that holds `offset`.
pub open spec fn locate_in(definitions: Seq<Node>, offset: usize) -> Option<Node> {
    let k = first_hit(definitions, offset);
    if 0 <= k < definitions.len() {
        locate(definitions[k], offset)
    } else {
        None
    }
}

/// `m` is `n` or lies somewhere below it.
pub open spec fn within_tree(n: Node, m: Node) -> bool
    decreases n,
{
    n == m || exists|i: int| 0 <= i < n.children@.len() && within_tree(#[trigger] n.children@[i], m)
}

/// `m` is one of the definitions or lies below one.
pub open spec fn within_module(definitions: Seq<Node>, m: Node) -> bool {
    exists|i: int| 0 <= i < definitions.len() && within_tree(#[trigger] definitions[i], m)
}

/// Finds the deepest node under `n` whose span holds `offset`.
pub fn find_in_node<'a>(n: &'a Node, offset: usize) -> (r: Option<&'a Node>)
    ensures
        r is Some <==> locate(*n, offset) is Some,
        r matches Some(m) ==> locate(*n, offset) == Some(*m),
    decreases n,
{
    if !(n.span.start <= offset && offset < n.span.end) && !(n.span.start == offset && offset == n.span.end) {
        return None;
    }
    proof {
        lemma_first_hit(n.children@, offset);
    }
    let mut i: usize = 0;
    while i < n.children.len()
        invariant
            i <= n.children@.len(),
            holds(n.span, offset),
            forall|j: int| 0 <= j < i ==> !holds(#[trigger] n.children@[j].span, offset),
            first_hit(n.children@, offset) < 0 || i <= first_hit(n.children@, offset),
        decreases n.children@.len() - i,
    {
        proof {
            lemma_first_hit(n.children@, offset);
        }
        let c = &n.children[i];
        if (c.span.start <= offset && offset < c.span.end) || (c.span.start == offset && offset == c.span.end) {
            assert(first_hit(n.children@, offset) == i);
            return find_in_node(c, offset);
        }
        i = i + 1;
    }
    Some(n)
}

/// Finds the deepest node of a module whose span holds `offset`.
pub fn find_node(definitions: &Vec<Node>, offset: usize) -> (r: Option<&Node>)
    ensures
        r is Some <==> locate_in(definitions@, offset) is Some,
        r matches Some(m) ==> locate_in(definitions@, offset) == Some(*m),
{
    proof {
        lemma_first_hit(definitions@, offset);
    }
    let mut i: usize = 0;
    while i < definitions.len()
        invariant
            i <= definitions@.len(),
            forall|j: int| 0 <= j < i ==> !holds(#[trigger] definitions@[j].span, offset),
            first_hit(definitions@, offset) < 0 || i <= first_hit(definitions@, offset),
        decreases definitions@.len() - i,
    {
        proof {
            lemma_first_hit(definitions@, offset);
        }
        let c = &definitions[i];
        if (c.span.start <= offset && offset < c.span.end) || (c.span.start == offset && offset == c.span.end) {
            assert(first_hit(definitions@, offset) == i);
            return find_in_node(c, offset);
        }
        i = i + 1;
    }
    None
}

proof fn lemma_locate_sound(n: Node, offset: usize)
    ensures
        locate(n, offset) matches Some(m) ==> holds(m.span, offset) && within_tree(n, m)
            && first_hit(m.children@, offset) < 0,
        holds(n.span, offset) ==> locate(n, offset) is Some,
    decreases n,
{
    if holds(n.span, offset) {
        lemma_first_hit(n.children@, offset);
        let k = first_hit(n.children@, offset);
        if 0 <= k < n.children@.len() {
            lemma_locate_sound(n.children@[k], offset);
        }
    }
}

/// What the locator returns holds the offset, is the deepest such node, and
/// belongs to the module searched; nothing is returned only where no
/// definition holds the offset.
pub proof fn lemma_located_in_module(definitions: Seq<Node>, offset: usize)
    ensures
        locate_in(definitions, offset) matches Some(m) ==> holds(m.span, offset)
            && within_module(definitions, m)
            && forall|i: int| 0 <= i < m.children@.len() ==> !holds(#[trigger] m.children@[i].span, offset),
        locate_in(definitions, offset) is None <==> forall|i: int| 0 <= i < definitions.len() ==> !holds(#[trigger] definitions[i].span, offset),
{
    lemma_first_hit(definitions, offset);
    let k = first_hit(definitions, offset);
    if 0 <= k < definitions.len() {
        lemma_locate_sound(definitions[k], offset);
        if let Some(m) = locate_in(definitions, offset) {
            lemma_first_hit(m.children@, offset);
        }
    }
}

/// At an offset where one node ends and the next begins, the node found is
/// never one that ends there: the boundary belongs to what follows.
pub proof fn lemma_boundary_goes_forward(definitions: Seq<Node>, offset: usize)
    ensures
        locate_in(definitions, offset) matches Some(m) ==> m.span.start <= offset
            && (offset < m.span.end || m.span.start == m.span.end),
{
    lemma_located_in_module(definitions, offset);
}

/// Where a token ends at `offset` and the next one starts there, locating at
/// `offset` lands in the following token, never in the one that ends there.
pub proof fn lemma_boundary_belongs_to_following(definitions: Seq<Node>, before: int, after: int, offset: usize)
    requires
        0 <= before < after < definitions.len(),
        definitions[before].span.start < offset,
        definitions[before].span.end == offset,
        definitions[after].span.start == offset,
        offset < definitions[after].span.end,
        forall|k: int| 0 <= k < after ==> (#[trigger] definitions[k]).span.end <= offset
            && definitions[k].span.start < definitions[k].span.end,
    ensures
        locate_in(definitions, offset) matches Some(m) && within_tree(definitions[after], m),
        locate_in(definitions, offset) != Some(definitions[before]),
{
    lemma_first_hit(definitions, offset);
    assert(holds(definitions[after].span, offset));
    assert(first_hit(definitions, offset) == after) by {
        if first_hit(definitions, offset) < after {
            let k = first_hit(definitions, offset);
            assert(holds(definitions[k].span, offset));
        }
    }
    lemma_locate_sound(definitions[after], offset);
    lemma_located_in_module(definitions, offset);
}

/// Spans of sibling nodes are in order and do not overlap.
pub open spec fn siblings_ordered(nodes: Seq<Node>) -> bool {
    forall|i: int, j: int| 0 <= i < j < nodes.len() ==> (#[trigger] nodes[i]).span.end <= (#[trigger] nodes[j]).span.start
}

/// A well-formed tree: every span is ordered, every child lies inside its
/// parent, and siblings are in order without overlap.
pub open spec fn tree_wf(n: Node) -> bool
    decreases n,
{
    &&& n.span.start <= n.span.end
    &&& siblings_ordered(n.children@)
    &&& forall|i: int| 0 <= i < n.children@.len() ==> {
        &&& n.span.start <= (#[trigger] n.children@[i]).span.start
        &&& n.children@[i].span.end <= n.span.end
        &&& tree_wf(n.children@[i])
    }
}

/// Module-level definitions that are each well formed and in order.
pub open spec fn module_wf(definitions: Seq<Node>) -> bool {
    &&& siblings_ordered(definitions)
    &&& forall|i: int| 0 <= i < definitions.len() ==> tree_wf(#[trigger] definitions[i])
}

proof fn lemma_subtree_inside(n: Node, m: Node)
    requires
        tree_wf(n),
        within_tree(n, m),
    ensures
        n.span.start <= m.span.start,
        m.span.end <= n.span.end,
        tree_wf(m),
    decreases n,
{
    if n != m {
        let i = choose|i: int| 0 <= i < n.children@.len() && within_tree(#[trigger] n.children@[i], m);
        lemma_subtree_inside(n.children@[i], m);
    }
}

proof fn lemma_boundary_in_tree(n: Node, b: Node, offset: usize)
    requires
        tree_wf(n),
        within_tree(n, b),
        b.span.start == offset,
        offset < b.span.end,
    ensures
        locate(n, offset) matches Some(m) && m.span.start == offset,
    decreases n,
{
    lemma_subtree_inside(n, b);
    lemma_locate_sound(n, offset);
    if n == b {
        let m = locate(n, offset).unwrap();
        lemma_subtree_inside(n, m);
    } else {
        let i = choose|i: int| 0 <= i < n.children@.len() && within_tree(#[trigger] n.children@[i], b);
        let c = n.children@[i];
        lemma_subtree_inside(c, b);
        lemma_first_hit(n.children@, offset);
        let k = first_hit(n.children@, offset);
        assert(holds(c.span, offset));
        if k == i {
            lemma_boundary_in_tree(c, b, offset);
        } else {
            let d = n.children@[k];
            assert(k < i);
            assert(d.span.end <= c.span.start);
            lemma_locate_sound(d, offset);
            let m = locate(d, offset).unwrap();
            lemma_subtree_inside(d, m);
        }
    }
}

/// In a well-formed module, wherever some node starts at `offset`, the node
/// found at `offset` starts there too: a boundary shared by a node that ends
/// and one that begins belongs to the one that begins, at any depth.
pub proof fn lemma_boundary_belongs_to_starting_node(definitions: Seq<Node>, b: Node, offset: usize)
    requires
        module_wf(definitions),
        within_module(definitions, b),
        b.span.start == offset,
        offset < b.span.end,
    ensures
        locate_in(definitions, offset) matches Some(m) && m.span.start == offset && holds(m.span, offset),
{
    let i = choose|i: int| 0 <= i < definitions.len() && within_tree(#[trigger] definitions[i], b);
    let c = definitions[i];
    lemma_subtree_inside(c, b);
    lemma_first_hit(definitions, offset);
    let k = first_hit(definitions, offset);
    assert(holds(c.span, offset));
    lemma_located_in_module(definitions, offset);
    if k == i {
        lemma_boundary_in_tree(c, b, offset);
    } else {
        let d = definitions[k];
        assert(k < i);
        lemma_locate_sound(d, offset);
        let m = locate(d, offset).unwrap();
        lemma_subtree_inside(d, m);
    }
}

} // verus!
