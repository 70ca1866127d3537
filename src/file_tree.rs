use vstd::prelude::*;
use std::sync::Arc;

verus! {

/// An entry of the content tree: a directory with its children, or a page.
#[derive(Debug)]
pub struct FileNode {
    pub name: String,
    pub path: String,
    pub is_dir: bool,
    pub children: Vec<FileNode>,
}

pub struct NodeView {
    pub name: Seq<char>,
    pub path: Seq<char>,
    pub is_dir: bool,
    pub children: Seq<NodeView>,
}

/// The value of a node and, recursively, of its children.
pub open spec fn node_view(n: FileNode) -> NodeView
    decreases n, n.children@.len() + 1,
{
    NodeView { name: n.name@, path: n.path@, is_dir: n.is_dir, children: kids_view(n, 0) }
}

/// The values of the children `k..` of a node.
pub open spec fn kids_view(n: FileNode, k: int) -> Seq<NodeView>
    decreases n, n.children@.len() - k,
{
    if 0 <= k < n.children@.len() {
        seq![node_view(n.children@[k])] + kids_view(n, k + 1)
    } else {
        seq![]
    }
}

pub open spec fn forest_view(v: Seq<FileNode>) -> Seq<NodeView> {
    v.map_values(|n: FileNode| node_view(n))
}

/// A copy of a node and all its descendants.
pub fn copy_node(n: &FileNode) -> (r: FileNode)
    ensures
        node_view(r) == node_view(*n),
    decreases n,
{
    let mut kids: Vec<FileNode> = Vec::new();
    let mut i: usize = 0;
    while i < n.children.len()
        invariant
            i <= n.children@.len(),
            kids@.len() == i,
            forall|j: int| 0 <= j < i ==> node_view(#[trigger] kids@[j]) == node_view(n.children@[j]),
        decreases n.children.len() - i,
    {
        proof {
            assert(decreases_to!(n.children => n.children@[i as int]));
        }
        let c = copy_node(&n.children[i]);
        kids.push(c);
        i = i + 1;
    }
    let r = FileNode { name: n.name.clone(), path: n.path.clone(), is_dir: n.is_dir, children: kids };
    assert(kids_view(r, 0) =~= kids_view(*n, 0)) by {
        lemma_kids_same(r, *n, 0);
    }
    r
}

proof fn lemma_kids_same(a: FileNode, b: FileNode, k: int)
    requires
        0 <= k <= a.children@.len(),
        a.children@.len() == b.children@.len(),
        forall|j: int| 0 <= j < a.children@.len() ==> node_view(#[trigger] a.children@[j]) == node_view(b.children@[j]),
    ensures
        kids_view(a, k) == kids_view(b, k),
    decreases a.children@.len() - k,
{
    if k < a.children@.len() {
        lemma_kids_same(a, b, k + 1);
    }
}

/// A copy of the content tree.
pub fn get_file_tree(file_tree: &Arc<Vec<FileNode>>) -> (r: Vec<FileNode>)
    ensures
        forest_view(r@) == forest_view((**file_tree)@),
{
    let v: &Vec<FileNode> = &**file_tree;
    let mut out: Vec<FileNode> = Vec::new();
    let mut i: usize = 0;
    while i < v.len()
        invariant
            i <= v@.len(),
            out@.len() == i,
            forall|j: int| 0 <= j < i ==> node_view(#[trigger] out@[j]) == node_view(v@[j]),
        decreases v.len() - i,
    {
        out.push(copy_node(&v[i]));
        i = i + 1;
    }
    assert(forest_view(out@) =~= forest_view(v@));
    out
}

} // verus!
