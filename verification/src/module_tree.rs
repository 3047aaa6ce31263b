//! The module tree of one ingot: which top-level module (one per file) is
//! the child of which, derived from the project structure alone. A file
//! `mod2/bar.fe` is a child of the file `mod2.fe`; a file without such a
//! parent file floats outside the main tree. Name resolution walks this
//! tree later.

use vstd::prelude::*;

use crate::IdentId;

verus! {

/// A stable identifier for a top-level module (one per source file).
#[derive(Clone, Copy, Debug, PartialEq, Eq, Structural, Hash)]
pub struct ModId(pub u32);

/// An opaque identifier for a module tree node.
#[derive(Clone, Copy, Debug, PartialEq, Eq, Structural, Hash)]
pub struct ModuleTreeNodeId(pub u32);

/// One source file of the ingot: its path as directory segments followed by
/// the file stem, the top-level module it holds, and that module's name.
pub struct ModFile {
    pub path: Vec<IdentId>,
    pub top_mod: ModId,
    pub mod_name: IdentId,
}

/// A top-level module in the tree: the module, its name, its parent (none
/// for the root and for floating modules), and its children in file order.
pub struct ModuleTreeNode {
    pub top_mod: ModId,
    pub mod_name: IdentId,
    pub parent: Option<ModuleTreeNodeId>,
    pub children: Vec<ModuleTreeNodeId>,
}

impl ModuleTreeNode {
    /// The name of the node's top-level module.
    pub fn name(&self) -> (r: IdentId)
        ensures
            r == self.mod_name,
    {
        self.mod_name
    }
}

/// The module tree of one ingot: one node per file, the root node first in
/// the arena order of the files handed in.
pub struct ModuleTree {
    pub root: ModuleTreeNodeId,
    pub nodes: Vec<ModuleTreeNode>,
}

/// The directory part of a segment path: everything but the stem.
pub open spec fn dir_of(path: Seq<IdentId>) -> Seq<IdentId> {
    path.take(path.len() - 1)
}

/// The parent node the build rule assigns to file `i`: the root for the
/// root file's directory siblings, else the file whose path names the
/// file's own directory, else none (a floating module).
pub open spec fn spec_parent_of(files: Seq<ModFile>, root: int, i: int) -> Option<int> {
    if i == root {
        None
    } else if dir_of(files[i].path@) =~= dir_of(files[root].path@) {
        Some(root)
    } else {
        first_file_with_path(files, dir_of(files[i].path@), 0)
    }
}

/// The first file whose path equals `path`, from `j` on.
pub open spec fn first_file_with_path(files: Seq<ModFile>, path: Seq<IdentId>, j: int) -> Option<
    int,
>
    decreases files.len() - j,
{
    if j < 0 || j >= files.len() {
        None
    } else if files[j].path@ =~= path {
        Some(j)
    } else {
        first_file_with_path(files, path, j + 1)
    }
}

/// The first node holding `top_mod`, from `j` on.
pub open spec fn first_node_of_mod(nodes: Seq<ModuleTreeNode>, top_mod: ModId, j: int) -> Option<
    int,
>
    decreases nodes.len() - j,
{
    if j < 0 || j >= nodes.len() {
        None
    } else if nodes[j].top_mod == top_mod {
        Some(j)
    } else {
        first_node_of_mod(nodes, top_mod, j + 1)
    }
}

impl ModuleTree {
    /// Whether `id` names a node of this tree.
    pub open spec fn holds(self, id: ModuleTreeNodeId) -> bool {
        id.0 < self.nodes@.len()
    }

    /// The node id of `top_mod`, if any node holds it.
    pub open spec fn spec_tree_node(self, top_mod: ModId) -> Option<int> {
        first_node_of_mod(self.nodes@, top_mod, 0)
    }

    /// The node of `id`.
    pub fn node_data(&self, id: ModuleTreeNodeId) -> (r: &ModuleTreeNode)
        requires
            self.holds(id),
        ensures
            *r == self.nodes@[id.0 as int],
    {
        &self.nodes[id.0 as usize]
    }

    /// The root of the tree, the node of the ingot root file.
    pub fn root(&self) -> (r: ModuleTreeNodeId)
        ensures
            r == self.root,
    {
        self.root
    }

    /// The node of the ingot root file.
    pub fn root_data(&self) -> (r: &ModuleTreeNode)
        requires
            self.holds(self.root),
        ensures
            *r == self.nodes@[self.root.0 as int],
    {
        self.node_data(self.root)
    }

    /// Whether the arena is small enough for node ids to address.
    pub open spec fn wf(self) -> bool {
        self.nodes@.len() < 0x1_0000_0000
    }

    /// The node id of the given top-level module, if it is in the tree:
    /// the first node holding it.
    pub fn tree_node(&self, top_mod: ModId) -> (r: Option<ModuleTreeNodeId>)
        requires
            self.wf(),
        ensures
            r == (match self.spec_tree_node(top_mod) {
                Some(k) => Some(ModuleTreeNodeId(k as u32)),
                None => None::<ModuleTreeNodeId>,
            }),
            r matches Some(id) ==> self.holds(id) && self.nodes@[id.0 as int].top_mod == top_mod,
    {
        tree_node_from(&self.nodes, top_mod, 0)
    }

    /// The node of the given top-level module, if it is in the tree.
    pub fn tree_node_data(&self, top_mod: ModId) -> (r: Option<&ModuleTreeNode>)
        requires
            self.wf(),
        ensures
            match r {
                Some(n) => self.spec_tree_node(top_mod) is Some && *n == self.nodes@[self.spec_tree_node(
                    top_mod,
                )->0] && n.top_mod == top_mod,
                None => self.spec_tree_node(top_mod) is None,
            },
    {
        proof {
            lemma_first_node_bounds(self.nodes@, top_mod, 0);
        }
        match self.tree_node(top_mod) {
            Some(id) => {
                proof {
                    lemma_first_node_bounds(self.nodes@, top_mod, 0);
                }
                let n = self.node_data(id);
                Some(n)
            },
            None => None,
        }
    }

    /// All top-level modules of the tree, in arena order.
    pub fn all_modules(&self) -> (r: Vec<ModId>)
        ensures
            r@.len() == self.nodes@.len(),
            forall|k: int| 0 <= k < r@.len() ==> #[trigger] r@[k] == self.nodes@[k].top_mod,
    {
        let mut out: Vec<ModId> = Vec::new();
        let mut i: usize = 0;
        while i < self.nodes.len()
            invariant
                0 <= i <= self.nodes@.len(),
                out@.len() == i,
                forall|k: int| 0 <= k < i ==> #[trigger] out@[k] == self.nodes@[k].top_mod,
            decreases self.nodes@.len() - i,
        {
            out.push(self.nodes[i].top_mod);
            i = i + 1;
        }
        out
    }

    /// The parent module of the given top-level module: the module of the
    /// node its node records as parent, where that module is in the tree.
    pub fn parent(&self, top_mod: ModId) -> (r: Option<ModId>)
        requires
            self.wf(),
        ensures
            r == (match self.spec_tree_node(top_mod) {
                None => None::<ModId>,
                Some(k) => match self.nodes@[k].parent {
                    None => None::<ModId>,
                    Some(p) => if p.0 < self.nodes@.len() {
                        Some(self.nodes@[p.0 as int].top_mod)
                    } else {
                        None::<ModId>
                    },
                },
            }),
    {
        proof {
            lemma_first_node_bounds(self.nodes@, top_mod, 0);
        }
        match self.tree_node(top_mod) {
            Some(id) => {
                match self.node_data(id).parent {
                    Some(p) => {
                        if (p.0 as usize) < self.nodes.len() {
                            Some(self.node_data(p).top_mod)
                        } else {
                            None
                        }
                    },
                    None => None,
                }
            },
            None => None,
        }
    }

    /// The modules of the in-tree entries of `ids`, taken from the first
    /// `upto`, in order.
    pub open spec fn spec_child_mods(self, ids: Seq<ModuleTreeNodeId>, upto: int) -> Seq<ModId>
        decreases upto,
    {
        if upto <= 0 {
            Seq::empty()
        } else {
            let prev = self.spec_child_mods(ids, upto - 1);
            if ids[upto - 1].0 < self.nodes@.len() {
                prev.push(self.nodes@[ids[upto - 1].0 as int].top_mod)
            } else {
                prev
            }
        }
    }

    /// The child modules of the given top-level module, in insertion order.
    pub fn children(&self, top_mod: ModId) -> (r: Vec<ModId>)
        requires
            self.wf(),
        ensures
            r@ == (match self.spec_tree_node(top_mod) {
                None => Seq::<ModId>::empty(),
                Some(k) => self.spec_child_mods(
                    self.nodes@[k].children@,
                    self.nodes@[k].children@.len() as int,
                ),
            }),
    {
        proof {
            lemma_first_node_bounds(self.nodes@, top_mod, 0);
        }
        let mut out: Vec<ModId> = Vec::new();
        match self.tree_node(top_mod) {
            Some(id) => {
                let n = self.node_data(id);
                let mut i: usize = 0;
                while i < n.children.len()
                    invariant
                        *n == self.nodes@[id.0 as int],
                        id.0 < self.nodes@.len(),
                        0 <= i <= n.children@.len(),
                        out@ == self.spec_child_mods(n.children@, i as int),
                    decreases n.children@.len() - i,
                {
                    let c = n.children[i];
                    if (c.0 as usize) < self.nodes.len() {
                        let cm = self.nodes[c.0 as usize].top_mod;
                        out.push(cm);
                    }
                    i = i + 1;
                }
            },
            None => {
                proof {
                    assert(out@ =~= Seq::<ModId>::empty());
                }
            },
        }
        out
    }
}

/// First-match search of the node arena, mirroring [`first_node_of_mod`].
fn tree_node_from(nodes: &Vec<ModuleTreeNode>, top_mod: ModId, j: usize) -> (r: Option<
    ModuleTreeNodeId,
>)
    requires
        nodes@.len() < 0x1_0000_0000,
        j <= nodes@.len(),
    ensures
        r == (match first_node_of_mod(nodes@, top_mod, j as int) {
            Some(k) => Some(ModuleTreeNodeId(k as u32)),
            None => None::<ModuleTreeNodeId>,
        }),
        r matches Some(id) ==> id.0 < nodes@.len() && nodes@[id.0 as int].top_mod == top_mod,
    decreases nodes@.len() - j,
{
    if j == nodes.len() {
        None
    } else if nodes[j].top_mod == top_mod {
        Some(ModuleTreeNodeId(j as u32))
    } else {
        tree_node_from(nodes, top_mod, j + 1)
    }
}

/// A successful node search lands in range, on the module searched for.
proof fn lemma_first_node_bounds(nodes: Seq<ModuleTreeNode>, top_mod: ModId, j: int)
    requires
        0 <= j,
    ensures
        match first_node_of_mod(nodes, top_mod, j) {
            Some(k) => j <= k < nodes.len() && nodes[k].top_mod == top_mod,
            None => true,
        },
    decreases nodes.len() - j,
{
    if j < nodes.len() && nodes[j].top_mod != top_mod {
        lemma_first_node_bounds(nodes, top_mod, j + 1);
    }
}

/// Whether `v` equals `w` element-wise.
fn paths_equal(v: &Vec<IdentId>, w: &Vec<IdentId>) -> (r: bool)
    ensures
        r == (v@ =~= w@),
{
    if v.len() != w.len() {
        return false;
    }
    let mut i: usize = 0;
    while i < v.len()
        invariant
            v@.len() == w@.len(),
            0 <= i <= v@.len(),
            forall|k: int| 0 <= k < i ==> v@[k] == w@[k],
        decreases v@.len() - i,
    {
        if v[i] != w[i] {
            return false;
        }
        i = i + 1;
    }
    true
}

/// Whether the directory parts of two paths are equal.
fn dirs_equal(v: &Vec<IdentId>, w: &Vec<IdentId>) -> (r: bool)
    requires
        v@.len() > 0,
        w@.len() > 0,
    ensures
        r == (dir_of(v@) =~= dir_of(w@)),
{
    if v.len() != w.len() {
        proof {
            assert(dir_of(v@).len() != dir_of(w@).len());
        }
        return false;
    }
    let mut i: usize = 0;
    while i < v.len() - 1
        invariant
            v@.len() == w@.len(),
            v@.len() > 0,
            0 <= i <= v@.len() - 1,
            forall|k: int| 0 <= k < i ==> v@[k] == w@[k],
        decreases v@.len() - 1 - i,
    {
        if v[i] != w[i] {
            proof {
                assert(dir_of(v@)[i as int] != dir_of(w@)[i as int]);
            }
            return false;
        }
        i = i + 1;
    }
    proof {
        assert forall|k: int| 0 <= k < dir_of(v@).len() implies dir_of(v@)[k] == dir_of(
            w@,
        )[k] by {}
    }
    true
}

/// The first file whose path names `dir`, mirroring
/// [`first_file_with_path`].
fn find_file_with_dir(files: &Vec<ModFile>, of: usize, j: usize) -> (r: Option<usize>)
    requires
        of < files@.len(),
        files@[of as int].path@.len() > 0,
        j <= files@.len(),
    ensures
        match r {
            Some(k) => first_file_with_path(files@, dir_of(files@[of as int].path@), j as int)
                == Some(k as int) && k < files@.len(),
            None => first_file_with_path(files@, dir_of(files@[of as int].path@), j as int)
                is None,
        },
    decreases files@.len() - j,
{
    if j == files.len() {
        None
    } else {
        let target_len = files[of].path.len() - 1;
        let candidate_matches: bool = if files[j].path.len() != target_len {
            false
        } else {
            let mut i: usize = 0;
            let mut all: bool = true;
            while i < target_len
                invariant
                    of < files@.len(),
                    j < files@.len(),
                    target_len == files@[of as int].path@.len() - 1,
                    files@[j as int].path@.len() == target_len,
                    0 <= i <= target_len,
                    all <==> forall|k: int|
                        0 <= k < i ==> files@[j as int].path@[k] == files@[of as int].path@[k],
                decreases target_len - i,
            {
                if files[j].path[i] != files[of].path[i] {
                    all = false;
                }
                i = i + 1;
            }
            all
        };
        if candidate_matches {
            proof {
                assert(files@[j as int].path@ =~= dir_of(files@[of as int].path@));
            }
            Some(j)
        } else {
            proof {
                assert(!(files@[j as int].path@ =~= dir_of(files@[of as int].path@)));
            }
            find_file_with_dir(files, of, j + 1)
        }
    }
}

/// A successful path search lands in range, on a matching path.
proof fn lemma_first_file_bounds(files: Seq<ModFile>, path: Seq<IdentId>, j: int)
    requires
        0 <= j,
    ensures
        match first_file_with_path(files, path, j) {
            Some(k) => j <= k < files.len(),
            None => true,
        },
    decreases files.len() - j,
{
    if j < files.len() && !(files[j].path@ =~= path) {
        lemma_first_file_bounds(files, path, j + 1);
    }
}

/// The children the build rule gives node `parent`: the ids of the files
/// among the first `upto` whose parent it is, in file order.
pub open spec fn spec_children_list(
    files: Seq<ModFile>,
    root: int,
    parent: int,
    upto: int,
) -> Seq<ModuleTreeNodeId>
    decreases upto,
{
    if upto <= 0 {
        Seq::empty()
    } else {
        let prev = spec_children_list(files, root, parent, upto - 1);
        if spec_parent_of(files, root, upto - 1) == Some(parent) {
            prev.push(ModuleTreeNodeId((upto - 1) as u32))
        } else {
            prev
        }
    }
}

/// Builds the module tree from the ingot's files: one node per file, in
/// file order; every non-root file in the root file's directory is a child
/// of the root; every other file is a child of the file its directory is
/// named after, where that file exists, and floats otherwise. Children are
/// recorded in file order.
pub fn module_tree_from_files(files: &Vec<ModFile>, root: usize) -> (r: ModuleTree)
    requires
        root < files@.len(),
        files@.len() < 0x1_0000_0000,
        forall|i: int| 0 <= i < files@.len() ==> (#[trigger] files@[i]).path@.len() > 0,
    ensures
        r.root.0 == root,
        r.nodes@.len() == files@.len(),
        forall|i: int|
            0 <= i < files@.len() ==> (#[trigger] r.nodes@[i]).top_mod == files@[i].top_mod
                && r.nodes@[i].mod_name == files@[i].mod_name,
        forall|i: int|
            0 <= i < files@.len() ==> (#[trigger] r.nodes@[i]).parent == (match spec_parent_of(
                files@,
                root as int,
                i,
            ) {
                Some(p) => Some(ModuleTreeNodeId(p as u32)),
                None => None::<ModuleTreeNodeId>,
            }),
        forall|i: int|
            0 <= i < files@.len() ==> (#[trigger] r.nodes@[i]).children@ == spec_children_list(
                files@,
                root as int,
                i,
                files@.len() as int,
            ),
{
    let mut nodes: Vec<ModuleTreeNode> = Vec::new();
    let mut i: usize = 0;
    while i < files.len()
        invariant
            root < files@.len(),
            files@.len() < 0x1_0000_0000,
            forall|k: int| 0 <= k < files@.len() ==> (#[trigger] files@[k]).path@.len() > 0,
            0 <= i <= files@.len(),
            nodes@.len() == i,
            forall|k: int|
                0 <= k < i ==> (#[trigger] nodes@[k]).top_mod == files@[k].top_mod
                    && nodes@[k].mod_name == files@[k].mod_name,
            forall|k: int|
                0 <= k < i ==> (#[trigger] nodes@[k]).parent == (match spec_parent_of(
                    files@,
                    root as int,
                    k,
                ) {
                    Some(p) => Some(ModuleTreeNodeId(p as u32)),
                    None => None::<ModuleTreeNodeId>,
                }),
            forall|k: int|
                0 <= k < i ==> (#[trigger] nodes@[k]).children@ == Seq::<ModuleTreeNodeId>::empty(),
        decreases files@.len() - i,
    {
        let parent: Option<ModuleTreeNodeId> = if i == root {
            None
        } else if dirs_equal(&files[i].path, &files[root].path) {
            Some(ModuleTreeNodeId(root as u32))
        } else {
            match find_file_with_dir(files, i, 0) {
                Some(p) => Some(ModuleTreeNodeId(p as u32)),
                None => None,
            }
        };
        let fresh: Vec<ModuleTreeNodeId> = Vec::new();
        proof {
            assert(fresh@ =~= Seq::<ModuleTreeNodeId>::empty());
        }
        nodes.push(
            ModuleTreeNode {
                top_mod: files[i].top_mod,
                mod_name: files[i].mod_name,
                parent,
                children: fresh,
            },
        );
        i = i + 1;
    }

    // Record each node in its parent's child list, in file order.
    let ghost nodes_before = nodes@;
    let mut c: usize = 0;
    while c < nodes.len()
        invariant
            root < files@.len(),
            nodes@.len() == nodes_before.len(),
            nodes_before.len() == files@.len(),
            files@.len() < 0x1_0000_0000,
            0 <= c <= nodes@.len(),
            forall|k: int|
                0 <= k < nodes@.len() ==> (#[trigger] nodes@[k]).top_mod == nodes_before[k].top_mod
                    && nodes@[k].mod_name == nodes_before[k].mod_name && nodes@[k].parent
                    == nodes_before[k].parent,
            forall|k: int|
                0 <= k < nodes@.len() ==> (#[trigger] nodes@[k]).parent == (match spec_parent_of(
                    files@,
                    root as int,
                    k,
                ) {
                    Some(p) => Some(ModuleTreeNodeId(p as u32)),
                    None => None::<ModuleTreeNodeId>,
                }),
            forall|k: int|
                0 <= k < nodes@.len() ==> (#[trigger] nodes@[k]).children@ == spec_children_list(
                    files@,
                    root as int,
                    k,
                    c as int,
                ),
        decreases nodes@.len() - c,
    {
        let ghost before = nodes@;
        let parent = nodes[c].parent;
        match parent {
            Some(p) => {
                proof {
                    if first_file_with_path(files@, dir_of(files@[c as int].path@), 0) is Some {
                        lemma_first_file_bounds(files@, dir_of(files@[c as int].path@), 0);
                    }
                }
                if (p.0 as usize) < nodes.len() {
                    let child_id = ModuleTreeNodeId(c as u32);
                    nodes[p.0 as usize].children.push(child_id);
                    proof {
                        assert forall|k: int| 0 <= k < nodes@.len() implies (
                        #[trigger] nodes@[k]).children@ == spec_children_list(
                            files@,
                            root as int,
                            k,
                            c as int + 1,
                        ) by {
                            if k == p.0 as int {
                                assert(spec_parent_of(files@, root as int, c as int) == Some(k));
                            } else {
                                assert(nodes@[k] == before[k]);
                                assert(spec_parent_of(files@, root as int, c as int) != Some(k));
                            }
                        }
                    }
                } else {
                    proof {
                        assert(false);
                    }
                }
            },
            None => {
                proof {
                    assert forall|k: int| 0 <= k < nodes@.len() implies (
                    #[trigger] nodes@[k]).children@ == spec_children_list(
                        files@,
                        root as int,
                        k,
                        c as int + 1,
                    ) by {
                        assert(spec_parent_of(files@, root as int, c as int) != Some(k));
                    }
                }
            },
        }
        c = c + 1;
    }
    proof {
        assert forall|i2: int| 0 <= i2 < files@.len() implies (#[trigger] nodes@[i2]).top_mod
            == files@[i2].top_mod && nodes@[i2].mod_name == files@[i2].mod_name by {}
    }
    ModuleTree { root: ModuleTreeNodeId(root as u32), nodes }
}

} // verus!
