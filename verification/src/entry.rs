//! The display tree: one node per projected filesystem entry.

use vstd::prelude::*;

verus! {

/// The mathematical value of a [`FileEntry`]: a finite tree of labels.
pub struct TreeView {
    pub name: Seq<char>,
    pub icon: Seq<char>,
    pub children: Seq<TreeView>,
}

impl TreeView {
    /// A node without icon and without children.
    pub open spec fn leaf(name: Seq<char>) -> TreeView {
        TreeView { name, icon: Seq::empty(), children: Seq::empty() }
    }

    /// The labels of the direct children, in order.
    pub open spec fn child_names(self) -> Seq<Seq<char>> {
        Seq::new(self.children.len(), |i: int| self.children[i].name)
    }

    /// Two trees are alike when they have the same shape and the same label
    /// at every node. Icons do not count.
    pub open spec fn alike(self, other: TreeView) -> bool
        decreases self,
    {
        &&& self.name == other.name
        &&& self.children.len() == other.children.len()
        &&& forall|i: int|
            0 <= i < self.children.len() ==> (#[trigger] self.children[i]).alike(
                other.children[i],
            )
    }
}

/// A node of the display tree.
#[derive(Debug, PartialEq, Eq)]
pub struct FileEntry {
    /// Display label.
    pub name: String,
    /// Identifier of a display icon.
    pub icon: String,
    /// Child nodes, in the order in which they were attached.
    pub children: Vec<FileEntry>,
}

impl View for FileEntry {
    type V = TreeView;

    open spec fn view(&self) -> TreeView
        decreases self,
    {
        TreeView {
            name: self.name@,
            icon: self.icon@,
            children: Seq::new(
                self.children@.len(),
                |i: int|
                    if 0 <= i < self.children@.len() {
                        self.children@[i].view()
                    } else {
                        TreeView::leaf(Seq::empty())
                    },
            ),
        }
    }
}

impl Clone for FileEntry {
    /// A copy of the whole tree below this node.
    fn clone(&self) -> (copy: FileEntry)
        ensures
            copy@ == self@,
        decreases self,
    {
        let mut children: Vec<FileEntry> = Vec::new();
        let mut i: usize = 0;
        while i < self.children.len()
            invariant
                i <= self.children.len(),
                children.len() == i,
                forall|j: int| 0 <= j < i ==> children@[j]@ == self.children@[j]@,
            decreases self.children.len() - i,
        {
            let child = self.children[i].clone();
            children.push(child);
            i += 1;
        }
        let copy = FileEntry { name: self.name.clone(), icon: self.icon.clone(), children };
        assert(copy@.children =~= self@.children);
        copy
    }
}

impl Default for FileEntry {
    /// The empty node: no label, no icon, no children.
    fn default() -> (entry: FileEntry)
        ensures
            entry@ == TreeView::leaf(Seq::empty()),
    {
        let entry = FileEntry { name: String::new(), icon: String::new(), children: Vec::new() };
        assert(entry@.children =~= Seq::empty());
        entry
    }
}

impl FileEntry {
    /// A leaf labelled `name`, without an icon.
    pub fn new(name: String) -> (entry: FileEntry)
        ensures
            entry@ == TreeView::leaf(name@),
            entry.name == name,
    {
        let entry = FileEntry { name: name, icon: String::new(), children: Vec::new() };
        assert(entry@.children =~= Seq::empty());
        entry
    }

    /// Attaches `child` behind the children already there and hands the node
    /// back.
    pub fn add_child(self, child: FileEntry) -> (entry: FileEntry)
        ensures
            entry.name == self.name,
            entry.icon == self.icon,
            entry.children@ == self.children@.push(child),
            entry@ == (TreeView { children: self@.children.push(child@), ..self@ }),
    {
        let mut entry = self;
        entry.children.push(child);
        assert(entry@.children =~= self@.children.push(child@));
        entry
    }

    /// Whether the two trees carry the same labels in the same shape. Icons
    /// are not compared.
    pub fn same(&self, other: &FileEntry) -> (alike: bool)
        ensures
            alike == self@.alike(other@),
        decreases self,
    {
        if self.name != other.name {
            return false;
        }
        if self.children.len() != other.children.len() {
            return false;
        }
        let mut i: usize = 0;
        while i < self.children.len()
            invariant
                i <= self.children.len(),
                self.children.len() == other.children.len(),
                forall|j: int| 0 <= j < i ==> (#[trigger] self@.children[j]).alike(other@.children[j]),
            decreases self.children.len() - i,
        {
            if !self.children[i].same(&other.children[i]) {
                assert(!self@.children[i as int].alike(other@.children[i as int]));
                return false;
            }
            i += 1;
        }
        true
    }

    /// The number of direct children.
    pub fn children_count(&self) -> (count: usize)
        ensures
            count == self@.children.len(),
    {
        self.children.len()
    }

    /// The child at `index`.
    pub fn get_child(&self, index: usize) -> (child: &FileEntry)
        requires
            index < self@.children.len(),
        ensures
            *child == self.children@[index as int],
            child@ == self@.children[index as int],
    {
        &self.children[index]
    }

    /// The child at `index`, to be changed in place. Nothing else of the
    /// node changes.
    pub fn get_child_mut(&mut self, index: usize) -> (child: &mut FileEntry)
        requires
            index < old(self)@.children.len(),
        ensures
            *child == old(self).children@[index as int],
            final(self).name == old(self).name,
            final(self).icon == old(self).icon,
            final(self).children@ == old(self).children@.update(index as int, *final(child)),
            final(self)@.name == old(self)@.name,
            final(self)@.icon == old(self)@.icon,
            final(self)@.children == old(self)@.children.update(index as int, final(child)@),
    {
        &mut self.children[index]
    }

    /// The text under which the node is shown: its label.
    pub fn label(&self) -> (text: String)
        ensures
            text@ == self@.name,
    {
        self.name.clone()
    }
}

/// Every tree is alike to itself.
pub proof fn alike_is_reflexive(tree: TreeView)
    ensures
        tree.alike(tree),
    decreases tree,
{
    assert forall|i: int| 0 <= i < tree.children.len() implies (#[trigger] tree.children[i]).alike(
        tree.children[i],
    ) by {
        alike_is_reflexive(tree.children[i]);
    }
}

/// Likeness does not depend on the side from which it is seen.
pub proof fn alike_is_symmetric(first: TreeView, second: TreeView)
    requires
        first.alike(second),
    ensures
        second.alike(first),
    decreases first,
{
    assert forall|i: int| 0 <= i < second.children.len() implies (
    #[trigger] second.children[i]).alike(first.children[i]) by {
        assert(first.children[i].alike(second.children[i]));
        alike_is_symmetric(first.children[i], second.children[i]);
    }
}

/// Trees that are alike to a third are alike to each other.
pub proof fn alike_is_transitive(first: TreeView, second: TreeView, third: TreeView)
    requires
        first.alike(second),
        second.alike(third),
    ensures
        first.alike(third),
    decreases first,
{
    assert forall|i: int| 0 <= i < first.children.len() implies (#[trigger] first.children[i]).alike(
        third.children[i],
    ) by {
        assert(first.children[i].alike(second.children[i]));
        assert(second.children[i].alike(third.children[i]));
        alike_is_transitive(first.children[i], second.children[i], third.children[i]);
    }
}

/// A leaf is alike to a tree exactly if that tree is a childless node with
/// the same label, whatever its icon.
pub proof fn alike_to_a_leaf(name: Seq<char>, tree: TreeView)
    ensures
        TreeView::leaf(name).alike(tree) <==> tree.name == name && tree.children.len() == 0,
{
}

} // verus!
