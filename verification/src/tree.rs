//! The tree that the nodes of a store form, as a mathematical object: which
//! node owns which, and what makes such a tree well formed.

use vstd::prelude::*;
use crate::ir::{Child, Class, ExpressionKind, FuncMeta, Literal, Node};

verus! {

/// The nodes of a program with their owners, and the signatures of its
/// functions. The type check reads a tree and never changes it.
pub struct Tree {
    /// The arena: a handle is an index into it.
    pub nodes: Seq<Node>,
    /// For each node the node that owns it as a child, if any.
    pub parents: Seq<Option<nat>>,
    pub functions: Seq<FuncMeta>,
}

/// Some child at a position from `from` up to `to` has the handle `handle`.
pub open spec fn holds_child(children: Seq<Child>, from: int, to: int, handle: int) -> bool {
    exists|j: int| from <= j < to && (#[trigger] children[j]).target == handle
}

/// The children at the positions before `upto` are different nodes.
pub open spec fn distinct_children(children: Seq<Child>, upto: int) -> bool {
    forall|i: int, j: int|
        0 <= i < j < upto ==> (#[trigger] children[i]).target != (#[trigger] children[j]).target
}

impl Tree {
    /// `handle` names a node of class `class`.
    pub open spec fn has(self, handle: nat, class: Class) -> bool {
        handle < self.nodes.len() && self.nodes[handle as int].has_class(class)
    }

    /// How many children the node `parent` has.
    pub open spec fn child_count(self, parent: nat) -> nat {
        self.nodes[parent as int].children().len()
    }

    /// The handle of the child of `parent` at position `at`.
    pub open spec fn child(self, parent: nat, at: int) -> nat {
        self.nodes[parent as int].children()[at].target
    }

    /// The node that owns `handle` as a child, if any.
    pub open spec fn owner(self, handle: nat) -> Option<nat> {
        if handle < self.parents.len() {
            self.parents[handle as int]
        } else {
            None
        }
    }

    /// `handle` lies in the subtree below `root`: it is `root`, or its owner
    /// lies there.
    pub open spec fn owns(self, root: nat, handle: nat) -> bool
        decreases self.parents.len() - handle,
    {
        handle == root || match self.owner(handle) {
            Some(parent) => handle < parent < self.parents.len() && self.owns(root, parent),
            None => false,
        }
    }

    /// What a node at index `at` may hold: children that come before it, are
    /// of the class that their place asks for, are owned by this node and
    /// occur once; a reference to an identifier that comes before it; an
    /// array literal with at least one element; a call of a known function.
    pub open spec fn node_well_formed(self, at: nat) -> bool {
        let node = self.nodes[at as int];
        &&& forall|i: int|
            0 <= i < node.children().len() ==> {
                let child = #[trigger] node.children()[i];
                &&& child.target < at
                &&& self.nodes[child.target as int].has_class(child.class)
                &&& self.owner(child.target) == Some(at)
            }
        &&& forall|i: int, j: int|
            0 <= i < j < node.children().len() ==> (#[trigger] node.children()[i]).target != (
            #[trigger] node.children()[j]).target
        &&& node.reference() matches Some(ident) ==> ident.0 < at
            && self.nodes[ident.0 as int] is Identifier
        &&& node matches Node::Expression(ExpressionKind::Literal(Literal::Array(contents)))
            ==> contents@.len() > 0
        &&& node matches Node::Expression(ExpressionKind::Call { func, .. }) ==> func.0
            < self.functions.len()
    }

    /// The owner recorded for `child` is a later node that holds `child`
    /// among its children.
    pub open spec fn owner_well_formed(self, child: nat) -> bool {
        self.owner(child) matches Some(parent) ==> child < parent < self.nodes.len() && exists|
            i: int,
        |
            0 <= i < self.child_count(parent) && #[trigger] self.child(parent, i) == child
    }

    /// The nodes form a forest: every node is well formed, and the owners
    /// are exactly the nodes that hold a node as their child.
    pub open spec fn well_formed(self) -> bool {
        &&& self.parents.len() == self.nodes.len()
        &&& forall|at: nat| at < self.nodes.len() ==> #[trigger] self.node_well_formed(at)
        &&& forall|child: nat|
            child < self.parents.len() ==> #[trigger] self.owner_well_formed(child)
    }

    /// The parts of `node` can be linked to: its children are nodes of the
    /// tree, of the class that their place asks for, that no node owns yet;
    /// where it refers to an identifier, that is an identifier of the tree;
    /// an array literal has at least one element; a call names a known
    /// function.
    pub open spec fn attachable(self, node: Node) -> bool {
        &&& forall|i: int|
            0 <= i < node.children().len() ==> {
                let child = #[trigger] node.children()[i];
                &&& self.has(child.target, child.class)
                &&& self.owner(child.target) is None
            }
        &&& node.reference() matches Some(ident) ==> self.has(ident.0 as nat, Class::Identifier)
        &&& node matches Node::Expression(ExpressionKind::Literal(Literal::Array(contents)))
            ==> contents@.len() > 0
        &&& node matches Node::Expression(ExpressionKind::Call { func, .. }) ==> func.0
            < self.functions.len()
    }

    /// Whether `node` may be added to the tree: its parts can be linked to,
    /// and no child occurs twice.
    pub open spec fn admits(self, node: Node) -> bool {
        &&& self.attachable(node)
        &&& distinct_children(node.children(), node.children().len() as int)
    }

    /// The tree with `node` added at the end of the arena, as the owner of
    /// its children and owned by none.
    pub open spec fn extended(self, node: Node) -> Tree {
        Tree {
            nodes: self.nodes.push(node),
            parents: Seq::new(
                self.parents.len() + 1,
                |k: int|
                    if k == self.parents.len() {
                        None
                    } else if holds_child(node.children(), 0, node.children().len() as int, k) {
                        Some(self.nodes.len())
                    } else {
                        self.parents[k]
                    },
            ),
            functions: self.functions,
        }
    }

    /// Adding a node that the tree admits leaves it well formed.
    pub proof fn lemma_extended_well_formed(self, node: Node)
        requires
            self.well_formed(),
            self.admits(node),
        ensures
            self.extended(node).well_formed(),
    {
        let grown = self.extended(node);
        let last = self.nodes.len();
        assert forall|at: nat| at < grown.nodes.len() implies #[trigger] grown.node_well_formed(
            at,
        ) by {
            if at < last {
                assert(self.node_well_formed(at));
                let old_node = self.nodes[at as int];
                assert(grown.nodes[at as int] == old_node);
                assert forall|i: int| 0 <= i < old_node.children().len() implies {
                    let child = #[trigger] old_node.children()[i];
                    &&& child.target < at
                    &&& grown.nodes[child.target as int].has_class(child.class)
                    &&& grown.owner(child.target) == Some(at)
                } by {
                    let child = old_node.children()[i];
                    if holds_child(node.children(), 0, node.children().len() as int, child.target as int) {
                        let j = choose|j: int|
                            0 <= j < node.children().len() && (#[trigger] node.children()[j]).target
                                == child.target;
                        assert(self.owner(node.children()[j].target) is None);
                    }
                }
            } else {
                assert(grown.nodes[at as int] == node);
                assert forall|i: int| 0 <= i < node.children().len() implies {
                    let child = #[trigger] node.children()[i];
                    &&& child.target < at
                    &&& grown.nodes[child.target as int].has_class(child.class)
                    &&& grown.owner(child.target) == Some(at)
                } by {
                    let child = node.children()[i];
                    assert(self.has(child.target, child.class));
                    assert(holds_child(node.children(), 0, node.children().len() as int, child.target as int));
                }
            }
        }
        assert forall|child: nat| child < grown.parents.len() implies #[trigger] grown.owner_well_formed(
            child,
        ) by {
            if child == last {
                assert(grown.owner(child) is None);
            } else if holds_child(node.children(), 0, node.children().len() as int, child as int) {
                let j = choose|j: int|
                    0 <= j < node.children().len() && (#[trigger] node.children()[j]).target
                        == child;
                assert(grown.owner(child) == Some(last));
                assert(grown.nodes[last as int] == node);
                assert(grown.child(last, j) == child);
                assert(0 <= j < grown.child_count(last));
            } else {
                assert(grown.owner(child) == self.owner(child));
                assert(self.owner_well_formed(child));
                if self.owner(child) is Some {
                    let parent = self.owner(child).unwrap();
                    let i = choose|i: int|
                        0 <= i < self.child_count(parent) && #[trigger] self.child(parent, i)
                            == child;
                    assert(grown.nodes[parent as int] == self.nodes[parent as int]);
                    assert(grown.child(parent, i) == child);
                    assert(0 <= i < grown.child_count(parent));
                }
            }
        }
    }

    /// The child of `parent` at position `at` comes before `parent`, has the
    /// class that its place asks for, and is owned by `parent`.
    pub proof fn lemma_child(self, parent: nat, at: int)
        requires
            self.well_formed(),
            parent < self.nodes.len(),
            0 <= at < self.child_count(parent),
        ensures
            self.child(parent, at) < parent,
            self.has(self.child(parent, at), self.nodes[parent as int].children()[at].class),
            self.owner(self.child(parent, at)) == Some(parent),
    {
        assert(self.node_well_formed(parent));
        let _ = self.nodes[parent as int].children()[at];
    }

    /// A subtree holds no node that comes after its root.
    pub proof fn lemma_owned_not_above(self, root: nat, handle: nat)
        requires
            self.owns(root, handle),
        ensures
            handle <= root,
        decreases self.parents.len() - handle,
    {
        if handle != root {
            self.lemma_owned_not_above(root, self.owner(handle).unwrap());
        }
    }

    /// What a child owns, its owner owns.
    pub proof fn lemma_owns_through(self, parent: nat, child: nat, handle: nat)
        requires
            child < parent < self.parents.len(),
            self.owner(child) == Some(parent),
            self.owns(child, handle),
        ensures
            self.owns(parent, handle),
        decreases self.parents.len() - handle,
    {
        if handle == child {
            assert(self.owns(parent, parent));
        } else {
            self.lemma_owns_through(parent, child, self.owner(handle).unwrap());
        }
    }

    /// Owning passes down: what a node owns that `root` owns, `root` owns.
    pub proof fn lemma_owns_transitive(self, root: nat, middle: nat, handle: nat)
        requires
            self.owns(root, middle),
            self.owns(middle, handle),
        ensures
            self.owns(root, handle),
        decreases self.parents.len() - handle,
    {
        if handle != middle {
            self.lemma_owns_transitive(root, middle, self.owner(handle).unwrap());
        }
    }

    /// The nodes that own a given node lie on one path: of two of them, one
    /// owns the other.
    pub proof fn lemma_owners_on_a_path(self, a: nat, b: nat, handle: nat)
        requires
            self.owns(a, handle),
            self.owns(b, handle),
        ensures
            self.owns(a, b) || self.owns(b, a),
        decreases self.parents.len() - handle,
    {
        if handle != a && handle != b {
            self.lemma_owners_on_a_path(a, b, self.owner(handle).unwrap());
        }
    }

    /// Two different children of one node own nothing in common.
    pub proof fn lemma_siblings_disjoint(self, parent: nat, a: nat, b: nat, handle: nat)
        requires
            parent < self.parents.len(),
            a < parent,
            b < parent,
            a != b,
            self.owner(a) == Some(parent),
            self.owner(b) == Some(parent),
            self.owns(a, handle),
        ensures
            !self.owns(b, handle),
    {
        if self.owns(b, handle) {
            self.lemma_owners_on_a_path(a, b, handle);
            if self.owns(a, b) {
                assert(self.owns(a, parent));
                self.lemma_owned_not_above(a, parent);
            } else {
                assert(self.owns(b, parent));
                self.lemma_owned_not_above(b, parent);
            }
        }
    }

    /// What a node owns besides itself, one of its children owns.
    pub proof fn lemma_owned_by_a_child(self, root: nat, handle: nat) -> (at: int)
        requires
            self.well_formed(),
            self.owns(root, handle),
            handle != root,
        ensures
            root < self.nodes.len(),
            0 <= at < self.child_count(root),
            self.owns(self.child(root, at), handle),
        decreases self.parents.len() - handle,
    {
        let parent = self.owner(handle).unwrap();
        if parent == root {
            assert(self.owner_well_formed(handle));
            let at = choose|i: int|
                0 <= i < self.child_count(root) && #[trigger] self.child(root, i) == handle;
            at
        } else {
            let at = self.lemma_owned_by_a_child(root, parent);
            at
        }
    }
}

} // verus!
