//! How far a check has come, and what every step of it preserves: which
//! subtrees are still unchecked, which are checked, and that every type
//! that was recorded stays and obeys the rule of its node.

use vstd::prelude::*;
use crate::errors::TypeError;
use crate::ir::{ExpressionKind, IdentId, Literal, Node, StatementKind};
use crate::store::{lemma_typed_count_update, typed_count, Snapshot};
use crate::types::Type;

verus! {

// What can be said of a state of the store.
impl Snapshot {
    /// Nothing in the subtree below `root` has a type recorded.
    pub open spec fn unchecked(self, root: nat) -> bool {
        forall|handle: nat| #[trigger] self.tree.owns(root, handle) ==> !self.typed(handle)
    }

    /// Every node in the subtree below `root` has a type recorded.
    pub open spec fn checked(self, root: nat) -> bool {
        forall|handle: nat| #[trigger] self.tree.owns(root, handle) ==> self.typed(handle)
    }

    /// Every child of `parent` is checked.
    pub open spec fn children_checked(self, parent: nat) -> bool {
        forall|at: int|
            0 <= at < self.tree.child_count(parent) ==> self.checked(
                #[trigger] self.tree.child(parent, at),
            )
    }

    /// `self` came from `before` by recording types in the subtree below
    /// `root` and nowhere else, and without recording over a type that was
    /// there: the tree is the same, and the table differs at most where
    /// `before` had no type for a node of that subtree.
    pub open spec fn extends(self, before: Snapshot, root: nat) -> bool {
        &&& self.tree == before.tree
        &&& self.types.len() == before.types.len()
        &&& forall|handle: nat|
            handle < self.types.len() && (before.typed(handle) || !self.tree.owns(root, handle))
                ==> #[trigger] self.types[handle as int] == before.types[handle as int]
    }

    /// `self` has every type that `before` has, in the same tree.
    pub open spec fn keeps(self, before: Snapshot) -> bool {
        &&& self.tree == before.tree
        &&& self.types.len() == before.types.len()
        &&& forall|handle: nat|
            before.typed(handle) ==> #[trigger] self.types[handle as int]
                == before.types[handle as int]
    }

    /// The type recorded for the node `handle` is the one that the rule for
    /// its kind gives, read off this table. An identifier that a loop owns
    /// is the loop's variable and has the type of a range, `Constant`; any
    /// other identifier has the type that its declaration gave it, of which
    /// nothing is said here.
    pub open spec fn obeys_rule(self, handle: nat) -> bool {
        &&& handle < self.tree.nodes.len()
        &&& if self.tree.nodes[handle as int] is Identifier {
            self.tree.owner(handle) is Some ==> self.typed(handle) && self.type_of(handle)
                == Type::Constant
        } else {
            self.typed(handle) && self.node_type(handle) == Ok::<Type, TypeError>(
                self.type_of(handle),
            )
        }
    }

    /// Every node in the subtree below `root` has the type that its rule
    /// gives.
    pub open spec fn consistent(self, root: nat) -> bool {
        forall|handle: nat| #[trigger] self.tree.owns(root, handle) ==> self.obeys_rule(handle)
    }

    /// Every child of `parent` is the root of a consistent subtree.
    pub open spec fn children_consistent(self, parent: nat) -> bool {
        forall|at: int|
            0 <= at < self.tree.child_count(parent) ==> self.consistent(
                #[trigger] self.tree.child(parent, at),
            )
    }

    /// The subtree below `root` is checked, and every node in it has the
    /// type that its rule gives.
    pub open spec fn settled(self, root: nat) -> bool {
        self.checked(root) && self.consistent(root)
    }
}

// What a step of a check leaves as it was.
impl Snapshot {
    /// A node without children owns nothing but itself.
    pub proof fn lemma_leaf_owns_itself(self, leaf: nat, handle: nat)
        requires
            self.well_formed(),
            self.tree.child_count(leaf) == 0,
            self.tree.owns(leaf, handle),
        ensures
            handle == leaf,
    {
        if handle != leaf {
            let at = self.tree.lemma_owned_by_a_child(leaf, handle);
        }
    }

    /// Where nothing below a node is checked, nothing below its children is.
    pub proof fn lemma_children_unchecked(self, parent: nat)
        requires
            self.well_formed(),
            parent < self.tree.nodes.len(),
            self.unchecked(parent),
        ensures
            forall|at: int|
                0 <= at < self.tree.child_count(parent) ==> self.unchecked(
                    #[trigger] self.tree.child(parent, at),
                ),
    {
        assert forall|at: int| 0 <= at < self.tree.child_count(parent) implies self.unchecked(
            #[trigger] self.tree.child(parent, at),
        ) by {
            let child = self.tree.child(parent, at);
            self.tree.lemma_child(parent, at);
            assert forall|handle: nat| #[trigger] self.tree.owns(child, handle) implies !self.typed(
                handle,
            ) by {
                self.tree.lemma_owns_through(parent, child, handle);
            }
        }
    }

    /// What a step inside the subtree of one child of `parent` leaves as it
    /// was. `self` is the state after the step, `before` the state before
    /// it, and `origin` the state in which the check of `parent` began.
    ///
    /// The step stays within what the check of `parent` may touch; it
    /// records nothing for `parent` itself, nothing below the other
    /// children, and it keeps what was recorded below any child.
    pub proof fn lemma_child_step(self, before: Snapshot, origin: Snapshot, parent: nat, at: int)
        requires
            before.well_formed(),
            parent < before.tree.nodes.len(),
            0 <= at < before.tree.child_count(parent),
            self.extends(before, before.tree.child(parent, at)),
            before.extends(origin, parent),
        ensures
            self.extends(origin, parent),
            !before.typed(parent) ==> !self.typed(parent),
            forall|j: int|
                0 <= j < before.tree.child_count(parent) && j != at && before.unchecked(
                    #[trigger] before.tree.child(parent, j),
                ) ==> self.unchecked(before.tree.child(parent, j)),
            forall|j: int|
                0 <= j < before.tree.child_count(parent) && before.checked(
                    #[trigger] before.tree.child(parent, j),
                ) ==> self.checked(before.tree.child(parent, j)),
    {
        let tree = before.tree;
        let child = tree.child(parent, at);
        tree.lemma_child(parent, at);
        assert forall|handle: nat|
            handle < self.types.len() && (origin.typed(handle) || !self.tree.owns(
                parent,
                handle,
            )) implies #[trigger] self.types[handle as int] == origin.types[handle as int] by {
            assert(before.types[handle as int] == origin.types[handle as int]);
            if tree.owns(child, handle) {
                tree.lemma_owns_through(parent, child, handle);
            }
            assert(self.types[handle as int] == before.types[handle as int]);
        }
        if !before.typed(parent) {
            if tree.owns(child, parent) {
                tree.lemma_owned_not_above(child, parent);
            }
            assert(self.types[parent as int] == before.types[parent as int]);
        }
        assert forall|j: int|
            0 <= j < tree.child_count(parent) && j != at && before.unchecked(
                #[trigger] tree.child(parent, j),
            ) implies self.unchecked(tree.child(parent, j)) by {
            let other = tree.child(parent, j);
            tree.lemma_child(parent, j);
            assert(tree.node_well_formed(parent));
            assert(other != child) by {
                let a = tree.nodes[parent as int].children()[j];
                let b = tree.nodes[parent as int].children()[at];
            }
            assert forall|handle: nat| #[trigger] self.tree.owns(other, handle) implies !self.typed(
                handle,
            ) by {
                tree.lemma_siblings_disjoint(parent, other, child, handle);
                if handle < self.types.len() {
                    assert(self.types[handle as int] == before.types[handle as int]);
                }
            }
        }
        assert forall|j: int|
            0 <= j < tree.child_count(parent) && before.checked(
                #[trigger] tree.child(parent, j),
            ) implies self.checked(tree.child(parent, j)) by {
            let other = tree.child(parent, j);
            assert forall|handle: nat| #[trigger] self.tree.owns(other, handle) implies self.typed(
                handle,
            ) by {
                assert(before.typed(handle));
                assert(self.types[handle as int] == before.types[handle as int]);
            }
        }
    }

    /// Recording a type for a node that has none is a step within that
    /// node's subtree.
    pub proof fn lemma_record_extends(self, handle: nat, typ: Type)
        requires
            handle < self.types.len(),
            !self.typed(handle),
        ensures
            self.with_type(handle, typ).extends(self, handle),
            self.with_type(handle, typ).typed(handle),
    {
        assert(self.tree.owns(handle, handle));
    }

    /// Two steps within one subtree make one.
    pub proof fn lemma_extends_twice(self, before: Snapshot, origin: Snapshot, root: nat)
        requires
            self.extends(before, root),
            before.extends(origin, root),
        ensures
            self.extends(origin, root),
    {
        assert forall|handle: nat|
            handle < self.types.len() && (origin.typed(handle) || !self.tree.owns(
                root,
                handle,
            )) implies #[trigger] self.types[handle as int] == origin.types[handle as int] by {
            assert(before.types[handle as int] == origin.types[handle as int]);
            assert(self.types[handle as int] == before.types[handle as int]);
        }
    }

    /// A step of a check keeps every type that was recorded before it.
    pub proof fn lemma_extends_keeps(self, before: Snapshot, root: nat)
        requires
            self.extends(before, root),
        ensures
            self.keeps(before),
    {
    }

    /// A node whose children are checked, and that has a type itself, is
    /// checked.
    pub proof fn lemma_checked_with_children(self, root: nat)
        requires
            self.well_formed(),
            self.typed(root),
            self.children_checked(root),
        ensures
            self.checked(root),
    {
        assert forall|handle: nat| #[trigger] self.tree.owns(root, handle) implies self.typed(
            handle,
        ) by {
            if handle != root {
                let at = self.tree.lemma_owned_by_a_child(root, handle);
                assert(self.checked(self.tree.child(root, at)));
            }
        }
    }

    /// A step of a check never records over a type: what had a type before
    /// the step has the same type after it.
    pub proof fn lemma_recorded_types_stay(self, before: Snapshot, root: nat, handle: nat)
        requires
            self.extends(before, root),
            before.typed(handle),
        ensures
            self.typed(handle),
            self.type_of(handle) == before.type_of(handle),
    {
        assert(self.types[handle as int] == before.types[handle as int]);
    }

    /// A step of a check records nothing outside the subtree that is
    /// checked.
    pub proof fn lemma_outside_untouched(self, before: Snapshot, root: nat, handle: nat)
        requires
            self.extends(before, root),
            !before.tree.owns(root, handle),
        ensures
            self.typed(handle) == before.typed(handle),
            self.typed(handle) ==> self.type_of(handle) == before.type_of(handle),
    {
        if handle < self.types.len() {
            assert(self.types[handle as int] == before.types[handle as int]);
        }
    }
}

/// In a store in which nothing was recorded, no node has a type.
pub proof fn lemma_blank_is_unchecked(state: Snapshot, root: nat)
    requires
        state.well_formed(),
        state.writes == 0,
    ensures
        state.unchecked(root),
{
    assert forall|handle: nat| #[trigger] state.tree.owns(root, handle) implies !state.typed(
        handle,
    ) by {
        if state.typed(handle) {
            lemma_typed_place_counts(state.types, handle as int);
        }
    }
}

/// A table that holds a type somewhere holds at least one type.
proof fn lemma_typed_place_counts(types: Seq<Option<Type>>, at: int)
    requires
        0 <= at < types.len(),
        types[at] is Some,
    ensures
        typed_count(types) > 0,
    decreases types.len(),
{
    if at < types.len() - 1 {
        lemma_typed_place_counts(types.drop_last(), at);
    }
}

// Every type that a check records is the one that the rule gives.
impl Snapshot {
    /// A definition's type that was there is read the same off every table
    /// that keeps the types of the first.
    pub proof fn lemma_definition_stays(self, before: Snapshot, ident: IdentId)
        requires
            before.definition_type(ident) is Ok,
            self.keeps(before),
        ensures
            self.definition_type(ident) == before.definition_type(ident),
    {
        let definition = before.definition(ident).unwrap();
        assert(before.typed(definition.0 as nat));
        assert(self.types[definition.0 as int] == before.types[definition.0 as int]);
    }

    /// A rule that was read off a table reads the same off every table that
    /// keeps the types of the first: it looks only at types that are there.
    pub proof fn lemma_rule_stays(self, before: Snapshot, handle: nat)
        requires
            before.well_formed(),
            handle < before.tree.nodes.len(),
            before.readable(handle),
            before.node_type(handle) is Ok,
            self.keeps(before),
        ensures
            self.node_type(handle) == before.node_type(handle),
    {
        let tree = before.tree;
        assert(tree.node_well_formed(handle));
        assert(self.child_types(handle) =~= before.child_types(handle)) by {
            assert forall|at: int| 0 <= at < tree.child_count(handle) implies self.type_of(
                tree.child(handle, at),
            ) == before.type_of(tree.child(handle, at)) by {
                let child = tree.child(handle, at);
                assert(before.typed(child));
                assert(self.types[child as int] == before.types[child as int]);
            }
        }
        match tree.nodes[handle as int] {
            Node::Expression(ExpressionKind::Ident(ident)) => {
                self.lemma_definition_stays(before, ident);
            },
            Node::Expression(ExpressionKind::Index { collection, .. }) => {
                self.lemma_definition_stays(before, collection);
            },
            Node::Expression(ExpressionKind::Infix { lhs, rhs, .. }) => {
                assert(tree.child(handle, 0) == lhs.0);
                assert(tree.child(handle, 1) == rhs.0);
                assert(before.typed(lhs.0 as nat));
                assert(before.typed(rhs.0 as nat));
                assert(self.types[lhs.0 as int] == before.types[lhs.0 as int]);
                assert(self.types[rhs.0 as int] == before.types[rhs.0 as int]);
            },
            Node::Expression(ExpressionKind::For { block, .. }) => {
                let count = tree.child_count(block.0 as nat);
                if count > 0 {
                    let last = tree.child(block.0 as nat, count - 1);
                    if let Node::Statement(StatementKind::Expression(expr)) =
                        tree.nodes[last as int] {
                        assert(before.typed(expr.0 as nat));
                        assert(self.types[expr.0 as int] == before.types[expr.0 as int]);
                    }
                }
            },
            Node::Statement(StatementKind::Expression(expr)) => {
                assert(tree.child(handle, 0) == expr.0);
                assert(before.typed(expr.0 as nat));
                assert(self.types[expr.0 as int] == before.types[expr.0 as int]);
            },
            _ => {},
        }
    }

    /// In a subtree that is checked, the rule of every node can be read off
    /// the table.
    pub proof fn lemma_checked_subtree_readable(self, root: nat, handle: nat)
        requires
            self.well_formed(),
            self.checked(root),
            self.tree.owns(root, handle),
            handle < self.tree.nodes.len(),
        ensures
            self.readable(handle),
    {
        assert forall|at: int| 0 <= at < self.tree.child_count(handle) implies self.checked(
            #[trigger] self.tree.child(handle, at),
        ) by {
            let child = self.tree.child(handle, at);
            self.tree.lemma_child(handle, at);
            assert forall|below: nat| #[trigger] self.tree.owns(child, below) implies self.typed(
                below,
            ) by {
                self.tree.lemma_owns_through(handle, child, below);
                self.tree.lemma_owns_transitive(root, handle, below);
            }
        }
        self.lemma_checked_is_readable(handle);
    }

    /// A subtree that is checked and consistent stays so in every table that
    /// keeps the types of the first.
    pub proof fn lemma_consistent_stays(self, before: Snapshot, root: nat)
        requires
            before.well_formed(),
            before.checked(root),
            before.consistent(root),
            self.keeps(before),
        ensures
            self.consistent(root),
    {
        assert forall|handle: nat| #[trigger] self.tree.owns(root, handle) implies self.obeys_rule(
            handle,
        ) by {
            assert(before.obeys_rule(handle));
            assert(before.typed(handle));
            assert(self.types[handle as int] == before.types[handle as int]);
            if !(before.tree.nodes[handle as int] is Identifier) {
                before.lemma_checked_subtree_readable(root, handle);
                self.lemma_rule_stays(before, handle);
            }
        }
    }

    /// A node that obeys its rule, over children whose subtrees are
    /// consistent, is the root of a consistent subtree.
    pub proof fn lemma_consistent_with_children(self, root: nat)
        requires
            self.well_formed(),
            self.obeys_rule(root),
            self.children_consistent(root),
        ensures
            self.consistent(root),
    {
        assert forall|handle: nat| #[trigger] self.tree.owns(root, handle) implies self.obeys_rule(
            handle,
        ) by {
            if handle != root {
                let at = self.tree.lemma_owned_by_a_child(root, handle);
                assert(self.consistent(self.tree.child(root, at)));
            }
        }
    }

    /// Recording for a node the type that its rule gives makes the node obey
    /// its rule: the rule does not read the node's own type.
    pub proof fn lemma_recorded_rule_is_obeyed(self, handle: nat, typ: Type)
        requires
            self.well_formed(),
            handle < self.tree.nodes.len(),
            !(self.tree.nodes[handle as int] is Identifier),
            !self.typed(handle),
            self.readable(handle),
            self.node_type(handle) == Ok::<Type, TypeError>(typ),
        ensures
            self.with_type(handle, typ).obeys_rule(handle),
    {
        let after = self.with_type(handle, typ);
        after.lemma_rule_stays(self, handle);
    }

    /// A subtree that is settled stays so in every table that keeps the
    /// types of the first.
    pub proof fn lemma_settled_stays(self, before: Snapshot, root: nat)
        requires
            before.well_formed(),
            before.settled(root),
            self.keeps(before),
        ensures
            self.settled(root),
    {
        self.lemma_consistent_stays(before, root);
        assert forall|handle: nat| #[trigger] self.tree.owns(root, handle) implies self.typed(
            handle,
        ) by {
            assert(before.typed(handle));
            assert(self.types[handle as int] == before.types[handle as int]);
        }
    }

    /// A node without children that has a type and obeys its rule is
    /// settled.
    pub proof fn lemma_leaf_settled(self, leaf: nat)
        requires
            self.well_formed(),
            self.tree.child_count(leaf) == 0,
            self.typed(leaf),
            self.obeys_rule(leaf),
        ensures
            self.settled(leaf),
    {
        assert forall|handle: nat| #[trigger] self.tree.owns(leaf, handle) implies self.typed(
            handle,
        ) && self.obeys_rule(handle) by {
            self.lemma_leaf_owns_itself(leaf, handle);
        }
    }

    /// Recording the type that its rule gives for a node whose children are
    /// settled settles the node.
    pub proof fn lemma_record_settles(self, root: nat, typ: Type)
        requires
            self.well_formed(),
            root < self.tree.nodes.len(),
            !(self.tree.nodes[root as int] is Identifier),
            !self.typed(root),
            forall|at: int|
                0 <= at < self.tree.child_count(root) ==> self.settled(
                    #[trigger] self.tree.child(root, at),
                ),
            self.readable(root),
            self.node_type(root) == Ok::<Type, TypeError>(typ),
        ensures
            self.with_type(root, typ).settled(root),
    {
        let after = self.with_type(root, typ);
        self.lemma_record_extends(root, typ);
        after.lemma_extends_keeps(self, root);
        self.lemma_recorded_rule_is_obeyed(root, typ);
        assert forall|at: int| 0 <= at < after.tree.child_count(root) implies after.settled(
            #[trigger] after.tree.child(root, at),
        ) by {
            after.lemma_settled_stays(self, self.tree.child(root, at));
        }
        assert(after.children_checked(root));
        assert(after.children_consistent(root));
        lemma_typed_count_update(self.types, root as int, typ);
        after.lemma_checked_with_children(root);
        after.lemma_consistent_with_children(root);
    }

    /// Once the children of a node are settled, its rule can be read off.
    pub proof fn lemma_settled_is_readable(self, handle: nat)
        requires
            self.well_formed(),
            handle < self.tree.nodes.len(),
            forall|at: int|
                0 <= at < self.tree.child_count(handle) ==> self.settled(
                    #[trigger] self.tree.child(handle, at),
                ),
        ensures
            self.readable(handle),
    {
        assert(self.children_checked(handle));
        self.lemma_checked_is_readable(handle);
    }
}

// What a checked node says of its parts, kind by kind.
impl Snapshot {
    /// Every sub-expression and statement that a node holds is one of its
    /// children, so in a subtree that is checked each of them has a type:
    /// the elements of an array literal, both operands of an infix
    /// expression, the index of an index expression, the arguments of a
    /// call, the operand of a cast, both bounds of a loop's range with its
    /// variable and its body, the expression of an expression statement and
    /// the statements of a block.
    pub proof fn lemma_parts_of_checked_node_are_typed(self, handle: nat)
        requires
            self.well_formed(),
            handle < self.tree.nodes.len(),
            self.checked(handle),
        ensures
            match self.tree.nodes[handle as int] {
                Node::Expression(ExpressionKind::Literal(Literal::Array(contents))) => forall|
                    i: int,
                |
                    0 <= i < contents@.len() ==> self.typed((#[trigger] contents@[i]).0 as nat),
                Node::Expression(ExpressionKind::Infix { lhs, rhs, .. }) => self.typed(
                    lhs.0 as nat,
                ) && self.typed(rhs.0 as nat),
                Node::Expression(ExpressionKind::Index { index, .. }) => self.typed(
                    index.0 as nat,
                ),
                Node::Expression(ExpressionKind::Call { arguments, .. }) => forall|i: int|
                    0 <= i < arguments@.len() ==> self.typed((#[trigger] arguments@[i]).0 as nat),
                Node::Expression(ExpressionKind::Cast { lhs, .. }) => self.typed(lhs.0 as nat),
                Node::Expression(
                    ExpressionKind::For { identifier, start_range, end_range, block },
                ) => {
                    &&& self.typed(start_range.0 as nat)
                    &&& self.typed(end_range.0 as nat)
                    &&& self.typed(identifier.0 as nat)
                    &&& self.typed(block.0 as nat)
                },
                Node::Statement(StatementKind::Expression(expr)) => self.typed(expr.0 as nat),
                Node::Statement(StatementKind::Block(statements)) => forall|i: int|
                    0 <= i < statements@.len() ==> self.typed(
                        (#[trigger] statements@[i]).0 as nat,
                    ),
                _ => true,
            },
    {
        self.lemma_checked_subtree_readable(handle, handle);
        let tree = self.tree;
        match tree.nodes[handle as int] {
            Node::Expression(ExpressionKind::Literal(Literal::Array(contents))) => {
                assert forall|i: int| 0 <= i < contents@.len() implies self.typed(
                    (#[trigger] contents@[i]).0 as nat,
                ) by {
                    assert(tree.child(handle, i) == contents@[i].0);
                }
            },
            Node::Expression(ExpressionKind::Infix { lhs, rhs, .. }) => {
                assert(tree.child(handle, 0) == lhs.0);
                assert(tree.child(handle, 1) == rhs.0);
            },
            Node::Expression(ExpressionKind::Index { index, .. }) => {
                assert(tree.child(handle, 0) == index.0);
            },
            Node::Expression(ExpressionKind::Call { arguments, .. }) => {
                assert forall|i: int| 0 <= i < arguments@.len() implies self.typed(
                    (#[trigger] arguments@[i]).0 as nat,
                ) by {
                    assert(tree.child(handle, i) == arguments@[i].0);
                }
            },
            Node::Expression(ExpressionKind::Cast { lhs, .. }) => {
                assert(tree.child(handle, 0) == lhs.0);
            },
            Node::Expression(
                ExpressionKind::For { identifier, start_range, end_range, block },
            ) => {
                assert(tree.child(handle, 0) == start_range.0);
                assert(tree.child(handle, 1) == end_range.0);
                assert(tree.child(handle, 2) == identifier.0);
                assert(tree.child(handle, 3) == block.0);
            },
            Node::Statement(StatementKind::Expression(expr)) => {
                assert(tree.child(handle, 0) == expr.0);
            },
            Node::Statement(StatementKind::Block(statements)) => {
                assert forall|i: int| 0 <= i < statements@.len() implies self.typed(
                    (#[trigger] statements@[i]).0 as nat,
                ) by {
                    assert(tree.child(handle, i) == statements@[i].0);
                }
            },
            _ => {},
        }
    }
}

} // verus!
