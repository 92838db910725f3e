//! What checking a node does to the type table, as a function of the tree
//! and of the table before, and what every step of a check preserves.

use vstd::prelude::*;
use crate::errors::TypeError;
use crate::ir::{ExpressionKind, Node};
use crate::rules::range_type;
use crate::store::Snapshot;
use crate::types::Type;

verus! {

/// A state of the store, and whether the check that led to it succeeded.
pub type Outcome = (Snapshot, Result<(), TypeError>);

/// Checking ends at `handle` with `typ`: a type is recorded for `handle`,
/// an error is handed on and the table stays.
pub open spec fn conclude(state: Snapshot, handle: nat, typ: Result<Type, TypeError>) -> Outcome {
    match typ {
        Ok(typ) => (state.with_type(handle, typ), Ok(())),
        Err(error) => (state, Err(error)),
    }
}

/// What checking the node `handle` does, in a store in state `state`.
///
/// The parts of the node are checked first. If that fails, its error is the
/// outcome, with the table as the failing part left it. Else the rule for
/// the node's kind is read off the table; its type is recorded for `handle`
/// as the last step, or its error is the outcome. An identifier node is not
/// checked: the loop that owns it records its type.
pub open spec fn node_outcome(state: Snapshot, handle: nat) -> Outcome
    decreases handle, 2nat, 0nat,
{
    if handle >= state.tree.nodes.len() || state.tree.nodes[handle as int] is Identifier {
        (state, Ok(()))
    } else {
        let parts = parts_outcome(state, handle);
        if parts.1 is Err {
            parts
        } else {
            conclude(parts.0, handle, parts.0.node_type(handle))
        }
    }
}

/// What checking the parts of the node `handle` does.
///
/// For a loop the two bounds of the range are checked, then their types
/// are, then the loop variable is bound to the type of the range, and then
/// the body is checked. For every other node its children are checked in
/// order: the elements of an array literal, the operands of an infix
/// expression, the index of an index expression, the arguments of a call,
/// the operand of a cast, the statements of a block.
pub open spec fn parts_outcome(state: Snapshot, handle: nat) -> Outcome
    decreases handle, 1nat, 0nat,
{
    match state.tree.nodes[handle as int] {
        Node::Expression(ExpressionKind::For { identifier, start_range, end_range, block }) => {
            let ranges = children_outcome(state, handle, 2);
            if ranges.1 is Err {
                ranges
            } else {
                match range_type(
                    ranges.0.type_of(start_range.0 as nat),
                    ranges.0.type_of(end_range.0 as nat),
                ) {
                    Err(error) => (ranges.0, Err(error)),
                    Ok(bound) => if block.0 < handle {
                        node_outcome(ranges.0.with_type(identifier.0 as nat, bound), block.0 as nat)
                    } else {
                        (ranges.0, Ok(()))
                    },
                }
            }
        },
        _ => children_outcome(state, handle, state.tree.child_count(handle)),
    }
}

/// What checking the first `upto` children of `parent` does: they are
/// checked in order, each in the state that the one before left, and the
/// first failure ends it.
pub open spec fn children_outcome(state: Snapshot, parent: nat, upto: nat) -> Outcome
    decreases parent, 0nat, upto,
{
    if upto == 0 {
        (state, Ok(()))
    } else {
        let earlier = children_outcome(state, parent, (upto - 1) as nat);
        let child = state.tree.child(parent, upto - 1);
        if earlier.1 is Err || child >= parent {
            earlier
        } else {
            node_outcome(earlier.0, child)
        }
    }
}

/// Once a child has failed, the children after it are not checked.
pub proof fn lemma_children_error_stays(state: Snapshot, parent: nat, failed: nat, upto: nat)
    requires
        failed <= upto,
        children_outcome(state, parent, failed).1 is Err,
    ensures
        children_outcome(state, parent, upto) == children_outcome(state, parent, failed),
    decreases upto,
{
    if failed < upto {
        lemma_children_error_stays(state, parent, failed, (upto - 1) as nat);
    }
}

} // verus!
