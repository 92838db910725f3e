//! The walker: checks an expression or a statement and everything below it,
//! and records one type for every node that it visits.

use vstd::prelude::*;
use crate::errors::TypeError;
use crate::ir::{Class, ExprId, ExpressionKind, IdentId, Node, StmtId};
use crate::outcome::{children_outcome, lemma_children_error_stays, node_outcome, parts_outcome};
use crate::rules::{check_range, expression_type, statement_type};
use crate::store::Store;

verus! {

/// Checks the first `upto` children of `parent`, in order, and stops at the
/// first that fails.
fn check_children(store: &mut Store, parent: usize, upto: usize) -> (result: Result<
    (),
    TypeError,
>)
    requires
        old(store).wf(),
        parent < old(store)@.tree.nodes.len(),
        upto <= old(store)@.tree.child_count(parent as nat),
        forall|j: int|
            0 <= j < upto ==> (#[trigger] old(store)@.tree.nodes[parent as int].children()[j]).class
                != Class::Identifier,
        old(store)@.unchecked(parent as nat),
    ensures
        final(store).wf(),
        (final(store)@, result) == children_outcome(old(store)@, parent as nat, upto as nat),
        final(store)@.extends(old(store)@, parent as nat),
        !final(store)@.typed(parent as nat),
        forall|j: int|
            upto <= j < old(store)@.tree.child_count(parent as nat) ==> final(store)@.unchecked(
                #[trigger] old(store)@.tree.child(parent as nat, j),
            ),
        result is Ok ==> forall|j: int|
            0 <= j < upto ==> final(store)@.settled(
                #[trigger] old(store)@.tree.child(parent as nat, j),
            ),
    decreases parent, 0nat,
{
    let ghost origin = store@;
    proof {
        origin.lemma_children_unchecked(parent as nat);
        assert(origin.tree.owns(parent as nat, parent as nat));
    }
    let mut at: usize = 0;
    while at < upto
        invariant
            store.wf(),
            origin.well_formed(),
            origin == old(store)@,
            parent < origin.tree.nodes.len(),
            at <= upto <= origin.tree.child_count(parent as nat),
            forall|j: int|
                0 <= j < upto ==> (#[trigger] origin.tree.nodes[parent as int].children()[j]).class
                    != Class::Identifier,
            children_outcome(origin, parent as nat, at as nat) == (store@, Ok::<(), TypeError>(())),
            store@.extends(origin, parent as nat),
            !store@.typed(parent as nat),
            forall|j: int|
                at <= j < origin.tree.child_count(parent as nat) ==> store@.unchecked(
                    #[trigger] origin.tree.child(parent as nat, j),
                ),
            forall|j: int|
                0 <= j < at ==> store@.settled(#[trigger] origin.tree.child(parent as nat, j)),
        decreases upto - at,
    {
        let ghost before = store@;
        let child: usize = store.child(parent, at);
        proof {
            origin.tree.lemma_child(parent as nat, at as int);
            let place = origin.tree.nodes[parent as int].children()[at as int];
            assert(place.class != Class::Identifier);
            assert(before.unchecked(origin.tree.child(parent as nat, at as int)));
        }
        let result = if store.has_class(child, Class::Expression) {
            type_check_expression(store, ExprId(child))
        } else {
            type_check_statement(store, StmtId(child))
        };
        proof {
            store@.lemma_child_step(before, origin, parent as nat, at as int);
            store@.lemma_extends_keeps(before, child as nat);
            assert forall|j: int| 0 <= j < at implies store@.settled(
                #[trigger] origin.tree.child(parent as nat, j),
            ) by {
                store@.lemma_settled_stays(before, origin.tree.child(parent as nat, j));
            }
            assert(children_outcome(origin, parent as nat, (at + 1) as nat) == (store@, result));
        }
        if result.is_err() {
            proof {
                lemma_children_error_stays(origin, parent as nat, (at + 1) as nat, upto as nat);
            }
            return result;
        }
        at = at + 1;
    }
    Ok(())
}

/// Checks the parts of a loop: the two bounds of its range, which must be
/// constants; then the body, with the loop variable bound to the type of
/// the range.
fn check_loop_parts(
    store: &mut Store,
    expr_id: ExprId,
    identifier: IdentId,
    start_range: ExprId,
    end_range: ExprId,
    block: StmtId,
) -> (result: Result<(), TypeError>)
    requires
        old(store).wf(),
        old(store)@.tree.has(expr_id.0 as nat, Class::Expression),
        old(store)@.tree.nodes[expr_id.0 as int] matches Node::Expression(kind)
            && kind == (ExpressionKind::For { identifier, start_range, end_range, block }),
        old(store)@.unchecked(expr_id.0 as nat),
    ensures
        final(store).wf(),
        (final(store)@, result) == parts_outcome(old(store)@, expr_id.0 as nat),
        final(store)@.extends(old(store)@, expr_id.0 as nat),
        !final(store)@.typed(expr_id.0 as nat),
        result is Ok ==> forall|at: int|
            0 <= at < old(store)@.tree.child_count(expr_id.0 as nat) ==> final(store)@.settled(
                #[trigger] old(store)@.tree.child(expr_id.0 as nat, at),
            ),
    decreases expr_id.0, 1nat,
{
    let ghost origin = store@;
    let ghost loop_node = expr_id.0 as nat;
    proof {
        assert(origin.tree.node_well_formed(loop_node));
        assert(origin.tree.child(loop_node, 0) == start_range.0);
        assert(origin.tree.child(loop_node, 1) == end_range.0);
        assert(origin.tree.child(loop_node, 2) == identifier.0);
        assert(origin.tree.child(loop_node, 3) == block.0);
        origin.tree.lemma_child(loop_node, 0);
        origin.tree.lemma_child(loop_node, 1);
        origin.tree.lemma_child(loop_node, 2);
        origin.tree.lemma_child(loop_node, 3);
    }
    let ranges = check_children(store, expr_id.0, 2);
    if ranges.is_err() {
        return ranges;
    }
    let ghost ranged = store@;
    proof {
        assert(ranged.settled(origin.tree.child(loop_node, 0)));
        assert(ranged.settled(origin.tree.child(loop_node, 1)));
        assert(ranged.tree.owns(start_range.0 as nat, start_range.0 as nat));
        assert(ranged.tree.owns(end_range.0 as nat, end_range.0 as nat));
        assert(ranged.unchecked(origin.tree.child(loop_node, 2)));
        assert(ranged.unchecked(origin.tree.child(loop_node, 3)));
        assert(ranged.tree.owns(identifier.0 as nat, identifier.0 as nat));
    }
    let bound = match check_range(store.id_type(start_range.0), store.id_type(end_range.0)) {
        Ok(bound) => bound,
        Err(error) => {
            return Err(error);
        },
    };
    // The loop variable has the type of the range.
    store.push_ident_type(identifier, bound);
    let ghost bound_state = store@;
    proof {
        ranged.lemma_record_extends(identifier.0 as nat, bound);
        bound_state.lemma_child_step(ranged, origin, loop_node, 2);
        bound_state.lemma_extends_keeps(ranged, identifier.0 as nat);
        bound_state.lemma_settled_stays(ranged, start_range.0 as nat);
        bound_state.lemma_settled_stays(ranged, end_range.0 as nat);
        bound_state.lemma_leaf_settled(identifier.0 as nat);
    }
    let result = type_check_statement(store, block);
    proof {
        store@.lemma_child_step(bound_state, origin, loop_node, 3);
        store@.lemma_extends_keeps(bound_state, block.0 as nat);
        if result is Ok {
            store@.lemma_settled_stays(bound_state, start_range.0 as nat);
            store@.lemma_settled_stays(bound_state, end_range.0 as nat);
            store@.lemma_settled_stays(bound_state, identifier.0 as nat);
            assert forall|at: int| 0 <= at < origin.tree.child_count(loop_node) implies store@.settled(
                #[trigger] origin.tree.child(loop_node, at),
            ) by {
                assert(at == 0 || at == 1 || at == 2 || at == 3);
            }
        }
    }
    result
}

/// Checks the expression `expr_id`: every sub-expression first, in order,
/// then the expression itself by the rule for its kind. The type of the
/// expression is recorded as the last step, and the first failure ends the
/// check, with no type recorded for the expression.
pub fn type_check_expression(store: &mut Store, expr_id: ExprId) -> (result: Result<
    (),
    TypeError,
>)
    requires
        old(store).wf(),
        old(store)@.tree.has(expr_id.0 as nat, Class::Expression),
        old(store)@.unchecked(expr_id.0 as nat),
    ensures
        final(store).wf(),
        (final(store)@, result) == node_outcome(old(store)@, expr_id.0 as nat),
        final(store)@.extends(old(store)@, expr_id.0 as nat),
        result is Ok ==> final(store)@.settled(expr_id.0 as nat),
        result is Err ==> !final(store)@.typed(expr_id.0 as nat),
    decreases expr_id.0, 2nat,
{
    let ghost origin = store@;
    proof {
        assert(origin.tree.node_well_formed(expr_id.0 as nat));
    }
    let parts = match store.expression(expr_id) {
        ExpressionKind::For { identifier, start_range, end_range, block } => {
            let identifier = *identifier;
            let start_range = *start_range;
            let end_range = *end_range;
            let block = *block;
            check_loop_parts(store, expr_id, identifier, start_range, end_range, block)
        },
        _ => {
            let count: usize = store.child_count(expr_id.0);
            check_children(store, expr_id.0, count)
        },
    };
    if parts.is_err() {
        return parts;
    }
    let ghost visited = store@;
    proof {
        visited.lemma_settled_is_readable(expr_id.0 as nat);
    }
    match expression_type(store, expr_id) {
        Ok(typ) => {
            store.push_expr_type(expr_id, typ);
            proof {
                visited.lemma_record_extends(expr_id.0 as nat, typ);
                store@.lemma_extends_twice(visited, origin, expr_id.0 as nat);
                visited.lemma_record_settles(expr_id.0 as nat, typ);
            }
            Ok(())
        },
        Err(error) => Err(error),
    }
}

/// Checks the statement `stmt_id`: an expression statement by checking its
/// expression, a block by checking its statements in order. A type is
/// recorded for the statement as the last step: that of its expression for
/// an expression statement, `Unit` for every other.
pub fn type_check_statement(store: &mut Store, stmt_id: StmtId) -> (result: Result<(), TypeError>)
    requires
        old(store).wf(),
        old(store)@.tree.has(stmt_id.0 as nat, Class::Statement),
        old(store)@.unchecked(stmt_id.0 as nat),
    ensures
        final(store).wf(),
        (final(store)@, result) == node_outcome(old(store)@, stmt_id.0 as nat),
        final(store)@.extends(old(store)@, stmt_id.0 as nat),
        result is Ok ==> final(store)@.settled(stmt_id.0 as nat),
        result is Err ==> !final(store)@.typed(stmt_id.0 as nat),
    decreases stmt_id.0, 2nat,
{
    let ghost origin = store@;
    let count: usize = store.child_count(stmt_id.0);
    let parts = check_children(store, stmt_id.0, count);
    if parts.is_err() {
        return parts;
    }
    let ghost visited = store@;
    proof {
        visited.lemma_settled_is_readable(stmt_id.0 as nat);
    }
    match statement_type(store, stmt_id) {
        Ok(typ) => {
            store.record_type(stmt_id.0, typ);
            proof {
                visited.lemma_record_extends(stmt_id.0 as nat, typ);
                store@.lemma_extends_twice(visited, origin, stmt_id.0 as nat);
                visited.lemma_record_settles(stmt_id.0 as nat, typ);
            }
            Ok(())
        },
        Err(error) => Err(error),
    }
}

/// Whether nothing in the subtree below `root` has a type recorded: this is
/// what a check of `root` asks for.
pub fn is_unchecked(store: &Store, root: usize) -> (yes: bool)
    requires
        store.wf(),
        root < store@.tree.nodes.len(),
    ensures
        yes == store@.unchecked(root as nat),
    decreases root,
{
    if store.recorded_type(root).is_some() {
        proof {
            assert(store@.tree.owns(root as nat, root as nat));
        }
        return false;
    }
    let count: usize = store.child_count(root);
    let mut at: usize = 0;
    while at < count
        invariant
            store.wf(),
            root < store@.tree.nodes.len(),
            count == store@.tree.child_count(root as nat),
            at <= count,
            forall|j: int|
                0 <= j < at ==> store@.unchecked(#[trigger] store@.tree.child(root as nat, j)),
        decreases count - at,
    {
        let child: usize = store.child(root, at);
        proof {
            store@.tree.lemma_child(root as nat, at as int);
        }
        if !is_unchecked(store, child) {
            proof {
                let handle = choose|handle: nat| #[trigger]
                    store@.tree.owns(child as nat, handle) && store@.typed(handle);
                store@.tree.lemma_owns_through(root as nat, child as nat, handle);
            }
            return false;
        }
        at = at + 1;
    }
    proof {
        assert forall|handle: nat| #[trigger] store@.tree.owns(
            root as nat,
            handle,
        ) implies !store@.typed(handle) by {
            if handle != root {
                let slot = store@.tree.lemma_owned_by_a_child(root as nat, handle);
                assert(store@.unchecked(store@.tree.child(root as nat, slot)));
            }
        }
    }
    true
}

} // verus!
