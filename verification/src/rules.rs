//! The typing rule of each node kind: the type of a node, given the types
//! recorded for its children and for the definitions that it refers to.

use vstd::prelude::*;
use crate::array::{array_literal_type, check_array_literal};
use crate::call::{arguments_fit, check_call_arguments};
use crate::errors::{Construct, RangeBound, TypeError};
use crate::infix::{infix_operand_type_rules, infix_result_type};
use crate::ir::{Class, ExprId, ExpressionKind, IdentId, Literal, Node, StatementKind, StmtId};
use crate::store::{Snapshot, Store};
use crate::types::{ArraySize, Type};

verus! {

impl Snapshot {
    /// The types recorded for the children of `parent`, in order.
    pub open spec fn child_types(self, parent: nat) -> Seq<Type> {
        Seq::new(
            self.tree.child_count(parent),
            |at: int| self.type_of(self.tree.child(parent, at)),
        )
    }

    /// The type of the definition that `ident` resolves to. An identifier
    /// without a definition, or whose definition has no type yet, is
    /// unresolved.
    pub open spec fn definition_type(self, ident: IdentId) -> Result<Type, TypeError> {
        match self.definition(ident) {
            Some(definition) => if self.typed(definition.0 as nat) {
                Ok(self.type_of(definition.0 as nat))
            } else {
                Err(TypeError::UnresolvedIdentifier { identifier: ident })
            },
            None => Err(TypeError::UnresolvedIdentifier { identifier: ident }),
        }
    }

    /// The type that the block `block` hands on: that of its last statement
    /// if this is an expression statement, `Unit` if the block is empty or
    /// ends in another statement. A block that ends in a block is not
    /// supported.
    pub open spec fn trailing_type(self, block: nat) -> Result<Type, TypeError> {
        let count = self.tree.child_count(block);
        if count == 0 {
            Ok(Type::Unit)
        } else {
            match self.tree.nodes[self.tree.child(block, count - 1) as int] {
                Node::Statement(StatementKind::Expression(expr)) => Ok(
                    self.type_of(expr.0 as nat),
                ),
                Node::Statement(StatementKind::Block(_)) => Err(
                    TypeError::UnsupportedConstruct { construct: Construct::TrailingBlock },
                ),
                _ => Ok(Type::Unit),
            }
        }
    }

    /// The type of the node `handle` by the rule for its kind, read off a
    /// table that holds the types of its children:
    ///
    /// - an identifier has the type of its definition;
    /// - an integer literal is a `Constant`, an array literal is typed by
    ///   its elements;
    /// - an infix expression is typed by its operator and operands;
    /// - an index expression has the element type of the array that the
    ///   collection names, whatever the type of the index is;
    /// - a call has the function's return type, if the arguments are as
    ///   many as the parameters and each fits its parameter;
    /// - a cast has the type that it names;
    /// - a loop is an array of unknown length of what its body hands on;
    /// - literals of other kinds, prefix, predicate and conditional
    ///   expressions are not supported;
    /// - an expression statement has the type of its expression, every
    ///   other statement is `Unit`.
    pub open spec fn node_type(self, handle: nat) -> Result<Type, TypeError> {
        match self.tree.nodes[handle as int] {
            Node::Expression(kind) => match kind {
                ExpressionKind::Ident(ident) => self.definition_type(ident),
                ExpressionKind::Literal(Literal::Array(_)) => array_literal_type(
                    self.child_types(handle),
                ),
                ExpressionKind::Literal(Literal::Integer(_)) => Ok(Type::Constant),
                ExpressionKind::Literal(Literal::Bool(_)) => Err(
                    TypeError::UnsupportedConstruct { construct: Construct::BoolLiteral },
                ),
                ExpressionKind::Literal(Literal::Str(_)) => Err(
                    TypeError::UnsupportedConstruct { construct: Construct::StrLiteral },
                ),
                ExpressionKind::Prefix { .. } => Err(
                    TypeError::UnsupportedConstruct { construct: Construct::Prefix },
                ),
                ExpressionKind::Infix { lhs, operator, rhs } => infix_result_type(
                    self.type_of(lhs.0 as nat),
                    operator,
                    self.type_of(rhs.0 as nat),
                ),
                ExpressionKind::Index { collection, .. } => match self.definition_type(
                    collection,
                ) {
                    Ok(Type::Array(_, element)) => Ok(*element),
                    Ok(found) => Err(TypeError::IndexOnNonArray { found }),
                    Err(error) => Err(error),
                },
                ExpressionKind::Call { func, .. } => match arguments_fit(
                    self.tree.functions[func.0 as int].parameters@,
                    self.child_types(handle),
                ) {
                    Ok(()) => Ok(self.tree.functions[func.0 as int].return_type),
                    Err(error) => Err(error),
                },
                ExpressionKind::Cast { target, .. } => Ok(target),
                ExpressionKind::Predicate { .. } => Err(
                    TypeError::UnsupportedConstruct { construct: Construct::Predicate },
                ),
                ExpressionKind::For { block, .. } => match self.trailing_type(block.0 as nat) {
                    Ok(last) => Ok(Type::Array(ArraySize::Variable, Box::new(last))),
                    Err(error) => Err(error),
                },
                ExpressionKind::If { .. } => Err(
                    TypeError::UnsupportedConstruct { construct: Construct::Conditional },
                ),
            },
            Node::Statement(StatementKind::Expression(expr)) => Ok(self.type_of(expr.0 as nat)),
            _ => Ok(Type::Unit),
        }
    }
}

/// The type that a loop binds its variable to, from the types of the two
/// bounds of its range: both must be `Constant`, the start is looked at
/// first, and the two must agree.
pub open spec fn range_type(start: Type, end: Type) -> Result<Type, TypeError> {
    if start != Type::Constant {
        Err(TypeError::NonConstantRangeBound { bound: RangeBound::Start, found: start })
    } else if end != Type::Constant {
        Err(TypeError::NonConstantRangeBound { bound: RangeBound::End, found: end })
    } else if start != end {
        Err(TypeError::RangeBoundTypeMismatch { start, end })
    } else {
        Ok(start)
    }
}

/// Checks the types of the two bounds of a loop's range, and gives the type
/// that the loop variable is bound to.
pub fn check_range(start: &Type, end: &Type) -> (result: Result<Type, TypeError>)
    ensures
        result == range_type(*start, *end),
{
    if !start.same_as(&Type::Constant) {
        return Err(
            TypeError::NonConstantRangeBound { bound: RangeBound::Start, found: start.clone() },
        );
    }
    if !end.same_as(&Type::Constant) {
        return Err(TypeError::NonConstantRangeBound { bound: RangeBound::End, found: end.clone() });
    }
    // With both bounds constant this cannot fail; it is kept for the day
    // when a range may have bounds of another type.

    if !start.same_as(end) {
        return Err(TypeError::RangeBoundTypeMismatch { start: start.clone(), end: end.clone() });
    }
    Ok(start.clone())
}

/// A range is accepted exactly when both bounds are constants, and the loop
/// variable is then a constant; the bounds of an accepted range never differ
/// in type.
pub proof fn lemma_range_type(start: Type, end: Type)
    ensures
        range_type(start, end) is Ok <==> start == Type::Constant && end == Type::Constant,
        range_type(start, end) is Ok ==> range_type(start, end) == Ok::<Type, TypeError>(
            Type::Constant,
        ),
        !(range_type(start, end) matches Err(TypeError::RangeBoundTypeMismatch { .. })),
{
}

/// The type of the definition that `ident` resolves to.
pub fn definition_type(store: &Store, ident: IdentId) -> (result: Result<Type, TypeError>)
    ensures
        result == store@.definition_type(ident),
{
    match store.ident_def(&ident) {
        Some(definition) => match store.recorded_type(definition.0) {
            Some(typ) => Ok(typ.clone()),
            None => Err(TypeError::UnresolvedIdentifier { identifier: ident }),
        },
        None => Err(TypeError::UnresolvedIdentifier { identifier: ident }),
    }
}

impl Snapshot {
    /// If the block `block` ends in an expression statement, a type is
    /// recorded for that expression.
    pub open spec fn trailing_recorded(self, block: nat) -> bool {
        let count = self.tree.child_count(block);
        count > 0 ==> (self.tree.nodes[self.tree.child(block, count - 1) as int] matches Node::Statement(
            StatementKind::Expression(expr),
        ) ==> self.typed(expr.0 as nat))
    }

    /// The table holds what the rule for the node `handle` reads: a type for
    /// each child and, for a loop, for the expression that its body ends in.
    pub open spec fn readable(self, handle: nat) -> bool {
        &&& forall|at: int|
            0 <= at < self.tree.child_count(handle) ==> self.typed(
                #[trigger] self.tree.child(handle, at),
            )
        &&& self.tree.nodes[handle as int] matches Node::Expression(
            ExpressionKind::For { block, .. },
        ) ==> self.trailing_recorded(block.0 as nat)
    }

    /// Once the children of a node are checked, its rule can be read off.
    pub proof fn lemma_checked_is_readable(self, handle: nat)
        requires
            self.well_formed(),
            handle < self.tree.nodes.len(),
            self.children_checked(handle),
        ensures
            self.readable(handle),
    {
        assert forall|at: int| 0 <= at < self.tree.child_count(handle) implies self.typed(
            #[trigger] self.tree.child(handle, at),
        ) by {
            let child = self.tree.child(handle, at);
            assert(self.checked(child));
            assert(self.tree.owns(child, child));
        }
        if let Node::Expression(ExpressionKind::For { block, .. }) = self.tree.nodes[handle as int] {
            let body = block.0 as nat;
            assert(self.tree.child(handle, 3) == body);
            self.tree.lemma_child(handle, 3);
            assert(self.checked(body));
            let count = self.tree.child_count(body);
            if count > 0 {
                let last = self.tree.child(body, count - 1);
                self.tree.lemma_child(body, count - 1);
                if let Node::Statement(StatementKind::Expression(expr)) = self.tree.nodes[last as int] {
                    assert(self.tree.child(last, 0) == expr.0);
                    self.tree.lemma_child(last, 0);
                    assert(self.tree.owns(last, last));
                    assert(self.tree.owns(last, expr.0 as nat));
                    self.tree.lemma_owns_through(body, last, expr.0 as nat);
                }
            }
        }
    }
}

/// The type that a block hands on to the loop whose body it is: the type of
/// its last statement, if that is an expression statement, and `Unit` if the
/// block is empty or ends otherwise. A block that ends in a block is
/// rejected.
pub fn extract_last_type_from_block(store: &Store, stmt_id: StmtId) -> (result: Result<
    Type,
    TypeError,
>)
    requires
        store.wf(),
        store@.tree.has(stmt_id.0 as nat, Class::Block),
        store@.trailing_recorded(stmt_id.0 as nat),
    ensures
        result == store@.trailing_type(stmt_id.0 as nat),
{
    let count: usize = store.child_count(stmt_id.0);
    if count == 0 {
        return Ok(Type::Unit);
    }
    let last_stmt_id: usize = store.child(stmt_id.0, count - 1);
    proof {
        store@.tree.lemma_child(stmt_id.0 as nat, count - 1);
    }
    // If the last statement is an expression statement, its value is what
    // the block hands on; any other statement hands on nothing.
    match store.statement(StmtId(last_stmt_id)) {
        StatementKind::Expression(expr_id) => Ok(store.id_type(expr_id.0).clone()),
        StatementKind::Block(_) => Err(
            TypeError::UnsupportedConstruct { construct: Construct::TrailingBlock },
        ),
        _ => Ok(Type::Unit),
    }
}

/// The types recorded for the children of `parent`, in order.
pub fn child_types(store: &Store, parent: usize) -> (types: Vec<Type>)
    requires
        parent < store@.tree.nodes.len(),
        forall|at: int|
            0 <= at < store@.tree.child_count(parent as nat) ==> store@.typed(
                #[trigger] store@.tree.child(parent as nat, at),
            ),
    ensures
        types@ == store@.child_types(parent as nat),
{
    let count: usize = store.child_count(parent);
    let mut types: Vec<Type> = Vec::with_capacity(count);
    let mut at: usize = 0;
    while at < count
        invariant
            parent < store@.tree.nodes.len(),
            count == store@.tree.child_count(parent as nat),
            at <= count,
            types@.len() == at,
            forall|i: int|
                0 <= i < count ==> store@.typed(#[trigger] store@.tree.child(parent as nat, i)),
            forall|i: int|
                0 <= i < at ==> #[trigger] types@[i] == store@.type_of(
                    store@.tree.child(parent as nat, i),
                ),
        decreases count - at,
    {
        let child: usize = store.child(parent, at);
        types.push(store.id_type(child).clone());
        at = at + 1;
    }
    assert(types@ =~= store@.child_types(parent as nat));
    types
}

/// The type of the expression `expr_id` by the rule for its kind, once the
/// types of its parts are recorded.
pub fn expression_type(store: &Store, expr_id: ExprId) -> (result: Result<Type, TypeError>)
    requires
        store.wf(),
        store@.tree.has(expr_id.0 as nat, Class::Expression),
        store@.readable(expr_id.0 as nat),
    ensures
        result == store@.node_type(expr_id.0 as nat),
{
    proof {
        assert(store@.tree.node_well_formed(expr_id.0 as nat));
    }
    match store.expression(expr_id) {
        ExpressionKind::Ident(ident_id) => {
            // The type of an identifier expression is the type of the
            // identifier that defines it.
            definition_type(store, *ident_id)
        },
        ExpressionKind::Literal(literal) => match literal {
            Literal::Array(_) => {
                let arr_types = child_types(store, expr_id.0);
                check_array_literal(&arr_types)
            },
            Literal::Bool(_) => Err(
                TypeError::UnsupportedConstruct { construct: Construct::BoolLiteral },
            ),
            // An integer literal is always a constant.
            Literal::Integer(_) => Ok(Type::Constant),
            Literal::Str(_) => Err(
                TypeError::UnsupportedConstruct { construct: Construct::StrLiteral },
            ),
        },
        ExpressionKind::Prefix { .. } => Err(
            TypeError::UnsupportedConstruct { construct: Construct::Prefix },
        ),
        ExpressionKind::Infix { lhs, operator, rhs } => {
            proof {
                assert(store@.tree.child(expr_id.0 as nat, 0) == lhs.0);
                assert(store@.tree.child(expr_id.0 as nat, 1) == rhs.0);
            }
            infix_operand_type_rules(store.id_type(lhs.0), operator, store.id_type(rhs.0))
        },
        ExpressionKind::Index { collection, .. } => match definition_type(store, *collection) {
            Ok(Type::Array(_, base_type)) => Ok(*base_type),
            Ok(found) => Err(TypeError::IndexOnNonArray { found }),
            Err(error) => Err(error),
        },
        ExpressionKind::Call { func, .. } => {
            let func_meta = store.function_meta(*func);
            let arg_types = child_types(store, expr_id.0);
            match check_call_arguments(&func_meta.parameters, &arg_types) {
                // The type of a call is the return type of the function.
                Ok(()) => Ok(func_meta.return_type.clone()),
                Err(error) => Err(error),
            }
        },
        ExpressionKind::Cast { target, .. } => Ok(target.clone()),
        ExpressionKind::Predicate { .. } => Err(
            TypeError::UnsupportedConstruct { construct: Construct::Predicate },
        ),
        ExpressionKind::For { block, .. } => {
            proof {
                assert(store@.tree.child(expr_id.0 as nat, 3) == block.0);
                store@.tree.lemma_child(expr_id.0 as nat, 3);
            }
            match extract_last_type_from_block(store, *block) {
                Ok(last_type) => Ok(Type::Array(ArraySize::Variable, Box::new(last_type))),
                Err(error) => Err(error),
            }
        },
        ExpressionKind::If { .. } => Err(
            TypeError::UnsupportedConstruct { construct: Construct::Conditional },
        ),
    }
}

/// The type of the statement `stmt_id`: that of its expression if it is an
/// expression statement, else `Unit`.
pub fn statement_type(store: &Store, stmt_id: StmtId) -> (result: Result<Type, TypeError>)
    requires
        store.wf(),
        store@.tree.has(stmt_id.0 as nat, Class::Statement),
        store@.readable(stmt_id.0 as nat),
    ensures
        result == store@.node_type(stmt_id.0 as nat),
{
    match store.statement(stmt_id) {
        StatementKind::Expression(expr_id) => {
            proof {
                assert(store@.tree.child(stmt_id.0 as nat, 0) == expr_id.0);
            }
            Ok(store.id_type(expr_id.0).clone())
        },
        _ => Ok(Type::Unit),
    }
}

} // verus!
