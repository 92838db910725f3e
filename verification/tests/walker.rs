use noirc_frontend::check::{is_unchecked, type_check_expression, type_check_statement};
use noirc_frontend::errors::{Construct, RangeBound, TypeError};
use noirc_frontend::ir::{
    BinaryOp, ExprId, ExpressionKind, FuncId, FuncMeta, IdentId, Literal, Param, StatementKind,
    StmtId, UnaryOp,
};
use noirc_frontend::rules::extract_last_type_from_block;
use noirc_frontend::store::Store;
use noirc_frontend::types::{ArraySize, Signedness, Type};

fn u32_type() -> Type {
    Type::Integer(Signedness::Unsigned, 32)
}

fn i32_type() -> Type {
    Type::Integer(Signedness::Signed, 32)
}

fn fixed(length: u128, element: Type) -> Type {
    Type::Array(ArraySize::Fixed(length), Box::new(element))
}

fn variable(element: Type) -> Type {
    Type::Array(ArraySize::Variable, Box::new(element))
}

fn integer(store: &mut Store, value: u128) -> ExprId {
    store.push_expression(ExpressionKind::Literal(Literal::Integer(value))).unwrap()
}

/// A definition with the given type, and an expression that uses it.
fn variable_of(store: &mut Store, typ: Type) -> ExprId {
    let definition = store.push_identifier(None).unwrap();
    store.push_ident_type(definition, typ);
    let usage = store.push_identifier(Some(definition)).unwrap();
    store.push_expression(ExpressionKind::Ident(usage)).unwrap()
}

fn infix(store: &mut Store, lhs: ExprId, operator: BinaryOp, rhs: ExprId) -> ExprId {
    store.push_expression(ExpressionKind::Infix { lhs, operator, rhs }).unwrap()
}

fn block_of(store: &mut Store, statements: Vec<StmtId>) -> StmtId {
    store.push_statement(StatementKind::Block(statements)).unwrap()
}

fn for_loop(store: &mut Store, start_range: ExprId, end_range: ExprId, block: StmtId) -> ExprId {
    let identifier = store.push_identifier(None).unwrap();
    store
        .push_expression(ExpressionKind::For { identifier, start_range, end_range, block })
        .unwrap()
}

fn typed_handles(store: &Store) -> usize {
    (0..store.node_count()).filter(|handle| store.recorded_type(*handle).is_some()).count()
}

fn unsupported(construct: Construct) -> Result<(), TypeError> {
    Err(TypeError::UnsupportedConstruct { construct })
}

#[test]
fn integer_literal_is_a_constant() {
    let mut store = Store::new();
    let expr = integer(&mut store, 5);
    assert_eq!(type_check_expression(&mut store, expr), Ok(()));
    assert_eq!(store.recorded_type(expr.0), Some(&Type::Constant));
    assert_eq!(store.id_type(expr.0), &Type::Constant);
}

#[test]
fn identifier_has_the_type_of_its_definition() {
    let mut store = Store::new();
    let expr = variable_of(&mut store, Type::Witness);
    assert_eq!(type_check_expression(&mut store, expr), Ok(()));
    assert_eq!(store.recorded_type(expr.0), Some(&Type::Witness));
}

#[test]
fn identifier_without_definition_is_unresolved() {
    let mut store = Store::new();
    let usage = store.push_identifier(None).unwrap();
    let expr = store.push_expression(ExpressionKind::Ident(usage)).unwrap();
    assert_eq!(
        type_check_expression(&mut store, expr),
        Err(TypeError::UnresolvedIdentifier { identifier: usage })
    );
    assert_eq!(store.recorded_type(expr.0), None);
}

#[test]
fn identifier_whose_definition_has_no_type_is_unresolved() {
    let mut store = Store::new();
    let definition = store.push_identifier(None).unwrap();
    let usage = store.push_identifier(Some(definition)).unwrap();
    let expr = store.push_expression(ExpressionKind::Ident(usage)).unwrap();
    assert_eq!(store.ident_def(&usage), Some(definition));
    assert_eq!(store.ident_def(&definition), None);
    assert_eq!(
        type_check_expression(&mut store, expr),
        Err(TypeError::UnresolvedIdentifier { identifier: usage })
    );
}

#[test]
fn array_literal_of_constants() {
    let mut store = Store::new();
    let elements = vec![integer(&mut store, 1), integer(&mut store, 2), integer(&mut store, 3)];
    let array =
        store.push_expression(ExpressionKind::Literal(Literal::Array(elements.clone()))).unwrap();
    assert_eq!(type_check_expression(&mut store, array), Ok(()));
    assert_eq!(store.recorded_type(array.0), Some(&fixed(3, Type::Constant)));
    for element in elements {
        assert_eq!(store.recorded_type(element.0), Some(&Type::Constant));
    }
}

#[test]
fn array_literal_with_one_element() {
    let mut store = Store::new();
    let element = variable_of(&mut store, Type::Witness);
    let array =
        store.push_expression(ExpressionKind::Literal(Literal::Array(vec![element]))).unwrap();
    assert_eq!(type_check_expression(&mut store, array), Ok(()));
    assert_eq!(store.recorded_type(array.0), Some(&fixed(1, Type::Witness)));
}

#[test]
fn array_literal_mixing_constant_and_integer_is_heterogeneous() {
    let u8_type = Type::Integer(Signedness::Unsigned, 8);
    for odd in 0..3 {
        let mut store = Store::new();
        let mut elements = Vec::new();
        for position in 0..3 {
            if position == odd {
                elements.push(variable_of(&mut store, u8_type.clone()));
            } else {
                elements.push(integer(&mut store, 1));
            }
        }
        let array = store
            .push_expression(ExpressionKind::Literal(Literal::Array(elements.clone())))
            .unwrap();
        let expected = if odd == 0 {
            TypeError::HeterogeneousArray { left: u8_type.clone(), right: Type::Constant }
        } else {
            TypeError::HeterogeneousArray { left: Type::Constant, right: u8_type.clone() }
        };
        assert_eq!(type_check_expression(&mut store, array), Err(expected));
        // The elements were checked, the literal itself has no type.
        assert_eq!(store.recorded_type(array.0), None);
        for element in elements {
            assert!(store.recorded_type(element.0).is_some());
        }
    }
}

#[test]
fn boolean_and_string_literals_are_not_supported() {
    let mut store = Store::new();
    let yes = store.push_expression(ExpressionKind::Literal(Literal::Bool(true))).unwrap();
    let text = store
        .push_expression(ExpressionKind::Literal(Literal::Str(String::from("hello"))))
        .unwrap();
    assert_eq!(type_check_expression(&mut store, yes), unsupported(Construct::BoolLiteral));
    assert_eq!(type_check_expression(&mut store, text), unsupported(Construct::StrLiteral));
    assert_eq!(store.writes(), 0);
}

#[test]
fn prefix_predicate_and_conditional_are_not_supported() {
    let mut store = Store::new();
    let one = integer(&mut store, 1);
    let two = integer(&mut store, 2);
    let body = block_of(&mut store, vec![]);
    let prefix =
        store.push_expression(ExpressionKind::Prefix { operator: UnaryOp::Minus, rhs: one }).unwrap();
    let predicate = store
        .push_expression(ExpressionKind::Predicate { lhs: one, operator: BinaryOp::Less, rhs: two })
        .unwrap();
    let conditional =
        store.push_expression(ExpressionKind::If { condition: two, consequence: body }).unwrap();
    assert_eq!(type_check_expression(&mut store, prefix), unsupported(Construct::Prefix));
    assert_eq!(type_check_expression(&mut store, predicate), unsupported(Construct::Predicate));
    assert_eq!(type_check_expression(&mut store, conditional), unsupported(Construct::Conditional));
    assert_eq!(store.writes(), 0);
}

#[test]
fn infix_of_integer_and_constant() {
    let mut store = Store::new();
    let lhs = variable_of(&mut store, u32_type());
    let rhs = integer(&mut store, 1);
    let sum = infix(&mut store, lhs, BinaryOp::Add, rhs);
    assert_eq!(type_check_expression(&mut store, sum), Ok(()));
    assert_eq!(store.recorded_type(lhs.0), Some(&u32_type()));
    assert_eq!(store.recorded_type(rhs.0), Some(&Type::Constant));
    assert_eq!(store.recorded_type(sum.0), Some(&u32_type()));
}

#[test]
fn infix_comparison_is_bool() {
    let mut store = Store::new();
    let lhs = variable_of(&mut store, u32_type());
    let rhs = variable_of(&mut store, i32_type());
    let less = infix(&mut store, lhs, BinaryOp::Less, rhs);
    assert_eq!(type_check_expression(&mut store, less), Ok(()));
    assert_eq!(store.recorded_type(less.0), Some(&Type::Bool));
}

#[test]
fn infix_mismatch_leaves_the_operands_typed() {
    let mut store = Store::new();
    let lhs = variable_of(&mut store, u32_type());
    let rhs = variable_of(&mut store, i32_type());
    let sum = infix(&mut store, lhs, BinaryOp::Add, rhs);
    assert_eq!(
        type_check_expression(&mut store, sum),
        Err(TypeError::SignednessMismatch { lhs: Signedness::Unsigned, rhs: Signedness::Signed })
    );
    assert_eq!(store.recorded_type(lhs.0), Some(&u32_type()));
    assert_eq!(store.recorded_type(rhs.0), Some(&i32_type()));
    assert_eq!(store.recorded_type(sum.0), None);
}

#[test]
fn first_failure_ends_the_check() {
    let mut store = Store::new();
    let bad = store.push_expression(ExpressionKind::Literal(Literal::Bool(false))).unwrap();
    let good = integer(&mut store, 1);
    let sum = infix(&mut store, bad, BinaryOp::Add, good);
    assert_eq!(type_check_expression(&mut store, sum), unsupported(Construct::BoolLiteral));
    // The right operand comes after the failure and is not looked at.
    assert_eq!(store.recorded_type(good.0), None);
    assert_eq!(store.writes(), 0);
}

#[test]
fn nested_infix_is_checked_bottom_up() {
    let mut store = Store::new();
    let a = variable_of(&mut store, Type::Public);
    let b = integer(&mut store, 2);
    let c = variable_of(&mut store, Type::FieldElement);
    let product = infix(&mut store, a, BinaryOp::Multiply, b);
    let sum = infix(&mut store, product, BinaryOp::Add, c);
    assert_eq!(type_check_expression(&mut store, sum), Ok(()));
    assert_eq!(store.recorded_type(product.0), Some(&Type::Witness));
    assert_eq!(store.recorded_type(sum.0), Some(&Type::Witness));
}

#[test]
fn index_has_the_element_type_of_the_array() {
    let mut store = Store::new();
    let definition = store.push_identifier(None).unwrap();
    store.push_ident_type(definition, fixed(4, u32_type()));
    let collection = store.push_identifier(Some(definition)).unwrap();
    let index = integer(&mut store, 0);
    let element = store.push_expression(ExpressionKind::Index { collection, index }).unwrap();
    assert_eq!(type_check_expression(&mut store, element), Ok(()));
    assert_eq!(store.recorded_type(element.0), Some(&u32_type()));
    // The index is checked before the expression that it belongs to.
    assert_eq!(store.recorded_type(index.0), Some(&Type::Constant));
    assert_eq!(store.writes(), 3);
}

#[test]
fn index_may_be_any_expression_that_checks() {
    let mut store = Store::new();
    let definition = store.push_identifier(None).unwrap();
    store.push_ident_type(definition, fixed(4, Type::FieldElement));
    let collection = store.push_identifier(Some(definition)).unwrap();
    let position = variable_of(&mut store, u32_type());
    let one = integer(&mut store, 1);
    let index = infix(&mut store, position, BinaryOp::Add, one);
    let element = store.push_expression(ExpressionKind::Index { collection, index }).unwrap();
    assert_eq!(type_check_expression(&mut store, element), Ok(()));
    assert_eq!(store.recorded_type(position.0), Some(&u32_type()));
    assert_eq!(store.recorded_type(one.0), Some(&Type::Constant));
    assert_eq!(store.recorded_type(index.0), Some(&u32_type()));
    assert_eq!(store.recorded_type(element.0), Some(&Type::FieldElement));
}

#[test]
fn index_that_fails_fails_the_index_expression() {
    let mut store = Store::new();
    let definition = store.push_identifier(None).unwrap();
    store.push_ident_type(definition, fixed(4, u32_type()));
    let collection = store.push_identifier(Some(definition)).unwrap();
    let index = store.push_expression(ExpressionKind::Literal(Literal::Bool(true))).unwrap();
    let element = store.push_expression(ExpressionKind::Index { collection, index }).unwrap();
    assert_eq!(type_check_expression(&mut store, element), unsupported(Construct::BoolLiteral));
    assert_eq!(store.recorded_type(index.0), None);
    assert_eq!(store.recorded_type(element.0), None);
}

#[test]
fn index_is_checked_before_the_collection_is_looked_at() {
    let mut store = Store::new();
    let collection = store.push_identifier(None).unwrap();
    let lhs = variable_of(&mut store, u32_type());
    let rhs = variable_of(&mut store, i32_type());
    let index = infix(&mut store, lhs, BinaryOp::Add, rhs);
    let element = store.push_expression(ExpressionKind::Index { collection, index }).unwrap();
    assert_eq!(
        type_check_expression(&mut store, element),
        Err(TypeError::SignednessMismatch { lhs: Signedness::Unsigned, rhs: Signedness::Signed })
    );
}

#[test]
fn index_of_variable_array() {
    let mut store = Store::new();
    let definition = store.push_identifier(None).unwrap();
    store.push_ident_type(definition, variable(fixed(2, Type::Bool)));
    let collection = store.push_identifier(Some(definition)).unwrap();
    let index = integer(&mut store, 0);
    let element = store.push_expression(ExpressionKind::Index { collection, index }).unwrap();
    assert_eq!(type_check_expression(&mut store, element), Ok(()));
    assert_eq!(store.recorded_type(element.0), Some(&fixed(2, Type::Bool)));
}

#[test]
fn index_on_non_array_is_an_error() {
    let mut store = Store::new();
    let definition = store.push_identifier(None).unwrap();
    store.push_ident_type(definition, Type::FieldElement);
    let collection = store.push_identifier(Some(definition)).unwrap();
    let index = integer(&mut store, 0);
    let element = store.push_expression(ExpressionKind::Index { collection, index }).unwrap();
    assert_eq!(
        type_check_expression(&mut store, element),
        Err(TypeError::IndexOnNonArray { found: Type::FieldElement })
    );
    assert_eq!(store.recorded_type(index.0), Some(&Type::Constant));
    assert_eq!(store.recorded_type(element.0), None);
}

#[test]
fn index_on_unresolved_collection() {
    let mut store = Store::new();
    let collection = store.push_identifier(None).unwrap();
    let index = integer(&mut store, 0);
    let element = store.push_expression(ExpressionKind::Index { collection, index }).unwrap();
    assert_eq!(
        type_check_expression(&mut store, element),
        Err(TypeError::UnresolvedIdentifier { identifier: collection })
    );
}

fn declare_u32_to_bool(store: &mut Store) -> (FuncId, IdentId) {
    let x = store.push_identifier(None).unwrap();
    let func = store.push_function(FuncMeta {
        parameters: vec![Param(x, u32_type())],
        return_type: Type::Bool,
    });
    (func, x)
}

#[test]
fn call_with_matching_argument_has_the_return_type() {
    let mut store = Store::new();
    let (func, _) = declare_u32_to_bool(&mut store);
    let argument = variable_of(&mut store, u32_type());
    let call =
        store.push_expression(ExpressionKind::Call { func, arguments: vec![argument] }).unwrap();
    assert_eq!(type_check_expression(&mut store, call), Ok(()));
    assert_eq!(store.recorded_type(call.0), Some(&Type::Bool));
    assert_eq!(store.recorded_type(argument.0), Some(&u32_type()));
}

#[test]
fn call_with_no_argument_is_an_arity_error() {
    let mut store = Store::new();
    let (func, _) = declare_u32_to_bool(&mut store);
    let call = store.push_expression(ExpressionKind::Call { func, arguments: vec![] }).unwrap();
    assert_eq!(
        type_check_expression(&mut store, call),
        Err(TypeError::ArityMismatch { expected: 1, found: 0 })
    );
}

#[test]
fn call_with_two_arguments_is_an_arity_error() {
    let mut store = Store::new();
    let (func, _) = declare_u32_to_bool(&mut store);
    let first = variable_of(&mut store, u32_type());
    let second = variable_of(&mut store, u32_type());
    let call = store
        .push_expression(ExpressionKind::Call { func, arguments: vec![first, second] })
        .unwrap();
    assert_eq!(
        type_check_expression(&mut store, call),
        Err(TypeError::ArityMismatch { expected: 1, found: 2 })
    );
    // Every argument is checked before their number is looked at.
    assert_eq!(store.recorded_type(first.0), Some(&u32_type()));
    assert_eq!(store.recorded_type(second.0), Some(&u32_type()));
    assert_eq!(store.recorded_type(call.0), None);
}

#[test]
fn call_argument_that_fails_is_reported_before_the_arity() {
    let mut store = Store::new();
    let (func, _) = declare_u32_to_bool(&mut store);
    let first = store.push_expression(ExpressionKind::Literal(Literal::Bool(true))).unwrap();
    let second = variable_of(&mut store, u32_type());
    let call = store
        .push_expression(ExpressionKind::Call { func, arguments: vec![first, second] })
        .unwrap();
    assert_eq!(type_check_expression(&mut store, call), unsupported(Construct::BoolLiteral));
    // The check ended at the first argument.
    assert_eq!(store.recorded_type(first.0), None);
    assert_eq!(store.recorded_type(second.0), None);
    assert_eq!(store.recorded_type(call.0), None);
}

#[test]
fn call_arity_is_reported_before_an_argument_that_does_not_fit() {
    let mut store = Store::new();
    let (func, _) = declare_u32_to_bool(&mut store);
    let first = variable_of(&mut store, i32_type());
    let second = variable_of(&mut store, Type::Bool);
    let call = store
        .push_expression(ExpressionKind::Call { func, arguments: vec![first, second] })
        .unwrap();
    assert_eq!(
        type_check_expression(&mut store, call),
        Err(TypeError::ArityMismatch { expected: 1, found: 2 })
    );
}

#[test]
fn call_with_signed_argument_is_a_type_mismatch() {
    let mut store = Store::new();
    let (func, x) = declare_u32_to_bool(&mut store);
    let argument = variable_of(&mut store, i32_type());
    let call =
        store.push_expression(ExpressionKind::Call { func, arguments: vec![argument] }).unwrap();
    assert_eq!(
        type_check_expression(&mut store, call),
        Err(TypeError::ArgumentTypeMismatch {
            parameter: x,
            expected: u32_type(),
            found: i32_type()
        })
    );
    assert_eq!(store.recorded_type(argument.0), Some(&i32_type()));
    assert_eq!(store.recorded_type(call.0), None);
}

#[test]
fn call_with_failing_argument_reports_the_argument() {
    let mut store = Store::new();
    let (func, _) = declare_u32_to_bool(&mut store);
    let argument = store.push_expression(ExpressionKind::Literal(Literal::Bool(true))).unwrap();
    let call =
        store.push_expression(ExpressionKind::Call { func, arguments: vec![argument] }).unwrap();
    assert_eq!(type_check_expression(&mut store, call), unsupported(Construct::BoolLiteral));
}

#[test]
fn call_passing_fixed_array_for_variable_parameter() {
    for element in [Type::FieldElement, Type::Bool] {
        let mut store = Store::new();
        let values = store.push_identifier(None).unwrap();
        let func = store.push_function(FuncMeta {
            parameters: vec![Param(values, variable(Type::FieldElement))],
            return_type: Type::Unit,
        });
        let argument = variable_of(&mut store, fixed(4, element));
        let call = store
            .push_expression(ExpressionKind::Call { func, arguments: vec![argument] })
            .unwrap();
        assert_eq!(type_check_expression(&mut store, call), Ok(()));
        assert_eq!(store.recorded_type(call.0), Some(&Type::Unit));
    }
}

#[test]
fn call_passing_variable_array_is_rejected() {
    let mut store = Store::new();
    let values = store.push_identifier(None).unwrap();
    let func = store.push_function(FuncMeta {
        parameters: vec![Param(values, variable(Type::FieldElement))],
        return_type: Type::Unit,
    });
    let argument = variable_of(&mut store, variable(Type::FieldElement));
    let call =
        store.push_expression(ExpressionKind::Call { func, arguments: vec![argument] }).unwrap();
    assert_eq!(
        type_check_expression(&mut store, call),
        Err(TypeError::VariableSizedArgument {
            parameter: values,
            found: variable(Type::FieldElement)
        })
    );
}

#[test]
fn cast_has_the_type_that_it_names() {
    let mut store = Store::new();
    let lhs = variable_of(&mut store, Type::Witness);
    let cast =
        store.push_expression(ExpressionKind::Cast { lhs, target: u32_type() }).unwrap();
    assert_eq!(type_check_expression(&mut store, cast), Ok(()));
    assert_eq!(store.recorded_type(lhs.0), Some(&Type::Witness));
    assert_eq!(store.recorded_type(cast.0), Some(&u32_type()));
}

#[test]
fn cast_of_failing_operand_fails() {
    let mut store = Store::new();
    let lhs = store.push_expression(ExpressionKind::Literal(Literal::Bool(true))).unwrap();
    let cast =
        store.push_expression(ExpressionKind::Cast { lhs, target: u32_type() }).unwrap();
    assert_eq!(type_check_expression(&mut store, cast), unsupported(Construct::BoolLiteral));
    assert_eq!(store.recorded_type(cast.0), None);
}

#[test]
fn for_loop_over_field_elements() {
    let mut store = Store::new();
    let start = integer(&mut store, 0);
    let end = integer(&mut store, 10);
    let value = variable_of(&mut store, Type::FieldElement);
    let last = store.push_statement(StatementKind::Expression(value)).unwrap();
    let other = store.push_statement(StatementKind::Other).unwrap();
    let body = block_of(&mut store, vec![other, last]);
    let identifier = store.push_identifier(None).unwrap();
    let looped = store
        .push_expression(ExpressionKind::For {
            identifier,
            start_range: start,
            end_range: end,
            block: body,
        })
        .unwrap();
    assert_eq!(type_check_expression(&mut store, looped), Ok(()));
    assert_eq!(store.recorded_type(looped.0), Some(&variable(Type::FieldElement)));
    // The loop variable has the type of the range.
    assert_eq!(store.recorded_type(identifier.0), Some(&Type::Constant));
    assert_eq!(store.recorded_type(last.0), Some(&Type::FieldElement));
    assert_eq!(store.recorded_type(other.0), Some(&Type::Unit));
    assert_eq!(store.recorded_type(body.0), Some(&Type::Unit));
}

#[test]
fn for_loop_body_may_use_the_loop_variable() {
    let mut store = Store::new();
    let start = integer(&mut store, 0);
    let end = integer(&mut store, 10);
    let identifier = store.push_identifier(None).unwrap();
    let usage = store.push_identifier(Some(identifier)).unwrap();
    let value = store.push_expression(ExpressionKind::Ident(usage)).unwrap();
    let last = store.push_statement(StatementKind::Expression(value)).unwrap();
    let body = block_of(&mut store, vec![last]);
    let looped = store
        .push_expression(ExpressionKind::For {
            identifier,
            start_range: start,
            end_range: end,
            block: body,
        })
        .unwrap();
    assert_eq!(type_check_expression(&mut store, looped), Ok(()));
    assert_eq!(store.recorded_type(value.0), Some(&Type::Constant));
    assert_eq!(store.recorded_type(looped.0), Some(&variable(Type::Constant)));
}

#[test]
fn for_loop_with_empty_body_yields_units() {
    let mut store = Store::new();
    let start = integer(&mut store, 0);
    let end = integer(&mut store, 1);
    let body = block_of(&mut store, vec![]);
    let looped = for_loop(&mut store, start, end, body);
    assert_eq!(type_check_expression(&mut store, looped), Ok(()));
    assert_eq!(store.recorded_type(looped.0), Some(&variable(Type::Unit)));
}

#[test]
fn for_loop_ending_in_another_statement_yields_units() {
    let mut store = Store::new();
    let start = integer(&mut store, 0);
    let end = integer(&mut store, 1);
    let value = integer(&mut store, 3);
    let first = store.push_statement(StatementKind::Expression(value)).unwrap();
    let last = store.push_statement(StatementKind::Other).unwrap();
    let body = block_of(&mut store, vec![first, last]);
    let looped = for_loop(&mut store, start, end, body);
    assert_eq!(type_check_expression(&mut store, looped), Ok(()));
    assert_eq!(store.recorded_type(looped.0), Some(&variable(Type::Unit)));
}

#[test]
fn for_loop_with_non_constant_start() {
    let mut store = Store::new();
    let start = variable_of(&mut store, Type::Witness);
    let end = integer(&mut store, 10);
    let body = block_of(&mut store, vec![]);
    let identifier = store.push_identifier(None).unwrap();
    let looped = store
        .push_expression(ExpressionKind::For {
            identifier,
            start_range: start,
            end_range: end,
            block: body,
        })
        .unwrap();
    assert_eq!(
        type_check_expression(&mut store, looped),
        Err(TypeError::NonConstantRangeBound { bound: RangeBound::Start, found: Type::Witness })
    );
    // Both bounds were checked; nothing after them was.
    assert_eq!(store.recorded_type(start.0), Some(&Type::Witness));
    assert_eq!(store.recorded_type(end.0), Some(&Type::Constant));
    assert_eq!(store.recorded_type(identifier.0), None);
    assert_eq!(store.recorded_type(body.0), None);
    assert_eq!(store.recorded_type(looped.0), None);
}

#[test]
fn for_loop_with_non_constant_end() {
    let mut store = Store::new();
    let start = integer(&mut store, 0);
    let end = variable_of(&mut store, u32_type());
    let body = block_of(&mut store, vec![]);
    let looped = for_loop(&mut store, start, end, body);
    assert_eq!(
        type_check_expression(&mut store, looped),
        Err(TypeError::NonConstantRangeBound { bound: RangeBound::End, found: u32_type() })
    );
}

#[test]
fn for_loop_reports_the_start_before_the_end() {
    let mut store = Store::new();
    let start = variable_of(&mut store, Type::Bool);
    let end = variable_of(&mut store, Type::Witness);
    let body = block_of(&mut store, vec![]);
    let looped = for_loop(&mut store, start, end, body);
    assert_eq!(
        type_check_expression(&mut store, looped),
        Err(TypeError::NonConstantRangeBound { bound: RangeBound::Start, found: Type::Bool })
    );
}

#[test]
fn for_loop_end_is_checked_before_the_start_type_is_looked_at() {
    let mut store = Store::new();
    let start = variable_of(&mut store, Type::Bool);
    let end = store.push_expression(ExpressionKind::Literal(Literal::Bool(true))).unwrap();
    let body = block_of(&mut store, vec![]);
    let looped = for_loop(&mut store, start, end, body);
    assert_eq!(type_check_expression(&mut store, looped), unsupported(Construct::BoolLiteral));
}

#[test]
fn for_loop_body_failure_is_reported() {
    let mut store = Store::new();
    let start = integer(&mut store, 0);
    let end = integer(&mut store, 1);
    let lhs = variable_of(&mut store, u32_type());
    let rhs = variable_of(&mut store, Type::Witness);
    let sum = infix(&mut store, lhs, BinaryOp::Add, rhs);
    let last = store.push_statement(StatementKind::Expression(sum)).unwrap();
    let body = block_of(&mut store, vec![last]);
    let identifier = store.push_identifier(None).unwrap();
    let looped = store
        .push_expression(ExpressionKind::For {
            identifier,
            start_range: start,
            end_range: end,
            block: body,
        })
        .unwrap();
    assert_eq!(
        type_check_expression(&mut store, looped),
        Err(TypeError::IncompatibleOperandTypes { lhs: u32_type(), rhs: Type::Witness })
    );
    assert_eq!(store.recorded_type(identifier.0), Some(&Type::Constant));
    assert_eq!(store.recorded_type(looped.0), None);
}

#[test]
fn for_loop_ending_in_a_block_is_not_supported() {
    let mut store = Store::new();
    let start = integer(&mut store, 0);
    let end = integer(&mut store, 1);
    let value = integer(&mut store, 3);
    let inner_last = store.push_statement(StatementKind::Expression(value)).unwrap();
    let inner = block_of(&mut store, vec![inner_last]);
    let body = block_of(&mut store, vec![inner]);
    let looped = for_loop(&mut store, start, end, body);
    assert_eq!(type_check_expression(&mut store, looped), unsupported(Construct::TrailingBlock));
    // The body was checked before its last statement was found to be a block.
    assert_eq!(store.recorded_type(value.0), Some(&Type::Constant));
    assert_eq!(store.recorded_type(body.0), Some(&Type::Unit));
    assert_eq!(store.recorded_type(looped.0), None);
}

#[test]
fn nested_loops() {
    let mut store = Store::new();
    let inner_start = integer(&mut store, 0);
    let inner_end = integer(&mut store, 2);
    let value = variable_of(&mut store, Type::Witness);
    let inner_last = store.push_statement(StatementKind::Expression(value)).unwrap();
    let inner_body = block_of(&mut store, vec![inner_last]);
    let inner = for_loop(&mut store, inner_start, inner_end, inner_body);
    let outer_last = store.push_statement(StatementKind::Expression(inner)).unwrap();
    let outer_body = block_of(&mut store, vec![outer_last]);
    let outer_start = integer(&mut store, 0);
    let outer_end = integer(&mut store, 3);
    let outer = for_loop(&mut store, outer_start, outer_end, outer_body);
    assert_eq!(type_check_expression(&mut store, outer), Ok(()));
    assert_eq!(store.recorded_type(inner.0), Some(&variable(Type::Witness)));
    assert_eq!(store.recorded_type(outer.0), Some(&variable(variable(Type::Witness))));
}

#[test]
fn block_statement_checks_its_statements_in_order() {
    let mut store = Store::new();
    let first_value = integer(&mut store, 1);
    let first = store.push_statement(StatementKind::Expression(first_value)).unwrap();
    let bad_value = store.push_expression(ExpressionKind::Literal(Literal::Bool(true))).unwrap();
    let bad = store.push_statement(StatementKind::Expression(bad_value)).unwrap();
    let third_value = integer(&mut store, 3);
    let third = store.push_statement(StatementKind::Expression(third_value)).unwrap();
    let block = block_of(&mut store, vec![first, bad, third]);
    assert_eq!(type_check_statement(&mut store, block), unsupported(Construct::BoolLiteral));
    assert_eq!(store.recorded_type(first.0), Some(&Type::Constant));
    assert_eq!(store.recorded_type(bad.0), None);
    assert_eq!(store.recorded_type(third_value.0), None);
    assert_eq!(store.recorded_type(third.0), None);
    assert_eq!(store.recorded_type(block.0), None);
}

#[test]
fn statements_have_types_after_a_check() {
    let mut store = Store::new();
    let value = variable_of(&mut store, u32_type());
    let expression = store.push_statement(StatementKind::Expression(value)).unwrap();
    let other = store.push_statement(StatementKind::Other).unwrap();
    let inner = block_of(&mut store, vec![expression]);
    let block = block_of(&mut store, vec![inner, other]);
    assert_eq!(type_check_statement(&mut store, block), Ok(()));
    assert_eq!(store.recorded_type(value.0), Some(&u32_type()));
    assert_eq!(store.recorded_type(expression.0), Some(&u32_type()));
    assert_eq!(store.recorded_type(other.0), Some(&Type::Unit));
    assert_eq!(store.recorded_type(inner.0), Some(&Type::Unit));
    assert_eq!(store.recorded_type(block.0), Some(&Type::Unit));
}

#[test]
fn last_type_of_an_empty_block_is_unit() {
    let mut store = Store::new();
    let block = block_of(&mut store, vec![]);
    assert_eq!(extract_last_type_from_block(&store, block), Ok(Type::Unit));
}

#[test]
fn last_type_of_a_block_is_that_of_its_last_expression() {
    let mut store = Store::new();
    let first_value = integer(&mut store, 1);
    let first = store.push_statement(StatementKind::Expression(first_value)).unwrap();
    let last_value = variable_of(&mut store, Type::FieldElement);
    let last = store.push_statement(StatementKind::Expression(last_value)).unwrap();
    let block = block_of(&mut store, vec![first, last]);
    assert_eq!(type_check_statement(&mut store, block), Ok(()));
    assert_eq!(extract_last_type_from_block(&store, block), Ok(Type::FieldElement));
}

#[test]
fn last_type_of_a_block_ending_in_another_statement_is_unit() {
    let mut store = Store::new();
    let value = integer(&mut store, 1);
    let first = store.push_statement(StatementKind::Expression(value)).unwrap();
    let last = store.push_statement(StatementKind::Other).unwrap();
    let block = block_of(&mut store, vec![first, last]);
    assert_eq!(type_check_statement(&mut store, block), Ok(()));
    assert_eq!(extract_last_type_from_block(&store, block), Ok(Type::Unit));
}

#[test]
fn last_type_of_a_block_ending_in_a_block_is_refused() {
    let mut store = Store::new();
    let inner = block_of(&mut store, vec![]);
    let block = block_of(&mut store, vec![inner]);
    assert_eq!(
        extract_last_type_from_block(&store, block),
        Err(TypeError::UnsupportedConstruct { construct: Construct::TrailingBlock })
    );
}

#[test]
fn every_handle_is_written_once() {
    let mut store = Store::new();
    let (func, _) = declare_u32_to_bool(&mut store);
    let argument = variable_of(&mut store, u32_type());
    let call =
        store.push_expression(ExpressionKind::Call { func, arguments: vec![argument] }).unwrap();
    let one = integer(&mut store, 1);
    let two = integer(&mut store, 2);
    let sum = infix(&mut store, one, BinaryOp::Add, two);
    let array =
        store.push_expression(ExpressionKind::Literal(Literal::Array(vec![sum]))).unwrap();
    let first = store.push_statement(StatementKind::Expression(array)).unwrap();
    let last = store.push_statement(StatementKind::Expression(call)).unwrap();
    let body = block_of(&mut store, vec![first, last]);
    let start = integer(&mut store, 0);
    let end = integer(&mut store, 4);
    let looped = for_loop(&mut store, start, end, body);

    let written_before = store.writes();
    assert_eq!(written_before, typed_handles(&store));
    assert!(is_unchecked(&store, looped.0));
    assert_eq!(type_check_expression(&mut store, looped), Ok(()));
    assert!(!is_unchecked(&store, looped.0));
    // One write for each node of the loop: the two bounds, the loop
    // variable, the body with its two statements and their expressions, and
    // the loop itself.
    assert_eq!(store.writes() - written_before, 13);
    assert_eq!(store.writes(), typed_handles(&store));
    assert_eq!(store.recorded_type(looped.0), Some(&variable(Type::Bool)));
}

#[test]
fn checks_of_separate_trees_do_not_touch_each_other() {
    let mut store = Store::new();
    let one = integer(&mut store, 1);
    let witness = variable_of(&mut store, Type::Witness);
    let first = infix(&mut store, one, BinaryOp::Add, witness);
    let two = integer(&mut store, 2);
    let three = integer(&mut store, 3);
    let second = infix(&mut store, two, BinaryOp::Multiply, three);
    assert_eq!(type_check_expression(&mut store, first), Ok(()));
    assert!(is_unchecked(&store, second.0));
    assert_eq!(store.recorded_type(two.0), None);
    assert_eq!(type_check_expression(&mut store, second), Ok(()));
    assert_eq!(store.recorded_type(first.0), Some(&Type::Witness));
    assert_eq!(store.recorded_type(second.0), Some(&Type::Constant));
    assert_eq!(store.writes(), typed_handles(&store));
}
