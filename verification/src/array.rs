//! The type of an array literal, from the types of its elements.

use vstd::prelude::*;
use crate::errors::TypeError;
use crate::types::{ArraySize, Type};

verus! {

/// Every element has the type of its right-hand neighbour.
pub open spec fn homogeneous(types: Seq<Type>) -> bool {
    forall|i: int| 0 <= i < types.len() - 1 ==> types[i] == #[trigger] types[i + 1]
}

/// `at` is the first position whose element differs in type from its
/// right-hand neighbour.
pub open spec fn is_first_break(types: Seq<Type>, at: int) -> bool {
    &&& 0 <= at < types.len() - 1
    &&& types[at] != types[at + 1]
    &&& forall|i: int| 0 <= i < at ==> types[i] == #[trigger] types[i + 1]
}

/// The first position whose element differs in type from its right-hand
/// neighbour, where there is one.
pub open spec fn first_break(types: Seq<Type>) -> int {
    choose|at: int| is_first_break(types, at)
}

/// What an array literal with elements of these types, in this order, is
/// typed as: an array of as many elements of the first element's type, if
/// the elements are homogeneous; else the error that names the first two
/// neighbours that differ.
pub open spec fn array_literal_type(types: Seq<Type>) -> Result<Type, TypeError> {
    if homogeneous(types) {
        Ok(Type::Array(ArraySize::Fixed(types.len() as u128), Box::new(types[0])))
    } else {
        Err(
            TypeError::HeterogeneousArray {
                left: types[first_break(types)],
                right: types[first_break(types) + 1],
            },
        )
    }
}

/// There is at most one first break.
pub proof fn lemma_first_break_unique(types: Seq<Type>, a: int, b: int)
    requires
        is_first_break(types, a),
        is_first_break(types, b),
    ensures
        a == b,
{
    if a < b {
        assert(types[a] == types[a + 1]);
    } else if b < a {
        assert(types[b] == types[b + 1]);
    }
}

/// Checks that the elements of an array literal all have one type, and gives
/// the type of the literal. Neighbours are compared from the left, so the
/// error names the first pair that differs.
pub fn check_array_literal(types: &Vec<Type>) -> (result: Result<Type, TypeError>)
    requires
        types.len() >= 1,
    ensures
        result == array_literal_type(types@),
{
    let count: usize = types.len();
    let mut at: usize = 0;
    while at + 1 < count
        invariant
            count == types.len(),
            count >= 1,
            at < count,
            forall|i: int| 0 <= i < at ==> types@[i] == #[trigger] types@[i + 1],
        decreases count - at,
    {
        if !types[at].same_as(&types[at + 1]) {
            proof {
                assert(is_first_break(types@, at as int));
                assert(!homogeneous(types@));
                lemma_first_break_unique(types@, at as int, first_break(types@));
            }
            return Err(
                TypeError::HeterogeneousArray {
                    left: types[at].clone(),
                    right: types[at + 1].clone(),
                },
            );
        }
        at = at + 1;
    }
    assert(homogeneous(types@));
    Ok(Type::Array(ArraySize::Fixed(count as u128), Box::new(types[0].clone())))
}

/// A literal with a single element of type `element` is an array of one
/// `element`, whatever `element` is.
pub proof fn lemma_single_element(element: Type)
    ensures
        array_literal_type(seq![element]) == Ok::<Type, TypeError>(
            Type::Array(ArraySize::Fixed(1), Box::new(element)),
        ),
{
    assert(homogeneous(seq![element]));
    assert(seq![element][0] == element);
}

/// Comparing neighbours is enough: if each element has the type of its
/// neighbour, any two elements have one type.
pub proof fn lemma_homogeneous_all_equal(types: Seq<Type>, i: int, j: int)
    requires
        homogeneous(types),
        0 <= i <= j < types.len(),
    ensures
        types[i] == types[j],
    decreases j - i,
{
    if i < j {
        lemma_homogeneous_all_equal(types, i, j - 1);
        assert(types[j - 1] == types[(j - 1) + 1]);
    }
}

/// A literal that holds two elements of different types anywhere is
/// rejected, and the error names two neighbours that differ.
pub proof fn lemma_mixed_array_rejected(types: Seq<Type>, i: int, j: int)
    requires
        0 <= i < types.len(),
        0 <= j < types.len(),
        types[i] != types[j],
    ensures
        array_literal_type(types) matches Err(TypeError::HeterogeneousArray { left, right })
            && left != right,
{
    if homogeneous(types) {
        if i <= j {
            lemma_homogeneous_all_equal(types, i, j);
        } else {
            lemma_homogeneous_all_equal(types, j, i);
        }
    } else {
        lemma_break_exists(types, types.len() - 1);
    }
}

/// If some neighbours among the first `upto + 1` elements differ, there is a
/// first such pair.
proof fn lemma_break_exists(types: Seq<Type>, upto: int)
    requires
        0 <= upto < types.len(),
        !(forall|i: int| 0 <= i < upto ==> types[i] == #[trigger] types[i + 1]),
    ensures
        is_first_break(types, first_break(types)),
    decreases upto,
{
    if upto > 0 {
        if forall|i: int| 0 <= i < upto - 1 ==> types[i] == #[trigger] types[i + 1] {
            assert(types[upto - 1] != types[(upto - 1) + 1]);
            assert(is_first_break(types, upto - 1));
        } else {
            lemma_break_exists(types, upto - 1);
        }
    }
}

} // verus!
