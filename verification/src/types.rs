//! The type algebra: the closed set of types and their structural equality.

use vstd::prelude::*;

verus! {

/// Whether a fixed-width integer is signed.
#[derive(Clone, Copy, Debug, PartialEq, Eq, Structural)]
pub enum Signedness {
    Unsigned,
    Signed,
}

/// The length of an array type: known when the program is checked, or not.
#[derive(Clone, Copy, Debug, PartialEq, Eq, Structural)]
pub enum ArraySize {
    Variable,
    Fixed(u128),
}

/// Everything a program entity can be typed as.
#[derive(Debug)]
pub enum Type {
    /// The native scalar field of the proof system.
    FieldElement,
    /// A value known at compile time; it takes the type of an integer it meets.
    Constant,
    /// A value supplied when the proof is made, visible to the verifier.
    Public,
    /// A private value supplied when the proof is made.
    Witness,
    /// A fixed-width integer: signedness and bit width.
    Integer(Signedness, u32),
    /// The result of a comparison.
    Bool,
    /// Stands for a type that an earlier failure left undetermined.
    Error,
    /// Stands for a type that the program did not annotate.
    Unspecified,
    /// Stands for a type that could not be determined.
    Unknown,
    /// The type of an expression that yields no value.
    Unit,
    /// An array of a given size and element type.
    Array(ArraySize, Box<Type>),
}

impl Type {
    /// `self` is an array type whose length is not known.
    pub open spec fn is_variable_array(self) -> bool {
        self matches Type::Array(ArraySize::Variable, _)
    }

    /// `self` is an array type whose length is known.
    pub open spec fn is_fixed_array(self) -> bool {
        self matches Type::Array(ArraySize::Fixed(_), _)
    }

    /// Structural equality: the same variant with equal fields, all the way down.
    pub fn same_as(&self, other: &Type) -> (same: bool)
        ensures
            same == (*self == *other),
        decreases *self,
    {
        match (self, other) {
            (Type::FieldElement, Type::FieldElement) => true,
            (Type::Constant, Type::Constant) => true,
            (Type::Public, Type::Public) => true,
            (Type::Witness, Type::Witness) => true,
            (Type::Integer(sign_x, width_x), Type::Integer(sign_y, width_y)) => {
                *sign_x == *sign_y && *width_x == *width_y
            },
            (Type::Bool, Type::Bool) => true,
            (Type::Error, Type::Error) => true,
            (Type::Unspecified, Type::Unspecified) => true,
            (Type::Unknown, Type::Unknown) => true,
            (Type::Unit, Type::Unit) => true,
            (Type::Array(size_x, element_x), Type::Array(size_y, element_y)) => {
                *size_x == *size_y && element_x.same_as(element_y)
            },
            _ => false,
        }
    }

    /// Whether `self` is an array type whose length is not known.
    pub fn is_variable_sized_array(&self) -> (yes: bool)
        ensures
            yes == self.is_variable_array(),
    {
        match self {
            Type::Array(ArraySize::Variable, _) => true,
            _ => false,
        }
    }

    /// Whether `self` is an array type whose length is known.
    pub fn is_fixed_sized_array(&self) -> (yes: bool)
        ensures
            yes == self.is_fixed_array(),
    {
        match self {
            Type::Array(ArraySize::Fixed(_), _) => true,
            _ => false,
        }
    }
}

impl Clone for Type {
    fn clone(&self) -> (copy: Type)
        ensures
            copy == *self,
        decreases *self,
    {
        match self {
            Type::FieldElement => Type::FieldElement,
            Type::Constant => Type::Constant,
            Type::Public => Type::Public,
            Type::Witness => Type::Witness,
            Type::Integer(sign, width) => Type::Integer(*sign, *width),
            Type::Bool => Type::Bool,
            Type::Error => Type::Error,
            Type::Unspecified => Type::Unspecified,
            Type::Unknown => Type::Unknown,
            Type::Unit => Type::Unit,
            Type::Array(size, element) => {
                let inner: Type = (**element).clone();
                Type::Array(*size, Box::new(inner))
            },
        }
    }
}

impl PartialEq for Type {
    fn eq(&self, other: &Type) -> (same: bool) {
        self.same_as(other)
    }
}

impl Eq for Type {

}

impl vstd::std_specs::cmp::PartialEqSpecImpl for Type {
    open spec fn obeys_eq_spec() -> bool {
        true
    }

    open spec fn eq_spec(&self, other: &Type) -> bool {
        *self == *other
    }
}

} // verus!
