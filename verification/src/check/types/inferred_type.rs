//! Information about types inferred by the `TypeIdentifier`s.

use vstd::prelude::*;

use crate::check::types::concrete_type::{ConcreteType, ConcreteTypeView};
use crate::check::types::environment::TypeId;

verus! {

/// Type information about a value inferred during type inference.
#[derive(Debug, PartialEq, Eq)]
pub enum InferredType {
    /// The type is the same as another `TypeId`.
    Variable(TypeId),
    /// The type is known to be a real type. Usually a primitive.
    Known(ConcreteType),
    /// The type is known to be a function type.
    ///
    /// This is added both as a function is declared and every time it's
    /// called.
    Fn {
        /// Parameters of the function, by name, in the order given.
        params: Vec<(String, InferredType)>,
        /// Return type of the function
        return_type: Box<InferredType>,
    },
}

/// An equation relating a `TypeId` to an inferred type.
#[derive(Debug, PartialEq, Eq)]
pub struct TypeEquation {
    pub lhs: TypeId,
    pub rhs: InferredType,
}

impl TypeEquation {
    /// The equation `lhs = rhs`.
    pub fn new(lhs: TypeId, rhs: InferredType) -> (e: TypeEquation)
        ensures
            e.lhs == lhs,
            e.rhs == rhs,
    {
        TypeEquation { lhs, rhs }
    }
}

/// The mathematical value of an `InferredType`.
pub enum InferredTypeView {
    Variable(u64),
    Known(ConcreteTypeView),
    Fn(Seq<(Seq<char>, InferredTypeView)>, Box<InferredTypeView>),
}

/// The view of an inferred type.
pub open spec fn inferred_view(t: InferredType) -> InferredTypeView
    decreases t,
{
    match t {
        InferredType::Variable(id) => InferredTypeView::Variable(id.value()),
        InferredType::Known(c) => InferredTypeView::Known(c@),
        InferredType::Fn { params, return_type } => InferredTypeView::Fn(
            params_view(params@),
            Box::new(inferred_view(*return_type)),
        ),
    }
}

/// The view of a function's parameters.
pub open spec fn params_view(params: Seq<(String, InferredType)>) -> Seq<(Seq<char>, InferredTypeView)>
    decreases params,
{
    if params.len() == 0 {
        Seq::empty()
    } else {
        params_view(params.drop_last()).push((params.last().0@, inferred_view(params.last().1)))
    }
}

/// The view of an equation: the id of its left side and the view of its
/// right side.
pub open spec fn equation_view(e: TypeEquation) -> (u64, InferredTypeView) {
    (e.lhs.value(), inferred_view(e.rhs))
}

} // verus!
