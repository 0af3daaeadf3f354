use vstd::prelude::*;

verus! {

/// Why an operation refused its input.
#[derive(Clone, Copy, Debug, PartialEq, Eq, Structural)]
pub enum GeomError {
    /// The input has the wrong dimensions: a coordinate that is not a pair,
    /// a table without exactly two columns, an empty list of rings.
    Shape,
    /// A handle or collection does not carry the tag the operation works on.
    TypeTag,
    /// A numeric argument lies outside its domain.
    Range,
}

impl GeomError {
    /// The short name of the error, for display by a caller.
    pub fn name(&self) -> (r: &'static str)
        ensures
            r@ == (match *self {
                GeomError::Shape => "ShapeError"@,
                GeomError::TypeTag => "TypeTagError"@,
                GeomError::Range => "RangeError"@,
            }),
    {
        match self {
            GeomError::Shape => "ShapeError",
            GeomError::TypeTag => "TypeTagError",
            GeomError::Range => "RangeError",
        }
    }
}

} // verus!
