use vstd::prelude::*;

use crate::error::EditError;

verus! {

/// The input given by option if any, else the positional one.
pub fn input_from_either<T>(in1: Option<T>, in2: Option<T>) -> (r: Result<T, EditError>)
    ensures
        in1 matches Some(a) ==> r == Ok::<T, EditError>(a),
        in1 is None && in2 is Some ==> r == Ok::<T, EditError>(in2->0),
        in1 is None && in2 is None ==> r == Err::<T, EditError>(EditError::NoInput),
{
    match in1 {
        Some(a) => Ok(a),
        None => match in2 {
            Some(b) => Ok(b),
            None => Err(EditError::NoInput),
        },
    }
}

} // verus!
