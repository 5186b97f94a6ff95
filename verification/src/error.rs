use vstd::prelude::*;
use vstd::std_specs::convert::IntoSpec;

verus! {

/// Maps the error of a `Result` into any error type it converts into,
/// leaving a success untouched.
pub fn from_res<T, E1: Into<E2>, E2>(value: Result<T, E1>) -> (r: Result<T, E2>)
    ensures
        value is Ok <==> r is Ok,
        value matches Ok(v) ==> r == Ok::<T, E2>(v),
        E1::obeys_into_spec() ==> (value matches Err(e) ==> r == Err::<T, E2>(e.into_spec())),
{
    match value {
        Ok(v) => Ok(v),
        Err(err) => Err(err.into()),
    }
}

} // verus!
