use vstd::prelude::*;
use vstd::std_specs::ops::AddSpec;

verus! {

type AddOut<T> = <T as std::ops::Add>::Output;

/// Adds two pairs component by component.
///
/// Each of the two additions has to be one that the type accepts; for the
/// integer types, one that does not overflow.
pub fn add_tuples<T>(tup1: &(T, T), tup2: &(T, T)) -> (sum: (AddOut<T>, AddOut<T>)) where
    T: std::ops::Add + Copy,

    requires
        tup1.0.add_req(tup2.0),
        tup1.1.add_req(tup2.1),
    ensures
        T::obeys_add_spec() ==> sum.0 == tup1.0.add_spec(tup2.0) && sum.1 == tup1.1.add_spec(
            tup2.1,
        ),
{
    (tup1.0 + tup2.0, tup1.1 + tup2.1)
}

} // verus!
