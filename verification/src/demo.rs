//! A small bundled kernel and a result checker, usable to smoke-test a
//! freshly created cache against a live driver.

use vstd::prelude::*;
use vstd::std_specs::cmp::PartialEqSpec;

verus! {

/// The source text of the bundled demonstration kernel.
pub open spec fn demo_code() -> Seq<char> {
    "__kernel void vector_add(__global const long *A, __global const long *B, __global long *C) {
                int i = get_global_id(0);
                C[i] = A[i] + B[i];
    }"@
}

/// Returns the bundled demonstration kernel: an element-wise addition of
/// two vectors of 64-bit integers.
pub fn get_demo_code() -> (r: &'static str)
    ensures
        r@ == demo_code(),
{
    "__kernel void vector_add(__global const long *A, __global const long *B, __global long *C) {
                int i = get_global_id(0);
                C[i] = A[i] + B[i];
    }"
}

/// Whether `got` starts with the values of `expected`, position by
/// position.  `got` must be at least as long as `expected`; extra
/// positions are not read.
pub fn check_result<T: Eq>(expected: &Vec<T>, got: &Vec<T>) -> (r: bool)
    requires
        expected@.len() <= got@.len(),
    ensures
        T::obeys_eq_spec() ==> (r <==> (forall|i: int|
            0 <= i < expected@.len() ==> (#[trigger] expected@[i]).eq_spec(&got@[i]))),
{
    let n: usize = expected.len();
    let mut i: usize = 0;
    while i < n
        invariant
            n == expected@.len(),
            expected@.len() <= got@.len(),
            i <= n,
            T::obeys_eq_spec() ==> forall|p: int|
                0 <= p < i ==> (#[trigger] expected@[p]).eq_spec(&got@[p]),
        decreases n - i,
    {
        if expected[i] != got[i] {
            return false;
        }
        i = i + 1;
    }
    true
}

} // verus!
