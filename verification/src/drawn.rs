//! Values drawn from the thread-local random generator. A `Drawn` value only
//! comes from a draw: its field is private to this module, and it can be
//! neither cloned nor copied, so `n` of them took `n` draws.

use vstd::prelude::*;
use rand::rngs::ThreadRng;
use rand::RngExt;

verus! {

/// `rand::rngs::ThreadRng`, a handle to the thread-local random generator.
#[verifier::external_type_specification]
#[verifier::external_body]
pub struct ExThreadRng(rand::rngs::ThreadRng);

/// One value drawn from the random generator.
pub struct Drawn<T> {
    value: T,
}

impl<T> View for Drawn<T> {
    type V = T;

    closed spec fn view(&self) -> T {
        self.value
    }
}

impl<T: Copy> Drawn<T> {
    /// The value that was drawn.
    pub fn value(&self) -> (value: T)
        ensures
            value == self@,
    {
        self.value
    }
}

/// `rand::random::<i8>()`: a sample drawn from the thread-local generator.
/// Any `i8` can come back, so nothing is stated of it. The call panics only
/// where the system's source of randomness fails at first seeding, which
/// nothing here can rule out or state.
#[verifier::external_body]
pub(crate) fn random_sample() -> Drawn<i8> {
    Drawn { value: rand::random::<i8>() }
}

/// `rand::rng()`: a handle to the thread-local generator. It carries no
/// value that the library reads; the call panics only where the system's
/// source of randomness fails at first seeding, which nothing here can rule
/// out or state.
#[verifier::external_body]
pub(crate) fn thread_rng() -> ThreadRng {
    rand::rng()
}

/// `RngExt::random_range(low..=high)` on the generator: a value from `low`
/// to `high`, both included, by chance. The range must not be empty.
#[verifier::external_body]
pub(crate) fn random_in_range(rng: &mut ThreadRng, low: i32, high: i32) -> (value: Drawn<i32>)
    requires
        low <= high,
    ensures
        low <= value@ <= high,
{
    Drawn { value: rng.random_range(low..=high) }
}

/// The values of `draws`, in order.
pub(crate) fn values_of<T: Copy>(draws: &Vec<Drawn<T>>) -> (values: Vec<T>)
    ensures
        values@.len() == draws@.len(),
        forall|i: int| 0 <= i < draws@.len() ==> #[trigger] values@[i] == draws@[i]@,
{
    let mut values: Vec<T> = Vec::new();
    let mut i: usize = 0;
    while i < draws.len()
        invariant
            i <= draws@.len(),
            values@.len() == i,
            forall|j: int| 0 <= j < i ==> #[trigger] values@[j] == draws@[j]@,
        decreases draws@.len() - i,
    {
        values.push(draws[i].value());
        i = i + 1;
    }
    values
}

} // verus!
