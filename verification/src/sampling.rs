use rand::rngs::ThreadRng;
use rand::Rng;
use vstd::prelude::*;

verus! {

/// The generator handle of `rand`, carried through opaquely.
#[verifier::external_type_specification]
#[verifier::external_body]
pub struct ExThreadRng(ThreadRng);

/// Calls `rand::thread_rng`, which hands out the lazily seeded generator of
/// the current thread. Nothing is claimed of the handle (it carries no state
/// that the library reads). The crate's source panics when the operating
/// system cannot provide a seed; that case is not ruled out here.
#[verifier::external_body]
pub(crate) fn thread_rng() -> ThreadRng {
    rand::thread_rng()
}

/// Calls `Rng::gen_range` with the range `0..len`. The crate's source asserts
/// that the range is not empty and documents that the value lies in it, so
/// the contract requires `len > 0` and claims `r < len`. Which value comes
/// back is chance, so nothing more is claimed. When the generator reseeds
/// itself and the operating system cannot provide fresh entropy, the
/// crate's source panics; that depends on the machine, not on the
/// arguments, and is not ruled out here.
#[verifier::external_body]
pub(crate) fn gen_index(rng: &mut ThreadRng, len: usize) -> (r: usize)
    requires
        len > 0,
    ensures
        r < len,
{
    rng.gen_range(0..len)
}

} // verus!
