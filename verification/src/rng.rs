//! The source of random bytes.
use vstd::prelude::*;

verus! {

/// A random byte from `rand::random::<u8>()`, which draws it from the
/// thread-local generator seeded by the operating system. Nothing is stated
/// of the value: any `u8` may come back, and two calls may differ. (`rand`
/// panics when the operating system's generator fails, either when the
/// thread-local generator is first seeded or when it is later reseeded; that
/// depends on the environment, not on an argument, so no `requires` can
/// exclude it.)
#[verifier::external_body]
pub(crate) fn random_byte() -> (r: u8) {
    rand::random::<u8>()
}

} // verus!
