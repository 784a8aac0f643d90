use vstd::prelude::*;

verus! {

/// Relies on `rand::random::<u8>`, which draws one byte from the thread-local
/// generator. Nothing is known of the byte; it panics only if the operating
/// system's entropy source cannot seed that generator.
#[verifier::external_body]
pub(crate) fn random_byte() -> (r: u8) {
    rand::random::<u8>()
}

} // verus!
