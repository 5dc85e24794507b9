//! Access to the operating system's secure randomness source.
use vstd::prelude::*;

verus! {

/// Relies on rand::rngs::OsRng (rand_core::OsRng) filling the buffer from the
/// operating system's entropy source; nothing can be promised about the value.
/// A `None` result stands for a failure of that source.
#[verifier::external_body]
pub fn os_random_u32() -> (r: Option<u32>) {
    let mut buf = [0u8; 4];
    match rand::RngCore::try_fill_bytes(&mut rand::rngs::OsRng, &mut buf) {
        Ok(()) => Some(u32::from_le_bytes(buf)),
        Err(_) => None,
    }
}

} // verus!
