use vstd::prelude::*;

verus! {

/// Relies on getrandom::getrandom: it fills the buffer from the system's
/// entropy source or reports that the source is unavailable. Nothing is
/// promised of the bytes.
#[verifier::external_body]
fn fill_random(buf: &mut [u8; 8]) -> (r: Result<(), getrandom::Error>) {
    getrandom::getrandom(buf)
}

#[verifier::external_type_specification]
#[verifier::external_body]
pub struct ExRandomError(getrandom::Error);

/// The eight bytes of `b` read as a big-endian integer.
pub open spec fn be_u64(b: Seq<u8>) -> int {
    b[0] * 0x100_0000_0000_0000 + b[1] * 0x1_0000_0000_0000 + b[2] * 0x100_0000_0000
        + b[3] * 0x1_0000_0000 + b[4] * 0x100_0000 + b[5] * 0x1_0000 + b[6] * 0x100 + b[7]
}

/// The seed made of the bytes the entropy source wrote into `buf`, or
/// `None` when `filled` reports that it failed: a machine never starts from
/// a seed that was not drawn.
pub fn seed_from(filled: bool, buf: &[u8; 8]) -> (r: Option<u64>)
    ensures
        filled <==> r is Some,
        filled ==> r->Some_0 == be_u64(buf@),
{
    if !filled {
        return None;
    }
    Some(buf[0] as u64 * 0x100_0000_0000_0000 + buf[1] as u64 * 0x1_0000_0000_0000
        + buf[2] as u64 * 0x100_0000_0000 + buf[3] as u64 * 0x1_0000_0000
        + buf[4] as u64 * 0x100_0000 + buf[5] as u64 * 0x1_0000 + buf[6] as u64 * 0x100
        + buf[7] as u64)
}

/// Draws a 64-bit seed from the system's entropy source; `None` when that
/// source is unavailable.
pub fn entropy_seed() -> (r: Option<u64>) {
    let mut buf: [u8; 8] = [0u8; 8];
    let filled = fill_random(&mut buf).is_ok();
    seed_from(filled, &buf)
}

} // verus!
