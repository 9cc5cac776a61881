//! Index data as bytes, in the byte order of the machine, as a graphics
//! backend takes it into a buffer.

use vstd::prelude::*;

verus! {

/// The bytes of a list of 16-bit values, two for each value in order, with the
/// low byte first where `little` holds and the high byte first where not.
pub open spec fn encoded(values: Seq<u16>, little: bool) -> Seq<u8> {
    Seq::new(
        2 * values.len(),
        |k: int|
            if (k % 2 == 0) == little {
                (values[k / 2] % 256) as u8
            } else {
                (values[k / 2] / 256) as u8
            },
    )
}

/// `u16::to_ne_bytes` of the number one: which of its two bytes holds the one
/// is the byte order of the machine, so nothing is claimed of the result.
#[verifier::external_body]
fn one_in_native_order() -> [u8; 2] {
    1u16.to_ne_bytes()
}

/// The bytes of `p` as they lie in memory: two for each value, in the order of
/// the values and in the byte order of the machine, whichever that is.
pub fn array_to_u8_vec(p: &[u16]) -> (bytes: Vec<u8>)
    ensures
        bytes@ == encoded(p@, true) || bytes@ == encoded(p@, false),
{
    let sample = one_in_native_order();
    let little = sample[0] == 1;
    let n = p.len();
    let mut bytes: Vec<u8> = Vec::new();
    let mut i: usize = 0;
    while i < n
        invariant
            i <= n,
            n == p@.len(),
            bytes@.len() == 2 * i,
            forall|k: int| 0 <= k < 2 * i ==> bytes@[k] == encoded(p@, little)[k],
        decreases n - i,
    {
        let value: u16 = p[i];
        let low: u8 = (value % 256) as u8;
        let high: u8 = (value / 256) as u8;
        if little {
            bytes.push(low);
            bytes.push(high);
        } else {
            bytes.push(high);
            bytes.push(low);
        }
        i += 1;
    }
    assert(bytes@ =~= encoded(p@, little));
    bytes
}

} // verus!
