//! The analog measurement stream: which USB device sends it and how one
//! interrupt transfer decodes into channel samples.
use vstd::prelude::*;

verus! {

/// USB vendor id of the measurement interface.
pub const MEASUREMENT_VID: u16 = 0x1d50;

/// USB product id of the measurement interface.
pub const MEASUREMENT_PID: u16 = 0xacab;

/// Whether a USB device is the measurement interface.
pub fn is_measurement_device(vid: u16, pid: u16) -> (r: bool)
    ensures
        r == (vid == MEASUREMENT_VID && pid == MEASUREMENT_PID),
{
    vid == MEASUREMENT_VID && pid == MEASUREMENT_PID
}

/// The four channel samples of one 8-byte transfer, each a little-endian u16.
pub fn decode_samples(buf: &[u8; 8]) -> (r: Vec<u16>)
    ensures
        r@.len() == 4,
        forall|i: int| 0 <= i < 4 ==> #[trigger] r@[i] == buf@[2 * i] as u16 + 256 * (buf@[2 * i
            + 1] as u16),
{
    let mut r: Vec<u16> = Vec::new();
    let mut i: usize = 0;
    while i < 4
        invariant
            i <= 4,
            r@.len() == i,
            forall|k: int| 0 <= k < i ==> #[trigger] r@[k] == buf@[2 * k] as u16 + 256 * (buf@[2
                * k + 1] as u16),
        decreases 4 - i,
    {
        let lo = buf[2 * i] as u16;
        let hi = buf[2 * i + 1] as u16;
        r.push(lo + 256 * hi);
        i = i + 1;
    }
    r
}

} // verus!
