//! The network frame format: one datagram per emission tick, two header
//! bytes (mode and timeout) followed by four bytes R, G, B, W per LED in
//! canonical board order.  The socket itself lives outside the library;
//! this module only builds and validates frames.

use vstd::prelude::*;
use crate::animation::{ColorBuffer, chan, all_limited, MAX_LEDS_TOTAL};
use crate::fixed::FP_ONE;

verus! {

/// Mode identifier carried in byte 0 of every frame.
pub const WLED_MODE_DRGBW: u8 = 3;

/// Timeout in seconds carried in byte 1 of every frame.
pub const TIMEOUT_SEC: u8 = 3;

#[derive(Debug, PartialEq, Eq, Structural)]
pub enum WireError {
    IndexOutOfRange,
}

/// The wire byte of one fixed-point channel: `round(v * 255)` for a unit
/// value `v`.
pub open spec fn byte_of_channel(v: int) -> int {
    (v * 255 + 32768) / 65536
}

pub fn channel_to_byte(v: u64) -> (b: u8)
    requires
        v <= FP_ONE,
    ensures
        b == byte_of_channel(v as int),
{
    proof {
        assert(0 <= ((v as int) * 255 + 32768) / 65536 <= 255) by (nonlinear_arith)
            requires 0 <= v <= FP_ONE as int;
    }
    ((v * 255 + 32768) / 65536) as u8
}

/// One outgoing frame: length exactly `2 + 4 * num_leds`, bytes 0 and 1
/// holding the mode and timeout constants whatever the color content.
pub struct WireFrame {
    pub packet: Vec<u8>,
    pub num_leds: usize,
}

impl WireFrame {
    pub open spec fn wf(&self) -> bool {
        &&& self.num_leds <= MAX_LEDS_TOTAL
        &&& self.packet@.len() == 2 + 4 * self.num_leds
        &&& self.packet@[0] == WLED_MODE_DRGBW
        &&& self.packet@[1] == TIMEOUT_SEC
    }

    pub fn new(num_leds_total: usize) -> (f: WireFrame)
        requires
            num_leds_total <= MAX_LEDS_TOTAL,
        ensures
            f.wf(),
            f.num_leds == num_leds_total,
            f.packet@.len() == 2 + 4 * num_leds_total,
            forall|i: int| 2 <= i < f.packet@.len() ==> #[trigger] f.packet@[i] == 0,
    {
        let len: usize = 2 + 4 * num_leds_total;
        let mut packet: Vec<u8> = Vec::new();
        let mut i: usize = 0;
        while i < len
            invariant
                i <= len,
                packet@.len() == i,
                forall|j: int| 0 <= j < i ==> #[trigger] packet@[j] == 0,
            decreases len - i,
        {
            packet.push(0);
            i += 1;
        }
        packet[0] = WLED_MODE_DRGBW;
        packet[1] = TIMEOUT_SEC;
        WireFrame { packet, num_leds: num_leds_total }
    }

    /// Write one LED's four channel bytes.  An out-of-range LED index is a
    /// typed error and leaves the frame unchanged.
    pub fn set_color(&mut self, _strip: u8, led: usize, r: u8, g: u8, b: u8, w: u8) -> (res: Result<
        (),
        WireError,
    >)
        requires
            old(self).wf(),
        ensures
            final(self).wf(),
            final(self).num_leds == old(self).num_leds,
            res.is_ok() <==> led < old(self).num_leds,
            res.is_err() ==> *final(self) == *old(self) && res == Result::<(), WireError>::Err(
                WireError::IndexOutOfRange,
            ),
            res.is_ok() ==> final(self).packet@ == old(self).packet@.update(2 + 4 * led, r).update(
                3 + 4 * led,
                g,
            ).update(4 + 4 * led + 0, b).update(5 + 4 * led, w),
    {
        if led >= self.num_leds {
            return Err(WireError::IndexOutOfRange);
        }
        let offset = 2 + 4 * led;
        self.packet[offset] = r;
        self.packet[offset + 1] = g;
        self.packet[offset + 2] = b;
        self.packet[offset + 3] = w;
        Ok(())
    }

    /// Serialize a clamped color grid snapshot into the frame, in
    /// canonical board order.  A grid of the wrong size is a typed error.
    pub fn encode(&mut self, buf: &ColorBuffer) -> (res: Result<(), WireError>)
        requires
            old(self).wf(),
            buf.wf(),
            all_limited(buf@),
        ensures
            final(self).wf(),
            final(self).num_leds == old(self).num_leds,
            res.is_ok() <==> buf@.len() == old(self).num_leds,
            res.is_err() ==> *final(self) == *old(self) && res == Result::<(), WireError>::Err(
                WireError::IndexOutOfRange,
            ),
            res.is_ok() ==> forall|i: int, c: int|
                0 <= i < buf@.len() && 0 <= c < 4 ==> final(self).packet@[2 + 4 * i + c]
                    == byte_of_channel((#[trigger] chan(buf@[i], c)) as int),
    {
        let n = buf.len();
        if n != self.num_leds {
            return Err(WireError::IndexOutOfRange);
        }
        let mut i: usize = 0;
        while i < n
            invariant
                i <= n,
                n == buf@.len(),
                n == self.num_leds,
                buf.wf(),
                all_limited(buf@),
                self.wf(),
                self.num_leds == old(self).num_leds,
                forall|j: int, c: int|
                    0 <= j < i && 0 <= c < 4 ==> self.packet@[2 + 4 * j + c] == byte_of_channel(
                        (#[trigger] chan(buf@[j], c)) as int,
                    ),
            decreases n - i,
        {
            let cell = buf.get_flat(i);
            let offset = 2 + 4 * i;
            self.packet[offset] = channel_to_byte(cell.r);
            self.packet[offset + 1] = channel_to_byte(cell.g);
            self.packet[offset + 2] = channel_to_byte(cell.b);
            self.packet[offset + 3] = channel_to_byte(cell.w);
            i += 1;
        }
        Ok(())
    }

    /// The finished frame bytes, ready to send.
    pub fn bytes(&self) -> (b: &Vec<u8>)
        ensures
            b@ == self.packet@,
    {
        &self.packet
    }
}

} // verus!
