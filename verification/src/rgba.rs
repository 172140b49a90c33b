use vstd::prelude::*;

verus! {

/// A colour as four bytes in the order red, green, blue, alpha.
pub struct RGBA(pub [u8; 4]);

impl RGBA {
    /// Fully transparent black: every channel is zero.
    pub fn black() -> (c: RGBA)
        ensures
            c == RGBA([0x00, 0x00, 0x00, 0x00]),
    {
        RGBA([0x00, 0x00, 0x00, 0x00])
    }

    /// Opaque white: every channel is at its maximum.
    pub fn white() -> (c: RGBA)
        ensures
            c == RGBA([0xFF, 0xFF, 0xFF, 0xFF]),
    {
        RGBA([0xFF, 0xFF, 0xFF, 0xFF])
    }

    /// Opaque pure red.
    pub fn red() -> (c: RGBA)
        ensures
            c == RGBA([0xFF, 0x00, 0x00, 0xFF]),
    {
        RGBA([0xFF, 0x00, 0x00, 0xFF])
    }

    /// Opaque pure green.
    pub fn green() -> (c: RGBA)
        ensures
            c == RGBA([0x00, 0xFF, 0x00, 0xFF]),
    {
        RGBA([0x00, 0xFF, 0x00, 0xFF])
    }

    /// Opaque pure blue.
    pub fn blue() -> (c: RGBA)
        ensures
            c == RGBA([0x00, 0x00, 0xFF, 0xFF]),
    {
        RGBA([0x00, 0x00, 0xFF, 0xFF])
    }

    /// The four channel bytes, in the order red, green, blue, alpha.
    pub fn get_raw(&self) -> (raw: [u8; 4])
        ensures
            raw == self.0,
    {
        self.0
    }

    /// The red channel, borrowed for writing. Whatever the caller leaves in
    /// it becomes the red channel; the other three channels are untouched.
    pub fn r(&mut self) -> (channel: &mut u8)
        ensures
            *channel == old(self).0[0],
            final(self).0@ == old(self).0@.update(0, *final(channel)),
    {
        &mut self.0[0]
    }

    /// The green channel, borrowed for writing.
    pub fn g(&mut self) -> (channel: &mut u8)
        ensures
            *channel == old(self).0[1],
            final(self).0@ == old(self).0@.update(1, *final(channel)),
    {
        &mut self.0[1]
    }

    /// The blue channel, borrowed for writing.
    pub fn b(&mut self) -> (channel: &mut u8)
        ensures
            *channel == old(self).0[2],
            final(self).0@ == old(self).0@.update(2, *final(channel)),
    {
        &mut self.0[2]
    }

    /// The alpha channel, borrowed for writing.
    pub fn a(&mut self) -> (channel: &mut u8)
        ensures
            *channel == old(self).0[3],
            final(self).0@ == old(self).0@.update(3, *final(channel)),
    {
        &mut self.0[3]
    }
}

} // verus!
