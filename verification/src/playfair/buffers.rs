//! The five working buffers of the SAP hash.
use vstd::prelude::*;

verus! {

/// The contents of the five buffers.
pub struct GarbleView {
    pub buffer0: Seq<u8>,
    pub buffer1: Seq<u8>,
    pub buffer2: Seq<u8>,
    pub buffer3: Seq<u8>,
    pub buffer4: Seq<u8>,
}

/// The five buffers of the SAP hash: `buffer1` holds the stretched input block, `buffer3` is
/// scratch, the other three start from constants.
pub struct Garble {
    pub buffer0: [u8; 20],
    pub buffer1: [u8; 210],
    pub buffer2: [u8; 35],
    pub buffer3: [u8; 132],
    pub buffer4: [u8; 21],
}

impl View for Garble {
    type V = GarbleView;

    open spec fn view(&self) -> GarbleView {
        GarbleView {
            buffer0: self.buffer0@,
            buffer1: self.buffer1@,
            buffer2: self.buffer2@,
            buffer3: self.buffer3@,
            buffer4: self.buffer4@,
        }
    }
}

impl GarbleView {
    /// Byte `i` of buffer 0.
    pub open spec fn v0(self, i: u32) -> u8 {
        self.buffer0[i as int]
    }

    /// Byte `i` of buffer 0, widened.
    pub open spec fn b0(self, i: u32) -> u32 {
        self.buffer0[i as int] as u32
    }

    /// Byte `i` of buffer 1.
    pub open spec fn v1(self, i: u32) -> u8 {
        self.buffer1[i as int]
    }

    /// Byte `i` of buffer 1, widened.
    pub open spec fn b1(self, i: u32) -> u32 {
        self.buffer1[i as int] as u32
    }

    /// Byte `i` of buffer 2.
    pub open spec fn v2(self, i: u32) -> u8 {
        self.buffer2[i as int]
    }

    /// Byte `i` of buffer 2, widened.
    pub open spec fn b2(self, i: u32) -> u32 {
        self.buffer2[i as int] as u32
    }

    /// Byte `i` of buffer 3.
    pub open spec fn v3(self, i: u32) -> u8 {
        self.buffer3[i as int]
    }

    /// Byte `i` of buffer 3, widened.
    pub open spec fn b3(self, i: u32) -> u32 {
        self.buffer3[i as int] as u32
    }

    /// Byte `i` of buffer 4.
    pub open spec fn v4(self, i: u32) -> u8 {
        self.buffer4[i as int]
    }

    /// Byte `i` of buffer 4, widened.
    pub open spec fn b4(self, i: u32) -> u32 {
        self.buffer4[i as int] as u32
    }

    /// The buffers with byte `i` of buffer 0 replaced.
    pub open spec fn set0(self, i: u32, byte: u8) -> GarbleView {
        GarbleView { buffer0: self.buffer0.update(i as int, byte), ..self }
    }

    /// The buffers with byte `i` of buffer 1 replaced.
    pub open spec fn set1(self, i: u32, byte: u8) -> GarbleView {
        GarbleView { buffer1: self.buffer1.update(i as int, byte), ..self }
    }

    /// The buffers with byte `i` of buffer 2 replaced.
    pub open spec fn set2(self, i: u32, byte: u8) -> GarbleView {
        GarbleView { buffer2: self.buffer2.update(i as int, byte), ..self }
    }

    /// The buffers with byte `i` of buffer 3 replaced.
    pub open spec fn set3(self, i: u32, byte: u8) -> GarbleView {
        GarbleView { buffer3: self.buffer3.update(i as int, byte), ..self }
    }

}

impl Garble {
    pub fn v0(&self, i: u32) -> (r: u8)
        requires
            i < 20,
        ensures
            r == self@.v0(i),
    {
        self.buffer0[i as usize]
    }

    pub fn b0(&self, i: u32) -> (r: u32)
        requires
            i < 20,
        ensures
            r == self@.b0(i),
    {
        self.buffer0[i as usize] as u32
    }

    pub fn v1(&self, i: u32) -> (r: u8)
        requires
            i < 210,
        ensures
            r == self@.v1(i),
    {
        self.buffer1[i as usize]
    }

    pub fn b1(&self, i: u32) -> (r: u32)
        requires
            i < 210,
        ensures
            r == self@.b1(i),
    {
        self.buffer1[i as usize] as u32
    }

    pub fn v2(&self, i: u32) -> (r: u8)
        requires
            i < 35,
        ensures
            r == self@.v2(i),
    {
        self.buffer2[i as usize]
    }

    pub fn b2(&self, i: u32) -> (r: u32)
        requires
            i < 35,
        ensures
            r == self@.b2(i),
    {
        self.buffer2[i as usize] as u32
    }

    pub fn v3(&self, i: u32) -> (r: u8)
        requires
            i < 132,
        ensures
            r == self@.v3(i),
    {
        self.buffer3[i as usize]
    }

    pub fn b3(&self, i: u32) -> (r: u32)
        requires
            i < 132,
        ensures
            r == self@.b3(i),
    {
        self.buffer3[i as usize] as u32
    }

    pub fn v4(&self, i: u32) -> (r: u8)
        requires
            i < 21,
        ensures
            r == self@.v4(i),
    {
        self.buffer4[i as usize]
    }

    pub fn b4(&self, i: u32) -> (r: u32)
        requires
            i < 21,
        ensures
            r == self@.b4(i),
    {
        self.buffer4[i as usize] as u32
    }

    pub fn set0(&mut self, i: u32, byte: u8)
        requires
            i < 20,
        ensures
            final(self)@ == old(self)@.set0(i, byte),
    {
        self.buffer0[i as usize] = byte;
    }

    pub fn set1(&mut self, i: u32, byte: u8)
        requires
            i < 210,
        ensures
            final(self)@ == old(self)@.set1(i, byte),
    {
        self.buffer1[i as usize] = byte;
    }

    pub fn set2(&mut self, i: u32, byte: u8)
        requires
            i < 35,
        ensures
            final(self)@ == old(self)@.set2(i, byte),
    {
        self.buffer2[i as usize] = byte;
    }

    pub fn set3(&mut self, i: u32, byte: u8)
        requires
            i < 132,
        ensures
            final(self)@ == old(self)@.set3(i, byte),
    {
        self.buffer3[i as usize] = byte;
    }

}

} // verus!
