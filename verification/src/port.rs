//! The CPU's I/O ports. An input port is written by the host and read
//! by the CPU; an output port is written by the CPU and read by the
//! host, and remembers whether it was written since it was last read.

use vstd::prelude::*;

verus! {

/// An input port: a byte the host writes and the CPU reads.
#[derive(Debug, Copy, Clone)]
pub struct InPort {
    data: u8,
}

impl View for InPort {
    type V = u8;

    closed spec fn view(&self) -> u8 {
        self.data
    }
}

impl InPort {
    pub fn new(val: u8) -> (r: InPort)
        ensures
            r@ == val,
    {
        InPort { data: val }
    }

    pub fn read(&self) -> (r: u8)
        ensures
            r == self@,
    {
        self.data
    }

    pub fn write(&mut self, val: u8)
        ensures
            final(self)@ == val,
    {
        self.data = val;
    }
}

/// The state of an output port: its byte and whether it was written
/// since the host last read it.
pub ghost struct OutPortView {
    pub data: u8,
    pub dirty: bool,
}

/// An output port: a byte the CPU writes and the host reads. Every
/// write marks the port dirty; a read clears the mark.
#[derive(Debug, Copy, Clone)]
pub struct OutPort {
    data: u8,
    is_dirty: bool,
}

impl View for OutPort {
    type V = OutPortView;

    closed spec fn view(&self) -> OutPortView {
        OutPortView { data: self.data, dirty: self.is_dirty }
    }
}

impl OutPort {
    pub fn new(val: u8) -> (r: OutPort)
        ensures
            r@.data == val,
            r@.dirty == false,
    {
        OutPort { data: val, is_dirty: false }
    }

    /// Reads the port and clears the dirty mark.
    pub fn read(&mut self) -> (r: u8)
        ensures
            r == old(self)@.data,
            final(self)@.data == old(self)@.data,
            final(self)@.dirty == false,
    {
        self.is_dirty = false;
        self.data
    }

    /// Writes the port and marks it dirty.
    pub fn write(&mut self, val: u8)
        ensures
            final(self)@.data == val,
            final(self)@.dirty == true,
    {
        self.data = val;
        self.is_dirty = true;
    }

    /// Whether the port was written since it was last read.
    pub fn is_dirty(&self) -> (r: bool)
        ensures
            r == self@.dirty,
    {
        self.is_dirty
    }
}

} // verus!
