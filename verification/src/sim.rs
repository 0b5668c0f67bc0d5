//! A stand-in for the hardware that plays back scripted register values and
//! keeps a record of every access.

use vstd::prelude::*;
use crate::mmio::{
    write_count, Access, Device, Platform, Register, RegisterBus, FR_RXFE, FR_TXFF,
};
use crate::uart::wire;

verus! {

/// What the flag register reads once its script has run out: receive FIFO
/// empty, transmit FIFO with room.
pub const IDLE_FLAGS: u32 = FR_RXFE;

/// What is left of a script after one read: the script without its first
/// value, if it has one.
pub open spec fn after_read(script: Seq<u32>) -> Seq<u32> {
    if script.len() > 0 {
        script.skip(1)
    } else {
        script
    }
}

/// A bus without a device behind it.
///
/// Reads of the flag register and of the data register return the values
/// of two scripts, one value per read, oldest first. When its script has
/// run out the flag register reads `IDLE_FLAGS` and the data register reads
/// zero; every other register always reads zero. Every access is recorded.
pub struct ScriptedBus {
    log: Vec<Access>,
    flags: Vec<u32>,
    flags_used: usize,
    data: Vec<u32>,
    data_used: usize,
}

impl ScriptedBus {
    /// The flag register values that are still to be played back.
    pub closed spec fn pending_flags(&self) -> Seq<u32> {
        if self.flags_used <= self.flags@.len() {
            self.flags@.skip(self.flags_used as int)
        } else {
            Seq::empty()
        }
    }

    /// The data register values that are still to be played back.
    pub closed spec fn pending_data(&self) -> Seq<u32> {
        if self.data_used <= self.data@.len() {
            self.data@.skip(self.data_used as int)
        } else {
            Seq::empty()
        }
    }

    /// The value that the next read of `reg` returns.
    pub open spec fn next_value(&self, reg: Register) -> u32 {
        match reg {
            Register::Flag => if self.pending_flags().len() > 0 {
                self.pending_flags()[0]
            } else {
                IDLE_FLAGS
            },
            Register::Data => if self.pending_data().len() > 0 {
                self.pending_data()[0]
            } else {
                0
            },
            _ => 0,
        }
    }

    /// A bus with empty scripts and an empty record.
    pub fn new() -> (bus: Self)
        ensures
            bus.history() == Seq::<Access>::empty(),
            bus.pending_flags() == Seq::<u32>::empty(),
            bus.pending_data() == Seq::<u32>::empty(),
    {
        ScriptedBus {
            log: Vec::new(),
            flags: Vec::new(),
            flags_used: 0,
            data: Vec::new(),
            data_used: 0,
        }
    }

    /// A bus that plays back `flags` on reads of the flag register and
    /// `data` on reads of the data register, with an empty record.
    pub fn with_script(flags: Vec<u32>, data: Vec<u32>) -> (bus: Self)
        ensures
            bus.history() == Seq::<Access>::empty(),
            bus.pending_flags() == flags@,
            bus.pending_data() == data@,
    {
        let bus = ScriptedBus { log: Vec::new(), flags, flags_used: 0, data, data_used: 0 };
        assert(bus.pending_flags() =~= flags@);
        assert(bus.pending_data() =~= data@);
        bus
    }

    /// The record of every access, oldest first.
    pub fn log(&self) -> (log: &Vec<Access>)
        ensures
            log@ == self.history(),
    {
        &self.log
    }

    /// The number of register writes so far.
    pub fn writes(&self) -> (count: usize)
        ensures
            count == write_count(self.history()),
    {
        let mut count: usize = 0;
        let mut i: usize = 0;
        assert(self.log@.take(0) =~= Seq::<Access>::empty());
        while i < self.log.len()
            invariant
                i <= self.log.len(),
                count == write_count(self.log@.take(i as int)),
                count <= i,
            decreases self.log.len() - i,
        {
            assert(self.log@.take(i + 1).drop_last() =~= self.log@.take(i as int));
            match self.log[i] {
                Access::Write { .. } => {
                    count += 1;
                },
                _ => {},
            }
            i += 1;
        }
        assert(self.log@.take(i as int) =~= self.log@);
        count
    }

    /// The bytes queued for transmission so far, oldest first.
    pub fn transmitted(&self) -> (bytes: Vec<u8>)
        ensures
            bytes@ == wire(self.history()),
    {
        let mut bytes: Vec<u8> = Vec::new();
        let mut i: usize = 0;
        assert(self.log@.take(0) =~= Seq::<Access>::empty());
        while i < self.log.len()
            invariant
                i <= self.log.len(),
                bytes@ == wire(self.log@.take(i as int)),
            decreases self.log.len() - i,
        {
            assert(self.log@.take(i + 1).drop_last() =~= self.log@.take(i as int));
            match self.log[i] {
                Access::Write { reg: Register::Data, value } => {
                    assert(value & 0xFF < 0x100) by (bit_vector);
                    bytes.push((value & 0xFF) as u8);
                },
                _ => {},
            }
            i += 1;
        }
        assert(self.log@.take(i as int) =~= self.log@);
        bytes
    }
}

impl RegisterBus for ScriptedBus {
    closed spec fn history(&self) -> Seq<Access> {
        self.log@
    }

    closed spec fn stall(&self) -> nat {
        self.pending_flags().len()
    }

    fn read(&mut self, reg: Register) -> (value: u32)
        ensures
            value == old(self).next_value(reg),
            reg == Register::Flag ==> final(self).pending_flags() == after_read(
                old(self).pending_flags(),
            ),
            reg != Register::Flag ==> final(self).pending_flags() == old(self).pending_flags(),
            reg == Register::Data ==> final(self).pending_data() == after_read(
                old(self).pending_data(),
            ),
            reg != Register::Data ==> final(self).pending_data() == old(self).pending_data(),
    {
        let value: u32 = match reg {
            Register::Flag => {
                if self.flags_used < self.flags.len() {
                    let v = self.flags[self.flags_used];
                    self.flags_used += 1;
                    v
                } else {
                    IDLE_FLAGS
                }
            },
            Register::Data => {
                if self.data_used < self.data.len() {
                    let v = self.data[self.data_used];
                    self.data_used += 1;
                    v
                } else {
                    0
                }
            },
            _ => 0,
        };
        self.log.push(Access::Read { reg, value });
        proof {
            assert(IDLE_FLAGS & FR_TXFF == 0) by (bit_vector)
                requires
                    IDLE_FLAGS == 0x10u32,
                    FR_TXFF == 0x20u32,
            ;
            assert(self.pending_flags() =~= if reg == Register::Flag {
                after_read(old(self).pending_flags())
            } else {
                old(self).pending_flags()
            });
            assert(self.pending_data() =~= if reg == Register::Data {
                after_read(old(self).pending_data())
            } else {
                old(self).pending_data()
            });
        }
        value
    }

    fn write(&mut self, reg: Register, value: u32)
        ensures
            final(self).pending_flags() == old(self).pending_flags(),
            final(self).pending_data() == old(self).pending_data(),
    {
        self.log.push(Access::Write { reg, value });
    }
}

impl Platform for ScriptedBus {
    fn bring_up(&mut self, device: Device)
        ensures
            final(self).pending_flags() == old(self).pending_flags(),
            final(self).pending_data() == old(self).pending_data(),
    {
        self.log.push(Access::BringUp { device });
    }
}

} // verus!
