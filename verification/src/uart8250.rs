//! Minimal 8250/16550A UART emulation for earlycon output.
//!
//! The 8250 is simpler than PL011: just a handful of byte-wide registers,
//! enough for earlycon and console output:
//! - THR (TX holding register): written bytes go to the host console
//! - LSR (line status register): always reports TX empty

use vstd::prelude::*;

verus! {

/// Transmit Holding Register (write).
pub const THR: u64 = 0x00;

/// Receive Buffer Register (read).
pub const RBR: u64 = 0x00;

/// Interrupt Enable Register.
pub const IER: u64 = 0x01;

/// Interrupt Identification Register (read).
pub const IIR: u64 = 0x02;

/// FIFO Control Register (write).
pub const FCR: u64 = 0x02;

/// Line Control Register.
pub const LCR: u64 = 0x03;

/// Modem Control Register.
pub const MCR: u64 = 0x04;

/// Line Status Register.
pub const LSR: u64 = 0x05;

/// Modem Status Register.
pub const MSR: u64 = 0x06;

/// Scratch Register.
pub const SCR: u64 = 0x07;

/// Data Ready.
pub const LSR_DR: u8 = 0x01;

/// TX Holding Register Empty.
pub const LSR_THRE: u8 = 0x20;

/// Transmitter Empty.
pub const LSR_TEMT: u8 = 0x40;

/// An 8250 in the guest's address space.
pub struct Uart8250 {
    pub base_addr: u64,
    pub size: u64,
    lcr: u8,
    mcr: u8,
    scr: u8,
    ier: u8,
    dll: u8,
    dlh: u8,
}

/// Where the device is, and what its registers hold.
pub struct UartState {
    pub base_addr: u64,
    pub size: u64,
    pub lcr: u8,
    pub mcr: u8,
    pub scr: u8,
    pub ier: u8,
    /// Divisor Latch Low (when DLAB=1)
    pub dll: u8,
    /// Divisor Latch High (when DLAB=1)
    pub dlh: u8,
}

impl UartState {
    /// `addr` belongs to the device.
    pub open spec fn spans(self, addr: u64) -> bool {
        self.base_addr <= addr < self.base_addr + self.size
    }

    /// Bit 7 of the line control register: the divisor latch is visible.
    pub open spec fn dlab(self) -> bool {
        self.lcr >= 0x80
    }

    /// What the register at `offset` reads as.
    pub open spec fn value_at(self, offset: u64) -> u64 {
        if offset == 0x00 {
            // no data to read
            if self.dlab() {
                self.dll as u64
            } else {
                0
            }
        } else if offset == 0x01 {
            if self.dlab() {
                self.dlh as u64
            } else {
                self.ier as u64
            }
        } else if offset == IIR {
            // no interrupt pending
            0x01
        } else if offset == LCR {
            self.lcr as u64
        } else if offset == MCR {
            self.mcr as u64
        } else if offset == LSR {
            // TX always ready, no RX data
            0x60
        } else if offset == SCR {
            self.scr as u64
        } else {
            0
        }
    }

    /// The registers after `value` was written at `offset`. The divisor latch
    /// and the FIFO control register ignore what is written to them.
    pub open spec fn after_write(self, offset: u64, value: u64) -> UartState {
        let low = (value % 256) as u8;
        if offset == IER && !self.dlab() {
            UartState { ier: low, ..self }
        } else if offset == LCR {
            UartState { lcr: low, ..self }
        } else if offset == MCR {
            UartState { mcr: low, ..self }
        } else if offset == SCR {
            UartState { scr: low, ..self }
        } else {
            self
        }
    }

    /// The byte that writing `value` at `offset` puts on the console, if any.
    pub open spec fn console_output(self, offset: u64, value: u64) -> Option<u8> {
        if offset == THR && !self.dlab() {
            Some((value % 256) as u8)
        } else {
            None
        }
    }
}

impl View for Uart8250 {
    type V = UartState;

    closed spec fn view(&self) -> UartState {
        UartState {
            base_addr: self.base_addr,
            size: self.size,
            lcr: self.lcr,
            mcr: self.mcr,
            scr: self.scr,
            ier: self.ier,
            dll: self.dll,
            dlh: self.dlh,
        }
    }
}

impl Uart8250 {
    /// A device of 8 registers at `base_addr`, all zero.
    pub fn new(base_addr: u64) -> (uart: Self)
        ensures
            uart@ == (UartState {
                base_addr,
                size: 8,
                lcr: 0,
                mcr: 0,
                scr: 0,
                ier: 0,
                dll: 0,
                dlh: 0,
            }),
    {
        Uart8250 { base_addr, size: 0x8, lcr: 0, mcr: 0, scr: 0, ier: 0, dll: 0, dlh: 0 }
    }

    /// Does `addr` belong to the device?
    pub fn contains(&self, addr: u64) -> (b: bool)
        ensures
            b == self@.spans(addr),
    {
        addr >= self.base_addr && addr - self.base_addr < self.size
    }

    /// Handle a register read.
    pub fn read(&self, offset: u64, _size: usize) -> (value: u64)
        ensures
            value == self@.value_at(offset),
    {
        let dlab = self.lcr >= 0x80;
        match offset {
            RBR => if dlab {
                self.dll as u64
            } else {
                0
            },
            IER => if dlab {
                self.dlh as u64
            } else {
                self.ier as u64
            },
            IIR => 0x01,
            LCR => self.lcr as u64,
            MCR => self.mcr as u64,
            LSR => 0x60,
            MSR => 0,
            SCR => self.scr as u64,
            _ => 0,
        }
    }

    /// Handle a register write. Returns the byte to put on the host console.
    pub fn write(&mut self, offset: u64, value: u64, _size: usize) -> (byte: Option<u8>)
        ensures
            final(self)@ == old(self)@.after_write(offset, value),
            byte == old(self)@.console_output(offset, value),
    {
        let dlab = self.lcr >= 0x80;
        let low: u8 = (value % 256) as u8;
        match offset {
            THR => {
                if !dlab {
                    return Some(low);
                }
            },
            IER => {
                if !dlab {
                    self.ier = low;
                }
            },
            LCR => {
                self.lcr = low;
            },
            MCR => {
                self.mcr = low;
            },
            SCR => {
                self.scr = low;
            },
            _ => {},
        }
        None
    }
}

// Laws

/// The line status register says at any time that the guest may transmit.
pub proof fn law_always_ready_to_transmit(regs: UartState)
    ensures
        regs.value_at(LSR) & LSR_THRE as u64 != 0,
        regs.value_at(LSR) & LSR_TEMT as u64 != 0,
        regs.value_at(LSR) & LSR_DR as u64 == 0,
{
    assert(0x60u64 & 0x20u64 != 0) by (bit_vector);
    assert(0x60u64 & 0x40u64 != 0) by (bit_vector);
    assert(0x60u64 & 0x01u64 == 0) by (bit_vector);
}

/// The line control, modem control and scratch registers read back the byte
/// that was written to them.
pub proof fn law_registers_read_back(regs: UartState, offset: u64, value: u64)
    requires
        offset == LCR || offset == MCR || offset == SCR,
    ensures
        regs.after_write(offset, value).value_at(offset) == value % 256,
{
}

/// What the guest writes to the first register, with the divisor latch out of
/// the way, comes out on the console: the low byte of what is written. Nothing
/// else does.
pub proof fn law_console_carries_what_is_written(regs: UartState, offset: u64, value: u64)
    ensures
        offset == 0 && regs.lcr < 0x80 ==> regs.console_output(offset, value) == Some(
            (value % 256) as u8,
        ),
        offset != 0 || regs.lcr >= 0x80 ==> regs.console_output(offset, value) is None,
{
}

/// A write changes the register that it names and no other: offset 1 the
/// interrupt enable register unless the divisor latch is visible, offset 3 line
/// control, 4 modem control and 7 scratch, each to the low byte.
pub proof fn law_writes_touch_one_register(regs: UartState, offset: u64, value: u64)
    ensures
        ({
            let after = regs.after_write(offset, value);
            let low = (value % 256) as u8;
            &&& after.base_addr == regs.base_addr && after.size == regs.size
            &&& after.dll == regs.dll && after.dlh == regs.dlh
            &&& after.ier == (if offset == 1 && regs.lcr < 0x80 {
                low
            } else {
                regs.ier
            })
            &&& after.lcr == (if offset == 3 {
                low
            } else {
                regs.lcr
            })
            &&& after.mcr == (if offset == 4 {
                low
            } else {
                regs.mcr
            })
            &&& after.scr == (if offset == 7 {
                low
            } else {
                regs.scr
            })
        }),
{
}

/// What each register reads as: nothing was received, no interrupt is pending,
/// the transmitter is empty; bit 7 of line control puts the divisor latch in
/// place of the first two registers; registers that are not there read as zero.
pub proof fn law_registers_by_offset(regs: UartState, offset: u64)
    ensures
        regs.lcr < 0x80 ==> regs.value_at(0) == 0 && regs.value_at(1) == regs.ier,
        regs.lcr >= 0x80 ==> regs.value_at(0) == regs.dll && regs.value_at(1) == regs.dlh,
        regs.value_at(2) == 0x01,
        regs.value_at(3) == regs.lcr,
        regs.value_at(4) == regs.mcr,
        regs.value_at(5) == 0x60,
        regs.value_at(6) == 0,
        regs.value_at(7) == regs.scr,
        offset > 7 ==> regs.value_at(offset) == 0,
{
}

/// The device takes exactly the addresses from its base up to its size.
pub proof fn law_device_range(regs: UartState, addr: u64)
    ensures
        regs.spans(addr) <==> addr >= regs.base_addr && addr - regs.base_addr < regs.size,
{
}

} // verus!
