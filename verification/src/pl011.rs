//! Minimal PL011 UART emulation for Linux earlycon.
//!
//! Only as much as the kernel needs to use this as earlycon output:
//! - DR (data register): written bytes go to the host console
//! - FR (flag register): always reports TX FIFO empty (ready to write)
//! - Identification registers: those the Linux driver checks
//! - Other registers: ignored reads return 0, writes are discarded

use vstd::prelude::*;

verus! {

/// Data register.
pub const UARTDR: u64 = 0x000;

/// Flag register.
pub const UARTFR: u64 = 0x018;

/// Integer baud rate.
pub const UARTIBRD: u64 = 0x024;

/// Fractional baud rate.
pub const UARTFBRD: u64 = 0x028;

/// Line control.
pub const UARTLCR_H: u64 = 0x02C;

/// Control register.
pub const UARTCR: u64 = 0x030;

/// Interrupt mask set/clear.
pub const UARTIMSC: u64 = 0x038;

/// Interrupt clear.
pub const UARTICR: u64 = 0x044;

/// Masked interrupt status.
pub const UARTMIS: u64 = 0x040;

/// TX FIFO empty.
pub const FR_TXFE: u32 = 0x80;

/// RX FIFO empty.
pub const FR_RXFE: u32 = 0x10;

/// What the register at `offset` reads as.
pub open spec fn register_value(offset: u64) -> u64 {
    if offset == UARTFR {
        0x90
    } else if offset == 0xFE0 {
        0x11
    } else if offset == 0xFE4 {
        0x10
    } else if offset == 0xFE8 {
        0x14
    } else if offset == 0xFF0 {
        0x0D
    } else if offset == 0xFF4 {
        0xF0
    } else if offset == 0xFF8 {
        0x05
    } else if offset == 0xFFC {
        0xB1
    } else {
        0
    }
}

/// The byte that writing `value` at `offset` puts on the console, if any.
pub open spec fn console_output(offset: u64, value: u64) -> Option<u8> {
    if offset == UARTDR {
        Some((value % 256) as u8)
    } else {
        None
    }
}

/// A PL011 in the guest's physical address space.
#[derive(Clone, Copy, Debug, PartialEq, Eq, Structural)]
pub struct Pl011 {
    pub base_addr: u64,
    pub size: u64,
}

impl Pl011 {
    /// `addr` belongs to the device.
    pub open spec fn spans(self, addr: u64) -> bool {
        self.base_addr <= addr < self.base_addr + self.size
    }

    /// A device of 4 KiB at `base_addr`.
    pub fn new(base_addr: u64) -> (uart: Self)
        ensures
            uart.base_addr == base_addr,
            uart.size == 0x1000,
    {
        Pl011 { base_addr, size: 0x1000 }
    }

    /// Does `addr` belong to the device?
    pub fn contains(&self, addr: u64) -> (b: bool)
        ensures
            b == self.spans(addr),
    {
        addr >= self.base_addr && addr - self.base_addr < self.size
    }

    /// Handle an MMIO read. Returns the value to give back to the guest.
    pub fn read(&self, offset: u64, _size: usize) -> (value: u64)
        ensures
            value == register_value(offset),
    {
        match offset {
            // TX empty, RX empty
            UARTFR => 0x90,
            // no pending interrupts
            UARTMIS => 0,
            // PL011 identification registers (PeriphID and CellID). These must
            // return the correct values for the Linux PL011 driver to
            // recognize the device (checked by amba_bus match).
            0xFE0 => 0x11,  // UART_PERIPHID0: partnum[7:0]
            0xFE4 => 0x10,  // UART_PERIPHID1: designer[3:0] | partnum[11:8]
            0xFE8 => 0x14,  // UART_PERIPHID2: revision | designer[7:4]
            0xFEC => 0x00,  // UART_PERIPHID3
            0xFF0 => 0x0D,  // UART_CELLID0
            0xFF4 => 0xF0,  // UART_CELLID1
            0xFF8 => 0x05,  // UART_CELLID2
            0xFFC => 0xB1,  // UART_CELLID3
            _ => 0,
        }
    }

    /// Handle an MMIO write. Returns the byte to put on the host console;
    /// writes to the config and interrupt registers are silently accepted.
    pub fn write(&self, offset: u64, value: u64, _size: usize) -> (byte: Option<u8>)
        ensures
            byte == console_output(offset, value),
    {
        match offset {
            UARTDR => Some((value % 256) as u8),
            _ => None,
        }
    }
}

// Laws

/// The flag register says at any time that the guest may transmit and that
/// nothing was received.
pub proof fn law_always_ready_to_transmit()
    ensures
        register_value(UARTFR) & FR_TXFE as u64 != 0,
        register_value(UARTFR) & FR_RXFE as u64 != 0,
{
    assert(0x90u64 & 0x80u64 != 0) by (bit_vector);
    assert(0x90u64 & 0x10u64 != 0) by (bit_vector);
}

/// The identification registers are those of an ARM PL011: part number 0x011,
/// designed by ARM (0x41), revision 1, with the PrimeCell identification
/// 0xB105F00D. Each register holds one byte.
pub proof fn law_identifies_as_a_pl011()
    ensures
        register_value(0xFE0) + 0x100 * (register_value(0xFE4) % 16) == 0x011,
        register_value(0xFE4) / 16 + 16 * (register_value(0xFE8) % 16) == 0x41,
        register_value(0xFE8) / 16 == 1,
        register_value(0xFEC) == 0,
        register_value(0xFF0) + 0x100 * register_value(0xFF4) + 0x1_0000 * register_value(0xFF8)
            + 0x100_0000 * register_value(0xFFC) == 0xB105_F00D,
{
}

/// Every register but the flag and identification registers reads as zero.
pub proof fn law_other_registers_read_zero(offset: u64)
    requires
        offset != 0x018,
        !(0xFE0 <= offset <= 0xFFC && offset % 4 == 0),
    ensures
        register_value(offset) == 0,
{
}

/// What the guest writes to the data register, and that alone, comes out on the
/// console: the low byte of each value, whatever its other bits are.
pub proof fn law_console_carries_what_is_written(offset: u64, byte: u8, high: u64)
    requires
        high <= 0xFF_FFFF_FFFF_FFFF,
    ensures
        console_output(0x000, (256 * high + byte) as u64) == Some(byte),
        offset != 0x000 ==> console_output(offset, (256 * high + byte) as u64) is None,
{
}

/// The device takes exactly the addresses from its base up to its size.
pub proof fn law_device_range(uart: Pl011, offset: u64)
    requires
        uart.base_addr + offset <= u64::MAX,
    ensures
        uart.spans((uart.base_addr + offset) as u64) <==> offset < uart.size,
        offset > 0 && offset <= uart.base_addr ==> !uart.spans((uart.base_addr - offset) as u64),
{
}

} // verus!
