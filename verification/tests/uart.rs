use laplace::pl011::{
    Pl011, FR_RXFE, FR_TXFE, UARTCR, UARTDR, UARTFR, UARTIBRD, UARTICR, UARTIMSC,
};
use laplace::uart8250::{Uart8250, LSR, LSR_TEMT, LSR_THRE, THR};

#[test]
fn contains_range() {
    let uart = Pl011::new(0x0900_0000);
    assert!(uart.contains(0x0900_0000));
    assert!(uart.contains(0x0900_0FFF));
    assert!(!uart.contains(0x0900_1000));
    assert!(!uart.contains(0x08FF_FFFF));
}

#[test]
fn flag_register_reports_tx_empty() {
    let uart = Pl011::new(0x0900_0000);
    let fr = uart.read(UARTFR, 4);
    assert_ne!(fr & FR_TXFE as u64, 0, "TX FIFO should be empty");
    assert_ne!(fr & FR_RXFE as u64, 0, "RX FIFO should be empty");
}

#[test]
fn write_to_data_register_does_not_panic() {
    let uart = Pl011::new(0x0900_0000);
    assert_eq!(uart.write(UARTDR, b'A' as u64, 1), Some(b'A'));
    assert_eq!(uart.write(UARTDR, b'\n' as u64, 1), Some(b'\n'));
}

#[test]
fn config_writes_accepted_silently() {
    let uart = Pl011::new(0x0900_0000);
    assert_eq!(uart.write(UARTIBRD, 0x1234, 4), None);
    assert_eq!(uart.write(UARTCR, 0x0301, 4), None);
    assert_eq!(uart.write(UARTIMSC, 0, 4), None);
    assert_eq!(uart.write(UARTICR, 0xFFFF, 4), None);
}

#[test]
fn unknown_register_reads_zero() {
    let uart = Pl011::new(0x0900_0000);
    assert_eq!(uart.read(0x100, 4), 0);
}

#[test]
fn identification_registers() {
    let uart = Pl011::new(0x0900_0000);
    // CellID should be 0x0D, 0xF0, 0x05, 0xB1
    assert_eq!(uart.read(0xFF0, 4), 0x0D);
    assert_eq!(uart.read(0xFF4, 4), 0xF0);
    assert_eq!(uart.read(0xFF8, 4), 0x05);
    assert_eq!(uart.read(0xFFC, 4), 0xB1);
}

#[test]
fn peripheral_id_registers_are_exact_and_control_reads_zero() {
    let uart = Pl011::new(0x0900_0000);
    assert_eq!(uart.read(0xFE0, 4), 0x11);
    assert_eq!(uart.read(0xFE4, 4), 0x10);
    assert_eq!(uart.read(0xFE8, 4), 0x14);
    assert_eq!(uart.read(0xFEC, 4), 0x00);
    assert_eq!(uart.read(UARTCR, 4), 0);
}

#[test]
fn data_register_takes_the_low_byte() {
    let uart = Pl011::new(0x0900_0000);
    assert_eq!(uart.write(UARTDR, 0x1_2345, 4), Some(0x45));
}

#[test]
fn lsr_reports_tx_empty() {
    let uart = Uart8250::new(0x3f8);
    let lsr = uart.read(LSR, 1);
    assert_ne!(lsr & LSR_THRE as u64, 0);
    assert_ne!(lsr & LSR_TEMT as u64, 0);
}

#[test]
fn write_thr_does_not_panic() {
    let mut uart = Uart8250::new(0x3f8);
    assert_eq!(uart.write(THR, b'A' as u64, 1), Some(b'A'));
}

#[test]
fn divisor_latch_hides_the_transmit_register() {
    let mut uart = Uart8250::new(0x3f8);
    assert_eq!(uart.write(3, 0x80, 1), None); // LCR: DLAB on
    // the divisor is not kept
    assert_eq!(uart.write(THR, 0x0c, 1), None);
    assert_eq!(uart.read(THR, 1), 0);
    assert_eq!(uart.write(3, 0x03, 1), None); // DLAB off
    assert_eq!(uart.write(THR, b'x' as u64, 1), Some(b'x'));
    assert_eq!(uart.read(3, 1), 0x03);
}

#[test]
fn scratch_register_reads_back() {
    let mut uart = Uart8250::new(0x3f8);
    uart.write(7, 0x5a, 1);
    assert_eq!(uart.read(7, 1), 0x5a);
    assert!(uart.contains(0x3f8));
    assert!(!uart.contains(0x3f7));
}
