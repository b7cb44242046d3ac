//! Byte offsets and bit masks of the controller's register block.
//!
//! Offsets are relative to the controller's base address; the widths used are
//! 32 bits everywhere except the byte-wide FIFO data window.

use vstd::prelude::*;

verus! {

// Register byte offsets.
pub const REG_CTRL: usize = 0x00;
pub const REG_PWREN: usize = 0x04;
pub const REG_CLKDIV: usize = 0x08;
pub const REG_CLKENA: usize = 0x10;
pub const REG_TMOUT: usize = 0x14;
pub const REG_CTYPE: usize = 0x18;
pub const REG_BLKSIZ: usize = 0x1C;
pub const REG_BYTCNT: usize = 0x20;
pub const REG_INTMASK: usize = 0x24;
pub const REG_CMDARG: usize = 0x28;
pub const REG_CMD: usize = 0x2C;
pub const REG_RESP0: usize = 0x30;
pub const REG_RESP1: usize = 0x34;
pub const REG_RESP2: usize = 0x38;
pub const REG_RESP3: usize = 0x3C;
pub const REG_RINTSTS: usize = 0x44;
pub const REG_STATUS: usize = 0x48;
pub const REG_HCON: usize = 0x70;
pub const REG_BMOD: usize = 0x80;
pub const REG_IDINTEN: usize = 0x90;
pub const REG_DATA: usize = 0x200;

// Interrupt-status bits (write one to clear).
pub const INT_CARD_DETECT: u32 = 0x1;
pub const INT_RESPONSE_ERR: u32 = 0x2;
pub const INT_CMD_DONE: u32 = 0x4;
pub const INT_DATA_OVER: u32 = 0x8;
pub const INT_TX_REQUEST: u32 = 0x10;
pub const INT_RX_READY: u32 = 0x20;
pub const INT_RESPONSE_CRC: u32 = 0x40;
pub const INT_DATA_CRC: u32 = 0x80;
pub const INT_RESPONSE_TIMEOUT: u32 = 0x100;
pub const INT_DATA_READ_TIMEOUT: u32 = 0x200;
pub const INT_STARVATION: u32 = 0x400;
pub const INT_FIFO_ERR: u32 = 0x800;
pub const INT_HARDWARE_LOCK: u32 = 0x1000;
pub const INT_START_BIT_ERR: u32 = 0x2000;
pub const INT_AUTO_CMD_DONE: u32 = 0x4000;
pub const INT_END_BIT_ERR: u32 = 0x8000;
/// Every interrupt-status bit at once, for write-1-to-clear sweeps.
pub const INT_ALL: u32 = 0xFFFF;

// Control-register bits.
pub const CTRL_CONTROLLER_RESET: u32 = 0x1;
pub const CTRL_FIFO_RESET: u32 = 0x2;
pub const CTRL_DMA_RESET: u32 = 0x4;

// Status-register bits.
pub const STATUS_DATA_BUSY: u32 = 0x200;
/// The FIFO occupancy count sits in bits 17 and up of the status register.
pub const STATUS_FIFO_SHIFT: u32 = 17;
pub const STATUS_FIFO_COUNT_MASK: u32 = 0x1FFF;

// Command-register bits.
pub const CMD_RESPONSE_EXPECT: u32 = 0x40;
pub const CMD_RESPONSE_LONG: u32 = 0x80;
pub const CMD_CHECK_RESPONSE_CRC: u32 = 0x100;
pub const CMD_DATA_EXPECTED: u32 = 0x200;
pub const CMD_WRITE: u32 = 0x400;
pub const CMD_WAIT_PRVDATA: u32 = 0x2000;
pub const CMD_UPDATE_CLOCK_ONLY: u32 = 0x200000;
pub const CMD_START: u32 = 0x80000000;

// DMA-completion interrupt-enable bits, armed for later use at the end of
// initialization.
pub const IDINT_TI: u32 = 0x1;
pub const IDINT_RI: u32 = 0x2;

/// Bits of the hardware-configuration register that this driver understands;
/// a configuration word with any other bit set is rejected as structural.
pub const HCON_KNOWN_MASK: u32 = 0x07FFFFFF;

/// Bound, in milliseconds, on each wait for a command line or reset flag.
pub const CMD_TIMEOUT_MS: u64 = 0xFF;
/// Bound, in milliseconds, on the data-line wait and on a whole bulk transfer.
pub const DATA_TIMEOUT_MS: u64 = 300;
/// Bound, in milliseconds, on the wait for a FIFO reset to clear.
pub const RESET_TIMEOUT_MS: u64 = 10;

} // verus!
