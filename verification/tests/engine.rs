//! The command engine against scripted register stores: interrupt-status
//! clearing order, command-done timeout, and the two transfer loops.

use dw_mmc::cmd;
use dw_mmc::err::CardError;
use dw_mmc::err::Interrupt;
use dw_mmc::err::Timeout;
use dw_mmc::hal::Clock;
use dw_mmc::hal::RegisterAccess;
use dw_mmc::ops::MmcOperate;
use dw_mmc::sd_reg::Response;

const REG_CMD: usize = 0x2C;
const REG_RESP0: usize = 0x30;
const REG_RINTSTS: usize = 0x44;
const REG_STATUS: usize = 0x48;

struct TickClock {
    t: u64,
    step: u64,
}

impl Clock for TickClock {
    fn now(&mut self) -> u64 {
        self.t = self.t.saturating_add(self.step);
        self.t
    }
}

/// A register store that models write-one-to-clear interrupt status and
/// raises command-done when a command word is written.
struct CardRegs {
    rintsts: u32,
    resp0: u32,
    writes32: Vec<(usize, u32)>,
}

impl RegisterAccess for CardRegs {
    fn read32(&mut self, off: usize) -> u32 {
        match off {
            REG_CMD => 0,
            REG_STATUS => 0,
            REG_RINTSTS => self.rintsts,
            REG_RESP0 => self.resp0,
            _ => 0,
        }
    }

    fn write32(&mut self, off: usize, v: u32) {
        self.writes32.push((off, v));
        match off {
            REG_RINTSTS => {
                self.rintsts &= !v;
            }
            REG_CMD => {
                self.rintsts |= 0x4;
                self.resp0 = 0x00050000;
            }
            _ => {}
        }
    }

    fn read8(&mut self, _off: usize) -> u8 {
        0
    }

    fn write8(&mut self, _off: usize, _v: u8) {}
}

#[test]
fn issue_clears_stale_bits_before_command() {
    // Stale response-timeout and end-bit flags from a prior transaction.
    let regs = CardRegs { rintsts: 0x100 | 0x8000, resp0: 0, writes32: Vec::new() };
    let clock = TickClock { t: 0, step: 10 };
    let mut engine = MmcOperate::new(regs, clock);
    let r = engine.send_cmd(cmd::send_relative_address());
    // Had the stale response-timeout bit leaked into classification, this
    // would be a ResponseTimeout fault; the clearing sweep prevents that.
    assert!(matches!(r, Ok(Response::R48(0x00050000))));
    // And the write order shows why: the all-bits clear of the
    // interrupt-status register precedes the command-register write.
    let first_cmd = engine.regs.writes32.iter().position(|w| w.0 == REG_CMD).unwrap();
    let first_clear = engine
        .regs
        .writes32
        .iter()
        .position(|w| w.0 == REG_RINTSTS && w.1 == 0xFFFF)
        .unwrap();
    assert!(first_clear < first_cmd);
}

/// A register store where the command-done flag never rises.
struct DeadRegs;

impl RegisterAccess for DeadRegs {
    fn read32(&mut self, _off: usize) -> u32 {
        0
    }

    fn write32(&mut self, _off: usize, _v: u32) {}

    fn read8(&mut self, _off: usize) -> u8 {
        0
    }

    fn write8(&mut self, _off: usize, _v: u8) {}
}

#[test]
fn cmd_done_never_sets_times_out_at_the_bound() {
    let clock = TickClock { t: 0, step: 50 };
    let mut engine = MmcOperate::new(DeadRegs, clock);
    let r = engine.send_cmd(cmd::idle());
    assert!(matches!(
        r,
        Err(CardError::TimeoutErr(Timeout::WaitCmdDone))
    ));
    // The command-done wait is bounded by 0xFF milliseconds (255000 ticks).
    // The fault comes only once the clock has crossed that bound, and not
    // long after: the few extra readings before the wait began, plus one
    // overshoot step.
    assert!(engine.clock.t > 255_000);
    assert!(engine.clock.t < 255_000 + 2_000);
}

/// A FIFO that delivers a fixed run of bytes, then reports transfer-over.
struct ReadFifo {
    data: Vec<u8>,
    delivered: usize,
}

impl RegisterAccess for ReadFifo {
    fn read32(&mut self, off: usize) -> u32 {
        match off {
            REG_RINTSTS => {
                if self.delivered < self.data.len() {
                    0x20 // receive-data-ready
                } else {
                    0x8 // transfer complete
                }
            }
            REG_STATUS => (((self.data.len() - self.delivered) as u32) & 0x1FFF) << 17,
            _ => 0,
        }
    }

    fn write32(&mut self, _off: usize, _v: u32) {}

    fn read8(&mut self, _off: usize) -> u8 {
        let b = self.data[self.delivered];
        self.delivered += 1;
        b
    }

    fn write8(&mut self, _off: usize, _v: u8) {}
}

#[test]
fn read_transfer_copies_exactly_the_requested_total() {
    let data: Vec<u8> = (0u8..16).map(|i| i.wrapping_mul(7).wrapping_add(3)).collect();
    let regs = ReadFifo { data: data.clone(), delivered: 0 };
    let clock = TickClock { t: 0, step: 20 };
    let mut engine = MmcOperate::new(regs, clock);
    let mut buf = vec![0u8; 16];
    let r = engine.read_data(&mut buf, 1, 16);
    assert!(matches!(r, Ok(())));
    // Exactly blocks x block-size bytes were copied, in order.
    assert_eq!(buf, data);
    assert_eq!(engine.regs.delivered, 16);
}

/// A FIFO that never stops reporting occupancy.
struct BabblingFifo;

impl RegisterAccess for BabblingFifo {
    fn read32(&mut self, off: usize) -> u32 {
        match off {
            REG_RINTSTS => 0x20,
            REG_STATUS => 1 << 17,
            _ => 0,
        }
    }

    fn write32(&mut self, _off: usize, _v: u32) {}

    fn read8(&mut self, _off: usize) -> u8 {
        0xAB
    }

    fn write8(&mut self, _off: usize, _v: u8) {}
}

#[test]
fn overfull_fifo_is_a_fifo_status_fault() {
    let clock = TickClock { t: 0, step: 20 };
    let mut engine = MmcOperate::new(BabblingFifo, clock);
    let mut buf = vec![0u8; 8];
    let r = engine.read_data(&mut buf, 1, 8);
    assert!(matches!(
        r,
        Err(CardError::TimeoutErr(Timeout::FifoStatus))
    ));
    assert_eq!(buf.len(), 8);
}

/// A register store whose interrupt status reports a data fault.
struct FaultyData;

impl RegisterAccess for FaultyData {
    fn read32(&mut self, off: usize) -> u32 {
        match off {
            REG_RINTSTS => 0x80 | 0x8000, // data CRC and end bit together
            _ => 0,
        }
    }

    fn write32(&mut self, _off: usize, _v: u32) {}

    fn read8(&mut self, _off: usize) -> u8 {
        0
    }

    fn write8(&mut self, _off: usize, _v: u8) {}
}

#[test]
fn transfer_fault_uses_classifier_precedence() {
    let clock = TickClock { t: 0, step: 20 };
    let mut engine = MmcOperate::new(FaultyData, clock);
    let mut buf = vec![0u8; 8];
    let r = engine.read_data(&mut buf, 1, 8);
    assert!(matches!(
        r,
        Err(CardError::InterruptErr(Interrupt::EndBitErr))
    ));
}

/// Transfer-complete rises before any transmit-request ever fires.
struct EagerWriteDone {
    pushes: usize,
}

impl RegisterAccess for EagerWriteDone {
    fn read32(&mut self, off: usize) -> u32 {
        match off {
            REG_RINTSTS => 0x8,
            _ => 0,
        }
    }

    fn write32(&mut self, _off: usize, _v: u32) {}

    fn read8(&mut self, _off: usize) -> u8 {
        0
    }

    fn write8(&mut self, _off: usize, _v: u8) {
        self.pushes += 1;
    }
}

#[test]
fn write_completion_is_gated_on_transfer_complete_alone() {
    // Deliberate asymmetry against the read side: the write path accepts
    // completion on the transfer-complete flag alone, with no byte-count
    // check, so a controller that completes before requesting any data
    // still reports success.
    let clock = TickClock { t: 0, step: 20 };
    let mut engine = MmcOperate::new(EagerWriteDone { pushes: 0 }, clock);
    let data = vec![1u8, 2, 3, 4];
    let r = engine.write_data(&data, 1, 4);
    assert!(matches!(r, Ok(())));
    assert_eq!(engine.regs.pushes, 0);
}

/// Requests one transmit burst, then completes.
struct OneBurstWrite {
    pushed: Vec<(usize, u8)>,
    burst_done: bool,
}

impl RegisterAccess for OneBurstWrite {
    fn read32(&mut self, off: usize) -> u32 {
        match off {
            REG_RINTSTS => {
                if self.burst_done {
                    0x8
                } else {
                    0x10 // transmit-data-request
                }
            }
            _ => 0,
        }
    }

    fn write32(&mut self, off: usize, v: u32) {
        if off == REG_RINTSTS && v == 0x10 {
            self.burst_done = true;
        }
    }

    fn read8(&mut self, _off: usize) -> u8 {
        0
    }

    fn write8(&mut self, off: usize, v: u8) {
        self.pushed.push((off, v));
    }
}

#[test]
fn write_burst_pushes_the_whole_buffer_in_order() {
    let clock = TickClock { t: 0, step: 20 };
    let mut engine = MmcOperate::new(
        OneBurstWrite { pushed: Vec::new(), burst_done: false },
        clock,
    );
    let data = vec![0xDEu8, 0xAD, 0xBE, 0xEF];
    let r = engine.write_data(&data, 1, 4);
    assert!(matches!(r, Ok(())));
    let expected: Vec<(usize, u8)> =
        data.iter().enumerate().map(|(i, b)| (0x200 + i, *b)).collect();
    assert_eq!(engine.regs.pushed, expected);
}

/// The command line never goes idle: the start bit always reads set.
struct StuckCmdLine;

impl RegisterAccess for StuckCmdLine {
    fn read32(&mut self, off: usize) -> u32 {
        match off {
            REG_CMD => 0x8000_0000,
            _ => 0,
        }
    }

    fn write32(&mut self, _off: usize, _v: u32) {}

    fn read8(&mut self, _off: usize) -> u8 {
        0
    }

    fn write8(&mut self, _off: usize, _v: u8) {}
}

#[test]
fn stuck_command_line_times_out() {
    let clock = TickClock { t: 0, step: 50 };
    let mut engine = MmcOperate::new(StuckCmdLine, clock);
    let r = engine.send_cmd(cmd::idle());
    assert!(matches!(
        r,
        Err(CardError::TimeoutErr(Timeout::WaitCmdLine))
    ));
}

/// The data line never goes idle for a data-bearing command.
struct StuckDataLine;

impl RegisterAccess for StuckDataLine {
    fn read32(&mut self, off: usize) -> u32 {
        match off {
            REG_STATUS => 0x200, // data busy
            _ => 0,
        }
    }

    fn write32(&mut self, _off: usize, _v: u32) {}

    fn read8(&mut self, _off: usize) -> u8 {
        0
    }

    fn write8(&mut self, _off: usize, _v: u8) {}
}

#[test]
fn stuck_data_line_times_out() {
    let clock = TickClock { t: 0, step: 50 };
    let mut engine = MmcOperate::new(StuckDataLine, clock);
    let r = engine.send_cmd(cmd::read_single_block(0));
    assert!(matches!(
        r,
        Err(CardError::TimeoutErr(Timeout::WaitDataLine))
    ));
}

/// The FIFO-reset bit of the control register never clears.
struct StuckReset {
    rintsts: u32,
}

impl RegisterAccess for StuckReset {
    fn read32(&mut self, off: usize) -> u32 {
        match off {
            0x00 => 0x2, // fifo-reset still pending
            REG_RINTSTS => self.rintsts,
            _ => 0,
        }
    }

    fn write32(&mut self, off: usize, v: u32) {
        match off {
            REG_RINTSTS => self.rintsts &= !v,
            REG_CMD => self.rintsts |= 0x4,
            _ => {}
        }
    }

    fn read8(&mut self, _off: usize) -> u8 {
        0
    }

    fn write8(&mut self, _off: usize, _v: u8) {}
}

#[test]
fn stuck_fifo_reset_times_out() {
    let clock = TickClock { t: 0, step: 50 };
    let mut engine = MmcOperate::new(StuckReset { rintsts: 0 }, clock);
    let r = engine.send_cmd(cmd::read_single_block(0));
    assert!(matches!(
        r,
        Err(CardError::TimeoutErr(Timeout::WaitReset))
    ));
}

/// A transfer where nothing ever happens: no flags, no data.
struct SilentTransfer;

impl RegisterAccess for SilentTransfer {
    fn read32(&mut self, _off: usize) -> u32 {
        0
    }

    fn write32(&mut self, _off: usize, _v: u32) {}

    fn read8(&mut self, _off: usize) -> u8 {
        0
    }

    fn write8(&mut self, _off: usize, _v: u8) {}
}

#[test]
fn silent_transfer_hits_the_overall_deadline() {
    let clock = TickClock { t: 0, step: 50 };
    let mut engine = MmcOperate::new(SilentTransfer, clock);
    let mut buf = vec![0u8; 8];
    let r = engine.read_data(&mut buf, 1, 8);
    assert!(matches!(r, Err(CardError::DataTransferTimeout)));
}

/// Raises command-done together with a chosen set of response-fault bits.
struct RespFault {
    rintsts: u32,
    fault_bits: u32,
}

impl RegisterAccess for RespFault {
    fn read32(&mut self, off: usize) -> u32 {
        match off {
            REG_RINTSTS => self.rintsts,
            _ => 0,
        }
    }

    fn write32(&mut self, off: usize, v: u32) {
        match off {
            REG_RINTSTS => self.rintsts &= !v,
            REG_CMD => self.rintsts |= 0x4 | self.fault_bits,
            _ => {}
        }
    }

    fn read8(&mut self, _off: usize) -> u8 {
        0
    }

    fn write8(&mut self, _off: usize, _v: u8) {}
}

#[test]
fn response_fault_priority_is_first_match() {
    // All three response faults at once: the timeout is tested first.
    let clock = TickClock { t: 0, step: 10 };
    let mut engine = MmcOperate::new(
        RespFault { rintsts: 0, fault_bits: 0x100 | 0x2 | 0x40 },
        clock,
    );
    let r = engine.send_cmd(cmd::send_relative_address());
    assert!(matches!(
        r,
        Err(CardError::InterruptErr(Interrupt::ResponseTimeout))
    ));
    // The matched status was cleared from the register.
    assert_eq!(engine.regs.rintsts & (0x100 | 0x2 | 0x40), 0);

    // Error and CRC together: the error is tested before the CRC.
    let clock = TickClock { t: 0, step: 10 };
    let mut engine = MmcOperate::new(
        RespFault { rintsts: 0, fault_bits: 0x2 | 0x40 },
        clock,
    );
    let r = engine.send_cmd(cmd::send_relative_address());
    assert!(matches!(
        r,
        Err(CardError::InterruptErr(Interrupt::ResponseErr))
    ));

    // The CRC fault alone.
    let clock = TickClock { t: 0, step: 10 };
    let mut engine = MmcOperate::new(RespFault { rintsts: 0, fault_bits: 0x40 }, clock);
    let r = engine.send_cmd(cmd::send_relative_address());
    assert!(matches!(
        r,
        Err(CardError::InterruptErr(Interrupt::ResponseCrc))
    ));
    assert_eq!(engine.regs.rintsts & 0x40, 0);
}

/// Records every 32-bit write; the command line always reads idle.
struct TraceRegs {
    writes32: Vec<(usize, u32)>,
}

impl RegisterAccess for TraceRegs {
    fn read32(&mut self, _off: usize) -> u32 {
        0
    }

    fn write32(&mut self, off: usize, v: u32) {
        self.writes32.push((off, v));
    }

    fn read8(&mut self, _off: usize) -> u8 {
        0
    }

    fn write8(&mut self, _off: usize, _v: u8) {}
}

#[test]
fn reset_clock_disables_the_clock_before_changing_the_divider() {
    let clock = TickClock { t: 0, step: 10 };
    let mut engine = MmcOperate::new(TraceRegs { writes32: Vec::new() }, clock);
    let r = engine.reset_clock(1, 62);
    assert!(matches!(r, Ok(())));
    // The exact trace: gate off, divider, argument, latch; then the
    // re-issue, the enable, and the final latch.
    let w = &engine.regs.writes32;
    assert_eq!(w.len(), 8);
    assert_eq!(w[0], (0x10, 0)); // clock-enable := 0 first
    assert_eq!(w[1], (0x08, 62)); // divider only after the disable
    assert_eq!(w[2], (0x28, 0)); // argument
    assert_eq!(w[3].0, REG_CMD); // update-clock latch
    assert_ne!(w[3].1 & 0x20_0000, 0);
    assert_eq!(w[4].0, REG_CMD);
    assert_eq!(w[5], (0x10, 1)); // clock back on
    assert_eq!(w[6], (0x28, 0));
    assert_eq!(w[7].0, REG_CMD);
}
