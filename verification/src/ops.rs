//! The command engine: issues one command at a time, waits for hardware
//! completion under bounded deadlines, classifies faults, decodes responses
//! and runs the byte-transfer loops of data-bearing commands.
//!
//! The engine owns the register and clock capabilities; at most one command
//! is in flight at any time, and callers must serialize access to a given
//! engine value (exclusive access is required uniformly, for reads and for
//! writes).

use vstd::prelude::*;

use crate::cmd::Command;
use crate::cmd::stop_transmission;
use crate::cmd::up_clk;
use crate::err::CardError;
use crate::err::Interrupt;
use crate::err::Timeout;
use crate::hal::Clock;
use crate::hal::RegWrite;
use crate::hal::RegisterAccess;
use crate::hal::clears_precede_commands_from;
use crate::hal::is_clear_all_write;
use crate::hal::lemma_clear_all_covers;
use crate::hal::lemma_clears_precede_chain;
use crate::hal::log_contains_from;
use crate::hal::log_extends;
use crate::hal::argument_entry;
use crate::hal::command_entry;
use crate::hal::w32;
use crate::hal::lemma_contains_persists;
use crate::cmd::cmd_word;
use crate::hal::repeated;
use crate::reg::CMD_START;
use crate::reg::CMD_TIMEOUT_MS;
use crate::reg::CTRL_FIFO_RESET;
use crate::reg::DATA_TIMEOUT_MS;
use crate::reg::INT_ALL;
use crate::reg::INT_CMD_DONE;
use crate::reg::INT_DATA_OVER;
use crate::reg::INT_HARDWARE_LOCK;
use crate::reg::INT_RX_READY;
use crate::reg::INT_TX_REQUEST;
use crate::reg::REG_BLKSIZ;
use crate::reg::REG_BYTCNT;
use crate::reg::REG_CLKDIV;
use crate::reg::REG_CLKENA;
use crate::reg::REG_CMD;
use crate::reg::REG_CMDARG;
use crate::reg::REG_CTRL;
use crate::reg::REG_DATA;
use crate::reg::REG_RESP0;
use crate::reg::REG_RESP1;
use crate::reg::REG_RESP2;
use crate::reg::REG_RESP3;
use crate::reg::REG_RINTSTS;
use crate::reg::REG_STATUS;
use crate::reg::RESET_TIMEOUT_MS;
use crate::reg::STATUS_DATA_BUSY;
use crate::reg::STATUS_FIFO_COUNT_MASK;
use crate::reg::STATUS_FIFO_SHIFT;
use crate::sd_reg::Cic;
use crate::sd_reg::Csd;
use crate::sd_reg::Cid;
use crate::sd_reg::Ocr;
use crate::sd_reg::Rca;
use crate::sd_reg::Response;
use crate::timer::CountDown;
use crate::timer::ticks_until;

verus! {

/// What a fault surfaced by `send_cmd` can be, for a command with the given
/// flags: one of the bounded waits timed out (the data-line and reset waits
/// only run for a data-bearing command), or the hardware reported a response
/// fault and a response was expected.
pub open spec fn send_cmd_fault(data_exp: bool, resp_exp: bool, e: CardError) -> bool {
    match e {
        CardError::TimeoutErr(t) => t == Timeout::WaitCmdLine || t == Timeout::WaitCmdDone || (t
            == Timeout::WaitDataLine && data_exp) || (t == Timeout::WaitReset && data_exp),
        CardError::InterruptErr(i) => resp_exp && (i == Interrupt::ResponseTimeout || i
            == Interrupt::ResponseErr || i == Interrupt::ResponseCrc),
        _ => false,
    }
}

/// Whether the command was actually started on the bus, given `send_cmd`'s
/// result: the command-line and data-line waits are the only exits that
/// leave the argument and command registers unwritten.
pub open spec fn command_started(r: Result<Response, CardError>) -> bool {
    match r {
        Ok(_) => true,
        Err(e) => match e {
            CardError::TimeoutErr(t) => t != Timeout::WaitCmdLine && t != Timeout::WaitDataLine,
            _ => true,
        },
    }
}

/// What a fault surfaced by a bulk-transfer loop can be: the overall transfer
/// deadline passed, the classifier matched a data-path fault bit, or (on the
/// read side only) the FIFO reported more bytes than the destination could
/// take.
pub open spec fn transfer_fault(e: CardError) -> bool {
    match e {
        CardError::DataTransferTimeout => true,
        CardError::InterruptErr(i) => i == Interrupt::DataCrc || i == Interrupt::DataReadTimeout
            || i == Interrupt::Fifo || i == Interrupt::HardwareLock || i == Interrupt::StartBitErr
            || i == Interrupt::EndBitErr,
        CardError::TimeoutErr(t) => t == Timeout::FifoStatus,
        _ => false,
    }
}

/// The head of every clock-reprogramming trace: with the clock gated off
/// first, the divider is changed, and an update-clock command (argument
/// zero) latches the new setting — in exactly this order, at `from`.
pub open spec fn clock_gate_programmed(s: Seq<RegWrite>, from: int, div: u32) -> bool {
    s.len() >= from + 4 && s[from] == (w32(crate::reg::REG_CLKENA, 0)) && s[from + 1] == (w32(
        crate::reg::REG_CLKDIV,
        div,
    )) && s[from + 2] == argument_entry(0) && s[from + 3] == command_entry(
        cmd_word(0, false, false, false, false, true),
    )
}

/// The command engine.  Long-lived, one per controller; owns the injected
/// register-access and clock capabilities.
pub struct MmcOperate<R: RegisterAccess, C: Clock> {
    pub regs: R,
    pub clock: C,
}

impl<R: RegisterAccess, C: Clock> MmcOperate<R, C> {
    pub fn new(regs: R, clock: C) -> (r: MmcOperate<R, C>)
        ensures
            r.regs == regs,
            r.clock == clock,
    {
        MmcOperate { regs, clock }
    }

    /// Poll one 32-bit register under a fresh deadline until the masked bits
    /// read all-clear (or, with `want_set`, not-all-clear).  Returns false
    /// when the deadline passes first.  Only reads: the write log is
    /// untouched.
    fn wait_flag(&mut self, millis: u64, off: usize, mask: u32, want_set: bool) -> (ok: bool)
        ensures
            final(self).regs.writes() == old(self).regs.writes(),
            final(self).regs.byte_reads() == old(self).regs.byte_reads(),
            final(self).regs.byte_writes() == old(self).regs.byte_writes(),
            final(self).clock.last() >= old(self).clock.last(),
            old(self).clock.last() < u64::MAX ==> final(self).clock.last() > old(
                self,
            ).clock.last(),
            !ok ==> final(self).clock.last() > old(self).clock.last() + millis * 1000
                || final(self).clock.last() == u64::MAX,
    {
        let cd = CountDown::new(millis, &mut self.clock);
        loop
            invariant
                cd.expiry() < u64::MAX,
                cd.expiry() >= old(self).clock.last() + millis * 1000 || cd.expiry() == u64::MAX
                    - 1,
                self.regs.writes() == old(self).regs.writes(),
                self.regs.byte_reads() == old(self).regs.byte_reads(),
                self.regs.byte_writes() == old(self).regs.byte_writes(),
                self.clock.last() >= old(self).clock.last(),
                old(self).clock.last() < u64::MAX ==> self.clock.last() > old(self).clock.last(),
            decreases ticks_until(cd.expiry() + 1, self.clock.last() as int),
        {
            if cd.timeout(&mut self.clock) {
                return false;
            }
            let v = self.regs.read32(off);
            let hit = if want_set {
                v & mask != 0
            } else {
                v & mask == 0
            };
            if hit {
                return true;
            }
        }
    }

    /// Wait for the command line to go idle (start bit clear).
    fn wait_for_cmd_line(&mut self) -> (r: Result<(), Timeout>)
        ensures
            final(self).regs.writes() == old(self).regs.writes(),
            final(self).regs.byte_reads() == old(self).regs.byte_reads(),
            final(self).regs.byte_writes() == old(self).regs.byte_writes(),
            final(self).clock.last() >= old(self).clock.last(),
            old(self).clock.last() < u64::MAX ==> final(self).clock.last() > old(
                self,
            ).clock.last(),
            r is Err ==> r->Err_0 == Timeout::WaitCmdLine,
            r is Err ==> final(self).clock.last() > old(self).clock.last() + CMD_TIMEOUT_MS * 1000
                || final(self).clock.last() == u64::MAX,
    {
        if !self.wait_flag(CMD_TIMEOUT_MS, REG_CMD, CMD_START, false) {
            Err(Timeout::WaitCmdLine)
        } else {
            Ok(())
        }
    }

    /// Wait for the data line to go idle (data-busy clear).
    fn wait_for_data_line(&mut self) -> (r: Result<(), Timeout>)
        ensures
            final(self).regs.writes() == old(self).regs.writes(),
            final(self).regs.byte_reads() == old(self).regs.byte_reads(),
            final(self).regs.byte_writes() == old(self).regs.byte_writes(),
            final(self).clock.last() >= old(self).clock.last(),
            old(self).clock.last() < u64::MAX ==> final(self).clock.last() > old(
                self,
            ).clock.last(),
            r is Err ==> r->Err_0 == Timeout::WaitDataLine,
            r is Err ==> final(self).clock.last() > old(self).clock.last() + DATA_TIMEOUT_MS
                * 1000 || final(self).clock.last() == u64::MAX,
    {
        if self.wait_flag(DATA_TIMEOUT_MS, REG_STATUS, STATUS_DATA_BUSY, false) {
            Ok(())
        } else {
            Err(Timeout::WaitDataLine)
        }
    }

    /// Wait for the command-done interrupt flag to rise.
    fn wait_for_cmd_done(&mut self) -> (r: Result<(), Timeout>)
        ensures
            final(self).regs.writes() == old(self).regs.writes(),
            final(self).regs.byte_reads() == old(self).regs.byte_reads(),
            final(self).regs.byte_writes() == old(self).regs.byte_writes(),
            final(self).clock.last() >= old(self).clock.last(),
            old(self).clock.last() < u64::MAX ==> final(self).clock.last() > old(
                self,
            ).clock.last(),
            r is Err ==> r->Err_0 == Timeout::WaitCmdDone,
            r is Err ==> final(self).clock.last() > old(self).clock.last() + CMD_TIMEOUT_MS * 1000
                || final(self).clock.last() == u64::MAX,
    {
        if self.wait_flag(CMD_TIMEOUT_MS, REG_RINTSTS, INT_CMD_DONE, true) {
            Ok(())
        } else {
            Err(Timeout::WaitCmdDone)
        }
    }

    /// Wait for the given control-register reset bits to clear.
    pub fn wait_reset(&mut self, mask: u32) -> (r: Result<(), Timeout>)
        ensures
            final(self).regs.writes() == old(self).regs.writes(),
            final(self).regs.byte_reads() == old(self).regs.byte_reads(),
            final(self).regs.byte_writes() == old(self).regs.byte_writes(),
            final(self).clock.last() >= old(self).clock.last(),
            old(self).clock.last() < u64::MAX ==> final(self).clock.last() > old(
                self,
            ).clock.last(),
            r is Err ==> r->Err_0 == Timeout::WaitReset,
            r is Err ==> final(self).clock.last() > old(self).clock.last() + RESET_TIMEOUT_MS
                * 1000 || final(self).clock.last() == u64::MAX,
    {
        if self.wait_flag(RESET_TIMEOUT_MS, REG_CTRL, mask, false) {
            Ok(())
        } else {
            Err(Timeout::WaitReset)
        }
    }

    /// Run the receive loop of a data-bearing command: poll interrupt
    /// status, classify any data-path fault, enforce the single overall
    /// deadline, and on the receive-ready or transfer-complete flag drain
    /// the FIFO a byte at a time into `buf` while the controller reports
    /// nonzero occupancy.  Completion is accepted only once the bytes copied
    /// equal the requested total and the transfer-complete flag is set.
    ///
    /// A controller that reports occupancy beyond the destination's room
    /// yields `TimeoutErr(FifoStatus)` rather than running past the buffer.
    /// Bytes the FIFO did not deliver are left as they were.
    ///
    /// On success the destination holds, byte for byte and in order, exactly
    /// the run of bytes drained from the FIFO window: all `blk * blk_sz` of
    /// them, no more and no fewer.
    pub fn read_data(&mut self, buf: &mut Vec<u8>, blk: u32, blk_sz: u32) -> (r: Result<
        (),
        CardError,
    >)
        requires
            old(buf)@.len() == blk * blk_sz,
            blk * blk_sz <= u32::MAX,
            REG_DATA + blk * blk_sz <= usize::MAX,
        ensures
            final(buf)@.len() == old(buf)@.len(),
            log_extends(old(self).regs.writes(), final(self).regs.writes()),
            final(self).clock.last() >= old(self).clock.last(),
            old(self).clock.last() < u64::MAX ==> final(self).clock.last() > old(
                self,
            ).clock.last(),
            r matches Err(e) ==> transfer_fault(e),
            r is Err && r->Err_0 == CardError::DataTransferTimeout ==> final(self).clock.last()
                > old(self).clock.last() + DATA_TIMEOUT_MS * 1000
                || final(self).clock.last() == u64::MAX,
            final(self).regs.byte_writes() == old(self).regs.byte_writes(),
            final(self).regs.writes().len() >= old(self).regs.writes().len() + 2,
            final(self).regs.writes()[old(self).regs.writes().len() as int] == (w32(
                REG_BLKSIZ,
                blk_sz,
            )),
            final(self).regs.writes()[old(self).regs.writes().len() + 1 as int] == (w32(
                REG_BYTCNT,
                (blk * blk_sz) as u32,
            )),
            r is Ok ==> !final(self).regs.writes().last().byte
                && final(self).regs.writes().last().off == REG_RINTSTS,
            final(self).regs.byte_reads().len() - old(self).regs.byte_reads().len() <= old(
                buf,
            )@.len(),
            final(buf)@ =~= final(self).regs.byte_reads().skip(
                old(self).regs.byte_reads().len() as int,
            ) + old(buf)@.skip(
                final(self).regs.byte_reads().len() - old(self).regs.byte_reads().len(),
            ),
            r is Ok ==> (final(self).regs.byte_reads() =~= old(self).regs.byte_reads()
                + final(buf)@),
            !(r is Err && r->Err_0 == CardError::TimeoutErr(Timeout::FifoStatus)) && final(self).regs.byte_reads().len() > old(self).regs.byte_reads().len() ==> log_contains_from(
                final(self).regs.writes(),
                old(self).regs.writes().len() as int,
                (w32(REG_RINTSTS, INT_RX_READY)),
            ),
    {
        let ghost n0 = old(self).regs.writes().len() as int;
        self.regs.write32(REG_BLKSIZ, blk_sz);
        let bytes: u32 = blk * blk_sz;
        self.regs.write32(REG_BYTCNT, bytes);
        proof {
            assert(self.regs.writes()[n0] == (w32(REG_BLKSIZ, blk_sz)));
            assert(self.regs.writes()[n0 + 1] == (w32(REG_BYTCNT, bytes)));
        }
        let size: usize = bytes as usize;
        let mut offset: usize = 0;
        let timer = CountDown::new(DATA_TIMEOUT_MS, &mut self.clock);
        loop
            invariant
                offset <= size,
                size == blk * blk_sz,
                buf@.len() == size,
                old(buf)@.len() == size,
                REG_DATA + size <= usize::MAX,
                timer.expiry() < u64::MAX,
                timer.expiry() >= old(self).clock.last() + DATA_TIMEOUT_MS * 1000 || timer.expiry()
                    == u64::MAX - 1,
                log_extends(old(self).regs.writes(), self.regs.writes()),
                self.regs.writes().len() >= n0 + 2,
                self.regs.writes()[n0] == (w32(REG_BLKSIZ, blk_sz)),
                self.regs.writes()[n0 + 1] == (w32(REG_BYTCNT, (blk * blk_sz) as u32)),
                n0 == old(self).regs.writes().len(),
                self.regs.byte_writes() == old(self).regs.byte_writes(),
                self.regs.byte_reads() =~= old(self).regs.byte_reads() + buf@.subrange(
                    0,
                    offset as int,
                ),
                forall|i: int| offset <= i < size ==> buf@[i] == old(buf)@[i],
                offset > 0 ==> log_contains_from(
                    self.regs.writes(),
                    n0,
                    (w32(REG_RINTSTS, INT_RX_READY)),
                ),
                self.clock.last() >= old(self).clock.last(),
                old(self).clock.last() < u64::MAX ==> self.clock.last() > old(self).clock.last(),
            decreases ticks_until(timer.expiry() + 1, self.clock.last() as int),
        {
            let ghost wh = self.regs.writes();
            let mask = self.regs.read32(REG_RINTSTS);
            if offset == size && mask & INT_DATA_OVER != 0 {
                let stale = self.regs.read32(REG_RINTSTS);
                self.regs.write32(REG_RINTSTS, stale);
                proof {
                    assert(buf@.subrange(0, buf@.len() as int) =~= buf@);
                    assert(self.regs.writes().last() == (w32(REG_RINTSTS, stale)));
                    assert(buf@ =~= buf@.subrange(0, offset as int) + old(buf)@.skip(
                        offset as int,
                    ));
                    if offset > 0 {
                        lemma_contains_persists(
                            wh,
                            self.regs.writes(),
                            n0,
                            n0,
                            (w32(REG_RINTSTS, INT_RX_READY)),
                        );
                    }
                }
                return Ok(());
            }
            match Interrupt::check(mask) {
                Ok(()) => {},
                Err(i) => {
                    proof {
                        assert(buf@ =~= buf@.subrange(0, offset as int) + old(buf)@.skip(
                            offset as int,
                        ));
                    }
                    return Err(CardError::InterruptErr(i));
                },
            }
            self.delay_macros(10);
            if timer.timeout(&mut self.clock) {
                proof {
                    assert(buf@ =~= buf@.subrange(0, offset as int) + old(buf)@.skip(
                        offset as int,
                    ));
                }
                return Err(CardError::DataTransferTimeout);
            }
            if mask & (INT_RX_READY | INT_DATA_OVER) != 0 {
                let ghost clk0 = self.clock;
                let mut st = self.regs.read32(REG_STATUS);
                while (st >> STATUS_FIFO_SHIFT) & STATUS_FIFO_COUNT_MASK != 0
                    invariant
                        offset <= size,
                        buf@.len() == size,
                        old(buf)@.len() == size,
                        REG_DATA + size <= usize::MAX,
                        log_extends(old(self).regs.writes(), self.regs.writes()),
                        self.regs.writes().len() >= n0 + 2,
                        self.regs.writes()[n0] == (w32(REG_BLKSIZ, blk_sz)),
                        self.regs.writes()[n0 + 1] == (w32(REG_BYTCNT, (blk * blk_sz) as u32)),
                        n0 == old(self).regs.writes().len(),
                        self.regs.byte_writes() == old(self).regs.byte_writes(),
                        self.regs.byte_reads() =~= old(self).regs.byte_reads() + buf@.subrange(
                            0,
                            offset as int,
                        ),
                        forall|i: int| offset <= i < size ==> buf@[i] == old(buf)@[i],
                        self.clock == clk0,
                        clk0.last() >= old(self).clock.last(),
                        old(self).clock.last() < u64::MAX ==> clk0.last() > old(
                            self,
                        ).clock.last(),
                    decreases size - offset,
                {
                    if offset == size {
                        proof {
                            assert(buf@ =~= buf@.subrange(0, offset as int) + old(buf)@.skip(
                                offset as int,
                            ));
                        }
                        return Err(CardError::TimeoutErr(Timeout::FifoStatus));
                    }
                    let b = self.regs.read8(REG_DATA + offset);
                    buf[offset] = b;
                    offset = offset + 1;
                    proof {
                        assert(self.regs.byte_reads() =~= old(self).regs.byte_reads()
                            + buf@.subrange(0, offset as int));
                    }
                    st = self.regs.read32(REG_STATUS);
                }
                self.regs.write32(REG_RINTSTS, INT_RX_READY);
                proof {
                    assert(self.regs.writes().last() == (w32(REG_RINTSTS, INT_RX_READY)));
                    assert(log_contains_from(
                        self.regs.writes(),
                        n0,
                        (w32(REG_RINTSTS, INT_RX_READY)),
                    ));
                }
            }
        }
    }

    /// Run the transmit loop of a data-bearing command: poll interrupt
    /// status, classify any data-path fault, enforce the single overall
    /// deadline, and on the transmit-request flag push the whole source
    /// buffer into the FIFO window.  Completion is accepted on the
    /// transfer-complete flag alone, with no byte-count check: this
    /// asymmetry against the read side follows the hardware's completion
    /// semantics and is kept deliberately.
    pub fn write_data(&mut self, buf: &Vec<u8>, blk: u32, blk_sz: u32) -> (r: Result<
        (),
        CardError,
    >)
        requires
            blk * blk_sz <= u32::MAX,
            REG_DATA + buf@.len() <= usize::MAX,
        ensures
            log_extends(old(self).regs.writes(), final(self).regs.writes()),
            final(self).clock.last() >= old(self).clock.last(),
            old(self).clock.last() < u64::MAX ==> final(self).clock.last() > old(
                self,
            ).clock.last(),
            r matches Err(e) ==> transfer_fault(e) && e != CardError::TimeoutErr(
                Timeout::FifoStatus,
            ),
            r is Err && r->Err_0 == CardError::DataTransferTimeout ==> final(self).clock.last()
                > old(self).clock.last() + DATA_TIMEOUT_MS * 1000
                || final(self).clock.last() == u64::MAX,
            final(self).regs.byte_reads() == old(self).regs.byte_reads(),
            final(self).regs.writes().len() >= old(self).regs.writes().len() + 2,
            final(self).regs.writes()[old(self).regs.writes().len() as int] == (w32(
                REG_BLKSIZ,
                blk_sz,
            )),
            final(self).regs.writes()[old(self).regs.writes().len() + 1 as int] == (w32(
                REG_BYTCNT,
                (blk * blk_sz) as u32,
            )),
            r is Ok ==> !final(self).regs.writes().last().byte
                && final(self).regs.writes().last().off == REG_RINTSTS,
            exists|k: nat|
                final(self).regs.byte_writes() == old(self).regs.byte_writes() + #[trigger] repeated(
                    buf@,
                    k,
                ),
            final(self).regs.byte_writes().len() > old(self).regs.byte_writes().len()
                ==> log_contains_from(
                final(self).regs.writes(),
                old(self).regs.writes().len() as int,
                (w32(REG_RINTSTS, INT_TX_REQUEST)),
            ),
    {
        let ghost n0 = old(self).regs.writes().len() as int;
        self.regs.write32(REG_BLKSIZ, blk_sz);
        let bytes: u32 = blk * blk_sz;
        self.regs.write32(REG_BYTCNT, bytes);
        proof {
            assert(self.regs.writes()[n0] == (w32(REG_BLKSIZ, blk_sz)));
            assert(self.regs.writes()[n0 + 1] == (w32(REG_BYTCNT, bytes)));
        }
        let timer = CountDown::new(DATA_TIMEOUT_MS, &mut self.clock);
        let ghost mut bursts: nat = 0;
        proof {
            assert(self.regs.byte_writes() =~= old(self).regs.byte_writes() + repeated(buf@, 0));
        }
        loop
            invariant
                REG_DATA + buf@.len() <= usize::MAX,
                timer.expiry() < u64::MAX,
                timer.expiry() >= old(self).clock.last() + DATA_TIMEOUT_MS * 1000 || timer.expiry()
                    == u64::MAX - 1,
                log_extends(old(self).regs.writes(), self.regs.writes()),
                self.regs.writes().len() >= n0 + 2,
                self.regs.writes()[n0] == (w32(REG_BLKSIZ, blk_sz)),
                self.regs.writes()[n0 + 1] == (w32(REG_BYTCNT, (blk * blk_sz) as u32)),
                n0 == old(self).regs.writes().len(),
                self.regs.byte_reads() == old(self).regs.byte_reads(),
                self.regs.byte_writes() == old(self).regs.byte_writes() + repeated(buf@, bursts),
                self.regs.byte_writes().len() > old(self).regs.byte_writes().len()
                    ==> log_contains_from(
                    self.regs.writes(),
                    n0,
                    (w32(REG_RINTSTS, INT_TX_REQUEST)),
                ),
                self.clock.last() >= old(self).clock.last(),
                old(self).clock.last() < u64::MAX ==> self.clock.last() > old(self).clock.last(),
            decreases ticks_until(timer.expiry() + 1, self.clock.last() as int),
        {
            let mask = self.regs.read32(REG_RINTSTS);
            if mask & INT_DATA_OVER != 0 {
                break;
            }
            match Interrupt::check(mask) {
                Ok(()) => {},
                Err(i) => {
                    return Err(CardError::InterruptErr(i));
                },
            }
            self.delay_macros(10);
            if timer.timeout(&mut self.clock) {
                return Err(CardError::DataTransferTimeout);
            }
            if mask & INT_TX_REQUEST != 0 {
                let ghost clk0 = self.clock;
                let mut offset: usize = 0;
                proof {
                    assert(self.regs.byte_writes() =~= old(self).regs.byte_writes() + repeated(
                        buf@,
                        bursts,
                    ) + buf@.subrange(0, 0));
                }
                while offset < buf.len()
                    invariant
                        offset <= buf@.len(),
                        REG_DATA + buf@.len() <= usize::MAX,
                        log_extends(old(self).regs.writes(), self.regs.writes()),
                        self.regs.writes().len() >= n0 + 2,
                        self.regs.writes()[n0] == (w32(REG_BLKSIZ, blk_sz)),
                        self.regs.writes()[n0 + 1] == (w32(REG_BYTCNT, (blk * blk_sz) as u32)),
                        n0 == old(self).regs.writes().len(),
                        self.regs.byte_reads() == old(self).regs.byte_reads(),
                        self.regs.byte_writes() == old(self).regs.byte_writes() + repeated(
                            buf@,
                            bursts,
                        ) + buf@.subrange(0, offset as int),
                        self.clock == clk0,
                        clk0.last() >= old(self).clock.last(),
                        old(self).clock.last() < u64::MAX ==> clk0.last() > old(
                            self,
                        ).clock.last(),
                    decreases buf@.len() - offset,
                {
                    let b = buf[offset];
                    self.regs.write8(REG_DATA + offset, b);
                    offset = offset + 1;
                    proof {
                        assert(self.regs.byte_writes() =~= old(self).regs.byte_writes() + repeated(
                            buf@,
                            bursts,
                        ) + buf@.subrange(0, offset as int));
                    }
                }
                proof {
                    assert(buf@.subrange(0, buf@.len() as int) =~= buf@);
                    assert(repeated(buf@, bursts + 1) == repeated(buf@, bursts) + buf@);
                    assert(self.regs.byte_writes() =~= old(self).regs.byte_writes() + repeated(
                        buf@,
                        bursts + 1,
                    ));
                    bursts = bursts + 1;
                }
                self.regs.write32(REG_RINTSTS, INT_TX_REQUEST);
                proof {
                    assert(self.regs.writes().last() == (w32(REG_RINTSTS, INT_TX_REQUEST)));
                    assert(log_contains_from(
                        self.regs.writes(),
                        n0,
                        (w32(REG_RINTSTS, INT_TX_REQUEST)),
                    ));
                }
            }
        }
        let ghost we = self.regs.writes();
        let stale = self.regs.read32(REG_RINTSTS);
        self.regs.write32(REG_RINTSTS, stale);
        proof {
            assert(self.regs.writes().last() == (w32(REG_RINTSTS, stale)));
            assert(self.regs.byte_writes() == old(self).regs.byte_writes() + repeated(
                buf@,
                bursts,
            ));
            if self.regs.byte_writes().len() > old(self).regs.byte_writes().len() {
                lemma_contains_persists(
                    we,
                    self.regs.writes(),
                    n0,
                    n0,
                    (w32(REG_RINTSTS, INT_TX_REQUEST)),
                );
            }
        }
        Ok(())
    }

    /// Spin until the tick counter has moved `micros` ticks past its reading
    /// at entry (or has ended).  Blocking: occupies the calling thread
    /// entirely; there is no suspension point.
    fn delay_macros(&mut self, micros: u64)
        ensures
            final(self).regs == old(self).regs,
            final(self).clock.last() >= old(self).clock.last(),
            old(self).clock.last() < u64::MAX ==> final(self).clock.last() > old(
                self,
            ).clock.last(),
            final(self).clock.last() >= old(self).clock.last() + micros || final(self).clock.last()
                == u64::MAX,
    {
        let t0 = self.clock.now();
        let target = if micros <= u64::MAX - t0 {
            t0 + micros
        } else {
            u64::MAX
        };
        let mut t = t0;
        while t < target
            invariant
                t == self.clock.last(),
                self.regs == old(self).regs,
                self.clock.last() >= old(self).clock.last(),
                old(self).clock.last() < u64::MAX ==> self.clock.last() > old(self).clock.last(),
            decreases ticks_until(target as int, t as int),
        {
            t = self.clock.now();
        }
    }

    /// Issue one command and return its decoded response or the first fault.
    ///
    /// Sequence, each wait bounded by its own deadline: wait for the command
    /// line to go idle; clear every pending interrupt-status bit, so stale
    /// flags of a prior transaction cannot be misread; for a data-bearing
    /// command, wait for the data line to go idle; write the argument and
    /// then the command word; wait for command-done; if a response is
    /// expected, classify response faults in the fixed priority timeout,
    /// error, CRC (first match wins, returned at once and cleared), else
    /// decode the 48- or 136-bit response; for a data-bearing command, wait
    /// for the FIFO reset to clear; and let the status lines settle.
    ///
    /// The write-log clauses state the clearing order: the log only grows,
    /// and every command-register write of this call is preceded, within the
    /// call, by an all-bits interrupt-status clear.
    pub fn send_cmd(&mut self, cmd: Command) -> (r: Result<Response, CardError>)
        ensures
            log_extends(old(self).regs.writes(), final(self).regs.writes()),
            clears_precede_commands_from(
                final(self).regs.writes(),
                old(self).regs.writes().len() as int,
            ),
            final(self).clock.last() >= old(self).clock.last(),
            old(self).clock.last() < u64::MAX ==> final(self).clock.last() > old(
                self,
            ).clock.last(),
            r matches Err(e) ==> send_cmd_fault(cmd.spec_data_exp(), cmd.spec_resp_exp(), e),
            final(self).regs.byte_reads() == old(self).regs.byte_reads(),
            final(self).regs.byte_writes() == old(self).regs.byte_writes(),
            r is Err && r->Err_0 == CardError::TimeoutErr(Timeout::WaitCmdLine) ==> final(self).regs.writes() == old(self).regs.writes() && (final(self).clock.last() > old(
                self,
            ).clock.last() + CMD_TIMEOUT_MS * 1000 || final(self).clock.last() == u64::MAX),
            r is Err && r->Err_0 == CardError::TimeoutErr(Timeout::WaitDataLine) ==> final(self).regs.writes() == old(self).regs.writes().push(
                (w32(REG_RINTSTS, INT_ALL)),
            ) && (final(self).clock.last() > old(self).clock.last() + DATA_TIMEOUT_MS * 1000
                || final(self).clock.last() == u64::MAX),
            command_started(r) ==> final(self).regs.writes().len() >= old(
                self,
            ).regs.writes().len() + 3 && final(self).regs.writes()[old(
                self,
            ).regs.writes().len() as int] == (w32(REG_RINTSTS, INT_ALL)) && final(self).regs.writes()[old(self).regs.writes().len() + 1 as int] == argument_entry(cmd.spec_arg())
                && final(self).regs.writes()[old(self).regs.writes().len() + 2 as int] == command_entry(
                cmd.spec_word(),
            ),
            r is Err && r->Err_0 is InterruptErr ==> !final(self).regs.writes().last().byte
                && final(self).regs.writes().last().off == REG_RINTSTS,
            r is Ok ==> final(self).regs.writes().len() == old(self).regs.writes().len() + 3,
            r is Err && r->Err_0 == CardError::TimeoutErr(Timeout::WaitCmdDone)
                ==> final(self).clock.last() > old(self).clock.last() + CMD_TIMEOUT_MS * 1000
                || final(self).clock.last() == u64::MAX,
            r is Err && r->Err_0 == CardError::TimeoutErr(Timeout::WaitReset)
                ==> final(self).clock.last() > old(self).clock.last() + RESET_TIMEOUT_MS * 1000
                || final(self).clock.last() == u64::MAX,
            r is Ok ==> final(self).clock.last() >= old(self).clock.last() + 100
                || final(self).clock.last() == u64::MAX,
            r matches Ok(resp) ==> (!cmd.spec_resp_exp() ==> resp == Response::Rz),
            r matches Ok(resp) ==> (cmd.spec_resp_exp() && cmd.spec_resp_long() ==> resp is R136),
            r matches Ok(resp) ==> (cmd.spec_resp_exp() && !cmd.spec_resp_long() ==> resp is R48),
    {
        let ghost n0 = old(self).regs.writes().len() as int;
        match self.wait_for_cmd_line() {
            Ok(()) => {},
            Err(t) => {
                return Err(CardError::TimeoutErr(t));
            },
        }
        self.regs.write32(REG_RINTSTS, INT_ALL);
        proof {
            assert(is_clear_all_write(self.regs.writes()[n0]));
            lemma_clear_all_covers(self.regs.writes(), n0);
        }
        if cmd.data_exp() {
            match self.wait_for_data_line() {
                Ok(()) => {},
                Err(t) => {
                    return Err(CardError::TimeoutErr(t));
                },
            }
        }
        self.regs.write32(REG_CMDARG, cmd.arg());
        self.regs.write32(REG_CMD, cmd.cmd());
        proof {
            assert(is_clear_all_write(self.regs.writes()[n0]));
            assert(self.regs.writes()[n0 + 1] == argument_entry(cmd.spec_arg()));
            assert(self.regs.writes()[n0 + 2] == command_entry(cmd.spec_word()));
            lemma_clear_all_covers(self.regs.writes(), n0);
        }
        match self.wait_for_cmd_done() {
            Ok(()) => {},
            Err(t) => {
                return Err(CardError::TimeoutErr(t));
            },
        }
        let resp = if cmd.resp_exp() {
            let mask = self.regs.read32(REG_RINTSTS);
            match Interrupt::classify_response(mask) {
                Some(i) => {
                    self.regs.write32(REG_RINTSTS, mask);
                    proof {
                        assert(is_clear_all_write(self.regs.writes()[n0]));
                        assert(self.regs.writes()[n0 + 1] == argument_entry(cmd.spec_arg()));
                        assert(self.regs.writes()[n0 + 2] == command_entry(cmd.spec_word()));
                        assert(self.regs.writes().last() == (w32(REG_RINTSTS, mask)));
                        lemma_clear_all_covers(self.regs.writes(), n0);
                    }
                    return Err(CardError::InterruptErr(i));
                },
                None => {},
            }
            if cmd.resp_long() {
                let r0 = self.regs.read32(REG_RESP0);
                let r1 = self.regs.read32(REG_RESP1);
                let r2 = self.regs.read32(REG_RESP2);
                let r3 = self.regs.read32(REG_RESP3);
                crate::sd_reg::assemble(true, true, r0, r1, r2, r3)
            } else {
                let r0 = self.regs.read32(REG_RESP0);
                crate::sd_reg::assemble(true, false, r0, 0, 0, 0)
            }
        } else {
            crate::sd_reg::assemble(false, false, 0, 0, 0, 0)
        };
        if cmd.data_exp() {
            match self.wait_reset(CTRL_FIFO_RESET) {
                Ok(()) => {},
                Err(t) => {
                    return Err(CardError::TimeoutErr(t));
                },
            }
        }
        self.delay_macros(100);
        Ok(resp)
    }

    /// Reprogram the card clock: gate it off, set the divider, latch with an
    /// update-clock command, and (for a nonzero enable word) latch twice more
    /// while turning the clock back on.  The clock is gated off before the
    /// divider changes.
    pub fn reset_clock(&mut self, ena: u32, div: u32) -> (r: Result<(), Timeout>)
        ensures
            log_extends(old(self).regs.writes(), final(self).regs.writes()),
            final(self).clock.last() >= old(self).clock.last(),
            old(self).clock.last() < u64::MAX ==> final(self).clock.last() > old(
                self,
            ).clock.last(),
            r is Err ==> r->Err_0 == Timeout::WaitCmdLine,
            r is Ok ==> clock_gate_programmed(
                final(self).regs.writes(),
                old(self).regs.writes().len() as int,
                div,
            ),
            r is Ok && ena == 0 ==> final(self).regs.writes().len() == old(
                self,
            ).regs.writes().len() + 4,
            r is Ok && ena != 0 ==> final(self).regs.writes().len() == old(
                self,
            ).regs.writes().len() + 8 && final(self).regs.writes()[old(self).regs.writes().len()
                + 4 as int] == command_entry(cmd_word(0, false, false, false, false, true))
                && final(self).regs.writes()[old(self).regs.writes().len() + 5 as int] == (w32(
                REG_CLKENA,
                ena,
            )) && final(self).regs.writes()[old(self).regs.writes().len() + 6 as int]
                == argument_entry(0) && final(self).regs.writes()[old(self).regs.writes().len() + 7
                as int] == command_entry(cmd_word(0, false, false, false, false, true)),
            r is Err ==> final(self).regs.writes() == old(self).regs.writes()
                || clock_gate_programmed(
                final(self).regs.writes(),
                old(self).regs.writes().len() as int,
                div,
            ),
    {
        let ghost n0 = old(self).regs.writes().len() as int;
        match self.wait_for_cmd_line() {
            Ok(()) => {},
            Err(t) => {
                return Err(t);
            },
        }
        self.regs.write32(REG_CLKENA, 0);
        self.regs.write32(REG_CLKDIV, div);
        let cmd = up_clk();
        self.regs.write32(REG_CMDARG, cmd.arg());
        self.regs.write32(REG_CMD, cmd.cmd());
        proof {
            assert(self.regs.writes()[n0] == (w32(REG_CLKENA, 0)));
            assert(self.regs.writes()[n0 + 1] == (w32(REG_CLKDIV, div)));
            assert(self.regs.writes()[n0 + 2] == argument_entry(0));
            assert(self.regs.writes()[n0 + 3] == command_entry(cmd.spec_word()));
        }
        if ena == 0 {
            return Ok(());
        }
        match self.wait_for_cmd_line() {
            Ok(()) => {},
            Err(t) => {
                return Err(t);
            },
        }
        self.regs.write32(REG_CMD, cmd.cmd());
        match self.wait_for_cmd_line() {
            Ok(()) => {},
            Err(t) => {
                return Err(t);
            },
        }
        self.regs.write32(REG_CLKENA, ena);
        self.regs.write32(REG_CMDARG, 0);
        self.regs.write32(REG_CMD, cmd.cmd());
        proof {
            assert(self.regs.writes()[n0] == (w32(REG_CLKENA, 0)));
            assert(self.regs.writes()[n0 + 1] == (w32(REG_CLKDIV, div)));
            assert(self.regs.writes()[n0 + 2] == argument_entry(0));
            assert(self.regs.writes()[n0 + 3] == command_entry(cmd.spec_word()));
            assert(self.regs.writes()[n0 + 4] == command_entry(cmd.spec_word()));
            assert(self.regs.writes()[n0 + 5] == (w32(REG_CLKENA, ena)));
            assert(self.regs.writes()[n0 + 6] == argument_entry(0));
            assert(self.regs.writes()[n0 + 7] == command_entry(cmd.spec_word()));
        }
        Ok(())
    }

    /// Spin for `millis` milliseconds' worth of ticks.
    fn delay_milli(&mut self, millis: u64)
        ensures
            final(self).regs == old(self).regs,
            final(self).clock.last() >= old(self).clock.last(),
            old(self).clock.last() < u64::MAX ==> final(self).clock.last() > old(
                self,
            ).clock.last(),
            final(self).clock.last() >= old(self).clock.last() + millis * 1000
                || final(self).clock.last() == u64::MAX,
    {
        let micros = if millis <= u64::MAX / 1000 {
            millis * 1000
        } else {
            u64::MAX
        };
        self.delay_macros(micros);
    }

    /// Voltage check: issue the interface-condition command with the 2.7-3.6V
    /// nibble and the pattern 0xAA, and demand that the card echo both; a
    /// mismatch is the distinct voltage-pattern fault.
    pub fn check_version(&mut self) -> (r: Result<Cic, CardError>)
        ensures
            log_extends(old(self).regs.writes(), final(self).regs.writes()),
            final(self).regs.byte_reads() == old(self).regs.byte_reads(),
            final(self).regs.byte_writes() == old(self).regs.byte_writes(),
            final(self).clock.last() >= old(self).clock.last(),
            r matches Ok(c) ==> c.spec_voltage_accepted() == 1 && c.spec_pattern() == 0xAA,
            r is Ok || r == Err::<Cic, CardError>(CardError::VoltagePattern) ==> final(self).regs.writes().len()
                == old(self).regs.writes().len() + 3 && final(self).regs.writes()[old(
                self,
            ).regs.writes().len() as int] == (w32(REG_RINTSTS, INT_ALL)) && final(self).regs.writes()[old(self).regs.writes().len() + 1 as int] == argument_entry(0x1AA)
                && final(self).regs.writes()[old(self).regs.writes().len() + 2 as int]
                == command_entry(cmd_word(8, true, false, false, false, false)),
            final(self).clock.last() >= old(self).clock.last() + 10000 || final(self).clock.last()
                == u64::MAX,
            r is Ok || r == Err::<Cic, CardError>(CardError::VoltagePattern) ==> log_contains_from(
                final(self).regs.writes(),
                old(self).regs.writes().len() as int,
                command_entry(cmd_word(8, true, false, false, false, false)),
            ) && log_contains_from(
                final(self).regs.writes(),
                old(self).regs.writes().len() as int,
                argument_entry(0x1AA),
            ),
            r matches Err(e) ==> e == CardError::VoltagePattern || send_cmd_fault(
                false,
                true,
                e,
            ),
    {
        let ghost n0 = old(self).regs.writes().len() as int;
        self.delay_milli(10);
        let cmd = crate::cmd::send_if_cond(1, 0xAA);
        let resp = match self.send_cmd(cmd) {
            Ok(resp) => resp,
            Err(e) => {
                return Err(e);
            },
        };
        proof {
            assert(self.regs.writes()[n0 + 1] == argument_entry(0x1AA));
            assert(self.regs.writes()[n0 + 2] == command_entry(
                cmd_word(8, true, false, false, false, false),
            ));
        }
        let cic = resp.cic();
        if cic.voltage_accepted() == 1 && cic.pattern() == 0xAA {
            Ok(cic)
        } else {
            Err(CardError::VoltagePattern)
        }
    }

    /// Operating-conditions polling: announce an application command and ask
    /// for the operating conditions, again and again with a two-millisecond
    /// pause, until the card reports that power-up is done.  The retry count
    /// is unbounded by design; the wait can only end early through a command
    /// fault, or with the initialization fault in the unreachable case that
    /// the tick counter itself ends while the card stays busy.
    pub fn check_v18_sdhc(&mut self) -> (r: Result<Ocr, CardError>)
        ensures
            log_extends(old(self).regs.writes(), final(self).regs.writes()),
            final(self).regs.byte_reads() == old(self).regs.byte_reads(),
            final(self).regs.byte_writes() == old(self).regs.byte_writes(),
            final(self).clock.last() >= old(self).clock.last(),
            r matches Ok(o) ==> !o.spec_is_busy(),
            final(self).clock.last() >= old(self).clock.last() + 10000 || final(self).clock.last()
                == u64::MAX,
            r is Ok ==> exists|i: int, j: int|
                #![trigger final(self).regs.writes()[i], final(self).regs.writes()[j]]
                old(self).regs.writes().len() <= i < j < final(self).regs.writes().len() && final(self).regs.writes()[i] == command_entry(cmd_word(55, true, false, false, false, false))
                    && final(self).regs.writes()[j] == command_entry(
                    cmd_word(41, true, false, false, false, false),
                ),
            r is Ok ==> log_contains_from(
                final(self).regs.writes(),
                old(self).regs.writes().len() as int,
                command_entry(cmd_word(55, true, false, false, false, false)),
            ) && log_contains_from(
                final(self).regs.writes(),
                old(self).regs.writes().len() as int,
                command_entry(cmd_word(41, true, false, false, false, false)),
            ) && log_contains_from(
                final(self).regs.writes(),
                old(self).regs.writes().len() as int,
                argument_entry(0x40000000u32 | 0x01000000u32 | 0x00FF8000u32),
            ),
            r is Err && r->Err_0 == CardError::CardInitErr ==> final(self).clock.last()
                == u64::MAX,
            r matches Err(e) ==> e == CardError::CardInitErr || send_cmd_fault(
                false,
                true,
                e,
            ),
    {
        let ghost n0 = old(self).regs.writes().len() as int;
        self.delay_milli(10);
        loop
            invariant
                n0 == old(self).regs.writes().len(),
                log_extends(old(self).regs.writes(), self.regs.writes()),
                self.regs.byte_reads() == old(self).regs.byte_reads(),
                self.regs.byte_writes() == old(self).regs.byte_writes(),
                self.clock.last() >= old(self).clock.last(),
                self.clock.last() >= old(self).clock.last() + 10000 || self.clock.last()
                    == u64::MAX,
            decreases ticks_until(u64::MAX as int, self.clock.last() as int),
        {
            let ghost wa = self.regs.writes();
            let app = crate::cmd::app_cmd(0);
            let resp = match self.send_cmd(app) {
                Ok(resp) => resp,
                Err(e) => {
                    return Err(e);
                },
            };
            let ghost w1 = self.regs.writes();
            proof {
                assert(w1[wa.len() + 2 as int] == command_entry(
                    cmd_word(55, true, false, false, false, false),
                ));
            }
            let _status = resp.card_status();
            let opc = crate::cmd::sd_send_op_cond(true, true);
            let resp = match self.send_cmd(opc) {
                Ok(resp) => resp,
                Err(e) => {
                    return Err(e);
                },
            };
            let ocr = resp.ocr();
            if !ocr.is_busy() {
                proof {
                    assert(self.regs.writes()[w1.len() + 1 as int] == argument_entry(
                        0x40000000u32 | 0x01000000u32 | 0x00FF8000u32,
                    ));
                    assert(self.regs.writes()[w1.len() + 2 as int] == command_entry(
                        cmd_word(41, true, false, false, false, false),
                    ));
                    assert(self.regs.writes()[wa.len() + 2 as int] == command_entry(
                        cmd_word(55, true, false, false, false, false),
                    ));
                    lemma_contains_persists(
                        w1,
                        self.regs.writes(),
                        wa.len() + 2 as int,
                        n0,
                        command_entry(cmd_word(55, true, false, false, false, false)),
                    );
                }
                return Ok(ocr);
            }
            self.delay_milli(2);
            let t = self.clock.now();
            if t == u64::MAX {
                return Err(CardError::CardInitErr);
            }
        }
    }

    /// Ask the card to publish its relative address.
    pub fn check_rca(&mut self) -> (r: Result<Rca, CardError>)
        ensures
            log_extends(old(self).regs.writes(), final(self).regs.writes()),
            final(self).regs.byte_reads() == old(self).regs.byte_reads(),
            final(self).regs.byte_writes() == old(self).regs.byte_writes(),
            final(self).clock.last() >= old(self).clock.last(),
            r is Ok ==> final(self).regs.writes().len() == old(self).regs.writes().len() + 3
                && final(self).regs.writes()[old(self).regs.writes().len() as int] == (w32(
                REG_RINTSTS,
                INT_ALL,
            )) && final(self).regs.writes()[old(self).regs.writes().len() + 1 as int]
                == argument_entry(0) && final(self).regs.writes()[old(self).regs.writes().len()
                + 2 as int] == command_entry(cmd_word(3, true, false, false, false, false)),
            final(self).clock.last() >= old(self).clock.last() + 10000 || final(self).clock.last()
                == u64::MAX,
            r is Ok ==> log_contains_from(
                final(self).regs.writes(),
                old(self).regs.writes().len() as int,
                command_entry(cmd_word(3, true, false, false, false, false)),
            ) && log_contains_from(
                final(self).regs.writes(),
                old(self).regs.writes().len() as int,
                argument_entry(0),
            ),
            r matches Err(e) ==> send_cmd_fault(false, true, e),
    {
        let ghost n0 = old(self).regs.writes().len() as int;
        self.delay_milli(10);
        let resp = match self.send_cmd(crate::cmd::send_relative_address()) {
            Ok(resp) => resp,
            Err(e) => {
                return Err(e);
            },
        };
        proof {
            assert(self.regs.writes()[n0 + 1] == argument_entry(0));
            assert(self.regs.writes()[n0 + 2] == command_entry(cmd_word(3, true, false, false, false, false)));
        }
        Ok(resp.rca())
    }

    /// Ask every card on the bus to send its identification.
    pub fn check_cid(&mut self) -> (r: Result<Cid, CardError>)
        ensures
            log_extends(old(self).regs.writes(), final(self).regs.writes()),
            final(self).regs.byte_reads() == old(self).regs.byte_reads(),
            final(self).regs.byte_writes() == old(self).regs.byte_writes(),
            final(self).clock.last() >= old(self).clock.last(),
            r is Ok ==> final(self).regs.writes().len() == old(self).regs.writes().len() + 3
                && final(self).regs.writes()[old(self).regs.writes().len() as int] == (w32(
                REG_RINTSTS,
                INT_ALL,
            )) && final(self).regs.writes()[old(self).regs.writes().len() + 1 as int]
                == argument_entry(0) && final(self).regs.writes()[old(self).regs.writes().len()
                + 2 as int] == command_entry(cmd_word(2, true, true, false, false, false)),
            final(self).clock.last() >= old(self).clock.last() + 10000 || final(self).clock.last()
                == u64::MAX,
            r is Ok ==> log_contains_from(
                final(self).regs.writes(),
                old(self).regs.writes().len() as int,
                command_entry(cmd_word(2, true, true, false, false, false)),
            ) && log_contains_from(
                final(self).regs.writes(),
                old(self).regs.writes().len() as int,
                argument_entry(0),
            ),
            r matches Err(e) ==> send_cmd_fault(false, true, e),
    {
        let ghost n0 = old(self).regs.writes().len() as int;
        self.delay_milli(10);
        let resp = match self.send_cmd(crate::cmd::all_send_cid()) {
            Ok(resp) => resp,
            Err(e) => {
                return Err(e);
            },
        };
        proof {
            assert(self.regs.writes()[n0 + 1] == argument_entry(0));
            assert(self.regs.writes()[n0 + 2] == command_entry(cmd_word(2, true, true, false, false, false)));
        }
        Ok(resp.cid())
    }

    /// Read the card-specific data of the card at the given address.
    pub fn check_csd(&mut self, rca: Rca) -> (r: Result<Csd, CardError>)
        ensures
            log_extends(old(self).regs.writes(), final(self).regs.writes()),
            final(self).regs.byte_reads() == old(self).regs.byte_reads(),
            final(self).regs.byte_writes() == old(self).regs.byte_writes(),
            final(self).clock.last() >= old(self).clock.last(),
            r is Ok ==> final(self).regs.writes().len() == old(self).regs.writes().len() + 3
                && final(self).regs.writes()[old(self).regs.writes().len() as int] == (w32(
                REG_RINTSTS,
                INT_ALL,
            )) && final(self).regs.writes()[old(self).regs.writes().len() + 1 as int]
                == argument_entry(rca.spec_address()) && final(self).regs.writes()[old(self).regs.writes().len()
                + 2 as int] == command_entry(cmd_word(9, true, true, false, false, false)),
            final(self).clock.last() >= old(self).clock.last() + 10000 || final(self).clock.last()
                == u64::MAX,
            r is Ok ==> log_contains_from(
                final(self).regs.writes(),
                old(self).regs.writes().len() as int,
                command_entry(cmd_word(9, true, true, false, false, false)),
            ) && log_contains_from(
                final(self).regs.writes(),
                old(self).regs.writes().len() as int,
                argument_entry(rca.spec_address()),
            ),
            r matches Err(e) ==> send_cmd_fault(false, true, e),
    {
        let ghost n0 = old(self).regs.writes().len() as int;
        self.delay_milli(10);
        let resp = match self.send_cmd(crate::cmd::send_csd(rca.address())) {
            Ok(resp) => resp,
            Err(e) => {
                return Err(e);
            },
        };
        proof {
            assert(self.regs.writes()[n0 + 1] == argument_entry(rca.spec_address()));
            assert(self.regs.writes()[n0 + 2] == command_entry(cmd_word(9, true, true, false, false, false)));
        }
        Ok(resp.csd())
    }

    /// Select the card at the given address for transfer.
    pub fn sel_card(&mut self, rca: Rca) -> (r: Result<(), CardError>)
        ensures
            log_extends(old(self).regs.writes(), final(self).regs.writes()),
            final(self).regs.byte_reads() == old(self).regs.byte_reads(),
            final(self).regs.byte_writes() == old(self).regs.byte_writes(),
            final(self).clock.last() >= old(self).clock.last(),
            r is Ok ==> final(self).regs.writes().len() == old(self).regs.writes().len() + 3
                && final(self).regs.writes()[old(self).regs.writes().len() as int] == (w32(
                REG_RINTSTS,
                INT_ALL,
            )) && final(self).regs.writes()[old(self).regs.writes().len() + 1 as int]
                == argument_entry(rca.spec_address()) && final(self).regs.writes()[old(self).regs.writes().len()
                + 2 as int] == command_entry(cmd_word(7, true, false, false, false, false)),
            final(self).clock.last() >= old(self).clock.last() + 10000 || final(self).clock.last()
                == u64::MAX,
            r is Ok ==> log_contains_from(
                final(self).regs.writes(),
                old(self).regs.writes().len() as int,
                command_entry(cmd_word(7, true, false, false, false, false)),
            ) && log_contains_from(
                final(self).regs.writes(),
                old(self).regs.writes().len() as int,
                argument_entry(rca.spec_address()),
            ),
            r matches Err(e) ==> send_cmd_fault(false, true, e),
    {
        let ghost n0 = old(self).regs.writes().len() as int;
        self.delay_milli(10);
        let resp = match self.send_cmd(crate::cmd::select_card(rca.address())) {
            Ok(resp) => resp,
            Err(e) => {
                return Err(e);
            },
        };
        proof {
            assert(self.regs.writes()[n0 + 1] == argument_entry(rca.spec_address()));
            assert(self.regs.writes()[n0 + 2] == command_entry(cmd_word(7, true, false, false, false, false)));
        }
        let _status = resp.card_status();
        Ok(())
    }

    /// Switch the card function with the given fixed argument.
    pub fn function_switch(&mut self, arg: u32) -> (r: Result<(), CardError>)
        ensures
            log_extends(old(self).regs.writes(), final(self).regs.writes()),
            final(self).regs.byte_reads() == old(self).regs.byte_reads(),
            final(self).regs.byte_writes() == old(self).regs.byte_writes(),
            final(self).clock.last() >= old(self).clock.last(),
            r is Ok ==> final(self).regs.writes().len() == old(self).regs.writes().len() + 3
                && final(self).regs.writes()[old(self).regs.writes().len() as int] == (w32(
                REG_RINTSTS,
                INT_ALL,
            )) && final(self).regs.writes()[old(self).regs.writes().len() + 1 as int]
                == argument_entry(arg) && final(self).regs.writes()[old(self).regs.writes().len()
                + 2 as int] == command_entry(cmd_word(6, true, false, false, false, false)),
            final(self).clock.last() >= old(self).clock.last() + 10000 || final(self).clock.last()
                == u64::MAX,
            r is Ok ==> log_contains_from(
                final(self).regs.writes(),
                old(self).regs.writes().len() as int,
                command_entry(cmd_word(6, true, false, false, false, false)),
            ) && log_contains_from(
                final(self).regs.writes(),
                old(self).regs.writes().len() as int,
                argument_entry(arg),
            ),
            r matches Err(e) ==> send_cmd_fault(false, true, e),
    {
        let ghost n0 = old(self).regs.writes().len() as int;
        self.delay_milli(10);
        let resp = match self.send_cmd(crate::cmd::switch_function(arg)) {
            Ok(resp) => resp,
            Err(e) => {
                return Err(e);
            },
        };
        proof {
            assert(self.regs.writes()[n0 + 1] == argument_entry(arg));
            assert(self.regs.writes()[n0 + 2] == command_entry(cmd_word(6, true, false, false, false, false)));
        }
        let _status = resp.card_status();
        Ok(())
    }

    /// Set the four-line bus width: announce an application command to the
    /// card's address, then set the width.
    pub fn set_bus(&mut self, rca: Rca) -> (r: Result<(), CardError>)
        ensures
            log_extends(old(self).regs.writes(), final(self).regs.writes()),
            final(self).regs.byte_reads() == old(self).regs.byte_reads(),
            final(self).regs.byte_writes() == old(self).regs.byte_writes(),
            final(self).clock.last() >= old(self).clock.last(),
            r is Ok ==> final(self).regs.writes().len() == old(self).regs.writes().len() + 6
                && final(self).regs.writes()[old(self).regs.writes().len() + 1 as int]
                == argument_entry(rca.spec_address()) && final(self).regs.writes()[old(
                self,
            ).regs.writes().len() + 2 as int] == command_entry(
                cmd_word(55, true, false, false, false, false),
            ) && final(self).regs.writes()[old(self).regs.writes().len() + 4 as int]
                == argument_entry(2) && final(self).regs.writes()[old(self).regs.writes().len() + 5
                as int] == command_entry(cmd_word(6, true, false, false, false, false)),
            final(self).clock.last() >= old(self).clock.last() + 10000 || final(self).clock.last()
                == u64::MAX,
            r is Ok ==> log_contains_from(
                final(self).regs.writes(),
                old(self).regs.writes().len() as int,
                command_entry(cmd_word(55, true, false, false, false, false)),
            ) && log_contains_from(
                final(self).regs.writes(),
                old(self).regs.writes().len() as int,
                argument_entry(rca.spec_address()),
            ) && log_contains_from(
                final(self).regs.writes(),
                old(self).regs.writes().len() as int,
                command_entry(cmd_word(6, true, false, false, false, false)),
            ) && log_contains_from(
                final(self).regs.writes(),
                old(self).regs.writes().len() as int,
                argument_entry(2),
            ),
            r matches Err(e) ==> send_cmd_fault(false, true, e),
    {
        let ghost n0 = old(self).regs.writes().len() as int;
        self.delay_milli(10);
        match self.send_cmd(crate::cmd::app_cmd(rca.address())) {
            Ok(_) => {},
            Err(e) => {
                return Err(e);
            },
        }
        let ghost w1 = self.regs.writes();
        proof {
            assert(w1[n0 + 1] == argument_entry(rca.spec_address()));
            assert(w1[n0 + 2] == command_entry(cmd_word(55, true, false, false, false, false)));
        }
        let resp = match self.send_cmd(crate::cmd::set_bus_width(2)) {
            Ok(resp) => resp,
            Err(e) => {
                return Err(e);
            },
        };
        proof {
            assert(self.regs.writes()[w1.len() + 1 as int] == argument_entry(2));
            assert(self.regs.writes()[w1.len() + 2 as int] == command_entry(
                cmd_word(6, true, false, false, false, false),
            ));
            lemma_contains_persists(
                w1,
                self.regs.writes(),
                n0 + 1,
                n0,
                argument_entry(rca.spec_address()),
            );
            lemma_contains_persists(
                w1,
                self.regs.writes(),
                n0 + 2,
                n0,
                command_entry(cmd_word(55, true, false, false, false, false)),
            );
        }
        let _status = resp.card_status();
        Ok(())
    }

    /// Abort a transfer: wait for the command line, clear interrupt status,
    /// issue stop-transmission, and retry the whole step while the
    /// hardware-lock bit reads set after issuing; then wait for command-done
    /// and discard the card status.  As in the command path, every command
    /// write is preceded by an all-bits clear.  The retry count is unbounded
    /// by design; the loop can only end early through a wait fault, or with
    /// the hardware-lock fault in the unreachable case that the tick counter
    /// itself ends while the lock stays set.
    pub fn stop_transmission_ops(&mut self) -> (r: Result<(), CardError>)
        ensures
            log_extends(old(self).regs.writes(), final(self).regs.writes()),
            clears_precede_commands_from(
                final(self).regs.writes(),
                old(self).regs.writes().len() as int,
            ),
            final(self).regs.byte_reads() == old(self).regs.byte_reads(),
            final(self).regs.byte_writes() == old(self).regs.byte_writes(),
            final(self).clock.last() >= old(self).clock.last(),
            r matches Err(e) ==> e == CardError::TimeoutErr(Timeout::WaitCmdLine) || e
                == CardError::TimeoutErr(Timeout::WaitCmdDone) || e == CardError::InterruptErr(
                Interrupt::HardwareLock,
            ),
            !(r is Err && r->Err_0 == CardError::TimeoutErr(Timeout::WaitCmdLine))
                ==> log_contains_from(
                final(self).regs.writes(),
                old(self).regs.writes().len() as int,
                command_entry(cmd_word(12, true, false, false, false, false)),
            ),
            r is Err && r->Err_0 == CardError::InterruptErr(Interrupt::HardwareLock) ==> final(self).clock.last() == u64::MAX,
            r is Err && r->Err_0 is TimeoutErr ==> final(self).clock.last() > old(
                self,
            ).clock.last() + CMD_TIMEOUT_MS * 1000 || final(self).clock.last() == u64::MAX,
    {
        let ghost n0 = old(self).regs.writes().len() as int;
        let cmd = stop_transmission();
        loop
            invariant
                cmd.spec_word() == cmd_word(12, true, false, false, false, false),
                log_extends(old(self).regs.writes(), self.regs.writes()),
                clears_precede_commands_from(self.regs.writes(), n0),
                self.regs.byte_reads() == old(self).regs.byte_reads(),
                self.regs.byte_writes() == old(self).regs.byte_writes(),
                n0 == old(self).regs.writes().len(),
                self.clock.last() >= old(self).clock.last(),
            decreases ticks_until(u64::MAX as int, self.clock.last() as int),
        {
            let ghost w0 = self.regs.writes();
            match self.wait_for_cmd_line() {
                Ok(()) => {},
                Err(t) => {
                    return Err(CardError::TimeoutErr(t));
                },
            }
            self.regs.write32(REG_RINTSTS, INT_ALL);
            self.regs.write32(REG_CMDARG, cmd.arg());
            self.regs.write32(REG_CMD, cmd.cmd());
            proof {
                assert(is_clear_all_write(self.regs.writes()[w0.len() as int]));
                assert(self.regs.writes()[w0.len() + 2 as int] == command_entry(cmd.spec_word()));
                lemma_clear_all_covers(self.regs.writes(), w0.len() as int);
                lemma_clears_precede_chain(w0, self.regs.writes(), n0);
            }
            if self.regs.read32(REG_RINTSTS) & INT_HARDWARE_LOCK == 0 {
                // The abort command went out; wait for its completion, then
                // decode and discard the resulting card status.
                match self.wait_for_cmd_done() {
                    Ok(()) => {},
                    Err(t) => {
                        proof {
                            assert(self.regs.writes()[w0.len() + 2 as int] == command_entry(
                                cmd.spec_word(),
                            ));
                        }
                        return Err(CardError::TimeoutErr(t));
                    },
                }
                let _status = Response::R48(self.regs.read32(REG_RESP0)).card_status();
                proof {
                    assert(self.regs.writes()[w0.len() + 2 as int] == command_entry(
                        cmd.spec_word(),
                    ));
                }
                return Ok(());
            }
            let t = self.clock.now();
            if t == u64::MAX {
                proof {
                    assert(self.regs.writes()[w0.len() + 2 as int] == command_entry(
                        cmd.spec_word(),
                    ));
                }
                return Err(CardError::InterruptErr(Interrupt::HardwareLock));
            }
        }
    }
}

} // verus!
