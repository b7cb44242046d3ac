//! Polled driver core for a DesignWare-style SD/MMC host controller.
//!
//! The crate turns single-block read/write requests into register-level
//! command/response transactions and byte-exact FIFO transfers, and drives a
//! card through its power-up and identification protocol.  All register and
//! tick-counter access goes through the capability traits in [`hal`], so the
//! whole engine is verified for every behaviour of the underlying hardware,
//! and deterministic fakes can drive it in tests.

use vstd::prelude::*;

pub mod cmd;
pub mod err;
pub mod hal;
pub mod ops;
pub mod reg;
pub mod sd_reg;
pub mod timer;

use crate::cmd::idle;
use crate::cmd::read_single_block;
use crate::cmd::write_single_block;
use crate::err::CardError;
use crate::err::DeviceError;
use crate::err::DeviceStatus;
use crate::cmd::cmd_word;
use crate::hal::Clock;
use crate::hal::RegWrite;
use crate::hal::RegisterAccess;
use crate::hal::argument_entry;
use crate::hal::command_entry;
use crate::hal::contains_all_from;
use crate::hal::lemma_contains_persists;
use crate::hal::lemma_occurs_append;
use crate::hal::lemma_occurs_implies_contains;
use crate::hal::lemma_occurs_concat;
use crate::hal::occurs_in_order_between;
use crate::hal::lemma_occurs_persists;
use crate::hal::occurs_in_order_from;
use crate::hal::log_contains_from;
use crate::hal::log_extends;
use crate::hal::repeated;
use crate::hal::w32;
use crate::ops::MmcOperate;
use crate::reg::CTRL_CONTROLLER_RESET;
use crate::reg::CTRL_DMA_RESET;
use crate::reg::CTRL_FIFO_RESET;
use crate::reg::IDINT_RI;
use crate::reg::IDINT_TI;
use crate::reg::INT_ALL;
use crate::reg::REG_BMOD;
use crate::reg::REG_CTRL;
use crate::reg::REG_CTYPE;
use crate::reg::CMD_TIMEOUT_MS;
use crate::reg::REG_CLKDIV;
use crate::reg::REG_DATA;
use crate::reg::REG_HCON;
use crate::reg::REG_IDINTEN;
use crate::reg::REG_INTMASK;
use crate::reg::REG_PWREN;
use crate::reg::REG_RINTSTS;
use crate::reg::REG_TMOUT;
use crate::sd_reg::Cic;
use crate::sd_reg::Cid;
use crate::sd_reg::Csd;
use crate::sd_reg::HardConf;
use crate::sd_reg::Ocr;
use crate::sd_reg::Rca;

verus! {

/// The logical block size, in bytes, of the upstream block-device contract.
pub const BLOCK_SIZE: u32 = 512;

/// Everything a successful initialization hands to the hardware, as write
/// log entries in protocol order: the controller programming (reset, power,
/// both clock setups, timeout, masks, card type, bus mode, and the
/// DMA-completion interrupt enables armed at the end), and the command
/// words and distinctive arguments of the whole enumeration sequence.
/// `init` proves these occur in the log in exactly this order.
pub open spec fn init_entries() -> Seq<RegWrite> {
    seq![
        w32(REG_CTRL, CTRL_CONTROLLER_RESET | CTRL_FIFO_RESET | CTRL_DMA_RESET),
        w32(REG_PWREN, 1),
        w32(REG_CLKDIV, 62),
        command_entry(cmd_word(0, false, false, false, false, true)),
        w32(REG_TMOUT, 0xFFFFFFFF),
        w32(REG_RINTSTS, INT_ALL),
        w32(REG_INTMASK, 0),
        w32(REG_CTYPE, 1),
        w32(REG_IDINTEN, 0),
        w32(REG_BMOD, 1),
        command_entry(cmd_word(0, false, false, false, false, false)),
        argument_entry(0x1AA),
        command_entry(cmd_word(8, true, false, false, false, false)),
        command_entry(cmd_word(55, true, false, false, false, false)),
        command_entry(cmd_word(41, true, false, false, false, false)),
        command_entry(cmd_word(2, true, true, false, false, false)),
        command_entry(cmd_word(3, true, false, false, false, false)),
        command_entry(cmd_word(9, true, true, false, false, false)),
        command_entry(cmd_word(7, true, false, false, false, false)),
        argument_entry(16777201),
        command_entry(cmd_word(6, true, false, false, false, false)),
        argument_entry(2),
        w32(REG_CLKDIV, 1),
        w32(REG_IDINTEN, IDINT_RI | IDINT_TI),
    ]
}

/// A host-controller instance: the command engine plus the card state
/// gathered during initialization and the reported device status.
pub struct DwMmcHost<R: RegisterAccess, C: Clock> {
    rca: Rca,
    ocr: Ocr,
    cic: Cic,
    cid: Cid,
    csd: Csd,
    hard_config: HardConf,
    mmc_opt: MmcOperate<R, C>,
    status: DeviceStatus,
}

impl<R: RegisterAccess, C: Clock> DwMmcHost<R, C> {
    pub closed spec fn spec_status(self) -> DeviceStatus {
        self.status
    }

    pub closed spec fn spec_ocr(self) -> Ocr {
        self.ocr
    }

    pub closed spec fn spec_cic(self) -> Cic {
        self.cic
    }

    pub closed spec fn spec_rca(self) -> Rca {
        self.rca
    }

    pub closed spec fn spec_cid(self) -> Cid {
        self.cid
    }

    pub closed spec fn spec_csd(self) -> Csd {
        self.csd
    }

    pub closed spec fn spec_hard_config(self) -> HardConf {
        self.hard_config
    }

    /// The engine's ghost register-write log, as seen from the host.
    pub closed spec fn spec_writes(self) -> Seq<RegWrite> {
        self.mmc_opt.regs.writes()
    }

    /// The engine's ghost log of bytes drained from the FIFO window.
    pub closed spec fn spec_byte_reads(self) -> Seq<u8> {
        self.mmc_opt.regs.byte_reads()
    }

    /// The engine's ghost log of bytes pushed into the FIFO window.
    pub closed spec fn spec_byte_writes(self) -> Seq<u8> {
        self.mmc_opt.regs.byte_writes()
    }

    /// The clock's most recent reading, as seen from the host.
    pub closed spec fn spec_clock_last(self) -> u64 {
        self.mmc_opt.clock.last()
    }

    /// A fresh, uninitialized host over the injected capabilities.
    pub fn new(regs: R, clock: C) -> (r: DwMmcHost<R, C>)
        ensures
            r.spec_status() == DeviceStatus::Uninitialized,
            r.spec_ocr().raw == 0,
            r.spec_cic().raw == 0,
            r.spec_rca().raw == 0,
            r.spec_cid().w0 == 0 && r.spec_cid().w1 == 0 && r.spec_cid().w2 == 0 && r.spec_cid().w3
                == 0,
            r.spec_csd().w0 == 0 && r.spec_csd().w1 == 0 && r.spec_csd().w2 == 0 && r.spec_csd().w3
                == 0,
            r.spec_hard_config().raw == 0,
            r.spec_writes() == regs.writes(),
            r.spec_byte_reads() == regs.byte_reads(),
            r.spec_byte_writes() == regs.byte_writes(),
    {
        DwMmcHost {
            rca: Rca::new(),
            ocr: Ocr::new(),
            cic: Cic::new(),
            cid: Cid::new(),
            csd: Csd::new(),
            hard_config: HardConf::new(),
            mmc_opt: MmcOperate::new(regs, clock),
            status: DeviceStatus::Uninitialized,
        }
    }

    /// Bring the card from power-on to transfer-ready, strictly in order:
    /// parse the hardware configuration (unknown bits are a structural
    /// fault, not an abort), reset the controller, enable power, set up the
    /// slow clock, mask interrupts, go idle, check the voltage pattern, poll
    /// operating conditions until power-up completes, gather identification,
    /// address, and card-specific data, select the card, switch function,
    /// widen the bus, raise the clock to full speed, and arm the
    /// DMA-completion interrupt bits for later use.
    ///
    /// Any fault at any step aborts the whole sequence and leaves the device
    /// uninitialized.  On success the stored interface condition echoes the
    /// voltage pattern and the stored operating conditions show power-up
    /// done.
    /// The controller-programming stretch of initialization: parse the
    /// hardware configuration (unknown bits are a structural fault, not an
    /// abort), reset the controller, enable power, set up the slow clock,
    /// and program timeout, masks, card type and bus mode.  On success the
    /// first stretch of `init_entries` stands in the log in order, ending
    /// at the log's end.
    #[verifier::rlimit(100)]
    fn setup_controller(&mut self) -> (r: Result<(), CardError>)
        ensures
            final(self).spec_status() == old(self).spec_status(),
            log_extends(old(self).spec_writes(), final(self).spec_writes()),
            r is Ok ==> occurs_in_order_between(
                final(self).spec_writes(),
                old(self).spec_writes().len() as int,
                final(self).spec_writes().len() as int,
                init_entries().take(10),
            ),
    {
        let ghost n0 = old(self).spec_writes().len() as int;
        let ghost mut ws: Seq<RegWrite> = Seq::empty();
        let ghost mut spv = self.mmc_opt.regs.writes();
        let ghost mut upto: int = n0;
        let hcon = self.mmc_opt.regs.read32(REG_HCON);
        let hc = match HardConf::parse(hcon) {
            Ok(h) => h,
            Err(e) => {
                return Err(e);
            },
        };
        self.hard_config = hc;
        let reset_mask = CTRL_CONTROLLER_RESET | CTRL_FIFO_RESET | CTRL_DMA_RESET;
        self.mmc_opt.regs.write32(REG_CTRL, reset_mask);
        proof {
            let cur = self.mmc_opt.regs.writes();
            lemma_occurs_persists(spv, cur, n0, upto, ws);
            assert(cur[cur.len() - 1] == (w32(REG_CTRL, CTRL_CONTROLLER_RESET | CTRL_FIFO_RESET | CTRL_DMA_RESET)));
            lemma_occurs_append(cur, n0, upto, cur.len() - 1, ws, (w32(REG_CTRL, CTRL_CONTROLLER_RESET | CTRL_FIFO_RESET | CTRL_DMA_RESET)));
            upto = cur.len() as int;
            ws = ws.push((w32(REG_CTRL, CTRL_CONTROLLER_RESET | CTRL_FIFO_RESET | CTRL_DMA_RESET)));
            spv = cur;
        }
        match self.mmc_opt.wait_reset(reset_mask) {
            Ok(()) => {},
            Err(t) => {
                return Err(CardError::TimeoutErr(t));
            },
        }
        proof {
            let cur = self.mmc_opt.regs.writes();
            lemma_occurs_persists(spv, cur, n0, upto, ws);
            spv = cur;
        }
        self.mmc_opt.regs.write32(REG_PWREN, 1);
        proof {
            let cur = self.mmc_opt.regs.writes();
            lemma_occurs_persists(spv, cur, n0, upto, ws);
            assert(cur[cur.len() - 1] == (w32(REG_PWREN, 1)));
            lemma_occurs_append(cur, n0, upto, cur.len() - 1, ws, (w32(REG_PWREN, 1)));
            upto = cur.len() as int;
            ws = ws.push((w32(REG_PWREN, 1)));
            spv = cur;
        }
        match self.mmc_opt.reset_clock(1, 62) {
            Ok(()) => {},
            Err(t) => {
                return Err(CardError::TimeoutErr(t));
            },
        }
        proof {
            let cur = self.mmc_opt.regs.writes();
            lemma_occurs_persists(spv, cur, n0, upto, ws);
            assert(cur[spv.len() + 1 as int] == (w32(REG_CLKDIV, 62)));
            lemma_occurs_append(cur, n0, upto, spv.len() + 1 as int, ws, (w32(REG_CLKDIV, 62)));
            upto = spv.len() + 1 + 1 as int;
            ws = ws.push((w32(REG_CLKDIV, 62)));
            assert(cur[spv.len() + 3 as int] == (command_entry(cmd_word(0, false, false, false, false, true))));
            lemma_occurs_append(cur, n0, upto, spv.len() + 3 as int, ws, (command_entry(cmd_word(0, false, false, false, false, true))));
            upto = spv.len() + 3 + 1 as int;
            ws = ws.push((command_entry(cmd_word(0, false, false, false, false, true))));
            spv = cur;
        }
        self.mmc_opt.regs.write32(REG_TMOUT, 0xFFFFFFFF);
        proof {
            let cur = self.mmc_opt.regs.writes();
            lemma_occurs_persists(spv, cur, n0, upto, ws);
            assert(cur[cur.len() - 1] == (w32(REG_TMOUT, 0xFFFFFFFF)));
            lemma_occurs_append(cur, n0, upto, cur.len() - 1, ws, (w32(REG_TMOUT, 0xFFFFFFFF)));
            upto = cur.len() as int;
            ws = ws.push((w32(REG_TMOUT, 0xFFFFFFFF)));
            spv = cur;
        }
        self.mmc_opt.regs.write32(REG_RINTSTS, INT_ALL);
        proof {
            let cur = self.mmc_opt.regs.writes();
            lemma_occurs_persists(spv, cur, n0, upto, ws);
            assert(cur[cur.len() - 1] == (w32(REG_RINTSTS, INT_ALL)));
            lemma_occurs_append(cur, n0, upto, cur.len() - 1, ws, (w32(REG_RINTSTS, INT_ALL)));
            upto = cur.len() as int;
            ws = ws.push((w32(REG_RINTSTS, INT_ALL)));
            spv = cur;
        }
        self.mmc_opt.regs.write32(REG_INTMASK, 0);
        proof {
            let cur = self.mmc_opt.regs.writes();
            lemma_occurs_persists(spv, cur, n0, upto, ws);
            assert(cur[cur.len() - 1] == (w32(REG_INTMASK, 0)));
            lemma_occurs_append(cur, n0, upto, cur.len() - 1, ws, (w32(REG_INTMASK, 0)));
            upto = cur.len() as int;
            ws = ws.push((w32(REG_INTMASK, 0)));
            spv = cur;
        }
        self.mmc_opt.regs.write32(REG_CTYPE, 1);
        proof {
            let cur = self.mmc_opt.regs.writes();
            lemma_occurs_persists(spv, cur, n0, upto, ws);
            assert(cur[cur.len() - 1] == (w32(REG_CTYPE, 1)));
            lemma_occurs_append(cur, n0, upto, cur.len() - 1, ws, (w32(REG_CTYPE, 1)));
            upto = cur.len() as int;
            ws = ws.push((w32(REG_CTYPE, 1)));
            spv = cur;
        }
        self.mmc_opt.regs.write32(REG_IDINTEN, 0);
        proof {
            let cur = self.mmc_opt.regs.writes();
            lemma_occurs_persists(spv, cur, n0, upto, ws);
            assert(cur[cur.len() - 1] == (w32(REG_IDINTEN, 0)));
            lemma_occurs_append(cur, n0, upto, cur.len() - 1, ws, (w32(REG_IDINTEN, 0)));
            upto = cur.len() as int;
            ws = ws.push((w32(REG_IDINTEN, 0)));
            spv = cur;
        }
        self.mmc_opt.regs.write32(REG_BMOD, 1);
        proof {
            let cur = self.mmc_opt.regs.writes();
            lemma_occurs_persists(spv, cur, n0, upto, ws);
            assert(cur[cur.len() - 1] == (w32(REG_BMOD, 1)));
            lemma_occurs_append(cur, n0, upto, cur.len() - 1, ws, (w32(REG_BMOD, 1)));
            upto = cur.len() as int;
            ws = ws.push((w32(REG_BMOD, 1)));
            spv = cur;
        }
        proof {
            assert(ws =~= init_entries().take(10));
            assert(upto == self.mmc_opt.regs.writes().len());
        }
        Ok(())
    }

    /// The enumeration stretch of initialization: go idle, check the
    /// voltage pattern, poll operating conditions until power-up completes,
    /// gather identification, address and card-specific data, select the
    /// card, switch function, widen the bus, raise the clock to full speed
    /// and arm the DMA-completion interrupt bits.  On success the second
    /// stretch of `init_entries` stands in the log in order, ending at the
    /// log's end.
    #[verifier::rlimit(100)]
    fn enumerate_card(&mut self) -> (r: Result<(), CardError>)
        ensures
            final(self).spec_status() == old(self).spec_status(),
            log_extends(old(self).spec_writes(), final(self).spec_writes()),
            r is Ok ==> final(self).spec_cic().spec_voltage_accepted() == 1,
            r is Ok ==> final(self).spec_cic().spec_pattern() == 0xAA,
            r is Ok ==> !final(self).spec_ocr().spec_is_busy(),
            r is Ok ==> occurs_in_order_between(
                final(self).spec_writes(),
                old(self).spec_writes().len() as int,
                final(self).spec_writes().len() as int,
                init_entries().skip(10),
            ),
    {
        let ghost n0 = old(self).spec_writes().len() as int;
        let ghost mut ws: Seq<RegWrite> = Seq::empty();
        let ghost mut spv = self.mmc_opt.regs.writes();
        let ghost mut upto: int = n0;
        match self.mmc_opt.send_cmd(idle()) {
            Ok(_) => {},
            Err(e) => {
                return Err(e);
            },
        }
        proof {
            let cur = self.mmc_opt.regs.writes();
            lemma_occurs_persists(spv, cur, n0, upto, ws);
            assert(cur[spv.len() + 2 as int] == (command_entry(cmd_word(0, false, false, false, false, false))));
            lemma_occurs_append(cur, n0, upto, spv.len() + 2 as int, ws, (command_entry(cmd_word(0, false, false, false, false, false))));
            upto = spv.len() + 2 + 1 as int;
            ws = ws.push((command_entry(cmd_word(0, false, false, false, false, false))));
            spv = cur;
        }
        self.cic = match self.mmc_opt.check_version() {
            Ok(c) => c,
            Err(e) => {
                return Err(e);
            },
        };
        proof {
            let cur = self.mmc_opt.regs.writes();
            lemma_occurs_persists(spv, cur, n0, upto, ws);
            assert(cur[spv.len() + 1 as int] == (argument_entry(0x1AA)));
            lemma_occurs_append(cur, n0, upto, spv.len() + 1 as int, ws, (argument_entry(0x1AA)));
            upto = spv.len() + 1 + 1 as int;
            ws = ws.push((argument_entry(0x1AA)));
            assert(cur[spv.len() + 2 as int] == (command_entry(cmd_word(8, true, false, false, false, false))));
            lemma_occurs_append(cur, n0, upto, spv.len() + 2 as int, ws, (command_entry(cmd_word(8, true, false, false, false, false))));
            upto = spv.len() + 2 + 1 as int;
            ws = ws.push((command_entry(cmd_word(8, true, false, false, false, false))));
            spv = cur;
        }
        self.ocr = match self.mmc_opt.check_v18_sdhc() {
            Ok(o) => o,
            Err(e) => {
                return Err(e);
            },
        };
        proof {
            let cur = self.mmc_opt.regs.writes();
            lemma_occurs_persists(spv, cur, n0, upto, ws);
            assert(exists|i: int, j: int|
                #![trigger cur[i], cur[j]]
                spv.len() <= i < j < cur.len() && cur[i] == command_entry(cmd_word(55, true, false, false, false, false)) && cur[j] == command_entry(cmd_word(41, true, false, false, false, false)));
            let (i, j) = choose|i: int, j: int|
                #![trigger cur[i], cur[j]]
                spv.len() <= i < j < cur.len() && cur[i] == command_entry(cmd_word(55, true, false, false, false, false)) && cur[j] == command_entry(cmd_word(41, true, false, false, false, false));
            lemma_occurs_append(cur, n0, upto, i, ws, (command_entry(cmd_word(55, true, false, false, false, false))));
            upto = i + 1;
            ws = ws.push((command_entry(cmd_word(55, true, false, false, false, false))));
            lemma_occurs_append(cur, n0, upto, j, ws, (command_entry(cmd_word(41, true, false, false, false, false))));
            upto = j + 1;
            ws = ws.push((command_entry(cmd_word(41, true, false, false, false, false))));
            spv = cur;
        }
        self.cid = match self.mmc_opt.check_cid() {
            Ok(c) => c,
            Err(e) => {
                return Err(e);
            },
        };
        proof {
            let cur = self.mmc_opt.regs.writes();
            lemma_occurs_persists(spv, cur, n0, upto, ws);
            assert(cur[spv.len() + 2 as int] == (command_entry(cmd_word(2, true, true, false, false, false))));
            lemma_occurs_append(cur, n0, upto, spv.len() + 2 as int, ws, (command_entry(cmd_word(2, true, true, false, false, false))));
            upto = spv.len() + 2 + 1 as int;
            ws = ws.push((command_entry(cmd_word(2, true, true, false, false, false))));
            spv = cur;
        }
        self.rca = match self.mmc_opt.check_rca() {
            Ok(a) => a,
            Err(e) => {
                return Err(e);
            },
        };
        proof {
            let cur = self.mmc_opt.regs.writes();
            lemma_occurs_persists(spv, cur, n0, upto, ws);
            assert(cur[spv.len() + 2 as int] == (command_entry(cmd_word(3, true, false, false, false, false))));
            lemma_occurs_append(cur, n0, upto, spv.len() + 2 as int, ws, (command_entry(cmd_word(3, true, false, false, false, false))));
            upto = spv.len() + 2 + 1 as int;
            ws = ws.push((command_entry(cmd_word(3, true, false, false, false, false))));
            spv = cur;
        }
        self.csd = match self.mmc_opt.check_csd(self.rca) {
            Ok(c) => c,
            Err(e) => {
                return Err(e);
            },
        };
        proof {
            let cur = self.mmc_opt.regs.writes();
            lemma_occurs_persists(spv, cur, n0, upto, ws);
            assert(cur[spv.len() + 2 as int] == (command_entry(cmd_word(9, true, true, false, false, false))));
            lemma_occurs_append(cur, n0, upto, spv.len() + 2 as int, ws, (command_entry(cmd_word(9, true, true, false, false, false))));
            upto = spv.len() + 2 + 1 as int;
            ws = ws.push((command_entry(cmd_word(9, true, true, false, false, false))));
            spv = cur;
        }
        match self.mmc_opt.sel_card(self.rca) {
            Ok(()) => {},
            Err(e) => {
                return Err(e);
            },
        }
        proof {
            let cur = self.mmc_opt.regs.writes();
            lemma_occurs_persists(spv, cur, n0, upto, ws);
            assert(cur[spv.len() + 2 as int] == (command_entry(cmd_word(7, true, false, false, false, false))));
            lemma_occurs_append(cur, n0, upto, spv.len() + 2 as int, ws, (command_entry(cmd_word(7, true, false, false, false, false))));
            upto = spv.len() + 2 + 1 as int;
            ws = ws.push((command_entry(cmd_word(7, true, false, false, false, false))));
            spv = cur;
        }
        match self.mmc_opt.function_switch(16777201) {
            Ok(()) => {},
            Err(e) => {
                return Err(e);
            },
        }
        proof {
            let cur = self.mmc_opt.regs.writes();
            lemma_occurs_persists(spv, cur, n0, upto, ws);
            assert(cur[spv.len() + 1 as int] == (argument_entry(16777201)));
            lemma_occurs_append(cur, n0, upto, spv.len() + 1 as int, ws, (argument_entry(16777201)));
            upto = spv.len() + 1 + 1 as int;
            ws = ws.push((argument_entry(16777201)));
            assert(cur[spv.len() + 2 as int] == (command_entry(cmd_word(6, true, false, false, false, false))));
            lemma_occurs_append(cur, n0, upto, spv.len() + 2 as int, ws, (command_entry(cmd_word(6, true, false, false, false, false))));
            upto = spv.len() + 2 + 1 as int;
            ws = ws.push((command_entry(cmd_word(6, true, false, false, false, false))));
            spv = cur;
        }
        match self.mmc_opt.set_bus(self.rca) {
            Ok(()) => {},
            Err(e) => {
                return Err(e);
            },
        }
        proof {
            let cur = self.mmc_opt.regs.writes();
            lemma_occurs_persists(spv, cur, n0, upto, ws);
            assert(cur[spv.len() + 4 as int] == (argument_entry(2)));
            lemma_occurs_append(cur, n0, upto, spv.len() + 4 as int, ws, (argument_entry(2)));
            upto = spv.len() + 4 + 1 as int;
            ws = ws.push((argument_entry(2)));
            spv = cur;
        }
        match self.mmc_opt.reset_clock(1, 1) {
            Ok(()) => {},
            Err(t) => {
                return Err(CardError::TimeoutErr(t));
            },
        }
        proof {
            let cur = self.mmc_opt.regs.writes();
            lemma_occurs_persists(spv, cur, n0, upto, ws);
            assert(cur[spv.len() + 1 as int] == (w32(REG_CLKDIV, 1)));
            lemma_occurs_append(cur, n0, upto, spv.len() + 1 as int, ws, (w32(REG_CLKDIV, 1)));
            upto = spv.len() + 1 + 1 as int;
            ws = ws.push((w32(REG_CLKDIV, 1)));
            spv = cur;
        }
        self.mmc_opt.regs.write32(REG_IDINTEN, IDINT_RI | IDINT_TI);
        proof {
            let cur = self.mmc_opt.regs.writes();
            lemma_occurs_persists(spv, cur, n0, upto, ws);
            assert(cur[cur.len() - 1] == (w32(REG_IDINTEN, IDINT_RI | IDINT_TI)));
            lemma_occurs_append(cur, n0, upto, cur.len() - 1, ws, (w32(REG_IDINTEN, IDINT_RI | IDINT_TI)));
            upto = cur.len() as int;
            ws = ws.push((w32(REG_IDINTEN, IDINT_RI | IDINT_TI)));
            spv = cur;
        }
        proof {
            assert(ws =~= init_entries().skip(10));
            assert(upto == self.mmc_opt.regs.writes().len());
        }
        Ok(())
    }

    /// Bring the card from power-on to transfer-ready, strictly in order:
    /// the controller programming of `setup_controller`, then the
    /// enumeration of `enumerate_card`.  On success every entry of
    /// `init_entries` stands in the write log in exactly that order.
    ///
    /// Any fault at any step aborts the whole sequence and leaves the
    /// device uninitialized.  On success the stored interface condition
    /// echoes the voltage pattern and the stored operating conditions show
    /// power-up done.
    pub fn init(&mut self) -> (r: Result<(), CardError>)
        ensures
            r is Ok ==> final(self).spec_status() == DeviceStatus::Idle,
            r is Ok ==> final(self).spec_cic().spec_voltage_accepted() == 1,
            r is Ok ==> final(self).spec_cic().spec_pattern() == 0xAA,
            r is Ok ==> !final(self).spec_ocr().spec_is_busy(),
            r is Ok ==> occurs_in_order_from(
                final(self).spec_writes(),
                old(self).spec_writes().len() as int,
                init_entries(),
            ),
            r is Ok ==> contains_all_from(
                final(self).spec_writes(),
                old(self).spec_writes().len() as int,
                init_entries(),
            ),
            r is Err ==> final(self).spec_status() == DeviceStatus::Uninitialized,
    {
        let ghost n0 = old(self).spec_writes().len() as int;
        self.status = DeviceStatus::Uninitialized;
        match self.setup_controller() {
            Ok(()) => {},
            Err(e) => {
                return Err(e);
            },
        }
        let ghost s1 = self.mmc_opt.regs.writes();
        match self.enumerate_card() {
            Ok(()) => {},
            Err(e) => {
                return Err(e);
            },
        }
        self.status = DeviceStatus::Idle;
        proof {
            let sf = self.mmc_opt.regs.writes();
            lemma_occurs_persists(s1, sf, n0, s1.len() as int, init_entries().take(10));
            lemma_occurs_concat(
                sf,
                n0,
                s1.len() as int,
                sf.len() as int,
                init_entries().take(10),
                init_entries().skip(10),
            );
            assert(init_entries().take(10) + init_entries().skip(10) =~= init_entries());
            assert(occurs_in_order_from(sf, n0, init_entries()));
            lemma_occurs_implies_contains(sf, n0, sf.len() as int, init_entries());
        }
        Ok(())
    }

    /// Read one or more whole blocks at the given logical block address into
    /// `buf`, whose length must be a multiple of the block size.  On any
    /// engine fault, command or transfer, the abort sequence is issued
    /// before a generic fault is surfaced; the device status is left as it
    /// was either way.
    pub fn read_block(&mut self, lba: u32, buf: &mut Vec<u8>) -> (r: Result<(), DeviceError>)
        requires
            old(buf)@.len() % (BLOCK_SIZE as nat) == 0,
            old(buf)@.len() <= u32::MAX,
            REG_DATA + old(buf)@.len() <= usize::MAX,
        ensures
            final(self).spec_status() == old(self).spec_status(),
            final(buf)@.len() == old(buf)@.len(),
            r matches Err(e) ==> e == DeviceError::IoError || e == DeviceError::Timeout,
            final(self).spec_byte_writes() == old(self).spec_byte_writes(),
            final(self).spec_byte_reads().len() - old(self).spec_byte_reads().len() <= old(
                buf,
            )@.len(),
            final(buf)@ =~= final(self).spec_byte_reads().skip(
                old(self).spec_byte_reads().len() as int,
            ) + old(buf)@.skip(
                final(self).spec_byte_reads().len() - old(self).spec_byte_reads().len(),
            ),
            r is Ok ==> (final(self).spec_byte_reads() =~= old(self).spec_byte_reads()
                + final(buf)@),
            r is Ok ==> log_contains_from(
                final(self).spec_writes(),
                old(self).spec_writes().len() as int,
                argument_entry(lba),
            ) && log_contains_from(
                final(self).spec_writes(),
                old(self).spec_writes().len() as int,
                command_entry(cmd_word(17, true, false, true, false, false)),
            ),
            r is Err && r->Err_0 == DeviceError::IoError ==> log_contains_from(
                final(self).spec_writes(),
                old(self).spec_writes().len() as int,
                command_entry(cmd_word(12, true, false, false, false, false)),
            ),
            r is Err && r->Err_0 == DeviceError::Timeout ==> final(self).spec_clock_last() > old(
                self,
            ).spec_clock_last() + CMD_TIMEOUT_MS * 1000 || final(self).spec_clock_last()
                == u64::MAX,
    {
        let ghost n0 = old(self).spec_writes().len() as int;
        let ghost r0 = old(self).spec_byte_reads();
        let cmd = read_single_block(lba);
        match self.mmc_opt.send_cmd(cmd) {
            Ok(resp) => {
                let ghost w1 = self.mmc_opt.regs.writes();
                proof {
                    assert(w1[n0 + 1] == argument_entry(lba));
                    assert(w1[n0 + 2] == command_entry(
                        cmd_word(17, true, false, true, false, false),
                    ));
                }
                let _status = resp.card_status();
                let blk: u32 = (buf.len() as u32) / BLOCK_SIZE;
                assert(blk * BLOCK_SIZE == buf@.len());
                match self.mmc_opt.read_data(buf, blk, BLOCK_SIZE) {
                    Ok(()) => {
                        proof {
                            lemma_contains_persists(
                                w1,
                                self.mmc_opt.regs.writes(),
                                n0 + 1,
                                n0,
                                argument_entry(lba),
                            );
                            lemma_contains_persists(
                                w1,
                                self.mmc_opt.regs.writes(),
                                n0 + 2,
                                n0,
                                command_entry(cmd_word(17, true, false, true, false, false)),
                            );
                        }
                        Ok(())
                    },
                    Err(_e) => {
                        let ghost wr = self.mmc_opt.regs.writes();
                        match self.mmc_opt.stop_transmission_ops() {
                            Ok(()) => {
                                proof {
                                    lemma_contains_persists(
                                        self.mmc_opt.regs.writes(),
                                        self.mmc_opt.regs.writes(),
                                        wr.len() as int,
                                        n0,
                                        command_entry(
                                            cmd_word(12, true, false, false, false, false),
                                        ),
                                    );
                                }
                                Err(DeviceError::IoError)
                            },
                            Err(e2) => {
                                proof {
                                    if e2 != CardError::TimeoutErr(
                                        crate::err::Timeout::WaitCmdLine,
                                    ) {
                                        lemma_contains_persists(
                                            self.mmc_opt.regs.writes(),
                                            self.mmc_opt.regs.writes(),
                                            wr.len() as int,
                                            n0,
                                            command_entry(
                                                cmd_word(12, true, false, false, false, false),
                                            ),
                                        );
                                    }
                                }
                                Err(DeviceError::from(e2))
                            },
                        }
                    },
                }
            },
            Err(_e) => {
                let ghost wr = self.mmc_opt.regs.writes();
                let res = match self.mmc_opt.stop_transmission_ops() {
                    Ok(()) => {
                        proof {
                            lemma_contains_persists(
                                self.mmc_opt.regs.writes(),
                                self.mmc_opt.regs.writes(),
                                wr.len() as int,
                                n0,
                                command_entry(cmd_word(12, true, false, false, false, false)),
                            );
                        }
                        Err(DeviceError::IoError)
                    },
                    Err(e2) => {
                        proof {
                            if e2 != CardError::TimeoutErr(crate::err::Timeout::WaitCmdLine) {
                                lemma_contains_persists(
                                    self.mmc_opt.regs.writes(),
                                    self.mmc_opt.regs.writes(),
                                    wr.len() as int,
                                    n0,
                                    command_entry(cmd_word(12, true, false, false, false, false)),
                                );
                            }
                        }
                        Err(DeviceError::from(e2))
                    },
                };
                proof {
                    assert(self.mmc_opt.regs.byte_reads() == r0);
                    assert(self.mmc_opt.regs.byte_reads().skip(r0.len() as int)
                        =~= Seq::<u8>::empty());
                    assert(old(buf)@.skip(0) =~= old(buf)@);
                    assert(buf@ =~= self.mmc_opt.regs.byte_reads().skip(r0.len() as int) + old(
                        buf,
                    )@.skip(0));
                }
                res
            },
        }
    }

    /// Write whole blocks from `data`, whose length must be a multiple of
    /// the block size, at the given logical block address.  Same
    /// abort-on-failure policy as the read path.
    pub fn write_block(&mut self, lba: u32, data: &Vec<u8>) -> (r: Result<(), DeviceError>)
        requires
            data@.len() % (BLOCK_SIZE as nat) == 0,
            data@.len() <= u32::MAX,
            REG_DATA + data@.len() <= usize::MAX,
        ensures
            final(self).spec_status() == old(self).spec_status(),
            r matches Err(e) ==> e == DeviceError::IoError || e == DeviceError::Timeout,
            final(self).spec_byte_reads() == old(self).spec_byte_reads(),
            r is Ok ==> exists|k: nat|
                final(self).spec_byte_writes() == old(self).spec_byte_writes()
                    + #[trigger] repeated(data@, k),
            r is Ok ==> log_contains_from(
                final(self).spec_writes(),
                old(self).spec_writes().len() as int,
                argument_entry(lba),
            ) && log_contains_from(
                final(self).spec_writes(),
                old(self).spec_writes().len() as int,
                command_entry(cmd_word(24, true, false, true, true, false)),
            ),
            r is Err && r->Err_0 == DeviceError::IoError ==> log_contains_from(
                final(self).spec_writes(),
                old(self).spec_writes().len() as int,
                command_entry(cmd_word(12, true, false, false, false, false)),
            ),
            r is Err && r->Err_0 == DeviceError::Timeout ==> final(self).spec_clock_last() > old(
                self,
            ).spec_clock_last() + CMD_TIMEOUT_MS * 1000 || final(self).spec_clock_last()
                == u64::MAX,
    {
        let ghost n0 = old(self).spec_writes().len() as int;
        let cmd = write_single_block(lba);
        match self.mmc_opt.send_cmd(cmd) {
            Ok(resp) => {
                let ghost w1 = self.mmc_opt.regs.writes();
                proof {
                    assert(w1[n0 + 1] == argument_entry(lba));
                    assert(w1[n0 + 2] == command_entry(
                        cmd_word(24, true, false, true, true, false),
                    ));
                }
                let _status = resp.card_status();
                let blk: u32 = (data.len() as u32) / BLOCK_SIZE;
                assert(blk * BLOCK_SIZE == data@.len());
                match self.mmc_opt.write_data(data, blk, BLOCK_SIZE) {
                    Ok(()) => {
                        proof {
                            lemma_contains_persists(
                                w1,
                                self.mmc_opt.regs.writes(),
                                n0 + 1,
                                n0,
                                argument_entry(lba),
                            );
                            lemma_contains_persists(
                                w1,
                                self.mmc_opt.regs.writes(),
                                n0 + 2,
                                n0,
                                command_entry(cmd_word(24, true, false, true, true, false)),
                            );
                        }
                        Ok(())
                    },
                    Err(_e) => {
                        let ghost wr = self.mmc_opt.regs.writes();
                        match self.mmc_opt.stop_transmission_ops() {
                            Ok(()) => {
                                proof {
                                    lemma_contains_persists(
                                        self.mmc_opt.regs.writes(),
                                        self.mmc_opt.regs.writes(),
                                        wr.len() as int,
                                        n0,
                                        command_entry(
                                            cmd_word(12, true, false, false, false, false),
                                        ),
                                    );
                                }
                                Err(DeviceError::IoError)
                            },
                            Err(e2) => {
                                proof {
                                    if e2 != CardError::TimeoutErr(
                                        crate::err::Timeout::WaitCmdLine,
                                    ) {
                                        lemma_contains_persists(
                                            self.mmc_opt.regs.writes(),
                                            self.mmc_opt.regs.writes(),
                                            wr.len() as int,
                                            n0,
                                            command_entry(
                                                cmd_word(12, true, false, false, false, false),
                                            ),
                                        );
                                    }
                                }
                                Err(DeviceError::from(e2))
                            },
                        }
                    },
                }
            },
            Err(_e) => {
                let ghost wr = self.mmc_opt.regs.writes();
                match self.mmc_opt.stop_transmission_ops() {
                    Ok(()) => {
                        proof {
                            lemma_contains_persists(
                                self.mmc_opt.regs.writes(),
                                self.mmc_opt.regs.writes(),
                                wr.len() as int,
                                n0,
                                command_entry(cmd_word(12, true, false, false, false, false)),
                            );
                        }
                        Err(DeviceError::IoError)
                    },
                    Err(e2) => {
                        proof {
                            if e2 != CardError::TimeoutErr(crate::err::Timeout::WaitCmdLine) {
                                lemma_contains_persists(
                                    self.mmc_opt.regs.writes(),
                                    self.mmc_opt.regs.writes(),
                                    wr.len() as int,
                                    n0,
                                    command_entry(cmd_word(12, true, false, false, false, false)),
                                );
                            }
                        }
                        Err(DeviceError::from(e2))
                    },
                }
            },
        }
    }

    /// The fixed logical block size.
    pub fn block_size(&self) -> (r: u32)
        ensures
            r == BLOCK_SIZE,
    {
        BLOCK_SIZE
    }

    /// The device status the host currently reports.
    pub fn status(&self) -> (r: DeviceStatus)
        ensures
            r == self.spec_status(),
    {
        self.status
    }

    /// The operating conditions stored by initialization.
    pub fn ocr(&self) -> (r: Ocr)
        ensures
            r == self.spec_ocr(),
    {
        self.ocr
    }

    /// The interface condition stored by initialization.
    pub fn cic(&self) -> (r: Cic)
        ensures
            r == self.spec_cic(),
    {
        self.cic
    }

    /// The relative card address stored by initialization.
    pub fn rca(&self) -> (r: Rca)
        ensures
            r == self.spec_rca(),
    {
        self.rca
    }

    /// The card identification stored by initialization.
    pub fn cid(&self) -> (r: Cid)
        ensures
            r == self.spec_cid(),
    {
        self.cid
    }

    /// The card-specific data stored by initialization.
    pub fn csd(&self) -> (r: Csd)
        ensures
            r == self.spec_csd(),
    {
        self.csd
    }

    /// The hardware-configuration word stored by initialization.
    pub fn hard_config(&self) -> (r: HardConf)
        ensures
            r == self.spec_hard_config(),
    {
        self.hard_config
    }
}

} // verus!
