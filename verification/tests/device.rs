//! End-to-end scenarios against a scripted card model: the initialization
//! sequence with operating-conditions polling, and the abort-on-failure
//! policy of block reads.

use std::cell::Cell;
use std::cell::RefCell;
use std::rc::Rc;

use dw_mmc::DwMmcHost;
use dw_mmc::err::DeviceError;
use dw_mmc::err::DeviceStatus;
use dw_mmc::hal::Clock;
use dw_mmc::hal::RegisterAccess;

const REG_CMD: usize = 0x2C;
const REG_RESP0: usize = 0x30;
const REG_RESP1: usize = 0x34;
const REG_RESP2: usize = 0x38;
const REG_RESP3: usize = 0x3C;
const REG_RINTSTS: usize = 0x44;

struct TickClock {
    t: u64,
    step: u64,
}

impl Clock for TickClock {
    fn now(&mut self) -> u64 {
        self.t = self.t.saturating_add(self.step);
        self.t
    }
}

/// A card model for the whole enumeration protocol: write-one-to-clear
/// interrupt status, command-done on every command, and per-opcode
/// responses.  The operating-conditions poll reports busy a configurable
/// number of times before power-up completes with the high-capacity bit.
struct CardModel {
    rintsts: u32,
    resp: [u32; 4],
    busy_polls: u32,
    op_cond_polls: Rc<Cell<u32>>,
}

impl RegisterAccess for CardModel {
    fn read32(&mut self, off: usize) -> u32 {
        match off {
            REG_RINTSTS => self.rintsts,
            REG_RESP0 => self.resp[0],
            REG_RESP1 => self.resp[1],
            REG_RESP2 => self.resp[2],
            REG_RESP3 => self.resp[3],
            _ => 0,
        }
    }

    fn write32(&mut self, off: usize, v: u32) {
        match off {
            REG_RINTSTS => {
                self.rintsts &= !v;
            }
            REG_CMD => {
                if v & 0x20_0000 != 0 {
                    // update-clock-registers-only: no card response
                    return;
                }
                self.rintsts |= 0x4;
                match v & 0x3F {
                    8 => self.resp[0] = 0x1AA,
                    55 => self.resp[0] = 0x0000_0120,
                    41 => {
                        let polls = self.op_cond_polls.get() + 1;
                        self.op_cond_polls.set(polls);
                        self.resp[0] = if polls <= self.busy_polls {
                            0x00FF_8000 // still busy
                        } else {
                            0xC0FF_8000 // power-up done, high capacity
                        };
                    }
                    2 => self.resp = [0x01020304, 0x05060708, 0x090A0B0C, 0x0D0E0F10],
                    3 => self.resp[0] = 0x0005_0000,
                    9 => self.resp = [0x11, 0x22, 0x33, 0x4000_0000],
                    _ => self.resp[0] = 0x0000_0900,
                }
            }
            _ => {}
        }
    }

    fn read8(&mut self, _off: usize) -> u8 {
        0
    }

    fn write8(&mut self, _off: usize, _v: u8) {}
}

#[test]
fn init_polls_busy_three_times_then_proceeds() {
    let polls = Rc::new(Cell::new(0u32));
    let regs = CardModel {
        rintsts: 0,
        resp: [0; 4],
        busy_polls: 3,
        op_cond_polls: polls.clone(),
    };
    let clock = TickClock { t: 0, step: 500 };
    let mut host = DwMmcHost::new(regs, clock);
    assert_eq!(host.status(), DeviceStatus::Uninitialized);
    let r = host.init();
    assert!(matches!(r, Ok(())));
    assert_eq!(host.status(), DeviceStatus::Idle);
    // Exactly three busy polls, then the one that succeeded.
    assert_eq!(polls.get(), 4);
    // Downstream observes the high-capacity bit of the final answer.
    assert!(host.ocr().high_capacity());
    assert!(!host.ocr().is_busy());
    // The voltage check stored the echoed pattern.
    assert_eq!(host.cic().pattern(), 0xAA);
    assert_eq!(host.cic().voltage_accepted(), 1);
    // And the published relative address was kept.
    assert_eq!(host.rca().address(), 0x0005_0000);
}

#[test]
fn init_rejects_unechoed_voltage_pattern() {
    // A card that echoes the wrong pattern: enumeration must stop with the
    // distinct voltage-pattern fault and leave the device uninitialized.
    struct WrongPattern {
        rintsts: u32,
    }
    impl RegisterAccess for WrongPattern {
        fn read32(&mut self, off: usize) -> u32 {
            match off {
                REG_RINTSTS => self.rintsts,
                REG_RESP0 => 0x155, // pattern 0x55, not the 0xAA that was sent
                _ => 0,
            }
        }
        fn write32(&mut self, off: usize, v: u32) {
            match off {
                REG_RINTSTS => self.rintsts &= !v,
                REG_CMD => {
                    if v & 0x20_0000 == 0 {
                        self.rintsts |= 0x4;
                    }
                }
                _ => {}
            }
        }
        fn read8(&mut self, _off: usize) -> u8 {
            0
        }
        fn write8(&mut self, _off: usize, _v: u8) {}
    }
    let clock = TickClock { t: 0, step: 500 };
    let mut host = DwMmcHost::new(WrongPattern { rintsts: 0 }, clock);
    let r = host.init();
    assert!(matches!(r, Err(dw_mmc::err::CardError::VoltagePattern)));
    assert_eq!(host.status(), DeviceStatus::Uninitialized);
}

/// A card that fails the single-block-read command with response-timeout,
/// and accepts the stop-transmission abort that must follow.
struct FailingRead {
    rintsts: u32,
    stop_cmds: Rc<Cell<u32>>,
}

impl RegisterAccess for FailingRead {
    fn read32(&mut self, off: usize) -> u32 {
        match off {
            REG_RINTSTS => self.rintsts,
            REG_RESP0 => 0x0900,
            _ => 0,
        }
    }

    fn write32(&mut self, off: usize, v: u32) {
        match off {
            REG_RINTSTS => {
                self.rintsts &= !v;
            }
            REG_CMD => {
                if v & 0x20_0000 != 0 {
                    return;
                }
                match v & 0x3F {
                    17 => self.rintsts |= 0x4 | 0x100, // done, response timeout
                    12 => {
                        self.stop_cmds.set(self.stop_cmds.get() + 1);
                        self.rintsts |= 0x4; // done, hardware-lock clear
                    }
                    _ => self.rintsts |= 0x4,
                }
            }
            _ => {}
        }
    }

    fn read8(&mut self, _off: usize) -> u8 {
        0
    }

    fn write8(&mut self, _off: usize, _v: u8) {}
}

#[test]
fn failed_read_aborts_once_and_surfaces_an_io_fault() {
    let stops = Rc::new(Cell::new(0u32));
    let regs = FailingRead { rintsts: 0, stop_cmds: stops.clone() };
    let clock = TickClock { t: 0, step: 200 };
    let mut host = DwMmcHost::new(regs, clock);
    let before = host.status();
    let mut buf = vec![0u8; 512];
    let r = host.read_block(5, &mut buf);
    assert_eq!(r, Err(DeviceError::IoError));
    // The abort sequence ran exactly once.
    assert_eq!(stops.get(), 1);
    // The device status is left as it was, and the host stays usable.
    assert_eq!(host.status(), before);
    assert_eq!(buf.len(), 512);
}

/// A card that serves a whole single-block read: command accepted, then the
/// FIFO delivers every requested byte before transfer-complete.
struct ServingRead {
    rintsts: u32,
    delivered: usize,
    total: usize,
}

impl RegisterAccess for ServingRead {
    fn read32(&mut self, off: usize) -> u32 {
        match off {
            REG_RINTSTS => {
                if self.delivered < self.total {
                    self.rintsts | 0x20
                } else {
                    self.rintsts | 0x8
                }
            }
            0x48 => (((self.total - self.delivered) as u32) & 0x1FFF) << 17,
            REG_RESP0 => 0x0900,
            _ => 0,
        }
    }

    fn write32(&mut self, off: usize, v: u32) {
        match off {
            REG_RINTSTS => self.rintsts &= !v,
            REG_CMD => {
                if v & 0x20_0000 == 0 {
                    self.rintsts |= 0x4;
                }
            }
            _ => {}
        }
    }

    fn read8(&mut self, _off: usize) -> u8 {
        let b = (self.delivered % 251) as u8;
        self.delivered += 1;
        b
    }

    fn write8(&mut self, _off: usize, _v: u8) {}
}

#[test]
fn read_block_copies_a_whole_block() {
    let regs = ServingRead { rintsts: 0, delivered: 0, total: 512 };
    let clock = TickClock { t: 0, step: 200 };
    let mut host = DwMmcHost::new(regs, clock);
    let mut buf = vec![0u8; 512];
    let r = host.read_block(7, &mut buf);
    assert_eq!(r, Ok(()));
    let expected: Vec<u8> = (0..512).map(|i| (i % 251) as u8).collect();
    assert_eq!(buf, expected);
    assert_eq!(host.status(), DeviceStatus::Uninitialized);
}

/// A card that accepts a single-block write: one transmit-request burst,
/// then transfer-complete.
struct AcceptingWrite {
    rintsts: u32,
    pushed: Rc<RefCell<Vec<u8>>>,
    burst_done: bool,
}

impl RegisterAccess for AcceptingWrite {
    fn read32(&mut self, off: usize) -> u32 {
        match off {
            REG_RINTSTS => {
                if self.burst_done {
                    self.rintsts | 0x8
                } else {
                    self.rintsts | 0x10
                }
            }
            REG_RESP0 => 0x0900,
            _ => 0,
        }
    }

    fn write32(&mut self, off: usize, v: u32) {
        match off {
            REG_RINTSTS => {
                if v == 0x10 {
                    self.burst_done = true;
                }
                self.rintsts &= !v;
            }
            REG_CMD => {
                if v & 0x20_0000 == 0 {
                    self.rintsts |= 0x4;
                }
            }
            _ => {}
        }
    }

    fn read8(&mut self, _off: usize) -> u8 {
        0
    }

    fn write8(&mut self, _off: usize, v: u8) {
        self.pushed.borrow_mut().push(v);
    }
}

#[test]
fn write_block_pushes_the_whole_block() {
    let pushed = Rc::new(RefCell::new(Vec::new()));
    let regs = AcceptingWrite { rintsts: 0, pushed: pushed.clone(), burst_done: false };
    let clock = TickClock { t: 0, step: 200 };
    let mut host = DwMmcHost::new(regs, clock);
    let data: Vec<u8> = (0..512).map(|i| (i % 253) as u8).collect();
    let r = host.write_block(3, &data);
    assert_eq!(r, Ok(()));
    // The one burst pushed the whole source buffer, byte for byte.
    assert_eq!(*pushed.borrow(), data);
    assert_eq!(host.status(), DeviceStatus::Uninitialized);
}
