//! Command descriptors: one per protocol step, plus the encoding of the
//! controller's command-register word.

use vstd::prelude::*;

use crate::reg::CMD_CHECK_RESPONSE_CRC;
use crate::reg::CMD_DATA_EXPECTED;
use crate::reg::CMD_RESPONSE_EXPECT;
use crate::reg::CMD_RESPONSE_LONG;
use crate::reg::CMD_START;
use crate::reg::CMD_UPDATE_CLOCK_ONLY;
use crate::reg::CMD_WAIT_PRVDATA;
use crate::reg::CMD_WRITE;

verus! {

/// The encoded command-register word for the given opcode index and flags:
/// start bit, opcode, and one flag bit per descriptor flag, with
/// wait-previous-data always set.
pub open spec fn cmd_word(
    opcode: u32,
    resp_exp: bool,
    resp_long: bool,
    data_exp: bool,
    write: bool,
    clock_only: bool,
) -> u32 {
    CMD_START | CMD_WAIT_PRVDATA | opcode | (
    if resp_exp {
        CMD_RESPONSE_EXPECT | CMD_CHECK_RESPONSE_CRC
    } else {
        0
    }) | (if resp_long {
        CMD_RESPONSE_LONG
    } else {
        0
    }) | (if data_exp {
        CMD_DATA_EXPECTED
    } else {
        0
    }) | (if write {
        CMD_WRITE
    } else {
        0
    }) | (if clock_only {
        CMD_UPDATE_CLOCK_ONLY
    } else {
        0
    })
}

/// An immutable command descriptor: opcode index, 32-bit argument, and the
/// flags that steer the engine (expects a response, response is 136 bits,
/// expects a data phase, data direction, clock-update-only).
#[derive(Debug, Clone, Copy, PartialEq, Eq, Structural)]
pub struct Command {
    opcode: u32,
    arg: u32,
    resp_exp: bool,
    resp_long: bool,
    data_exp: bool,
    write: bool,
    clock_only: bool,
}

impl Command {
    /// The opcode index, always below 64 so it fits the command word's index
    /// field.
    pub closed spec fn spec_opcode(self) -> u32 {
        self.opcode
    }

    pub closed spec fn spec_arg(self) -> u32 {
        self.arg
    }

    pub closed spec fn spec_resp_exp(self) -> bool {
        self.resp_exp
    }

    pub closed spec fn spec_resp_long(self) -> bool {
        self.resp_long
    }

    pub closed spec fn spec_data_exp(self) -> bool {
        self.data_exp
    }

    pub closed spec fn spec_write(self) -> bool {
        self.write
    }

    pub closed spec fn spec_clock_only(self) -> bool {
        self.clock_only
    }

    pub open spec fn wf(self) -> bool {
        self.spec_opcode() < 64
    }

    /// The encoded command-register word of this descriptor.
    pub open spec fn spec_word(self) -> u32 {
        cmd_word(
            self.spec_opcode(),
            self.spec_resp_exp(),
            self.spec_resp_long(),
            self.spec_data_exp(),
            self.spec_write(),
            self.spec_clock_only(),
        )
    }

    /// Encode the command-register word.
    pub fn cmd(&self) -> (w: u32)
        ensures
            w == self.spec_word(),
    {
        CMD_START | CMD_WAIT_PRVDATA | self.opcode | (
        if self.resp_exp {
            CMD_RESPONSE_EXPECT | CMD_CHECK_RESPONSE_CRC
        } else {
            0
        }) | (if self.resp_long {
            CMD_RESPONSE_LONG
        } else {
            0
        }) | (if self.data_exp {
            CMD_DATA_EXPECTED
        } else {
            0
        }) | (if self.write {
            CMD_WRITE
        } else {
            0
        }) | (if self.clock_only {
            CMD_UPDATE_CLOCK_ONLY
        } else {
            0
        })
    }

    pub fn arg(&self) -> (a: u32)
        ensures
            a == self.spec_arg(),
    {
        self.arg
    }

    pub fn resp_exp(&self) -> (b: bool)
        ensures
            b == self.spec_resp_exp(),
    {
        self.resp_exp
    }

    pub fn resp_long(&self) -> (b: bool)
        ensures
            b == self.spec_resp_long(),
    {
        self.resp_long
    }

    pub fn data_exp(&self) -> (b: bool)
        ensures
            b == self.spec_data_exp(),
    {
        self.data_exp
    }
}

/// A command with no response, no data phase and no special flags.
fn plain(opcode: u32, arg: u32) -> (c: Command)
    requires
        opcode < 64,
    ensures
        c.spec_opcode() == opcode,
        c.spec_arg() == arg,
        !c.spec_resp_exp(),
        !c.spec_resp_long(),
        !c.spec_data_exp(),
        !c.spec_write(),
        !c.spec_clock_only(),
        c.wf(),
{
    Command { opcode, arg, resp_exp: false, resp_long: false, data_exp: false, write: false, clock_only: false }
}

/// A command expecting a 48-bit response and no data phase.
fn with_r48(opcode: u32, arg: u32) -> (c: Command)
    requires
        opcode < 64,
    ensures
        c.spec_opcode() == opcode,
        c.spec_arg() == arg,
        c.spec_resp_exp(),
        !c.spec_resp_long(),
        !c.spec_data_exp(),
        !c.spec_write(),
        !c.spec_clock_only(),
        c.wf(),
{
    Command { opcode, arg, resp_exp: true, resp_long: false, data_exp: false, write: false, clock_only: false }
}

/// A command expecting a 136-bit response and no data phase.
fn with_r136(opcode: u32, arg: u32) -> (c: Command)
    requires
        opcode < 64,
    ensures
        c.spec_opcode() == opcode,
        c.spec_arg() == arg,
        c.spec_resp_exp(),
        c.spec_resp_long(),
        !c.spec_data_exp(),
        !c.spec_write(),
        !c.spec_clock_only(),
        c.wf(),
{
    Command { opcode, arg, resp_exp: true, resp_long: true, data_exp: false, write: false, clock_only: false }
}

/// Go-idle: opcode 0, no response.
pub fn idle() -> (c: Command)
    ensures
        c.spec_opcode() == 0,
        c.spec_arg() == 0,
        !c.spec_resp_exp(),
        !c.spec_resp_long(),
        !c.spec_data_exp(),
        !c.spec_write(),
        !c.spec_clock_only(),
        c.wf(),
{
    plain(0, 0)
}

/// Voltage check: opcode 8; the argument echoes the supply-voltage nibble and
/// a check pattern the card must send back.
pub fn send_if_cond(voltage: u32, pattern: u32) -> (c: Command)
    requires
        voltage < 16,
        pattern < 256,
    ensures
        c.spec_opcode() == 8,
        c.spec_arg() == voltage * 256 + pattern,
        c.spec_resp_exp(),
        !c.spec_resp_long(),
        !c.spec_data_exp(),
        !c.spec_write(),
        !c.spec_clock_only(),
        c.wf(),
{
    with_r48(8, voltage * 256 + pattern)
}

/// Announce an application command: opcode 55, addressed by the card's
/// relative address (zero before one is assigned).
pub fn app_cmd(rca_arg: u32) -> (c: Command)
    ensures
        c.spec_opcode() == 55,
        c.spec_arg() == rca_arg,
        c.spec_resp_exp(),
        !c.spec_resp_long(),
        !c.spec_data_exp(),
        !c.spec_write(),
        !c.spec_clock_only(),
        c.wf(),
{
    with_r48(55, rca_arg)
}

/// Operating-conditions negotiation: application opcode 41 with the standard
/// voltage window, plus the high-capacity and 1.8-volt request bits.
pub fn sd_send_op_cond(high_capacity: bool, v18: bool) -> (c: Command)
    ensures
        c.spec_opcode() == 41,
        c.spec_arg() == (if high_capacity {
            0x40000000u32
        } else {
            0u32
        }) | (if v18 {
            0x01000000u32
        } else {
            0u32
        }) | 0x00FF8000u32,
        c.spec_resp_exp(),
        !c.spec_resp_long(),
        !c.spec_data_exp(),
        !c.spec_write(),
        !c.spec_clock_only(),
        c.wf(),
{
    let hc: u32 = if high_capacity { 0x40000000 } else { 0 };
    let sv: u32 = if v18 { 0x01000000 } else { 0 };
    with_r48(41, hc | sv | 0x00FF8000)
}

/// Ask every card to send its identification: opcode 2, 136-bit response.
pub fn all_send_cid() -> (c: Command)
    ensures
        c.spec_opcode() == 2,
        c.spec_arg() == 0,
        c.spec_resp_exp(),
        c.spec_resp_long(),
        !c.spec_data_exp(),
        !c.spec_write(),
        !c.spec_clock_only(),
        c.wf(),
{
    with_r136(2, 0)
}

/// Ask the card to publish a relative address: opcode 3.
pub fn send_relative_address() -> (c: Command)
    ensures
        c.spec_opcode() == 3,
        c.spec_arg() == 0,
        c.spec_resp_exp(),
        !c.spec_resp_long(),
        !c.spec_data_exp(),
        !c.spec_write(),
        !c.spec_clock_only(),
        c.wf(),
{
    with_r48(3, 0)
}

/// Read the card-specific data: opcode 9, 136-bit response.
pub fn send_csd(rca_arg: u32) -> (c: Command)
    ensures
        c.spec_opcode() == 9,
        c.spec_arg() == rca_arg,
        c.spec_resp_exp(),
        c.spec_resp_long(),
        !c.spec_data_exp(),
        !c.spec_write(),
        !c.spec_clock_only(),
        c.wf(),
{
    with_r136(9, rca_arg)
}

/// Select the card: opcode 7.
pub fn select_card(rca_arg: u32) -> (c: Command)
    ensures
        c.spec_opcode() == 7,
        c.spec_arg() == rca_arg,
        c.spec_resp_exp(),
        !c.spec_resp_long(),
        !c.spec_data_exp(),
        !c.spec_write(),
        !c.spec_clock_only(),
        c.wf(),
{
    with_r48(7, rca_arg)
}

/// Switch card function: opcode 6 with a fixed mode-selecting argument.
pub fn switch_function(arg: u32) -> (c: Command)
    ensures
        c.spec_opcode() == 6,
        c.spec_arg() == arg,
        c.spec_resp_exp(),
        !c.spec_resp_long(),
        !c.spec_data_exp(),
        !c.spec_write(),
        !c.spec_clock_only(),
        c.wf(),
{
    with_r48(6, arg)
}

/// Set the bus width: application opcode 6; the argument 2 selects four data
/// lines.
pub fn set_bus_width(width: u32) -> (c: Command)
    ensures
        c.spec_opcode() == 6,
        c.spec_arg() == width,
        c.spec_resp_exp(),
        !c.spec_resp_long(),
        !c.spec_data_exp(),
        !c.spec_write(),
        !c.spec_clock_only(),
        c.wf(),
{
    with_r48(6, width)
}

/// Read one block: opcode 17, with a data phase toward the host.
pub fn read_single_block(lba: u32) -> (c: Command)
    ensures
        c.spec_opcode() == 17,
        c.spec_arg() == lba,
        c.spec_resp_exp(),
        !c.spec_resp_long(),
        c.spec_data_exp(),
        !c.spec_write(),
        !c.spec_clock_only(),
        c.wf(),
{
    Command {
        opcode: 17,
        arg: lba,
        resp_exp: true,
        resp_long: false,
        data_exp: true,
        write: false,
        clock_only: false,
    }
}

/// Write one block: opcode 24, with a data phase toward the card.
pub fn write_single_block(lba: u32) -> (c: Command)
    ensures
        c.spec_opcode() == 24,
        c.spec_arg() == lba,
        c.spec_resp_exp(),
        !c.spec_resp_long(),
        c.spec_data_exp(),
        c.spec_write(),
        !c.spec_clock_only(),
        c.wf(),
{
    Command {
        opcode: 24,
        arg: lba,
        resp_exp: true,
        resp_long: false,
        data_exp: true,
        write: true,
        clock_only: false,
    }
}

/// Abort a data transfer: opcode 12.
pub fn stop_transmission() -> (c: Command)
    ensures
        c.spec_opcode() == 12,
        c.spec_arg() == 0,
        c.spec_resp_exp(),
        !c.spec_resp_long(),
        !c.spec_data_exp(),
        !c.spec_write(),
        !c.spec_clock_only(),
        c.wf(),
{
    with_r48(12, 0)
}

/// Latch new clock settings: the update-clock-registers-only form of the
/// command word, with no response and no data phase.
pub fn up_clk() -> (c: Command)
    ensures
        c.spec_opcode() == 0,
        c.spec_arg() == 0,
        !c.spec_resp_exp(),
        !c.spec_resp_long(),
        !c.spec_data_exp(),
        !c.spec_write(),
        c.spec_clock_only(),
        c.wf(),
{
    Command {
        opcode: 0,
        arg: 0,
        resp_exp: false,
        resp_long: false,
        data_exp: false,
        write: false,
        clock_only: true,
    }
}

} // verus!
