//! Responses and their typed views: card status, operating conditions,
//! identification, card-specific data, relative address, interface condition,
//! and the controller's hardware-configuration word.
//!
//! Decoding is pure and side-effect-free; every accessor is a total function
//! of the raw words.

use vstd::prelude::*;

use crate::err::CardError;
use crate::reg::HCON_KNOWN_MASK;

verus! {

/// What assembling a response from the four response-register words gives,
/// per the command's flags: no response, the first word alone, or all four
/// words kept in exactly the order the registers carry them, lowest first.
pub open spec fn spec_assemble(resp_exp: bool, long: bool, w0: u32, w1: u32, w2: u32, w3: u32) -> Response {
    if !resp_exp {
        Response::Rz
    } else if long {
        Response::R136(w0, w1, w2, w3)
    } else {
        Response::R48(w0)
    }
}

/// Assemble a response from the four response-register words, lowest first.
pub fn assemble(resp_exp: bool, long: bool, w0: u32, w1: u32, w2: u32, w3: u32) -> (r: Response)
    ensures
        r == spec_assemble(resp_exp, long, w0, w1, w2, w3),
{
    if !resp_exp {
        Response::Rz
    } else if long {
        Response::R136(w0, w1, w2, w3)
    } else {
        Response::R48(w0)
    }
}

/// A command's response: none, one 48-bit word, or a 136-bit value carried
/// as the controller's four response words, lowest word first.
#[derive(Debug, Clone, Copy, PartialEq, Eq, Structural)]
pub enum Response {
    Rz,
    R48(u32),
    R136(u32, u32, u32, u32),
}

impl Response {
    /// The first (lowest) raw response word; zero where there is none.
    pub open spec fn spec_word(self) -> u32 {
        match self {
            Response::Rz => 0,
            Response::R48(v) => v,
            Response::R136(w0, w1, w2, w3) => w0,
        }
    }

    /// All four raw words, lowest first; missing words read as zero.
    pub open spec fn spec_words(self) -> (u32, u32, u32, u32) {
        match self {
            Response::Rz => (0, 0, 0, 0),
            Response::R48(v) => (v, 0, 0, 0),
            Response::R136(w0, w1, w2, w3) => (w0, w1, w2, w3),
        }
    }

    /// The first raw word as executable code sees it.
    pub fn word(&self) -> (v: u32)
        ensures
            v == self.spec_word(),
    {
        match self {
            Response::Rz => 0,
            Response::R48(v) => *v,
            Response::R136(w0, w1, w2, w3) => *w0,
        }
    }

    /// View the response as a card-status word.
    pub fn card_status(&self) -> (r: CardStatus)
        ensures
            r.raw == self.spec_word(),
    {
        CardStatus { raw: self.word() }
    }

    /// View the response as an operating-conditions word.
    pub fn ocr(&self) -> (r: Ocr)
        ensures
            r.raw == self.spec_word(),
    {
        Ocr { raw: self.word() }
    }

    /// View the response as a card-interface-condition word.
    pub fn cic(&self) -> (r: Cic)
        ensures
            r.raw == self.spec_word(),
    {
        Cic { raw: self.word() }
    }

    /// View the response as a published relative address.
    pub fn rca(&self) -> (r: Rca)
        ensures
            r.raw == self.spec_word(),
    {
        Rca { raw: self.word() }
    }

    /// View the response as card identification: the four raw words are kept
    /// in the exact order the controller presented them.
    pub fn cid(&self) -> (r: Cid)
        ensures
            (r.w0, r.w1, r.w2, r.w3) == self.spec_words(),
    {
        match self {
            Response::Rz => Cid { w0: 0, w1: 0, w2: 0, w3: 0 },
            Response::R48(v) => Cid { w0: *v, w1: 0, w2: 0, w3: 0 },
            Response::R136(w0, w1, w2, w3) => Cid { w0: *w0, w1: *w1, w2: *w2, w3: *w3 },
        }
    }

    /// View the response as card-specific data: the four raw words are kept
    /// in the exact order the controller presented them.
    pub fn csd(&self) -> (r: Csd)
        ensures
            (r.w0, r.w1, r.w2, r.w3) == self.spec_words(),
    {
        match self {
            Response::Rz => Csd { w0: 0, w1: 0, w2: 0, w3: 0 },
            Response::R48(v) => Csd { w0: *v, w1: 0, w2: 0, w3: 0 },
            Response::R136(w0, w1, w2, w3) => Csd { w0: *w0, w1: *w1, w2: *w2, w3: *w3 },
        }
    }
}

/// The card-status word of a 48-bit response.
#[derive(Debug, Clone, Copy, PartialEq, Eq, Structural)]
pub struct CardStatus {
    pub raw: u32,
}

/// The operating-conditions register reported by the card.
#[derive(Debug, Clone, Copy, PartialEq, Eq, Structural)]
pub struct Ocr {
    pub raw: u32,
}

impl Ocr {
    pub fn new() -> (r: Ocr)
        ensures
            r.raw == 0,
    {
        Ocr { raw: 0 }
    }

    /// The card is still busy powering up while the top bit reads zero.
    pub open spec fn spec_is_busy(self) -> bool {
        self.raw & 0x80000000 == 0
    }

    pub fn is_busy(&self) -> (b: bool)
        ensures
            b == self.spec_is_busy(),
    {
        self.raw & 0x80000000 == 0
    }

    /// The card-capacity-status bit: set on a high-capacity card.
    pub open spec fn spec_high_capacity(self) -> bool {
        self.raw & 0x40000000 != 0
    }

    pub fn high_capacity(&self) -> (b: bool)
        ensures
            b == self.spec_high_capacity(),
    {
        self.raw & 0x40000000 != 0
    }

    /// The card accepts switching to 1.8-volt signalling.
    pub open spec fn spec_v18_allowed(self) -> bool {
        self.raw & 0x01000000 != 0
    }

    pub fn v18_allowed(&self) -> (b: bool)
        ensures
            b == self.spec_v18_allowed(),
    {
        self.raw & 0x01000000 != 0
    }
}

/// The card-interface-condition response of the voltage check.
#[derive(Debug, Clone, Copy, PartialEq, Eq, Structural)]
pub struct Cic {
    pub raw: u32,
}

impl Cic {
    pub fn new() -> (r: Cic)
        ensures
            r.raw == 0,
    {
        Cic { raw: 0 }
    }

    /// The echoed voltage-accepted nibble.
    pub open spec fn spec_voltage_accepted(self) -> u32 {
        (self.raw >> 8) & 0xF
    }

    pub fn voltage_accepted(&self) -> (v: u32)
        ensures
            v == self.spec_voltage_accepted(),
    {
        (self.raw >> 8) & 0xF
    }

    /// The echoed check-pattern byte.
    pub open spec fn spec_pattern(self) -> u32 {
        self.raw & 0xFF
    }

    pub fn pattern(&self) -> (v: u32)
        ensures
            v == self.spec_pattern(),
    {
        self.raw & 0xFF
    }
}

/// The relative card address published during enumeration.
#[derive(Debug, Clone, Copy, PartialEq, Eq, Structural)]
pub struct Rca {
    pub raw: u32,
}

impl Rca {
    pub fn new() -> (r: Rca)
        ensures
            r.raw == 0,
    {
        Rca { raw: 0 }
    }

    /// The address field alone, already in the position card-addressing
    /// command arguments carry it in.
    pub open spec fn spec_address(self) -> u32 {
        self.raw & 0xFFFF0000
    }

    pub fn address(&self) -> (v: u32)
        ensures
            v == self.spec_address(),
    {
        self.raw & 0xFFFF0000
    }
}

/// The card-identification value, as the four raw response words.
#[derive(Debug, Clone, Copy, PartialEq, Eq, Structural)]
pub struct Cid {
    pub w0: u32,
    pub w1: u32,
    pub w2: u32,
    pub w3: u32,
}

impl Cid {
    pub fn new() -> (r: Cid)
        ensures
            r.w0 == 0 && r.w1 == 0 && r.w2 == 0 && r.w3 == 0,
    {
        Cid { w0: 0, w1: 0, w2: 0, w3: 0 }
    }

    /// The manufacturer identifier: the top byte of the 128-bit value.
    pub open spec fn spec_manufacturer_id(self) -> u32 {
        (self.w3 >> 24) & 0xFF
    }

    pub fn manufacturer_id(&self) -> (v: u32)
        ensures
            v == self.spec_manufacturer_id(),
    {
        (self.w3 >> 24) & 0xFF
    }
}

/// The card-specific-data value, as the four raw response words.
#[derive(Debug, Clone, Copy, PartialEq, Eq, Structural)]
pub struct Csd {
    pub w0: u32,
    pub w1: u32,
    pub w2: u32,
    pub w3: u32,
}

impl Csd {
    pub fn new() -> (r: Csd)
        ensures
            r.w0 == 0 && r.w1 == 0 && r.w2 == 0 && r.w3 == 0,
    {
        Csd { w0: 0, w1: 0, w2: 0, w3: 0 }
    }

    /// The structure-version field: the top two bits of the 128-bit value.
    pub open spec fn spec_structure_version(self) -> u32 {
        (self.w3 >> 30) & 0x3
    }

    pub fn structure_version(&self) -> (v: u32)
        ensures
            v == self.spec_structure_version(),
    {
        (self.w3 >> 30) & 0x3
    }
}

/// The controller's hardware-configuration word, kept only once its bits are
/// all known ones.
#[derive(Debug, Clone, Copy, PartialEq, Eq, Structural)]
pub struct HardConf {
    pub raw: u32,
}

impl HardConf {
    pub fn new() -> (r: HardConf)
        ensures
            r.raw == 0,
    {
        HardConf { raw: 0 }
    }

    /// Fallible parse of the hardware-configuration register: a word with a
    /// bit outside the known mask is rejected as a structural fault rather
    /// than ending the program.
    pub fn parse(v: u32) -> (r: Result<HardConf, CardError>)
        ensures
            v & !HCON_KNOWN_MASK == 0 <==> r is Ok,
            r is Ok ==> r->Ok_0.raw == v,
            r is Err ==> r->Err_0 == CardError::CardInitErr,
    {
        if v & !HCON_KNOWN_MASK == 0 {
            Ok(HardConf { raw: v })
        } else {
            Err(CardError::CardInitErr)
        }
    }
}

} // verus!
