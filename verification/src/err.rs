//! Fault taxonomy of the driver, and the interrupt-status fault classifier.

use vstd::prelude::*;

use crate::reg::INT_DATA_CRC;
use crate::reg::INT_DATA_READ_TIMEOUT;
use crate::reg::INT_END_BIT_ERR;
use crate::reg::INT_FIFO_ERR;
use crate::reg::INT_HARDWARE_LOCK;
use crate::reg::INT_RESPONSE_CRC;
use crate::reg::INT_RESPONSE_ERR;
use crate::reg::INT_RESPONSE_TIMEOUT;
use crate::reg::INT_START_BIT_ERR;

verus! {

/// Any fault the command engine or a transfer can surface.
#[derive(Debug, Clone, Copy, PartialEq, Eq, Structural)]
pub enum CardError {
    /// The card never came out of its power-up sequence, or the controller's
    /// hardware-configuration word held bits this driver does not know.
    CardInitErr,
    /// Hardware reported the condition through an interrupt-status bit.
    InterruptErr(Interrupt),
    /// A bounded wait exceeded its deadline.
    TimeoutErr(Timeout),
    /// The card failed to echo the voltage-check pattern and accept flag.
    VoltagePattern,
    /// A bulk transfer exceeded its single overall deadline.
    DataTransferTimeout,
}

/// Which bounded wait exceeded its deadline.
#[derive(Debug, Clone, Copy, PartialEq, Eq, Structural)]
pub enum Timeout {
    WaitReset,
    WaitCmdLine,
    WaitCmdDone,
    WaitDataLine,
    /// The FIFO reported more bytes than the destination could take.
    FifoStatus,
}

/// A condition the hardware reported through an interrupt-status bit.
#[derive(Debug, Clone, Copy, PartialEq, Eq, Structural)]
pub enum Interrupt {
    ResponseTimeout,
    ResponseErr,
    ResponseCrc,
    EndBitErr,
    StartBitErr,
    HardwareLock,
    Fifo,
    DataReadTimeout,
    DataCrc,
}

/// What `Interrupt::check` returns for a raw interrupt-status word: the six
/// data-path fault bits are tested in the fixed order data-CRC, data-read
/// timeout, FIFO, hardware lock, start bit, end bit, each match overwriting
/// the last, so the result is the *last* matching condition of that list.
pub open spec fn spec_check(mask: u32) -> Result<(), Interrupt> {
    if mask & INT_END_BIT_ERR != 0 {
        Err(Interrupt::EndBitErr)
    } else if mask & INT_START_BIT_ERR != 0 {
        Err(Interrupt::StartBitErr)
    } else if mask & INT_HARDWARE_LOCK != 0 {
        Err(Interrupt::HardwareLock)
    } else if mask & INT_FIFO_ERR != 0 {
        Err(Interrupt::Fifo)
    } else if mask & INT_DATA_READ_TIMEOUT != 0 {
        Err(Interrupt::DataReadTimeout)
    } else if mask & INT_DATA_CRC != 0 {
        Err(Interrupt::DataCrc)
    } else {
        Ok(())
    }
}

/// What `Interrupt::classify_response` returns: the first matching response
/// fault of the fixed priority timeout, error, CRC.
pub open spec fn spec_classify_response(mask: u32) -> Option<Interrupt> {
    if mask & INT_RESPONSE_TIMEOUT != 0 {
        Some(Interrupt::ResponseTimeout)
    } else if mask & INT_RESPONSE_ERR != 0 {
        Some(Interrupt::ResponseErr)
    } else if mask & INT_RESPONSE_CRC != 0 {
        Some(Interrupt::ResponseCrc)
    } else {
        None
    }
}

impl Interrupt {
    /// Classify a raw interrupt-status word into at most one data-path fault.
    /// Later tests in the fixed order overwrite earlier matches, so callers
    /// receive only the last matching condition even when several bits are
    /// set at once.
    pub fn check(mask: u32) -> (r: Result<(), Interrupt>)
        ensures
            r == spec_check(mask),
    {
        let mut ret: Result<(), Interrupt> = Ok(());
        if mask & INT_DATA_CRC != 0 {
            ret = Err(Interrupt::DataCrc);
        }
        if mask & INT_DATA_READ_TIMEOUT != 0 {
            ret = Err(Interrupt::DataReadTimeout);
        }
        if mask & INT_FIFO_ERR != 0 {
            ret = Err(Interrupt::Fifo);
        }
        if mask & INT_HARDWARE_LOCK != 0 {
            ret = Err(Interrupt::HardwareLock);
        }
        if mask & INT_START_BIT_ERR != 0 {
            ret = Err(Interrupt::StartBitErr);
        }
        if mask & INT_END_BIT_ERR != 0 {
            ret = Err(Interrupt::EndBitErr);
        }
        ret
    }

    /// Classify the response-fault bits of an interrupt-status word, in the
    /// fixed priority response-timeout, response-error, response-CRC-error:
    /// the first match wins, unlike the data-path classifier above.
    pub fn classify_response(mask: u32) -> (r: Option<Interrupt>)
        ensures
            r == spec_classify_response(mask),
    {
        if mask & INT_RESPONSE_TIMEOUT != 0 {
            Some(Interrupt::ResponseTimeout)
        } else if mask & INT_RESPONSE_ERR != 0 {
            Some(Interrupt::ResponseErr)
        } else if mask & INT_RESPONSE_CRC != 0 {
            Some(Interrupt::ResponseCrc)
        } else {
            None
        }
    }

    /// Law: the classifier's precedence is last-match-wins.  A status word
    /// with both the data-CRC-error and the end-bit-error bits set classifies
    /// as the end-bit error, the later test of the fixed order, not as the
    /// data-CRC error.
    pub proof fn lemma_last_match_wins(mask: u32)
        requires
            mask & INT_DATA_CRC != 0,
            mask & INT_END_BIT_ERR != 0,
        ensures
            spec_check(mask) == Result::<(), Interrupt>::Err(Interrupt::EndBitErr),
    {
    }
}

/// Device status as the upstream block-device contract reports it.
#[derive(Debug, Clone, Copy, PartialEq, Eq, Structural)]
pub enum DeviceStatus {
    Uninitialized,
    Idle,
    Error,
}

/// The generic error surfaced over the upstream block-device contract.
#[derive(Debug, Clone, Copy, PartialEq, Eq, Structural)]
pub enum DeviceError {
    InvalidConfiguration,
    IoError,
    Timeout,
    UnsupportedOperation,
}

/// How each driver fault maps to the generic error of the upstream contract.
pub open spec fn spec_device_error_of(e: CardError) -> DeviceError {
    match e {
        CardError::CardInitErr => DeviceError::InvalidConfiguration,
        CardError::InterruptErr(_) => DeviceError::IoError,
        CardError::TimeoutErr(_) => DeviceError::Timeout,
        CardError::VoltagePattern => DeviceError::UnsupportedOperation,
        CardError::DataTransferTimeout => DeviceError::IoError,
    }
}

impl From<CardError> for DeviceError {
    fn from(value: CardError) -> (r: Self) {
        match value {
            CardError::CardInitErr => DeviceError::InvalidConfiguration,
            CardError::InterruptErr(_) => DeviceError::IoError,
            CardError::TimeoutErr(_) => DeviceError::Timeout,
            CardError::VoltagePattern => DeviceError::UnsupportedOperation,
            CardError::DataTransferTimeout => DeviceError::IoError,
        }
    }
}

impl vstd::std_specs::convert::FromSpecImpl<CardError> for DeviceError {
    open spec fn obeys_from_spec() -> bool {
        true
    }

    open spec fn from_spec(v: CardError) -> Self {
        spec_device_error_of(v)
    }
}

impl From<Timeout> for CardError {
    fn from(value: Timeout) -> (r: Self) {
        CardError::TimeoutErr(value)
    }
}

impl vstd::std_specs::convert::FromSpecImpl<Timeout> for CardError {
    open spec fn obeys_from_spec() -> bool {
        true
    }

    open spec fn from_spec(v: Timeout) -> Self {
        CardError::TimeoutErr(v)
    }
}

impl From<Interrupt> for CardError {
    fn from(value: Interrupt) -> (r: Self) {
        CardError::InterruptErr(value)
    }
}

impl vstd::std_specs::convert::FromSpecImpl<Interrupt> for CardError {
    open spec fn obeys_from_spec() -> bool {
        true
    }

    open spec fn from_spec(v: Interrupt) -> Self {
        CardError::InterruptErr(v)
    }
}

} // verus!
