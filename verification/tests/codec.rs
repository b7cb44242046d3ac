//! The pure pieces: fault classifier precedence, response decoding, command
//! encoding, and the hardware-configuration parse.

use dw_mmc::cmd;
use dw_mmc::err::CardError;
use dw_mmc::err::DeviceError;
use dw_mmc::err::Interrupt;
use dw_mmc::err::Timeout;
use dw_mmc::sd_reg::HardConf;
use dw_mmc::sd_reg::Response;

#[test]
fn classifier_single_bits() {
    assert_eq!(Interrupt::check(0), Ok(()));
    assert_eq!(Interrupt::check(0x80), Err(Interrupt::DataCrc));
    assert_eq!(Interrupt::check(0x200), Err(Interrupt::DataReadTimeout));
    assert_eq!(Interrupt::check(0x800), Err(Interrupt::Fifo));
    assert_eq!(Interrupt::check(0x1000), Err(Interrupt::HardwareLock));
    assert_eq!(Interrupt::check(0x2000), Err(Interrupt::StartBitErr));
    assert_eq!(Interrupt::check(0x8000), Err(Interrupt::EndBitErr));
}

#[test]
fn classifier_ignores_unlisted_bits() {
    // Command-done, transfer-over, response faults: not data-path faults.
    assert_eq!(Interrupt::check(0x4 | 0x8 | 0x100 | 0x40 | 0x2), Ok(()));
}

#[test]
fn classifier_last_match_wins() {
    // Both data-CRC and end-bit set: the later test of the fixed order wins.
    assert_eq!(Interrupt::check(0x80 | 0x8000), Err(Interrupt::EndBitErr));
    // Data-CRC with data-read-timeout: the timeout is tested later.
    assert_eq!(Interrupt::check(0x80 | 0x200), Err(Interrupt::DataReadTimeout));
    // All six at once: the end-bit error is the last tested.
    assert_eq!(
        Interrupt::check(0x80 | 0x200 | 0x800 | 0x1000 | 0x2000 | 0x8000),
        Err(Interrupt::EndBitErr)
    );
}

#[test]
fn response_classifier_first_match_wins() {
    assert_eq!(Interrupt::classify_response(0), None);
    assert_eq!(
        Interrupt::classify_response(0x100),
        Some(Interrupt::ResponseTimeout)
    );
    assert_eq!(
        Interrupt::classify_response(0x2),
        Some(Interrupt::ResponseErr)
    );
    assert_eq!(
        Interrupt::classify_response(0x40),
        Some(Interrupt::ResponseCrc)
    );
    assert_eq!(
        Interrupt::classify_response(0x100 | 0x2 | 0x40),
        Some(Interrupt::ResponseTimeout)
    );
    assert_eq!(
        Interrupt::classify_response(0x2 | 0x40),
        Some(Interrupt::ResponseErr)
    );
}

#[test]
fn long_response_preserves_word_order() {
    let resp = Response::R136(0x11111111, 0x22222222, 0x33333333, 0x44444444);
    let cid = resp.cid();
    assert_eq!(
        (cid.w0, cid.w1, cid.w2, cid.w3),
        (0x11111111, 0x22222222, 0x33333333, 0x44444444)
    );
    let csd = resp.csd();
    assert_eq!(
        (csd.w0, csd.w1, csd.w2, csd.w3),
        (0x11111111, 0x22222222, 0x33333333, 0x44444444)
    );
}

#[test]
fn ocr_bits() {
    let resp = Response::R48(0xC1FF8000);
    let ocr = resp.ocr();
    assert!(!ocr.is_busy());
    assert!(ocr.high_capacity());
    assert!(ocr.v18_allowed());
    let busy = Response::R48(0x00FF8000).ocr();
    assert!(busy.is_busy());
    assert!(!busy.high_capacity());
    assert!(!busy.v18_allowed());
}

#[test]
fn cic_echo_fields() {
    let cic = Response::R48(0x1AA).cic();
    assert_eq!(cic.voltage_accepted(), 1);
    assert_eq!(cic.pattern(), 0xAA);
    let other = Response::R48(0x2A5).cic();
    assert_eq!(other.voltage_accepted(), 2);
    assert_eq!(other.pattern(), 0xA5);
}

#[test]
fn rca_address_field() {
    let rca = Response::R48(0xABCD1234).rca();
    assert_eq!(rca.address(), 0xABCD0000);
}

#[test]
fn command_words() {
    // Start and wait-previous-data bits alone for the bare idle command.
    let c = cmd::idle();
    assert_eq!(c.cmd(), 0x8000_2000);
    assert_eq!(c.arg(), 0);
    assert!(!c.resp_exp());
    // Single-block read: index 17, response expected with CRC check, data.
    let c = cmd::read_single_block(5);
    assert_eq!(c.cmd(), 0x8000_2000 | 17 | 0x40 | 0x100 | 0x200);
    assert_eq!(c.arg(), 5);
    assert!(c.data_exp());
    // Single-block write adds the direction bit.
    let c = cmd::write_single_block(9);
    assert_eq!(c.cmd(), 0x8000_2000 | 24 | 0x40 | 0x100 | 0x200 | 0x400);
    // The voltage check echoes the supply nibble and pattern.
    let c = cmd::send_if_cond(1, 0xAA);
    assert_eq!(c.arg(), 0x1AA);
    // The long-response identification command.
    let c = cmd::all_send_cid();
    assert_eq!(c.cmd(), 0x8000_2000 | 2 | 0x40 | 0x100 | 0x80);
    assert!(c.resp_long());
    // Operating conditions: high-capacity and 1.8V bits over the window.
    let c = cmd::sd_send_op_cond(true, true);
    assert_eq!(c.arg(), 0x40000000 | 0x01000000 | 0x00FF8000);
    // The clock-update form.
    let c = cmd::up_clk();
    assert_eq!(c.cmd(), 0x8000_2000 | 0x20_0000);
}

#[test]
fn hardware_configuration_parse() {
    assert_eq!(HardConf::parse(0).unwrap().raw, 0);
    assert_eq!(HardConf::parse(0x07FF_FFFF).unwrap().raw, 0x07FF_FFFF);
    // A word with an unknown high bit is a structural fault, not an abort.
    assert_eq!(HardConf::parse(0x8000_0001), Err(CardError::CardInitErr));
}

#[test]
fn fault_to_generic_error_mapping() {
    assert_eq!(
        DeviceError::from(CardError::CardInitErr),
        DeviceError::InvalidConfiguration
    );
    assert_eq!(
        DeviceError::from(CardError::InterruptErr(Interrupt::DataCrc)),
        DeviceError::IoError
    );
    assert_eq!(
        DeviceError::from(CardError::TimeoutErr(Timeout::WaitCmdDone)),
        DeviceError::Timeout
    );
    assert_eq!(
        DeviceError::from(CardError::VoltagePattern),
        DeviceError::UnsupportedOperation
    );
    assert_eq!(
        DeviceError::from(CardError::DataTransferTimeout),
        DeviceError::IoError
    );
}

#[test]
fn fault_wrapping() {
    assert_eq!(
        CardError::from(Timeout::WaitReset),
        CardError::TimeoutErr(Timeout::WaitReset)
    );
    assert_eq!(
        CardError::from(Interrupt::Fifo),
        CardError::InterruptErr(Interrupt::Fifo)
    );
}
