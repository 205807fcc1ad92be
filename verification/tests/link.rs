//! Framing, sleep gating and the single commands, on given traffic.

use std::io::ErrorKind;
use std::time::Duration;

use embedded_hal::serial::{Read, Write};
use embedded_hal_mock::serial::{Mock as SerialMock, Transaction};
use embedded_hal_mock::MockError;

use rn2xx3::errors::{Error, JoinError, TxError};
use rn2xx3::transport::Transport;
use rn2xx3::{
    rn2483_433, rn2483_868, rn2903_915, ConfirmationMode, DataRateEuCn, DataRateUs, Downlink,
    Driver, Freq868, JoinMode, Model,
};

/// A scripted serial port as the link of the driver: reads and writes wait
/// while the port would block, polls do not.
struct Link(SerialMock<u8>);

impl Transport for Link {
    type Error = MockError;

    fn write(&mut self, byte: u8) -> Result<(), MockError> {
        loop {
            match self.0.write(byte) {
                Ok(()) => return Ok(()),
                Err(nb::Error::WouldBlock) => {}
                Err(nb::Error::Other(e)) => return Err(e),
            }
        }
    }

    fn read(&mut self) -> Result<u8, MockError> {
        loop {
            match self.0.read() {
                Ok(byte) => return Ok(byte),
                Err(nb::Error::WouldBlock) => {}
                Err(nb::Error::Other(e)) => return Err(e),
            }
        }
    }

    fn poll(&mut self) -> Result<Option<u8>, MockError> {
        match self.0.read() {
            Ok(byte) => Ok(Some(byte)),
            Err(nb::Error::WouldBlock) => Ok(None),
            Err(nb::Error::Other(e)) => Err(e),
        }
    }
}

fn broken_pipe() -> MockError {
    MockError::Io(ErrorKind::BrokenPipe)
}

fn script(expectations: &[Transaction<u8>]) -> (SerialMock<u8>, Driver<Freq868, Link>) {
    let mock = SerialMock::new(expectations);
    let rn = rn2483_868(Link(mock.clone()));
    (mock, rn)
}

fn asleep() -> (SerialMock<u8>, Driver<Freq868, Link>) {
    let (mock, mut rn) = script(&[Transaction::write_many(b"sys sleep 1000\r\n")]);
    rn.sleep(Duration::from_secs(1)).unwrap();
    assert!(rn.is_asleep());
    (mock, rn)
}

// Line reading

#[test]
fn read_line_strips_terminator() {
    let (mut mock, mut rn) = script(&[Transaction::read_many(b"hello world\r\n")]);
    assert_eq!(rn.read_line(), Ok(&b"hello world"[..]));
    mock.done();
}

#[test]
fn read_line_empty_line() {
    let (mut mock, mut rn) = script(&[Transaction::read_many(b"\r\n")]);
    assert_eq!(rn.read_line(), Ok(&b""[..]));
    mock.done();
}

#[test]
fn read_line_lone_line_feed_is_stored() {
    let (mut mock, mut rn) = script(&[Transaction::read_many(b"\na\nb\r\n")]);
    assert_eq!(rn.read_line(), Ok(&b"\na\nb"[..]));
    mock.done();
}

#[test]
fn read_line_lone_carriage_return_is_stored() {
    let (mut mock, mut rn) = script(&[Transaction::read_many(b"a\rb\r\r\n")]);
    assert_eq!(rn.read_line(), Ok(&b"a\rb\r"[..]));
    mock.done();
}

#[test]
fn read_line_stops_at_first_terminator() {
    let (mut mock, mut rn) = script(&[Transaction::read_many(b"one\r\ntwo\r\n")]);
    assert_eq!(rn.read_line(), Ok(&b"one"[..]));
    assert_eq!(rn.read_line(), Ok(&b"two"[..]));
    mock.done();
}

#[test]
fn read_line_longest_line_that_fits() {
    let mut traffic = vec![b'x'; 62];
    traffic.extend_from_slice(b"\r\n");
    let (mut mock, mut rn) = script(&[Transaction::read_many(&traffic)]);
    assert_eq!(rn.read_line(), Ok(&[b'x'; 62][..]));
    mock.done();
}

#[test]
fn read_line_buffer_too_small() {
    // 63 bytes and a carriage return fill the buffer; the line feed is
    // never asked for.
    let mut traffic = vec![b'x'; 63];
    traffic.push(b'\r');
    let (mut mock, mut rn) = script(&[Transaction::read_many(&traffic)]);
    assert_eq!(rn.read_line(), Err(Error::ReadBufferTooSmall));
    mock.done();
}

#[test]
fn read_line_buffer_too_small_without_any_terminator() {
    let (mut mock, mut rn) = script(&[Transaction::read_many([b'y'; 64])]);
    assert_eq!(rn.read_line(), Err(Error::ReadBufferTooSmall));
    mock.done();
}

#[test]
fn read_line_read_error_is_handed_on() {
    let (mut mock, mut rn) = script(&[
        Transaction::read_many(b"ab"),
        Transaction::read_error(nb::Error::Other(broken_pipe())),
    ]);
    assert_eq!(rn.read_line(), Err(Error::SerialRead(broken_pipe())));
    mock.done();
}

#[test]
fn read_line_waits_while_port_would_block() {
    let (mut mock, mut rn) = script(&[
        Transaction::read_error(nb::Error::WouldBlock),
        Transaction::read_many(b"o"),
        Transaction::read_error(nb::Error::WouldBlock),
        Transaction::read_error(nb::Error::WouldBlock),
        Transaction::read_many(b"k\r\n"),
    ]);
    assert_eq!(rn.read_line(), Ok(&b"ok"[..]));
    mock.done();
}

// Writing and command framing

#[test]
fn write_all_and_crlf() {
    let (mut mock, mut rn) = script(&[Transaction::write_many(b"123\r\n")]);
    assert_eq!(rn.write_all(b"123"), Ok(()));
    assert_eq!(rn.write_all(b""), Ok(()));
    assert_eq!(rn.write_crlf(), Ok(()));
    mock.done();
}

#[test]
fn write_all_stops_at_first_error() {
    let (mut mock, mut rn) = script(&[
        Transaction::write_many(b"12"),
        Transaction::write_error(b'3', nb::Error::Other(broken_pipe())),
    ]);
    assert_eq!(rn.write_all(b"12345"), Err(Error::SerialWrite(broken_pipe())));
    mock.done();
}

#[test]
fn write_waits_while_port_would_block() {
    let (mut mock, mut rn) = script(&[
        Transaction::write_error(b'a', nb::Error::WouldBlock),
        Transaction::write_many(b"ab"),
    ]);
    assert_eq!(rn.write_all(b"ab"), Ok(()));
    mock.done();
}

#[test]
fn ensure_not_in_sleep_mode_follows_flag() {
    let (mut mock, rn) = script(&[]);
    assert_eq!(rn.ensure_not_in_sleep_mode(), Ok(()));
    mock.done();
    let (mut mock, rn) = asleep();
    assert_eq!(rn.ensure_not_in_sleep_mode(), Err(Error::SleepMode));
    mock.done();
}

#[test]
fn send_raw_command_nowait_joins_fragments() {
    let (mut mock, mut rn) = script(&[Transaction::write_many(b"mac set adr on\r\n")]);
    assert_eq!(rn.send_raw_command_nowait(&["mac ", "", "set adr", " ", "on"]), Ok(()));
    mock.done();
}

#[test]
fn send_raw_command_nowait_empty_command_is_a_bare_terminator() {
    let (mut mock, mut rn) = script(&[Transaction::write_many(b"\r\n")]);
    assert_eq!(rn.send_raw_command_nowait(&[]), Ok(()));
    mock.done();
}

#[test]
fn send_raw_command_nowait_write_error_in_terminator() {
    let (mut mock, mut rn) = script(&[
        Transaction::write_many(b"ab\r"),
        Transaction::write_error(b'\n', nb::Error::Other(broken_pipe())),
    ]);
    assert_eq!(
        rn.send_raw_command_nowait(&["a", "b"]),
        Err(Error::SerialWrite(broken_pipe()))
    );
    mock.done();
}

#[test]
fn send_raw_command_returns_raw_bytes() {
    let (mut mock, mut rn) = script(&[
        Transaction::write_many(b"sys get ver\r\n"),
        Transaction::read_many(b"\xff\xfe\r\n"),
    ]);
    assert_eq!(rn.send_raw_command(&["sys get ver"]), Ok(&b"\xff\xfe"[..]));
    mock.done();
}

#[test]
fn send_raw_command_does_not_read_after_write_error() {
    let (mut mock, mut rn) = script(&[Transaction::write_error(
        b's',
        nb::Error::Other(broken_pipe()),
    )]);
    assert_eq!(
        rn.send_raw_command(&["sys get ver"]),
        Err(Error::SerialWrite(broken_pipe()))
    );
    mock.done();
}

#[test]
fn send_raw_command_str_encoding_error() {
    let (mut mock, mut rn) = script(&[
        Transaction::write_many(b"sys get ver\r\n"),
        Transaction::read_many(b"RN\xff\r\n"),
    ]);
    assert_eq!(rn.send_raw_command_str(&["sys get ver"]), Err(Error::EncodingError));
    mock.done();
}

#[test]
fn send_raw_command_str_keeps_non_ascii_text() {
    let (mut mock, mut rn) = script(&[
        Transaction::write_many("grüß\r\n".as_bytes()),
        Transaction::read_many("jó\r\n".as_bytes()),
    ]);
    assert_eq!(rn.send_raw_command_str(&["grüß"]), Ok("jó"));
    mock.done();
}

#[test]
fn command_failed_when_not_acknowledged() {
    let (mut mock, mut rn) = script(&[
        Transaction::write_many(b"mac save\r\n"),
        Transaction::read_many(b"invalid_param\r\n"),
    ]);
    assert_eq!(rn.save_config(), Err(Error::CommandFailed));
    mock.done();
}

#[test]
fn save_config_acknowledged() {
    let (mut mock, mut rn) = script(&[
        Transaction::write_many(b"mac save\r\n"),
        Transaction::read_many(b"ok\r\n"),
    ]);
    assert_eq!(rn.save_config(), Ok(()));
    mock.done();
}

// Sleep gating

#[test]
fn commands_are_refused_while_asleep() {
    let (mut mock, mut rn) = asleep();
    assert_eq!(rn.hweui(), Err(Error::SleepMode));
    assert_eq!(rn.version(), Err(Error::SleepMode));
    assert_eq!(rn.reset(), Err(Error::SleepMode));
    assert_eq!(rn.factory_reset(), Err(Error::SleepMode));
    assert_eq!(rn.model(), Err(Error::SleepMode));
    assert_eq!(rn.vdd(), Err(Error::SleepMode));
    assert_eq!(rn.save_config(), Err(Error::SleepMode));
    assert_eq!(rn.set_adr(true), Err(Error::SleepMode));
    assert_eq!(rn.get_adr(), Err(Error::SleepMode));
    assert_eq!(rn.set_upctr(1), Err(Error::SleepMode));
    assert_eq!(rn.get_dnctr(), Err(Error::SleepMode));
    assert_eq!(rn.nvm_set(0x300, 1), Err(Error::SleepMode));
    assert_eq!(rn.nvm_get(0x300), Err(Error::SleepMode));
    assert_eq!(rn.set_dev_addr_hex("010203ff"), Err(Error::SleepMode));
    assert_eq!(rn.set_dev_addr_slice(&[1, 2, 3, 4]), Err(Error::SleepMode));
    assert_eq!(rn.get_dev_addr_slice(), Err(Error::SleepMode));
    assert_eq!(rn.set_data_rate(DataRateEuCn::Sf7Bw125), Err(Error::SleepMode));
    assert_eq!(rn.get_data_rate(), Err(Error::SleepMode));
    assert_eq!(rn.send_raw_command_nowait(&["x"]), Err(Error::SleepMode));
    assert_eq!(rn.send_raw_command_nowait(&[]), Err(Error::SleepMode));
    assert_eq!(rn.send_raw_command(&["x"]), Err(Error::SleepMode));
    assert_eq!(rn.send_raw_command_str(&["x"]), Err(Error::SleepMode));
    assert_eq!(rn.sleep(Duration::from_secs(1)), Err(Error::SleepMode));
    assert_eq!(rn.join(JoinMode::Otaa), Err(JoinError::Other(Error::SleepMode)));
    assert_eq!(
        rn.transmit_hex(ConfirmationMode::Confirmed, 1, "00"),
        Err(TxError::Other(Error::SleepMode))
    );
    assert_eq!(
        rn.transmit_slice(ConfirmationMode::Confirmed, 1, &[0]),
        Err(TxError::Other(Error::SleepMode))
    );
    assert!(rn.is_asleep());
    mock.done();
}

#[test]
fn bad_parameters_are_refused_first_while_asleep() {
    let (mut mock, mut rn) = asleep();
    assert_eq!(
        rn.transmit_hex(ConfirmationMode::Confirmed, 0, "00"),
        Err(TxError::BadParameter)
    );
    assert_eq!(
        rn.transmit_hex(ConfirmationMode::Confirmed, 1, "0"),
        Err(TxError::BadParameter)
    );
    assert_eq!(rn.nvm_get(0x2ff), Err(Error::BadParameter));
    assert_eq!(rn.set_dev_addr_hex("0"), Err(Error::BadParameter));
    assert_eq!(rn.sleep(Duration::from_millis(1)), Err(Error::BadParameter));
    mock.done();
}

#[test]
fn wake_up_lets_writes_through_again() {
    let expectations = [
        Transaction::write_many(b"sys sleep 100\r\n"),
        Transaction::read_many(b"ok\r\n"),
        Transaction::write_many(b"123\r\n"),
    ];
    let (mut mock, mut rn) = script(&expectations);
    rn.sleep(Duration::from_millis(100)).unwrap();
    assert_eq!(rn.write_all(b"123"), Err(Error::SleepMode));
    assert_eq!(rn.wait_for_wakeup(false), Ok(()));
    assert!(!rn.is_asleep());
    assert_eq!(rn.write_all(b"123"), Ok(()));
    assert_eq!(rn.write_crlf(), Ok(()));
    mock.done();
}

#[test]
fn wake_up_with_unexpected_line_lets_writes_through_again() {
    let expectations = [
        Transaction::write_many(b"sys sleep 100\r\n"),
        Transaction::read_many(b"\r\n"),
        Transaction::write_many(b"\r\n"),
    ];
    let (mut mock, mut rn) = script(&expectations);
    rn.sleep(Duration::from_millis(100)).unwrap();
    assert_eq!(rn.wait_for_wakeup(false), Err(Error::ParsingError));
    assert!(!rn.is_asleep());
    assert_eq!(rn.write_crlf(), Ok(()));
    mock.done();
}

#[test]
fn wake_up_read_error_keeps_flag() {
    let expectations = [
        Transaction::write_many(b"sys sleep 100\r\n"),
        Transaction::read_error(nb::Error::Other(broken_pipe())),
    ];
    let (mut mock, mut rn) = script(&expectations);
    rn.sleep(Duration::from_millis(100)).unwrap();
    assert_eq!(rn.wait_for_wakeup(false), Err(Error::SerialRead(broken_pipe())));
    assert!(rn.is_asleep());
    mock.done();
}

#[test]
fn forced_wake_up_that_cannot_read_keeps_flag_clear() {
    let (mut mock, mut rn) = script(&[Transaction::read_many([b'x'; 64])]);
    assert_eq!(rn.wait_for_wakeup(true), Err(Error::ReadBufferTooSmall));
    assert!(!rn.is_asleep());
    mock.done();
}

#[test]
fn sleep_write_error_keeps_flag_clear() {
    let (mut mock, mut rn) = script(&[Transaction::write_error(
        b's',
        nb::Error::Other(broken_pipe()),
    )]);
    assert_eq!(
        rn.sleep(Duration::from_secs(1)),
        Err(Error::SerialWrite(broken_pipe()))
    );
    assert!(!rn.is_asleep());
    mock.done();
}

#[test]
fn sleep_duration_in_milliseconds() {
    let (mut mock, mut rn) = script(&[Transaction::write_many(b"sys sleep 4294967295\r\n")]);
    assert_eq!(rn.sleep(Duration::new(4_294_967, 295_999_999)), Ok(()));
    mock.done();

    let (mut mock, mut rn) = script(&[Transaction::write_many(b"sys sleep 1234\r\n")]);
    assert_eq!(rn.sleep(Duration::new(1, 234_567_890)), Ok(()));
    mock.done();

    let (mut mock, mut rn) = script(&[Transaction::write_many(b"sys sleep 60000\r\n")]);
    assert_eq!(rn.sleep(Duration::from_secs(60)), Ok(()));
    mock.done();

    let (mut mock, mut rn) = script(&[]);
    assert_eq!(rn.sleep(Duration::new(0, 99_999_999)), Err(Error::BadParameter));
    assert_eq!(rn.sleep(Duration::new(4_294_967, 296_000_000)), Err(Error::BadParameter));
    assert_eq!(rn.sleep(Duration::new(4_294_968, 0)), Err(Error::BadParameter));
    assert_eq!(rn.sleep(Duration::from_secs(u64::MAX)), Err(Error::BadParameter));
    assert!(!rn.is_asleep());
    mock.done();
}

// Resynchronization

#[test]
fn ensure_known_state_one_probe_when_answered_at_once() {
    let (mut mock, mut rn) = script(&[
        Transaction::read_error(nb::Error::WouldBlock),
        Transaction::write_many(b"z\r\n"),
        Transaction::read_many(b"invalid_param\r\n"),
    ]);
    assert_eq!(rn.ensure_known_state(), Ok(()));
    mock.done();
}

#[test]
fn ensure_known_state_three_probes_then_invalid_state() {
    let (mut mock, mut rn) = script(&[
        Transaction::read_error(nb::Error::WouldBlock),
        Transaction::write_many(b"z\r\n"),
        Transaction::read_many(b"\r\n"),
        Transaction::write_many(b"z\r\n"),
        Transaction::read_many(b"invalid_para\r\n"),
        Transaction::write_many(b"z\r\n"),
        Transaction::read_many(b"invalid_param \r\n"),
    ]);
    assert_eq!(rn.ensure_known_state(), Err(Error::InvalidState));
    mock.done();
}

#[test]
fn ensure_known_state_write_error_is_handed_on() {
    let (mut mock, mut rn) = script(&[
        Transaction::read_many(b"junk"),
        Transaction::read_error(nb::Error::WouldBlock),
        Transaction::write_many(b"z\r\n"),
        Transaction::read_many(b"what\r\n"),
        Transaction::write_many(b"z"),
        Transaction::write_error(b'\r', nb::Error::Other(broken_pipe())),
    ]);
    assert_eq!(rn.ensure_known_state(), Err(Error::SerialWrite(broken_pipe())));
    mock.done();
}

#[test]
fn ensure_known_state_read_error_in_probe_is_handed_on() {
    let (mut mock, mut rn) = script(&[
        Transaction::read_error(nb::Error::WouldBlock),
        Transaction::write_many(b"z\r\n"),
        Transaction::read_many(b"inv"),
        Transaction::read_error(nb::Error::Other(broken_pipe())),
    ]);
    assert_eq!(rn.ensure_known_state(), Err(Error::SerialRead(broken_pipe())));
    mock.done();
}

#[test]
fn ensure_known_state_read_error_after_discarded_bytes() {
    let (mut mock, mut rn) = script(&[
        Transaction::read_many(b"ab"),
        Transaction::read_error(nb::Error::Other(broken_pipe())),
    ]);
    assert_eq!(rn.ensure_known_state(), Err(Error::SerialRead(broken_pipe())));
    mock.done();
}

#[test]
fn ensure_known_state_asleep_discards_but_does_not_write() {
    let expectations = [
        Transaction::write_many(b"sys sleep 1000\r\n"),
        Transaction::read_many(b"stale"),
        Transaction::read_error(nb::Error::WouldBlock),
    ];
    let (mut mock, mut rn) = script(&expectations);
    rn.sleep(Duration::from_secs(1)).unwrap();
    assert_eq!(rn.ensure_known_state(), Err(Error::SleepMode));
    assert!(rn.is_asleep());
    mock.done();
}

// System commands

#[test]
fn text_queries() {
    let (mut mock, mut rn) = script(&[
        Transaction::write_many(b"sys reset\r\n"),
        Transaction::read_many(b"RN2483 1.0.3\r\n"),
        Transaction::write_many(b"sys factoryRESET\r\n"),
        Transaction::read_many(b"RN2483 1.0.4\r\n"),
        Transaction::write_many(b"sys get hweui\r\n"),
        Transaction::read_many(b"0004A30B001A55ED\r\n"),
        Transaction::write_many(b"mac get devaddr\r\n"),
        Transaction::read_many(b"010203ff\r\n"),
        Transaction::write_many(b"mac get appeui\r\n"),
        Transaction::read_many(b"\r\n"),
    ]);
    assert_eq!(rn.reset(), Ok("RN2483 1.0.3"));
    assert_eq!(rn.factory_reset(), Ok("RN2483 1.0.4"));
    assert_eq!(rn.hweui(), Ok("0004A30B001A55ED"));
    assert_eq!(rn.get_dev_addr_hex(), Ok("010203ff"));
    assert_eq!(rn.get_app_eui_hex(), Ok(""));
    mock.done();
}

#[test]
fn model_needs_the_name_at_the_start() {
    for version in [&b"RN248"[..], b"", b" RN2483", b"rn2483 1.0.3", b"RN2484", "RN248é".as_bytes()] {
        let mut reply = version.to_vec();
        reply.extend_from_slice(b"\r\n");
        let (mut mock, mut rn) = script(&[
            Transaction::write_many(b"sys get ver\r\n"),
            Transaction::read_many(&reply),
        ]);
        assert_eq!(rn.model(), Err(Error::ParsingError));
        mock.done();
    }
    let (mut mock, mut rn) = script(&[
        Transaction::write_many(b"sys get ver\r\n"),
        Transaction::read_many(b"RN2903\r\n"),
        Transaction::write_many(b"sys get ver\r\n"),
        Transaction::read_many(b"RN2483\xff\r\n"),
    ]);
    assert_eq!(rn.model(), Ok(Model::RN2903));
    assert_eq!(rn.model(), Err(Error::EncodingError));
    mock.done();
}

#[test]
fn vdd_in_millivolts() {
    let (mut mock, mut rn) = script(&[
        Transaction::write_many(b"sys get vdd\r\n"),
        Transaction::read_many(b"3300\r\n"),
        Transaction::write_many(b"sys get vdd\r\n"),
        Transaction::read_many(b"65535\r\n"),
        Transaction::write_many(b"sys get vdd\r\n"),
        Transaction::read_many(b"65536\r\n"),
        Transaction::write_many(b"sys get vdd\r\n"),
        Transaction::read_many(b"3.3V\r\n"),
        Transaction::write_many(b"sys get vdd\r\n"),
        Transaction::read_many(b"\r\n"),
    ]);
    assert_eq!(rn.vdd(), Ok(3300));
    assert_eq!(rn.vdd(), Ok(65535));
    assert_eq!(rn.vdd(), Err(Error::ParsingError));
    assert_eq!(rn.vdd(), Err(Error::ParsingError));
    assert_eq!(rn.vdd(), Err(Error::ParsingError));
    mock.done();
}

#[test]
fn nvm_address_range() {
    let (mut mock, mut rn) = script(&[]);
    assert_eq!(rn.nvm_set(0x2ff, 0), Err(Error::BadParameter));
    assert_eq!(rn.nvm_set(0x400, 0), Err(Error::BadParameter));
    assert_eq!(rn.nvm_set(0, 0), Err(Error::BadParameter));
    assert_eq!(rn.nvm_set(0xffff, 0), Err(Error::BadParameter));
    assert_eq!(rn.nvm_get(0x2ff), Err(Error::BadParameter));
    assert_eq!(rn.nvm_get(0x400), Err(Error::BadParameter));
    mock.done();
}

#[test]
fn nvm_set_writes_address_and_byte_in_hex() {
    let (mut mock, mut rn) = script(&[
        Transaction::write_many(b"sys set nvm 300 00\r\n"),
        Transaction::read_many(b"ok\r\n"),
        Transaction::write_many(b"sys set nvm 3ff ff\r\n"),
        Transaction::read_many(b"ok\r\n"),
        Transaction::write_many(b"sys set nvm 30a 0f\r\n"),
        Transaction::read_many(b"invalid_param\r\n"),
    ]);
    assert_eq!(rn.nvm_set(0x300, 0), Ok(()));
    assert_eq!(rn.nvm_set(0x3ff, 0xff), Ok(()));
    assert_eq!(rn.nvm_set(0x30a, 0x0f), Err(Error::CommandFailed));
    mock.done();
}

#[test]
fn nvm_get_reads_one_byte_in_hex() {
    let (mut mock, mut rn) = script(&[
        Transaction::write_many(b"sys get nvm 3ff\r\n"),
        Transaction::read_many(b"2a\r\n"),
        Transaction::write_many(b"sys get nvm 310\r\n"),
        Transaction::read_many(b"2A\r\n"),
        Transaction::write_many(b"sys get nvm 310\r\n"),
        Transaction::read_many(b"2\r\n"),
        Transaction::write_many(b"sys get nvm 310\r\n"),
        Transaction::read_many(b"002a\r\n"),
        Transaction::write_many(b"sys get nvm 310\r\n"),
        Transaction::read_many(b"2g\r\n"),
        Transaction::write_many(b"sys get nvm 310\r\n"),
        Transaction::read_many(b"\r\n"),
    ]);
    assert_eq!(rn.nvm_get(0x3ff), Ok(0x2a));
    assert_eq!(rn.nvm_get(0x310), Ok(0x2a));
    assert_eq!(rn.nvm_get(0x310), Err(Error::ParsingError));
    assert_eq!(rn.nvm_get(0x310), Err(Error::ParsingError));
    assert_eq!(rn.nvm_get(0x310), Err(Error::ParsingError));
    assert_eq!(rn.nvm_get(0x310), Err(Error::ParsingError));
    mock.done();
}

// MAC commands

#[test]
fn hex_setters_check_length_only() {
    let (mut mock, mut rn) = script(&[
        Transaction::write_many(b"mac set appkey 0011223344556677889900aabbccddee\r\n"),
        Transaction::read_many(b"ok\r\n"),
        Transaction::write_many(b"mac set nwkskey zzzzzzzzzzzzzzzzzzzzzzzzzzzzzzzz\r\n"),
        Transaction::read_many(b"invalid_param\r\n"),
        Transaction::write_many(b"mac set appskey 000102030405060708090a0b0c0d0e0f\r\n"),
        Transaction::read_many(b"ok\r\n"),
        Transaction::write_many(b"mac set appeui 0011223344556677\r\n"),
        Transaction::read_many(b"ok\r\n"),
    ]);
    assert_eq!(rn.set_app_key_hex("0011223344556677889900aabbccddee"), Ok(()));
    assert_eq!(
        rn.set_network_session_key_hex("zzzzzzzzzzzzzzzzzzzzzzzzzzzzzzzz"),
        Err(Error::CommandFailed)
    );
    assert_eq!(
        rn.set_app_session_key_slice(&[0, 1, 2, 3, 4, 5, 6, 7, 8, 9, 10, 11, 12, 13, 14, 15]),
        Ok(())
    );
    assert_eq!(rn.set_app_eui_hex("0011223344556677"), Ok(()));
    mock.done();
}

#[test]
fn setters_refuse_wrong_lengths_without_traffic() {
    let (mut mock, mut rn) = script(&[]);
    assert_eq!(rn.set_dev_addr_hex(""), Err(Error::BadParameter));
    assert_eq!(rn.set_dev_addr_slice(&[]), Err(Error::BadParameter));
    assert_eq!(rn.set_dev_addr_slice(&[1, 2, 3]), Err(Error::BadParameter));
    assert_eq!(rn.set_dev_addr_slice(&[1, 2, 3, 4, 5]), Err(Error::BadParameter));
    assert_eq!(rn.set_dev_eui_slice(&[0; 7]), Err(Error::BadParameter));
    assert_eq!(rn.set_app_eui_slice(&[0; 9]), Err(Error::BadParameter));
    assert_eq!(rn.set_app_eui_hex("00112233445566"), Err(Error::BadParameter));
    assert_eq!(rn.set_network_session_key_slice(&[0; 15]), Err(Error::BadParameter));
    assert_eq!(rn.set_network_session_key_hex("00"), Err(Error::BadParameter));
    assert_eq!(rn.set_app_session_key_slice(&[0; 17]), Err(Error::BadParameter));
    assert_eq!(rn.set_app_session_key_hex("0"), Err(Error::BadParameter));
    assert_eq!(rn.set_app_key_slice(&[0; 32]), Err(Error::BadParameter));
    assert_eq!(rn.set_app_key_slice(&[0; 100]), Err(Error::BadParameter));
    assert_eq!(
        rn.set_app_key_hex("0011223344556677889900aabbccddeeff"),
        Err(Error::BadParameter)
    );
    // Length counts bytes, not characters.
    assert_eq!(rn.set_dev_addr_hex("éééééééé"), Err(Error::BadParameter));
    mock.done();
}

#[test]
fn slice_setters_write_lower_case_hex() {
    let (mut mock, mut rn) = script(&[
        Transaction::write_many(b"mac set appeui 00ff10a0b0c0d0e9\r\n"),
        Transaction::read_many(b"ok\r\n"),
        Transaction::write_many(b"mac set appkey 000102030405060708090a0b0c0d0e0f\r\n"),
        Transaction::read_many(b"ok\r\n"),
        Transaction::write_many(b"mac set nwkskey ffffffffffffffffffffffffffffffff\r\n"),
        Transaction::read_many(b"ok\r\n"),
    ]);
    assert_eq!(
        rn.set_app_eui_slice(&[0x00, 0xff, 0x10, 0xa0, 0xb0, 0xc0, 0xd0, 0xe9]),
        Ok(())
    );
    assert_eq!(
        rn.set_app_key_slice(&[0, 1, 2, 3, 4, 5, 6, 7, 8, 9, 10, 11, 12, 13, 14, 15]),
        Ok(())
    );
    assert_eq!(rn.set_network_session_key_slice(&[0xff; 16]), Ok(()));
    mock.done();
}

#[test]
fn slice_getters_decode_hex_of_either_case() {
    let (mut mock, mut rn) = script(&[
        Transaction::write_many(b"mac get devaddr\r\n"),
        Transaction::read_many(b"010203ff\r\n"),
        Transaction::write_many(b"mac get devaddr\r\n"),
        Transaction::read_many(b"AbCdEf09\r\n"),
        Transaction::write_many(b"mac get appeui\r\n"),
        Transaction::read_many(b"0011223344556677\r\n"),
    ]);
    assert_eq!(rn.get_dev_addr_slice(), Ok([0x01, 0x02, 0x03, 0xff]));
    assert_eq!(rn.get_dev_addr_slice(), Ok([0xab, 0xcd, 0xef, 0x09]));
    assert_eq!(
        rn.get_app_eui_slice(),
        Ok([0x00, 0x11, 0x22, 0x33, 0x44, 0x55, 0x66, 0x77])
    );
    mock.done();
}

#[test]
fn slice_getters_fill_short_values_with_zeros() {
    let (mut mock, mut rn) = script(&[
        Transaction::write_many(b"mac get devaddr\r\n"),
        Transaction::read_many(b"0102\r\n"),
        Transaction::write_many(b"mac get devaddr\r\n"),
        Transaction::read_many(b"\r\n"),
    ]);
    assert_eq!(rn.get_dev_addr_slice(), Ok([0x01, 0x02, 0, 0]));
    assert_eq!(rn.get_dev_addr_slice(), Ok([0, 0, 0, 0]));
    mock.done();
}

#[test]
fn slice_getters_refuse_what_is_no_hex_or_too_long() {
    let (mut mock, mut rn) = script(&[
        Transaction::write_many(b"mac get devaddr\r\n"),
        Transaction::read_many(b"010203ff00\r\n"),
        Transaction::write_many(b"mac get devaddr\r\n"),
        Transaction::read_many(b"010203ff0\r\n"),
        Transaction::write_many(b"mac get devaddr\r\n"),
        Transaction::read_many(b"010203f\r\n"),
        Transaction::write_many(b"mac get devaddr\r\n"),
        Transaction::read_many(b"010203fg\r\n"),
        Transaction::write_many(b"mac get deveui\r\n"),
        Transaction::read_many(b"00112233445566778899aabbccddeeff00112233445566778899aabbccddee\r\n"),
        Transaction::write_many(b"mac get deveui\r\n"),
        Transaction::read_many(b"\xff\xff\r\n"),
    ]);
    assert_eq!(rn.get_dev_addr_slice(), Err(Error::ParsingError));
    assert_eq!(rn.get_dev_addr_slice(), Err(Error::ParsingError));
    assert_eq!(rn.get_dev_addr_slice(), Err(Error::ParsingError));
    assert_eq!(rn.get_dev_addr_slice(), Err(Error::ParsingError));
    assert_eq!(rn.get_dev_eui_slice(), Err(Error::ParsingError));
    assert_eq!(rn.get_dev_eui_slice(), Err(Error::EncodingError));
    mock.done();
}

#[test]
fn hex_round_trip_through_the_link() {
    // What a slice setter writes, a slice getter reads back.
    let values: [[u8; 4]; 4] = [[0, 0, 0, 0], [0xff; 4], [0x01, 0x23, 0xab, 0xcd], [0x0f, 0xf0, 0x9a, 0xa9]];
    for value in values {
        let hex: String = value.iter().map(|b| format!("{:02x}", b)).collect();
        let mut reply = hex.clone().into_bytes();
        reply.extend_from_slice(b"\r\n");
        let (mut mock, mut rn) = script(&[
            Transaction::write_many(format!("mac set devaddr {}\r\n", hex).as_bytes()),
            Transaction::read_many(b"ok\r\n"),
            Transaction::write_many(b"mac get devaddr\r\n"),
            Transaction::read_many(&reply),
        ]);
        assert_eq!(rn.set_dev_addr_slice(&value), Ok(()));
        assert_eq!(rn.get_dev_addr_slice(), Ok(value));
        mock.done();
    }
}

#[test]
fn adr_off() {
    let (mut mock, mut rn) = script(&[
        Transaction::write_many(b"mac set adr off\r\n"),
        Transaction::read_many(b"ok\r\n"),
    ]);
    assert_eq!(rn.set_adr(false), Ok(()));
    mock.done();
}

#[test]
fn frame_counters() {
    let (mut mock, mut rn) = script(&[
        Transaction::write_many(b"mac set upctr 0\r\n"),
        Transaction::read_many(b"ok\r\n"),
        Transaction::write_many(b"mac set upctr 4294967295\r\n"),
        Transaction::read_many(b"ok\r\n"),
        Transaction::write_many(b"mac set dnctr 10000\r\n"),
        Transaction::read_many(b"ok\r\n"),
        Transaction::write_many(b"mac set dnctr 305419896\r\n"),
        Transaction::read_many(b"nope\r\n"),
        Transaction::write_many(b"mac get upctr\r\n"),
        Transaction::read_many(b"4294967295\r\n"),
        Transaction::write_many(b"mac get dnctr\r\n"),
        Transaction::read_many(b"0\r\n"),
        Transaction::write_many(b"mac get upctr\r\n"),
        Transaction::read_many(b"4294967296\r\n"),
        Transaction::write_many(b"mac get dnctr\r\n"),
        Transaction::read_many(b"-1\r\n"),
    ]);
    assert_eq!(rn.set_upctr(0), Ok(()));
    assert_eq!(rn.set_upctr(u32::MAX), Ok(()));
    assert_eq!(rn.set_dnctr(10000), Ok(()));
    assert_eq!(rn.set_dnctr(0x12345678), Err(Error::CommandFailed));
    assert_eq!(rn.get_upctr(), Ok(u32::MAX));
    assert_eq!(rn.get_dnctr(), Ok(0));
    assert_eq!(rn.get_upctr(), Err(Error::ParsingError));
    assert_eq!(rn.get_dnctr(), Err(Error::ParsingError));
    mock.done();
}

#[test]
fn frame_counter_digits_of_every_length() {
    let counters: [u32; 11] = [
        7, 42, 100, 999, 1000, 9999, 10000, 123456, 9999999, 100000000, 1234567890,
    ];
    for counter in counters {
        let (mut mock, mut rn) = script(&[
            Transaction::write_many(format!("mac set upctr {}\r\n", counter).as_bytes()),
            Transaction::read_many(b"ok\r\n"),
        ]);
        assert_eq!(rn.set_upctr(counter), Ok(()));
        mock.done();
    }
}

#[test]
fn data_rates_per_band() {
    let mock = SerialMock::new(&[
        Transaction::write_many(b"mac set dr 6\r\n"),
        Transaction::read_many(b"ok\r\n"),
        Transaction::write_many(b"mac get dr\r\n"),
        Transaction::read_many(b"5\r\n"),
        Transaction::write_many(b"mac get dr\r\n"),
        Transaction::read_many(b"7\r\n"),
    ]);
    let mut rn = rn2483_433(Link(mock.clone()));
    assert_eq!(rn.set_data_rate(DataRateEuCn::Sf7Bw250), Ok(()));
    assert_eq!(rn.get_data_rate(), Ok(DataRateEuCn::Sf7Bw125));
    assert_eq!(rn.get_data_rate(), Err(Error::ParsingError));
    mock.clone().done();

    let mock = SerialMock::new(&[
        Transaction::write_many(b"mac set dr 4\r\n"),
        Transaction::read_many(b"ok\r\n"),
        Transaction::write_many(b"mac get dr\r\n"),
        Transaction::read_many(b"0\r\n"),
        Transaction::write_many(b"mac get dr\r\n"),
        Transaction::read_many(b"5\r\n"),
    ]);
    let mut rn = rn2903_915(Link(mock.clone()));
    assert_eq!(rn.set_data_rate(DataRateUs::Sf8Bw500), Ok(()));
    assert_eq!(rn.get_data_rate(), Ok(DataRateUs::Sf10Bw125));
    assert_eq!(rn.get_data_rate(), Err(Error::ParsingError));
    mock.clone().done();

    let (mut mock, mut rn) = script(&[
        Transaction::write_many(b"mac get dr\r\n"),
        Transaction::read_many(b"0\r\n"),
    ]);
    assert_eq!(rn.get_data_rate(), Ok(DataRateEuCn::Sf12Bw125));
    mock.done();
}

// Join

#[test]
fn join_rejections() {
    let cases: [(&[u8], JoinError<MockError>); 8] = [
        (b"invalid_param\r\n", JoinError::BadParameter),
        (b"keys_not_init\r\n", JoinError::KeysNotInit),
        (b"no_free_ch\r\n", JoinError::NoFreeChannel),
        (b"silent\r\n", JoinError::Silent),
        (b"busy\r\n", JoinError::Busy),
        (b"mac_paused\r\n", JoinError::MacPaused),
        (b"denied\r\n", JoinError::JoinUnsuccessful),
        (b"\xff\r\n", JoinError::Other(Error::EncodingError)),
    ];
    for (reply, error) in cases {
        let (mut mock, mut rn) = script(&[
            Transaction::write_many(b"mac join abp\r\n"),
            Transaction::read_many(reply),
        ]);
        assert_eq!(rn.join(JoinMode::Abp), Err(error));
        mock.done();
    }
}

#[test]
fn join_transport_errors_are_wrapped() {
    let (mut mock, mut rn) = script(&[
        Transaction::write_many(b"mac join otaa\r\n"),
        Transaction::read_many(b"ok\r\n"),
        Transaction::read_error(nb::Error::Other(broken_pipe())),
    ]);
    assert_eq!(
        rn.join(JoinMode::Otaa),
        Err(JoinError::Other(Error::SerialRead(broken_pipe())))
    );
    mock.done();

    let (mut mock, mut rn) = script(&[Transaction::write_error(
        b'm',
        nb::Error::Other(broken_pipe()),
    )]);
    assert_eq!(
        rn.join(JoinMode::Otaa),
        Err(JoinError::Other(Error::SerialWrite(broken_pipe())))
    );
    mock.done();
}

// Transmit

#[test]
fn transmit_refuses_odd_payload_without_traffic() {
    let (mut mock, mut rn) = script(&[]);
    for data in ["0", "000", "abcde", "é0"] {
        assert_eq!(
            rn.transmit_hex(ConfirmationMode::Unconfirmed, 42, data),
            Err(TxError::BadParameter)
        );
    }
    mock.done();
}

#[test]
fn transmit_refuses_ports_outside_range_without_traffic() {
    let (mut mock, mut rn) = script(&[]);
    for port in [0u8, 224, 225, 254, 255] {
        assert_eq!(
            rn.transmit_hex(ConfirmationMode::Confirmed, port, "23ff"),
            Err(TxError::BadParameter)
        );
        assert_eq!(
            rn.transmit_slice(ConfirmationMode::Confirmed, port, &[0x23, 0xff]),
            Err(TxError::BadParameter)
        );
    }
    mock.done();
}

#[test]
fn transmit_port_digits() {
    for (port, frame) in [
        (1u8, &b"mac tx cnf 1 \r\n"[..]),
        (9, b"mac tx cnf 9 \r\n"),
        (10, b"mac tx cnf 10 \r\n"),
        (99, b"mac tx cnf 99 \r\n"),
        (100, b"mac tx cnf 100 \r\n"),
        (223, b"mac tx cnf 223 \r\n"),
    ] {
        let (mut mock, mut rn) = script(&[
            Transaction::write_many(frame),
            Transaction::read_many(b"ok\r\nmac_tx_ok\r\n"),
        ]);
        assert_eq!(rn.transmit_hex(ConfirmationMode::Confirmed, port, ""), Ok(None));
        mock.done();
    }
}

#[test]
fn transmit_first_response_rejections() {
    let cases: [(&[u8], TxError<MockError>); 9] = [
        (b"invalid_param\r\n", TxError::BadParameter),
        (b"not_joined\r\n", TxError::NotJoined),
        (b"no_free_ch\r\n", TxError::NoFreeChannel),
        (b"silent\r\n", TxError::Silent),
        (b"frame_counter_err_rejoin_needed\r\n", TxError::FrameCounterRollover),
        (b"busy\r\n", TxError::Busy),
        (b"mac_paused\r\n", TxError::MacPaused),
        (b"invalid_data_len\r\n", TxError::InvalidDataLenth),
        (b"mac_tx_ok\r\n", TxError::UnknownResponse),
    ];
    for (reply, error) in cases {
        let (mut mock, mut rn) = script(&[
            Transaction::write_many(b"mac tx uncnf 42 23ff\r\n"),
            Transaction::read_many(reply),
        ]);
        assert_eq!(
            rn.transmit_hex(ConfirmationMode::Unconfirmed, 42, "23ff"),
            Err(error)
        );
        mock.done();
    }
}

#[test]
fn transmit_second_response_failures() {
    let cases: [(&[u8], TxError<MockError>); 6] = [
        (b"mac_err\r\n", TxError::TxUnsuccessful),
        (b"invalid_data_len\r\n", TxError::InvalidDataLenth),
        (b"ok\r\n", TxError::UnknownResponse),
        (b"mac_rx 0 00\r\n", TxError::Other(Error::ParsingError)),
        (b"mac_rx 224 00\r\n", TxError::Other(Error::ParsingError)),
        (b"mac_rx 1 0\r\n", TxError::Other(Error::ParsingError)),
    ];
    for (reply, error) in cases {
        let (mut mock, mut rn) = script(&[
            Transaction::write_many(b"mac tx uncnf 42 23ff\r\n"),
            Transaction::read_many(b"ok\r\n"),
            Transaction::read_many(reply),
        ]);
        assert_eq!(
            rn.transmit_hex(ConfirmationMode::Unconfirmed, 42, "23ff"),
            Err(error)
        );
        mock.done();
    }
}

#[test]
fn transmit_transport_errors_are_wrapped() {
    let (mut mock, mut rn) = script(&[
        Transaction::write_many(b"mac tx uncnf 42 23ff\r\n"),
        Transaction::read_many(b"ok\r\n"),
        Transaction::read_many([b'x'; 64]),
    ]);
    assert_eq!(
        rn.transmit_hex(ConfirmationMode::Unconfirmed, 42, "23ff"),
        Err(TxError::Other(Error::ReadBufferTooSmall))
    );
    mock.done();

    let (mut mock, mut rn) = script(&[
        Transaction::write_many(b"mac tx "),
        Transaction::write_error(b'u', nb::Error::Other(broken_pipe())),
    ]);
    assert_eq!(
        rn.transmit_hex(ConfirmationMode::Unconfirmed, 42, "23ff"),
        Err(TxError::Other(Error::SerialWrite(broken_pipe())))
    );
    mock.done();
}

#[test]
fn transmit_slice_downlink() {
    let (mut mock, mut rn) = script(&[
        Transaction::write_many(b"mac tx cnf 223 0001feff\r\n"),
        Transaction::read_many(b"ok\r\nmac_rx 1 a0B1\r\n"),
    ]);
    assert_eq!(
        rn.transmit_slice(ConfirmationMode::Confirmed, 223, &[0x00, 0x01, 0xfe, 0xff]),
        Ok(Some(Downlink { port: 1, hexdata: "a0B1" }))
    );
    mock.done();
}

#[test]
fn transmit_slice_longest_payload() {
    let payload = [0xa5u8; 128];
    let mut frame = b"mac tx uncnf 1 ".to_vec();
    for _ in 0..128 {
        frame.extend_from_slice(b"a5");
    }
    frame.extend_from_slice(b"\r\n");
    let (mut mock, mut rn) = script(&[
        Transaction::write_many(&frame),
        Transaction::read_many(b"invalid_data_len\r\n"),
    ]);
    assert_eq!(
        rn.transmit_slice(ConfirmationMode::Unconfirmed, 1, &payload),
        Err(TxError::InvalidDataLenth)
    );
    mock.done();
}

#[test]
fn transmit_slice_refuses_longer_payload_without_traffic() {
    let (mut mock, mut rn) = script(&[]);
    assert_eq!(
        rn.transmit_slice(ConfirmationMode::Unconfirmed, 1, &[0u8; 129]),
        Err(TxError::BadParameter)
    );
    assert_eq!(
        rn.transmit_slice(ConfirmationMode::Unconfirmed, 1, &[0u8; 1000]),
        Err(TxError::BadParameter)
    );
    mock.done();
}

#[test]
fn free_gives_the_port_back() {
    let (_, rn) = script(&[Transaction::read_many(b"x")]);
    let mut link = rn.free();
    assert_eq!(link.poll(), Ok(Some(b'x')));
    link.0.done();
}
