//! Sending an uplink: the transmit handshake and the downlink that may
//! come back with its second response.

use crate::decimal::{decimal, parse_unsigned, unsigned_of};
use crate::driver::{Driver, Frequency};
use crate::errors::{Error, TxError};
use crate::fields::{field, is_space, lemma_stretch_is_utf8, next_field};
use crate::framing::{
    added, command_bytes, extends, frame, handshake_gives, is_command, is_line_read, lemma_chained,
    lemma_command_bytes, lemma_unchanged,
};
use crate::hex::{encode_hex, hex_lower};
use crate::text::{begins_with, from_utf8, is_token, lemma_ascii_is_utf8, text};
use crate::transport::Transport;
use crate::utils::{is_valid_port, u8_to_str, validate_port};
use vstd::prelude::*;
use vstd::slice::slice_subrange;
use vstd::utf8::valid_utf8;

verus! {

/// Whether to send an uplink as confirmed or unconfirmed message.
#[derive(Debug, PartialEq, Eq)]
pub enum ConfirmationMode {
    /// Expect a confirmation from the gateway.
    Confirmed,
    /// No confirmation is expected.
    Unconfirmed,
}

/// A message that the network sent back after an uplink.
#[derive(Debug, PartialEq)]
pub struct Downlink<'a> {
    /// The application port, in `1..=223`.
    pub port: u8,
    /// The payload as the module printed it: hex text of even length.
    pub hexdata: &'a str,
}

impl<'a> Downlink<'a> {
    /// What a downlink that the driver hands out always holds: a valid port
    /// and a payload of even length.
    pub open spec fn wf(&self) -> bool {
        is_valid_port(self.port) && text(self.hexdata).len() % 2 == 0
    }
}

/// A downlink as plain values: its port and the bytes of its payload text.
pub type DownlinkView = (u8, Seq<u8>);

/// The view of what a transmission returns.
pub open spec fn tx_view<E>(r: Result<Option<Downlink>, TxError<E>>) -> Result<
    Option<DownlinkView>,
    TxError<E>,
> {
    match r {
        Ok(Some(d)) => Ok(Some((d.port, text(d.hexdata)))),
        Ok(None) => Ok(None),
        Err(e) => Err(e),
    }
}

/// The word for a confirmation mode in the transmit command.
pub open spec fn mode_word(mode: ConfirmationMode) -> Seq<u8> {
    match mode {
        ConfirmationMode::Confirmed => text("cnf"),
        ConfirmationMode::Unconfirmed => text("uncnf"),
    }
}

/// The transmit command: `mac tx <cnf|uncnf> <port> <hexdata>`.
pub open spec fn tx_command(mode: ConfirmationMode, port: u8, data: Seq<u8>) -> Seq<u8> {
    text("mac tx ") + mode_word(mode) + text(" ") + decimal(port as nat) + text(" ") + data
}

/// What the first response to a transmit command means: `ok` lets the
/// transmission go on, every other line ends it.
pub open spec fn tx_started<E>(reply: Result<Seq<u8>, Error<E>>) -> Result<(), TxError<E>> {
    match reply {
        Err(e) => Err(TxError::Other(e)),
        Ok(line) => if line == text("ok") {
            Ok(())
        } else if line == text("invalid_param") {
            Err(TxError::BadParameter)
        } else if line == text("not_joined") {
            Err(TxError::NotJoined)
        } else if line == text("no_free_ch") {
            Err(TxError::NoFreeChannel)
        } else if line == text("silent") {
            Err(TxError::Silent)
        } else if line == text("frame_counter_err_rejoin_needed") {
            Err(TxError::FrameCounterRollover)
        } else if line == text("busy") {
            Err(TxError::Busy)
        } else if line == text("mac_paused") {
            Err(TxError::MacPaused)
        } else if line == text("invalid_data_len") {
            Err(TxError::InvalidDataLenth)
        } else {
            Err(TxError::UnknownResponse)
        },
    }
}

/// The downlink that a line beginning with `mac_rx` announces.
///
/// The line has to be UTF-8. Its second field is the port, an unsigned
/// decimal number in `1..=223`; its third field is the payload, of even
/// length. Further fields are not looked at. Where a field is missing or not
/// as it should be, the line cannot be parsed.
pub open spec fn downlink_of<E>(line: Seq<u8>) -> Result<Option<DownlinkView>, TxError<E>> {
    if !valid_utf8(line) {
        Err(TxError::Other(Error::EncodingError))
    } else {
        let port = unsigned_of(field(line, 1), 255);
        let data = field(line, 2);
        if port is Some && is_valid_port(port->Some_0 as u8) && data.len() > 0 && data.len() % 2
            == 0 {
            Ok(Some((port->Some_0 as u8, data)))
        } else {
            Err(TxError::Other(Error::ParsingError))
        }
    }
}

/// Every downlink that a line yields has a port in `1..=223` and a payload
/// text of even length.
pub proof fn lemma_downlink_is_checked<E>(line: Seq<u8>)
    ensures
        downlink_of::<E>(line) matches Ok(Some(d)) ==> is_valid_port(d.0) && d.1.len() % 2 == 0,
{
}

/// A line that announces a downlink on a port outside `1..=223` is not
/// accepted: it cannot be parsed.
pub proof fn lemma_downlink_port_outside<E>(line: Seq<u8>)
    requires
        valid_utf8(line),
        unsigned_of(field(line, 1), 255) matches Some(port) && !is_valid_port(port as u8),
    ensures
        downlink_of::<E>(line) == Err::<Option<DownlinkView>, TxError<E>>(
            TxError::Other(Error::ParsingError),
        ),
{
}

/// What the second response to a transmit command means.
pub open spec fn tx_finished<E>(reply: Result<Seq<u8>, Error<E>>) -> Result<
    Option<DownlinkView>,
    TxError<E>,
> {
    match reply {
        Err(e) => Err(TxError::Other(e)),
        Ok(line) => if line == text("mac_tx_ok") {
            Ok(None)
        } else if line == text("mac_err") {
            Err(TxError::TxUnsuccessful)
        } else if line == text("invalid_data_len") {
            Err(TxError::InvalidDataLenth)
        } else if text("mac_rx ").is_prefix_of(line) {
            downlink_of(line)
        } else {
            Err(TxError::UnknownResponse)
        },
    }
}

/// Decide on the first response to a transmit command.
pub fn tx_initiation<E>(line: &[u8]) -> (r: Result<(), TxError<E>>)
    ensures
        r == tx_started::<E>(Ok(line@)),
{
    if is_token(line, "ok") {
        Ok(())
    } else if is_token(line, "invalid_param") {
        Err(TxError::BadParameter)
    } else if is_token(line, "not_joined") {
        Err(TxError::NotJoined)
    } else if is_token(line, "no_free_ch") {
        Err(TxError::NoFreeChannel)
    } else if is_token(line, "silent") {
        Err(TxError::Silent)
    } else if is_token(line, "frame_counter_err_rejoin_needed") {
        Err(TxError::FrameCounterRollover)
    } else if is_token(line, "busy") {
        Err(TxError::Busy)
    } else if is_token(line, "mac_paused") {
        Err(TxError::MacPaused)
    } else if is_token(line, "invalid_data_len") {
        Err(TxError::InvalidDataLenth)
    } else {
        Err(TxError::UnknownResponse)
    }
}

/// Parse a line that announces a downlink.
pub fn parse_downlink<'a, E>(line: &'a [u8]) -> (r: Result<Option<Downlink<'a>>, TxError<E>>)
    ensures
        tx_view(r) == downlink_of::<E>(line@),
        r matches Ok(Some(d)) ==> d.wf(),
{
    match from_utf8(line) {
        Ok(_) => {},
        Err(e) => {
            return Err(TxError::from(e));
        },
    }
    let (start0, end0) = next_field(line, 0);
    let (start1, end1) = next_field(line, end0);
    let (start2, end2) = next_field(line, end1);
    proof {
        reveal_with_fuel(crate::fields::field_start, 3);
        reveal_with_fuel(crate::fields::field_end, 3);
        assert(field(line@, 1) == line@.subrange(start1 as int, end1 as int));
        assert(field(line@, 2) == line@.subrange(start2 as int, end2 as int));
    }
    let port = match parse_unsigned(slice_subrange(line, start1, end1), 255) {
        Some(p) => p as u8,
        None => {
            return Err(TxError::Other(Error::ParsingError));
        },
    };
    match validate_port(port, TxError::Other(Error::ParsingError)) {
        Ok(()) => {},
        Err(e) => {
            return Err(e);
        },
    }
    if start2 == end2 || (end2 - start2) % 2 != 0 {
        return Err(TxError::Other(Error::ParsingError));
    }
    proof {
        if start2 > 0 {
            assert(start2 > end1 || end1 == 0) by {
                if start2 == end1 && end1 > 0 {
                    assert(end1 < line@.len());
                    assert(is_space(line@[end1 as int]));
                    assert(crate::fields::skip_spaces(line@, end1 as int) > end1);
                }
            }
        }
        lemma_stretch_is_utf8(line@, start2 as int, end2 as int);
    }
    match from_utf8(slice_subrange(line, start2, end2)) {
        Ok(hexdata) => Ok(Some(Downlink { port, hexdata })),
        Err(e) => Err(TxError::from(e)),
    }
}

/// Decide on the second response to a transmit command.
pub fn tx_outcome<'a, E>(line: &'a [u8]) -> (r: Result<Option<Downlink<'a>>, TxError<E>>)
    ensures
        tx_view(r) == tx_finished::<E>(Ok(line@)),
        r matches Ok(Some(d)) ==> d.wf(),
{
    if is_token(line, "mac_tx_ok") {
        Ok(None)
    } else if is_token(line, "mac_err") {
        Err(TxError::TxUnsuccessful)
    } else if is_token(line, "invalid_data_len") {
        Err(TxError::InvalidDataLenth)
    } else if begins_with(line, "mac_rx ") {
        parse_downlink(line)
    } else {
        Err(TxError::UnknownResponse)
    }
}

/// Whether a port and a payload text can be handed to the module at all:
/// the port is valid and the text has an even number of bytes.
pub open spec fn tx_acceptable(port: u8, data: Seq<u8>) -> bool {
    is_valid_port(port) && data.len() % 2 == 0
}

/// The longest payload, in bytes, that `transmit_slice` takes.
pub const MAX_SLICE_LEN: usize = 128;

impl<F: Frequency, S: Transport> Driver<F, S> {
    /// Send a hex uplink on the specified port.
    ///
    /// If a downlink is received, it is returned.
    ///
    /// A payload text of odd length and a port outside `1..=223` are
    /// refused with `TxError::BadParameter` before anything is written,
    /// whether or not the module sleeps.
    pub fn transmit_hex(&mut self, mode: ConfirmationMode, port: u8, data: &str) -> (r: Result<
        Option<Downlink>,
        TxError<S::Error>,
    >)
        ensures
            final(self).asleep() == old(self).asleep(),
            extends(old(self).trace(), final(self).trace()),
            !tx_acceptable(port, text(data)) ==> final(self).trace() == old(self).trace() && r
                == Err::<Option<Downlink>, TxError<S::Error>>(TxError::BadParameter),
            tx_acceptable(port, text(data)) ==> handshake_gives(
                old(self).asleep(),
                added(old(self).trace(), final(self).trace()),
                frame(tx_command(mode, port, text(data))),
                |reply: Result<Seq<u8>, Error<S::Error>>| tx_started(reply),
                |reply: Result<Seq<u8>, Error<S::Error>>| tx_finished(reply),
                tx_view(r),
            ),
            r matches Ok(Some(d)) ==> d.wf(),
    {
        let ghost before = self.trace();
        proof {
            lemma_unchanged(before);
        }
        // Validate and parse arguments
        if data.as_bytes().len() % 2 != 0 {
            return Err(TxError::BadParameter);
        }
        match validate_port(port, TxError::BadParameter) {
            Ok(()) => {},
            Err(e) => {
                return Err(e);
            },
        }
        let mode_str = match mode {
            ConfirmationMode::Confirmed => "cnf",
            ConfirmationMode::Unconfirmed => "uncnf",
        };
        let mut buf: [u8; 3] = [0;3];
        proof {
            reveal_with_fuel(decimal, 3);
        }
        let port_str = match u8_to_str::<S::Error>(port, &mut buf) {
            Ok(s) => s,
            Err(e) => {
                return Err(TxError::from(e));
            },
        };
        let command: [&str; 6] = ["mac tx ", mode_str, " ", port_str, " ", data];
        let ghost whole = frame(tx_command(mode, port, text(data)));
        proof {
            lemma_command_bytes(command@);
            assert(command_bytes(command@) =~= tx_command(mode, port, text(data)));
        }

        // First response is whether the uplink transmission could be initialized.
        let sent = self.exchange(&command);
        let ghost mid = self.trace();
        let ghost first = added(before, mid);
        let ghost reply = self.held(sent);
        proof {
            assert(first.take(first.len() as int) =~= first);
            assert(is_command(old(self).asleep(), first.take(first.len() as int), whole, reply));
        }
        let n = match sent {
            Ok(n) => n,
            Err(e) => {
                return Err(TxError::Other(e));
            },
        };
        match tx_initiation(self.line(n)) {
            Ok(()) => {},
            Err(e) => {
                return Err(e);
            },
        }

        // The second response could contain an error or a downlink.
        let read = self.fill_line();
        proof {
            lemma_chained(before, mid, self.trace());
            let events = added(before, self.trace());
            let m = first.len() as int;
            assert(events.take(m) =~= first);
            assert(events.skip(m) =~= added(mid, self.trace()));
            assert(is_command(old(self).asleep(), events.take(m), whole, reply));
            assert(is_line_read(events.skip(m), self.held(read)));
        }
        match read {
            Ok(len) => tx_outcome(self.line(len)),
            Err(e) => Err(TxError::Other(e)),
        }
    }

    /// Send an uplink on the specified port.
    ///
    /// If a downlink is received, it is returned.
    ///
    /// The payload goes out as lower-case hex text. More than 128 bytes
    /// are refused with `TxError::BadParameter` before anything is written,
    /// and so is a port outside `1..=223`.
    pub fn transmit_slice(&mut self, mode: ConfirmationMode, port: u8, data: &[u8]) -> (r: Result<
        Option<Downlink>,
        TxError<S::Error>,
    >)
        ensures
            final(self).asleep() == old(self).asleep(),
            extends(old(self).trace(), final(self).trace()),
            data@.len() > MAX_SLICE_LEN || !is_valid_port(port) ==> final(self).trace() == old(
                self,
            ).trace() && r == Err::<Option<Downlink>, TxError<S::Error>>(TxError::BadParameter),
            data@.len() <= MAX_SLICE_LEN && is_valid_port(port) ==> handshake_gives(
                old(self).asleep(),
                added(old(self).trace(), final(self).trace()),
                frame(tx_command(mode, port, hex_lower(data@))),
                |reply: Result<Seq<u8>, Error<S::Error>>| tx_started(reply),
                |reply: Result<Seq<u8>, Error<S::Error>>| tx_finished(reply),
                tx_view(r),
            ),
            r matches Ok(Some(d)) ==> d.wf(),
    {
        if data.len() > MAX_SLICE_LEN {
            proof {
                lemma_unchanged(self.trace());
            }
            return Err(TxError::BadParameter);
        }
        let mut buf: [u8; 256] = [0;256];
        let bytes = encode_hex(data, &mut buf);
        proof {
            let hex = buf@.subrange(0, bytes as int);
            assert(hex =~= hex_lower(data@));
            assert forall|i: int| 0 <= i < hex.len() implies #[trigger] hex[i] < 0x80 by {
                let b = data@[i / 2];
                assert(0 <= b / 16 < 16 && 0 <= b % 16 < 16);
            }
            lemma_ascii_is_utf8(hex);
        }
        match from_utf8(slice_subrange(buf.as_slice(), 0, bytes)) {
            Ok(hex) => self.transmit_hex(mode, port, hex),
            Err(e) => {
                proof {
                    lemma_unchanged(self.trace());
                }
                Err(TxError::from(e))
            },
        }
    }
}

} // verus!
