//! MAC commands: keys and identifiers, counters, adaptive data rate and
//! data rates.

use crate::decimal::{decimal, parse_unsigned, u32_to_str, unsigned_of};
use crate::driver::{Driver, Freq433, Freq868, Freq915, Frequency};
use crate::errors::{Error, RnResult};
use crate::framing::{
    acknowledged, added, as_text, command_gives, extends, frame, lemma_command_bytes,
    lemma_unchanged, text_view,
};
use crate::hex::{
    decode_hex, encode_hex, hex_bytes, hex_lower, is_hex, lemma_hex_is_ascii, lemma_hex_round_trip,
};
use crate::rates::{DataRateEuCn, DataRateUs, eu_cn_of, eu_cn_text, us_of, us_text};
use crate::text::{from_utf8, is_token, lemma_ascii_is_utf8, text};
use crate::transport::{Io, Transport};
use vstd::prelude::*;
use vstd::slice::slice_subrange;
use vstd::utf8::encode_utf8_valid_utf8;

verus! {

/// `events` and `r` are what setting a parameter of `bytes` bytes to the hex
/// text `val` gives: a text of another length is refused with
/// `BadParameter` and nothing is done on the link; otherwise the command
/// `prefix` and `val` is sent, and the module has to acknowledge it.
pub open spec fn is_setting<E>(
    asleep: bool,
    events: Seq<Io<E>>,
    prefix: Seq<u8>,
    bytes: nat,
    val: Seq<u8>,
    r: Result<(), Error<E>>,
) -> bool {
    if val.len() != 2 * bytes {
        events.len() == 0 && r == Err::<(), Error<E>>(Error::BadParameter)
    } else {
        command_gives(
            asleep,
            events,
            frame(prefix + val),
            |reply: Result<Seq<u8>, Error<E>>| acknowledged(reply),
            r,
        )
    }
}

/// The bytes of a parameter of `n` bytes that a reply states in hex. Hex
/// text for fewer bytes is filled up with zero bytes; text that is no hex
/// text, or stands for more bytes, cannot be parsed.
pub open spec fn field_of<E>(reply: Result<Seq<u8>, Error<E>>, n: nat) -> Result<
    Seq<u8>,
    Error<E>,
> {
    match as_text(reply) {
        Err(e) => Err(e),
        Ok(line) => if is_hex(line) && line.len() / 2 <= n {
            Ok(hex_bytes(line) + Seq::new((n - line.len() / 2) as nat, |i: int| 0u8))
        } else {
            Err(Error::ParsingError)
        },
    }
}

/// What a slice setter writes for a parameter of `n` bytes, a slice getter
/// reads back: the hex text of `bytes` stands for just these bytes.
pub proof fn lemma_field_round_trip<E>(bytes: Seq<u8>, n: nat)
    requires
        bytes.len() == n,
    ensures
        field_of::<E>(Ok(hex_lower(bytes)), n) == Ok::<Seq<u8>, Error<E>>(bytes),
{
    let hex = hex_lower(bytes);
    lemma_hex_round_trip(bytes);
    lemma_hex_is_ascii(bytes);
    lemma_ascii_is_utf8(hex);
    assert(bytes + Seq::new(0nat, |i: int| 0u8) =~= bytes);
}

/// The view of a parameter that was handed out as an array.
pub open spec fn field_view<E, const N: usize>(r: Result<[u8; N], Error<E>>) -> Result<
    Seq<u8>,
    Error<E>,
> {
    match r {
        Ok(bytes) => Ok(bytes@),
        Err(e) => Err(e),
    }
}

/// Whether the adaptive data rate is on, as a reply states it.
pub open spec fn adr_of<E>(reply: Result<Seq<u8>, Error<E>>) -> Result<bool, Error<E>> {
    match as_text(reply) {
        Err(e) => Err(e),
        Ok(line) => if line == text("on") {
            Ok(true)
        } else if line == text("off") {
            Ok(false)
        } else {
            Err(Error::ParsingError)
        },
    }
}

/// The word for the state of the adaptive data rate.
pub open spec fn adr_word(enabled: bool) -> Seq<u8> {
    if enabled {
        text("on")
    } else {
        text("off")
    }
}

/// The frame counter that a reply states.
pub open spec fn counter_of<E>(reply: Result<Seq<u8>, Error<E>>) -> Result<u32, Error<E>> {
    match as_text(reply) {
        Err(e) => Err(e),
        Ok(line) => match unsigned_of(line, u32::MAX as nat) {
            Some(n) => Ok(n as u32),
            None => Err(Error::ParsingError),
        },
    }
}

/// The data rate of Europe and China that a reply states.
pub open spec fn eu_cn_rate_of<E>(reply: Result<Seq<u8>, Error<E>>) -> Result<
    DataRateEuCn,
    Error<E>,
> {
    match as_text(reply) {
        Err(e) => Err(e),
        Ok(line) => match eu_cn_of(line) {
            Ok(dr) => Ok(dr),
            Err(_) => Err(Error::ParsingError),
        },
    }
}

/// The data rate of the USA that a reply states.
pub open spec fn us_rate_of<E>(reply: Result<Seq<u8>, Error<E>>) -> Result<DataRateUs, Error<E>> {
    match as_text(reply) {
        Err(e) => Err(e),
        Ok(line) => match us_of(line) {
            Ok(dr) => Ok(dr),
            Err(_) => Err(Error::ParsingError),
        },
    }
}

/// Read the state of the adaptive data rate from a reply.
pub fn parse_adr<E>(state: &str) -> (r: Result<bool, Error<E>>)
    ensures
        r == adr_of::<E>(Ok(text(state))),
{
    proof {
        encode_utf8_valid_utf8(state@);
    }
    if is_token(state.as_bytes(), "on") {
        Ok(true)
    } else if is_token(state.as_bytes(), "off") {
        Ok(false)
    } else {
        Err(Error::ParsingError)
    }
}

/// Read a frame counter from a reply.
pub fn parse_counter<E>(counter: &str) -> (r: Result<u32, Error<E>>)
    ensures
        r == counter_of::<E>(Ok(text(counter))),
{
    proof {
        encode_utf8_valid_utf8(counter@);
    }
    match parse_unsigned(counter.as_bytes(), u32::MAX) {
        Some(n) => Ok(n),
        None => Err(Error::ParsingError),
    }
}

/// Read a parameter of `N` bytes from a reply in hex.
pub fn parse_field<E, const N: usize>(hex: &str) -> (r: Result<[u8; N], Error<E>>)
    ensures
        field_view(r) == field_of::<E>(Ok(text(hex)), N as nat),
{
    proof {
        encode_utf8_valid_utf8(hex@);
    }
    let digits = hex.as_bytes();
    if digits.len() / 2 > N {
        return Err(Error::ParsingError);
    }
    let mut buf: [u8; N] = [0;N];
    let ghost zeros = buf@;
    match decode_hex(digits, &mut buf) {
        Ok(n) => {
            proof {
                assert(zeros.skip(n as int) =~= Seq::new((N - n) as nat, |i: int| 0u8));
            }
            Ok(buf)
        },
        Err(_) => Err(Error::ParsingError),
    }
}

/// Read a data rate of Europe and China from a reply.
pub fn parse_eu_cn_rate<E>(rate: &str) -> (r: Result<DataRateEuCn, Error<E>>)
    ensures
        r == eu_cn_rate_of::<E>(Ok(text(rate))),
{
    proof {
        encode_utf8_valid_utf8(rate@);
    }
    match DataRateEuCn::try_from(rate) {
        Ok(dr) => Ok(dr),
        Err(_) => Err(Error::ParsingError),
    }
}

/// Read a data rate of the USA from a reply.
pub fn parse_us_rate<E>(rate: &str) -> (r: Result<DataRateUs, Error<E>>)
    ensures
        r == us_rate_of::<E>(Ok(text(rate))),
{
    proof {
        encode_utf8_valid_utf8(rate@);
    }
    match DataRateUs::try_from(rate) {
        Ok(dr) => Ok(dr),
        Err(_) => Err(Error::ParsingError),
    }
}

/// The helpers that the commands for the single parameters share.
impl<F: Frequency, S: Transport> Driver<F, S> {
    /// Send a command of two fragments that the module has to acknowledge.
    fn set(&mut self, prefix: &str, val: &str) -> (r: RnResult<(), S::Error>)
        ensures
            final(self).asleep() == old(self).asleep(),
            extends(old(self).trace(), final(self).trace()),
            command_gives(
                old(self).asleep(),
                added(old(self).trace(), final(self).trace()),
                frame(text(prefix) + text(val)),
                |reply: RnResult<Seq<u8>, S::Error>| acknowledged(reply),
                r,
            ),
    {
        let command: [&str; 2] = [prefix, val];
        proof {
            lemma_command_bytes(command@);
        }
        self.send_raw_command_ok(&command)
    }

    /// Set a parameter of `bytes` bytes from hex text.
    fn set_hex(&mut self, prefix: &str, bytes: usize, val: &str) -> (r: RnResult<(), S::Error>)
        requires
            bytes <= 16,
        ensures
            final(self).asleep() == old(self).asleep(),
            extends(old(self).trace(), final(self).trace()),
            is_setting(
                old(self).asleep(),
                added(old(self).trace(), final(self).trace()),
                text(prefix),
                bytes as nat,
                text(val),
                r,
            ),
    {
        if val.as_bytes().len() != bytes * 2 {
            proof {
                lemma_unchanged(self.trace());
            }
            return Err(Error::BadParameter);
        }
        self.set(prefix, val)
    }

    /// Set a parameter of `bytes` bytes from the bytes themselves.
    fn set_slice(&mut self, prefix: &str, bytes: usize, val: &[u8]) -> (r: RnResult<
        (),
        S::Error,
    >)
        requires
            bytes <= 16,
        ensures
            final(self).asleep() == old(self).asleep(),
            extends(old(self).trace(), final(self).trace()),
            is_setting(
                old(self).asleep(),
                added(old(self).trace(), final(self).trace()),
                text(prefix),
                bytes as nat,
                hex_lower(val@),
                r,
            ),
    {
        if val.len() != bytes {
            proof {
                lemma_unchanged(self.trace());
            }
            return Err(Error::BadParameter);
        }
        let mut buf: [u8; 32] = [0;32];
        let n = encode_hex(val, &mut buf);
        proof {
            let hex = buf@.subrange(0, n as int);
            assert(hex =~= hex_lower(val@));
            lemma_hex_is_ascii(val@);
            lemma_ascii_is_utf8(hex);
        }
        match from_utf8(slice_subrange(buf.as_slice(), 0, n)) {
            Ok(hex) => self.set_hex(prefix, bytes, hex),
            Err(e) => {
                proof {
                    lemma_unchanged(self.trace());
                }
                Err(Error::from(e))
            },
        }
    }

    /// Get a parameter of `N` bytes.
    fn get_slice<const N: usize>(&mut self, command: &str) -> (r: RnResult<[u8; N], S::Error>)
        ensures
            final(self).asleep() == old(self).asleep(),
            extends(old(self).trace(), final(self).trace()),
            command_gives(
                old(self).asleep(),
                added(old(self).trace(), final(self).trace()),
                frame(text(command)),
                |reply: RnResult<Seq<u8>, S::Error>| field_of(reply, N as nat),
                field_view(r),
            ),
    {
        let hex = match self.query(command) {
            Ok(hex) => hex,
            Err(e) => {
                return Err(e);
            },
        };
        parse_field(hex)
    }
}

/// MAC commands.
impl<F: Frequency, S: Transport> Driver<F, S> {
    /// Save MAC configuration parameters.
    ///
    /// This command will save LoRaWAN Class A protocol configuration
    /// parameters to the user EEPROM. When the next `sys reset` command is
    /// issued, the LoRaWAN Class A protocol configuration will be
    /// initialized with the last saved parameters.
    ///
    /// The LoRaWAN Class A protocol configuration savable parameters are:
    /// `band`, `deveui`, `appeui`, `appkey`, `nwkskey`, `appskey`, `devaddr`
    /// as well as all channel parameters (e.g. frequeny, duty cycle, data).
    pub fn save_config(&mut self) -> (r: RnResult<(), S::Error>)
        ensures
            final(self).asleep() == old(self).asleep(),
            extends(old(self).trace(), final(self).trace()),
            command_gives(
                old(self).asleep(),
                added(old(self).trace(), final(self).trace()),
                frame(text("mac save")),
                |reply: RnResult<Seq<u8>, S::Error>| acknowledged(reply),
                r,
            ),
    {
        let command: [&str; 1] = ["mac save"];
        proof {
            lemma_command_bytes(command@);
        }
        self.send_raw_command_ok(&command)
    }

    /// Set the unique network device address.
    ///
    /// The parameter must be a 4-byte hex string, otherwise
    /// `Error::BadParameter` will be returned.
    pub fn set_dev_addr_hex(&mut self, val: &str) -> (r: RnResult<(), S::Error>)
        ensures
            final(self).asleep() == old(self).asleep(),
            extends(old(self).trace(), final(self).trace()),
            is_setting(
                old(self).asleep(),
                added(old(self).trace(), final(self).trace()),
                text("mac set devaddr "),
                4,
                text(val),
                r,
            ),
    {
        self.set_hex("mac set devaddr ", 4, val)
    }

    /// Set the unique network device address.
    ///
    /// The parameter must be a 4-byte big endian byte slice, otherwise
    /// `Error::BadParameter` will be returned.
    pub fn set_dev_addr_slice(&mut self, val: &[u8]) -> (r: RnResult<(), S::Error>)
        ensures
            final(self).asleep() == old(self).asleep(),
            extends(old(self).trace(), final(self).trace()),
            is_setting(
                old(self).asleep(),
                added(old(self).trace(), final(self).trace()),
                text("mac set devaddr "),
                4,
                hex_lower(val@),
                r,
            ),
    {
        self.set_slice("mac set devaddr ", 4, val)
    }

    /// Get the unique network device address as hex str.
    pub fn get_dev_addr_hex(&mut self) -> (r: RnResult<&str, S::Error>)
        ensures
            final(self).asleep() == old(self).asleep(),
            extends(old(self).trace(), final(self).trace()),
            command_gives(
                old(self).asleep(),
                added(old(self).trace(), final(self).trace()),
                frame(text("mac get devaddr")),
                |reply: RnResult<Seq<u8>, S::Error>| as_text(reply),
                text_view(r),
            ),
    {
        self.query("mac get devaddr")
    }

    /// Get the unique network device address bytes.
    pub fn get_dev_addr_slice(&mut self) -> (r: RnResult<[u8; 4], S::Error>)
        ensures
            final(self).asleep() == old(self).asleep(),
            extends(old(self).trace(), final(self).trace()),
            command_gives(
                old(self).asleep(),
                added(old(self).trace(), final(self).trace()),
                frame(text("mac get devaddr")),
                |reply: RnResult<Seq<u8>, S::Error>| field_of(reply, 4),
                field_view(r),
            ),
    {
        self.get_slice::<4>("mac get devaddr")
    }

    /// Set the globally unique device identifier.
    ///
    /// The parameter must be a 8-byte hex string, otherwise
    /// `Error::BadParameter` will be returned.
    pub fn set_dev_eui_hex(&mut self, val: &str) -> (r: RnResult<(), S::Error>)
        ensures
            final(self).asleep() == old(self).asleep(),
            extends(old(self).trace(), final(self).trace()),
            is_setting(
                old(self).asleep(),
                added(old(self).trace(), final(self).trace()),
                text("mac set deveui "),
                8,
                text(val),
                r,
            ),
    {
        self.set_hex("mac set deveui ", 8, val)
    }

    /// Set the globally unique device identifier.
    ///
    /// The parameter must be a 8-byte big endian byte slice, otherwise
    /// `Error::BadParameter` will be returned.
    pub fn set_dev_eui_slice(&mut self, val: &[u8]) -> (r: RnResult<(), S::Error>)
        ensures
            final(self).asleep() == old(self).asleep(),
            extends(old(self).trace(), final(self).trace()),
            is_setting(
                old(self).asleep(),
                added(old(self).trace(), final(self).trace()),
                text("mac set deveui "),
                8,
                hex_lower(val@),
                r,
            ),
    {
        self.set_slice("mac set deveui ", 8, val)
    }

    /// Get the globally unique device identifier as hex str.
    pub fn get_dev_eui_hex(&mut self) -> (r: RnResult<&str, S::Error>)
        ensures
            final(self).asleep() == old(self).asleep(),
            extends(old(self).trace(), final(self).trace()),
            command_gives(
                old(self).asleep(),
                added(old(self).trace(), final(self).trace()),
                frame(text("mac get deveui")),
                |reply: RnResult<Seq<u8>, S::Error>| as_text(reply),
                text_view(r),
            ),
    {
        self.query("mac get deveui")
    }

    /// Get the globally unique device identifier bytes.
    pub fn get_dev_eui_slice(&mut self) -> (r: RnResult<[u8; 8], S::Error>)
        ensures
            final(self).asleep() == old(self).asleep(),
            extends(old(self).trace(), final(self).trace()),
            command_gives(
                old(self).asleep(),
                added(old(self).trace(), final(self).trace()),
                frame(text("mac get deveui")),
                |reply: RnResult<Seq<u8>, S::Error>| field_of(reply, 8),
                field_view(r),
            ),
    {
        self.get_slice::<8>("mac get deveui")
    }

    /// Set the globally unique application identifier.
    ///
    /// The parameter must be a 8-byte hex string, otherwise
    /// `Error::BadParameter` will be returned.
    pub fn set_app_eui_hex(&mut self, val: &str) -> (r: RnResult<(), S::Error>)
        ensures
            final(self).asleep() == old(self).asleep(),
            extends(old(self).trace(), final(self).trace()),
            is_setting(
                old(self).asleep(),
                added(old(self).trace(), final(self).trace()),
                text("mac set appeui "),
                8,
                text(val),
                r,
            ),
    {
        self.set_hex("mac set appeui ", 8, val)
    }

    /// Set the globally unique application identifier.
    ///
    /// The parameter must be a 8-byte big endian byte slice, otherwise
    /// `Error::BadParameter` will be returned.
    pub fn set_app_eui_slice(&mut self, val: &[u8]) -> (r: RnResult<(), S::Error>)
        ensures
            final(self).asleep() == old(self).asleep(),
            extends(old(self).trace(), final(self).trace()),
            is_setting(
                old(self).asleep(),
                added(old(self).trace(), final(self).trace()),
                text("mac set appeui "),
                8,
                hex_lower(val@),
                r,
            ),
    {
        self.set_slice("mac set appeui ", 8, val)
    }

    /// Get the globally unique application identifier as hex str.
    pub fn get_app_eui_hex(&mut self) -> (r: RnResult<&str, S::Error>)
        ensures
            final(self).asleep() == old(self).asleep(),
            extends(old(self).trace(), final(self).trace()),
            command_gives(
                old(self).asleep(),
                added(old(self).trace(), final(self).trace()),
                frame(text("mac get appeui")),
                |reply: RnResult<Seq<u8>, S::Error>| as_text(reply),
                text_view(r),
            ),
    {
        self.query("mac get appeui")
    }

    /// Get the globally unique application identifier bytes.
    pub fn get_app_eui_slice(&mut self) -> (r: RnResult<[u8; 8], S::Error>)
        ensures
            final(self).asleep() == old(self).asleep(),
            extends(old(self).trace(), final(self).trace()),
            command_gives(
                old(self).asleep(),
                added(old(self).trace(), final(self).trace()),
                frame(text("mac get appeui")),
                |reply: RnResult<Seq<u8>, S::Error>| field_of(reply, 8),
                field_view(r),
            ),
    {
        self.get_slice::<8>("mac get appeui")
    }

    /// Set the network session key.
    ///
    /// The parameter must be a 16-byte hex string, otherwise
    /// `Error::BadParameter` will be returned.
    pub fn set_network_session_key_hex(&mut self, val: &str) -> (r: RnResult<(), S::Error>)
        ensures
            final(self).asleep() == old(self).asleep(),
            extends(old(self).trace(), final(self).trace()),
            is_setting(
                old(self).asleep(),
                added(old(self).trace(), final(self).trace()),
                text("mac set nwkskey "),
                16,
                text(val),
                r,
            ),
    {
        self.set_hex("mac set nwkskey ", 16, val)
    }

    /// Set the network session key.
    ///
    /// The parameter must be a 16-byte big endian byte slice, otherwise
    /// `Error::BadParameter` will be returned.
    pub fn set_network_session_key_slice(&mut self, val: &[u8]) -> (r: RnResult<(), S::Error>)
        ensures
            final(self).asleep() == old(self).asleep(),
            extends(old(self).trace(), final(self).trace()),
            is_setting(
                old(self).asleep(),
                added(old(self).trace(), final(self).trace()),
                text("mac set nwkskey "),
                16,
                hex_lower(val@),
                r,
            ),
    {
        self.set_slice("mac set nwkskey ", 16, val)
    }

    /// Set the application session key.
    ///
    /// The parameter must be a 16-byte hex string, otherwise
    /// `Error::BadParameter` will be returned.
    pub fn set_app_session_key_hex(&mut self, val: &str) -> (r: RnResult<(), S::Error>)
        ensures
            final(self).asleep() == old(self).asleep(),
            extends(old(self).trace(), final(self).trace()),
            is_setting(
                old(self).asleep(),
                added(old(self).trace(), final(self).trace()),
                text("mac set appskey "),
                16,
                text(val),
                r,
            ),
    {
        self.set_hex("mac set appskey ", 16, val)
    }

    /// Set the application session key.
    ///
    /// The parameter must be a 16-byte big endian byte slice, otherwise
    /// `Error::BadParameter` will be returned.
    pub fn set_app_session_key_slice(&mut self, val: &[u8]) -> (r: RnResult<(), S::Error>)
        ensures
            final(self).asleep() == old(self).asleep(),
            extends(old(self).trace(), final(self).trace()),
            is_setting(
                old(self).asleep(),
                added(old(self).trace(), final(self).trace()),
                text("mac set appskey "),
                16,
                hex_lower(val@),
                r,
            ),
    {
        self.set_slice("mac set appskey ", 16, val)
    }

    /// Set the application key.
    ///
    /// The parameter must be a 16-byte hex string, otherwise
    /// `Error::BadParameter` will be returned.
    pub fn set_app_key_hex(&mut self, val: &str) -> (r: RnResult<(), S::Error>)
        ensures
            final(self).asleep() == old(self).asleep(),
            extends(old(self).trace(), final(self).trace()),
            is_setting(
                old(self).asleep(),
                added(old(self).trace(), final(self).trace()),
                text("mac set appkey "),
                16,
                text(val),
                r,
            ),
    {
        self.set_hex("mac set appkey ", 16, val)
    }

    /// Set the application key.
    ///
    /// The parameter must be a 16-byte big endian byte slice, otherwise
    /// `Error::BadParameter` will be returned.
    pub fn set_app_key_slice(&mut self, val: &[u8]) -> (r: RnResult<(), S::Error>)
        ensures
            final(self).asleep() == old(self).asleep(),
            extends(old(self).trace(), final(self).trace()),
            is_setting(
                old(self).asleep(),
                added(old(self).trace(), final(self).trace()),
                text("mac set appkey "),
                16,
                hex_lower(val@),
                r,
            ),
    {
        self.set_slice("mac set appkey ", 16, val)
    }

    /// Set whether the ADR (adaptive data rate) mechanism is enabled.
    pub fn set_adr(&mut self, enabled: bool) -> (r: RnResult<(), S::Error>)
        ensures
            final(self).asleep() == old(self).asleep(),
            extends(old(self).trace(), final(self).trace()),
            command_gives(
                old(self).asleep(),
                added(old(self).trace(), final(self).trace()),
                frame(text("mac set adr ") + adr_word(enabled)),
                |reply: RnResult<Seq<u8>, S::Error>| acknowledged(reply),
                r,
            ),
    {
        let state = if enabled {
            "on"
        } else {
            "off"
        };
        self.set("mac set adr ", state)
    }

    /// Return whether the ADR (adaptive data rate) mechanism is enabled.
    pub fn get_adr(&mut self) -> (r: RnResult<bool, S::Error>)
        ensures
            final(self).asleep() == old(self).asleep(),
            extends(old(self).trace(), final(self).trace()),
            command_gives(
                old(self).asleep(),
                added(old(self).trace(), final(self).trace()),
                frame(text("mac get adr")),
                |reply: RnResult<Seq<u8>, S::Error>| adr_of(reply),
                r,
            ),
    {
        let state = match self.query("mac get adr") {
            Ok(state) => state,
            Err(e) => {
                return Err(e);
            },
        };
        parse_adr(state)
    }

    /// Set a frame counter.
    fn set_counter(&mut self, prefix: &str, counter: u32) -> (r: RnResult<(), S::Error>)
        ensures
            final(self).asleep() == old(self).asleep(),
            extends(old(self).trace(), final(self).trace()),
            command_gives(
                old(self).asleep(),
                added(old(self).trace(), final(self).trace()),
                frame(text(prefix) + decimal(counter as nat)),
                |reply: RnResult<Seq<u8>, S::Error>| acknowledged(reply),
                r,
            ),
    {
        let mut buf: [u8; 10] = [0;10];
        let digits = u32_to_str(counter, &mut buf);
        self.set(prefix, digits)
    }

    /// Get a frame counter.
    fn get_counter(&mut self, command: &str) -> (r: RnResult<u32, S::Error>)
        ensures
            final(self).asleep() == old(self).asleep(),
            extends(old(self).trace(), final(self).trace()),
            command_gives(
                old(self).asleep(),
                added(old(self).trace(), final(self).trace()),
                frame(text(command)),
                |reply: RnResult<Seq<u8>, S::Error>| counter_of(reply),
                r,
            ),
    {
        let ctr = match self.query(command) {
            Ok(ctr) => ctr,
            Err(e) => {
                return Err(e);
            },
        };
        parse_counter(ctr)
    }

    /// Set the up frame counter.
    pub fn set_upctr(&mut self, upctr: u32) -> (r: RnResult<(), S::Error>)
        ensures
            final(self).asleep() == old(self).asleep(),
            extends(old(self).trace(), final(self).trace()),
            command_gives(
                old(self).asleep(),
                added(old(self).trace(), final(self).trace()),
                frame(text("mac set upctr ") + decimal(upctr as nat)),
                |reply: RnResult<Seq<u8>, S::Error>| acknowledged(reply),
                r,
            ),
    {
        self.set_counter("mac set upctr ", upctr)
    }

    /// Get the up frame counter.
    pub fn get_upctr(&mut self) -> (r: RnResult<u32, S::Error>)
        ensures
            final(self).asleep() == old(self).asleep(),
            extends(old(self).trace(), final(self).trace()),
            command_gives(
                old(self).asleep(),
                added(old(self).trace(), final(self).trace()),
                frame(text("mac get upctr")),
                |reply: RnResult<Seq<u8>, S::Error>| counter_of(reply),
                r,
            ),
    {
        self.get_counter("mac get upctr")
    }

    /// Set the down frame counter.
    pub fn set_dnctr(&mut self, dnctr: u32) -> (r: RnResult<(), S::Error>)
        ensures
            final(self).asleep() == old(self).asleep(),
            extends(old(self).trace(), final(self).trace()),
            command_gives(
                old(self).asleep(),
                added(old(self).trace(), final(self).trace()),
                frame(text("mac set dnctr ") + decimal(dnctr as nat)),
                |reply: RnResult<Seq<u8>, S::Error>| acknowledged(reply),
                r,
            ),
    {
        self.set_counter("mac set dnctr ", dnctr)
    }

    /// Get the down frame counter.
    pub fn get_dnctr(&mut self) -> (r: RnResult<u32, S::Error>)
        ensures
            final(self).asleep() == old(self).asleep(),
            extends(old(self).trace(), final(self).trace()),
            command_gives(
                old(self).asleep(),
                added(old(self).trace(), final(self).trace()),
                frame(text("mac get dnctr")),
                |reply: RnResult<Seq<u8>, S::Error>| counter_of(reply),
                r,
            ),
    {
        self.get_counter("mac get dnctr")
    }

    /// Get the data rate of Europe and China.
    fn get_eu_cn_rate(&mut self) -> (r: RnResult<DataRateEuCn, S::Error>)
        ensures
            final(self).asleep() == old(self).asleep(),
            extends(old(self).trace(), final(self).trace()),
            command_gives(
                old(self).asleep(),
                added(old(self).trace(), final(self).trace()),
                frame(text("mac get dr")),
                |reply: RnResult<Seq<u8>, S::Error>| eu_cn_rate_of(reply),
                r,
            ),
    {
        let dr = match self.query("mac get dr") {
            Ok(dr) => dr,
            Err(e) => {
                return Err(e);
            },
        };
        parse_eu_cn_rate(dr)
    }
}

/// MAC commands for 433 MHz modules.
impl<S: Transport> Driver<Freq433, S> {
    /// Set the data rate to be used for the following transmissions.
    pub fn set_data_rate(&mut self, data_rate: DataRateEuCn) -> (r: RnResult<(), S::Error>)
        ensures
            final(self).asleep() == old(self).asleep(),
            extends(old(self).trace(), final(self).trace()),
            command_gives(
                old(self).asleep(),
                added(old(self).trace(), final(self).trace()),
                frame(text("mac set dr ") + text(eu_cn_text(data_rate))),
                |reply: RnResult<Seq<u8>, S::Error>| acknowledged(reply),
                r,
            ),
    {
        self.set("mac set dr ", data_rate.into())
    }

    /// Return the currently configured data rate.
    pub fn get_data_rate(&mut self) -> (r: RnResult<DataRateEuCn, S::Error>)
        ensures
            final(self).asleep() == old(self).asleep(),
            extends(old(self).trace(), final(self).trace()),
            command_gives(
                old(self).asleep(),
                added(old(self).trace(), final(self).trace()),
                frame(text("mac get dr")),
                |reply: RnResult<Seq<u8>, S::Error>| eu_cn_rate_of(reply),
                r,
            ),
    {
        self.get_eu_cn_rate()
    }
}

/// MAC commands for 868 MHz modules.
impl<S: Transport> Driver<Freq868, S> {
    /// Set the data rate to be used for the following transmissions.
    pub fn set_data_rate(&mut self, data_rate: DataRateEuCn) -> (r: RnResult<(), S::Error>)
        ensures
            final(self).asleep() == old(self).asleep(),
            extends(old(self).trace(), final(self).trace()),
            command_gives(
                old(self).asleep(),
                added(old(self).trace(), final(self).trace()),
                frame(text("mac set dr ") + text(eu_cn_text(data_rate))),
                |reply: RnResult<Seq<u8>, S::Error>| acknowledged(reply),
                r,
            ),
    {
        self.set("mac set dr ", data_rate.into())
    }

    /// Return the currently configured data rate.
    pub fn get_data_rate(&mut self) -> (r: RnResult<DataRateEuCn, S::Error>)
        ensures
            final(self).asleep() == old(self).asleep(),
            extends(old(self).trace(), final(self).trace()),
            command_gives(
                old(self).asleep(),
                added(old(self).trace(), final(self).trace()),
                frame(text("mac get dr")),
                |reply: RnResult<Seq<u8>, S::Error>| eu_cn_rate_of(reply),
                r,
            ),
    {
        self.get_eu_cn_rate()
    }
}

/// MAC commands for 915 MHz modules.
impl<S: Transport> Driver<Freq915, S> {
    /// Set the data rate to be used for the following transmissions.
    pub fn set_data_rate(&mut self, data_rate: DataRateUs) -> (r: RnResult<(), S::Error>)
        ensures
            final(self).asleep() == old(self).asleep(),
            extends(old(self).trace(), final(self).trace()),
            command_gives(
                old(self).asleep(),
                added(old(self).trace(), final(self).trace()),
                frame(text("mac set dr ") + text(us_text(data_rate))),
                |reply: RnResult<Seq<u8>, S::Error>| acknowledged(reply),
                r,
            ),
    {
        self.set("mac set dr ", data_rate.into())
    }

    /// Return the currently configured data rate.
    pub fn get_data_rate(&mut self) -> (r: RnResult<DataRateUs, S::Error>)
        ensures
            final(self).asleep() == old(self).asleep(),
            extends(old(self).trace(), final(self).trace()),
            command_gives(
                old(self).asleep(),
                added(old(self).trace(), final(self).trace()),
                frame(text("mac get dr")),
                |reply: RnResult<Seq<u8>, S::Error>| us_rate_of(reply),
                r,
            ),
    {
        let dr = match self.query("mac get dr") {
            Ok(dr) => dr,
            Err(e) => {
                return Err(e);
            },
        };
        parse_us_rate(dr)
    }
}

} // verus!
