//! System commands: reset, module information, the non-volatile memory,
//! and sleep.

use core::time::Duration;
use crate::decimal::{decimal, parse_unsigned, u32_to_str, unsigned_of};
use crate::driver::{Driver, Frequency};
use crate::errors::{Error, RnResult};
use crate::framing::{
    acknowledged, added, as_text, command_gives, extends, frame, is_command, is_gated_write,
    is_line_read, lemma_command_bytes, lemma_unchanged, text_view,
};
use crate::hex::{
    decode_hex, encode_hex, encode_hex_byte, hex_bytes, hex_lower, hex_number, is_hex,
    lemma_hex_is_ascii,
};
use crate::text::{begins_with, from_utf8, is_token, lemma_ascii_is_utf8, text};
use crate::transport::{Io, Transport};
use crate::utils::{ltrim_hex, trim_zeros};
use vstd::prelude::*;
use vstd::string::StringSliceAdditionalSpecFns;
use vstd::utf8::encode_utf8_valid_utf8;

verus! {

/// List of all supported RN module models.
#[derive(Debug, PartialEq, Eq)]
pub enum Model {
    RN2483,
    RN2903,
}

/// The whole seconds of a duration: what `Duration::as_secs` returns.
pub uninterp spec fn duration_secs(duration: Duration) -> u64;

/// The milliseconds of a duration beyond its whole seconds: what
/// `Duration::subsec_millis` returns.
pub uninterp spec fn duration_subsec_millis(duration: Duration) -> u32;

/// The whole seconds of `duration`.
///
/// Calls `Duration::as_secs`.
#[verifier::external_body]
fn whole_secs(duration: &Duration) -> (r: u64)
    ensures
        r == duration_secs(*duration),
{
    duration.as_secs()
}

/// The milliseconds of `duration` beyond its whole seconds.
///
/// Calls `Duration::subsec_millis`, which returns the fractional part of
/// the duration in whole milliseconds: less than a thousand.
#[verifier::external_body]
fn subsec_millis(duration: &Duration) -> (r: u32)
    ensures
        r == duration_subsec_millis(*duration),
        r < 1000,
{
    duration.subsec_millis()
}

/// A duration in milliseconds.
pub open spec fn millis_of(duration: Duration) -> nat {
    (duration_secs(duration) * 1000 + duration_subsec_millis(duration)) as nat
}

/// The milliseconds that `secs` whole seconds and `subsec_millis` more
/// milliseconds come to, if the module can sleep for so long.
pub fn sleep_millis(secs: u64, subsec_millis: u32) -> (r: Option<u32>)
    ensures
        can_sleep_for((secs * 1000 + subsec_millis) as nat) ==> r == Some(
            (secs * 1000 + subsec_millis) as u32,
        ),
        !can_sleep_for((secs * 1000 + subsec_millis) as nat) ==> r is None,
{
    if secs > 4_294_967 {
        return None;
    }
    let millis: u64 = secs * 1000 + subsec_millis as u64;
    if millis < 100 || millis > 0xffff_ffff {
        None
    } else {
        Some(millis as u32)
    }
}

/// Whether the module can sleep for so many milliseconds: at least 100,
/// and no more than 32 bits hold.
pub open spec fn can_sleep_for(millis: nat) -> bool {
    100 <= millis <= u32::MAX
}

/// The model that a version text names.
pub open spec fn model_of<E>(reply: Result<Seq<u8>, Error<E>>) -> Result<Model, Error<E>> {
    match as_text(reply) {
        Err(e) => Err(e),
        Ok(line) => if text("RN2483").is_prefix_of(line) {
            Ok(Model::RN2483)
        } else if text("RN2903").is_prefix_of(line) {
            Ok(Model::RN2903)
        } else {
            Err(Error::ParsingError)
        },
    }
}

/// The voltage that a reply states, in millivolts.
pub open spec fn vdd_of<E>(reply: Result<Seq<u8>, Error<E>>) -> Result<u16, Error<E>> {
    match as_text(reply) {
        Err(e) => Err(e),
        Ok(line) => match unsigned_of(line, u16::MAX as nat) {
            Some(n) => Ok(n as u16),
            None => Err(Error::ParsingError),
        },
    }
}

/// The first address of the non-volatile memory that can be used.
pub const NVM_FIRST: u16 = 0x300;

/// The last address of the non-volatile memory that can be used.
pub const NVM_LAST: u16 = 0x3ff;

/// Whether `addr` is an address of the non-volatile memory.
pub open spec fn is_nvm_address(addr: u16) -> bool {
    NVM_FIRST <= addr <= NVM_LAST
}

/// The command that sets a byte of the non-volatile memory:
/// `sys set nvm <address> <byte>`, both in hex, the address without leading
/// zeros.
pub open spec fn nvm_set_command(addr: u16, byte: u8) -> Seq<u8> {
    text("sys set nvm ") + hex_number(addr as nat) + text(" ") + hex_lower(seq![byte])
}

/// The command that reads a byte of the non-volatile memory:
/// `sys get nvm <address>`.
pub open spec fn nvm_get_command(addr: u16) -> Seq<u8> {
    text("sys get nvm ") + hex_number(addr as nat)
}

/// The byte that a reply states in hex: two hex digits and nothing else.
pub open spec fn nvm_byte_of<E>(reply: Result<Seq<u8>, Error<E>>) -> Result<u8, Error<E>> {
    match reply {
        Err(e) => Err(e),
        Ok(line) => if line.len() == 2 && is_hex(line) {
            Ok(hex_bytes(line)[0])
        } else {
            Err(Error::ParsingError)
        },
    }
}

/// The sleep command: `sys sleep <milliseconds>`.
pub open spec fn sleep_command(millis: nat) -> Seq<u8> {
    text("sys sleep ") + decimal(millis)
}

/// Write an address of the non-volatile memory in hex, without leading
/// zeros.
fn nvm_address<'a, E>(addr: u16, buf: &'a mut [u8; 4]) -> (r: RnResult<&'a str, E>)
    requires
        is_nvm_address(addr),
    ensures
        r is Ok,
        r->Ok_0.spec_bytes() == hex_number(addr as nat),
{
    let be: [u8; 2] = [(addr / 256) as u8, (addr % 256) as u8];
    let n = encode_hex(&be, buf);
    proof {
        let hex = hex_lower(be@);
        assert(buf@ =~= hex);
        lemma_hex_is_ascii(be@);
        lemma_ascii_is_utf8(hex);
        reveal_with_fuel(hex_number, 3);
        reveal_with_fuel(trim_zeros, 3);
        let lo = be@[1];
        assert(be@[0] == 3);
        assert(hex[0] == 0x30 && hex[1] == 0x33);
        assert(hex.drop_first()[0] == 0x33);
        assert(trim_zeros(hex) == hex.drop_first());
        assert(lo / 16 == (addr / 16) % 16 && lo % 16 == addr % 16);
        assert(hex.drop_first() =~= hex_number(addr as nat));
    }
    match from_utf8(buf.as_slice()) {
        Ok(hex) => Ok(ltrim_hex(hex)),
        Err(e) => Err(Error::from(e)),
    }
}

/// What waiting for the wake-up gives for the line that was read.
pub open spec fn awakened<E>(reply: Result<Seq<u8>, Error<E>>) -> Result<(), Error<E>> {
    match reply {
        Err(e) => Err(e),
        Ok(line) => if line == text("ok") {
            Ok(())
        } else {
            Err(Error::ParsingError)
        },
    }
}

/// Read the model from a version text.
pub fn parse_model<E>(version: &str) -> (r: Result<Model, Error<E>>)
    ensures
        r == model_of::<E>(Ok(text(version))),
{
    proof {
        encode_utf8_valid_utf8(version@);
    }
    if begins_with(version.as_bytes(), "RN2483") {
        Ok(Model::RN2483)
    } else if begins_with(version.as_bytes(), "RN2903") {
        Ok(Model::RN2903)
    } else {
        Err(Error::ParsingError)
    }
}

/// Read the voltage from a reply.
pub fn parse_vdd<E>(vdd: &str) -> (r: Result<u16, Error<E>>)
    ensures
        r == vdd_of::<E>(Ok(text(vdd))),
{
    proof {
        encode_utf8_valid_utf8(vdd@);
    }
    match parse_unsigned(vdd.as_bytes(), 0xffff) {
        Some(n) => Ok(n as u16),
        None => Err(Error::ParsingError),
    }
}

/// Read a byte of the non-volatile memory from a reply.
pub fn parse_nvm_byte<E>(line: &[u8]) -> (r: Result<u8, Error<E>>)
    ensures
        r == nvm_byte_of::<E>(Ok(line@)),
{
    if line.len() != 2 {
        return Err(Error::ParsingError);
    }
    let mut buf: [u8; 1] = [0;1];
    match decode_hex(line, &mut buf) {
        Ok(_) => Ok(buf[0]),
        Err(_) => Err(Error::ParsingError),
    }
}

/// Decide on the line that ended the wait for the wake-up.
pub fn parse_wake<E>(line: &[u8]) -> (r: Result<(), Error<E>>)
    ensures
        r == awakened::<E>(Ok(line@)),
{
    if is_token(line, "ok") {
        Ok(())
    } else {
        Err(Error::ParsingError)
    }
}

/// The sleep flag after a sleep request that ended in `r`: a request that
/// went out sets it, one that did not leaves it as it was.
pub open spec fn asleep_after_sleep<E>(asleep: bool, r: Result<(), Error<E>>) -> bool {
    asleep || r is Ok
}

/// The sleep flag after waiting for the wake-up, where `reply` is what the
/// line read gave: any line clears the flag, whatever it says; where no line
/// could be read, the flag is as it was.
pub open spec fn asleep_after_wake<E>(asleep: bool, reply: Result<Seq<u8>, Error<E>>) -> bool {
    asleep && reply is Err
}

/// Sleep gating, from the request to the wake-up.
///
/// After a sleep request that went out, a write does nothing on the link
/// and fails with `SleepMode`. After waiting for the wake-up has then read
/// a line, whatever the line says, the sleep flag is cleared, and a write
/// no longer fails with `SleepMode`: it fails only where the link does.
pub proof fn lemma_sleep_gates_until_wake<E>(
    bytes: Seq<u8>,
    line: Seq<u8>,
    while_asleep: Seq<Io<E>>,
    refused: Result<(), Error<E>>,
    once_awake: Seq<Io<E>>,
    let_through: Result<(), Error<E>>,
)
    requires
        is_gated_write(
            asleep_after_sleep::<E>(false, Ok(())),
            while_asleep,
            bytes,
            refused,
        ),
        is_gated_write(
            asleep_after_wake::<E>(asleep_after_sleep::<E>(false, Ok(())), Ok(line)),
            once_awake,
            bytes,
            let_through,
        ),
    ensures
        while_asleep.len() == 0,
        refused == Err::<(), Error<E>>(Error::SleepMode),
        !asleep_after_wake::<E>(true, Ok(line)),
        let_through is Ok || let_through is Err && let_through->Err_0 is SerialWrite,
{
}

/// System commands.
impl<F: Frequency, S: Transport> Driver<F, S> {
    /// Reset and restart the RN module. Return the version string.
    pub fn reset(&mut self) -> (r: RnResult<&str, S::Error>)
        ensures
            final(self).asleep() == old(self).asleep(),
            extends(old(self).trace(), final(self).trace()),
            command_gives(
                old(self).asleep(),
                added(old(self).trace(), final(self).trace()),
                frame(text("sys reset")),
                |reply: RnResult<Seq<u8>, S::Error>| as_text(reply),
                text_view(r),
            ),
    {
        self.query("sys reset")
    }

    /// Reset the module's configuration data and user EEPROM to factory
    /// default values and restart the module.
    ///
    /// All configuration parameters will be restored to factory default
    /// values. Return the version string.
    pub fn factory_reset(&mut self) -> (r: RnResult<&str, S::Error>)
        ensures
            final(self).asleep() == old(self).asleep(),
            extends(old(self).trace(), final(self).trace()),
            command_gives(
                old(self).asleep(),
                added(old(self).trace(), final(self).trace()),
                frame(text("sys factoryRESET")),
                |reply: RnResult<Seq<u8>, S::Error>| as_text(reply),
                text_view(r),
            ),
    {
        self.query("sys factoryRESET")
    }

    /// Return the preprogrammed EUI node address as uppercase hex string.
    pub fn hweui(&mut self) -> (r: RnResult<&str, S::Error>)
        ensures
            final(self).asleep() == old(self).asleep(),
            extends(old(self).trace(), final(self).trace()),
            command_gives(
                old(self).asleep(),
                added(old(self).trace(), final(self).trace()),
                frame(text("sys get hweui")),
                |reply: RnResult<Seq<u8>, S::Error>| as_text(reply),
                text_view(r),
            ),
    {
        self.query("sys get hweui")
    }

    /// Return the version string.
    pub fn version(&mut self) -> (r: RnResult<&str, S::Error>)
        ensures
            final(self).asleep() == old(self).asleep(),
            extends(old(self).trace(), final(self).trace()),
            command_gives(
                old(self).asleep(),
                added(old(self).trace(), final(self).trace()),
                frame(text("sys get ver")),
                |reply: RnResult<Seq<u8>, S::Error>| as_text(reply),
                text_view(r),
            ),
    {
        self.query("sys get ver")
    }

    /// Return the model of the module.
    ///
    /// The version string has to begin with the model's name; anything else
    /// is an `Error::ParsingError`.
    pub fn model(&mut self) -> (r: RnResult<Model, S::Error>)
        ensures
            final(self).asleep() == old(self).asleep(),
            extends(old(self).trace(), final(self).trace()),
            command_gives(
                old(self).asleep(),
                added(old(self).trace(), final(self).trace()),
                frame(text("sys get ver")),
                |reply: RnResult<Seq<u8>, S::Error>| model_of(reply),
                r,
            ),
    {
        let version = match self.version() {
            Ok(v) => v,
            Err(e) => {
                return Err(e);
            },
        };
        parse_model(version)
    }

    /// Measure and return the Vdd voltage in millivolts.
    pub fn vdd(&mut self) -> (r: RnResult<u16, S::Error>)
        ensures
            final(self).asleep() == old(self).asleep(),
            extends(old(self).trace(), final(self).trace()),
            command_gives(
                old(self).asleep(),
                added(old(self).trace(), final(self).trace()),
                frame(text("sys get vdd")),
                |reply: RnResult<Seq<u8>, S::Error>| vdd_of(reply),
                r,
            ),
    {
        let vdd = match self.query("sys get vdd") {
            Ok(v) => v,
            Err(e) => {
                return Err(e);
            },
        };
        parse_vdd(vdd)
    }

    /// Set the NVM byte at `addr` to the specified value.
    ///
    /// The address must be between 0x300 and 0x3ff, otherwise
    /// `Error::BadParameter` is returned and nothing is written.
    pub fn nvm_set(&mut self, addr: u16, byte: u8) -> (r: RnResult<(), S::Error>)
        ensures
            final(self).asleep() == old(self).asleep(),
            extends(old(self).trace(), final(self).trace()),
            !is_nvm_address(addr) ==> final(self).trace() == old(self).trace() && r == Err::<
                (),
                Error<S::Error>,
            >(Error::BadParameter),
            is_nvm_address(addr) ==> command_gives(
                old(self).asleep(),
                added(old(self).trace(), final(self).trace()),
                frame(nvm_set_command(addr, byte)),
                |reply: RnResult<Seq<u8>, S::Error>| acknowledged(reply),
                r,
            ),
    {
        proof {
            lemma_unchanged(self.trace());
        }
        if addr < 0x300 || addr > 0x3ff {
            return Err(Error::BadParameter);
        }
        let mut hex_addr_buf: [u8; 4] = [0;4];
        let hex_addr = match nvm_address::<S::Error>(addr, &mut hex_addr_buf) {
            Ok(s) => s,
            Err(e) => {
                return Err(e);
            },
        };
        let hex_byte_bytes = encode_hex_byte(byte);
        proof {
            lemma_hex_is_ascii(seq![byte]);
            lemma_ascii_is_utf8(hex_byte_bytes@);
        }
        let hex_byte = match from_utf8(hex_byte_bytes.as_slice()) {
            Ok(s) => s,
            Err(e) => {
                return Err(Error::from(e));
            },
        };
        let args: [&str; 4] = ["sys set nvm ", hex_addr, " ", hex_byte];
        proof {
            lemma_command_bytes(args@);
        }
        self.send_raw_command_ok(&args)
    }

    /// Get the NVM byte at `addr`.
    ///
    /// The address must be between 0x300 and 0x3ff, otherwise
    /// `Error::BadParameter` is returned and nothing is written. The
    /// response has to be one byte in hex; anything else is an
    /// `Error::ParsingError`.
    pub fn nvm_get(&mut self, addr: u16) -> (r: RnResult<u8, S::Error>)
        ensures
            final(self).asleep() == old(self).asleep(),
            extends(old(self).trace(), final(self).trace()),
            !is_nvm_address(addr) ==> final(self).trace() == old(self).trace() && r == Err::<
                u8,
                Error<S::Error>,
            >(Error::BadParameter),
            is_nvm_address(addr) ==> command_gives(
                old(self).asleep(),
                added(old(self).trace(), final(self).trace()),
                frame(nvm_get_command(addr)),
                |reply: RnResult<Seq<u8>, S::Error>| nvm_byte_of(reply),
                r,
            ),
    {
        proof {
            lemma_unchanged(self.trace());
        }
        if addr < 0x300 || addr > 0x3ff {
            return Err(Error::BadParameter);
        }
        let mut hex_addr_buf: [u8; 4] = [0;4];
        let hex_addr = match nvm_address::<S::Error>(addr, &mut hex_addr_buf) {
            Ok(s) => s,
            Err(e) => {
                return Err(e);
            },
        };
        let args: [&str; 2] = ["sys get nvm ", hex_addr];
        proof {
            lemma_command_bytes(args@);
        }
        let ghost before = self.trace();
        let sent = self.exchange(&args);
        proof {
            assert(is_command(
                old(self).asleep(),
                added(before, self.trace()),
                frame(nvm_get_command(addr)),
                self.held(sent),
            ));
        }
        let n = match sent {
            Ok(n) => n,
            Err(e) => {
                return Err(e);
            },
        };
        parse_nvm_byte(self.line(n))
    }

    /// Put the system to sleep (with millisecond precision).
    ///
    /// The duration has to be at least 100 milliseconds and less than 2^32
    /// milliseconds, otherwise `Error::BadParameter` is returned and
    /// nothing is written.
    ///
    /// The module can be forced to exit from sleep by sending a break
    /// condition followed by a 0x55 character at the new baud rate.
    ///
    /// **Note:** This command is asynchronous, it will *not* wait for the
    /// module to wake up. Once the command is written, the sleep flag is
    /// set, and every command fails with `Error::SleepMode` until
    /// `wait_for_wakeup()` has cleared it.
    pub fn sleep(&mut self, duration: Duration) -> (r: RnResult<(), S::Error>)
        ensures
            extends(old(self).trace(), final(self).trace()),
            !can_sleep_for(millis_of(duration)) ==> {
                &&& r == Err::<(), Error<S::Error>>(Error::BadParameter)
                &&& final(self).trace() == old(self).trace()
                &&& final(self).asleep() == old(self).asleep()
            },
            can_sleep_for(millis_of(duration)) ==> {
                &&& is_gated_write(
                    old(self).asleep(),
                    added(old(self).trace(), final(self).trace()),
                    frame(sleep_command(millis_of(duration))),
                    r,
                )
                &&& final(self).asleep() == asleep_after_sleep(old(self).asleep(), r)
            },
    {
        proof {
            lemma_unchanged(self.trace());
        }
        // Split duration into seconds and milliseconds
        let secs: u64 = whole_secs(&duration);
        let subsec: u32 = subsec_millis(&duration);

        // Millis must be in the range [100, 2^32).
        let millis: u32 = match sleep_millis(secs, subsec) {
            Some(millis) => millis,
            None => {
                return Err(Error::BadParameter);
            },
        };

        let mut buf: [u8; 10] = [0;10];
        let text = u32_to_str(millis, &mut buf);
        let args: [&str; 2] = ["sys sleep ", text];
        proof {
            lemma_command_bytes(args@);
        }
        match self.send_raw_command_nowait(&args) {
            Ok(()) => {},
            Err(e) => {
                return Err(e);
            },
        }
        self.set_asleep(true);
        Ok(())
    }

    /// After sleep mode has been enabled, wait for wakeup and clear the
    /// sleep flag.
    ///
    /// If a sleep is in progress, this will block until the module sends a
    /// line on the serial bus.
    ///
    /// If the sleep flag is not set, then the method will return
    /// immediately without a serial read unless the `force` flag is set to
    /// `true`. This is required if you create a new driver instance for a
    /// module that is still in sleep mode.
    ///
    /// **Note:** If the module responds with a response that is not the
    /// string `"ok"`, an `Error::ParsingError` will be returned, but the
    /// sleep flag will still be cleared (since the module is obviously not
    /// in sleep mode anymore). Where no line could be read, the flag is
    /// left as it was.
    pub fn wait_for_wakeup(&mut self, force: bool) -> (r: RnResult<(), S::Error>)
        ensures
            extends(old(self).trace(), final(self).trace()),
            !force && !old(self).asleep() ==> {
                &&& r == Ok::<(), Error<S::Error>>(())
                &&& final(self).trace() == old(self).trace()
                &&& !final(self).asleep()
            },
            force || old(self).asleep() ==> exists|reply: RnResult<Seq<u8>, S::Error>|
                {
                    &&& #[trigger] is_line_read(
                        added(old(self).trace(), final(self).trace()),
                        reply,
                    )
                    &&& r == awakened(reply)
                    &&& final(self).asleep() == asleep_after_wake(old(self).asleep(), reply)
                },
    {
        // If no sleep is in progress, return immediately
        if !force && !self.is_asleep() {
            proof {
                lemma_unchanged(self.trace());
            }
            return Ok(());
        }
        // Wait for "ok" response.
        // If any response is returned, the sleep flag will be cleared.
        let ghost before = self.trace();
        let read = self.fill_line();
        proof {
            assert(is_line_read(added(before, self.trace()), self.held(read)));
        }
        let n = match read {
            Ok(n) => n,
            Err(e) => {
                return Err(e);
            },
        };
        let r = parse_wake(self.line(n));
        let ghost line = self.buffered(n);
        self.set_asleep(false);
        proof {
            assert(is_line_read(
                added(before, self.trace()),
                Ok::<Seq<u8>, Error<S::Error>>(line),
            ));
        }
        r
    }
}

} // verus!
