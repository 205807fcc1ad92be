//! The driver instance and the basic commands: framing of outgoing
//! commands and reception of response lines.

use core::marker::PhantomData;
use crate::errors::{Error, RnResult};
use crate::framing::{
    acknowledged, added, as_text, command_bytes, command_gives, CR, ends_line, extends, frame,
    is_command, is_gated_write, is_line_read, lemma_appended, lemma_chained, lemma_command_bytes,
    lemma_command_split, lemma_split, lemma_unchanged, lemma_write_continued, LF, LINE_CAPACITY,
    line_view, received, sent, text_view, unterminated,
};
use crate::text::{from_utf8, is_token, text};
use crate::transport::{Io, Port, Transport};
use vstd::prelude::*;
use vstd::slice::slice_subrange;

verus! {

/// Marker trait implemented for all models / frequencies.
pub trait Frequency {

}

/// Frequency type parameter for the RN2483 (433 MHz).
pub struct Freq433;

/// Frequency type parameter for the RN2483 (868 MHz).
pub struct Freq868;

/// Frequency type parameter for the RN2903 (915 MHz).
pub struct Freq915;

impl Frequency for Freq433 {

}

impl Frequency for Freq868 {

}

impl Frequency for Freq915 {

}

/// The main driver instance.
pub struct Driver<F: Frequency, S: Transport> {
    /// Marker type with the module frequency.
    frequency: PhantomData<F>,
    /// Serial port, with the record of what was done on it.
    port: Port<S>,
    /// Read buffer.
    read_buf: [u8; LINE_CAPACITY],
    /// This flag is set when entering sleep mode. As long as it is set,
    /// sending any command will be prevented.
    sleep: bool,
}

/// Create a new driver instance for the RN2483 (433 MHz), wrapping the
/// specified serial port.
pub fn rn2483_433<S: Transport>(serial: S) -> (r: Driver<Freq433, S>)
    ensures
        !r.asleep(),
        r.trace() == Seq::<Io<S::Error>>::empty(),
        r.link() == serial,
{
    Driver { frequency: PhantomData, port: Port::new(serial), read_buf: [0; LINE_CAPACITY], sleep: false }
}

/// Create a new driver instance for the RN2483 (868 MHz), wrapping the
/// specified serial port.
pub fn rn2483_868<S: Transport>(serial: S) -> (r: Driver<Freq868, S>)
    ensures
        !r.asleep(),
        r.trace() == Seq::<Io<S::Error>>::empty(),
        r.link() == serial,
{
    Driver { frequency: PhantomData, port: Port::new(serial), read_buf: [0; LINE_CAPACITY], sleep: false }
}

/// Create a new driver instance for the RN2903 (915 MHz), wrapping the
/// specified serial port.
pub fn rn2903_915<S: Transport>(serial: S) -> (r: Driver<Freq915, S>)
    ensures
        !r.asleep(),
        r.trace() == Seq::<Io<S::Error>>::empty(),
        r.link() == serial,
{
    Driver { frequency: PhantomData, port: Port::new(serial), read_buf: [0; LINE_CAPACITY], sleep: false }
}

/// Decide on the reply to a command that the module has to acknowledge.
pub fn parse_ack<E>(line: &[u8]) -> (r: Result<(), Error<E>>)
    ensures
        r == acknowledged::<E>(Ok(line@)),
{
    if is_token(line, "ok") {
        Ok(())
    } else {
        Err(Error::CommandFailed)
    }
}

/// Basic commands.
impl<F: Frequency, S: Transport> Driver<F, S> {
    /// Every call made on the serial port since the driver was created.
    pub closed spec fn trace(&self) -> Seq<Io<S::Error>> {
        self.port.trace()
    }

    /// Whether the driver believes the module to be in sleep mode.
    pub closed spec fn asleep(&self) -> bool {
        self.sleep
    }

    /// The serial port that the driver owns, as it is now.
    pub closed spec fn link(&self) -> S {
        self.port.link()
    }

    /// The first `n` bytes of the read buffer.
    pub closed spec fn buffered(&self, n: usize) -> Seq<u8> {
        self.read_buf@.take(n as int)
    }

    /// The line that a read has left in the buffer, given what it returned:
    /// the first `n` bytes of the buffer for `Ok(n)`.
    pub open spec fn held(&self, r: RnResult<usize, S::Error>) -> RnResult<Seq<u8>, S::Error> {
        match r {
            Ok(n) => Ok(self.buffered(n)),
            Err(e) => Err(e),
        }
    }

    /// The first `n` bytes of the read buffer.
    pub(crate) fn line(&self, n: usize) -> (r: &[u8])
        requires
            n <= LINE_CAPACITY,
        ensures
            r@ == self.buffered(n),
            r@.len() == n,
    {
        slice_subrange(self.read_buf.as_slice(), 0, n)
    }

    /// Set or clear the sleep flag.
    pub(crate) fn set_asleep(&mut self, asleep: bool)
        ensures
            final(self).asleep() == asleep,
            final(self).trace() == old(self).trace(),
    {
        self.sleep = asleep;
    }

    /// Take a byte from the serial port if one is waiting.
    pub(crate) fn poll_byte(&mut self) -> (r: RnResult<Option<u8>, S::Error>)
        ensures
            final(self).asleep() == old(self).asleep(),
            match r {
                Ok(Some(b)) => final(self).trace() == old(self).trace().push(Io::Polled(b)),
                Ok(None) => final(self).trace() == old(self).trace().push(Io::Idle),
                Err(Error::SerialRead(e)) => final(self).trace() == old(self).trace().push(
                    Io::PollFailed(e),
                ),
                Err(_) => false,
            },
    {
        match self.port.poll() {
            Ok(b) => Ok(b),
            Err(e) => Err(Error::SerialRead(e)),
        }
    }

    /// Whether the driver believes the module to be in sleep mode.
    pub fn is_asleep(&self) -> (r: bool)
        ensures
            r == self.asleep(),
    {
        self.sleep
    }

    /// Write a single byte to the serial port.
    ///
    /// The `sleep` flag is not checked here: the callers do that.
    fn write_byte(&mut self, byte: u8) -> (r: RnResult<(), S::Error>)
        ensures
            final(self).asleep() == old(self).asleep(),
            match r {
                Ok(_) => final(self).trace() == old(self).trace().push(Io::Wrote(byte)),
                Err(Error::SerialWrite(e)) => final(self).trace() == old(self).trace().push(
                    Io::WriteFailed(byte, e),
                ),
                Err(_) => false,
            },
    {
        match self.port.write(byte) {
            Ok(()) => Ok(()),
            Err(e) => Err(Error::SerialWrite(e)),
        }
    }

    /// Ensure that the device is not currently in sleep mode.
    ///
    /// Returns `Error::SleepMode` if the sleep flag is set.
    pub fn ensure_not_in_sleep_mode(&self) -> (r: RnResult<(), S::Error>)
        ensures
            self.asleep() ==> r == Err::<(), Error<S::Error>>(Error::SleepMode),
            !self.asleep() ==> r == Ok::<(), Error<S::Error>>(()),
    {
        if self.sleep {
            Err(Error::SleepMode)
        } else {
            Ok(())
        }
    }

    /// Write all bytes from the buffer to the serial port.
    ///
    /// In sleep mode nothing is written and `Error::SleepMode` is returned.
    pub fn write_all(&mut self, buffer: &[u8]) -> (r: RnResult<(), S::Error>)
        ensures
            final(self).asleep() == old(self).asleep(),
            extends(old(self).trace(), final(self).trace()),
            is_gated_write(
                old(self).asleep(),
                added(old(self).trace(), final(self).trace()),
                buffer@,
                r,
            ),
    {
        match self.ensure_not_in_sleep_mode() {
            Ok(()) => {},
            Err(e) => {
                proof {
                    lemma_unchanged(self.trace());
                }
                return Err(e);
            },
        }
        let ghost before = self.trace();
        let mut i: usize = 0;
        while i < buffer.len()
            invariant
                0 <= i <= buffer.len(),
                self.sleep == old(self).sleep,
                !self.sleep,
                before == old(self).trace(),
                self.trace() == before + sent::<S::Error>(buffer@.take(i as int)),
            decreases buffer.len() - i,
        {
            match self.write_byte(buffer[i]) {
                Ok(()) => {},
                Err(e) => {
                    proof {
                        let events = sent::<S::Error>(buffer@.take(i as int)).push(
                            Io::WriteFailed(buffer@[i as int], e->SerialWrite_0),
                        );
                        assert(self.trace() =~= before + events);
                        lemma_appended(before, events);
                    }
                    return Err(e);
                },
            }
            proof {
                assert(sent::<S::Error>(buffer@.take(i as int)).push(Io::Wrote(buffer@[i as int]))
                    =~= sent::<S::Error>(buffer@.take(i + 1)));
            }
            i += 1;
        }
        proof {
            assert(buffer@.take(i as int) =~= buffer@);
            lemma_appended(before, sent::<S::Error>(buffer@));
        }
        Ok(())
    }

    /// Write CR+LF bytes.
    ///
    /// In sleep mode nothing is written and `Error::SleepMode` is returned.
    pub fn write_crlf(&mut self) -> (r: RnResult<(), S::Error>)
        ensures
            final(self).asleep() == old(self).asleep(),
            extends(old(self).trace(), final(self).trace()),
            is_gated_write(
                old(self).asleep(),
                added(old(self).trace(), final(self).trace()),
                seq![CR, LF],
                r,
            ),
    {
        let crlf: [u8; 2] = [CR, LF];
        assert(crlf@ =~= seq![CR, LF]);
        self.write_all(crlf.as_slice())
    }

    /// Read a single byte from the serial port.
    fn read_byte(&mut self) -> (r: RnResult<u8, S::Error>)
        ensures
            final(self).asleep() == old(self).asleep(),
            final(self).read_buf == old(self).read_buf,
            match r {
                Ok(b) => final(self).trace() == old(self).trace().push(Io::Got(b)),
                Err(Error::SerialRead(e)) => final(self).trace() == old(self).trace().push(
                    Io::ReadFailed(e),
                ),
                Err(_) => false,
            },
    {
        match self.port.read() {
            Ok(b) => Ok(b),
            Err(e) => Err(Error::SerialRead(e)),
        }
    }

    /// Read a CR/LF terminated line into the buffer and return its length,
    /// the terminator not counted.
    pub(crate) fn fill_line(&mut self) -> (r: RnResult<usize, S::Error>)
        ensures
            final(self).asleep() == old(self).asleep(),
            extends(old(self).trace(), final(self).trace()),
            is_line_read(added(old(self).trace(), final(self).trace()), final(self).held(r)),
            r matches Ok(n) ==> n + 2 <= LINE_CAPACITY && final(self).buffered(n).len() == n,
    {
        let ghost before = self.trace();
        let ghost mut got: Seq<u8> = Seq::empty();
        let mut i: usize = 0;
        assert(before + received::<S::Error>(got) =~= before);
        loop
            invariant
                0 <= i < LINE_CAPACITY,
                self.sleep == old(self).sleep,
                before == old(self).trace(),
                got.len() == i,
                got == self.read_buf@.take(i as int),
                unterminated(got),
                self.trace() == before + received::<S::Error>(got),
            decreases LINE_CAPACITY - i,
        {
            let byte = match self.read_byte() {
                Ok(b) => b,
                Err(e) => {
                    proof {
                        let events = received::<S::Error>(got).push(
                            Io::ReadFailed(e->SerialRead_0),
                        );
                        assert(self.trace() =~= before + events);
                        lemma_appended(before, events);
                    }
                    return Err(e);
                },
            };
            if byte == LF && i >= 1 && self.read_buf[i - 1] == CR {
                proof {
                    let line = self.buffered((i - 1) as usize);
                    assert(line.push(CR) =~= got);
                    let events = received::<S::Error>(line.push(CR).push(LF));
                    assert(self.trace() =~= before + events);
                    lemma_appended(before, events);
                }
                return Ok(i - 1);
            }
            self.read_buf[i] = byte;
            proof {
                let longer = got.push(byte);
                assert forall|j: int| !#[trigger] ends_line(longer, j) by {
                    if j < got.len() {
                        assert(!ends_line(got, j));
                    }
                }
                assert(received::<S::Error>(got).push(Io::Got(byte)) =~= received::<S::Error>(
                    longer,
                ));
                got = longer;
                assert(got =~= self.read_buf@.take(i + 1));
            }
            i += 1;
            if i >= LINE_CAPACITY {
                proof {
                    lemma_appended(before, received::<S::Error>(got));
                }
                return Err(Error::ReadBufferTooSmall);
            }
        }
    }

    /// Read a CR/LF terminated line from the serial port.
    ///
    /// The line is returned without the line termination. It lives in the
    /// driver's buffer, which the next read overwrites. A line feed ends the
    /// line only where the byte before it was a carriage return.
    pub fn read_line(&mut self) -> (r: RnResult<&[u8], S::Error>)
        ensures
            final(self).asleep() == old(self).asleep(),
            extends(old(self).trace(), final(self).trace()),
            is_line_read(added(old(self).trace(), final(self).trace()), line_view(r)),
    {
        match self.fill_line() {
            Ok(n) => Ok(self.line(n)),
            Err(e) => Err(e),
        }
    }

    /// Send a raw command to the module and do not wait for the response.
    ///
    /// The fragments of `command` go out one after another, followed by
    /// CR+LF. In sleep mode nothing is written and `Error::SleepMode` is
    /// returned. For a command that the module answers, the response has to
    /// be read with `read_line()`.
    pub fn send_raw_command_nowait(&mut self, command: &[&str]) -> (r: RnResult<(), S::Error>)
        ensures
            final(self).asleep() == old(self).asleep(),
            extends(old(self).trace(), final(self).trace()),
            is_gated_write(
                old(self).asleep(),
                added(old(self).trace(), final(self).trace()),
                frame(command_bytes(command@)),
                r,
            ),
    {
        match self.ensure_not_in_sleep_mode() {
            Ok(()) => {},
            Err(e) => {
                proof {
                    lemma_unchanged(self.trace());
                }
                return Err(e);
            },
        }
        let ghost before = self.trace();
        let ghost whole = frame(command_bytes(command@));
        let mut i: usize = 0;
        assert(before + sent::<S::Error>(command_bytes(command@.take(0))) =~= before);
        while i < command.len()
            invariant
                0 <= i <= command.len(),
                self.sleep == old(self).sleep,
                !self.sleep,
                before == old(self).trace(),
                whole == frame(command_bytes(command@)),
                self.trace() == before + sent::<S::Error>(command_bytes(command@.take(i as int))),
            decreases command.len() - i,
        {
            let ghost mid = self.trace();
            let ghost done = command_bytes(command@.take(i as int));
            let part = command[i].as_bytes();
            let w = self.write_all(part);
            proof {
                lemma_command_split(command@, i as int);
                let tail = choose|rest: Seq<u8>|
                    command_bytes(command@) == #[trigger] (command_bytes(command@.take(i + 1))
                        + rest);
                let rest = tail.push(CR).push(LF);
                assert(whole =~= done + part@ + rest);
                let events = added(mid, self.trace());
                lemma_split(mid, self.trace());
                lemma_write_continued(done, part@, rest, events, w);
                assert(self.trace() =~= before + (sent::<S::Error>(done) + events));
                lemma_appended(before, sent::<S::Error>(done) + events);
            }
            match w {
                Ok(()) => {},
                Err(e) => {
                    return Err(e);
                },
            }
            i += 1;
        }
        let ghost mid = self.trace();
        let ghost done = command_bytes(command@);
        let w = self.write_crlf();
        proof {
            assert(command@.take(i as int) =~= command@);
            assert(whole =~= done + seq![CR, LF] + Seq::<u8>::empty());
            assert(whole =~= done + seq![CR, LF]);
            let events = added(mid, self.trace());
            lemma_split(mid, self.trace());
            lemma_write_continued(done, seq![CR, LF], Seq::<u8>::empty(), events, w);
            assert(self.trace() =~= before + (sent::<S::Error>(done) + events));
            lemma_appended(before, sent::<S::Error>(done) + events);
        }
        w
    }

    /// Send a raw command to the module, read the response into the buffer
    /// and return its length.
    pub(crate) fn exchange(&mut self, command: &[&str]) -> (r: RnResult<usize, S::Error>)
        ensures
            final(self).asleep() == old(self).asleep(),
            extends(old(self).trace(), final(self).trace()),
            is_command(
                old(self).asleep(),
                added(old(self).trace(), final(self).trace()),
                frame(command_bytes(command@)),
                final(self).held(r),
            ),
            r matches Ok(n) ==> n + 2 <= LINE_CAPACITY && final(self).buffered(n).len() == n,
    {
        let ghost before = self.trace();
        let ghost whole = frame(command_bytes(command@));
        match self.send_raw_command_nowait(command) {
            Ok(()) => {},
            Err(e) => {
                return Err(e);
            },
        }
        let ghost mid = self.trace();
        let r = self.fill_line();
        proof {
            lemma_chained(before, mid, self.trace());
            let events = added(before, self.trace());
            assert(events.take(whole.len() as int) =~= sent::<S::Error>(whole));
            assert(events.skip(whole.len() as int) =~= added(mid, self.trace()));
        }
        r
    }

    /// Send a raw command to the module and return the response.
    ///
    /// The response lives in the driver's buffer, which the next read
    /// overwrites.
    pub fn send_raw_command(&mut self, command: &[&str]) -> (r: RnResult<&[u8], S::Error>)
        ensures
            final(self).asleep() == old(self).asleep(),
            extends(old(self).trace(), final(self).trace()),
            is_command(
                old(self).asleep(),
                added(old(self).trace(), final(self).trace()),
                frame(command_bytes(command@)),
                line_view(r),
            ),
    {
        match self.exchange(command) {
            Ok(n) => Ok(self.line(n)),
            Err(e) => Err(e),
        }
    }

    /// Send a raw command and decode the resulting bytes to a `&str`.
    ///
    /// A response that is not UTF-8 gives `Error::EncodingError`.
    pub fn send_raw_command_str(&mut self, command: &[&str]) -> (r: RnResult<&str, S::Error>)
        ensures
            final(self).asleep() == old(self).asleep(),
            extends(old(self).trace(), final(self).trace()),
            command_gives(
                old(self).asleep(),
                added(old(self).trace(), final(self).trace()),
                frame(command_bytes(command@)),
                |reply: RnResult<Seq<u8>, S::Error>| as_text(reply),
                text_view(r),
            ),
    {
        let ghost before = self.trace();
        let n = match self.exchange(command) {
            Ok(n) => n,
            Err(e) => {
                assert(is_command(
                    old(self).asleep(),
                    added(before, self.trace()),
                    frame(command_bytes(command@)),
                    Err::<Seq<u8>, Error<S::Error>>(e),
                ));
                return Err(e);
            },
        };
        assert(is_command(
            old(self).asleep(),
            added(before, self.trace()),
            frame(command_bytes(command@)),
            self.held(Ok(n)),
        ));
        match from_utf8(self.line(n)) {
            Ok(s) => Ok(s),
            Err(e) => Err(Error::from(e)),
        }
    }

    /// Send a raw command that should be confirmed with 'OK'. If the response
    /// is not 'OK', return `Error::CommandFailed`.
    pub(crate) fn send_raw_command_ok(&mut self, command: &[&str]) -> (r: RnResult<(), S::Error>)
        ensures
            final(self).asleep() == old(self).asleep(),
            extends(old(self).trace(), final(self).trace()),
            command_gives(
                old(self).asleep(),
                added(old(self).trace(), final(self).trace()),
                frame(command_bytes(command@)),
                |reply: RnResult<Seq<u8>, S::Error>| acknowledged(reply),
                r,
            ),
    {
        let ghost before = self.trace();
        let n = match self.exchange(command) {
            Ok(n) => n,
            Err(e) => {
                assert(is_command(
                    old(self).asleep(),
                    added(before, self.trace()),
                    frame(command_bytes(command@)),
                    Err::<Seq<u8>, Error<S::Error>>(e),
                ));
                return Err(e);
            },
        };
        assert(is_command(
            old(self).asleep(),
            added(before, self.trace()),
            frame(command_bytes(command@)),
            self.held(Ok(n)),
        ));
        parse_ack(self.line(n))
    }

    /// Send a command of one fragment and decode the response to a `&str`.
    pub(crate) fn query(&mut self, command: &str) -> (r: RnResult<&str, S::Error>)
        ensures
            final(self).asleep() == old(self).asleep(),
            extends(old(self).trace(), final(self).trace()),
            command_gives(
                old(self).asleep(),
                added(old(self).trace(), final(self).trace()),
                frame(text(command)),
                |reply: RnResult<Seq<u8>, S::Error>| as_text(reply),
                text_view(r),
            ),
    {
        let parts: [&str; 1] = [command];
        proof {
            lemma_command_bytes(parts@);
        }
        self.send_raw_command_str(&parts)
    }

    /// Destroy this driver instance, return the wrapped serial device.
    pub fn free(self) -> (r: S)
        ensures
            r == self.link(),
    {
        self.port.release()
    }
}

} // verus!
