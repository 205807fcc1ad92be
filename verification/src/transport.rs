//! The serial link as the driver sees it: a byte channel, and a record of
//! every call that the driver makes on it.

use vstd::prelude::*;

verus! {

/// A duplex byte channel to the module.
///
/// `write` and `read` block until the byte is through or the link reports an
/// error. `poll` never blocks: it hands out a byte that has already arrived,
/// or `None` where there is none right now.
///
/// Nothing is asked of an implementation. What the driver states of its
/// results and of its traffic, it states of the calls that it made on the
/// link and of what they returned.
pub trait Transport {
    /// The error that the link reports for a failed read or write.
    type Error;

    /// Send one byte.
    fn write(&mut self, byte: u8) -> Result<(), Self::Error>;

    /// Wait for one byte.
    fn read(&mut self) -> Result<u8, Self::Error>;

    /// Take one byte if one is waiting.
    fn poll(&mut self) -> Result<Option<u8>, Self::Error>;
}

/// One call on the link, with what came back.
pub enum Io<E> {
    /// `write` of this byte succeeded.
    Wrote(u8),
    /// `write` of this byte failed.
    WriteFailed(u8, E),
    /// `read` returned this byte.
    Got(u8),
    /// `read` failed.
    ReadFailed(E),
    /// `poll` handed out this byte.
    Polled(u8),
    /// `poll` found nothing waiting.
    Idle,
    /// `poll` failed.
    PollFailed(E),
}

/// The event that a `write` of `byte` leaves, given its result.
pub open spec fn write_event<E>(byte: u8, r: Result<(), E>) -> Io<E> {
    match r {
        Ok(_) => Io::Wrote(byte),
        Err(e) => Io::WriteFailed(byte, e),
    }
}

/// The event that a `read` leaves, given its result.
pub open spec fn read_event<E>(r: Result<u8, E>) -> Io<E> {
    match r {
        Ok(b) => Io::Got(b),
        Err(e) => Io::ReadFailed(e),
    }
}

/// The event that a `poll` leaves, given its result.
pub open spec fn poll_event<E>(r: Result<Option<u8>, E>) -> Io<E> {
    match r {
        Ok(Some(b)) => Io::Polled(b),
        Ok(None) => Io::Idle,
        Err(e) => Io::PollFailed(e),
    }
}

/// A link together with the trace of all calls made on it so far.
///
/// The link itself is reachable only through the three calls below, and each
/// of them appends its event to the trace: what the trace does not show did
/// not happen.
pub struct Port<S: Transport> {
    serial: S,
    log: Ghost<Seq<Io<S::Error>>>,
}

impl<S: Transport> Port<S> {
    /// Every call made on the link since `new`, oldest first.
    pub closed spec fn trace(&self) -> Seq<Io<S::Error>> {
        self.log@
    }

    /// The link inside, as it is now.
    pub closed spec fn link(&self) -> S {
        self.serial
    }

    /// Take ownership of a link; nothing has been done on it yet.
    pub fn new(serial: S) -> (r: Self)
        ensures
            r.trace() == Seq::<Io<S::Error>>::empty(),
            r.link() == serial,
    {
        Port { serial, log: Ghost(Seq::empty()) }
    }

    /// Give the link back.
    pub fn release(self) -> (r: S)
        ensures
            r == self.link(),
    {
        self.serial
    }

    /// Send one byte and record the call.
    pub fn write(&mut self, byte: u8) -> (r: Result<(), S::Error>)
        ensures
            final(self).trace() == old(self).trace().push(write_event(byte, r)),
    {
        let r = self.serial.write(byte);
        proof {
            self.log@ = self.log@.push(write_event(byte, r));
        }
        r
    }

    /// Wait for one byte and record the call.
    pub fn read(&mut self) -> (r: Result<u8, S::Error>)
        ensures
            final(self).trace() == old(self).trace().push(read_event(r)),
    {
        let r = self.serial.read();
        proof {
            self.log@ = self.log@.push(read_event(r));
        }
        r
    }

    /// Take one byte if one is waiting, and record the call.
    pub fn poll(&mut self) -> (r: Result<Option<u8>, S::Error>)
        ensures
            final(self).trace() == old(self).trace().push(poll_event(r)),
    {
        let r = self.serial.poll();
        proof {
            self.log@ = self.log@.push(poll_event(r));
        }
        r
    }
}

} // verus!
