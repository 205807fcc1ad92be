//! Bringing the link to a known state after attaching to a module whose
//! state is unknown.

use crate::driver::{Driver, Frequency};
use crate::errors::{Error, RnResult};
use crate::framing::{
    added, extends, frame, is_exchange, lemma_appended, lemma_chained, lemma_command_bytes,
    lemma_unchanged,
};
use crate::text::{is_token, text};
use crate::transport::{Io, Transport};
use vstd::prelude::*;

verus! {

/// The number of probes sent before giving up.
pub const PROBE_ATTEMPTS: u8 = 3;

/// The probe as it goes over the link: the letter `z` and the terminator.
/// No command of the module ends in `z`, and `z` is no hex digit.
pub open spec fn probe_frame() -> Seq<u8> {
    frame(text("z"))
}

/// The number of waiting bytes that are discarded before the driver gives
/// up on a port that never runs dry.
pub const DRAIN_LIMIT: u64 = u64::MAX;

/// `events` is what emptying the receive backlog does on the link when it
/// ends in `r`: polls that each handed out a byte, then either one that
/// found nothing waiting, or one that failed. Where as many bytes as
/// `DRAIN_LIMIT` were handed out and discarded, no further poll is made,
/// and the result is `InvalidState`.
pub open spec fn is_drain<E>(events: Seq<Io<E>>, r: Result<(), Error<E>>) -> bool {
    let n = events.len() - 1;
    match r {
        Ok(_) => {
            &&& 0 <= n <= DRAIN_LIMIT
            &&& forall|i: int| 0 <= i < n ==> events[i] is Polled
            &&& events[n] == Io::<E>::Idle
        },
        Err(Error::SerialRead(e)) => {
            &&& 0 <= n <= DRAIN_LIMIT
            &&& forall|i: int| 0 <= i < n ==> events[i] is Polled
            &&& events[n] == Io::PollFailed(e)
        },
        Err(Error::InvalidState) => {
            &&& events.len() == DRAIN_LIMIT
            &&& forall|i: int| 0 <= i < events.len() ==> events[i] is Polled
        },
        Err(_) => false,
    }
}

/// `events` is what probing with at most `attempts` probes does on the link
/// when it ends in `r`.
///
/// With no attempt left nothing is done, and the result is `InvalidState`.
/// Otherwise one probe is exchanged. If that fails, its error is the result.
/// If the reply is `invalid_param`, the result is `Ok`. After any other
/// reply the probing goes on with one attempt fewer.
pub open spec fn is_probing<E>(events: Seq<Io<E>>, attempts: nat, r: Result<(), Error<E>>) -> bool
    decreases attempts,
{
    if attempts == 0 {
        events.len() == 0 && r == Err::<(), Error<E>>(Error::InvalidState)
    } else {
        exists|m: int, reply: Result<Seq<u8>, Error<E>>|
            {
                &&& 0 <= m <= events.len()
                &&& #[trigger] is_exchange(events.take(m), probe_frame(), reply)
                &&& match reply {
                    Err(e) => m == events.len() && r == Err::<(), Error<E>>(e),
                    Ok(line) => if line == text("invalid_param") {
                        m == events.len() && r == Ok::<(), Error<E>>(())
                    } else {
                        is_probing(events.skip(m), (attempts - 1) as nat, r)
                    },
                }
            }
    }
}

/// `events` is what `ensure_known_state` does on the link when it ends in
/// `r`: the backlog is emptied; if that fails, its error is the result; in
/// sleep mode nothing more is done and the result is `SleepMode`; otherwise
/// up to three probes follow.
pub open spec fn is_resync<E>(asleep: bool, events: Seq<Io<E>>, r: Result<(), Error<E>>) -> bool {
    exists|d: int, drained: Result<(), Error<E>>|
        {
            &&& 0 <= d <= events.len()
            &&& #[trigger] is_drain(events.take(d), drained)
            &&& match drained {
                Err(e) => d == events.len() && r == Err::<(), Error<E>>(e),
                Ok(_) => if asleep {
                    d == events.len() && r == Err::<(), Error<E>>(Error::SleepMode)
                } else {
                    is_probing(events.skip(d), PROBE_ATTEMPTS as nat, r)
                },
            }
        }
}

/// A module that answers the first probe with `invalid_param` is in a
/// known state after that one exchange: nothing else is sent or read.
pub proof fn lemma_answered_at_once<E>(events: Seq<Io<E>>, attempts: nat)
    requires
        attempts > 0,
        is_exchange(events, probe_frame(), Ok::<Seq<u8>, Error<E>>(text("invalid_param"))),
    ensures
        is_probing(events, attempts, Ok::<(), Error<E>>(())),
{
    assert(events.take(events.len() as int) =~= events);
    assert(is_exchange(
        events.take(events.len() as int),
        probe_frame(),
        Ok::<Seq<u8>, Error<E>>(text("invalid_param")),
    ));
}

/// A module that answers a probe with another line gets the next probe, as
/// long as attempts are left: probing with one attempt more is that
/// exchange followed by the probing that is left.
pub proof fn lemma_probed_again<E>(
    exchange: Seq<Io<E>>,
    line: Seq<u8>,
    rest: Seq<Io<E>>,
    attempts: nat,
    r: Result<(), Error<E>>,
)
    requires
        is_exchange(exchange, probe_frame(), Ok::<Seq<u8>, Error<E>>(line)),
        line != text("invalid_param"),
        is_probing(rest, attempts, r),
    ensures
        is_probing(exchange + rest, attempts + 1, r),
{
    let events = exchange + rest;
    let m = exchange.len() as int;
    assert(events.take(m) =~= exchange);
    assert(events.skip(m) =~= rest);
    assert(is_exchange(events.take(m), probe_frame(), Ok::<Seq<u8>, Error<E>>(line)));
}

/// Three probes that the module answers with lines other than
/// `invalid_param` exhaust the attempts: the result is `InvalidState`,
/// after exactly these three exchanges.
pub proof fn lemma_three_strikes<E>(
    first: Seq<Io<E>>,
    second: Seq<Io<E>>,
    third: Seq<Io<E>>,
    lines: Seq<Seq<u8>>,
)
    requires
        lines.len() == 3,
        forall|i: int| 0 <= i < 3 ==> lines[i] != text("invalid_param"),
        is_exchange(first, probe_frame(), Ok::<Seq<u8>, Error<E>>(lines[0])),
        is_exchange(second, probe_frame(), Ok::<Seq<u8>, Error<E>>(lines[1])),
        is_exchange(third, probe_frame(), Ok::<Seq<u8>, Error<E>>(lines[2])),
    ensures
        is_probing(
            first + second + third,
            PROBE_ATTEMPTS as nat,
            Err::<(), Error<E>>(Error::InvalidState),
        ),
{
    let gave_up = Err::<(), Error<E>>(Error::InvalidState);
    assert(is_probing(Seq::<Io<E>>::empty(), 0, gave_up));
    lemma_probed_again(third, lines[2], Seq::empty(), 0, gave_up);
    assert(third + Seq::<Io<E>>::empty() =~= third);
    lemma_probed_again(second, lines[1], third, 1, gave_up);
    lemma_probed_again(first, lines[0], second + third, 2, gave_up);
    assert(first + (second + third) =~= first + second + third);
}

impl<F: Frequency, S: Transport> Driver<F, S> {
    /// Send up to `attempts` probes, until the module answers one of them
    /// with `invalid_param`.
    fn probe(&mut self, attempts: u8) -> (r: RnResult<(), S::Error>)
        requires
            !old(self).asleep(),
        ensures
            final(self).asleep() == old(self).asleep(),
            extends(old(self).trace(), final(self).trace()),
            is_probing(added(old(self).trace(), final(self).trace()), attempts as nat, r),
        decreases attempts,
    {
        let ghost before = self.trace();
        if attempts == 0 {
            proof {
                lemma_unchanged(before);
            }
            return Err(Error::InvalidState);
        }
        let command: [&str; 1] = ["z"];
        proof {
            lemma_command_bytes(command@);
        }
        let sent = self.exchange(&command);
        let ghost mid = self.trace();
        let ghost first = added(before, mid);
        let n = match sent {
            Ok(n) => n,
            Err(e) => {
                proof {
                    assert(first.take(first.len() as int) =~= first);
                    assert(is_exchange(
                        first.take(first.len() as int),
                        probe_frame(),
                        Err::<Seq<u8>, Error<S::Error>>(e),
                    ));
                }
                return Err(e);
            },
        };
        let ghost reply = self.held(Ok(n));
        if is_token(self.line(n), "invalid_param") {
            proof {
                assert(first.take(first.len() as int) =~= first);
                assert(is_exchange(first.take(first.len() as int), probe_frame(), reply));
            }
            return Ok(());
        }
        let r = self.probe(attempts - 1);
        proof {
            lemma_chained(before, mid, self.trace());
            let events = added(before, self.trace());
            let m = first.len() as int;
            assert(events.take(m) =~= first);
            assert(events.skip(m) =~= added(mid, self.trace()));
            assert(is_exchange(events.take(m), probe_frame(), reply));
        }
        r
    }

    /// Clear the module serial buffers and ensure a known good state.
    ///
    /// First all bytes that are waiting on the serial port are read and
    /// discarded. Then, to ensure that there's no valid command in the
    /// module's input buffer, the letter 'z' is sent, followed by a newline.
    /// There is no valid command that ends with 'z' and it's not a valid hex
    /// character, so the module should return `invalid_param`. If it
    /// doesn't, the same procedure is repeated 2 more times until giving up
    /// with `Error::InvalidState`.
    ///
    /// Errors while reading or writing are propagated to the caller. In
    /// sleep mode the waiting bytes are still discarded, but no probe is
    /// written and `Error::SleepMode` is returned. A port that hands out
    /// `DRAIN_LIMIT` bytes without ever running dry cannot be brought to a
    /// known state: the driver stops discarding and returns
    /// `Error::InvalidState`.
    pub fn ensure_known_state(&mut self) -> (r: RnResult<(), S::Error>)
        ensures
            final(self).asleep() == old(self).asleep(),
            extends(old(self).trace(), final(self).trace()),
            is_resync(old(self).asleep(), added(old(self).trace(), final(self).trace()), r),
    {
        let ghost before = self.trace();
        let ghost mut polled: Seq<Io<S::Error>> = Seq::empty();
        let mut discarded: u64 = 0;
        let mut dry = false;
        assert(before + polled =~= before);
        while !dry && discarded < DRAIN_LIMIT
            invariant
                self.asleep() == old(self).asleep(),
                before == old(self).trace(),
                self.trace() == before + polled,
                !dry ==> polled.len() == discarded,
                !dry ==> forall|i: int| 0 <= i < polled.len() ==> polled[i] is Polled,
                dry ==> is_drain(polled, Ok::<(), Error<S::Error>>(())),
            decreases DRAIN_LIMIT - discarded + (if dry { 0int } else { 1int }),
        {
            match self.poll_byte() {
                Ok(Some(b)) => {
                    proof {
                        polled = polled.push(Io::Polled(b));
                        assert(self.trace() =~= before + polled);
                    }
                    discarded += 1;
                },
                Ok(None) => {
                    proof {
                        polled = polled.push(Io::Idle);
                        assert(self.trace() =~= before + polled);
                    }
                    dry = true;
                },
                Err(e) => {
                    proof {
                        polled = polled.push(Io::PollFailed(e->SerialRead_0));
                        assert(self.trace() =~= before + polled);
                        lemma_appended(before, polled);
                        assert(polled.take(polled.len() as int) =~= polled);
                        assert(is_drain(
                            polled.take(polled.len() as int),
                            Err::<(), Error<S::Error>>(e),
                        ));
                    }
                    return Err(e);
                },
            }
        }
        if !dry {
            proof {
                lemma_appended(before, polled);
                assert(polled.take(polled.len() as int) =~= polled);
                assert(is_drain(
                    polled.take(polled.len() as int),
                    Err::<(), Error<S::Error>>(Error::InvalidState),
                ));
            }
            return Err(Error::InvalidState);
        }
        if self.is_asleep() {
            proof {
                lemma_appended(before, polled);
                assert(polled.take(polled.len() as int) =~= polled);
            }
            return Err(Error::SleepMode);
        }
        let ghost mid = self.trace();
        let r = self.probe(PROBE_ATTEMPTS);
        proof {
            lemma_appended(before, polled);
            lemma_chained(before, mid, self.trace());
            let events = added(before, self.trace());
            let d = polled.len() as int;
            assert(events.take(d) =~= polled);
            assert(events.skip(d) =~= added(mid, self.trace()));
        }
        r
    }
}

} // verus!
