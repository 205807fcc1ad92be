//! What the driver's operations look like on the link: the shapes that a
//! stretch of the trace can take, and the result that goes with each.

use crate::errors::Error;
use crate::text::text;
use crate::transport::Io;
use vstd::prelude::*;
use vstd::string::StringSliceAdditionalSpecFns;
use vstd::utf8::valid_utf8;

verus! {

/// Carriage return, the first byte of the line terminator.
pub const CR: u8 = 0x0d;

/// Line feed, the second byte of the line terminator.
pub const LF: u8 = 0x0a;

/// The size of the buffer that holds a response line and its terminator.
pub const LINE_CAPACITY: usize = 64;

/// `after` is `before` with more events behind it.
pub open spec fn extends<T>(before: Seq<T>, after: Seq<T>) -> bool {
    before.len() <= after.len() && after.take(before.len() as int) == before
}

/// The events that `after` has behind `before`.
pub open spec fn added<T>(before: Seq<T>, after: Seq<T>) -> Seq<T> {
    after.skip(before.len() as int)
}

/// The events of writing `bytes` in order, each write a success.
pub open spec fn sent<E>(bytes: Seq<u8>) -> Seq<Io<E>> {
    Seq::new(bytes.len(), |i: int| Io::Wrote(bytes[i]))
}

/// The events of reading `bytes` in order, each read a success.
pub open spec fn received<E>(bytes: Seq<u8>) -> Seq<Io<E>> {
    Seq::new(bytes.len(), |i: int| Io::Got(bytes[i]))
}

/// `events` is what writing `bytes` does on the link when it ends in `r`:
/// either every byte went out, or the bytes before some `bytes[k]` went
/// out, the write of `bytes[k]` failed, and nothing was tried after it.
pub open spec fn is_write<E>(events: Seq<Io<E>>, bytes: Seq<u8>, r: Result<(), Error<E>>) -> bool {
    match r {
        Ok(_) => events == sent::<E>(bytes),
        Err(Error::SerialWrite(e)) => {
            let k = events.len() - 1;
            0 <= k < bytes.len() && events == sent::<E>(bytes.take(k)).push(
                Io::WriteFailed(bytes[k], e),
            )
        },
        Err(_) => false,
    }
}

/// `events` is what a write of `bytes` does on the link when the sleep flag
/// is consulted first: in sleep mode nothing at all, with `SleepMode` for a
/// result; otherwise what `is_write` says.
pub open spec fn is_gated_write<E>(
    asleep: bool,
    events: Seq<Io<E>>,
    bytes: Seq<u8>,
    r: Result<(), Error<E>>,
) -> bool {
    if asleep {
        events.len() == 0 && r == Err::<(), Error<E>>(Error::SleepMode)
    } else {
        is_write(events, bytes, r)
    }
}

/// `bytes[j]` is a line feed that directly follows a carriage return.
pub open spec fn ends_line(bytes: Seq<u8>, j: int) -> bool {
    1 <= j < bytes.len() && bytes[j - 1] == CR && bytes[j] == LF
}

/// No terminator is complete anywhere in `bytes`.
pub open spec fn unterminated(bytes: Seq<u8>) -> bool {
    forall|j: int| !#[trigger] ends_line(bytes, j)
}

/// `events` is what reading one line does on the link when it ends in `r`.
///
/// - `Ok(line)`: the bytes of `line`, then CR and LF, were read, the LF being
///   the first that follows a CR, and all of it fits the buffer.
/// - `SerialRead(e)`: some bytes with no terminator among them were read,
///   fewer than the buffer holds, and the next read failed with `e`.
/// - `ReadBufferTooSmall`: as many bytes as the buffer holds were read and no
///   terminator was among them.
pub open spec fn is_line_read<E>(events: Seq<Io<E>>, r: Result<Seq<u8>, Error<E>>) -> bool {
    match r {
        Ok(line) => {
            &&& line.len() + 2 <= LINE_CAPACITY
            &&& unterminated(line.push(CR))
            &&& events == received::<E>(line.push(CR).push(LF))
        },
        Err(Error::SerialRead(e)) => exists|got: Seq<u8>|
            {
                &&& got.len() < LINE_CAPACITY
                &&& unterminated(got)
                &&& events == (#[trigger] received::<E>(got)).push(Io::ReadFailed(e))
            },
        Err(Error::ReadBufferTooSmall) => exists|got: Seq<u8>|
            {
                &&& got.len() == LINE_CAPACITY
                &&& unterminated(got)
                &&& events == #[trigger] received::<E>(got)
            },
        Err(_) => false,
    }
}

/// The bytes of the fragments of a command, one fragment after another.
pub open spec fn command_bytes(parts: Seq<&str>) -> Seq<u8>
    decreases parts.len(),
{
    if parts.len() == 0 {
        Seq::empty()
    } else {
        command_bytes(parts.drop_last()) + parts.last().spec_bytes()
    }
}

/// A command line as it goes over the link: its bytes and the terminator.
pub open spec fn frame(payload: Seq<u8>) -> Seq<u8> {
    payload.push(CR).push(LF)
}

/// `events` is what sending the line `frame` and reading the reply does on
/// the link when it ends in `r`: either the write failed on the way, as
/// `is_write` says, or all of `frame` went out and a line read followed.
pub open spec fn is_exchange<E>(
    events: Seq<Io<E>>,
    frame: Seq<u8>,
    r: Result<Seq<u8>, Error<E>>,
) -> bool {
    match r {
        Err(Error::SerialWrite(e)) => is_write(events, frame, Err(Error::SerialWrite(e))),
        _ => {
            &&& frame.len() <= events.len()
            &&& events.take(frame.len() as int) == sent::<E>(frame)
            &&& is_line_read(events.skip(frame.len() as int), r)
        },
    }
}

/// `events` is what a command does on the link when the sleep flag is
/// consulted first: in sleep mode nothing at all, with `SleepMode` for a
/// result; otherwise what `is_exchange` says.
pub open spec fn is_command<E>(
    asleep: bool,
    events: Seq<Io<E>>,
    frame: Seq<u8>,
    r: Result<Seq<u8>, Error<E>>,
) -> bool {
    if asleep {
        events.len() == 0 && r == Err::<Seq<u8>, Error<E>>(Error::SleepMode)
    } else {
        is_exchange(events, frame, r)
    }
}

/// `r` is what `decide` makes of the reply to a command, where `events` is
/// what that command did on the link (see `is_command`).
pub open spec fn command_gives<E, R>(
    asleep: bool,
    events: Seq<Io<E>>,
    frame: Seq<u8>,
    decide: spec_fn(Result<Seq<u8>, Error<E>>) -> R,
    r: R,
) -> bool {
    exists|reply: Result<Seq<u8>, Error<E>>|
        #[trigger] is_command(asleep, events, frame, reply) && r == decide(reply)
}

/// `r` is what a handshake of two phases gives, where `events` is what it
/// did on the link: a command is sent and `first` decides on its reply; if
/// that is an error, it is the result and nothing more is done; otherwise
/// one more line is read, and `second` makes the result of it.
pub open spec fn handshake_gives<E, X, T>(
    asleep: bool,
    events: Seq<Io<E>>,
    frame: Seq<u8>,
    first: spec_fn(Result<Seq<u8>, Error<E>>) -> Result<(), X>,
    second: spec_fn(Result<Seq<u8>, Error<E>>) -> Result<T, X>,
    r: Result<T, X>,
) -> bool {
    exists|m: int, reply: Result<Seq<u8>, Error<E>>|
        {
            &&& 0 <= m <= events.len()
            &&& #[trigger] is_command(asleep, events.take(m), frame, reply)
            &&& match first(reply) {
                Err(x) => m == events.len() && r == Err::<T, X>(x),
                Ok(_) => exists|outcome: Result<Seq<u8>, Error<E>>|
                    #[trigger] is_line_read(events.skip(m), outcome) && r == second(outcome),
            }
        }
}

/// A reply read as text: a line that is not UTF-8 is an `EncodingError`.
pub open spec fn as_text<E>(reply: Result<Seq<u8>, Error<E>>) -> Result<Seq<u8>, Error<E>> {
    match reply {
        Ok(line) => if valid_utf8(line) {
            Ok(line)
        } else {
            Err(Error::EncodingError)
        },
        Err(e) => Err(e),
    }
}

/// A reply read as an acknowledgment: any line but `ok` is a `CommandFailed`.
pub open spec fn acknowledged<E>(reply: Result<Seq<u8>, Error<E>>) -> Result<(), Error<E>> {
    match reply {
        Ok(line) => if line == text("ok") {
            Ok(())
        } else {
            Err(Error::CommandFailed)
        },
        Err(e) => Err(e),
    }
}

/// The view of a text that was handed out by reference: its bytes.
pub open spec fn text_view<E>(r: Result<&str, Error<E>>) -> Result<Seq<u8>, Error<E>> {
    match r {
        Ok(s) => Ok(s.spec_bytes()),
        Err(e) => Err(e),
    }
}

/// The view of a line that was handed out by reference.
pub open spec fn line_view<E>(r: Result<&[u8], Error<E>>) -> Result<Seq<u8>, Error<E>> {
    match r {
        Ok(line) => Ok(line@),
        Err(e) => Err(e),
    }
}

/// Sleep mode gates every write: while the sleep flag is set, a write does
/// nothing on the link and fails with `SleepMode`.
pub proof fn lemma_asleep_nothing_is_written<E>(
    events: Seq<Io<E>>,
    bytes: Seq<u8>,
    r: Result<(), Error<E>>,
)
    requires
        is_gated_write(true, events, bytes, r),
    ensures
        events.len() == 0,
        r == Err::<(), Error<E>>(Error::SleepMode),
{
}

/// Sleep mode gates every command: while the sleep flag is set, a command
/// does nothing on the link and fails with `SleepMode`.
pub proof fn lemma_asleep_nothing_is_sent<E>(
    events: Seq<Io<E>>,
    frame: Seq<u8>,
    reply: Result<Seq<u8>, Error<E>>,
)
    requires
        is_command(true, events, frame, reply),
    ensures
        events.len() == 0,
        reply == Err::<Seq<u8>, Error<E>>(Error::SleepMode),
{
}

/// Once the sleep flag is cleared, writes are let through again: a write
/// never fails with `SleepMode`, and it succeeds exactly when every byte
/// went out on the link.
pub proof fn lemma_awake_writes_go_out<E>(
    events: Seq<Io<E>>,
    bytes: Seq<u8>,
    r: Result<(), Error<E>>,
)
    requires
        is_gated_write(false, events, bytes, r),
    ensures
        r != Err::<(), Error<E>>(Error::SleepMode),
        r is Ok <==> events == sent::<E>(bytes),
{
    match r {
        Ok(_) => {},
        Err(Error::SerialWrite(e)) => {
            let k = events.len() - 1;
            assert(events[k] is WriteFailed);
            if events == sent::<E>(bytes) {
                assert(sent::<E>(bytes)[k] is Wrote);
            }
        },
        Err(_) => {},
    }
}

/// The last event of a write that failed is the failure.
proof fn lemma_failed_write_ends_in_failure<E>(events: Seq<Io<E>>, bytes: Seq<u8>, e: E)
    requires
        is_write(events, bytes, Err(Error::SerialWrite(e))),
    ensures
        events.len() > 0,
        events.len() <= bytes.len(),
        events.last() == Io::WriteFailed(bytes[events.len() - 1], e),
{
    let k = events.len() - 1;
    let before = sent::<E>(bytes.take(k));
    assert(before.len() == k);
    assert(before.push(Io::WriteFailed(bytes[k], e))[k] == Io::WriteFailed(bytes[k], e));
}

/// What a write did on the link settles how it ended.
pub proof fn lemma_write_is_settled<E>(
    events: Seq<Io<E>>,
    bytes: Seq<u8>,
    r: Result<(), Error<E>>,
    other: Result<(), Error<E>>,
)
    requires
        is_write(events, bytes, r),
        is_write(events, bytes, other),
    ensures
        r == other,
{
    match r {
        Ok(u) => {
            match other {
                Ok(v) => {
                    assert(u == v);
                },
                Err(Error::SerialWrite(f)) => {
                    lemma_failed_write_ends_in_failure(events, bytes, f);
                    assert(sent::<E>(bytes)[events.len() - 1] is Wrote);
                },
                Err(_) => {},
            }
        },
        Err(Error::SerialWrite(e)) => {
            lemma_failed_write_ends_in_failure(events, bytes, e);
            match other {
                Ok(_) => {
                    assert(sent::<E>(bytes)[events.len() - 1] is Wrote);
                },
                Err(Error::SerialWrite(f)) => {
                    lemma_failed_write_ends_in_failure(events, bytes, f);
                },
                Err(_) => {},
            }
        },
        Err(_) => {},
    }
}

/// What a line read did on the link settles what it returned.
pub proof fn lemma_line_read_is_settled<E>(
    events: Seq<Io<E>>,
    r: Result<Seq<u8>, Error<E>>,
    other: Result<Seq<u8>, Error<E>>,
)
    requires
        is_line_read(events, r),
        is_line_read(events, other),
    ensures
        r == other,
{
    let n = events.len() as int;
    match r {
        Ok(line) => {
            let whole = line.push(CR).push(LF);
            assert(events[n - 1] == Io::<E>::Got(whole[n - 1]));
            match other {
                Ok(same) => {
                    let again = same.push(CR).push(LF);
                    assert forall|i: int| 0 <= i < line.len() implies line[i] == same[i] by {
                        assert(events[i] == Io::<E>::Got(whole[i]));
                        assert(events[i] == Io::<E>::Got(again[i]));
                    }
                    assert(line =~= same);
                },
                Err(Error::SerialRead(e)) => {
                    assert(events[n - 1] is ReadFailed);
                },
                Err(Error::ReadBufferTooSmall) => {
                    let got = choose|got: Seq<u8>|
                        {
                            &&& got.len() == LINE_CAPACITY
                            &&& unterminated(got)
                            &&& events == #[trigger] received::<E>(got)
                        };
                    assert(events[n - 1] == Io::<E>::Got(got[n - 1]));
                    assert(events[n - 2] == Io::<E>::Got(got[n - 2]));
                    assert(events[n - 2] == Io::<E>::Got(whole[n - 2]));
                    assert(ends_line(got, n - 1));
                },
                Err(_) => {},
            }
        },
        Err(Error::SerialRead(e)) => {
            assert(events[n - 1] == Io::ReadFailed(e));
            match other {
                Ok(line) => {
                    let whole = line.push(CR).push(LF);
                    assert(events[n - 1] == Io::<E>::Got(whole[n - 1]));
                },
                Err(Error::SerialRead(f)) => {
                    assert(events[n - 1] == Io::ReadFailed(f));
                },
                Err(Error::ReadBufferTooSmall) => {
                    let got = choose|got: Seq<u8>|
                        {
                            &&& got.len() == LINE_CAPACITY
                            &&& unterminated(got)
                            &&& events == #[trigger] received::<E>(got)
                        };
                    assert(events[n - 1] == Io::<E>::Got(got[n - 1]));
                },
                Err(_) => {},
            }
        },
        Err(Error::ReadBufferTooSmall) => {
            let got = choose|got: Seq<u8>|
                {
                    &&& got.len() == LINE_CAPACITY
                    &&& unterminated(got)
                    &&& events == #[trigger] received::<E>(got)
                };
            assert(events[n - 1] == Io::<E>::Got(got[n - 1]));
            assert(events[n - 2] == Io::<E>::Got(got[n - 2]));
            match other {
                Ok(line) => {
                    let whole = line.push(CR).push(LF);
                    assert(events[n - 1] == Io::<E>::Got(whole[n - 1]));
                    assert(events[n - 2] == Io::<E>::Got(whole[n - 2]));
                    assert(ends_line(got, n - 1));
                },
                Err(Error::SerialRead(f)) => {
                    assert(events[n - 1] is ReadFailed);
                },
                _ => {},
            }
        },
        Err(_) => {},
    }
}

/// What a command did on the link settles its reply.
pub proof fn lemma_command_is_settled<E>(
    asleep: bool,
    events: Seq<Io<E>>,
    frame: Seq<u8>,
    reply: Result<Seq<u8>, Error<E>>,
    other: Result<Seq<u8>, Error<E>>,
)
    requires
        is_command(asleep, events, frame, reply),
        is_command(asleep, events, frame, other),
    ensures
        reply == other,
{
    if !asleep {
        let n = frame.len() as int;
        match (reply, other) {
            (Err(Error::SerialWrite(e)), Err(Error::SerialWrite(f))) => {
                lemma_write_is_settled(
                    events,
                    frame,
                    Err(Error::SerialWrite(e)),
                    Err(Error::SerialWrite(f)),
                );
            },
            (Err(Error::SerialWrite(e)), _) => {
                lemma_failed_write_ends_in_failure(events, frame, e);
                let k = events.len() - 1;
                assert(events.take(n)[k] == events[k]);
                assert(sent::<E>(frame)[k] is Wrote);
            },
            (_, Err(Error::SerialWrite(f))) => {
                lemma_failed_write_ends_in_failure(events, frame, f);
                let k = events.len() - 1;
                assert(events.take(n)[k] == events[k]);
                assert(sent::<E>(frame)[k] is Wrote);
            },
            _ => {
                lemma_line_read_is_settled(events.skip(n), reply, other);
            },
        }
    }
}

/// Event `j` is the read of a line feed that directly follows the read of a
/// carriage return.
pub open spec fn reads_terminator<E>(events: Seq<Io<E>>, j: int) -> bool {
    1 <= j < events.len() && events[j - 1] == Io::<E>::Got(CR) && events[j] == Io::<E>::Got(LF)
}

/// The number of events of a line read, and what they are, by its result.
proof fn lemma_line_read_events<E>(events: Seq<Io<E>>, r: Result<Seq<u8>, Error<E>>)
    requires
        is_line_read(events, r),
    ensures
        0 < events.len() <= LINE_CAPACITY,
        forall|i: int| 0 <= i < events.len() - 1 ==> events[i] is Got,
        r is Ok ==> events.len() >= 2 && events[events.len() - 2] == Io::<E>::Got(CR)
            && events.last() == Io::<E>::Got(LF),
        r is Err && r->Err_0 is SerialRead ==> events.last() is ReadFailed,
        r is Err && r->Err_0 is ReadBufferTooSmall ==> events.len() == LINE_CAPACITY
            && events.last() is Got,
        forall|j: int| j < events.len() - 1 ==> !#[trigger] reads_terminator(events, j),
        r is Ok ==> reads_terminator(events, events.len() - 1),
        !(r is Ok) ==> forall|j: int| !#[trigger] reads_terminator(events, j),
{
    match r {
        Ok(line) => {
            let most = line.push(CR);
            let whole = most.push(LF);
            assert forall|j: int| j < events.len() - 1 implies !#[trigger] reads_terminator(
                events,
                j,
            ) by {
                assert(!ends_line(most, j));
                if 1 <= j {
                    assert(whole[j] == most[j] && whole[j - 1] == most[j - 1]);
                }
            }
            assert(whole[whole.len() - 2] == CR);
        },
        Err(Error::SerialRead(e)) => {
            let got = choose|got: Seq<u8>|
                {
                    &&& got.len() < LINE_CAPACITY
                    &&& unterminated(got)
                    &&& events == (#[trigger] received::<E>(got)).push(Io::ReadFailed(e))
                };
            assert forall|j: int| !#[trigger] reads_terminator(events, j) by {
                assert(!ends_line(got, j));
            }
        },
        Err(Error::ReadBufferTooSmall) => {
            let got = choose|got: Seq<u8>|
                {
                    &&& got.len() == LINE_CAPACITY
                    &&& unterminated(got)
                    &&& events == #[trigger] received::<E>(got)
                };
            assert forall|j: int| !#[trigger] reads_terminator(events, j) by {
                assert(!ends_line(got, j));
            }
        },
        Err(_) => {},
    }
}

/// No line read is the beginning of a longer one: where the events of one
/// line read are the first events of another, the two are the same.
pub proof fn lemma_line_read_ends_once<E>(
    events: Seq<Io<E>>,
    n: int,
    r: Result<Seq<u8>, Error<E>>,
    other: Result<Seq<u8>, Error<E>>,
)
    requires
        0 <= n <= events.len(),
        is_line_read(events.take(n), r),
        is_line_read(events, other),
    ensures
        n == events.len(),
{
    let head = events.take(n);
    lemma_line_read_events(head, r);
    lemma_line_read_events(events, other);
    if n < events.len() {
        assert(head[n - 1] == events[n - 1]);
        assert(events[n - 1] is Got);
        if r is Ok {
            assert(head[n - 2] == events[n - 2]);
            assert(reads_terminator(head, n - 1));
            assert(reads_terminator(events, n - 1));
        }
    }
}

/// No exchange is the beginning of a longer one: where the events of one
/// exchange of a line are the first events of another exchange of the same
/// line, the two are the same.
pub proof fn lemma_exchange_ends_once<E>(
    events: Seq<Io<E>>,
    n: int,
    frame: Seq<u8>,
    reply: Result<Seq<u8>, Error<E>>,
    other: Result<Seq<u8>, Error<E>>,
)
    requires
        0 <= n <= events.len(),
        is_exchange(events.take(n), frame, reply),
        is_exchange(events, frame, other),
    ensures
        n == events.len(),
{
    let head = events.take(n);
    let w = frame.len() as int;
    if n < events.len() {
        match reply {
            Err(Error::SerialWrite(e)) => {
                lemma_failed_write_ends_in_failure(head, frame, e);
                assert(head[n - 1] == events[n - 1]);
                match other {
                    Err(Error::SerialWrite(f)) => {
                        let k = events.len() - 1;
                        assert(events[n - 1] == sent::<E>(frame.take(k))[n - 1]);
                    },
                    _ => {
                        assert(events.take(w)[n - 1] == events[n - 1]);
                        assert(sent::<E>(frame)[n - 1] is Wrote);
                    },
                }
            },
            _ => {
                assert(head.take(w) =~= events.take(w));
                match other {
                    Err(Error::SerialWrite(f)) => {
                        lemma_failed_write_ends_in_failure(events, frame, f);
                    },
                    _ => {
                        assert(head.skip(w) =~= events.skip(w).take(n - w));
                        lemma_line_read_ends_once(events.skip(w), n - w, reply, other);
                    },
                }
            },
        }
    }
}

/// What a handshake did on the link settles its result.
pub proof fn lemma_handshake_gives_one_result<E, X, T>(
    asleep: bool,
    events: Seq<Io<E>>,
    frame: Seq<u8>,
    first: spec_fn(Result<Seq<u8>, Error<E>>) -> Result<(), X>,
    second: spec_fn(Result<Seq<u8>, Error<E>>) -> Result<T, X>,
    r: Result<T, X>,
    other: Result<T, X>,
)
    requires
        handshake_gives(asleep, events, frame, first, second, r),
        handshake_gives(asleep, events, frame, first, second, other),
    ensures
        r == other,
{
    let (m, reply) = choose|m: int, reply: Result<Seq<u8>, Error<E>>|
        {
            &&& 0 <= m <= events.len()
            &&& #[trigger] is_command(asleep, events.take(m), frame, reply)
            &&& match first(reply) {
                Err(x) => m == events.len() && r == Err::<T, X>(x),
                Ok(_) => exists|outcome: Result<Seq<u8>, Error<E>>|
                    #[trigger] is_line_read(events.skip(m), outcome) && r == second(outcome),
            }
        };
    let (k, again) = choose|k: int, again: Result<Seq<u8>, Error<E>>|
        {
            &&& 0 <= k <= events.len()
            &&& #[trigger] is_command(asleep, events.take(k), frame, again)
            &&& match first(again) {
                Err(x) => k == events.len() && other == Err::<T, X>(x),
                Ok(_) => exists|outcome: Result<Seq<u8>, Error<E>>|
                    #[trigger] is_line_read(events.skip(k), outcome) && other == second(outcome),
            }
        };
    if !asleep {
        if m <= k {
            assert(events.take(k).take(m) =~= events.take(m));
            lemma_exchange_ends_once(events.take(k), m, frame, reply, again);
        } else {
            assert(events.take(m).take(k) =~= events.take(k));
            lemma_exchange_ends_once(events.take(m), k, frame, again, reply);
        }
    }
    assert(m == k);
    lemma_command_is_settled(asleep, events.take(m), frame, reply, again);
    if first(reply) is Ok {
        let outcome = choose|outcome: Result<Seq<u8>, Error<E>>|
            #[trigger] is_line_read(events.skip(m), outcome) && r == second(outcome);
        let outcome_again = choose|outcome: Result<Seq<u8>, Error<E>>|
            #[trigger] is_line_read(events.skip(m), outcome) && other == second(outcome);
        lemma_line_read_is_settled(events.skip(m), outcome, outcome_again);
    }
}

/// What a command did on the link settles what is made of its reply.
pub proof fn lemma_command_gives_one_result<E, R>(
    asleep: bool,
    events: Seq<Io<E>>,
    frame: Seq<u8>,
    decide: spec_fn(Result<Seq<u8>, Error<E>>) -> R,
    r: R,
    other: R,
)
    requires
        command_gives(asleep, events, frame, decide, r),
        command_gives(asleep, events, frame, decide, other),
    ensures
        r == other,
{
    let reply = choose|reply: Result<Seq<u8>, Error<E>>|
        #[trigger] is_command(asleep, events, frame, reply) && r == decide(reply);
    let again = choose|reply: Result<Seq<u8>, Error<E>>|
        #[trigger] is_command(asleep, events, frame, reply) && other == decide(reply);
    lemma_command_is_settled(asleep, events, frame, reply, again);
}

/// A trace with `events` put behind it extends it by just these.
pub proof fn lemma_appended<T>(before: Seq<T>, events: Seq<T>)
    ensures
        extends(before, before + events),
        added(before, before + events) == events,
{
    assert((before + events).take(before.len() as int) =~= before);
    assert((before + events).skip(before.len() as int) =~= events);
}

/// A trace that extends another is that other with the added events behind.
pub proof fn lemma_split<T>(before: Seq<T>, after: Seq<T>)
    requires
        extends(before, after),
    ensures
        after == before + added(before, after),
{
    assert(after =~= after.take(before.len() as int) + after.skip(before.len() as int));
}

/// Extending twice is extending once, by both stretches of events.
pub proof fn lemma_chained<T>(first: Seq<T>, second: Seq<T>, third: Seq<T>)
    requires
        extends(first, second),
        extends(second, third),
    ensures
        extends(first, third),
        added(first, third) == added(first, second) + added(second, third),
{
    lemma_split(first, second);
    lemma_split(second, third);
    let a = added(first, second);
    let b = added(second, third);
    assert(third =~= first + (a + b));
    lemma_appended(first, a + b);
}

/// A trace extends itself, by nothing.
pub proof fn lemma_unchanged<T>(trace: Seq<T>)
    ensures
        extends(trace, trace),
        added(trace, trace) == Seq::<T>::empty(),
{
    assert(trace + Seq::<T>::empty() =~= trace);
    lemma_appended(trace, Seq::<T>::empty());
}

/// A write that follows the successful write of `done` is, taken together
/// with it, a write of `done + bytes + rest` that ends the same way, unless
/// it succeeds: then it is a successful write of `done + bytes`.
pub proof fn lemma_write_continued<E>(
    done: Seq<u8>,
    bytes: Seq<u8>,
    rest: Seq<u8>,
    events: Seq<Io<E>>,
    r: Result<(), Error<E>>,
)
    requires
        is_write(events, bytes, r),
    ensures
        r is Ok ==> sent::<E>(done) + events == sent::<E>(done + bytes),
        r is Err ==> is_write(sent::<E>(done) + events, done + bytes + rest, r),
{
    let all = done + bytes + rest;
    match r {
        Ok(_) => {
            assert(sent::<E>(done) + events =~= sent::<E>(done + bytes));
        },
        Err(Error::SerialWrite(e)) => {
            let k = events.len() - 1;
            let joined = sent::<E>(done) + events;
            assert(all.take(done.len() + k) =~= done + bytes.take(k));
            assert(all[done.len() + k] == bytes[k]);
            assert(joined =~= sent::<E>(all.take(done.len() + k)).push(
                Io::WriteFailed(all[done.len() + k], e),
            ));
        },
        Err(_) => {},
    }
}

/// The bytes of the first `i` fragments, then those of fragment `i`, then
/// some more bytes make up the bytes of the whole command.
pub proof fn lemma_command_split(parts: Seq<&str>, i: int)
    requires
        0 <= i < parts.len(),
    ensures
        command_bytes(parts.take(i + 1)) == command_bytes(parts.take(i)) + parts[i].spec_bytes(),
        exists|rest: Seq<u8>|
            command_bytes(parts) == #[trigger] (command_bytes(parts.take(i + 1)) + rest),
    decreases parts.len(),
{
    assert(parts.take(i + 1).drop_last() =~= parts.take(i));
    if i + 1 == parts.len() {
        assert(parts.take(i + 1) =~= parts);
        assert(command_bytes(parts) =~= command_bytes(parts.take(i + 1)) + Seq::<u8>::empty());
    } else {
        let shorter = parts.drop_last();
        lemma_command_split(shorter, i);
        assert(shorter.take(i + 1) =~= parts.take(i + 1));
        let rest = choose|rest: Seq<u8>|
            command_bytes(shorter) == #[trigger] (command_bytes(shorter.take(i + 1)) + rest);
        let more = rest + parts.last().spec_bytes();
        assert(command_bytes(parts) =~= command_bytes(parts.take(i + 1)) + more);
    }
}

/// The bytes of a command of one, two, four or six fragments, written out.
pub proof fn lemma_command_bytes(parts: Seq<&str>)
    ensures
        parts.len() == 1 ==> command_bytes(parts) == parts[0].spec_bytes(),
        parts.len() == 2 ==> command_bytes(parts) == parts[0].spec_bytes()
            + parts[1].spec_bytes(),
        parts.len() == 4 ==> command_bytes(parts) == parts[0].spec_bytes()
            + parts[1].spec_bytes() + parts[2].spec_bytes() + parts[3].spec_bytes(),
        parts.len() == 6 ==> command_bytes(parts) == parts[0].spec_bytes()
            + parts[1].spec_bytes() + parts[2].spec_bytes() + parts[3].spec_bytes()
            + parts[4].spec_bytes() + parts[5].spec_bytes(),
{
    let five = parts.drop_last();
    let four = five.drop_last();
    let three = four.drop_last();
    let two = three.drop_last();
    let one = two.drop_last();
    if parts.len() == 1 {
        assert(command_bytes(five) =~= Seq::<u8>::empty());
        assert(command_bytes(parts) =~= parts[0].spec_bytes());
    } else if parts.len() == 2 {
        assert(command_bytes(four) =~= Seq::<u8>::empty());
        assert(command_bytes(five) =~= parts[0].spec_bytes());
    } else if parts.len() == 4 {
        assert(command_bytes(two) =~= Seq::<u8>::empty());
        assert(command_bytes(three) =~= parts[0].spec_bytes());
        assert(command_bytes(four) =~= parts[0].spec_bytes() + parts[1].spec_bytes());
        assert(command_bytes(five) =~= parts[0].spec_bytes() + parts[1].spec_bytes()
            + parts[2].spec_bytes());
    } else if parts.len() == 6 {
        assert(command_bytes(one.drop_last()) =~= Seq::<u8>::empty());
        assert(command_bytes(one) =~= parts[0].spec_bytes());
        assert(command_bytes(two) =~= parts[0].spec_bytes() + parts[1].spec_bytes());
        assert(command_bytes(three) =~= parts[0].spec_bytes() + parts[1].spec_bytes()
            + parts[2].spec_bytes());
        assert(command_bytes(four) =~= parts[0].spec_bytes() + parts[1].spec_bytes()
            + parts[2].spec_bytes() + parts[3].spec_bytes());
        assert(command_bytes(five) =~= parts[0].spec_bytes() + parts[1].spec_bytes()
            + parts[2].spec_bytes() + parts[3].spec_bytes() + parts[4].spec_bytes());
    }
}

} // verus!
