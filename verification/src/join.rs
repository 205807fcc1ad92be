//! Joining the network: the join handshake.

use crate::driver::{Driver, Frequency};
use crate::errors::{Error, JoinError};
use crate::framing::{
    added, extends, frame, handshake_gives, is_command, is_line_read, lemma_chained,
    lemma_command_bytes,
};
use crate::text::{from_utf8, is_token, text};
use crate::transport::Transport;
use vstd::prelude::*;
use vstd::utf8::valid_utf8;

verus! {

/// The join procedure.
#[derive(Debug, PartialEq, Eq)]
pub enum JoinMode {
    /// Over the air activation
    Otaa,
    /// Activation by personalization
    Abp,
}

/// The word for a join mode in the join command.
pub open spec fn join_word(mode: JoinMode) -> Seq<u8> {
    match mode {
        JoinMode::Otaa => text("otaa"),
        JoinMode::Abp => text("abp"),
    }
}

/// The join command: `mac join <otaa|abp>`.
pub open spec fn join_command(mode: JoinMode) -> Seq<u8> {
    text("mac join ") + join_word(mode)
}

/// What the first response to a join command means: `ok` lets the join go
/// on, every other line ends it. The line is read as text, so one that is
/// not UTF-8 is an encoding error.
pub open spec fn join_started<E>(reply: Result<Seq<u8>, Error<E>>) -> Result<(), JoinError<E>> {
    match reply {
        Err(e) => Err(JoinError::Other(e)),
        Ok(line) => if !valid_utf8(line) {
            Err(JoinError::Other(Error::EncodingError))
        } else if line == text("ok") {
            Ok(())
        } else if line == text("invalid_param") {
            Err(JoinError::BadParameter)
        } else if line == text("keys_not_init") {
            Err(JoinError::KeysNotInit)
        } else if line == text("no_free_ch") {
            Err(JoinError::NoFreeChannel)
        } else if line == text("silent") {
            Err(JoinError::Silent)
        } else if line == text("busy") {
            Err(JoinError::Busy)
        } else if line == text("mac_paused") {
            Err(JoinError::MacPaused)
        } else if line == text("denied") {
            Err(JoinError::JoinUnsuccessful)
        } else {
            Err(JoinError::UnknownResponse)
        },
    }
}

/// What the second response to a join command means.
pub open spec fn join_finished<E>(reply: Result<Seq<u8>, Error<E>>) -> Result<(), JoinError<E>> {
    match reply {
        Err(e) => Err(JoinError::Other(e)),
        Ok(line) => if line == text("denied") {
            Err(JoinError::JoinUnsuccessful)
        } else if line == text("accepted") {
            Ok(())
        } else {
            Err(JoinError::UnknownResponse)
        },
    }
}

/// Decide on the first response to a join command.
pub fn join_initiation<E>(line: &[u8]) -> (r: Result<(), JoinError<E>>)
    ensures
        r == join_started::<E>(Ok(line@)),
{
    match from_utf8(line) {
        Ok(_) => {},
        Err(e) => {
            return Err(JoinError::from(e));
        },
    }
    if is_token(line, "ok") {
        Ok(())
    } else if is_token(line, "invalid_param") {
        Err(JoinError::BadParameter)
    } else if is_token(line, "keys_not_init") {
        Err(JoinError::KeysNotInit)
    } else if is_token(line, "no_free_ch") {
        Err(JoinError::NoFreeChannel)
    } else if is_token(line, "silent") {
        Err(JoinError::Silent)
    } else if is_token(line, "busy") {
        Err(JoinError::Busy)
    } else if is_token(line, "mac_paused") {
        Err(JoinError::MacPaused)
    } else if is_token(line, "denied") {
        Err(JoinError::JoinUnsuccessful)
    } else {
        Err(JoinError::UnknownResponse)
    }
}

/// Decide on the second response to a join command.
pub fn join_outcome<E>(line: &[u8]) -> (r: Result<(), JoinError<E>>)
    ensures
        r == join_finished::<E>(Ok(line@)),
{
    if is_token(line, "denied") {
        Err(JoinError::JoinUnsuccessful)
    } else if is_token(line, "accepted") {
        Ok(())
    } else {
        Err(JoinError::UnknownResponse)
    }
}

impl<F: Frequency, S: Transport> Driver<F, S> {
    /// Join the network.
    pub fn join(&mut self, mode: JoinMode) -> (r: Result<(), JoinError<S::Error>>)
        ensures
            final(self).asleep() == old(self).asleep(),
            extends(old(self).trace(), final(self).trace()),
            handshake_gives(
                old(self).asleep(),
                added(old(self).trace(), final(self).trace()),
                frame(join_command(mode)),
                |reply: Result<Seq<u8>, Error<S::Error>>| join_started(reply),
                |reply: Result<Seq<u8>, Error<S::Error>>| join_finished(reply),
                r,
            ),
    {
        let ghost before = self.trace();
        let mode_str = match mode {
            JoinMode::Otaa => "otaa",
            JoinMode::Abp => "abp",
        };
        let command: [&str; 2] = ["mac join ", mode_str];
        let ghost whole = frame(join_command(mode));
        proof {
            lemma_command_bytes(command@);
        }

        // First response is whether the join procedure was initialized properly.
        let sent = self.exchange(&command);
        let ghost mid = self.trace();
        let ghost first = added(before, mid);
        let ghost reply = self.held(sent);
        proof {
            assert(first.take(first.len() as int) =~= first);
            assert(is_command(old(self).asleep(), first.take(first.len() as int), whole, reply));
        }
        let n = match sent {
            Ok(n) => n,
            Err(e) => {
                return Err(JoinError::from(e));
            },
        };
        match join_initiation(self.line(n)) {
            Ok(()) => {},
            Err(e) => {
                return Err(e);
            },
        }

        // Second response indicates whether the join procedure succeeded.
        let read = self.fill_line();
        proof {
            lemma_chained(before, mid, self.trace());
            let events = added(before, self.trace());
            let m = first.len() as int;
            assert(events.take(m) =~= first);
            assert(events.skip(m) =~= added(mid, self.trace()));
            assert(is_command(old(self).asleep(), events.take(m), whole, reply));
            assert(is_line_read(events.skip(m), self.held(read)));
        }
        match read {
            Ok(len) => join_outcome(self.line(len)),
            Err(e) => Err(JoinError::from(e)),
        }
    }
}

} // verus!
