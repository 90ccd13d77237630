//! The line-protocol submission client, as a driven state machine.
//!
//! The wire protocol is newline-delimited text over one stream: the
//! service greets, the client sends its team token, the service says it is
//! ready, and then each pending flag is one request/response round trip.
//! The machine here makes every protocol decision; the caller owns the
//! socket, feeds each received line to [`LineClient::on_line`] and obeys
//! the returned [`LineAction`].
//!
//! States: await greeting, await ready, await one flag's response (once
//! per pending flag, strictly in order), done; a handshake failure aborts
//! the whole attempt before any flag is sent, so no outcome is recorded
//! and every flag stays pending.

use vstd::prelude::*;
use vstd::string::StringSliceAdditionalSpecFns;

use crate::errors::SubmitError;
use crate::flag::FlagStatus;
use crate::points::line_points_milli;
use crate::points::line_points_milli_exec;
use crate::text::concat_bytes;
use crate::text::contains_ci;
use crate::text::contains_word_ci;

verus! {

/// The service's greeting vocabulary, matched case-insensitively.
pub open spec fn is_greeting_line(line: Seq<u8>) -> bool {
    ||| contains_ci(line, "hello".spec_bytes())
    ||| contains_ci(line, "hi".spec_bytes())
    ||| contains_ci(line, "greetings".spec_bytes())
    ||| contains_ci(line, "welcome".spec_bytes())
}

/// The service's ready vocabulary, matched case-insensitively.
pub open spec fn is_ready_line(line: Seq<u8>) -> bool {
    ||| contains_ci(line, "start".spec_bytes())
    ||| contains_ci(line, "begin".spec_bytes())
    ||| contains_ci(line, "enter your flags".spec_bytes())
}

/// The per-flag success vocabulary.
pub open spec fn is_success_line(line: Seq<u8>) -> bool {
    ||| contains_ci(line, "accepted".spec_bytes())
    ||| contains_ci(line, "earned".spec_bytes())
}

/// The per-flag failure vocabulary.
pub open spec fn is_failure_line(line: Seq<u8>) -> bool {
    ||| contains_ci(line, "invalid".spec_bytes())
    ||| contains_ci(line, "too old".spec_bytes())
    ||| contains_ci(line, "your own".spec_bytes())
}

pub fn is_greeting(line: &[u8]) -> (r: bool)
    ensures
        r == is_greeting_line(line@),
{
    contains_word_ci(line, "hello".as_bytes()) || contains_word_ci(line, "hi".as_bytes())
        || contains_word_ci(line, "greetings".as_bytes()) || contains_word_ci(
        line,
        "welcome".as_bytes(),
    )
}

pub fn is_ready(line: &[u8]) -> (r: bool)
    ensures
        r == is_ready_line(line@),
{
    contains_word_ci(line, "start".as_bytes()) || contains_word_ci(line, "begin".as_bytes())
        || contains_word_ci(line, "enter your flags".as_bytes())
}

/// `n` clamped to the largest `u64`.
pub open spec fn sat64(n: nat) -> u64 {
    if n > u64::MAX {
        u64::MAX
    } else {
        n as u64
    }
}

/// The mathematical image of one flag's submission outcome.
pub struct OutcomeModel {
    pub status: FlagStatus,
    pub points_milli: u64,
    pub error: Option<Seq<u8>>,
}

/// One flag's submission outcome: the status the ledger will record, the
/// points gained, and the service's reason text when not accepted.
#[derive(Debug, Clone)]
pub struct FlagOutcome {
    pub status: FlagStatus,
    pub points_milli: u64,
    pub error: Option<Vec<u8>>,
}

impl View for FlagOutcome {
    type V = OutcomeModel;

    open spec fn view(&self) -> OutcomeModel {
        OutcomeModel {
            status: self.status,
            points_milli: self.points_milli,
            error: match self.error {
                Some(e) => Some(e@),
                None => None,
            },
        }
    }
}

impl DeepView for FlagOutcome {
    type V = OutcomeModel;

    open spec fn deep_view(&self) -> OutcomeModel {
        self.view()
    }
}

/// How one response line is classified, never assuming success: the
/// success vocabulary wins points, the failure vocabulary rejects, and
/// anything else is a protocol violation recorded as an error.
pub open spec fn outcome_of_line(line: Seq<u8>) -> OutcomeModel {
    if is_success_line(line) {
        OutcomeModel {
            status: FlagStatus::Accepted,
            points_milli: sat64(line_points_milli(line)),
            error: None,
        }
    } else if is_failure_line(line) {
        OutcomeModel {
            status: FlagStatus::Rejected,
            points_milli: 0,
            error: Some("Rejected: ".spec_bytes() + line),
        }
    } else {
        OutcomeModel {
            status: FlagStatus::Error,
            points_milli: 0,
            error: Some("Unexpected response: ".spec_bytes() + line),
        }
    }
}

/// Classifies one response line.
pub fn classify_response(line: &[u8]) -> (r: FlagOutcome)
    ensures
        r@ == outcome_of_line(line@),
{
    let success = contains_word_ci(line, "accepted".as_bytes()) || contains_word_ci(
        line,
        "earned".as_bytes(),
    );
    if success {
        let points = line_points_milli_exec(line);
        return FlagOutcome { status: FlagStatus::Accepted, points_milli: points, error: None };
    }
    let failure = contains_word_ci(line, "invalid".as_bytes()) || contains_word_ci(
        line,
        "too old".as_bytes(),
    ) || contains_word_ci(line, "your own".as_bytes());
    if failure {
        let msg = concat_bytes("Rejected: ".as_bytes(), line);
        return FlagOutcome { status: FlagStatus::Rejected, points_milli: 0, error: Some(msg) };
    }
    let msg = concat_bytes("Unexpected response: ".as_bytes(), line);
    FlagOutcome { status: FlagStatus::Error, points_milli: 0, error: Some(msg) }
}

/// Where the line-protocol exchange stands.
#[derive(Debug, Clone, Copy, PartialEq, Eq, Structural)]
pub enum LinePhase {
    /// Waiting for the service's first line.
    AwaitGreeting,
    /// Token sent; waiting for the ready line.
    AwaitReady,
    /// One flag sent; waiting for its response line.
    AwaitFlagResponse,
    /// Every pending flag has an outcome.
    Done,
    /// The handshake failed; no flag was sent.
    Failed,
}

/// What the caller must do next with its stream.
#[derive(Debug)]
pub enum LineAction {
    /// Write these bytes, flush, read one line, hand it to `on_line`.
    Send(Vec<u8>),
    /// The exchange is over; apply the outcomes to the ledger.
    Finished,
    /// The handshake failed; close the stream and leave the ledger alone.
    Abort(SubmitError),
}

/// The line-protocol client.  Feed it every line the service sends, in
/// order, and obey the returned action.
pub struct LineClient {
    /// The team's authentication token.
    pub token: Vec<u8>,
    /// The pending flags to submit, fixed for the whole exchange.
    pub pending: Vec<Vec<u8>>,
    /// How many flags have an outcome already.
    pub processed: usize,
    pub phase: LinePhase,
    /// The outcome of flag `i` is `outcomes[i]`; strictly in order.
    pub outcomes: Vec<FlagOutcome>,
}

impl LineClient {
    /// The machine's healthiness: outcomes track processed flags one to
    /// one, nothing is recorded before the handshake is over, everything
    /// is recorded once it is done, and a failed handshake recorded
    /// nothing.
    pub open spec fn inv(self) -> bool {
        &&& self.processed == self.outcomes@.len()
        &&& self.outcomes@.len() <= self.pending@.len()
        &&& (self.phase == LinePhase::AwaitGreeting || self.phase == LinePhase::AwaitReady)
            ==> self.outcomes@.len() == 0
        &&& self.phase == LinePhase::AwaitFlagResponse ==> self.processed < self.pending@.len()
        &&& self.phase == LinePhase::Done ==> self.processed == self.pending@.len()
        &&& self.phase == LinePhase::Failed ==> self.outcomes@.len() == 0
    }

    /// A fresh exchange for these pending flags, waiting for the
    /// service's greeting.
    pub fn new(token: Vec<u8>, pending: Vec<Vec<u8>>) -> (r: LineClient)
        ensures
            r.inv(),
            r.phase == LinePhase::AwaitGreeting,
            r.token@ == token@,
            r.pending@ == pending@,
            r.processed == 0,
            r.outcomes@.len() == 0,
    {
        LineClient {
            token,
            pending,
            processed: 0,
            phase: LinePhase::AwaitGreeting,
            outcomes: Vec::new(),
        }
    }

    /// Advances the exchange by one received line.
    ///
    /// - Waiting for the greeting: a greeting line authenticates (send
    ///   token), anything else aborts with `NoGreeting`.
    /// - Waiting for the ready line: a ready line starts the flag round
    ///   trips (or finishes at once when nothing is pending), anything
    ///   else aborts with `NoReadyMessage`.
    /// - Waiting for a flag's response: the line is classified and
    ///   recorded, and the next flag goes out; one bad flag never aborts
    ///   the rest.
    pub fn on_line(&mut self, line: &[u8]) -> (a: LineAction)
        requires
            old(self).inv(),
            old(self).phase == LinePhase::AwaitGreeting || old(self).phase == LinePhase::AwaitReady
                || old(self).phase == LinePhase::AwaitFlagResponse,
        ensures
            final(self).inv(),
            final(self).token@ == old(self).token@,
            final(self).pending@ == old(self).pending@,
            old(self).phase == LinePhase::AwaitGreeting ==> {
                &&& final(self).outcomes@ == old(self).outcomes@
                &&& final(self).processed == 0
                &&& is_greeting_line(line@) ==> final(self).phase == LinePhase::AwaitReady && (
                a matches LineAction::Send(m) && m@ == old(self).token@ + "\n".spec_bytes())
                &&& !is_greeting_line(line@) ==> final(self).phase == LinePhase::Failed && (
                a matches LineAction::Abort(e) && e is NoGreeting)
            },
            old(self).phase == LinePhase::AwaitReady ==> {
                &&& final(self).outcomes@ == old(self).outcomes@
                &&& final(self).processed == 0
                &&& (is_ready_line(line@) && old(self).pending@.len() == 0) ==> final(self).phase
                    == LinePhase::Done && (a is Finished)
                &&& (is_ready_line(line@) && old(self).pending@.len() > 0) ==> final(self).phase
                    == LinePhase::AwaitFlagResponse && (a matches LineAction::Send(m) && m@
                    == old(self).pending@[0]@ + "\n".spec_bytes())
                &&& !is_ready_line(line@) ==> final(self).phase == LinePhase::Failed && (
                a matches LineAction::Abort(e) && e is NoReadyMessage)
            },
            old(self).phase == LinePhase::AwaitFlagResponse ==> {
                &&& final(self).outcomes.deep_view() == old(self).outcomes.deep_view().push(
                    outcome_of_line(line@),
                )
                &&& final(self).processed == old(self).processed + 1
                &&& old(self).processed + 1 < old(self).pending@.len() ==> final(self).phase
                    == LinePhase::AwaitFlagResponse && (a matches LineAction::Send(m) && m@
                    == old(self).pending@[old(self).processed + 1]@ + "\n".spec_bytes())
                &&& old(self).processed + 1 == old(self).pending@.len() ==> final(self).phase
                    == LinePhase::Done && (a is Finished)
            },
    {
        match self.phase {
            LinePhase::AwaitGreeting => {
                if is_greeting(line) {
                    self.phase = LinePhase::AwaitReady;
                    LineAction::Send(concat_bytes(self.token.as_slice(), "\n".as_bytes()))
                } else {
                    self.phase = LinePhase::Failed;
                    LineAction::Abort(SubmitError::NoGreeting)
                }
            },
            LinePhase::AwaitReady => {
                if is_ready(line) {
                    if self.pending.len() == 0 {
                        self.phase = LinePhase::Done;
                        LineAction::Finished
                    } else {
                        self.phase = LinePhase::AwaitFlagResponse;
                        LineAction::Send(
                            concat_bytes(self.pending[0].as_slice(), "\n".as_bytes()),
                        )
                    }
                } else {
                    self.phase = LinePhase::Failed;
                    LineAction::Abort(SubmitError::NoReadyMessage)
                }
            },
            LinePhase::AwaitFlagResponse => {
                let outcome = classify_response(line);
                let n = self.pending.len();
                assert(self.processed < n);
                self.outcomes.push(outcome);
                self.processed = self.processed + 1;
                proof {
                    assert(self.outcomes.deep_view() =~= old(self).outcomes.deep_view().push(
                        outcome_of_line(line@),
                    ));
                }
                if self.processed < self.pending.len() {
                    LineAction::Send(
                        concat_bytes(self.pending[self.processed].as_slice(), "\n".as_bytes()),
                    )
                } else {
                    self.phase = LinePhase::Done;
                    LineAction::Finished
                }
            },
            LinePhase::Done => LineAction::Finished,
            LinePhase::Failed => LineAction::Abort(SubmitError::NoGreeting),
        }
    }
}

} // verus!
