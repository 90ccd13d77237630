//! Error taxonomy: submission errors abort or scope a submission attempt,
//! attack errors are recoverable and scoped to one (team, exploit) pair.

use vstd::prelude::*;

verus! {

/// Errors that may happen while submitting flags.
///
/// A handshake error (`NoGreeting`, `NoReadyMessage`) aborts the whole
/// attempt and leaves every targeted flag `Pending`; the carrier variants
/// hold the reason text of the underlying failure.
#[derive(Debug, Clone)]
pub enum SubmitError {
    /// The durable store could not be initialised.
    StoreInit(Vec<u8>),
    /// Flags could not be read back from the durable store.
    RetrieveFlags(Vec<u8>),
    /// The connection to the scoring service could not be opened.
    ServiceConnection(Vec<u8>),
    /// The scoring service stopped talking mid-protocol.
    ServiceCommunication(Vec<u8>),
    /// No submitter is configured for the selected submission type.
    NoSubmitter,
    /// The service's first line was not a greeting.
    NoGreeting,
    /// The service never said it was ready for flags.
    NoReadyMessage,
    /// The durable store refused an update.
    Database(Vec<u8>),
}

/// Errors that may happen while attacking one team with one exploit.
/// None of them aborts sibling work.
#[derive(Debug, Clone)]
pub enum AttackError {
    /// The exploit path does not exist.
    NoSuchExploit(Vec<u8>),
    /// The team is not in the roster.
    NoSuchTeam(Vec<u8>),
    /// No flags were captured.
    NoCaptures,
    /// The exploit failed to launch, exited non-zero, or its output could
    /// not be read.
    ScriptExecutionError { script: Vec<u8>, message: Vec<u8> },
    /// Anything else, as text; the settings editor reports bad edits
    /// this way.
    Other(Vec<u8>),
}

/// Errors that may happen while reading the configuration.
#[derive(Debug, Clone)]
pub enum ConfigError {
    /// The configuration text could not be parsed.
    ParseError(Vec<u8>),
    /// The configuration directory could not be determined.
    ConfigDirNotFound,
    /// The submission type is neither of the two known ones.
    InvalidSubmitterType(Vec<u8>),
}

} // verus!
