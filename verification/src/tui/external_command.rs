//! What the interface makes of a shell command once it ran: its output as
//! text, or why it failed. Running it, and handing the terminal over to it,
//! is left to the caller.

use vstd::prelude::*;
use vstd::utf8::{decode_utf8, valid_utf8};
use crate::text::concat_text;

verus! {

/// Decodes bytes as UTF-8 text (`String::from_utf8`).
///
/// Trusted: the contract claims what the standard library documents: the
/// bytes come back as text exactly when they are valid UTF-8, and the text is
/// their decoding. The error's message (the standard library's description
/// of where the bytes stop being UTF-8) is left unsaid.
#[verifier::external_body]
pub(crate) fn string_from_utf8(bytes: Vec<u8>) -> (r: Result<String, String>)
    ensures
        r is Ok <==> valid_utf8(bytes@),
        r matches Ok(s) ==> s@ == decode_utf8(bytes@),
{
    match String::from_utf8(bytes) {
        Ok(s) => Ok(s),
        Err(e) => Err(e.to_string()),
    }
}

/// Why a shell command gave no output.
pub enum CommandError {
    /// The command exited unsuccessfully; holds the command and what it wrote
    /// to its error stream.
    Unsuccessful { command: String, stderr: String },
    /// What the command wrote is not UTF-8 text; holds the description.
    InvalidUtf8(String),
}

/// The text of a command error.
pub open spec fn command_error_text(e: CommandError) -> Seq<char> {
    match e {
        CommandError::Unsuccessful { command, .. } => "Unsuccessful command \""@ + command@ + "\""@,
        CommandError::InvalidUtf8(m) => m@,
    }
}

impl CommandError {
    /// What the error says.
    pub fn message(&self) -> (m: String)
        ensures
            m@ == command_error_text(*self),
    {
        match self {
            CommandError::Unsuccessful { command, .. } => concat_text(
                concat_text("Unsuccessful command \"", command.as_str()).as_str(),
                "\"",
            ),
            CommandError::InvalidUtf8(m) => m.clone(),
        }
    }
}

/// Shell commands run by the interface.
pub struct ExternalCommand {}

impl ExternalCommand {
    /// The outcome of shell command `cmd`, run with its output captured: on
    /// success what it wrote to its output stream, as text; otherwise the
    /// failure, with what it wrote to its error stream. Fails with the
    /// decoding error when the stream read is not UTF-8.
    pub fn sh(cmd: &str, success: bool, stdout: Vec<u8>, stderr: Vec<u8>) -> (r: Result<String, CommandError>)
        ensures
            success && valid_utf8(stdout@) ==> (r matches Ok(out) && out@ == decode_utf8(stdout@)),
            success && !valid_utf8(stdout@) ==> r matches Err(CommandError::InvalidUtf8(_)),
            !success && valid_utf8(stderr@) ==> (r matches Err(CommandError::Unsuccessful { command, stderr: e })
                && command@ == cmd@ && e@ == decode_utf8(stderr@)),
            !success && !valid_utf8(stderr@) ==> r matches Err(CommandError::InvalidUtf8(_)),
    {
        if !success {
            return match string_from_utf8(stderr) {
                Ok(e) => Err(CommandError::Unsuccessful { command: cmd.to_owned(), stderr: e }),
                Err(m) => Err(CommandError::InvalidUtf8(m)),
            };
        }
        match string_from_utf8(stdout) {
            Ok(out) => Ok(out),
            Err(m) => Err(CommandError::InvalidUtf8(m)),
        }
    }

    /// The outcome of shell command `cmd`, run in the foreground with the
    /// terminal handed to it: nothing on success, the failure otherwise.
    pub fn shout(cmd: &str, success: bool) -> (r: Result<(), CommandError>)
        ensures
            success ==> r is Ok,
            !success ==> (r matches Err(CommandError::Unsuccessful { command, stderr }) && command@ == cmd@
                && stderr@.len() == 0),
    {
        if success {
            Ok(())
        } else {
            Err(CommandError::Unsuccessful { command: cmd.to_owned(), stderr: String::new() })
        }
    }
}

} // verus!
