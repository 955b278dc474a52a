//! Images as the first listing of the container engine gave them, and the
//! error of a failed engine command.

use vstd::prelude::*;
use crate::text::{concat_text, decimal, decimal_text};

verus! {

/// A listed image: its repository, tag and identifier, as text.
pub struct Image {
    pub repository: String,
    pub tag: String,
    pub id: String,
}

/// An engine command that failed: its exit status, when it has one, and what
/// it wrote to its error stream.
pub enum DockerError {
    CommandError(Option<i32>, String),
}

/// An exit status as the error shows it: `Some(code)` or `None`.
pub open spec fn status_text(code: Option<i32>) -> Seq<char> {
    match code {
        Some(c) => "Some("@ + (if c < 0 {
            "-"@ + decimal_text((-c) as nat)
        } else {
            decimal_text(c as nat)
        }) + ")"@,
        None => "None"@,
    }
}

/// The text of an engine error.
pub open spec fn docker_error_text(e: DockerError) -> Seq<char> {
    match e {
        DockerError::CommandError(code, stderr) => "error calling the docker command, status: "@ + status_text(code)
            + ", stderr: \""@ + stderr@ + "\""@,
    }
}

/// `c` in decimal, with a minus sign when negative.
fn signed_decimal(c: i32) -> (s: String)
    ensures
        s@ == if c < 0 {
            "-"@ + decimal_text((-c) as nat)
        } else {
            decimal_text(c as nat)
        },
{
    if c < 0 {
        let magnitude: u32 = if c == i32::MIN {
            2147483648u32
        } else {
            (-c) as u32
        };
        concat_text("-", decimal(magnitude as usize).as_str())
    } else {
        decimal(c as usize)
    }
}

impl DockerError {
    /// What the error says.
    pub fn message(&self) -> (m: String)
        ensures
            m@ == docker_error_text(*self),
    {
        match self {
            DockerError::CommandError(code, stderr) => {
                let status = match code {
                    Some(c) => concat_text(concat_text("Some(", signed_decimal(*c).as_str()).as_str(), ")"),
                    None => "None".to_owned(),
                };
                let head = concat_text("error calling the docker command, status: ", status.as_str());
                let with_stderr = concat_text(concat_text(head.as_str(), ", stderr: \"").as_str(), stderr.as_str());
                concat_text(with_stderr.as_str(), "\"")
            },
        }
    }
}

} // verus!
