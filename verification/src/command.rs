//! What one run of the shell gave back, and how the shell is to be started.

use crate::error::Error;
use crate::json::{json_tree, parse_document, parsed_json};
use vstd::prelude::*;
use vstd::string::StringExecFns;
use vstd::utf8::{decode_utf8, valid_utf8};

verus! {

/// Where the shell is found on the device.
pub const VSH_BIN: &'static str = "/isan/bin/vsh";

/// What one run of the shell gave back: what it printed and how it ended.
#[derive(Debug)]
pub struct CommandResult {
    /// What the shell wrote to its standard output.
    pub stdout: String,
    /// What the shell wrote to its standard error.
    pub stderr: String,
    /// The exit code; none where a signal ended the shell.
    pub status: Option<i32>,
}

/// `String::from_utf8`: the text that the bytes encode in UTF-8, and nothing
/// where they are not UTF-8.
#[verifier::external_body]
fn text_from_utf8(bytes: Vec<u8>) -> (r: Option<String>)
    ensures
        match r {
            Some(text) => valid_utf8(bytes@) && text@ == decode_utf8(bytes@),
            None => !valid_utf8(bytes@),
        },
{
    String::from_utf8(bytes).ok()
}

/// The arguments with which the shell runs one command without a terminal:
/// `-N`, `-c` and the command itself, as it stands.
pub fn arguments(command: &str) -> (r: Vec<String>)
    ensures
        r@.len() == 3,
        r@[0]@ == "-N"@,
        r@[1]@ == "-c"@,
        r@[2]@ == command@,
{
    let mut out: Vec<String> = Vec::new();
    out.push("-N".to_owned());
    out.push("-c".to_owned());
    out.push(command.to_owned());
    out
}

/// The command that prints as JSON what `command` prints: the command with
/// ` | json` behind it.
pub fn json_command(command: &str) -> (r: String)
    ensures
        r@ == command@ + " | json"@,
{
    let mut out: String = command.to_owned();
    out.append(" | json");
    out
}

impl CommandResult {
    /// Takes the bytes that the shell wrote as text. Bytes that are not
    /// UTF-8 are refused, on either stream; nothing is replaced or cut.
    pub fn from_output(stdout: Vec<u8>, stderr: Vec<u8>, status: Option<i32>) -> (r: Result<
        CommandResult,
        Error,
    >)
        ensures
            match r {
                Ok(result) => {
                    &&& valid_utf8(stdout@)
                    &&& valid_utf8(stderr@)
                    &&& result.stdout@ == decode_utf8(stdout@)
                    &&& result.stderr@ == decode_utf8(stderr@)
                    &&& result.status == status
                },
                Err(e) => e == Error::Decoding && !(valid_utf8(stdout@) && valid_utf8(stderr@)),
            },
    {
        let out = match text_from_utf8(stdout) {
            Some(text) => text,
            None => {
                return Err(Error::Decoding);
            },
        };
        let err = match text_from_utf8(stderr) {
            Some(text) => text,
            None => {
                return Err(Error::Decoding);
            },
        };
        Ok(CommandResult { stdout: out, stderr: err, status })
    }

    /// Whether the exit code is 0.
    pub open spec fn succeeded(&self) -> bool {
        self.status == Some(0i32)
    }

    /// The standard output as a JSON document.
    pub fn json(&self) -> (r: Result<serde_json::Value, Error>)
        ensures
            match r {
                Ok(v) => parsed_json(self.stdout@) == Some(json_tree(v)),
                Err(e) => e == Error::MalformedPayload && parsed_json(self.stdout@) is None,
            },
    {
        parse_document(self.stdout.as_str())
    }

    /// Whether the shell ended with the exit code 0.
    pub fn success(&self) -> (r: bool)
        ensures
            r == self.succeeded(),
    {
        match self.status {
            Some(code) => code == 0,
            None => false,
        }
    }

    /// Whether the shell ended in any other way.
    pub fn failed(&self) -> (r: bool)
        ensures
            r == !self.succeeded(),
    {
        !self.success()
    }
}

} // verus!
