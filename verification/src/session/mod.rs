//! The SSH session: what a remote command gave, whose keys are trusted, how a login proceeds.
pub mod channel;
pub mod known_hosts;
pub mod login;

use crate::error::RustmoteError;
use crate::text::{std_from_utf8_lossy, utf8_lossy};
use vstd::prelude::*;

verus! {

/// What a remote command wrote and how it exited. `B` is the type of the bytes: `Vec<u8>` in
/// running code, `Seq<u8>` in the view.
#[derive(Debug, PartialEq, Eq)]
pub struct ExecOutput<B = Vec<u8>> {
    pub stdout: B,
    pub stderr: B,
    pub exit_code: u32,
}

/// The view of a [`ExecOutput`].
pub type ExecOutputView = ExecOutput<Seq<u8>>;

impl View for ExecOutput {
    type V = ExecOutput<Seq<u8>>;

    open spec fn view(&self) -> ExecOutput<Seq<u8>> {
        ExecOutput { stdout: self.stdout@, stderr: self.stderr@, exit_code: self.exit_code }
    }
}

/// The failure of a command that exited with another status than zero.
pub open spec fn command_failed(command: Seq<char>, out: ExecOutputView) -> RustmoteError<
    Seq<char>,
> {
    RustmoteError::RemoteCommandFailed {
        command,
        exit_code: out.exit_code,
        stderr: utf8_lossy(out.stderr),
    }
}

impl ExecOutput {
    /// Standard output as text; invalid UTF-8 is replaced.
    pub fn stdout_string(&self) -> (r: String)
        ensures
            r@ == utf8_lossy(self@.stdout),
            vstd::utf8::valid_utf8(self@.stdout) ==> r@ == vstd::utf8::decode_utf8(self@.stdout),
    {
        std_from_utf8_lossy(self.stdout.as_slice())
    }

    /// Standard error as text; invalid UTF-8 is replaced.
    pub fn stderr_string(&self) -> (r: String)
        ensures
            r@ == utf8_lossy(self@.stderr),
            vstd::utf8::valid_utf8(self@.stderr) ==> r@ == vstd::utf8::decode_utf8(self@.stderr),
    {
        std_from_utf8_lossy(self.stderr.as_slice())
    }

    /// The output itself where the command exited with status zero, else the command's failure.
    pub fn ok_for(self, command: &str) -> (r: Result<ExecOutput, RustmoteError>)
        ensures
            self.exit_code == 0 ==> r == Ok::<ExecOutput, RustmoteError>(self),
            self.exit_code != 0 ==> (r matches Err(e) && e@ == command_failed(command@, self@)),
    {
        if self.exit_code == 0 {
            Ok(self)
        } else {
            Err(
                RustmoteError::RemoteCommandFailed {
                    command: command.to_owned(),
                    exit_code: self.exit_code,
                    stderr: self.stderr_string(),
                },
            )
        }
    }
}

impl Clone for ExecOutput {
    fn clone(&self) -> (r: ExecOutput)
        ensures
            r@ == self@,
    {
        let stdout = self.stdout.clone();
        let stderr = self.stderr.clone();
        assert(stdout@ =~= self.stdout@);
        assert(stderr@ =~= self.stderr@);
        ExecOutput { stdout, stderr, exit_code: self.exit_code }
    }
}

} // verus!
