//! What the commands of the program decide and say.
pub mod config;
pub mod connect;
pub mod server;
pub mod status;
pub mod target;

use crate::error::{error_text, RustmoteError};
use crate::text::{concat3, opt_view};
use vstd::prelude::*;

verus! {

/// Why a command failed.
#[derive(Debug, PartialEq, Eq)]
pub enum CommandError<T = String> {
    /// For this reason.
    Message(T),
    /// Something failed while this was done.
    Wrapped { context: T, cause: RustmoteError<T> },
    /// This could not be done, for this reason.
    Explained { context: T, reason: T },
}

/// The view of a [`CommandError`].
pub type CommandErrorView = CommandError<Seq<char>>;

impl View for CommandError {
    type V = CommandError<Seq<char>>;

    open spec fn view(&self) -> CommandError<Seq<char>> {
        match self {
            CommandError::Message(text) => CommandError::Message(text@),
            CommandError::Wrapped { context, cause } => CommandError::Wrapped {
                context: context@,
                cause: cause@,
            },
            CommandError::Explained { context, reason } => CommandError::Explained {
                context: context@,
                reason: reason@,
            },
        }
    }
}

/// What is said of a failed command: what was done, and why it failed.
pub open spec fn command_error_text(e: CommandErrorView) -> Seq<char> {
    match e {
        CommandError::Message(text) => text,
        CommandError::Wrapped { context, cause } => context + ": "@ + error_text(cause),
        CommandError::Explained { context, reason } => context + ": "@ + reason,
    }
}

impl CommandError {
    /// What is said of the failed command.
    pub fn message(&self) -> (r: String)
        ensures
            r@ == command_error_text(self@),
    {
        match self {
            CommandError::Message(text) => text.clone(),
            CommandError::Wrapped { context, cause } => concat3(
                context.as_str(),
                ": ",
                cause.message().as_str(),
            ),
            CommandError::Explained { context, reason } => concat3(
                context.as_str(),
                ": ",
                reason.as_str(),
            ),
        }
    }
}

/// The failure of something, with what was done.
pub fn wrapped<V>(r: Result<V, RustmoteError>, context: &str) -> (out: Result<V, CommandError>)
    ensures
        match r {
            Ok(v) => out == Ok::<V, CommandError>(v),
            Err(e) => out matches Err(x) && x@ == (CommandError::Wrapped {
                context: context@,
                cause: e@,
            }),
        },
{
    match r {
        Ok(v) => Ok(v),
        Err(e) => Err(CommandError::Wrapped { context: context.to_owned(), cause: e }),
    }
}

/// The sign that stands for a value that is not there.
pub open spec fn or_dash(value: Option<Seq<char>>) -> Seq<char> {
    match value {
        Some(v) => v,
        None => "—"@,
    }
}

/// A value, or the sign for one that is not there.
pub fn text_or_dash(value: &Option<String>) -> (r: String)
    ensures
        r@ == or_dash(opt_view(*value)),
{
    match value {
        Some(v) => v.clone(),
        None => "—".to_owned(),
    }
}

/// The level of the log for how often the user asked for more.
pub open spec fn log_level_name(verbose: u8) -> Seq<char> {
    if verbose == 0 {
        "warn"@
    } else if verbose == 1 {
        "info"@
    } else if verbose == 2 {
        "debug"@
    } else {
        "trace"@
    }
}

/// The level of the log for how often the user asked for more.
pub fn default_log_level(verbose: u8) -> (r: &'static str)
    ensures
        r@ == log_level_name(verbose),
{
    match verbose {
        0 => "warn",
        1 => "info",
        2 => "debug",
        _ => "trace",
    }
}

/// What is said of a failed command holds what was done and why it failed, with a colon between
/// them; a bare message is said as it is.
pub proof fn failures_say_what_and_why(e: &CommandError, r: String)
    requires
        call_ensures(CommandError::message, (e,), r),
    ensures
        match e {
            CommandError::Message(text) => r@ == text@,
            CommandError::Wrapped { context, cause } => r@ == context@ + ": "@ + error_text(cause@),
            CommandError::Explained { context, reason } => r@ == context@ + ": "@ + reason@,
        },
{
}

/// The more often the user asks for more, the more the log says: warnings, then information, then
/// debugging, and then everything.
pub proof fn asking_for_more_logs_more(verbose: u8, r: &'static str)
    requires
        call_ensures(default_log_level, (verbose,), r),
    ensures
        verbose == 0 ==> r@ == "warn"@,
        verbose == 1 ==> r@ == "info"@,
        verbose == 2 ==> r@ == "debug"@,
        verbose > 2 ==> r@ == "trace"@,
{
}

} // verus!
