//! How the state machines of this module talk to the outside.
//!
//! A machine asks for one thing at a time and is told what came of it: it returns a [`Step`] with
//! an [`Action`], the caller performs the action and hands back the [`Reply`].
use crate::error::{outcome, ErrorView, RustmoteError};
use crate::relay_lifecycle::state::{RelayState, StateView};
use crate::session::{command_failed, ExecOutput, ExecOutputView};
use crate::text::{lemma_views_push, views};
use crate::time::{TimeSpan, Timestamp};
use vstd::prelude::*;

verus! {

/// What a machine asks for.
#[derive(Debug, PartialEq, Eq)]
pub enum Action<T = String, S = RelayState> {
    /// Run a command on the remote.
    Exec(T),
    /// List the tags of a repository.
    ListTags(T),
    /// Resolve a tag of a repository to its digest.
    ResolveDigest { repo: T, tag: T },
    /// Read the record of a relay from the text of the file at a path.
    DecodeState { text: T, path: T },
    /// Write the record of a relay as text.
    EncodeState(S),
    /// Read the calendar clock.
    ReadClock,
    /// Read a clock that never goes back, in nanoseconds.
    ReadTimer,
    /// Wait.
    Sleep(TimeSpan),
}

/// The view of a [`Action`].
pub type ActionView = Action<Seq<char>, StateView>;

impl View for Action {
    type V = ActionView;

    open spec fn view(&self) -> ActionView {
        match self {
            Action::Exec(command) => Action::Exec(command@),
            Action::ListTags(repo) => Action::ListTags(repo@),
            Action::ResolveDigest { repo, tag } => Action::ResolveDigest { repo: repo@, tag: tag@ },
            Action::DecodeState { text, path } => Action::DecodeState { text: text@, path: path@ },
            Action::EncodeState(state) => Action::EncodeState(state@),
            Action::ReadClock => Action::ReadClock,
            Action::ReadTimer => Action::ReadTimer,
            Action::Sleep(span) => Action::Sleep(*span),
        }
    }
}

/// What came of an action.
#[derive(Debug, PartialEq, Eq)]
pub enum Reply<O = ExecOutput, L = Vec<String>, T = String, S = RelayState, E = RustmoteError> {
    /// The command ran.
    Output(O),
    /// The tags.
    Tags(L),
    /// The digest.
    Digest(T),
    /// The record that the text holds.
    State(S),
    /// The text of the record.
    Encoded(T),
    /// The time.
    Clock(Timestamp),
    /// The reading of the clock that never goes back.
    Timer(u64),
    /// The waiting is over.
    Rested,
    /// The action could not be performed.
    Failed(E),
}

/// The view of a [`Reply`].
pub type ReplyView = Reply<ExecOutputView, Seq<Seq<char>>, Seq<char>, StateView, ErrorView>;

impl View for Reply {
    type V = ReplyView;

    open spec fn view(&self) -> ReplyView {
        match self {
            Reply::Output(out) => Reply::Output(out@),
            Reply::Tags(tags) => Reply::Tags(views(tags@)),
            Reply::Digest(digest) => Reply::Digest(digest@),
            Reply::State(state) => Reply::State(state@),
            Reply::Encoded(text) => Reply::Encoded(text@),
            Reply::Clock(at) => Reply::Clock(*at),
            Reply::Timer(t) => Reply::Timer(*t),
            Reply::Rested => Reply::Rested,
            Reply::Failed(e) => Reply::Failed(e@),
        }
    }
}

/// The kind of reply that a machine waits for.
#[derive(Debug, Clone, Copy, PartialEq, Eq, Structural)]
pub enum Wait {
    Output,
    Tags,
    Digest,
    State,
    Encoded,
    Clock,
    Timer,
    Rest,
    Nothing,
}

/// The kind of reply that an action is answered with.
pub open spec fn wait_for(action: ActionView) -> Wait {
    match action {
        Action::Exec(_) => Wait::Output,
        Action::ListTags(_) => Wait::Tags,
        Action::ResolveDigest { .. } => Wait::Digest,
        Action::DecodeState { .. } => Wait::State,
        Action::EncodeState(_) => Wait::Encoded,
        Action::ReadClock => Wait::Clock,
        Action::ReadTimer => Wait::Timer,
        Action::Sleep(_) => Wait::Rest,
    }
}

/// Whether a reply answers what a machine waits for; that the action failed answers anything.
pub open spec fn fits(wait: Wait, reply: ReplyView) -> bool {
    match reply {
        Reply::Output(_) => wait == Wait::Output,
        Reply::Tags(_) => wait == Wait::Tags,
        Reply::Digest(_) => wait == Wait::Digest,
        Reply::State(_) => wait == Wait::State,
        Reply::Encoded(_) => wait == Wait::Encoded,
        Reply::Clock(_) => wait == Wait::Clock,
        Reply::Timer(_) => wait == Wait::Timer,
        Reply::Rested => wait == Wait::Rest,
        Reply::Failed(_) => wait != Wait::Nothing,
    }
}

/// Where a machine stands: it asks for something, is done, or has failed.
#[derive(Debug, PartialEq, Eq)]
pub enum Step<A, R, E> {
    Next(A),
    Done(R),
    Failed(E),
}

impl<R: View> View for Step<Action, R, RustmoteError> {
    type V = Step<ActionView, R::V, ErrorView>;

    open spec fn view(&self) -> Step<ActionView, R::V, ErrorView> {
        match self {
            Step::Next(action) => Step::Next(action@),
            Step::Done(r) => Step::Done(r@),
            Step::Failed(e) => Step::Failed(e@),
        }
    }
}

/// Whether a machine that took a step waits for what the step asks for, and for nothing where it
/// has come to its end.
pub open spec fn awaits<R>(step: Step<ActionView, R, ErrorView>, wait: Wait) -> bool {
    match step {
        Step::Next(action) => wait == wait_for(action),
        _ => wait == Wait::Nothing,
    }
}

/// Asks for a command to be run, or fails as its builder did.
pub open spec fn issue<R>(command: Result<Seq<char>, ErrorView>) -> Step<ActionView, R, ErrorView> {
    match command {
        Ok(c) => Step::Next(Action::Exec(c)),
        Err(e) => Step::Failed(e),
    }
}

/// Asks for a command to be run, or fails where it could not be built.
pub fn issue_command<R: View>(command: Result<String, RustmoteError>) -> (r: Step<
    Action,
    R,
    RustmoteError,
>)
    ensures
        r@ == issue::<R::V>(outcome(command)),
{
    match command {
        Ok(c) => Step::Next(Action::Exec(c)),
        Err(e) => Step::Failed(e),
    }
}

/// All commands, or the failure of the first that could not be built.
pub open spec fn all_built(commands: Seq<Result<Seq<char>, ErrorView>>) -> Result<
    Seq<Seq<char>>,
    ErrorView,
>
    decreases commands.len(),
{
    if commands.len() == 0 {
        Ok(seq![])
    } else {
        match all_built(commands.drop_last()) {
            Err(e) => Err(e),
            Ok(before) => match commands.last() {
                Err(e) => Err(e),
                Ok(c) => Ok(before.push(c)),
            },
        }
    }
}

/// No command is lost.
pub proof fn lemma_all_built_len(commands: Seq<Result<Seq<char>, ErrorView>>)
    ensures
        all_built(commands) matches Ok(all) ==> all.len() == commands.len(),
    decreases commands.len(),
{
    if commands.len() > 0 {
        lemma_all_built_len(commands.drop_last());
    }
}

/// The views of fallible texts.
pub open spec fn outcomes(commands: Seq<Result<String, RustmoteError>>) -> Seq<
    Result<Seq<char>, ErrorView>,
> {
    Seq::new(commands.len(), |i: int| outcome(commands[i]))
}

/// Commands that are run one after the other. The first of those left is the one that runs.
#[derive(Debug, PartialEq, Eq)]
pub struct CommandQueue {
    pub commands: Vec<String>,
    pub at: usize,
}

impl View for CommandQueue {
    type V = Seq<Seq<char>>;

    open spec fn view(&self) -> Seq<Seq<char>> {
        views(self.commands@).skip(self.at as int)
    }
}

/// What a queue does when its running command has ended: it fails with the command, goes on, or is
/// through.
pub open spec fn queue_step(queue: Seq<Seq<char>>, out: ExecOutputView) -> Step<
    ActionView,
    (),
    ErrorView,
> {
    if out.exit_code != 0 {
        Step::Failed(command_failed(queue[0], out))
    } else if queue.len() > 1 {
        Step::Next(Action::Exec(queue[1]))
    } else {
        Step::Done(())
    }
}

impl CommandQueue {
    /// The position is one of the queue or its end.
    pub open spec fn wf(self) -> bool {
        self.at <= self.commands@.len()
    }

    /// No commands.
    pub fn empty() -> (r: CommandQueue)
        ensures
            r.wf(),
            r@ == Seq::<Seq<char>>::empty(),
    {
        let r = CommandQueue { commands: Vec::new(), at: 0 };
        assert(r@ =~= Seq::empty());
        r
    }

    /// A queue of commands, where all of them could be built.
    pub fn build(commands: Vec<Result<String, RustmoteError>>) -> (r: Result<
        CommandQueue,
        RustmoteError,
    >)
        ensures
            match r {
                Ok(q) => q.wf() && all_built(outcomes(commands@)) == Ok::<
                    Seq<Seq<char>>,
                    ErrorView,
                >(q@),
                Err(e) => all_built(outcomes(commands@)) == Err::<Seq<Seq<char>>, ErrorView>(e@),
            },
    {
        let ghost all = outcomes(commands@);
        let mut rest = commands;
        let mut built: Vec<String> = Vec::new();
        let mut failed: Option<RustmoteError> = None;
        let ghost mut count: int = 0;
        assert(all.take(0) =~= Seq::empty());
        assert(views(built@) =~= Seq::empty());
        // The commands are taken from the front.
        while rest.len() > 0
            invariant
                0 <= count <= all.len(),
                outcomes(rest@) == all.skip(count),
                rest@.len() == all.len() - count,
                match failed {
                    Some(e) => all_built(all.take(count)) == Err::<Seq<Seq<char>>, ErrorView>(e@),
                    None => all_built(all.take(count)) == Ok::<Seq<Seq<char>>, ErrorView>(
                        views(built@),
                    ),
                },
            decreases rest@.len(),
        {
            let ghost before = rest@;
            let ghost done = built@;
            let command = rest.remove(0);
            proof {
                assert(outcomes(before)[0] == outcome(command));
                assert(all.skip(count)[0] == all[count]);
                assert(all.take(count + 1).drop_last() =~= all.take(count));
                assert(outcomes(rest@) =~= all.skip(count + 1)) by {
                    assert forall|i: int| 0 <= i < rest@.len() implies outcomes(rest@)[i]
                        == all.skip(count + 1)[i] by {
                        assert(rest@[i] == before[i + 1]);
                        assert(outcomes(before)[i + 1] == all.skip(count)[i + 1]);
                    }
                }
                count = count + 1;
            }
            if failed.is_none() {
                match command {
                    Ok(c) => {
                        built.push(c);
                        proof {
                            lemma_views_push(done, c);
                        }
                    },
                    Err(e) => {
                        failed = Some(e);
                    },
                }
            }
        }
        assert(all.take(count) =~= all);
        match failed {
            Some(e) => Err(e),
            None => {
                let r = CommandQueue { commands: built, at: 0 };
                assert(r@ =~= views(built@));
                Ok(r)
            },
        }
    }

    /// The command that runs.
    pub fn running(&self) -> (r: String)
        requires
            self.wf(),
            self@.len() > 0,
        ensures
            r@ == self@[0],
    {
        self.commands[self.at].clone()
    }

    /// Takes in how the running command ended.
    pub fn advance(&mut self, out: ExecOutput) -> (r: Step<Action, (), RustmoteError>)
        requires
            old(self).wf(),
            old(self)@.len() > 0,
        ensures
            final(self).wf(),
            final(self)@ == old(self)@.skip(1),
            r@ == queue_step(old(self)@, out@),
    {
        let command = self.running();
        let ghost before = self@;
        let count: usize = self.commands.len();
        assert(self.at < count);
        self.at = self.at + 1;
        assert(self@ =~= before.skip(1));
        match out.ok_for(command.as_str()) {
            Err(e) => Step::Failed(e),
            Ok(_) => if self.at < self.commands.len() {
                let next = self.running();
                assert(self@[0] == before[1]);
                Step::Next(Action::Exec(next))
            } else {
                Step::Done(())
            },
        }
    }
}

} // verus!
