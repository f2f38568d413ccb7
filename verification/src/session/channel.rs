//! Gathering what a remote command writes.
use crate::session::{ExecOutput, ExecOutputView};
use vstd::prelude::*;

verus! {

/// A message on the channel of a running command.
#[derive(Debug, PartialEq, Eq)]
pub enum ChannelEvent<B = Vec<u8>> {
    /// Bytes on standard output.
    Stdout(B),
    /// Bytes on standard error.
    Stderr(B),
    /// How the command exited.
    ExitStatus(u32),
    /// The channel's end.
    End,
    /// Anything else.
    Other,
}

/// The view of a [`ChannelEvent`].
pub type ChannelEventView = ChannelEvent<Seq<u8>>;

impl View for ChannelEvent {
    type V = ChannelEvent<Seq<u8>>;

    open spec fn view(&self) -> ChannelEvent<Seq<u8>> {
        match self {
            ChannelEvent::Stdout(bytes) => ChannelEvent::Stdout(bytes@),
            ChannelEvent::Stderr(bytes) => ChannelEvent::Stderr(bytes@),
            ChannelEvent::ExitStatus(code) => ChannelEvent::ExitStatus(*code),
            ChannelEvent::End => ChannelEvent::End,
            ChannelEvent::Other => ChannelEvent::Other,
        }
    }
}

/// What the output is after one more message.
pub open spec fn with_event(out: ExecOutputView, event: ChannelEventView) -> ExecOutputView {
    match event {
        ChannelEvent::Stdout(bytes) => ExecOutput { stdout: out.stdout + bytes, ..out },
        ChannelEvent::Stderr(bytes) => ExecOutput { stderr: out.stderr + bytes, ..out },
        ChannelEvent::ExitStatus(code) => ExecOutput { exit_code: code, ..out },
        ChannelEvent::End | ChannelEvent::Other => out,
    }
}

/// What a command gave whose channel brought these messages before its end: the bytes of each
/// stream in their order, and the last exit status, zero where there was none.
pub open spec fn gathered(events: Seq<ChannelEventView>) -> ExecOutputView
    decreases events.len(),
{
    if events.len() == 0 {
        ExecOutput { stdout: seq![], stderr: seq![], exit_code: 0 }
    } else {
        with_event(gathered(events.drop_last()), events.last())
    }
}

impl ExecOutput {
    /// The output of a command that has written nothing yet.
    pub fn empty() -> (r: ExecOutput)
        ensures
            r@ == gathered(seq![]),
    {
        ExecOutput { stdout: Vec::new(), stderr: Vec::new(), exit_code: 0 }
    }

    /// Takes a message in, and tells whether more is to come.
    pub fn take_in(&mut self, event: &ChannelEvent) -> (more: bool)
        ensures
            final(self)@ == with_event(old(self)@, event@),
            more == !(event@ is End),
    {
        match event {
            ChannelEvent::Stdout(bytes) => {
                push_bytes(&mut self.stdout, bytes);
                true
            },
            ChannelEvent::Stderr(bytes) => {
                push_bytes(&mut self.stderr, bytes);
                true
            },
            ChannelEvent::ExitStatus(code) => {
                self.exit_code = *code;
                true
            },
            ChannelEvent::End => false,
            ChannelEvent::Other => true,
        }
    }
}

fn push_bytes(out: &mut Vec<u8>, bytes: &Vec<u8>)
    ensures
        final(out)@ == old(out)@ + bytes@,
{
    let mut i: usize = 0;
    assert(out@ =~= old(out)@ + bytes@.take(0));
    while i < bytes.len()
        invariant
            i <= bytes@.len(),
            out@ == old(out)@ + bytes@.take(i as int),
        decreases bytes@.len() - i,
    {
        out.push(bytes[i]);
        i += 1;
        assert(out@ =~= old(out)@ + bytes@.take(i as int));
    }
    assert(bytes@.take(i as int) =~= bytes@);
}

/// What comes later on a stream stands behind what came before: the output of two runs of messages
/// is that of the first with that of the second behind it, stream by stream. The exit status is
/// that of the second where it brings one.
pub proof fn later_messages_come_behind(first: Seq<ChannelEventView>, second: Seq<ChannelEventView>)
    ensures
        ({
            let all = gathered(first + second);
            &&& all.stdout == gathered(first).stdout + gathered(second).stdout
            &&& all.stderr == gathered(first).stderr + gathered(second).stderr
            &&& all.exit_code == if exists|i: int|
                0 <= i < second.len() && #[trigger] second[i] is ExitStatus {
                gathered(second).exit_code
            } else {
                gathered(first).exit_code
            }
        }),
    decreases second.len(),
{
    if second.len() == 0 {
        assert(first + second =~= first);
        assert(gathered(first).stdout + gathered(second).stdout =~= gathered(first).stdout);
        assert(gathered(first).stderr + gathered(second).stderr =~= gathered(first).stderr);
    } else {
        let rest = second.drop_last();
        later_messages_come_behind(first, rest);
        assert((first + second).drop_last() =~= first + rest);
        assert((first + second).last() == second.last());
        let all = gathered(first + second);
        assert(all.stdout =~= gathered(first).stdout + gathered(second).stdout);
        assert(all.stderr =~= gathered(first).stderr + gathered(second).stderr);
        assert forall|i: int| 0 <= i < rest.len() implies rest[i] == second[i] by {}
        if exists|i: int| 0 <= i < rest.len() && #[trigger] rest[i] is ExitStatus {
            let i = choose|i: int| 0 <= i < rest.len() && #[trigger] rest[i] is ExitStatus;
            assert(second[i] is ExitStatus);
        }
        if second.last() is ExitStatus {
            assert(second[second.len() - 1] is ExitStatus);
        } else if exists|i: int| 0 <= i < second.len() && #[trigger] second[i] is ExitStatus {
            let i = choose|i: int| 0 <= i < second.len() && #[trigger] second[i] is ExitStatus;
            assert(rest[i] is ExitStatus);
        }
    }
}

/// One message gives its bytes on its own stream and nothing on the other, or the exit status, and
/// nothing where it is of another kind; a command that says nothing of it exits with status zero.
pub proof fn messages_go_to_their_stream(event: ChannelEventView)
    ensures
        ({
            let out = gathered(seq![event]);
            match event {
                ChannelEvent::Stdout(bytes) => out.stdout == bytes && out.stderr.len() == 0
                    && out.exit_code == 0,
                ChannelEvent::Stderr(bytes) => out.stderr == bytes && out.stdout.len() == 0
                    && out.exit_code == 0,
                ChannelEvent::ExitStatus(code) => out.exit_code == code && out.stdout.len() == 0
                    && out.stderr.len() == 0,
                _ => out.exit_code == 0 && out.stdout.len() == 0 && out.stderr.len() == 0,
            }
        }),
{
    let events = seq![event];
    assert(events.drop_last() =~= Seq::empty());
    assert(gathered(events.drop_last()) == gathered(Seq::<ChannelEventView>::empty()));
    match event {
        ChannelEvent::Stdout(bytes) => {
            assert(gathered(events).stdout =~= bytes);
        },
        ChannelEvent::Stderr(bytes) => {
            assert(gathered(events).stderr =~= bytes);
        },
        _ => {},
    }
}

} // verus!
