//! What holds of the operations on a relay as a whole, whatever the remote and the registry reply.
use crate::error::RustmoteError;
use crate::path::path_join;
use crate::relay_lifecycle::bootstrap::{
    bootstrap_step, bootstrap_wait, BootstrapPhase, BootstrapStep, BootstrapView,
};
use crate::relay_lifecycle::check::{check_begin, check_step, check_wait, CheckStep, CheckView};
use crate::relay_lifecycle::commands::{
    cat_file_command, compose_ps_json_command, dotdot_at, is_path_char, is_remote_path,
    tcp_probe_command, test_file_exists_command,
};
use crate::relay_lifecycle::health::{health_step, HealthCheck, HealthPhase, HBBR_PORT, HBBS_PORT};
use crate::relay_lifecycle::paths::{key_path_of, state_path_of};
use crate::relay_lifecycle::status::{
    status_begin, status_step, status_wait, StatusStep, StatusView,
};
use crate::relay_lifecycle::step::{fits, Action, ActionView, Reply, ReplyView, Step, Wait};
use crate::relay_lifecycle::update::{
    restore_commands, update_begin, update_ok, update_step, update_wait, UpdateOptionsView,
    UpdatePhase, UpdateStep, UpdateView,
};
use vstd::prelude::*;

verus! {

// ---------------------------------------------------------------------------------------------
// Runs
// ---------------------------------------------------------------------------------------------

/// Where a check stands after some replies.
pub open spec fn check_after(install_path: Seq<char>, replies: Seq<ReplyView>) -> (
    CheckView,
    CheckStep,
)
    decreases replies.len(),
{
    if replies.len() == 0 {
        check_begin(install_path)
    } else {
        check_step(check_after(install_path, replies.drop_last()).0, replies.last())
    }
}

/// Whether each reply answered what the check waited for.
pub open spec fn check_answered(install_path: Seq<char>, replies: Seq<ReplyView>) -> bool
    decreases replies.len(),
{
    replies.len() == 0 || (check_answered(install_path, replies.drop_last()) && fits(
        check_wait(check_after(install_path, replies.drop_last()).0),
        replies.last(),
    ))
}

/// Where an inquiry stands after some replies.
pub open spec fn status_after(install_path: Seq<char>, replies: Seq<ReplyView>) -> (
    StatusView,
    StatusStep,
)
    decreases replies.len(),
{
    if replies.len() == 0 {
        status_begin(install_path)
    } else {
        status_step(status_after(install_path, replies.drop_last()).0, replies.last())
    }
}

/// Whether each reply answered what the inquiry waited for.
pub open spec fn status_answered(install_path: Seq<char>, replies: Seq<ReplyView>) -> bool
    decreases replies.len(),
{
    replies.len() == 0 || (status_answered(install_path, replies.drop_last()) && fits(
        status_wait(status_after(install_path, replies.drop_last()).0),
        replies.last(),
    ))
}

/// Where an update that stands somewhere stands after some more replies, the first of which leads
/// on from there.
pub open spec fn update_after(m: UpdateView, replies: Seq<ReplyView>) -> (UpdateView, UpdateStep)
    recommends
        replies.len() > 0,
    decreases replies.len(),
{
    if replies.len() <= 1 {
        update_step(m, replies[0])
    } else {
        update_step(update_after(m, replies.drop_last()).0, replies.last())
    }
}

/// Whether each reply answers what the update waits for.
pub open spec fn update_answered(m: UpdateView, replies: Seq<ReplyView>) -> bool
    decreases replies.len(),
{
    if replies.len() == 0 {
        true
    } else if replies.len() == 1 {
        fits(update_wait(m), replies[0])
    } else {
        update_answered(m, replies.drop_last()) && fits(
            update_wait(update_after(m, replies.drop_last()).0),
            replies.last(),
        )
    }
}

/// Where an installation that stands somewhere stands after some more replies.
pub open spec fn bootstrap_after(m: BootstrapView, replies: Seq<ReplyView>) -> (
    BootstrapView,
    BootstrapStep,
)
    recommends
        replies.len() > 0,
    decreases replies.len(),
{
    if replies.len() <= 1 {
        bootstrap_step(m, replies[0])
    } else {
        bootstrap_step(bootstrap_after(m, replies.drop_last()).0, replies.last())
    }
}

/// Whether each reply answers what the installation waits for.
pub open spec fn bootstrap_answered(m: BootstrapView, replies: Seq<ReplyView>) -> bool
    decreases replies.len(),
{
    if replies.len() == 0 {
        true
    } else if replies.len() == 1 {
        fits(bootstrap_wait(m), replies[0])
    } else {
        bootstrap_answered(m, replies.drop_last()) && fits(
            bootstrap_wait(bootstrap_after(m, replies.drop_last()).0),
            replies.last(),
        )
    }
}

// ---------------------------------------------------------------------------------------------
// Reading leaves the remote as it is
// ---------------------------------------------------------------------------------------------

/// The commands that read a relay and change nothing: whether its record is there, the record, the
/// list of its containers, its public key.
pub open spec fn is_read(install_path: Seq<char>, command: Seq<char>) -> bool {
    ||| test_file_exists_command(state_path_of(install_path)) == Ok::<
        Seq<char>,
        RustmoteError<Seq<char>>,
    >(command)
    ||| cat_file_command(state_path_of(install_path)) == Ok::<
        Seq<char>,
        RustmoteError<Seq<char>>,
    >(command)
    ||| compose_ps_json_command(install_path) == Ok::<Seq<char>, RustmoteError<Seq<char>>>(command)
    ||| cat_file_command(key_path_of(install_path)) == Ok::<
        Seq<char>,
        RustmoteError<Seq<char>>,
    >(command)
}

/// Whether a step runs no command but one that reads.
pub open spec fn only_reads<R>(
    install_path: Seq<char>,
    step: Step<ActionView, R, RustmoteError<Seq<char>>>,
) -> bool {
    step matches Step::Next(Action::Exec(command)) ==> is_read(install_path, command)
}

/// Looking for newer images runs no command on the relay but those that read its record.
pub proof fn check_changes_nothing(install_path: Seq<char>, replies: Seq<ReplyView>)
    requires
        check_answered(install_path, replies),
    ensures
        check_after(install_path, replies).0.load.install_path == install_path,
        only_reads(install_path, check_after(install_path, replies).1),
    decreases replies.len(),
{
    if replies.len() > 0 {
        check_changes_nothing(install_path, replies.drop_last());
    }
}

/// Asking how a relay is doing runs no command on it but those that read its record, its public key
/// and the list of its containers.
pub proof fn status_changes_nothing(install_path: Seq<char>, replies: Seq<ReplyView>)
    requires
        status_answered(install_path, replies),
    ensures
        status_after(install_path, replies).0.load.install_path == install_path,
        only_reads(install_path, status_after(install_path, replies).1),
    decreases replies.len(),
{
    if replies.len() > 0 {
        status_changes_nothing(install_path, replies.drop_last());
    }
}

// ---------------------------------------------------------------------------------------------
// Install paths
// ---------------------------------------------------------------------------------------------

/// A path that may not stand in a command does not stand in one below it either.
pub proof fn lemma_join_keeps_invalid(base: Seq<char>, name: Seq<char>)
    requires
        !is_remote_path(base),
        name.len() > 0,
        name[0] != '/',
    ensures
        !is_remote_path(path_join(base, name)),
{
    let joined = path_join(base, name);
    if base.len() == 0 {
        assert(joined[0] == name[0]);
    } else if base[0] != '/' {
        assert(joined[0] == base[0]);
    } else if exists|i: int| 0 <= i < base.len() && !is_path_char(base[i]) {
        let i = choose|i: int| 0 <= i < base.len() && !is_path_char(base[i]);
        assert(joined[i] == base[i]);
    } else {
        let i = choose|i: int| dotdot_at(base, i);
        assert(dotdot_at(base, i));
        assert(joined[i] == base[i] && joined[i + 1] == base[i + 1]);
        if i > 0 {
            assert(joined[i - 1] == base[i - 1]);
        }
        if i + 2 < base.len() {
            assert(joined[i + 2] == base[i + 2]);
        } else {
            assert(joined[i + 2] == '/');
        }
        assert(dotdot_at(joined, i));
    }
}

/// With an install path that may not stand in a command, neither a check nor an inquiry nor an
/// update asks for anything: each fails at once.
pub proof fn invalid_install_paths_reach_no_command(opts: UpdateOptionsView, health: HealthCheck)
    requires
        !is_remote_path(opts.install_path),
    ensures
        ({
            let invalid = RustmoteError::InvalidRelayPath(state_path_of(opts.install_path));
            &&& check_begin(opts.install_path).1 == CheckStep::Failed(invalid)
            &&& status_begin(opts.install_path).1 == StatusStep::Failed(invalid)
            &&& update_begin(opts, health).1 is Failed
        }),
{
    reveal_strlit(".rustmote-state.toml");
    lemma_join_keeps_invalid(opts.install_path, ".rustmote-state.toml"@);
}

// ---------------------------------------------------------------------------------------------
// Health
// ---------------------------------------------------------------------------------------------

/// A round of a health check that is not the first finds the relay healthy exactly where both
/// ports take a connection, the signalling service's first. Where one does not, the time is asked
/// for; from the deadline on the check fails, and before it another round follows the pause.
pub proof fn health_check_probes_both_ports(
    h: HealthCheck,
    first: ReplyView,
    second: ReplyView,
    time: u64,
)
    requires
        h.phase == HealthPhase::Hbbs,
        first is Output,
        second is Output,
    ensures
        ({
            let (after_first, step_first) = health_step(h, first);
            let (after_second, step_second) = health_step(after_first, second);
            let late = HealthCheck { phase: HealthPhase::Late, ..h };
            let (rest, step_late) = health_step(late, Reply::Timer(time));
            &&& first->Output_0.exit_code == 0 ==> step_first == Step::<
                ActionView,
                (),
                RustmoteError<Seq<char>>,
            >::Next(Action::Exec(tcp_probe_command(HBBR_PORT)))
            &&& first->Output_0.exit_code == 0 ==> (step_second is Done
                <==> second->Output_0.exit_code == 0)
            &&& first->Output_0.exit_code != 0 ==> after_first == late && step_first is Next
            &&& first->Output_0.exit_code == 0 && second->Output_0.exit_code != 0 ==> after_second
                == late && step_second is Next
            &&& step_late is Failed <==> time >= h.deadline
            &&& time < h.deadline ==> step_late == Step::<
                ActionView,
                (),
                RustmoteError<Seq<char>>,
            >::Next(Action::Sleep(h.interval)) && health_step(rest, Reply::Rested) == (
                h,
                Step::<ActionView, (), RustmoteError<Seq<char>>>::Next(
                    Action::Exec(tcp_probe_command(HBBS_PORT)),
                ),
            )
        }),
{
}

// ---------------------------------------------------------------------------------------------
// Updates
// ---------------------------------------------------------------------------------------------

/// An update that nobody confirmed and nobody is there to confirm asks for nothing: it is refused.
pub proof fn unconfirmed_updates_are_refused(opts: UpdateOptionsView, health: HealthCheck)
    requires
        !opts.assume_yes,
        !opts.is_tty,
    ensures
        update_begin(opts, health).1 == UpdateStep::Failed(RustmoteError::RelayUpdateNotConfirmed),
        update_wait(update_begin(opts, health).0) == Wait::Nothing,
{
}

/// Whether an update is on its way back.
pub open spec fn going_back(m: UpdateView) -> bool {
    match m.phase {
        UpdatePhase::Recover | UpdatePhase::Rollback | UpdatePhase::RollbackHealth => true,
        _ => false,
    }
}

/// When the new services fail their health check, the update goes back. From a backup it copies
/// the compose file and the record back and starts the services, in this order; without one it
/// asks for the text of the old record, to write both files anew.
pub proof fn failed_health_check_rolls_back(m: UpdateView, reply: ReplyView)
    requires
        update_ok(m),
        m.phase == UpdatePhase::Health,
        fits(update_wait(m), reply),
        health_step(m.health, reply).1 is Failed,
        m.backup_dir matches Some(dir) ==> restore_commands(m.opts.install_path, dir) is Ok,
    ensures
        ({
            let (next, step) = update_step(m, reply);
            &&& going_back(next)
            &&& step is Next
            &&& m.backup_dir matches Some(dir) ==> restore_commands(m.opts.install_path, dir) == Ok::<
                Seq<Seq<char>>,
                RustmoteError<Seq<char>>,
            >(next.queue) && step == UpdateStep::Next(Action::Exec(next.queue[0]))
            &&& m.backup_dir is None ==> step == UpdateStep::Next(
                Action::EncodeState(m.old_state->0),
            )
        }),
{
}

/// An update on its way back never reports success: it asks on or fails.
pub proof fn rolled_back_updates_fail(m: UpdateView, replies: Seq<ReplyView>)
    requires
        update_ok(m),
        going_back(m),
        replies.len() > 0,
        update_answered(m, replies),
    ensures
        ({
            let (next, step) = update_after(m, replies);
            (going_back(next) && step is Next) || (next.phase == UpdatePhase::Over
                && step is Failed)
        }),
    decreases replies.len(),
{
    if replies.len() > 1 {
        rolled_back_updates_fail(m, replies.drop_last());
    }
}

/// Where the way back ends well, with the old services healthy, the update ends with the failure
/// of the health check.
pub proof fn healthy_rollback_reports_the_failed_check(m: UpdateView, reply: ReplyView)
    requires
        m.phase == UpdatePhase::RollbackHealth,
        health_step(m.health, reply).1 is Done,
    ensures
        update_step(m, reply).1 == UpdateStep::Failed(RustmoteError::RelayHealthCheckFailed),
{
}

/// Whether an update has found nothing to do so far.
pub open spec fn still_looking(m: UpdateView) -> bool {
    m.phase == UpdatePhase::Check || m.phase == UpdatePhase::Current
}

/// Where an update that was confirmed stands after some replies.
pub open spec fn update_from_begin(
    opts: UpdateOptionsView,
    health: HealthCheck,
    replies: Seq<ReplyView>,
) -> (UpdateView, UpdateStep) {
    if replies.len() == 0 {
        update_begin(opts, health)
    } else {
        update_after(update_begin(opts, health).0, replies)
    }
}

/// Whether the paths that an update reads are those of its relay.
pub open spec fn looks_at(m: UpdateView, install_path: Seq<char>) -> bool {
    &&& m.opts.install_path == install_path
    &&& m.phase == UpdatePhase::Check ==> m.check.load.install_path == install_path
    &&& m.phase == UpdatePhase::Current ==> m.load.install_path == install_path
}

proof fn lemma_check_step_reads(m: CheckView, reply: ReplyView)
    requires
        fits(check_wait(m), reply),
    ensures
        check_step(m, reply).0.load.install_path == m.load.install_path,
        only_reads(m.load.install_path, check_step(m, reply).1),
{
}

proof fn lemma_looking_step(m: UpdateView, reply: ReplyView)
    requires
        still_looking(m),
        looks_at(m, m.opts.install_path),
        fits(update_wait(m), reply),
    ensures
        update_step(m, reply).0.opts == m.opts,
        still_looking(update_step(m, reply).0) ==> looks_at(
            update_step(m, reply).0,
            m.opts.install_path,
        ) && only_reads(m.opts.install_path, update_step(m, reply).1),
{
    if m.phase == UpdatePhase::Check {
        lemma_check_step_reads(m.check, reply);
    }
}

proof fn lemma_changing_step(m: UpdateView, reply: ReplyView)
    requires
        !still_looking(m),
        fits(update_wait(m), reply),
    ensures
        update_step(m, reply).0.opts == m.opts,
        !still_looking(update_step(m, reply).0),
        update_step(m, reply).1 matches Step::Done(report) ==> report.changed,
{
}

proof fn lemma_looking(opts: UpdateOptionsView, health: HealthCheck, replies: Seq<ReplyView>)
    requires
        update_answered(update_begin(opts, health).0, replies),
    ensures
        ({
            let (m, step) = update_from_begin(opts, health, replies);
            let before = update_from_begin(opts, health, replies.drop_last()).0;
            &&& m.opts == opts
            &&& still_looking(m) ==> looks_at(m, opts.install_path) && only_reads(
                opts.install_path,
                step,
            )
            &&& step is Done && !(step->Done_0.changed) ==> replies.len() > 0 && still_looking(
                before,
            )
            &&& replies.len() > 0 && still_looking(m) ==> still_looking(before)
        }),
    decreases replies.len(),
{
    if replies.len() > 0 {
        let before = update_from_begin(opts, health, replies.drop_last()).0;
        lemma_looking(opts, health, replies.drop_last());
        if replies.len() == 1 {
            assert(replies.drop_last().len() == 0);
        }
        assert(update_from_begin(opts, health, replies) == update_step(before, replies.last()));
        if still_looking(before) {
            lemma_looking_step(before, replies.last());
        } else {
            lemma_changing_step(before, replies.last());
        }
    }
}

/// An update that finds the relay up to date has run no command on it but those that read its
/// record.
pub proof fn unchanged_updates_change_nothing(
    opts: UpdateOptionsView,
    health: HealthCheck,
    replies: Seq<ReplyView>,
    count: int,
)
    requires
        update_answered(update_begin(opts, health).0, replies),
        update_from_begin(opts, health, replies).1 matches Step::Done(report) && !report.changed,
        0 <= count < replies.len(),
    ensures
        only_reads(opts.install_path, update_from_begin(opts, health, replies.take(count)).1),
{
    lemma_looking(opts, health, replies);
    lemma_looking_before(opts, health, replies.drop_last(), count);
    assert(replies.drop_last().take(count) =~= replies.take(count));
}

proof fn lemma_looking_before(
    opts: UpdateOptionsView,
    health: HealthCheck,
    replies: Seq<ReplyView>,
    count: int,
)
    requires
        update_answered(update_begin(opts, health).0, replies),
        still_looking(update_from_begin(opts, health, replies).0),
        0 <= count <= replies.len(),
    ensures
        only_reads(opts.install_path, update_from_begin(opts, health, replies.take(count)).1),
    decreases replies.len(),
{
    lemma_looking(opts, health, replies);
    if count < replies.len() {
        lemma_looking_before(opts, health, replies.drop_last(), count);
        assert(replies.drop_last().take(count) =~= replies.take(count));
    } else {
        assert(replies.take(count) =~= replies);
    }
}

// ---------------------------------------------------------------------------------------------
// Installations
// ---------------------------------------------------------------------------------------------

/// Whether an installation has found the install path taken.
pub open spec fn found_existing(m: BootstrapView) -> bool {
    match m.phase {
        BootstrapPhase::StateFile
        | BootstrapPhase::StateText
        | BootstrapPhase::StateDecode
        | BootstrapPhase::OldKey => true,
        _ => false,
    }
}

proof fn lemma_existing_step(m: BootstrapView, reply: ReplyView)
    requires
        found_existing(m),
        fits(bootstrap_wait(m), reply),
    ensures
        ({
            let (next, step) = bootstrap_step(m, reply);
            &&& next.opts == m.opts
            &&& only_reads(m.opts.install_path, step)
            &&& step is Next ==> found_existing(next)
            &&& step is Next || next.phase == BootstrapPhase::Over
            &&& step matches Step::Done(report) ==> report.already_installed
        }),
{
}

/// An installation onto a path that is taken changes nothing there: it runs commands that read,
/// and ends with the record that it found or with a failure.
pub proof fn existing_installs_are_left_alone(m: BootstrapView, replies: Seq<ReplyView>)
    requires
        found_existing(m),
        replies.len() > 0,
        bootstrap_answered(m, replies),
    ensures
        ({
            let (next, step) = bootstrap_after(m, replies);
            &&& next.opts == m.opts
            &&& only_reads(m.opts.install_path, step)
            &&& if step is Next {
                found_existing(next)
            } else {
                next.phase == BootstrapPhase::Over
            }
            &&& step matches Step::Done(report) ==> report.already_installed
        }),
    decreases replies.len(),
{
    if replies.len() > 1 {
        existing_installs_are_left_alone(m, replies.drop_last());
        let before = bootstrap_after(m, replies.drop_last()).0;
        assert(found_existing(before));
        lemma_existing_step(before, replies.last());
    } else {
        lemma_existing_step(m, replies[0]);
    }
}

/// A taken path that holds no record of a relay is another's: the installation fails there.
pub proof fn foreign_installs_are_refused(m: BootstrapView, reply: ReplyView)
    requires
        m.phase == BootstrapPhase::StateFile,
        reply matches Reply::Output(out) && out.exit_code != 0,
    ensures
        bootstrap_step(m, reply).1 == BootstrapStep::Failed(
            RustmoteError::RelayForeignInstall(m.opts.install_path),
        ),
{
}

/// With an install path that may not stand in a command, an installation ends before the first
/// command that would name it.
pub proof fn invalid_install_paths_stop_an_installation(m: BootstrapView, reply: ReplyView)
    requires
        m.phase == BootstrapPhase::ComposeV2,
        reply matches Reply::Output(out) && out.exit_code == 0,
        !is_remote_path(m.opts.install_path),
    ensures
        bootstrap_step(m, reply).1 == BootstrapStep::Failed(
            RustmoteError::InvalidRelayPath(m.opts.install_path),
        ),
{
}

/// Whether an installation has changed nothing on the remote yet.
pub open spec fn still_asking(m: BootstrapView) -> bool {
    match m.phase {
        BootstrapPhase::Layout
        | BootstrapPhase::Encode
        | BootstrapPhase::Start
        | BootstrapPhase::Health
        | BootstrapPhase::NewKey
        | BootstrapPhase::Over => false,
        _ => true,
    }
}

/// An installation begins to change the remote only when the digest of every service is known.
pub proof fn digests_come_before_writes(m: BootstrapView, reply: ReplyView)
    requires
        still_asking(m),
        fits(bootstrap_wait(m), reply),
        !still_asking(bootstrap_step(m, reply).0),
        bootstrap_step(m, reply).1 is Next,
    ensures
        m.phase == BootstrapPhase::Digest || m.phase == BootstrapPhase::Clock,
        bootstrap_step(m, reply).0.phase == BootstrapPhase::Layout,
        bootstrap_step(m, reply).0.pins.len() >= m.opts.services.len(),
        bootstrap_step(m, reply).0.state matches Some(state) && state.images == bootstrap_step(
            m,
            reply,
        ).0.pins,
{
}

} // verus!
