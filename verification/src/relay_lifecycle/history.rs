//! What an update or an installation has done to the files of the remote, wherever it stands.
use crate::error::ErrorView;
use crate::relay_lifecycle::bootstrap::{
    bootstrap_begin, bootstrap_step, bootstrap_wait, layout_commands, start_commands,
    BootstrapOptionsView, BootstrapPhase, BootstrapStep, BootstrapView,
};
use crate::relay_lifecycle::check::{check_step, check_wait, CheckView};
use crate::relay_lifecycle::commands::{
    compose_config_command, list_backups_command, tcp_probe_command,
};
use crate::relay_lifecycle::compose::{rendered, repinned};
use crate::relay_lifecycle::effects::{
    after_all, backup_ops, commands_of, compose_ops, each_command,
    installation_commands_do_what_is_said, installation_leaves_its_files, layout_ops,
    lemma_after_concat, renewing_leaves_both_files, restore_ops, rewrite_ops,
    rewriting_leaves_both_files, rollback_commands_do_what_is_said, rollback_restores_the_files,
    snapshot_ops, start_ops, switch_ops, update_commands_do_what_is_said, update_ops, Files,
    RemoteOp,
};
use crate::relay_lifecycle::health::{HealthCheck, HBBR_PORT, HBBS_PORT};
use crate::relay_lifecycle::laws::{
    bootstrap_after, bootstrap_answered, is_read, only_reads, still_asking, update_answered,
    update_from_begin,
};
use crate::relay_lifecycle::load::{load_begin, load_step, LoadStep, LoadView};
use crate::relay_lifecycle::paths::{
    backup_dir_of, backups_path_of, compose_path_of, env_path_of, state_path_of,
};
use crate::relay_lifecycle::step::{
    all_built, fits, lemma_all_built_len, Action, Reply, ReplyView, Step,
};
use crate::relay_lifecycle::update::{
    backup_commands, compose_commands, new_pins, restore_commands, rewrite_commands,
    snapshot_commands, switch_commands, update_begin, update_loaded, update_step, update_wait,
    Update, UpdateOptionsView, UpdatePhase, UpdateStep, UpdateView,
};
use vstd::prelude::*;
use vstd::utf8::encode_utf8;

verus! {

// ---------------------------------------------------------------------------------------------
// Commands
// ---------------------------------------------------------------------------------------------

/// Whether a queue holds the rest of some commands, the first of which has been started, and those
/// before it have been run, after others.
pub open spec fn running(
    queue: Seq<Seq<char>>,
    commands: Result<Seq<Seq<char>>, ErrorView>,
    before: Seq<Seq<char>>,
    done: Seq<Seq<char>>,
) -> bool {
    commands matches Ok(all) && {
        &&& 0 < queue.len() <= all.len()
        &&& queue == all.skip(all.len() - queue.len())
        &&& done == before + all.take(all.len() - queue.len() + 1)
    }
}

/// Whether some commands have been started, after others.
pub open spec fn all_run(
    commands: Result<Seq<Seq<char>>, ErrorView>,
    before: Seq<Seq<char>>,
    done: Seq<Seq<char>>,
) -> bool {
    commands matches Ok(all) && done == before + all
}

proof fn lemma_start(commands: Result<Seq<Seq<char>>, ErrorView>, before: Seq<Seq<char>>)
    requires
        commands matches Ok(all) && all.len() > 0,
    ensures
        commands matches Ok(all) && running(all, commands, before, before + seq![all[0]]),
{
    let all = commands->Ok_0;
    assert(all.skip(0) =~= all);
    assert(all.take(1) =~= seq![all[0]]);
}

proof fn lemma_go_on(
    queue: Seq<Seq<char>>,
    commands: Result<Seq<Seq<char>>, ErrorView>,
    before: Seq<Seq<char>>,
    done: Seq<Seq<char>>,
)
    requires
        running(queue, commands, before, done),
    ensures
        queue.len() > 1 ==> running(queue.skip(1), commands, before, done + seq![queue[1]]),
        queue.len() == 1 ==> all_run(commands, before, done),
{
    let all = commands->Ok_0;
    let at = all.len() - queue.len();
    if queue.len() > 1 {
        assert(queue.skip(1) =~= all.skip(at + 1));
        assert(queue[1] == all[at + 1]);
        assert(all.take(at + 2) =~= all.take(at + 1) + seq![all[at + 1]]);
        assert(before + all.take(at + 2) =~= before + all.take(at + 1) + seq![queue[1]]);
    } else {
        assert(all.take(all.len() as int) =~= all);
    }
}

proof fn lemma_built_together(
    first: Seq<Result<Seq<char>, ErrorView>>,
    second: Seq<Result<Seq<char>, ErrorView>>,
)
    requires
        all_built(first) is Ok,
        all_built(second) is Ok,
    ensures
        all_built(first + second) == Ok::<Seq<Seq<char>>, ErrorView>(
            all_built(first)->Ok_0 + all_built(second)->Ok_0,
        ),
    decreases second.len(),
{
    if second.len() == 0 {
        assert(first + second =~= first);
        assert(all_built(first)->Ok_0 + all_built(second)->Ok_0 =~= all_built(first)->Ok_0);
    } else {
        lemma_built_together(first, second.drop_last());
        assert((first + second).drop_last() =~= first + second.drop_last());
        assert((first + second).last() == second.last());
        let a = all_built(first)->Ok_0;
        let b = all_built(second.drop_last())->Ok_0;
        let c = second.last()->Ok_0;
        assert((a + b).push(c) =~= a + b.push(c));
    }
}

proof fn lemma_commands_together(first: Seq<RemoteOp>, second: Seq<RemoteOp>)
    requires
        commands_of(first) is Ok,
        commands_of(second) is Ok,
    ensures
        commands_of(first + second) == Ok::<Seq<Seq<char>>, ErrorView>(
            commands_of(first)->Ok_0 + commands_of(second)->Ok_0,
        ),
{
    lemma_built_together(each_command(first), each_command(second));
    assert(each_command(first + second) =~= each_command(first) + each_command(second));
}

// ---------------------------------------------------------------------------------------------
// Updates
// ---------------------------------------------------------------------------------------------

/// Whether an update changes the remote in a phase.
pub open spec fn changing(phase: UpdatePhase) -> bool {
    match phase {
        UpdatePhase::Backup
        | UpdatePhase::Snapshot
        | UpdatePhase::Write
        | UpdatePhase::Start
        | UpdatePhase::Rollback
        | UpdatePhase::Remove => true,
        _ => false,
    }
}

/// The command that an update asks for, where it is in a phase in which it changes the remote.
pub open spec fn change_in(m: UpdateView, step: UpdateStep) -> Seq<Seq<char>> {
    if changing(m.phase) {
        match step {
            Step::Next(Action::Exec(command)) => seq![command],
            _ => seq![],
        }
    } else {
        seq![]
    }
}

/// The commands by which an update has changed the remote after some replies.
pub open spec fn changes(
    opts: UpdateOptionsView,
    health: HealthCheck,
    replies: Seq<ReplyView>,
) -> Seq<Seq<char>>
    decreases replies.len(),
{
    let (m, step) = update_from_begin(opts, health, replies);
    if replies.len() == 0 {
        change_in(m, step)
    } else {
        changes(opts, health, replies.drop_last()) + change_in(m, step)
    }
}

/// What an update has been told: the effective compose file, if there is one, the text of the new
/// record, and that of the old one.
pub struct Notes {
    pub config: Option<Seq<u8>>,
    pub record: Seq<char>,
    pub old_record: Seq<char>,
}

/// What an update has been told after one more reply.
pub open spec fn noted(n: Notes, m: UpdateView, reply: ReplyView) -> Notes {
    match reply {
        Reply::Output(out) => if m.phase == UpdatePhase::Config && out.exit_code == 0 {
            Notes { config: Some(out.stdout), ..n }
        } else {
            n
        },
        Reply::Encoded(text) => if m.phase == UpdatePhase::Recover {
            Notes { old_record: text, ..n }
        } else {
            Notes { record: text, ..n }
        },
        _ => n,
    }
}

/// What an update has been told by some replies.
pub open spec fn notes(
    opts: UpdateOptionsView,
    health: HealthCheck,
    replies: Seq<ReplyView>,
) -> Notes
    decreases replies.len(),
{
    if replies.len() == 0 {
        Notes { config: None, record: seq![], old_record: seq![] }
    } else {
        noted(
            notes(opts, health, replies.drop_last()),
            update_from_begin(opts, health, replies.drop_last()).0,
            replies.last(),
        )
    }
}

/// The compose file that an update writes.
pub open spec fn new_compose(m: UpdateView) -> Result<Seq<char>, ErrorView> {
    repinned(m.opts.compose_template, new_pins(m.images, m.now->0))
}

/// The compose file of the old services, made again.
pub open spec fn old_compose(m: UpdateView) -> Result<Seq<char>, ErrorView> {
    repinned(m.opts.compose_template, m.old_state->0.images)
}

/// What makes the backup of an update, unless it is skipped.
pub open spec fn saving_ops(m: UpdateView, n: Notes) -> Seq<RemoteOp> {
    match m.backup_dir {
        None => seq![],
        Some(dir) => backup_ops(m.opts.install_path, dir) + (match n.config {
            Some(config) => snapshot_ops(dir, config),
            None => seq![],
        }),
    }
}

/// What brings the new services up.
pub open spec fn renewing_ops(m: UpdateView, n: Notes) -> Seq<RemoteOp> {
    compose_ops(m.opts.install_path, new_compose(m)->Ok_0) + switch_ops(
        m.opts.install_path,
        n.record,
    )
}

/// What brings the old services back.
pub open spec fn returning_ops(m: UpdateView, n: Notes) -> Seq<RemoteOp> {
    match m.backup_dir {
        Some(dir) => restore_ops(m.opts.install_path, dir),
        None => rewrite_ops(m.opts.install_path, old_compose(m)->Ok_0, n.old_record),
    }
}

/// The commands that make the backup of an update.
pub open spec fn saving(m: UpdateView, n: Notes) -> Seq<Seq<char>> {
    commands_of(saving_ops(m, n))->Ok_0
}

/// The commands that write the new compose file, after the backup.
pub open spec fn composing(m: UpdateView, n: Notes) -> Seq<Seq<char>> {
    saving(m, n) + compose_commands(m.opts.install_path, new_compose(m)->Ok_0)->Ok_0
}

/// The commands that bring the new services up, after the backup.
pub open spec fn renewing(m: UpdateView, n: Notes) -> Seq<Seq<char>> {
    composing(m, n) + switch_commands(m.opts.install_path, n.record)->Ok_0
}

/// The commands that bring the old services back.
pub open spec fn returning(m: UpdateView, n: Notes) -> Result<Seq<Seq<char>>, ErrorView> {
    match m.backup_dir {
        Some(dir) => restore_commands(m.opts.install_path, dir),
        None => rewrite_commands(m.opts.install_path, old_compose(m)->Ok_0, n.old_record),
    }
}

/// Whether the new compose file could be made and all commands up to it could be built.
pub open spec fn composed(m: UpdateView, n: Notes) -> bool {
    &&& commands_of(saving_ops(m, n)) is Ok
    &&& new_compose(m) is Ok
    &&& compose_commands(m.opts.install_path, new_compose(m)->Ok_0) is Ok
}

/// Whether all commands up to the new services could be built.
pub open spec fn renewed(m: UpdateView, n: Notes) -> bool {
    composed(m, n) && switch_commands(m.opts.install_path, n.record) is Ok
}

/// What an update has done to the remote, by where it stands.
pub open spec fn stands(m: UpdateView, n: Notes, done: Seq<Seq<char>>) -> bool {
    let install_path = m.opts.install_path;
    match m.phase {
        UpdatePhase::Over | UpdatePhase::Remove => true,
        UpdatePhase::Check | UpdatePhase::Current | UpdatePhase::Clock => {
            &&& done == Seq::<Seq<char>>::empty()
            &&& m.backup_dir is None
            &&& n.config is None
        },
        _ => {
            &&& m.now is Some
            &&& m.backup_dir == if m.opts.skip_backup {
                None
            } else {
                Some(backup_dir_of(install_path, m.now->0.spec_stamp()))
            }
            &&& match m.phase {
                UpdatePhase::Backup => n.config is None && m.backup_dir is Some && running(
                    m.queue,
                    backup_commands(install_path, m.backup_dir->0),
                    seq![],
                    done,
                ),
                UpdatePhase::Config => n.config is None && m.backup_dir is Some && all_run(
                    backup_commands(install_path, m.backup_dir->0),
                    seq![],
                    done,
                ),
                UpdatePhase::Snapshot => {
                    &&& n.config is Some
                    &&& m.backup_dir is Some
                    &&& backup_commands(install_path, m.backup_dir->0) is Ok
                    &&& running(
                        m.queue,
                        snapshot_commands(m.backup_dir->0, n.config->0),
                        backup_commands(install_path, m.backup_dir->0)->Ok_0,
                        done,
                    )
                },
                UpdatePhase::Load => commands_of(saving_ops(m, n)) == Ok::<
                    Seq<Seq<char>>,
                    ErrorView,
                >(done),
                UpdatePhase::Write => {
                    &&& commands_of(saving_ops(m, n)) is Ok
                    &&& new_compose(m) is Ok
                    &&& running(
                        m.queue,
                        compose_commands(install_path, new_compose(m)->Ok_0),
                        saving(m, n),
                        done,
                    )
                },
                UpdatePhase::Encode => composed(m, n) && done == composing(m, n),
                UpdatePhase::Start => composed(m, n) && running(
                    m.queue,
                    switch_commands(install_path, n.record),
                    composing(m, n),
                    done,
                ),
                UpdatePhase::Recover => m.backup_dir is None && renewed(m, n) && done == renewing(
                    m,
                    n,
                ),
                UpdatePhase::Rollback => {
                    &&& renewed(m, n)
                    &&& m.backup_dir is None ==> old_compose(m) is Ok
                    &&& running(m.queue, returning(m, n), renewing(m, n), done)
                },
                UpdatePhase::RollbackHealth => {
                    &&& renewed(m, n)
                    &&& m.backup_dir is None ==> old_compose(m) is Ok
                    &&& all_run(returning(m, n), renewing(m, n), done)
                },
                _ => renewed(m, n) && done == renewing(m, n),
            }
        },
    }
}

proof fn lemma_lengths(
    install_path: Seq<char>,
    dir: Seq<char>,
    config: Seq<u8>,
    compose: Seq<char>,
    record: Seq<char>,
)
    ensures
        backup_commands(install_path, dir) matches Ok(all) ==> all.len() == 3,
        snapshot_commands(dir, config) matches Ok(all) ==> all.len() == 1,
        compose_commands(install_path, compose) matches Ok(all) ==> all.len() == 1,
        switch_commands(install_path, record) matches Ok(all) ==> all.len() == 3,
        restore_commands(install_path, dir) matches Ok(all) ==> all.len() == 3,
        rewrite_commands(install_path, compose, record) matches Ok(all) ==> all.len() == 3,
{
    update_commands_do_what_is_said(install_path, dir, config, compose, record);
    rollback_commands_do_what_is_said(install_path, dir, compose, record);
    lemma_all_built_len(each_command(backup_ops(install_path, dir)));
    lemma_all_built_len(each_command(snapshot_ops(dir, config)));
    lemma_all_built_len(each_command(compose_ops(install_path, compose)));
    lemma_all_built_len(each_command(switch_ops(install_path, record)));
    lemma_all_built_len(each_command(restore_ops(install_path, dir)));
    lemma_all_built_len(each_command(rewrite_ops(install_path, compose, record)));
}

proof fn lemma_loaded_stands(
    m: UpdateView,
    n: Notes,
    done: Seq<Seq<char>>,
    load: (LoadView, LoadStep),
)
    requires
        m.now is Some,
        m.backup_dir == if m.opts.skip_backup {
            None
        } else {
            Some(backup_dir_of(m.opts.install_path, m.now->0.spec_stamp()))
        },
        commands_of(saving_ops(m, n)) == Ok::<Seq<Seq<char>>, ErrorView>(done),
    ensures
        ({
            let (next, step) = update_loaded(m, load);
            stands(next, n, done + change_in(next, step))
        }),
{
    let (next, step) = update_loaded(m, load);
    assert(done + Seq::<Seq<char>>::empty() =~= done);
    if load.1 is Done && new_compose(m) is Ok {
        let compose = new_compose(m)->Ok_0;
        let commands = compose_commands(m.opts.install_path, compose);
        assert(new_compose(next) == new_compose(m));
        assert(saving_ops(next, n) == saving_ops(m, n));
        lemma_lengths(m.opts.install_path, seq![], seq![], compose, seq![]);
        if commands is Ok {
            lemma_start(commands, done);
        }
    }
}

proof fn lemma_reading_stands(m: UpdateView, n: Notes, done: Seq<Seq<char>>, reply: ReplyView)
    requires
        stands(m, n, done),
        fits(update_wait(m), reply),
        m.phase == UpdatePhase::Check || m.phase == UpdatePhase::Current || m.phase
            == UpdatePhase::Clock || m.phase == UpdatePhase::Load,
    ensures
        ({
            let (next, step) = update_step(m, reply);
            stands(next, noted(n, m, reply), done + change_in(next, step))
        }),
{
    let (next, step) = update_step(m, reply);
    assert(done + Seq::<Seq<char>>::empty() =~= done);
    if m.phase == UpdatePhase::Load {
        lemma_loaded_stands(m, n, done, load_step(m.load, reply));
    } else if m.phase == UpdatePhase::Clock {
        if let Reply::Clock(at) = reply {
            let now = Update { now: Some(at), ..m };
            if m.opts.skip_backup {
                assert(each_command(saving_ops(now, n)) =~= seq![]);
                lemma_loaded_stands(now, n, done, load_begin(m.opts.install_path));
            } else {
                let dir = backup_dir_of(m.opts.install_path, at.spec_stamp());
                let commands = backup_commands(m.opts.install_path, dir);
                lemma_lengths(m.opts.install_path, dir, seq![], seq![], seq![]);
                if commands is Ok {
                    lemma_start(commands, seq![]);
                }
            }
        }
    }
}

proof fn lemma_saving_stands(m: UpdateView, n: Notes, done: Seq<Seq<char>>, reply: ReplyView)
    requires
        stands(m, n, done),
        fits(update_wait(m), reply),
        m.phase == UpdatePhase::Backup || m.phase == UpdatePhase::Config || m.phase
            == UpdatePhase::Snapshot,
    ensures
        ({
            let (next, step) = update_step(m, reply);
            stands(next, noted(n, m, reply), done + change_in(next, step))
        }),
{
    let (next, step) = update_step(m, reply);
    let install_path = m.opts.install_path;
    let dir = m.backup_dir->0;
    let backup = backup_commands(install_path, dir);
    assert(done + Seq::<Seq<char>>::empty() =~= done);
    if let Reply::Output(out) = reply {
        if m.phase == UpdatePhase::Backup {
            lemma_go_on(m.queue, backup, seq![], done);
        } else if m.phase == UpdatePhase::Config {
            let before = backup->Ok_0;
            assert(done =~= before);
            update_commands_do_what_is_said(install_path, dir, out.stdout, seq![], seq![]);
            if out.exit_code == 0 {
                let commands = snapshot_commands(dir, out.stdout);
                lemma_lengths(install_path, dir, out.stdout, seq![], seq![]);
                if commands is Ok {
                    lemma_start(commands, before);
                }
            } else {
                assert(saving_ops(m, n) =~= backup_ops(install_path, dir));
                lemma_loaded_stands(m, n, done, load_begin(install_path));
            }
        } else {
            let config = n.config->0;
            let commands = snapshot_commands(dir, config);
            let before = backup->Ok_0;
            lemma_go_on(m.queue, commands, before, done);
            update_commands_do_what_is_said(install_path, dir, config, seq![], seq![]);
            lemma_lengths(install_path, dir, config, seq![], seq![]);
            lemma_commands_together(backup_ops(install_path, dir), snapshot_ops(dir, config));
            if out.exit_code == 0 {
                let rest = Update { queue: m.queue.skip(1), ..m };
                lemma_loaded_stands(rest, n, done, load_begin(install_path));
            }
        }
    }
}

proof fn lemma_renewing_stands(m: UpdateView, n: Notes, done: Seq<Seq<char>>, reply: ReplyView)
    requires
        stands(m, n, done),
        fits(update_wait(m), reply),
        m.phase == UpdatePhase::Write || m.phase == UpdatePhase::Encode || m.phase
            == UpdatePhase::Start,
    ensures
        ({
            let (next, step) = update_step(m, reply);
            stands(next, noted(n, m, reply), done + change_in(next, step))
        }),
{
    let (next, step) = update_step(m, reply);
    let install_path = m.opts.install_path;
    let told = noted(n, m, reply);
    assert(done + Seq::<Seq<char>>::empty() =~= done);
    assert(new_compose(next) == new_compose(m));
    assert(saving_ops(next, told) == saving_ops(m, n));
    let compose = new_compose(m)->Ok_0;
    if m.phase == UpdatePhase::Write {
        lemma_go_on(m.queue, compose_commands(install_path, compose), saving(m, n), done);
    } else if m.phase == UpdatePhase::Encode {
        let commands = switch_commands(install_path, told.record);
        lemma_lengths(install_path, seq![], seq![], compose, told.record);
        if commands is Ok {
            lemma_start(commands, done);
        }
    } else {
        lemma_go_on(m.queue, switch_commands(install_path, n.record), composing(m, n), done);
    }
}

proof fn lemma_returning_stands(m: UpdateView, n: Notes, done: Seq<Seq<char>>, reply: ReplyView)
    requires
        stands(m, n, done),
        fits(update_wait(m), reply),
        m.phase == UpdatePhase::Health || m.phase == UpdatePhase::Recover || m.phase
            == UpdatePhase::Rollback || m.phase == UpdatePhase::RollbackHealth || m.phase
            == UpdatePhase::List,
    ensures
        ({
            let (next, step) = update_step(m, reply);
            stands(next, noted(n, m, reply), done + change_in(next, step))
        }),
{
    let (next, step) = update_step(m, reply);
    let install_path = m.opts.install_path;
    let told = noted(n, m, reply);
    assert(done + Seq::<Seq<char>>::empty() =~= done);
    assert(new_compose(next) == new_compose(m));
    assert(old_compose(next) == old_compose(m));
    assert(saving_ops(next, told) == saving_ops(m, n));
    let back = returning(m, told);
    lemma_lengths(install_path, m.backup_dir->0, seq![], old_compose(m)->Ok_0, told.old_record);
    if m.phase == UpdatePhase::Health || m.phase == UpdatePhase::Recover {
        if back is Ok {
            lemma_start(back, renewing(m, n));
        }
    } else if m.phase == UpdatePhase::Rollback {
        lemma_go_on(m.queue, returning(m, n), renewing(m, n), done);
    }
}

proof fn lemma_stands(opts: UpdateOptionsView, health: HealthCheck, replies: Seq<ReplyView>)
    requires
        update_answered(update_begin(opts, health).0, replies),
    ensures
        stands(
            update_from_begin(opts, health, replies).0,
            notes(opts, health, replies),
            changes(opts, health, replies),
        ),
    decreases replies.len(),
{
    if replies.len() > 0 {
        let before = replies.drop_last();
        let m = update_from_begin(opts, health, before).0;
        let n = notes(opts, health, before);
        let done = changes(opts, health, before);
        let reply = replies.last();
        lemma_stands(opts, health, before);
        if replies.len() == 1 {
            assert(before.len() == 0);
        }
        assert(update_from_begin(opts, health, replies) == update_step(m, reply));
        assert(fits(update_wait(m), reply));
        match m.phase {
            UpdatePhase::Check
            | UpdatePhase::Current
            | UpdatePhase::Clock
            | UpdatePhase::Load => lemma_reading_stands(m, n, done, reply),
            UpdatePhase::Backup | UpdatePhase::Config | UpdatePhase::Snapshot => lemma_saving_stands(
                m,
                n,
                done,
                reply,
            ),
            UpdatePhase::Write
            | UpdatePhase::Encode
            | UpdatePhase::Start => lemma_renewing_stands(m, n, done, reply),
            UpdatePhase::Remove | UpdatePhase::Over => {},
            _ => lemma_returning_stands(m, n, done, reply),
        }
    }
}

proof fn lemma_renewal_commands(m: UpdateView, n: Notes)
    requires
        renewed(m, n),
    ensures
        commands_of(saving_ops(m, n) + renewing_ops(m, n)) == Ok::<Seq<Seq<char>>, ErrorView>(
            renewing(m, n),
        ),
{
    let install_path = m.opts.install_path;
    let compose = new_compose(m)->Ok_0;
    let a = saving_ops(m, n);
    let b = compose_ops(install_path, compose);
    let c = switch_ops(install_path, n.record);
    update_commands_do_what_is_said(install_path, seq![], seq![], compose, n.record);
    lemma_commands_together(a, b);
    lemma_commands_together(a + b, c);
    assert(a + renewing_ops(m, n) =~= a + b + c);
}

/// Once an update has brought the new services up and waits for them to answer, and also when they
/// have, the commands that it ran have left the new compose file and the new record on the remote.
pub proof fn updates_leave_the_new_files(
    files: Files,
    opts: UpdateOptionsView,
    health: HealthCheck,
    replies: Seq<ReplyView>,
)
    requires
        update_answered(update_begin(opts, health).0, replies),
        ({
            let phase = update_from_begin(opts, health, replies).0.phase;
            phase == UpdatePhase::Health || phase == UpdatePhase::List
        }),
    ensures
        ({
            let m = update_from_begin(opts, health, replies).0;
            let n = notes(opts, health, replies);
            let ops = saving_ops(m, n) + renewing_ops(m, n);
            let now = after_all(files, ops);
            &&& commands_of(ops) == Ok::<Seq<Seq<char>>, ErrorView>(changes(opts, health, replies))
            &&& new_compose(m) is Ok
            &&& now[compose_path_of(m.opts.install_path)] == encode_utf8(new_compose(m)->Ok_0)
            &&& now[state_path_of(m.opts.install_path)] == encode_utf8(n.record)
        }),
{
    let m = update_from_begin(opts, health, replies).0;
    let n = notes(opts, health, replies);
    lemma_stands(opts, health, replies);
    lemma_renewal_commands(m, n);
    lemma_after_concat(files, saving_ops(m, n), renewing_ops(m, n));
    renewing_leaves_both_files(
        after_all(files, saving_ops(m, n)),
        m.opts.install_path,
        new_compose(m)->Ok_0,
        n.record,
    );
}

/// The way back undoes the update: once an update whose new services failed has brought the old
/// ones back and waits for them to answer, the commands that it ran have left the compose file and
/// the record as they were before the first of them. Without a backup both are written anew, from
/// the old record.
pub proof fn failed_updates_leave_the_old_files(
    files: Files,
    opts: UpdateOptionsView,
    health: HealthCheck,
    replies: Seq<ReplyView>,
)
    requires
        update_answered(update_begin(opts, health).0, replies),
        update_from_begin(opts, health, replies).0.phase == UpdatePhase::RollbackHealth,
    ensures
        ({
            let m = update_from_begin(opts, health, replies).0;
            let n = notes(opts, health, replies);
            let compose_path = compose_path_of(m.opts.install_path);
            let state_path = state_path_of(m.opts.install_path);
            let ops = saving_ops(m, n) + renewing_ops(m, n) + returning_ops(m, n);
            let now = after_all(files, ops);
            &&& commands_of(ops) == Ok::<Seq<Seq<char>>, ErrorView>(changes(opts, health, replies))
            &&& if m.opts.skip_backup {
                &&& old_compose(m) is Ok
                &&& now[compose_path] == encode_utf8(old_compose(m)->Ok_0)
                &&& now[state_path] == encode_utf8(n.old_record)
            } else {
                &&& now[compose_path] == files[compose_path]
                &&& now[state_path] == files[state_path]
            }
        }),
{
    let m = update_from_begin(opts, health, replies).0;
    let n = notes(opts, health, replies);
    let install_path = m.opts.install_path;
    let compose = new_compose(m)->Ok_0;
    let a = saving_ops(m, n) + renewing_ops(m, n);
    let b = returning_ops(m, n);
    lemma_stands(opts, health, replies);
    lemma_renewal_commands(m, n);
    rollback_commands_do_what_is_said(
        install_path,
        m.backup_dir->0,
        old_compose(m)->Ok_0,
        n.old_record,
    );
    lemma_commands_together(a, b);
    lemma_after_concat(files, a, b);
    if m.opts.skip_backup {
        rewriting_leaves_both_files(
            after_all(files, a),
            install_path,
            old_compose(m)->Ok_0,
            n.old_record,
        );
    } else {
        let stamp = m.now->0.spec_stamp();
        rollback_restores_the_files(files, install_path, stamp, n.config, compose, n.record);
        assert(a =~= update_ops(install_path, m.backup_dir->0, n.config, compose, n.record));
    }
}

/// The commands of an update that read: its record's, the effective compose file, the ports of the
/// services, the list of the backups.
pub open spec fn is_inquiry(install_path: Seq<char>, command: Seq<char>) -> bool {
    ||| is_read(install_path, command)
    ||| compose_config_command(install_path) == Ok::<Seq<char>, ErrorView>(command)
    ||| command == tcp_probe_command(HBBS_PORT)
    ||| command == tcp_probe_command(HBBR_PORT)
    ||| list_backups_command(backups_path_of(install_path)) == Ok::<Seq<char>, ErrorView>(command)
}

spec fn reads_its_own(m: UpdateView) -> bool {
    &&& m.phase == UpdatePhase::Check ==> m.check.load.install_path == m.opts.install_path
    &&& m.phase == UpdatePhase::Current || m.phase == UpdatePhase::Load ==> m.load.install_path
        == m.opts.install_path
}

spec fn inquires(m: UpdateView, step: UpdateStep) -> bool {
    step matches Step::Next(Action::Exec(command)) ==> changing(m.phase) || is_inquiry(
        m.opts.install_path,
        command,
    )
}

proof fn lemma_check_step_reads(m: CheckView, reply: ReplyView)
    requires
        fits(check_wait(m), reply),
    ensures
        check_step(m, reply).0.load.install_path == m.load.install_path,
        only_reads(m.load.install_path, check_step(m, reply).1),
{
}

proof fn lemma_inquires_step(m: UpdateView, reply: ReplyView)
    requires
        reads_its_own(m),
        fits(update_wait(m), reply),
    ensures
        update_step(m, reply).0.opts == m.opts,
        reads_its_own(update_step(m, reply).0),
        inquires(update_step(m, reply).0, update_step(m, reply).1),
{
    if m.phase == UpdatePhase::Check {
        lemma_check_step_reads(m.check, reply);
    }
}

proof fn lemma_inquires(opts: UpdateOptionsView, health: HealthCheck, replies: Seq<ReplyView>)
    requires
        update_answered(update_begin(opts, health).0, replies),
    ensures
        update_from_begin(opts, health, replies).0.opts == opts,
        reads_its_own(update_from_begin(opts, health, replies).0),
        inquires(
            update_from_begin(opts, health, replies).0,
            update_from_begin(opts, health, replies).1,
        ),
    decreases replies.len(),
{
    if replies.len() > 0 {
        let before = replies.drop_last();
        lemma_inquires(opts, health, before);
        if replies.len() == 1 {
            assert(before.len() == 0);
        }
        lemma_inquires_step(update_from_begin(opts, health, before).0, replies.last());
    }
}

/// Whatever command an update runs in a phase in which it does not change the remote is one that
/// reads.
pub proof fn updates_change_nothing_in_between(
    opts: UpdateOptionsView,
    health: HealthCheck,
    replies: Seq<ReplyView>,
)
    requires
        update_answered(update_begin(opts, health).0, replies),
    ensures
        ({
            let (m, step) = update_from_begin(opts, health, replies);
            step matches Step::Next(Action::Exec(command)) ==> changing(m.phase) || is_inquiry(
                opts.install_path,
                command,
            )
        }),
{
    lemma_inquires(opts, health, replies);
}

// ---------------------------------------------------------------------------------------------
// Installations
// ---------------------------------------------------------------------------------------------

/// Where an installation stands after some replies.
pub open spec fn bootstrap_from_begin(
    opts: BootstrapOptionsView,
    health: HealthCheck,
    replies: Seq<ReplyView>,
) -> (BootstrapView, BootstrapStep) {
    if replies.len() == 0 {
        bootstrap_begin(opts, health)
    } else {
        bootstrap_after(bootstrap_begin(opts, health).0, replies)
    }
}

/// Whether an installation changes the remote in a phase.
pub open spec fn laying(phase: BootstrapPhase) -> bool {
    phase == BootstrapPhase::Layout || phase == BootstrapPhase::Start
}

/// The command that an installation asks for, where it is in a phase in which it changes the
/// remote.
pub open spec fn addition_in(m: BootstrapView, step: BootstrapStep) -> Seq<Seq<char>> {
    if laying(m.phase) {
        match step {
            Step::Next(Action::Exec(command)) => seq![command],
            _ => seq![],
        }
    } else {
        seq![]
    }
}

/// The commands by which an installation has changed the remote after some replies.
pub open spec fn additions(
    opts: BootstrapOptionsView,
    health: HealthCheck,
    replies: Seq<ReplyView>,
) -> Seq<Seq<char>>
    decreases replies.len(),
{
    let (m, step) = bootstrap_from_begin(opts, health, replies);
    if replies.len() == 0 {
        addition_in(m, step)
    } else {
        additions(opts, health, replies.drop_last()) + addition_in(m, step)
    }
}

/// The text of the record that an installation has been told by some replies.
pub open spec fn told_record(replies: Seq<ReplyView>) -> Seq<char>
    decreases replies.len(),
{
    if replies.len() == 0 {
        seq![]
    } else {
        match replies.last() {
            Reply::Encoded(text) => text,
            _ => told_record(replies.drop_last()),
        }
    }
}

/// The compose file that an installation writes.
pub open spec fn pinned_compose(m: BootstrapView) -> Result<Seq<char>, ErrorView> {
    rendered(m.opts.compose_template, m.pins)
}

/// What an installation has done to the remote, by where it stands.
pub open spec fn installed(m: BootstrapView, record: Seq<char>, done: Seq<Seq<char>>) -> bool {
    let layout = layout_commands(m.opts, pinned_compose(m)->Ok_0);
    let start = start_commands(m.opts.install_path, record);
    match m.phase {
        BootstrapPhase::Over => true,
        BootstrapPhase::Layout => pinned_compose(m) is Ok && running(m.queue, layout, seq![], done),
        BootstrapPhase::Encode => pinned_compose(m) is Ok && all_run(layout, seq![], done),
        BootstrapPhase::Start => {
            &&& pinned_compose(m) is Ok
            &&& layout is Ok
            &&& running(m.queue, start, layout->Ok_0, done)
        },
        BootstrapPhase::Health | BootstrapPhase::NewKey => {
            &&& pinned_compose(m) is Ok
            &&& layout is Ok
            &&& all_run(start, layout->Ok_0, done)
        },
        _ => done == Seq::<Seq<char>>::empty(),
    }
}

proof fn lemma_installation_lengths(
    opts: BootstrapOptionsView,
    compose: Seq<char>,
    record: Seq<char>,
)
    ensures
        layout_commands(opts, compose) matches Ok(all) ==> all.len() == 5,
        start_commands(opts.install_path, record) matches Ok(all) ==> all.len() == 2,
{
    installation_commands_do_what_is_said(opts, compose, record);
    lemma_all_built_len(each_command(layout_ops(opts, compose)));
    lemma_all_built_len(each_command(start_ops(opts.install_path, record)));
}

proof fn lemma_installed_step(
    m: BootstrapView,
    record: Seq<char>,
    done: Seq<Seq<char>>,
    reply: ReplyView,
)
    requires
        installed(m, record, done),
        fits(bootstrap_wait(m), reply),
    ensures
        ({
            let (next, step) = bootstrap_step(m, reply);
            let told = match reply {
                Reply::Encoded(text) => text,
                _ => record,
            };
            &&& next.opts == m.opts
            &&& installed(next, told, done + addition_in(next, step))
        }),
{
    let (next, step) = bootstrap_step(m, reply);
    let told = match reply {
        Reply::Encoded(text) => text,
        _ => record,
    };
    let compose = pinned_compose(next)->Ok_0;
    let layout = layout_commands(m.opts, compose);
    let start = start_commands(m.opts.install_path, told);
    assert(done + Seq::<Seq<char>>::empty() =~= done);
    lemma_installation_lengths(m.opts, compose, told);
    match m.phase {
        BootstrapPhase::Clock | BootstrapPhase::Digest => {
            if next.phase == BootstrapPhase::Layout {
                lemma_start(layout, seq![]);
            }
        },
        BootstrapPhase::Layout => lemma_go_on(m.queue, layout, seq![], done),
        BootstrapPhase::Encode => {
            if start is Ok {
                lemma_start(start, layout->Ok_0);
                assert(done =~= layout->Ok_0);
            }
        },
        BootstrapPhase::Start => lemma_go_on(m.queue, start, layout->Ok_0, done),
        _ => {},
    }
}

proof fn lemma_installed(
    opts: BootstrapOptionsView,
    health: HealthCheck,
    replies: Seq<ReplyView>,
)
    requires
        bootstrap_answered(bootstrap_begin(opts, health).0, replies),
    ensures
        bootstrap_from_begin(opts, health, replies).0.opts == opts,
        installed(
            bootstrap_from_begin(opts, health, replies).0,
            told_record(replies),
            additions(opts, health, replies),
        ),
    decreases replies.len(),
{
    if replies.len() > 0 {
        let before = replies.drop_last();
        let m = bootstrap_from_begin(opts, health, before).0;
        lemma_installed(opts, health, before);
        if replies.len() == 1 {
            assert(before.len() == 0);
        }
        assert(bootstrap_from_begin(opts, health, replies) == bootstrap_step(m, replies.last()));
        lemma_installed_step(
            m,
            told_record(before),
            additions(opts, health, before),
            replies.last(),
        );
    }
}

/// Once an installation waits for its services to answer, and also when they have, the commands
/// that it ran have left the compose file with every image pinned, the environment and the record
/// on the remote. Before it lays out the first file, it has run none.
pub proof fn installations_leave_their_files(
    files: Files,
    opts: BootstrapOptionsView,
    health: HealthCheck,
    replies: Seq<ReplyView>,
)
    requires
        bootstrap_answered(bootstrap_begin(opts, health).0, replies),
        bootstrap_from_begin(opts, health, replies).0.phase != BootstrapPhase::Over,
    ensures
        ({
            let m = bootstrap_from_begin(opts, health, replies).0;
            let record = told_record(replies);
            let ops = layout_ops(opts, pinned_compose(m)->Ok_0) + start_ops(
                opts.install_path,
                record,
            );
            let now = after_all(files, ops);
            let done = additions(opts, health, replies);
            &&& still_asking(m) ==> done == Seq::<Seq<char>>::empty()
            &&& m.phase == BootstrapPhase::Health || m.phase == BootstrapPhase::NewKey ==> {
                &&& commands_of(ops) == Ok::<Seq<Seq<char>>, ErrorView>(done)
                &&& pinned_compose(m) is Ok
                &&& now[compose_path_of(opts.install_path)] == encode_utf8(
                    pinned_compose(m)->Ok_0,
                )
                &&& now[env_path_of(opts.install_path)] == encode_utf8(opts.env_contents)
                &&& now[state_path_of(opts.install_path)] == encode_utf8(record)
            }
        }),
{
    let m = bootstrap_from_begin(opts, health, replies).0;
    let record = told_record(replies);
    let compose = pinned_compose(m)->Ok_0;
    lemma_installed(opts, health, replies);
    installation_commands_do_what_is_said(opts, compose, record);
    installation_leaves_its_files(files, opts, compose, record);
    if m.phase == BootstrapPhase::Health || m.phase == BootstrapPhase::NewKey {
        lemma_commands_together(layout_ops(opts, compose), start_ops(opts.install_path, record));
    }
}

} // verus!
