//! What the commands of an operation do to the files of the remote.
//!
//! The commands are texts that a remote shell runs. This module says what each of them means for
//! the files there, and what follows for the operations as a whole.
use crate::error::ErrorView;
use crate::path::path_join;
use crate::relay_lifecycle::bootstrap::{layout_commands, start_commands, BootstrapOptionsView};
use crate::relay_lifecycle::commands::{
    compose_pull_command, compose_up_command, copy_file_command, mkdir_p_command,
    write_file_command,
};
use crate::relay_lifecycle::paths::{
    backup_dir_of, backups_path_of, compose_path_of, data_path_of, env_path_of, state_path_of,
};
use crate::relay_lifecycle::step::all_built;
use crate::relay_lifecycle::update::{
    backup_commands, compose_commands, restore_commands, rewrite_commands, snapshot_commands,
    switch_commands,
};
use vstd::prelude::*;
use vstd::utf8::encode_utf8;

verus! {

/// The files of the remote, by path.
pub type Files = Map<Seq<char>, Seq<u8>>;

/// A command, by what it does.
pub enum RemoteOp {
    /// Makes a directory.
    MakeDir { path: Seq<char> },
    /// Copies a file.
    Copy { from: Seq<char>, to: Seq<char> },
    /// Writes a file.
    Write { path: Seq<char>, content: Seq<u8> },
    /// Fetches the images that the compose file names.
    Pull { install_path: Seq<char> },
    /// Starts the services of the compose file.
    Up { install_path: Seq<char> },
}

/// The command that does it.
pub open spec fn command_of(op: RemoteOp) -> Result<Seq<char>, ErrorView> {
    match op {
        RemoteOp::MakeDir { path } => mkdir_p_command(path),
        RemoteOp::Copy { from, to } => copy_file_command(from, to),
        RemoteOp::Write { path, content } => write_file_command(path, content),
        RemoteOp::Pull { install_path } => compose_pull_command(install_path),
        RemoteOp::Up { install_path } => compose_up_command(install_path),
    }
}

/// For each thing the command that does it.
pub open spec fn each_command(ops: Seq<RemoteOp>) -> Seq<Result<Seq<char>, ErrorView>> {
    Seq::new(ops.len(), |i: int| command_of(ops[i]))
}

/// The commands that do one thing after the other.
pub open spec fn commands_of(ops: Seq<RemoteOp>) -> Result<Seq<Seq<char>>, ErrorView> {
    all_built(each_command(ops))
}

/// The files after a command.
pub open spec fn after(files: Files, op: RemoteOp) -> Files {
    match op {
        RemoteOp::Copy { from, to } => files.insert(to, files[from]),
        RemoteOp::Write { path, content } => files.insert(path, content),
        _ => files,
    }
}

/// The files after some commands.
pub open spec fn after_all(files: Files, ops: Seq<RemoteOp>) -> Files
    decreases ops.len(),
{
    if ops.len() == 0 {
        files
    } else {
        after(after_all(files, ops.drop_last()), ops.last())
    }
}

/// What makes a backup.
pub open spec fn backup_ops(install_path: Seq<char>, dir: Seq<char>) -> Seq<RemoteOp> {
    seq![
        RemoteOp::MakeDir { path: dir },
        RemoteOp::Copy {
            from: compose_path_of(install_path),
            to: path_join(dir, "docker-compose.yml"@),
        },
        RemoteOp::Copy {
            from: state_path_of(install_path),
            to: path_join(dir, ".rustmote-state.toml"@),
        },
    ]
}

/// What brings a backup back.
pub open spec fn restore_ops(install_path: Seq<char>, dir: Seq<char>) -> Seq<RemoteOp> {
    seq![
        RemoteOp::Copy {
            from: path_join(dir, "docker-compose.yml"@),
            to: compose_path_of(install_path),
        },
        RemoteOp::Copy {
            from: path_join(dir, ".rustmote-state.toml"@),
            to: state_path_of(install_path),
        },
        RemoteOp::Up { install_path },
    ]
}

/// What writes a compose file and a record anew.
pub open spec fn rewrite_ops(
    install_path: Seq<char>,
    compose: Seq<char>,
    record: Seq<char>,
) -> Seq<RemoteOp> {
    seq![
        RemoteOp::Write { path: compose_path_of(install_path), content: encode_utf8(compose) },
        RemoteOp::Write { path: state_path_of(install_path), content: encode_utf8(record) },
        RemoteOp::Up { install_path },
    ]
}

/// What adds the effective compose file to a backup.
pub open spec fn snapshot_ops(dir: Seq<char>, config: Seq<u8>) -> Seq<RemoteOp> {
    seq![RemoteOp::Write { path: path_join(dir, "compose-config.yml"@), content: config }]
}

/// What writes a compose file.
pub open spec fn compose_ops(install_path: Seq<char>, compose: Seq<char>) -> Seq<RemoteOp> {
    seq![RemoteOp::Write { path: compose_path_of(install_path), content: encode_utf8(compose) }]
}

/// What writes a record and switches to the images of the compose file.
pub open spec fn switch_ops(install_path: Seq<char>, record: Seq<char>) -> Seq<RemoteOp> {
    seq![
        RemoteOp::Write { path: state_path_of(install_path), content: encode_utf8(record) },
        RemoteOp::Pull { install_path },
        RemoteOp::Up { install_path },
    ]
}

/// What an update does to the files up to its health check: it makes a backup, adds the effective
/// compose file to it, if there is one, and writes compose file and record anew.
pub open spec fn update_ops(
    install_path: Seq<char>,
    dir: Seq<char>,
    config: Option<Seq<u8>>,
    compose: Seq<char>,
    record: Seq<char>,
) -> Seq<RemoteOp> {
    backup_ops(install_path, dir) + (match config {
        Some(content) => snapshot_ops(dir, content),
        None => seq![],
    }) + compose_ops(install_path, compose) + switch_ops(install_path, record)
}

/// What lays the files of a new relay out and starts it.
pub open spec fn layout_ops(opts: BootstrapOptionsView, compose: Seq<char>) -> Seq<RemoteOp> {
    seq![
        RemoteOp::MakeDir { path: opts.install_path },
        RemoteOp::MakeDir { path: data_path_of(opts.install_path) },
        RemoteOp::MakeDir { path: backups_path_of(opts.install_path) },
        RemoteOp::Write {
            path: compose_path_of(opts.install_path),
            content: encode_utf8(compose),
        },
        RemoteOp::Write {
            path: env_path_of(opts.install_path),
            content: encode_utf8(opts.env_contents),
        },
    ]
}

/// What writes the record of a new relay and starts it.
pub open spec fn start_ops(install_path: Seq<char>, record: Seq<char>) -> Seq<RemoteOp> {
    seq![
        RemoteOp::Write { path: state_path_of(install_path), content: encode_utf8(record) },
        RemoteOp::Up { install_path },
    ]
}

/// The commands of an update are those that do what is said of them here.
pub proof fn update_commands_do_what_is_said(
    install_path: Seq<char>,
    dir: Seq<char>,
    config: Seq<u8>,
    compose: Seq<char>,
    record: Seq<char>,
)
    ensures
        backup_commands(install_path, dir) == commands_of(backup_ops(install_path, dir)),
        snapshot_commands(dir, config) == commands_of(snapshot_ops(dir, config)),
        compose_commands(install_path, compose) == commands_of(compose_ops(install_path, compose)),
        switch_commands(install_path, record) == commands_of(switch_ops(install_path, record)),
{
    let a = backup_ops(install_path, dir);
    assert(each_command(a) =~= seq![command_of(a[0]), command_of(a[1]), command_of(a[2])]);
    let b = snapshot_ops(dir, config);
    assert(each_command(b) =~= seq![command_of(b[0])]);
    let c = compose_ops(install_path, compose);
    assert(each_command(c) =~= seq![command_of(c[0])]);
    let d = switch_ops(install_path, record);
    assert(each_command(d) =~= seq![command_of(d[0]), command_of(d[1]), command_of(d[2])]);
}

/// The commands of the way back are those that do what is said of them here.
pub proof fn rollback_commands_do_what_is_said(
    install_path: Seq<char>,
    dir: Seq<char>,
    compose: Seq<char>,
    record: Seq<char>,
)
    ensures
        restore_commands(install_path, dir) == commands_of(restore_ops(install_path, dir)),
        rewrite_commands(install_path, compose, record) == commands_of(
            rewrite_ops(install_path, compose, record),
        ),
{
    let a = restore_ops(install_path, dir);
    assert(each_command(a) =~= seq![command_of(a[0]), command_of(a[1]), command_of(a[2])]);
    let b = rewrite_ops(install_path, compose, record);
    assert(each_command(b) =~= seq![command_of(b[0]), command_of(b[1]), command_of(b[2])]);
}

/// The commands of an installation are those that do what is said of them here.
pub proof fn installation_commands_do_what_is_said(
    opts: BootstrapOptionsView,
    compose: Seq<char>,
    record: Seq<char>,
)
    ensures
        layout_commands(opts, compose) == commands_of(layout_ops(opts, compose)),
        start_commands(opts.install_path, record) == commands_of(
            start_ops(opts.install_path, record),
        ),
{
    let a = layout_ops(opts, compose);
    assert(each_command(a) =~= seq![
        command_of(a[0]),
        command_of(a[1]),
        command_of(a[2]),
        command_of(a[3]),
        command_of(a[4]),
    ]);
    let b = start_ops(opts.install_path, record);
    assert(each_command(b) =~= seq![command_of(b[0]), command_of(b[1])]);
}

proof fn lemma_after_push(files: Files, ops: Seq<RemoteOp>, op: RemoteOp)
    ensures
        after_all(files, ops.push(op)) == after(after_all(files, ops), op),
{
    assert(ops.push(op).drop_last() =~= ops);
}

/// Some commands and others behind them do what the first do and the others then.
pub proof fn lemma_after_concat(files: Files, first: Seq<RemoteOp>, second: Seq<RemoteOp>)
    ensures
        after_all(files, first + second) == after_all(after_all(files, first), second),
    decreases second.len(),
{
    if second.len() == 0 {
        assert(first + second =~= first);
    } else {
        lemma_after_concat(files, first, second.drop_last());
        assert((first + second).drop_last() =~= first + second.drop_last());
    }
}

proof fn lemma_after_one(files: Files, a: RemoteOp)
    ensures
        after_all(files, seq![a]) == after(files, a),
{
    let none = Seq::<RemoteOp>::empty();
    lemma_after_push(files, none, a);
    assert(seq![a] =~= none.push(a));
    assert(after_all(files, none) == files);
}

proof fn lemma_after_two(files: Files, a: RemoteOp, b: RemoteOp)
    ensures
        after_all(files, seq![a, b]) == after(after(files, a), b),
{
    lemma_after_one(files, a);
    lemma_after_push(files, seq![a], b);
    assert(seq![a, b] =~= seq![a].push(b));
}

proof fn lemma_after_three(files: Files, a: RemoteOp, b: RemoteOp, c: RemoteOp)
    ensures
        after_all(files, seq![a, b, c]) == after(after(after(files, a), b), c),
{
    lemma_after_two(files, a, b);
    lemma_after_push(files, seq![a, b], c);
    assert(seq![a, b, c] =~= seq![a, b].push(c));
}

proof fn lemma_after_four(files: Files, a: RemoteOp, b: RemoteOp, c: RemoteOp, d: RemoteOp)
    ensures
        after_all(files, seq![a, b, c, d]) == after(after(after(after(files, a), b), c), d),
{
    lemma_after_three(files, a, b, c);
    lemma_after_push(files, seq![a, b, c], d);
    assert(seq![a, b, c, d] =~= seq![a, b, c].push(d));
}

proof fn lemma_paths_apart(install_path: Seq<char>, stamp: Seq<char>)
    ensures
        ({
            let dir = backup_dir_of(install_path, stamp);
            let compose = compose_path_of(install_path);
            let record = state_path_of(install_path);
            let kept_compose = path_join(dir, "docker-compose.yml"@);
            let kept_record = path_join(dir, ".rustmote-state.toml"@);
            let kept_config = path_join(dir, "compose-config.yml"@);
            &&& compose != record
            &&& kept_compose != compose
            &&& kept_compose != record
            &&& kept_record != compose
            &&& kept_record != record
            &&& kept_config != compose
            &&& kept_config != record
            &&& kept_compose != kept_record
            &&& kept_config != kept_compose
            &&& kept_config != kept_record
            &&& env_path_of(install_path) != compose
            &&& env_path_of(install_path) != record
        }),
{
    reveal_strlit("docker-compose.yml");
    reveal_strlit(".rustmote-state.toml");
    reveal_strlit("compose-config.yml");
    reveal_strlit("backups");
    reveal_strlit("pre-update-");
    reveal_strlit(".env");
    let dir = backup_dir_of(install_path, stamp);
    let compose = compose_path_of(install_path);
    let record = state_path_of(install_path);
    let kept_compose = path_join(dir, "docker-compose.yml"@);
    let kept_record = path_join(dir, ".rustmote-state.toml"@);
    let kept_config = path_join(dir, "compose-config.yml"@);
    assert(dir.len() >= install_path.len() + 18);
    assert(compose.len() <= install_path.len() + 19);
    assert(record.len() <= install_path.len() + 21);
    assert(kept_compose.len() >= dir.len() + 18);
    assert(kept_record.len() >= dir.len() + 20);
    assert(kept_config.len() >= dir.len() + 18);
    assert(compose.len() + 2 == record.len());
    assert(kept_compose.len() + 2 == kept_record.len());
    assert(kept_config.len() == kept_compose.len());
    let last = kept_compose.len() - 18;
    assert(kept_compose[last] == 'd');
    assert(kept_config[last] == 'c');
}

/// The way back restores what the update changed: whatever compose file and record it wrote after
/// the backup, copying the backup back leaves both as they were before.
pub proof fn rollback_restores_the_files(
    files: Files,
    install_path: Seq<char>,
    stamp: Seq<char>,
    config: Option<Seq<u8>>,
    compose: Seq<char>,
    record: Seq<char>,
)
    ensures
        ({
            let dir = backup_dir_of(install_path, stamp);
            let updated = after_all(files, update_ops(install_path, dir, config, compose, record));
            let restored = after_all(updated, restore_ops(install_path, dir));
            &&& updated[compose_path_of(install_path)] == encode_utf8(compose)
            &&& updated[state_path_of(install_path)] == encode_utf8(record)
            &&& restored[compose_path_of(install_path)] == files[compose_path_of(install_path)]
            &&& restored[state_path_of(install_path)] == files[state_path_of(install_path)]
        }),
{
    let dir = backup_dir_of(install_path, stamp);
    lemma_paths_apart(install_path, stamp);
    let a = backup_ops(install_path, dir);
    let b = match config {
        Some(content) => snapshot_ops(dir, content),
        None => seq![],
    };
    let c = compose_ops(install_path, compose);
    let d = switch_ops(install_path, record);
    let e = restore_ops(install_path, dir);
    lemma_after_three(files, a[0], a[1], a[2]);
    assert(a =~= seq![a[0], a[1], a[2]]);
    let backed = after_all(files, a);
    lemma_after_concat(files, a, b);
    if config is Some {
        lemma_after_one(backed, b[0]);
        assert(b =~= seq![b[0]]);
    } else {
        assert(after_all(backed, b) == backed);
    }
    let noted = after_all(files, a + b);
    lemma_after_concat(files, a + b, c);
    lemma_after_one(noted, c[0]);
    assert(c =~= seq![c[0]]);
    let written = after_all(files, a + b + c);
    lemma_after_concat(files, a + b + c, d);
    lemma_after_three(written, d[0], d[1], d[2]);
    assert(d =~= seq![d[0], d[1], d[2]]);
    let updated = after_all(files, a + b + c + d);
    lemma_after_three(updated, e[0], e[1], e[2]);
    assert(e =~= seq![e[0], e[1], e[2]]);
}

/// An update leaves the compose file and the record that it writes.
pub proof fn renewing_leaves_both_files(
    files: Files,
    install_path: Seq<char>,
    compose: Seq<char>,
    record: Seq<char>,
)
    ensures
        ({
            let now = after_all(
                files,
                compose_ops(install_path, compose) + switch_ops(install_path, record),
            );
            &&& now[compose_path_of(install_path)] == encode_utf8(compose)
            &&& now[state_path_of(install_path)] == encode_utf8(record)
        }),
{
    lemma_paths_apart(install_path, seq![]);
    let a = compose_ops(install_path, compose);
    let b = switch_ops(install_path, record);
    lemma_after_concat(files, a, b);
    lemma_after_one(files, a[0]);
    assert(a =~= seq![a[0]]);
    lemma_after_three(after_all(files, a), b[0], b[1], b[2]);
    assert(b =~= seq![b[0], b[1], b[2]]);
}

/// Without a backup the way back leaves the compose file and the record that are written anew.
pub proof fn rewriting_leaves_both_files(
    files: Files,
    install_path: Seq<char>,
    compose: Seq<char>,
    record: Seq<char>,
)
    ensures
        ({
            let now = after_all(files, rewrite_ops(install_path, compose, record));
            &&& now[compose_path_of(install_path)] == encode_utf8(compose)
            &&& now[state_path_of(install_path)] == encode_utf8(record)
        }),
{
    lemma_paths_apart(install_path, seq![]);
    let a = rewrite_ops(install_path, compose, record);
    lemma_after_three(files, a[0], a[1], a[2]);
    assert(a =~= seq![a[0], a[1], a[2]]);
}

/// An installation leaves the pinned compose file, the environment and the record on the remote.
pub proof fn installation_leaves_its_files(
    files: Files,
    opts: BootstrapOptionsView,
    compose: Seq<char>,
    record: Seq<char>,
)
    ensures
        ({
            let now = after_all(
                files,
                layout_ops(opts, compose) + start_ops(opts.install_path, record),
            );
            &&& now[compose_path_of(opts.install_path)] == encode_utf8(compose)
            &&& now[env_path_of(opts.install_path)] == encode_utf8(opts.env_contents)
            &&& now[state_path_of(opts.install_path)] == encode_utf8(record)
        }),
{
    lemma_paths_apart(opts.install_path, seq![]);
    let a = layout_ops(opts, compose);
    let b = start_ops(opts.install_path, record);
    lemma_after_concat(files, a, b);
    lemma_after_four(files, a[0], a[1], a[2], a[3]);
    lemma_after_push(files, seq![a[0], a[1], a[2], a[3]], a[4]);
    assert(a =~= seq![a[0], a[1], a[2], a[3]].push(a[4]));
    lemma_after_two(after_all(files, a), b[0], b[1]);
    assert(b =~= seq![b[0], b[1]]);
}

} // verus!
