//! Where the files of a relay stand below its install path.
use crate::path::{join_path, path_join};
use crate::relay_lifecycle::commands::{dotdot_at, is_path_char, is_remote_path};
use crate::text::concat;
use crate::time::{is_stamp_char, Timestamp};
use vstd::prelude::*;

verus! {

/// One component of a path: plain characters without a slash, and not `..`.
pub open spec fn is_component(name: Seq<char>) -> bool {
    &&& name.len() > 0
    &&& forall|i: int| 0 <= i < name.len() ==> is_path_char(#[trigger] name[i]) && name[i] != '/'
    &&& name != seq!['.', '.']
}

/// What stands directly below a path that may stand in a command may stand there too.
pub proof fn joined_paths_stay_valid(base: Seq<char>, name: Seq<char>)
    requires
        is_remote_path(base),
        is_component(name),
    ensures
        is_remote_path(path_join(base, name)),
{
    let joined = path_join(base, name);
    let start = joined.len() - name.len();
    assert forall|i: int| 0 <= i < joined.len() implies is_path_char(#[trigger] joined[i]) by {
        if i < base.len() {
            assert(joined[i] == base[i]);
        } else if i >= start {
            assert(joined[i] == name[i - start]);
        }
    }
    assert(joined[start - 1] == '/');
    assert forall|i: int| !dotdot_at(joined, i) by {
        if dotdot_at(joined, i) {
            if i + 2 <= start - 1 {
                assert(joined[i] == base[i] && joined[i + 1] == base[i + 1]);
                if i > 0 {
                    assert(joined[i - 1] == base[i - 1]);
                }
                if i + 2 < base.len() {
                    assert(joined[i + 2] == base[i + 2]);
                }
                assert(dotdot_at(base, i));
            } else {
                assert(i >= start);
                assert(joined[i] == name[i - start] && joined[i + 1] == name[i + 1 - start]);
                if i > start {
                    assert(joined[i - 1] == name[i - 1 - start]);
                }
                if i + 2 < joined.len() {
                    assert(joined[i + 2] == name[i + 2 - start]);
                }
                assert(name =~= seq!['.', '.']);
            }
        }
    }
}

/// Where the compose file is.
pub open spec fn compose_path_of(install_path: Seq<char>) -> Seq<char> {
    path_join(install_path, "docker-compose.yml"@)
}

/// The compose file.
pub fn compose_path(install_path: &str) -> (r: String)
    ensures
        r@ == compose_path_of(install_path@),
{
    join_path(install_path, "docker-compose.yml")
}

/// Where the environment file is.
pub open spec fn env_path_of(install_path: Seq<char>) -> Seq<char> {
    path_join(install_path, ".env"@)
}

/// The services' environment.
pub fn env_path(install_path: &str) -> (r: String)
    ensures
        r@ == env_path_of(install_path@),
{
    join_path(install_path, ".env")
}

/// Where the record is.
pub open spec fn state_path_of(install_path: Seq<char>) -> Seq<char> {
    path_join(install_path, ".rustmote-state.toml"@)
}

/// The record of what is installed.
pub fn state_path(install_path: &str) -> (r: String)
    ensures
        r@ == state_path_of(install_path@),
{
    join_path(install_path, ".rustmote-state.toml")
}

/// Where the services keep their data.
pub open spec fn data_path_of(install_path: Seq<char>) -> Seq<char> {
    path_join(install_path, "data"@)
}

/// The services' data.
pub fn data_path(install_path: &str) -> (r: String)
    ensures
        r@ == data_path_of(install_path@),
{
    join_path(install_path, "data")
}

/// Where the relay keeps its public key.
pub open spec fn key_path_of(install_path: Seq<char>) -> Seq<char> {
    path_join(data_path_of(install_path), "id_ed25519.pub"@)
}

/// The relay's public key.
pub fn key_path(install_path: &str) -> (r: String)
    ensures
        r@ == key_path_of(install_path@),
{
    join_path(data_path(install_path).as_str(), "id_ed25519.pub")
}

/// Where the backups are.
pub open spec fn backups_path_of(install_path: Seq<char>) -> Seq<char> {
    path_join(install_path, "backups"@)
}

/// The directory above all backups.
pub fn backups_path(install_path: &str) -> (r: String)
    ensures
        r@ == backups_path_of(install_path@),
{
    join_path(install_path, "backups")
}

/// The directory of a backup with the given timestamp in its name.
pub open spec fn backup_dir_of(install_path: Seq<char>, stamp: Seq<char>) -> Seq<char> {
    path_join(backups_path_of(install_path), "pre-update-"@ + stamp)
}

/// The directory of a backup with the given timestamp in its name.
pub fn backup_dir_named(install_path: &str, stamp: &str) -> (r: String)
    ensures
        r@ == backup_dir_of(install_path@, stamp@),
{
    let name = concat("pre-update-", stamp);
    join_path(backups_path(install_path).as_str(), name.as_str())
}

/// The directory of the backup that is made at an instant.
pub fn backup_dir_for(install_path: &str, at: Timestamp) -> (r: String)
    ensures
        r@ == backup_dir_of(install_path@, at.spec_stamp()),
{
    backup_dir_named(install_path, at.stamp().as_str())
}

/// Every file and directory of a relay may stand in a command where its install path may; so may
/// the backup of an instant whose timestamp is written with digits, hyphens and the letters `T`
/// and `Z`, as those of the years 0 to 9999 are.
pub proof fn relay_paths_are_valid(install_path: Seq<char>, stamp: Seq<char>)
    requires
        is_remote_path(install_path),
        forall|i: int| 0 <= i < stamp.len() ==> is_stamp_char(#[trigger] stamp[i]),
    ensures
        is_remote_path(compose_path_of(install_path)),
        is_remote_path(env_path_of(install_path)),
        is_remote_path(state_path_of(install_path)),
        is_remote_path(data_path_of(install_path)),
        is_remote_path(key_path_of(install_path)),
        is_remote_path(backups_path_of(install_path)),
        is_remote_path(backup_dir_of(install_path, stamp)),
{
    reveal_strlit("docker-compose.yml");
    reveal_strlit(".env");
    reveal_strlit(".rustmote-state.toml");
    reveal_strlit("data");
    reveal_strlit("id_ed25519.pub");
    reveal_strlit("backups");
    reveal_strlit("pre-update-");
    joined_paths_stay_valid(install_path, "docker-compose.yml"@);
    joined_paths_stay_valid(install_path, ".env"@);
    joined_paths_stay_valid(install_path, ".rustmote-state.toml"@);
    joined_paths_stay_valid(install_path, "data"@);
    joined_paths_stay_valid(data_path_of(install_path), "id_ed25519.pub"@);
    joined_paths_stay_valid(install_path, "backups"@);
    let name = "pre-update-"@ + stamp;
    assert forall|i: int| 0 <= i < name.len() implies is_path_char(#[trigger] name[i]) && name[i]
        != '/' by {
        if i >= 11 {
            assert(name[i] == stamp[i - 11]);
        }
    }
    assert(name.len() >= 11);
    joined_paths_stay_valid(backups_path_of(install_path), name);
}

} // verus!
