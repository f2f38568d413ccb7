//! The configuration file.
use crate::credentials::CredentialMode;
use crate::error::{outcome, RustmoteError};
use crate::path::{local_join, PathStyle};
use crate::registry::{RemoteServer, ServerView};
use crate::storage::{file_below, file_in};
use crate::target::{Target, TargetView};
use crate::text::{opt_str, opt_view, views};
use vstd::prelude::*;

verus! {

/// The configuration file's name.
pub const CONFIG_FILE_NAME: &'static str = "config.toml";

/// The name of the file that the unsafe credential mode keeps passwords in.
pub const CREDENTIALS_FILE_NAME: &'static str = "credentials.toml";

/// The environment variable that names another configuration directory than the platform's.
pub const CONFIG_DIR_ENV: &'static str = "RUSTMOTE_CONFIG_DIR";

/// The general settings.
#[derive(Debug, PartialEq, Eq)]
pub struct GeneralConfig<T = String> {
    pub credential_mode: CredentialMode,
    /// The server that is used where none is named.
    pub default_server: Option<T>,
    /// The viewer's program; empty where it is to be detected.
    pub viewer_path: T,
}

/// The view of a [`GeneralConfig`].
pub type GeneralView = GeneralConfig<Seq<char>>;

impl View for GeneralConfig {
    type V = GeneralConfig<Seq<char>>;

    open spec fn view(&self) -> GeneralConfig<Seq<char>> {
        GeneralConfig {
            credential_mode: self.credential_mode,
            default_server: opt_view(self.default_server),
            viewer_path: self.viewer_path@,
        }
    }
}

impl Clone for GeneralConfig {
    fn clone(&self) -> (r: GeneralConfig)
        ensures
            r == *self,
    {
        GeneralConfig {
            credential_mode: self.credential_mode,
            default_server: self.default_server.clone(),
            viewer_path: self.viewer_path.clone(),
        }
    }
}

impl Default for GeneralConfig {
    fn default() -> (r: GeneralConfig)
        ensures
            r@ == (GeneralConfig {
                credential_mode: CredentialMode::Prompt,
                default_server: None,
                viewer_path: Seq::<char>::empty(),
            }),
    {
        GeneralConfig {
            credential_mode: CredentialMode::Prompt,
            default_server: None,
            viewer_path: String::new(),
        }
    }
}

impl GeneralConfig {
    /// The viewer's program, unless it is to be detected.
    pub fn viewer_override(&self) -> (r: Option<&str>)
        ensures
            opt_str(r) == if self@.viewer_path.len() == 0 {
                None
            } else {
                Some(self@.viewer_path)
            },
    {
        if self.viewer_path.as_str().is_empty() {
            None
        } else {
            Some(self.viewer_path.as_str())
        }
    }
}

/// The configuration.
#[derive(Debug, PartialEq, Eq)]
pub struct Config {
    pub general: GeneralConfig,
    pub servers: Vec<RemoteServer>,
    pub targets: Vec<Target>,
}

/// What a configuration says.
pub struct ConfigView {
    pub general: GeneralView,
    pub servers: Seq<ServerView>,
    pub targets: Seq<TargetView>,
}

impl View for Config {
    type V = ConfigView;

    open spec fn view(&self) -> ConfigView {
        ConfigView {
            general: self.general@,
            servers: views(self.servers@),
            targets: views(self.targets@),
        }
    }
}

impl Clone for Config {
    fn clone(&self) -> (r: Config)
        ensures
            r@ == self@,
    {
        let servers = self.servers.clone();
        let targets = self.targets.clone();
        assert(servers@ =~= self.servers@);
        assert(targets@ =~= self.targets@);
        Config { general: self.general.clone(), servers, targets }
    }
}

impl Default for Config {
    fn default() -> (r: Config)
        ensures
            r@ == (ConfigView {
                general: GeneralConfig {
                    credential_mode: CredentialMode::Prompt,
                    default_server: None,
                    viewer_path: seq![],
                },
                servers: seq![],
                targets: seq![],
            }),
    {
        let r = Config {
            general: GeneralConfig::default(),
            servers: Vec::new(),
            targets: Vec::new(),
        };
        assert(r@.servers =~= seq![]);
        assert(r@.targets =~= seq![]);
        r
    }
}

/// The configuration file, in a directory that may not be there.
pub fn config_path(
    style: PathStyle,
    config_dir: Result<String, RustmoteError>,
) -> (r: Result<String, RustmoteError>)
    ensures
        outcome(r) == file_in(style, outcome(config_dir), CONFIG_FILE_NAME@),
{
    file_below(style, config_dir, CONFIG_FILE_NAME)
}

/// The credentials file, in a directory that may not be there.
pub fn credentials_path(
    style: PathStyle,
    config_dir: Result<String, RustmoteError>,
) -> (r: Result<String, RustmoteError>)
    ensures
        outcome(r) == file_in(style, outcome(config_dir), CREDENTIALS_FILE_NAME@),
{
    file_below(style, config_dir, CREDENTIALS_FILE_NAME)
}

/// The configuration, and the credentials file beside it, stand in the configuration directory
/// under their names.
pub proof fn files_stand_in_the_configuration_directory(
    style: PathStyle,
    dir: String,
    config: Result<String, RustmoteError>,
    credentials: Result<String, RustmoteError>,
)
    requires
        call_ensures(config_path, (style, Ok(dir)), config),
        call_ensures(credentials_path, (style, Ok(dir)), credentials),
    ensures
        config matches Ok(path) && path@ == local_join(style, dir@, "config.toml"@),
        credentials matches Ok(path) && path@ == local_join(style, dir@, "credentials.toml"@),
{
}

/// A viewer is given by the configuration exactly where its path is not empty.
pub proof fn empty_paths_give_no_viewer(general: &GeneralConfig, r: Option<&str>)
    requires
        call_ensures(GeneralConfig::viewer_override, (general,), r),
    ensures
        r is Some <==> general.viewer_path@.len() > 0,
        r matches Some(path) ==> path@ == general.viewer_path@,
{
}

} // verus!
