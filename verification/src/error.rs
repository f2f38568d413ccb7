//! The failures of the library.
use crate::text::{decimal, digits, starts_with, text_decimal, text_octal};
use vstd::prelude::*;

verus! {

/// Every way in which an operation of this crate can fail. `T` is the type of the texts in it:
/// `String` in running code, `Seq<char>` in its view.
#[derive(Debug, PartialEq, Eq)]
pub enum RustmoteError<T = String> {
    /// The configuration file is missing.
    ConfigNotFound(T),
    /// No server has this name.
    UnknownServer(T),
    /// A server of this name is registered.
    ServerAlreadyExists(T),
    /// No target has this id.
    UnknownTarget(T),
    /// A target of this id is registered.
    TargetAlreadyExists(T),
    /// The platform names no configuration directory.
    NoConfigDir,
    /// A configuration file does not parse.
    ConfigParse { path: T, source: T },
    /// A configuration does not serialise.
    ConfigSerialize(T),
    /// The SSH transport failed.
    SshConnection(T),
    /// The server shows another key than the pinned one.
    HostKeyMismatch { host: T, port: u16, expected: T, actual: T },
    /// The server's key is not pinned, and the policy pins none.
    HostKeyUnknown { host: T, port: u16 },
    /// No authentication method was accepted.
    SshAuthFailed { user: T, host: T, methods: T, last_error: T },
    /// No private key file was found.
    NoSshKeyFound(T),
    /// A remote command exited with another status than zero.
    RemoteCommandFailed { command: T, exit_code: u32, stderr: T },
    /// The platform's keyring failed.
    Credential(T),
    /// No viewer is installed.
    ViewerNotFound,
    /// The text is no target id.
    InvalidTargetId(T),
    /// The text is no server name.
    InvalidServerName(T),
    /// No interface names a network to scan.
    DiscoveryNoInterface,
    /// The unsafe credential mode was not acknowledged.
    UnsafeModeNotAcknowledged,
    /// The credentials file is open to others.
    InsecureCredentialsFile(u32),
    /// The platform has no file permissions to rely on.
    UnsafeModeUnsupportedOnPlatform,
    /// Nothing is stored for this account.
    NoStoredCredential { server: T, user: T },
    /// The image registry failed.
    RegistryApi(T),
    /// There is no relay to work on.
    RelayNotInstalled(T),
    /// There is a relay already.
    RelayAlreadyInstalled(T),
    /// The relay's ports did not open in time.
    RelayHealthCheckFailed,
    /// Only the old compose tool is there.
    DockerComposeV1Detected,
    /// There is no container engine.
    DockerEngineNotInstalled,
    /// The remote system is none of the supported ones.
    RelayUnsupportedOs(T),
    /// The install path belongs to something else.
    RelayForeignInstall(T),
    /// Nobody confirmed the update.
    RelayUpdateNotConfirmed,
    /// A path may not stand in a remote command.
    InvalidRelayPath(T),
    /// An image reference is malformed.
    InvalidImageRef(T),
    /// The operating system failed.
    Io(T),
}

impl View for RustmoteError {
    type V = RustmoteError<Seq<char>>;

    open spec fn view(&self) -> RustmoteError<Seq<char>> {
        match self {
            RustmoteError::ConfigNotFound(x) => RustmoteError::ConfigNotFound(x@),
            RustmoteError::UnknownServer(x) => RustmoteError::UnknownServer(x@),
            RustmoteError::ServerAlreadyExists(x) => RustmoteError::ServerAlreadyExists(x@),
            RustmoteError::UnknownTarget(x) => RustmoteError::UnknownTarget(x@),
            RustmoteError::TargetAlreadyExists(x) => RustmoteError::TargetAlreadyExists(x@),
            RustmoteError::NoConfigDir => RustmoteError::NoConfigDir,
            RustmoteError::ConfigParse { path, source } => RustmoteError::ConfigParse {
                path: path@,
                source: source@,
            },
            RustmoteError::ConfigSerialize(x) => RustmoteError::ConfigSerialize(x@),
            RustmoteError::SshConnection(x) => RustmoteError::SshConnection(x@),
            RustmoteError::HostKeyMismatch { host, port, expected, actual } => RustmoteError::HostKeyMismatch {
                host: host@,
                port: *port,
                expected: expected@,
                actual: actual@,
            },
            RustmoteError::HostKeyUnknown { host, port } => RustmoteError::HostKeyUnknown {
                host: host@,
                port: *port,
            },
            RustmoteError::SshAuthFailed { user, host, methods, last_error } => RustmoteError::SshAuthFailed {
                user: user@,
                host: host@,
                methods: methods@,
                last_error: last_error@,
            },
            RustmoteError::NoSshKeyFound(x) => RustmoteError::NoSshKeyFound(x@),
            RustmoteError::RemoteCommandFailed { command, exit_code, stderr } => RustmoteError::RemoteCommandFailed {
                command: command@,
                exit_code: *exit_code,
                stderr: stderr@,
            },
            RustmoteError::Credential(x) => RustmoteError::Credential(x@),
            RustmoteError::ViewerNotFound => RustmoteError::ViewerNotFound,
            RustmoteError::InvalidTargetId(x) => RustmoteError::InvalidTargetId(x@),
            RustmoteError::InvalidServerName(x) => RustmoteError::InvalidServerName(x@),
            RustmoteError::DiscoveryNoInterface => RustmoteError::DiscoveryNoInterface,
            RustmoteError::UnsafeModeNotAcknowledged => RustmoteError::UnsafeModeNotAcknowledged,
            RustmoteError::InsecureCredentialsFile(x) => RustmoteError::InsecureCredentialsFile(*x),
            RustmoteError::UnsafeModeUnsupportedOnPlatform => {
                RustmoteError::UnsafeModeUnsupportedOnPlatform
            },
            RustmoteError::NoStoredCredential { server, user } => RustmoteError::NoStoredCredential {
                server: server@,
                user: user@,
            },
            RustmoteError::RegistryApi(x) => RustmoteError::RegistryApi(x@),
            RustmoteError::RelayNotInstalled(x) => RustmoteError::RelayNotInstalled(x@),
            RustmoteError::RelayAlreadyInstalled(x) => RustmoteError::RelayAlreadyInstalled(x@),
            RustmoteError::RelayHealthCheckFailed => RustmoteError::RelayHealthCheckFailed,
            RustmoteError::DockerComposeV1Detected => RustmoteError::DockerComposeV1Detected,
            RustmoteError::DockerEngineNotInstalled => RustmoteError::DockerEngineNotInstalled,
            RustmoteError::RelayUnsupportedOs(x) => RustmoteError::RelayUnsupportedOs(x@),
            RustmoteError::RelayForeignInstall(x) => RustmoteError::RelayForeignInstall(x@),
            RustmoteError::RelayUpdateNotConfirmed => RustmoteError::RelayUpdateNotConfirmed,
            RustmoteError::InvalidRelayPath(x) => RustmoteError::InvalidRelayPath(x@),
            RustmoteError::InvalidImageRef(x) => RustmoteError::InvalidImageRef(x@),
            RustmoteError::Io(x) => RustmoteError::Io(x@),
        }
    }
}

/// The view of a [`RustmoteError`].
pub type ErrorView = RustmoteError<Seq<char>>;

/// The view of a fallible text.
pub open spec fn outcome(r: Result<String, RustmoteError>) -> Result<Seq<char>, ErrorView> {
    match r {
        Ok(s) => Ok(s@),
        Err(e) => Err(e@),
    }
}

/// The message of a failure, as it is shown to the user.
pub open spec fn error_text(e: RustmoteError<Seq<char>>) -> Seq<char> {
    match e {
        RustmoteError::ConfigNotFound(x) => "config file not found at "@ + x,
        RustmoteError::UnknownServer(x) => "server '"@ + x + "' not in registry"@,
        RustmoteError::ServerAlreadyExists(x) => "server '"@ + x + "' is already registered"@,
        RustmoteError::UnknownTarget(x) => "target '"@ + x + "' not in registry"@,
        RustmoteError::TargetAlreadyExists(x) => "target '"@ + x + "' is already registered"@,
        RustmoteError::NoConfigDir => {
            "could not resolve a config directory for the current platform"@
        },
        RustmoteError::ConfigParse { path, source } => {
            "failed to parse config file "@ + path + ": "@ + source
        },
        RustmoteError::ConfigSerialize(x) => "failed to serialize config: "@ + x,
        RustmoteError::SshConnection(x) => "ssh connection failed: "@ + x,
        RustmoteError::HostKeyMismatch { host, port, expected, actual } => {
            "host key mismatch for "@ + host + ":"@ + decimal(port as nat) + " — pinned "@
                + expected + ", observed "@ + actual
                + "; refusing to connect (spec §6.7). Remove the stale entry from known_hosts.toml only after verifying the new key out-of-band."@
        },
        RustmoteError::HostKeyUnknown { host, port } => {
            "host key for "@ + host + ":"@ + decimal(port as nat)
                + " is not pinned and strict TOFU policy refuses first-use"@
        },
        RustmoteError::SshAuthFailed { user, host, methods, last_error } => {
            "ssh authentication failed for "@ + user + "@"@ + host + "; tried "@ + methods
                + " (last error: "@ + last_error + ")"@
        },
        RustmoteError::NoSshKeyFound(x) => "no SSH private key found at any of: "@ + x,
        RustmoteError::RemoteCommandFailed { command, exit_code, stderr } => {
            "remote command '"@ + command + "' exited with status "@ + decimal(exit_code as nat)
                + ": "@ + stderr
        },
        RustmoteError::Credential(x) => "credential access failed: "@ + x,
        RustmoteError::ViewerNotFound => {
            "viewer binary not found; install RustDesk or set viewer_path"@
        },
        RustmoteError::InvalidTargetId(x) => {
            "invalid RustDesk target id '"@ + x + "'; expected 9 or 10 ASCII digits (spec §3.5)"@
        },
        RustmoteError::InvalidServerName(x) => {
            "invalid server name '"@ + x
                + "'; expected 1-64 chars matching [a-zA-Z0-9_-] (spec §6.4)"@
        },
        RustmoteError::DiscoveryNoInterface => {
            "no non-loopback IPv4 interface with a CIDR prefix found for discovery auto-detect"@
        },
        RustmoteError::UnsafeModeNotAcknowledged => {
            "unsafe mode requires explicit acknowledgment flag"@
        },
        RustmoteError::InsecureCredentialsFile(x) => {
            "credentials file has insecure permissions: "@ + digits(x as nat, 8)
                + " (expected 600)"@
        },
        RustmoteError::UnsafeModeUnsupportedOnPlatform => {
            "unsafe credential mode is not supported on this platform yet; use `keychain` mode instead"@
        },
        RustmoteError::NoStoredCredential { server, user } => {
            "no stored credential for "@ + user + "@"@ + server
        },
        RustmoteError::RegistryApi(x) => "docker hub api error: "@ + x,
        RustmoteError::RelayNotInstalled(x) => {
            "relay not installed on server '"@ + x + "'; run `rustmote relay bootstrap` first"@
        },
        RustmoteError::RelayAlreadyInstalled(x) => {
            "relay already installed at "@ + x + "; remove it or use a different path"@
        },
        RustmoteError::RelayHealthCheckFailed => {
            "relay health check failed after update; rolled back to previous version"@
        },
        RustmoteError::DockerComposeV1Detected => {
            "docker compose v1 detected; rustmote requires v2 (the `docker compose` plugin)"@
        },
        RustmoteError::DockerEngineNotInstalled => {
            "docker engine not installed on the remote; re-run with --install-docker to let rustmote run the official install script (spec §6.11)"@
        },
        RustmoteError::RelayUnsupportedOs(x) => {
            "unsupported relay OS: "@ + x
                + ". Rustmote can bootstrap Debian, Ubuntu, and Arch automatically; install docker manually and re-run on anything else"@
        },
        RustmoteError::RelayForeignInstall(x) => {
            "relay install path "@ + x
                + " exists but is not a rustmote install (no .rustmote-state.toml); refusing to overwrite (spec §6.12)"@
        },
        RustmoteError::RelayUpdateNotConfirmed => {
            "refusing to run relay update in non-interactive mode without --yes (spec §5.1.3 step 4)"@
        },
        RustmoteError::InvalidRelayPath(x) => {
            "invalid relay remote path or argument: '"@ + x + "'"@
        },
        RustmoteError::InvalidImageRef(x) => "invalid docker image reference: '"@ + x + "'"@,
        RustmoteError::Io(x) => x,
    }
}

impl RustmoteError {
    /// The message that is shown to the user.
    pub fn message(&self) -> (out: String)
        ensures
            out@ == error_text(self@),
    {
        let mut out = String::new();
        match self {
            RustmoteError::ConfigNotFound(x) => {
                out.push_str("config file not found at ");
                out.push_str(x.as_str());
            },
            RustmoteError::UnknownServer(x) => {
                out.push_str("server '");
                out.push_str(x.as_str());
                out.push_str("' not in registry");
            },
            RustmoteError::ServerAlreadyExists(x) => {
                out.push_str("server '");
                out.push_str(x.as_str());
                out.push_str("' is already registered");
            },
            RustmoteError::UnknownTarget(x) => {
                out.push_str("target '");
                out.push_str(x.as_str());
                out.push_str("' not in registry");
            },
            RustmoteError::TargetAlreadyExists(x) => {
                out.push_str("target '");
                out.push_str(x.as_str());
                out.push_str("' is already registered");
            },
            RustmoteError::NoConfigDir => {
                out.push_str("could not resolve a config directory for the current platform");
            },
            RustmoteError::ConfigParse { path, source } => {
                out.push_str("failed to parse config file ");
                out.push_str(path.as_str());
                out.push_str(": ");
                out.push_str(source.as_str());
            },
            RustmoteError::ConfigSerialize(x) => {
                out.push_str("failed to serialize config: ");
                out.push_str(x.as_str());
            },
            RustmoteError::SshConnection(x) => {
                out.push_str("ssh connection failed: ");
                out.push_str(x.as_str());
            },
            RustmoteError::HostKeyMismatch { host, port, expected, actual } => {
                out.push_str("host key mismatch for ");
                out.push_str(host.as_str());
                out.push_str(":");
                out.push_str(text_decimal(*port as u64).as_str());
                out.push_str(" — pinned ");
                out.push_str(expected.as_str());
                out.push_str(", observed ");
                out.push_str(actual.as_str());
                out.push_str("; refusing to connect (spec §6.7). Remove the stale entry from known_hosts.toml only after verifying the new key out-of-band.");
            },
            RustmoteError::HostKeyUnknown { host, port } => {
                out.push_str("host key for ");
                out.push_str(host.as_str());
                out.push_str(":");
                out.push_str(text_decimal(*port as u64).as_str());
                out.push_str(" is not pinned and strict TOFU policy refuses first-use");
            },
            RustmoteError::SshAuthFailed { user, host, methods, last_error } => {
                out.push_str("ssh authentication failed for ");
                out.push_str(user.as_str());
                out.push_str("@");
                out.push_str(host.as_str());
                out.push_str("; tried ");
                out.push_str(methods.as_str());
                out.push_str(" (last error: ");
                out.push_str(last_error.as_str());
                out.push_str(")");
            },
            RustmoteError::NoSshKeyFound(x) => {
                out.push_str("no SSH private key found at any of: ");
                out.push_str(x.as_str());
            },
            RustmoteError::RemoteCommandFailed { command, exit_code, stderr } => {
                out.push_str("remote command '");
                out.push_str(command.as_str());
                out.push_str("' exited with status ");
                out.push_str(text_decimal(*exit_code as u64).as_str());
                out.push_str(": ");
                out.push_str(stderr.as_str());
            },
            RustmoteError::Credential(x) => {
                out.push_str("credential access failed: ");
                out.push_str(x.as_str());
            },
            RustmoteError::ViewerNotFound => {
                out.push_str("viewer binary not found; install RustDesk or set viewer_path");
            },
            RustmoteError::InvalidTargetId(x) => {
                out.push_str("invalid RustDesk target id '");
                out.push_str(x.as_str());
                out.push_str("'; expected 9 or 10 ASCII digits (spec §3.5)");
            },
            RustmoteError::InvalidServerName(x) => {
                out.push_str("invalid server name '");
                out.push_str(x.as_str());
                out.push_str("'; expected 1-64 chars matching [a-zA-Z0-9_-] (spec §6.4)");
            },
            RustmoteError::DiscoveryNoInterface => {
                out.push_str("no non-loopback IPv4 interface with a CIDR prefix found for discovery auto-detect");
            },
            RustmoteError::UnsafeModeNotAcknowledged => {
                out.push_str("unsafe mode requires explicit acknowledgment flag");
            },
            RustmoteError::InsecureCredentialsFile(x) => {
                out.push_str("credentials file has insecure permissions: ");
                out.push_str(text_octal(*x as u64).as_str());
                out.push_str(" (expected 600)");
            },
            RustmoteError::UnsafeModeUnsupportedOnPlatform => {
                out.push_str("unsafe credential mode is not supported on this platform yet; use `keychain` mode instead");
            },
            RustmoteError::NoStoredCredential { server, user } => {
                out.push_str("no stored credential for ");
                out.push_str(user.as_str());
                out.push_str("@");
                out.push_str(server.as_str());
            },
            RustmoteError::RegistryApi(x) => {
                out.push_str("docker hub api error: ");
                out.push_str(x.as_str());
            },
            RustmoteError::RelayNotInstalled(x) => {
                out.push_str("relay not installed on server '");
                out.push_str(x.as_str());
                out.push_str("'; run `rustmote relay bootstrap` first");
            },
            RustmoteError::RelayAlreadyInstalled(x) => {
                out.push_str("relay already installed at ");
                out.push_str(x.as_str());
                out.push_str("; remove it or use a different path");
            },
            RustmoteError::RelayHealthCheckFailed => {
                out.push_str("relay health check failed after update; rolled back to previous version");
            },
            RustmoteError::DockerComposeV1Detected => {
                out.push_str("docker compose v1 detected; rustmote requires v2 (the `docker compose` plugin)");
            },
            RustmoteError::DockerEngineNotInstalled => {
                out.push_str("docker engine not installed on the remote; re-run with --install-docker to let rustmote run the official install script (spec §6.11)");
            },
            RustmoteError::RelayUnsupportedOs(x) => {
                out.push_str("unsupported relay OS: ");
                out.push_str(x.as_str());
                out.push_str(". Rustmote can bootstrap Debian, Ubuntu, and Arch automatically; install docker manually and re-run on anything else");
            },
            RustmoteError::RelayForeignInstall(x) => {
                out.push_str("relay install path ");
                out.push_str(x.as_str());
                out.push_str(" exists but is not a rustmote install (no .rustmote-state.toml); refusing to overwrite (spec §6.12)");
            },
            RustmoteError::RelayUpdateNotConfirmed => {
                out.push_str("refusing to run relay update in non-interactive mode without --yes (spec §5.1.3 step 4)");
            },
            RustmoteError::InvalidRelayPath(x) => {
                out.push_str("invalid relay remote path or argument: '");
                out.push_str(x.as_str());
                out.push_str("'");
            },
            RustmoteError::InvalidImageRef(x) => {
                out.push_str("invalid docker image reference: '");
                out.push_str(x.as_str());
                out.push_str("'");
            },
            RustmoteError::Io(x) => {
                out.push_str(x.as_str());
            },
        }
        assert(out@ =~= error_text(self@));
        out
    }
}

/// What is said of a failure names each part of it in its place: whose key differs and how, who
/// could not log in where and why, which command failed and how, for whom no password is kept, and
/// which file does not parse and why.
pub proof fn messages_name_their_parts(e: &RustmoteError, r: String)
    requires
        call_ensures(RustmoteError::message, (e,), r),
    ensures
        match e {
            RustmoteError::HostKeyMismatch { host, port, expected, actual } => starts_with(
                r@,
                "host key mismatch for "@ + host@ + ":"@ + decimal(*port as nat) + " — pinned "@
                    + expected@ + ", observed "@ + actual@,
            ),
            RustmoteError::SshAuthFailed { user, host, methods, last_error } => r@
                == "ssh authentication failed for "@ + user@ + "@"@ + host@ + "; tried "@ + methods@
                + " (last error: "@ + last_error@ + ")"@,
            RustmoteError::RemoteCommandFailed { command, exit_code, stderr } => r@
                == "remote command '"@ + command@ + "' exited with status "@ + decimal(
                *exit_code as nat,
            ) + ": "@ + stderr@,
            RustmoteError::NoStoredCredential { server, user } => r@ == "no stored credential for "@
                + user@ + "@"@ + server@,
            RustmoteError::ConfigParse { path, source } => r@ == "failed to parse config file "@
                + path@ + ": "@ + source@,
            _ => true,
        },
{
    if let RustmoteError::HostKeyMismatch { host, port, expected, actual } = e {
        let said = "host key mismatch for "@ + host@ + ":"@ + decimal(*port as nat) + " — pinned "@
            + expected@ + ", observed "@ + actual@;
        assert(r@.take(said.len() as int) =~= said);
    }
}

} // verus!
