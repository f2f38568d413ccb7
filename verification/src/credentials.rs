//! Where passwords come from: the user, the platform's keyring, or a file.
use crate::config::Config;
use crate::error::{outcome, ErrorView, RustmoteError};
use crate::text::{
    concat3, is_whitespace, lemma_first_of, lower_all, split_once, text_eq, text_lower,
    text_split_once, text_trim, trim,
};
use crate::textmap::TextMap;
use std::sync::Arc;
use vstd::prelude::*;

verus! {

/// The service under which the keyring keeps passwords.
pub const KEYRING_SERVICE: &'static str = "rustmote";

/// Where passwords come from.
#[derive(Debug, Clone, Copy, PartialEq, Eq, Structural)]
pub enum CredentialMode {
    /// The user types them each time.
    Prompt,
    /// The platform's keyring keeps them.
    Keychain,
    /// A file keeps them as they are.
    Unsafe,
}

impl Default for CredentialMode {
    fn default() -> (r: CredentialMode)
        ensures
            r == CredentialMode::Prompt,
    {
        CredentialMode::Prompt
    }
}

/// The name of a mode.
pub open spec fn mode_name(mode: CredentialMode) -> Seq<char> {
    match mode {
        CredentialMode::Prompt => "prompt"@,
        CredentialMode::Keychain => "keychain"@,
        CredentialMode::Unsafe => "unsafe"@,
    }
}

/// A text that names no mode, in lower case.
#[derive(Debug, PartialEq, Eq)]
pub struct UnknownCredentialMode(pub String);

/// What is said of a text that names no mode.
pub open spec fn unknown_mode_text(text: Seq<char>) -> Seq<char> {
    "unknown credential mode '"@ + text + "'; expected one of: prompt | keychain | unsafe"@
}

impl UnknownCredentialMode {
    /// The message that is shown to the user.
    pub fn message(&self) -> (r: String)
        ensures
            r@ == unknown_mode_text(self.0@),
    {
        concat3(
            "unknown credential mode '",
            self.0.as_str(),
            "'; expected one of: prompt | keychain | unsafe",
        )
    }
}

/// The text by which a mode is looked up: without white space round it, in lower case.
pub open spec fn mode_key(s: Seq<char>) -> Seq<char> {
    lower_all(trim(s))
}

impl CredentialMode {
    /// The name of a mode.
    pub fn as_str(self) -> (r: &'static str)
        ensures
            r@ == mode_name(self),
    {
        match self {
            CredentialMode::Prompt => "prompt",
            CredentialMode::Keychain => "keychain",
            CredentialMode::Unsafe => "unsafe",
        }
    }

    /// The mode that a text names. Case and white space round it do not matter.
    pub fn parse(s: &str) -> (r: Result<CredentialMode, UnknownCredentialMode>)
        ensures
            match r {
                Ok(mode) => mode_key(s@) == mode_name(mode),
                Err(e) => e.0@ == mode_key(s@) && forall|mode: CredentialMode|
                    mode_key(s@) != #[trigger] mode_name(mode),
            },
    {
        let key = text_lower(text_trim(s).as_str());
        if text_eq(key.as_str(), "prompt") {
            Ok(CredentialMode::Prompt)
        } else if text_eq(key.as_str(), "keychain") {
            Ok(CredentialMode::Keychain)
        } else if text_eq(key.as_str(), "unsafe") {
            Ok(CredentialMode::Unsafe)
        } else {
            Err(UnknownCredentialMode(key))
        }
    }
}

impl std::str::FromStr for CredentialMode {
    type Err = UnknownCredentialMode;

    fn from_str(s: &str) -> (r: Result<CredentialMode, UnknownCredentialMode>)
        ensures
            match r {
                Ok(mode) => mode_key(s@) == mode_name(mode),
                Err(e) => e.0@ == mode_key(s@) && forall|mode: CredentialMode|
                    mode_key(s@) != #[trigger] mode_name(mode),
            },
    {
        CredentialMode::parse(s)
    }
}

// ---------------------------------------------------------------------------------------------
// Accounts
// ---------------------------------------------------------------------------------------------

/// The account under which the password of a user on a server is kept.
pub open spec fn account_of(server: Seq<char>, user: Seq<char>) -> Seq<char> {
    server + ":"@ + user
}

/// The account under which the password of a user on a server is kept.
pub fn keyring_account(server: &str, user: &str) -> (r: String)
    ensures
        r@ == account_of(server@, user@),
{
    concat3(server, ":", user)
}

/// The server of an account: what stands before its first colon, or all of it.
pub open spec fn server_of(account: Seq<char>) -> Seq<char> {
    match split_once(account, ':') {
        Some((server, _)) => server,
        None => account,
    }
}

/// The user of an account: what stands behind its first colon, or nothing.
pub open spec fn user_of(account: Seq<char>) -> Seq<char> {
    match split_once(account, ':') {
        Some((_, user)) => user,
        None => seq![],
    }
}

/// The server of an account.
pub fn split_account_server(account: &str) -> (r: String)
    ensures
        r@ == server_of(account@),
{
    match text_split_once(account, ':') {
        Some((server, _)) => server,
        None => account.to_owned(),
    }
}

/// The user of an account.
pub fn split_account_user(account: &str) -> (r: String)
    ensures
        r@ == user_of(account@),
{
    match text_split_once(account, ':') {
        Some((_, user)) => user,
        None => String::new(),
    }
}

/// Whether a text has no colon.
pub open spec fn no_colon(s: Seq<char>) -> bool {
    forall|i: int| 0 <= i < s.len() ==> #[trigger] s[i] != ':'
}

/// Splitting an account gives server and user back, where the server's name has no colon.
pub proof fn accounts_split_again(server: Seq<char>, user: Seq<char>)
    requires
        no_colon(server),
    ensures
        server_of(account_of(server, user)) == server,
        user_of(account_of(server, user)) == user,
{
    reveal_strlit(":");
    let account = account_of(server, user);
    assert(account[server.len() as int] == ':');
    assert forall|j: int| 0 <= j < server.len() implies account[j] != ':' by {
        assert(account[j] == server[j]);
    }
    lemma_first_of(account, ':', server.len());
    assert(account.take(server.len() as int) =~= server);
    assert(account.skip(server.len() as int + 1) =~= user);
}

// ---------------------------------------------------------------------------------------------
// The keyring
// ---------------------------------------------------------------------------------------------

/// A keyring. Nothing is promised of what an implementation gives back.
pub trait KeyringBackend: Send + Sync {
    /// The password of an account, or `NoStoredCredential` where there is none.
    fn get(&self, service: &str, account: &str) -> (r: Result<String, RustmoteError>);

    /// Keeps a password for an account, in place of the one it had.
    fn set(&self, service: &str, account: &str, password: &str) -> (r: Result<(), RustmoteError>);

    /// Forgets the password of an account; that there is none is no failure.
    fn delete(&self, service: &str, account: &str) -> (r: Result<(), RustmoteError>);
}

/// What the platform's keyring replied.
#[derive(Debug, PartialEq, Eq)]
pub enum KeyringReply<V, T = String> {
    Value(V),
    /// It has no such entry.
    NoEntry,
    /// It failed, for this reason.
    Failed(T),
}

/// The view of a keyring's reply to a request for a password.
pub open spec fn reply_view(reply: KeyringReply<String>) -> KeyringReply<Seq<char>, Seq<char>> {
    match reply {
        KeyringReply::Value(password) => KeyringReply::Value(password@),
        KeyringReply::NoEntry => KeyringReply::NoEntry,
        KeyringReply::Failed(reason) => KeyringReply::Failed(reason@),
    }
}

/// The password that a keyring's reply to a request for an account holds, or why there is none.
pub open spec fn keyring_outcome(
    account: Seq<char>,
    reply: KeyringReply<Seq<char>, Seq<char>>,
) -> Result<Seq<char>, ErrorView> {
    match reply {
        KeyringReply::Value(password) => Ok(password),
        KeyringReply::NoEntry => Err(
            RustmoteError::NoStoredCredential {
                server: server_of(account),
                user: user_of(account),
            },
        ),
        KeyringReply::Failed(reason) => Err(RustmoteError::Credential(reason)),
    }
}

/// The password that the platform's keyring replied with, or why there is none.
pub fn password_from_keyring(account: &str, reply: KeyringReply<String>) -> (r: Result<
    String,
    RustmoteError,
>)
    ensures
        outcome(r) == keyring_outcome(account@, reply_view(reply)),
{
    match reply {
        KeyringReply::Value(password) => Ok(password),
        KeyringReply::NoEntry => Err(
            RustmoteError::NoStoredCredential {
                server: split_account_server(account),
                user: split_account_user(account),
            },
        ),
        KeyringReply::Failed(reason) => Err(RustmoteError::Credential(reason)),
    }
}

/// Whether a password was deleted from the platform's keyring; one that was not there counts as
/// deleted.
pub fn deleted_from_keyring(reply: KeyringReply<()>) -> (r: Result<(), RustmoteError>)
    ensures
        match reply {
            KeyringReply::Failed(reason) => r matches Err(e) && e@ == RustmoteError::Credential(
                reason@,
            ),
            _ => r is Ok,
        },
{
    match reply {
        KeyringReply::Failed(reason) => Err(RustmoteError::Credential(reason)),
        _ => Ok(()),
    }
}

// ---------------------------------------------------------------------------------------------
// The credentials file
// ---------------------------------------------------------------------------------------------

/// The passwords of the credentials file, by account.
#[derive(Debug, PartialEq, Eq)]
pub struct UnsafeFile {
    pub passwords: TextMap<String>,
}

impl View for UnsafeFile {
    type V = Map<Seq<char>, Seq<char>>;

    open spec fn view(&self) -> Map<Seq<char>, Seq<char>> {
        self.passwords@
    }
}

impl Default for UnsafeFile {
    fn default() -> (r: UnsafeFile)
        ensures
            r@ == Map::<Seq<char>, Seq<char>>::empty(),
    {
        UnsafeFile { passwords: TextMap::new() }
    }
}

/// The password that is kept for a user on a server, or why there is none.
pub open spec fn stored_password(
    passwords: Map<Seq<char>, Seq<char>>,
    server: Seq<char>,
    user: Seq<char>,
) -> Result<Seq<char>, ErrorView> {
    if passwords.dom().contains(account_of(server, user)) {
        Ok(passwords[account_of(server, user)])
    } else {
        Err(RustmoteError::NoStoredCredential { server, user })
    }
}

impl UnsafeFile {
    /// The password that is kept for a user on a server.
    pub fn password_for(&self, server: &str, user: &str) -> (r: Result<String, RustmoteError>)
        ensures
            outcome(r) == stored_password(self@, server@, user@),
    {
        match self.passwords.get(keyring_account(server, user).as_str()) {
            Some(password) => Ok(password.clone()),
            None => Err(
                RustmoteError::NoStoredCredential {
                    server: server.to_owned(),
                    user: user.to_owned(),
                },
            ),
        }
    }

    /// Keeps a password for a user on a server.
    pub fn set(&mut self, server: &str, user: &str, password: &str)
        ensures
            final(self)@ == old(self)@.insert(account_of(server@, user@), password@),
    {
        self.passwords.insert(keyring_account(server, user), password.to_owned());
    }

    /// Forgets the password of a user on a server.
    pub fn delete(&mut self, server: &str, user: &str)
        ensures
            final(self)@ == old(self)@.remove(account_of(server@, user@)),
    {
        let _ = self.passwords.remove(keyring_account(server, user).as_str());
    }
}

/// A password that is kept is given back, one that is deleted is not there any more, and the
/// passwords of other accounts stay as they are.
pub proof fn stored_passwords_are_given_back(
    passwords: Map<Seq<char>, Seq<char>>,
    server: Seq<char>,
    user: Seq<char>,
    password: Seq<char>,
    other_server: Seq<char>,
    other_user: Seq<char>,
)
    ensures
        ({
            let account = account_of(server, user);
            let kept = passwords.insert(account, password);
            let gone = passwords.remove(account);
            &&& stored_password(kept, server, user) == Ok::<Seq<char>, ErrorView>(password)
            &&& stored_password(gone, server, user) == Err::<Seq<char>, ErrorView>(
                RustmoteError::NoStoredCredential { server, user },
            )
            &&& account != account_of(other_server, other_user) ==> stored_password(
                kept,
                other_server,
                other_user,
            ) == stored_password(passwords, other_server, other_user) && stored_password(
                gone,
                other_server,
                other_user,
            ) == stored_password(passwords, other_server, other_user)
        }),
{
}

/// Users on servers whose names have no colon share no account.
pub proof fn accounts_are_distinct(
    server: Seq<char>,
    user: Seq<char>,
    other_server: Seq<char>,
    other_user: Seq<char>,
)
    requires
        no_colon(server),
        no_colon(other_server),
        (server, user) != (other_server, other_user),
    ensures
        account_of(server, user) != account_of(other_server, other_user),
{
    accounts_split_again(server, user);
    accounts_split_again(other_server, other_user);
}

// ---------------------------------------------------------------------------------------------
// What is kept over time
// ---------------------------------------------------------------------------------------------

/// A request to keep or forget a password.
pub enum PasswordOp {
    Keep { server: Seq<char>, user: Seq<char>, password: Seq<char> },
    Forget { server: Seq<char>, user: Seq<char> },
}

/// The account that a request is about.
pub open spec fn op_account(op: PasswordOp) -> Seq<char> {
    match op {
        PasswordOp::Keep { server, user, .. } => account_of(server, user),
        PasswordOp::Forget { server, user } => account_of(server, user),
    }
}

/// The passwords by account after a request that was met: what `set` and `delete` make of the
/// credentials file, and what a keyring that keeps what it is told holds.
pub open spec fn passwords_after(
    passwords: Map<Seq<char>, Seq<char>>,
    op: PasswordOp,
) -> Map<Seq<char>, Seq<char>> {
    match op {
        PasswordOp::Keep { server, user, password } => passwords.insert(
            account_of(server, user),
            password,
        ),
        PasswordOp::Forget { server, user } => passwords.remove(account_of(server, user)),
    }
}

/// The passwords by account after some requests that were met.
pub open spec fn passwords_after_all(
    passwords: Map<Seq<char>, Seq<char>>,
    ops: Seq<PasswordOp>,
) -> Map<Seq<char>, Seq<char>>
    decreases ops.len(),
{
    if ops.len() == 0 {
        passwords
    } else {
        passwords_after(passwords_after_all(passwords, ops.drop_last()), ops.last())
    }
}

/// Whether no request is about an account.
pub open spec fn leaves_alone(ops: Seq<PasswordOp>, account: Seq<char>) -> bool {
    forall|i: int| 0 <= i < ops.len() ==> op_account(#[trigger] ops[i]) != account
}

/// What is read of the reply of a keyring that holds some passwords, when it is asked for the
/// account of a user on a server.
pub open spec fn keyring_password(
    passwords: Map<Seq<char>, Seq<char>>,
    server: Seq<char>,
    user: Seq<char>,
) -> Result<Seq<char>, ErrorView> {
    let account = account_of(server, user);
    keyring_outcome(
        account,
        if passwords.dom().contains(account) {
            KeyringReply::Value(passwords[account])
        } else {
            KeyringReply::NoEntry
        },
    )
}

proof fn lemma_left_alone(
    passwords: Map<Seq<char>, Seq<char>>,
    ops: Seq<PasswordOp>,
    account: Seq<char>,
)
    requires
        leaves_alone(ops, account),
    ensures
        passwords_after_all(passwords, ops).dom().contains(account) == passwords.dom().contains(
            account,
        ),
        passwords.dom().contains(account) ==> passwords_after_all(passwords, ops)[account]
            == passwords[account],
    decreases ops.len(),
{
    if ops.len() > 0 {
        let before = ops.drop_last();
        assert forall|i: int| 0 <= i < before.len() implies op_account(#[trigger] before[i])
            != account by {
            assert(before[i] == ops[i]);
        }
        lemma_left_alone(passwords, before, account);
        assert(op_account(ops[ops.len() - 1]) != account);
    }
}

/// Whatever is kept and forgotten for other accounts, a password stays what it was, and one that is
/// not there stays away.
pub proof fn other_accounts_keep_their_passwords(
    passwords: Map<Seq<char>, Seq<char>>,
    ops: Seq<PasswordOp>,
    server: Seq<char>,
    user: Seq<char>,
)
    requires
        leaves_alone(ops, account_of(server, user)),
    ensures
        stored_password(passwords_after_all(passwords, ops), server, user) == stored_password(
            passwords,
            server,
            user,
        ),
        keyring_password(passwords_after_all(passwords, ops), server, user) == keyring_password(
            passwords,
            server,
            user,
        ),
{
    lemma_left_alone(passwords, ops, account_of(server, user));
}

/// The last word on an account counts, whatever is kept and forgotten for others after it. A
/// password that was kept is given back, by the credentials file as by a keyring that keeps what it
/// is told. One that was forgotten is not there, be it that it was never kept: the file says so of
/// the server and the user, and the keyring says so of what its account splits into, which are the
/// same where the server's name has no colon.
pub proof fn last_word_on_a_password_counts(
    passwords: Map<Seq<char>, Seq<char>>,
    earlier: Seq<PasswordOp>,
    later: Seq<PasswordOp>,
    server: Seq<char>,
    user: Seq<char>,
    password: Seq<char>,
)
    requires
        leaves_alone(later, account_of(server, user)),
    ensures
        ({
            let before = passwords_after_all(passwords, earlier);
            let kept = passwords_after_all(
                passwords_after(before, PasswordOp::Keep { server, user, password }),
                later,
            );
            let gone = passwords_after_all(
                passwords_after(before, PasswordOp::Forget { server, user }),
                later,
            );
            let account = account_of(server, user);
            &&& stored_password(kept, server, user) == Ok::<Seq<char>, ErrorView>(password)
            &&& keyring_password(kept, server, user) == Ok::<Seq<char>, ErrorView>(password)
            &&& stored_password(gone, server, user) == Err::<Seq<char>, ErrorView>(
                RustmoteError::NoStoredCredential { server, user },
            )
            &&& keyring_password(gone, server, user) == Err::<Seq<char>, ErrorView>(
                RustmoteError::NoStoredCredential {
                    server: server_of(account),
                    user: user_of(account),
                },
            )
            &&& no_colon(server) ==> keyring_password(gone, server, user) == stored_password(
                gone,
                server,
                user,
            )
        }),
{
    let before = passwords_after_all(passwords, earlier);
    let account = account_of(server, user);
    lemma_left_alone(
        passwords_after(before, PasswordOp::Keep { server, user, password }),
        later,
        account,
    );
    lemma_left_alone(
        passwords_after(before, PasswordOp::Forget { server, user }),
        later,
        account,
    );
    if no_colon(server) {
        accounts_split_again(server, user);
    }
}

/// What the system says of the credentials file.
#[derive(Debug, PartialEq, Eq)]
pub enum FileMode {
    /// It is not there.
    Missing,
    /// It is there, with these permission bits and maybe others.
    Bits(u32),
    /// The system does not say, for this reason.
    Unreadable(String),
    /// The system has no such bits.
    Unsupported,
}

/// Tests whether only the owner may read and write the credentials file. One that is not there
/// passes.
pub fn check_unsafe_permissions(mode: FileMode) -> (r: Result<(), RustmoteError>)
    ensures
        match mode {
            FileMode::Missing => r is Ok,
            FileMode::Bits(bits) => if bits & 0o777 == 0o600 {
                r is Ok
            } else {
                r matches Err(e) && e@ == RustmoteError::<Seq<char>>::InsecureCredentialsFile(
                    bits & 0o777,
                )
            },
            FileMode::Unreadable(reason) => r matches Err(e) && e@ == RustmoteError::Io(reason@),
            FileMode::Unsupported => r matches Err(e) && e@ == RustmoteError::<
                Seq<char>,
            >::UnsafeModeUnsupportedOnPlatform,
        },
{
    match mode {
        FileMode::Missing => Ok(()),
        FileMode::Bits(bits) => {
            let own: u32 = bits & 0o777;
            if own == 0o600 {
                Ok(())
            } else {
                Err(RustmoteError::InsecureCredentialsFile(own))
            }
        },
        FileMode::Unreadable(reason) => Err(RustmoteError::Io(reason)),
        FileMode::Unsupported => Err(RustmoteError::UnsafeModeUnsupportedOnPlatform),
    }
}

// ---------------------------------------------------------------------------------------------
// The store
// ---------------------------------------------------------------------------------------------

/// Where the passwords of one operation come from.
pub enum CredentialStore<K> {
    /// The user.
    Prompt,
    /// A keyring.
    Keychain(Arc<K>),
    /// The credentials file at a path.
    Unsafe { path: String },
}

/// What becomes of a request for a password.
#[derive(Debug, PartialEq, Eq)]
pub enum PasswordRequest {
    /// The user is to be asked, with this message.
    Ask(String),
    /// This came of it.
    Done(Result<String, RustmoteError>),
    /// The credentials file at this path says.
    LookIn(String),
}

/// What becomes of a request to keep or forget a password.
#[derive(Debug, PartialEq, Eq)]
pub enum PasswordChange {
    /// This came of it.
    Done(Result<(), RustmoteError>),
    /// The credentials file at this path is to be changed.
    ChangeIn(String),
}

/// The message with which the user is asked for a password.
pub open spec fn password_prompt(server: Seq<char>, user: Seq<char>) -> Seq<char> {
    "Password for "@ + user + "@"@ + server + ": "@
}

impl<K> CredentialStore<K> {
    /// The user is asked.
    pub fn prompt() -> (r: CredentialStore<K>)
        ensures
            r == CredentialStore::<K>::Prompt,
    {
        CredentialStore::Prompt
    }

    /// A keyring keeps the passwords.
    pub fn with_keyring(backend: K) -> (r: CredentialStore<K>)
        ensures
            r matches CredentialStore::Keychain(shared) && *shared == backend,
    {
        CredentialStore::Keychain(Arc::new(backend))
    }

    /// A keyring that others use too keeps the passwords.
    pub fn with_shared_keyring(backend: Arc<K>) -> (r: CredentialStore<K>)
        ensures
            r == CredentialStore::Keychain(backend),
    {
        CredentialStore::Keychain(backend)
    }

    /// A file keeps the passwords.
    pub fn with_unsafe_file(path: &str) -> (r: CredentialStore<K>)
        ensures
            r matches CredentialStore::Unsafe { path: p } && p@ == path@,
    {
        CredentialStore::Unsafe { path: path.to_owned() }
    }

    /// The store of a mode, with the given keyring and the credentials file at the given path.
    /// Where there is no such path, only the unsafe mode fails.
    pub fn from_mode(
        mode: CredentialMode,
        keyring: K,
        credentials_path: Result<String, RustmoteError>,
    ) -> (r: Result<CredentialStore<K>, RustmoteError>)
        ensures
            match mode {
                CredentialMode::Prompt => r matches Ok(CredentialStore::Prompt),
                CredentialMode::Keychain => r matches Ok(CredentialStore::Keychain(shared))
                    && *shared == keyring,
                CredentialMode::Unsafe => match credentials_path {
                    Ok(p) => r matches Ok(CredentialStore::Unsafe { path }) && path == p,
                    Err(e) => r matches Err(x) && x == e,
                },
            },
    {
        match mode {
            CredentialMode::Prompt => Ok(CredentialStore::Prompt),
            CredentialMode::Keychain => Ok(CredentialStore::with_keyring(keyring)),
            CredentialMode::Unsafe => match credentials_path {
                Ok(path) => Ok(CredentialStore::Unsafe { path }),
                Err(e) => Err(e),
            },
        }
    }

    /// The store of the mode that a configuration names.
    pub fn from_config(
        cfg: &Config,
        keyring: K,
        credentials_path: Result<String, RustmoteError>,
    ) -> (r: Result<CredentialStore<K>, RustmoteError>)
        ensures
            match cfg.general.credential_mode {
                CredentialMode::Prompt => r matches Ok(CredentialStore::Prompt),
                CredentialMode::Keychain => r matches Ok(CredentialStore::Keychain(shared))
                    && *shared == keyring,
                CredentialMode::Unsafe => match credentials_path {
                    Ok(p) => r matches Ok(CredentialStore::Unsafe { path }) && path == p,
                    Err(e) => r matches Err(x) && x == e,
                },
            },
    {
        CredentialStore::from_mode(cfg.general.credential_mode, keyring, credentials_path)
    }
}

impl<K: KeyringBackend> CredentialStore<K> {
    /// Gets the password of a user on a server: from the keyring at once; else it says whom to ask
    /// or where to look. The keyring is asked for the account of server and user, under this
    /// program's service.
    pub fn get_password(&self, server: &str, user: &str) -> (r: PasswordRequest)
        ensures
            match *self {
                CredentialStore::Prompt => r matches PasswordRequest::Ask(message) && message@
                    == password_prompt(server@, user@),
                CredentialStore::Keychain(keyring) => r matches PasswordRequest::Done(found)
                    && exists|service: &str, account: &str|
                    service@ == KEYRING_SERVICE@ && account@ == account_of(server@, user@)
                        && #[trigger] call_ensures(K::get, (&*keyring, service, account), found),
                CredentialStore::Unsafe { path } => r matches PasswordRequest::LookIn(p) && p@
                    == path@,
            },
    {
        match self {
            CredentialStore::Prompt => {
                let mut message = concat3("Password for ", user, "@");
                message.push_str(server);
                message.push_str(": ");
                PasswordRequest::Ask(message)
            },
            CredentialStore::Keychain(keyring) => {
                let account = keyring_account(server, user);
                let found = keyring.get(KEYRING_SERVICE, account.as_str());
                PasswordRequest::Done(found)
            },
            CredentialStore::Unsafe { path } => PasswordRequest::LookIn(path.clone()),
        }
    }

    /// Keeps the password of a user on a server. Where the user is asked each time, nothing is kept
    /// and nothing fails.
    pub fn set_password(&self, server: &str, user: &str, password: &str) -> (r: PasswordChange)
        ensures
            match *self {
                CredentialStore::Prompt => r matches PasswordChange::Done(Ok(_)),
                CredentialStore::Keychain(keyring) => r matches PasswordChange::Done(done)
                    && exists|service: &str, account: &str|
                    service@ == KEYRING_SERVICE@ && account@ == account_of(server@, user@)
                        && #[trigger] call_ensures(
                        K::set,
                        (&*keyring, service, account, password),
                        done,
                    ),
                CredentialStore::Unsafe { path } => r matches PasswordChange::ChangeIn(p) && p@
                    == path@,
            },
    {
        match self {
            CredentialStore::Prompt => PasswordChange::Done(Ok(())),
            CredentialStore::Keychain(keyring) => {
                let account = keyring_account(server, user);
                let done = keyring.set(KEYRING_SERVICE, account.as_str(), password);
                PasswordChange::Done(done)
            },
            CredentialStore::Unsafe { path } => PasswordChange::ChangeIn(path.clone()),
        }
    }

    /// Forgets the password of a user on a server. Where the user is asked each time, there is
    /// nothing to forget and nothing fails.
    pub fn delete_password(&self, server: &str, user: &str) -> (r: PasswordChange)
        ensures
            match *self {
                CredentialStore::Prompt => r matches PasswordChange::Done(Ok(_)),
                CredentialStore::Keychain(keyring) => r matches PasswordChange::Done(done)
                    && exists|service: &str, account: &str|
                    service@ == KEYRING_SERVICE@ && account@ == account_of(server@, user@)
                        && #[trigger] call_ensures(K::delete, (&*keyring, service, account), done),
                CredentialStore::Unsafe { path } => r matches PasswordChange::ChangeIn(p) && p@
                    == path@,
            },
    {
        match self {
            CredentialStore::Prompt => PasswordChange::Done(Ok(())),
            CredentialStore::Keychain(keyring) => {
                let account = keyring_account(server, user);
                let done = keyring.delete(KEYRING_SERVICE, account.as_str());
                PasswordChange::Done(done)
            },
            CredentialStore::Unsafe { path } => PasswordChange::ChangeIn(path.clone()),
        }
    }
}

/// Every mode is found again under its name.
pub proof fn mode_names_are_read_back(mode: CredentialMode)
    ensures
        mode_key(mode_name(mode)) == mode_name(mode),
        forall|other: CredentialMode| #[trigger] mode_name(other) == mode_name(mode) ==> other
            == mode,
{
    reveal_strlit("prompt");
    reveal_strlit("keychain");
    reveal_strlit("unsafe");
    let name = mode_name(mode);
    assert(!is_whitespace(name[0]));
    assert(!is_whitespace(name.last()));
    assert(trim(name) == name);
    assert(lower_all(name) =~= name);
    assert forall|other: CredentialMode| #[trigger] mode_name(other) == name implies other
        == mode by {
        assert("prompt"@[0] == 'p' && "keychain"@[0] == 'k' && "unsafe"@[0] == 'u');
        assert(mode_name(other)[0] == name[0]);
    }
}

/// A request for a password goes to the user, who is asked for the user on the server; or to the
/// keyring, for the account that has the server before its colon and the user behind it; or to the
/// credentials file of the store.
pub proof fn passwords_are_asked_of_the_store<K: KeyringBackend>(
    store: &CredentialStore<K>,
    server: &str,
    user: &str,
    r: PasswordRequest,
)
    requires
        call_ensures(CredentialStore::<K>::get_password, (store, server, user), r),
    ensures
        *store is Prompt ==> (r matches PasswordRequest::Ask(message) && message@
            == "Password for "@ + user@ + "@"@ + server@ + ": "@),
        *store matches CredentialStore::Keychain(keyring) ==> (r matches PasswordRequest::Done(
            found,
        ) && exists|service: &str, account: &str|
            service@ == "rustmote"@ && account@ == server@ + ":"@ + user@
                && #[trigger] call_ensures(K::get, (&*keyring, service, account), found)),
        *store matches CredentialStore::Unsafe { path } ==> (r matches PasswordRequest::LookIn(p)
            && p@ == path@),
{
}

/// To keep a password is to hand it to the keyring, for the account of the server and the user, or
/// to change the credentials file of the store; with a store that asks each time nothing is kept.
pub proof fn passwords_are_kept_by_the_store<K: KeyringBackend>(
    store: &CredentialStore<K>,
    server: &str,
    user: &str,
    password: &str,
    r: PasswordChange,
)
    requires
        call_ensures(CredentialStore::<K>::set_password, (store, server, user, password), r),
    ensures
        *store is Prompt ==> (r matches PasswordChange::Done(done) && done is Ok),
        *store matches CredentialStore::Keychain(keyring) ==> (r matches PasswordChange::Done(done)
            && exists|service: &str, account: &str|
            service@ == "rustmote"@ && account@ == server@ + ":"@ + user@
                && #[trigger] call_ensures(K::set, (&*keyring, service, account, password), done)),
        *store matches CredentialStore::Unsafe { path } ==> (r matches PasswordChange::ChangeIn(p)
            && p@ == path@),
{
}

/// To forget a password is to delete the account of the server and the user from the keyring, or to
/// change the credentials file of the store; with a store that asks each time there is none.
pub proof fn passwords_are_forgotten_by_the_store<K: KeyringBackend>(
    store: &CredentialStore<K>,
    server: &str,
    user: &str,
    r: PasswordChange,
)
    requires
        call_ensures(CredentialStore::<K>::delete_password, (store, server, user), r),
    ensures
        *store is Prompt ==> (r matches PasswordChange::Done(done) && done is Ok),
        *store matches CredentialStore::Keychain(keyring) ==> (r matches PasswordChange::Done(done)
            && exists|service: &str, account: &str|
            service@ == "rustmote"@ && account@ == server@ + ":"@ + user@
                && #[trigger] call_ensures(K::delete, (&*keyring, service, account), done)),
        *store matches CredentialStore::Unsafe { path } ==> (r matches PasswordChange::ChangeIn(p)
            && p@ == path@),
{
}

/// What is missing in a keyring or in the credentials file is reported for the server and the user
/// that were asked for.
pub proof fn missing_passwords_name_server_and_user(
    server: &str,
    user: &str,
    account: &str,
    reply: KeyringReply<String>,
    from_keyring: Result<String, RustmoteError>,
    file: &UnsafeFile,
    from_file: Result<String, RustmoteError>,
)
    requires
        no_colon(server@),
        account@ == server@ + ":"@ + user@,
        call_ensures(password_from_keyring, (account, reply), from_keyring),
        call_ensures(UnsafeFile::password_for, (file, server, user), from_file),
    ensures
        reply is NoEntry ==> (from_keyring matches Err(e) && e@ == (
        RustmoteError::NoStoredCredential { server: server@, user: user@ })),
        reply matches KeyringReply::Value(password) ==> (from_keyring matches Ok(p) && p@
            == password@),
        reply is Failed ==> (from_keyring matches Err(e) && e is Credential),
        file@.dom().contains(account@) ==> (from_file matches Ok(p) && p@ == file@[account@]),
        !file@.dom().contains(account@) ==> (from_file matches Err(e) && e@ == (
        RustmoteError::NoStoredCredential { server: server@, user: user@ })),
{
    accounts_split_again(server@, user@);
}

/// A file with passwords is used only where its owner alone may read and write it; one that is not
/// there yet may be used, and where the system cannot tell it may not.
pub proof fn only_private_files_hold_passwords(mode: FileMode, r: Result<(), RustmoteError>)
    requires
        call_ensures(check_unsafe_permissions, (mode,), r),
    ensures
        r is Ok <==> mode is Missing || (mode matches FileMode::Bits(bits) && bits & 0o777 == 0o600),
        mode is Unsupported ==> (r matches Err(e) && e is UnsafeModeUnsupportedOnPlatform),
{
}

/// The store is that of the mode that the configuration names: the user, the keyring, or the
/// credentials file. That there is no place for the file matters only where it is needed.
pub proof fn stores_follow_the_configuration<K>(
    cfg: &Config,
    keyring: K,
    credentials_path: Result<String, RustmoteError>,
    r: Result<CredentialStore<K>, RustmoteError>,
)
    requires
        call_ensures(CredentialStore::<K>::from_config, (cfg, keyring, credentials_path), r),
    ensures
        ({
            let mode = cfg.general.credential_mode;
            &&& mode == CredentialMode::Prompt ==> r is Ok && r->Ok_0 is Prompt
            &&& mode == CredentialMode::Keychain ==> (r matches Ok(CredentialStore::Keychain(shared))
                && *shared == keyring)
            &&& mode == CredentialMode::Unsafe && credentials_path is Ok ==> (r matches Ok(
                CredentialStore::Unsafe { path },
            ) && path == credentials_path->Ok_0)
            &&& mode == CredentialMode::Unsafe && credentials_path is Err ==> r is Err
        }),
{
}

} // verus!
