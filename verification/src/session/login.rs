//! Logging in: which keys are tried, in which order, and what is said when none is accepted.
use crate::error::{ErrorView, RustmoteError};
use crate::path::{join_local, local_join, PathStyle};
use crate::text::{
    clone_all, concat, concat3, join, lemma_views_push, opt_clone, opt_str, opt_view, text_join,
    views,
};
use vstd::prelude::*;

verus! {

/// What a login may use.
#[derive(Debug, PartialEq, Eq)]
pub struct AuthMaterial {
    /// Private keys that are tried before those in the usual places.
    pub extra_key_paths: Vec<String>,
    /// The passphrase of encrypted keys.
    pub key_passphrase: Option<String>,
    /// The password; none is tried where there is none.
    pub password: Option<String>,
}

impl Default for AuthMaterial {
    fn default() -> (r: AuthMaterial)
        ensures
            r.extra_key_paths@ == Seq::<String>::empty(),
            r.key_passphrase is None,
            r.password is None,
    {
        AuthMaterial { extra_key_paths: Vec::new(), key_passphrase: None, password: None }
    }
}

/// The usual places of a private key below a home directory.
pub open spec fn usual_keys(style: PathStyle, home: Seq<char>) -> Seq<Seq<char>> {
    let dir = local_join(style, home, ".ssh"@);
    seq![local_join(style, dir, "id_ed25519"@), local_join(style, dir, "id_rsa"@)]
}

/// The private keys that are tried, in this order: the given ones, then those in the usual places.
pub open spec fn key_candidates(
    style: PathStyle,
    extras: Seq<Seq<char>>,
    home: Option<Seq<char>>,
) -> Seq<Seq<char>> {
    match home {
        Some(dir) => extras + usual_keys(style, dir),
        None => extras,
    }
}

/// The private keys that are tried.
pub fn default_key_paths(style: PathStyle, extras: &Vec<String>, home: Option<&str>) -> (out: Vec<
    String,
>)
    ensures
        views(out@) == key_candidates(style, views(extras@), opt_str(home)),
{
    let mut out = clone_all(extras);
    match home {
        Some(dir) => {
            let ssh = join_local(style, dir, ".ssh");
            out.push(join_local(style, ssh.as_str(), "id_ed25519"));
            out.push(join_local(style, ssh.as_str(), "id_rsa"));
            assert(views(out@) =~= views(extras@) + usual_keys(style, dir@));
            out
        },
        None => out,
    }
}

/// How an attempt to log in went.
#[derive(Debug, PartialEq, Eq)]
pub enum Attempt<T = String> {
    /// There is no such key file.
    Missing,
    /// The key could not be read, for this reason.
    NotLoaded(T),
    /// The server took it.
    Accepted,
    /// The server did not take it.
    Rejected,
    /// The connection failed, for this reason.
    Failed(T),
}

/// The view of a [`Attempt`].
pub type AttemptView = Attempt<Seq<char>>;

impl View for Attempt {
    type V = Attempt<Seq<char>>;

    open spec fn view(&self) -> Attempt<Seq<char>> {
        match self {
            Attempt::Missing => Attempt::Missing,
            Attempt::NotLoaded(e) => Attempt::NotLoaded(e@),
            Attempt::Accepted => Attempt::Accepted,
            Attempt::Rejected => Attempt::Rejected,
            Attempt::Failed(e) => Attempt::Failed(e@),
        }
    }
}

/// What a login does next.
#[derive(Debug, PartialEq, Eq)]
pub enum LoginStep<T = String, E = RustmoteError> {
    /// Try the private key in a file.
    TryKey(T),
    /// Try a password.
    TryPassword(T),
    /// It is through.
    LoggedIn,
    /// It has failed.
    Failed(E),
}

/// The view of a [`LoginStep`].
pub type LoginStepView = LoginStep<Seq<char>, ErrorView>;

impl View for LoginStep {
    type V = LoginStepView;

    open spec fn view(&self) -> LoginStepView {
        match self {
            LoginStep::TryKey(path) => LoginStep::TryKey(path@),
            LoginStep::TryPassword(password) => LoginStep::TryPassword(password@),
            LoginStep::LoggedIn => LoginStep::LoggedIn,
            LoginStep::Failed(e) => LoginStep::Failed(e@),
        }
    }
}

/// A login under way. The first `tried_keys` of the keys are tried, and the password is where it is
/// not there any more.
#[derive(Debug, PartialEq, Eq)]
pub struct Login<T = String, L = Vec<String>, N = usize> {
    pub user: T,
    pub host: T,
    pub keys: L,
    pub tried_keys: N,
    pub password: Option<T>,
    /// The methods tried, one for each attempt.
    pub methods: L,
    /// How the last attempt failed; empty where there was none.
    pub last_error: T,
}

/// The view of a [`Login`].
pub type LoginView = Login<Seq<char>, Seq<Seq<char>>, nat>;

impl View for Login {
    type V = LoginView;

    open spec fn view(&self) -> LoginView {
        Login {
            user: self.user@,
            host: self.host@,
            keys: views(self.keys@),
            tried_keys: self.tried_keys as nat,
            password: opt_view(self.password),
            methods: views(self.methods@),
            last_error: self.last_error@,
        }
    }
}

/// What is done next: the keys one after the other, then the password; where nothing is left the
/// login has failed.
pub open spec fn login_next(m: LoginView) -> LoginStepView {
    if m.tried_keys < m.keys.len() {
        LoginStep::TryKey(m.keys[m.tried_keys as int])
    } else {
        match m.password {
            Some(password) => LoginStep::TryPassword(password),
            None => LoginStep::Failed(
                RustmoteError::SshAuthFailed {
                    user: m.user,
                    host: m.host,
                    methods: if m.methods.len() == 0 {
                        "(none — no key found, no password supplied)"@
                    } else {
                        join(m.methods, ","@)
                    },
                    last_error: m.last_error,
                },
            ),
        }
    }
}

/// What is said of a key that was tried in vain.
pub open spec fn key_error(path: Seq<char>, attempt: AttemptView) -> Seq<char> {
    match attempt {
        Attempt::NotLoaded(e) => "could not load "@ + path + ": "@ + e,
        Attempt::Failed(e) => "publickey auth error with "@ + path + ": "@ + e,
        _ => "server rejected key "@ + path,
    }
}

/// What is said of a password that was tried in vain.
pub open spec fn password_error(attempt: AttemptView) -> Seq<char> {
    match attempt {
        Attempt::NotLoaded(e) => "password auth error: "@ + e,
        Attempt::Failed(e) => "password auth error: "@ + e,
        _ => "server rejected password"@,
    }
}

/// Where a login stands after an attempt. A key file that is not there counts as no attempt.
pub open spec fn login_after(m: LoginView, attempt: AttemptView) -> LoginView {
    if m.tried_keys < m.keys.len() {
        let next = Login { tried_keys: m.tried_keys + 1, ..m };
        match attempt {
            Attempt::Missing => next,
            _ => Login {
                methods: m.methods.push("publickey"@),
                last_error: key_error(m.keys[m.tried_keys as int], attempt),
                ..next
            },
        }
    } else {
        Login {
            password: None,
            methods: m.methods.push("password"@),
            last_error: password_error(attempt),
            ..m
        }
    }
}

/// One step of a login.
pub open spec fn login_step(m: LoginView, attempt: AttemptView) -> (LoginView, LoginStepView) {
    if attempt is Accepted {
        (m, LoginStep::LoggedIn)
    } else {
        (login_after(m, attempt), login_next(login_after(m, attempt)))
    }
}

/// A login that has tried nothing yet.
pub open spec fn fresh_login(
    user: Seq<char>,
    host: Seq<char>,
    keys: Seq<Seq<char>>,
    password: Option<Seq<char>>,
) -> LoginView {
    Login { user, host, keys, tried_keys: 0, password, methods: seq![], last_error: seq![] }
}

impl Login {
    fn next(&self) -> (r: LoginStep)
        ensures
            r@ == login_next(self@),
    {
        if self.tried_keys < self.keys.len() {
            LoginStep::TryKey(self.keys[self.tried_keys].clone())
        } else {
            match &self.password {
                Some(password) => LoginStep::TryPassword(password.clone()),
                None => LoginStep::Failed(
                    RustmoteError::SshAuthFailed {
                        user: self.user.clone(),
                        host: self.host.clone(),
                        methods: if self.methods.len() == 0 {
                            "(none — no key found, no password supplied)".to_owned()
                        } else {
                            text_join(&self.methods, ",")
                        },
                        last_error: self.last_error.clone(),
                    },
                ),
            }
        }
    }

    /// Begins to log a user in at a host.
    pub fn begin(
        style: PathStyle,
        user: &str,
        host: &str,
        auth: &AuthMaterial,
        home: Option<&str>,
    ) -> (r: (Login, LoginStep))
        ensures
            r.0@ == fresh_login(
                user@,
                host@,
                key_candidates(style, views(auth.extra_key_paths@), opt_str(home)),
                opt_view(auth.password),
            ),
            r.1@ == login_next(r.0@),
    {
        let m = Login {
            user: user.to_owned(),
            host: host.to_owned(),
            keys: default_key_paths(style, &auth.extra_key_paths, home),
            tried_keys: 0,
            password: opt_clone(&auth.password),
            methods: Vec::new(),
            last_error: String::new(),
        };
        assert(m@.methods =~= Seq::empty());
        let step = m.next();
        (m, step)
    }

    /// Takes in how the attempt went that the last step asked for.
    pub fn step(&mut self, attempt: Attempt) -> (r: LoginStep)
        requires
            old(self)@.tried_keys < old(self)@.keys.len() || old(self)@.password is Some,
        ensures
            (final(self)@, r@) == login_step(old(self)@, attempt@),
    {
        if matches!(attempt, Attempt::Accepted) {
            return LoginStep::LoggedIn;
        }
        let count: usize = self.keys.len();
        if self.tried_keys < count {
            let path = self.keys[self.tried_keys].clone();
            self.tried_keys = self.tried_keys + 1;
            if !matches!(attempt, Attempt::Missing) {
                self.last_error = match &attempt {
                    Attempt::NotLoaded(e) => concat(
                        concat3("could not load ", path.as_str(), ": ").as_str(),
                        e.as_str(),
                    ),
                    Attempt::Failed(e) => concat(
                        concat3("publickey auth error with ", path.as_str(), ": ").as_str(),
                        e.as_str(),
                    ),
                    _ => concat("server rejected key ", path.as_str()),
                };
                let method = "publickey".to_owned();
                proof {
                    lemma_views_push(self.methods@, method);
                }
                self.methods.push(method);
            }
        } else {
            self.password = None;
            self.last_error = match &attempt {
                Attempt::NotLoaded(e) => concat("password auth error: ", e.as_str()),
                Attempt::Failed(e) => concat("password auth error: ", e.as_str()),
                _ => "server rejected password".to_owned(),
            };
            let method = "password".to_owned();
            proof {
                lemma_views_push(self.methods@, method);
            }
            self.methods.push(method);
        }
        self.next()
    }
}

// ---------------------------------------------------------------------------------------------
// What holds of logins
// ---------------------------------------------------------------------------------------------

/// Where a login stands after some attempts.
pub open spec fn login_run(m: LoginView, attempts: Seq<AttemptView>) -> LoginView
    decreases attempts.len(),
{
    if attempts.len() == 0 {
        m
    } else {
        login_after(login_run(m, attempts.drop_last()), attempts.last())
    }
}

/// The password is tried only when every key was: as long as a key is left, the next step is that
/// key, and the steps go through the keys in their order.
pub proof fn keys_come_before_the_password(m: LoginView, attempts: Seq<AttemptView>)
    requires
        m.tried_keys == 0,
        attempts.len() <= m.keys.len(),
    ensures
        login_run(m, attempts).tried_keys == attempts.len(),
        login_run(m, attempts).keys == m.keys,
        login_run(m, attempts).password == m.password,
        attempts.len() < m.keys.len() ==> login_next(login_run(m, attempts)) == LoginStepView::TryKey(
            m.keys[attempts.len() as int],
        ),
        attempts.len() == m.keys.len() && m.password is Some ==> login_next(
            login_run(m, attempts),
        ) == LoginStepView::TryPassword(m.password->0),
    decreases attempts.len(),
{
    if attempts.len() > 0 {
        keys_come_before_the_password(m, attempts.drop_last());
    }
}

/// How many of the attempts were more than a look for a file that is not there.
pub open spec fn real_attempts(attempts: Seq<AttemptView>) -> nat
    decreases attempts.len(),
{
    if attempts.len() == 0 {
        0
    } else if attempts.last() is Missing {
        real_attempts(attempts.drop_last())
    } else {
        real_attempts(attempts.drop_last()) + 1
    }
}

/// A login that fails names a method for each attempt: `publickey` for each key file that was
/// there, in one list with the password's where there was one.
pub proof fn failed_logins_name_their_attempts(m: LoginView, attempts: Seq<AttemptView>)
    requires
        m.tried_keys == 0,
        m.methods.len() == 0,
        attempts.len() <= m.keys.len(),
    ensures
        login_run(m, attempts).methods == Seq::new(
            real_attempts(attempts),
            |i: int| "publickey"@,
        ),
    decreases attempts.len(),
{
    if attempts.len() > 0 {
        failed_logins_name_their_attempts(m, attempts.drop_last());
        keys_come_before_the_password(m, attempts.drop_last());
    }
    assert(login_run(m, attempts).methods =~= Seq::new(
        real_attempts(attempts),
        |i: int| "publickey"@,
    ));
}

/// A login begins with nothing tried. Its keys are the given ones and then `id_ed25519` and
/// `id_rsa` in the directory `.ssh` of the user, where that is known; its password is the given
/// one.
pub proof fn logins_begin_with_the_given_keys(
    style: PathStyle,
    user: &str,
    host: &str,
    auth: &AuthMaterial,
    home: Option<&str>,
    r: (Login, LoginStep),
)
    requires
        call_ensures(Login::begin, (style, user, host, auth, home), r),
    ensures
        ({
            let m = r.0@;
            let given = views(auth.extra_key_paths@);
            let ssh = local_join(style, home->0@, ".ssh"@);
            &&& m.user == user@
            &&& m.host == host@
            &&& m.password == opt_view(auth.password)
            &&& m.tried_keys == 0
            &&& m.methods.len() == 0
            &&& m.keys.len() == given.len() + if home is Some {
                2int
            } else {
                0
            }
            &&& forall|i: int| 0 <= i < given.len() ==> m.keys[i] == #[trigger] given[i]
            &&& home is Some ==> m.keys[given.len() as int] == local_join(style, ssh, "id_ed25519"@)
            &&& home is Some ==> m.keys[given.len() as int + 1] == local_join(style, ssh, "id_rsa"@)
            &&& m.keys.len() > 0 ==> r.1@ == LoginStepView::TryKey(m.keys[0])
        }),
{
}

/// A login is through exactly when an attempt is accepted. One that was not accepted is not made
/// again: the next key follows a key, and the password, which is tried once, follows the last key.
/// When nothing is left, the login fails for the user at the host, with all methods tried and how
/// the last attempt failed.
pub proof fn attempts_lead_on(m: &mut Login, attempt: Attempt, r: LoginStep)
    requires
        call_ensures(Login::step, (m, attempt), r),
        m@.tried_keys < m@.keys.len() || m@.password is Some,
    ensures
        ({
            let was = old(m)@;
            let at = was.tried_keys as int;
            let now = final(m)@;
            &&& r is LoggedIn <==> attempt is Accepted
            &&& now.user == was.user && now.host == was.host && now.keys == was.keys
            &&& !(attempt is Accepted) && at + 1 < was.keys.len() ==> r@ == LoginStepView::TryKey(
                was.keys[at + 1],
            )
            &&& !(attempt is Accepted) && at + 1 == was.keys.len() && was.password is Some ==> r@
                == LoginStepView::TryPassword(was.password->0)
            &&& !(attempt is Accepted) && (at >= was.keys.len() || at + 1 == was.keys.len()
                && was.password is None) ==> {
                &&& r@ matches LoginStep::Failed(RustmoteError::SshAuthFailed {
                    user,
                    host,
                    methods,
                    last_error,
                })
                &&& user == was.user
                &&& host == was.host
                &&& last_error == now.last_error
                &&& now.methods.len() > 0 ==> methods == join(now.methods, ","@)
            }
            &&& attempt is Missing && at < was.keys.len() ==> now.methods == was.methods
                && now.last_error == was.last_error
            &&& attempt is Rejected && at < was.keys.len() ==> now.methods == was.methods.push(
                "publickey"@,
            ) && now.last_error == "server rejected key "@ + was.keys[at]
            &&& attempt is Rejected && at >= was.keys.len() ==> now.methods == was.methods.push(
                "password"@,
            ) && now.last_error == "server rejected password"@
            &&& attempt matches Attempt::NotLoaded(e) ==> at < was.keys.len() ==> now.last_error
                == "could not load "@ + was.keys[at] + ": "@ + e@
            &&& attempt matches Attempt::Failed(e) ==> at < was.keys.len() ==> now.last_error
                == "publickey auth error with "@ + was.keys[at] + ": "@ + e@
            &&& attempt matches Attempt::Failed(e) ==> at >= was.keys.len() ==> now.last_error
                == "password auth error: "@ + e@
        }),
{
}

} // verus!
