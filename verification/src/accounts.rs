//! Registering and logging in, each a machine that the web layer drives.
use vstd::prelude::*;

use crate::model::{LoginForm, RegisterForm};
use crate::password::{
    check_password, hash_password, hashes_password, max_password_bytes, password_check,
    phc_well_formed, PasswordCheck,
};
use vstd::utf8::*;
use crate::web::{
    answer, database_error, database_failure, redirect, respond, to_bookmarks, Command,
    CommandView, Event, EventView, Page, PageView, Reply, ReplyView, Status, UserLookup,
    UserLookupView,
};

verus! {

/// The registration form again, with `error` shown on it.
pub open spec fn register_again(error: Seq<char>) -> ReplyView {
    ReplyView::Render { status: Status::Success, page: PageView::Register { error: Some(error) } }
}

/// The login form again, saying that the credentials were not accepted.
pub open spec fn invalid_credentials() -> ReplyView {
    ReplyView::Render {
        status: Status::Success,
        page: PageView::Login { error: Some("Invalid credentials"@) },
    }
}

/// A form page shown again with an error on it.
fn form_with_error(login: bool, error: &str) -> (r: Reply)
    ensures
        r@ == (ReplyView::Render {
            status: Status::Success,
            page: if login {
                PageView::Login { error: Some(error@) }
            } else {
                PageView::Register { error: Some(error@) }
            },
        }),
{
    let error = Some(String::from_str(error));
    if login {
        Reply::Render { status: Status::Success, page: Page::Login { error } }
    } else {
        Reply::Render { status: Status::Success, page: Page::Register { error } }
    }
}

/// The command adds the account `username` with a hash of `password`.
pub open spec fn adds_account(c: CommandView, username: Seq<char>, password: Seq<char>) -> bool {
    match c {
        CommandView::InsertUser { username: name, password_hash } => name == username
            && hashes_password(password, password_hash),
        _ => false,
    }
}

// ─── Registering ───────────────────────────────────────────────────────────
/// Where a registration stands.
pub enum RegisterState {
    /// The account `username` is being added.
    Inserting { username: String },
    /// The new account is being read back.
    Finding,
    /// The session is being logged in as the new account.
    LoggingIn,
    /// The request has been answered.
    Finished,
}

/// Where a registration stands, as plain values.
pub enum RegisterStateView {
    Inserting { username: Seq<char> },
    Finding,
    LoggingIn,
    Finished,
}

impl View for RegisterState {
    type V = RegisterStateView;

    open spec fn view(&self) -> RegisterStateView {
        match self {
            RegisterState::Inserting { username } => RegisterStateView::Inserting {
                username: username@,
            },
            RegisterState::Finding => RegisterStateView::Finding,
            RegisterState::LoggingIn => RegisterStateView::LoggingIn,
            RegisterState::Finished => RegisterStateView::Finished,
        }
    }
}

/// How a registration moves on when `e` comes back. A failed insert is taken
/// for a name already in use.
pub open spec fn register_next(s: RegisterStateView, e: EventView) -> (
    RegisterStateView,
    CommandView,
) {
    match s {
        RegisterStateView::Inserting { username } => match e {
            EventView::Done(true) => (RegisterStateView::Finding, CommandView::LoadUser { username }),
            EventView::Done(false) => (
                RegisterStateView::Finished,
                respond(register_again("Username already taken"@)),
            ),
            _ => (RegisterStateView::Finished, respond(database_failure())),
        },
        RegisterStateView::Finding => match e {
            EventView::User(UserLookupView::Found(u)) => (
                RegisterStateView::LoggingIn,
                CommandView::StartSession { user: u },
            ),
            _ => (RegisterStateView::Finished, respond(database_failure())),
        },
        RegisterStateView::LoggingIn => if e == EventView::Done(true) {
            (RegisterStateView::Finished, respond(to_bookmarks()))
        } else {
            (RegisterStateView::Finished, respond(database_failure()))
        },
        RegisterStateView::Finished => (RegisterStateView::Finished, respond(database_failure())),
    }
}

/// The commands a registration issues from `s` as `events` come back.
pub open spec fn register_trace(s: RegisterStateView, events: Seq<EventView>) -> Seq<CommandView>
    decreases events.len(),
{
    if events.len() == 0 {
        Seq::empty()
    } else {
        let (t, c) = register_next(s, events[0]);
        seq![c] + register_trace(t, events.drop_first())
    }
}

impl RegisterState {
    /// Begins a registration. Two different passwords are refused at once;
    /// otherwise the account is added with a fresh hash of the password. A
    /// password too long for Argon2 to hash abandons the request.
    pub fn begin(form: RegisterForm) -> (r: (RegisterState, Command))
        ensures
            form.password@ != form.confirm_password@ ==> r.0@ == RegisterStateView::Finished
                && r.1@ == respond(register_again("Passwords do not match"@)),
            form.password@ == form.confirm_password@ && encode_utf8(form.password@).len()
                <= max_password_bytes() ==> r.0@ == (RegisterStateView::Inserting {
                username: form.username@,
            }) && r.1@ is InsertUser && r.1@->InsertUser_username == form.username@
                && hashes_password(form.password@, r.1@->InsertUser_password_hash),
            form.password@ == form.confirm_password@ && encode_utf8(form.password@).len()
                > max_password_bytes() ==> r.0@ == RegisterStateView::Finished && r.1@ == respond(
                ReplyView::Fault { reason: "failed to hash password"@ },
            ),
    {
        if form.password != form.confirm_password {
            return (RegisterState::Finished, answer(form_with_error(false, "Passwords do not match")));
        }
        match hash_password(form.password.as_str()) {
            Ok(password_hash) => {
                let username = form.username.clone();
                (
                    RegisterState::Inserting { username },
                    Command::InsertUser { username: form.username, password_hash },
                )
            },
            Err(_) => (
                RegisterState::Finished,
                answer(Reply::Fault { reason: String::from_str("failed to hash password") }),
            ),
        }
    }

    /// Moves on with what the last command came to.
    pub fn step(self, event: Event) -> (r: (RegisterState, Command))
        ensures
            (r.0@, r.1@) == register_next(self@, event@),
    {
        match self {
            RegisterState::Inserting { username } => match event {
                Event::Done(true) => (RegisterState::Finding, Command::LoadUser { username }),
                Event::Done(false) => (
                    RegisterState::Finished,
                    answer(form_with_error(false, "Username already taken")),
                ),
                _ => (RegisterState::Finished, answer(database_error())),
            },
            RegisterState::Finding => match event {
                Event::User(UserLookup::Found(user)) => (
                    RegisterState::LoggingIn,
                    Command::StartSession { user },
                ),
                _ => (RegisterState::Finished, answer(database_error())),
            },
            RegisterState::LoggingIn => match event {
                Event::Done(true) => (RegisterState::Finished, answer(redirect("/bookmarks"))),
                _ => (RegisterState::Finished, answer(database_error())),
            },
            RegisterState::Finished => (RegisterState::Finished, answer(database_error())),
        }
    }
}

// ─── Logging in ────────────────────────────────────────────────────────────
/// Where a login stands.
pub enum LoginState {
    /// The account is being read; `password` is checked against it.
    Finding { password: String },
    /// The session is being logged in.
    LoggingIn,
    /// The request has been answered.
    Finished,
}

/// Where a login stands, as plain values.
pub enum LoginStateView {
    Finding { password: Seq<char> },
    LoggingIn,
    Finished,
}

impl View for LoginState {
    type V = LoginStateView;

    open spec fn view(&self) -> LoginStateView {
        match self {
            LoginState::Finding { password } => LoginStateView::Finding { password: password@ },
            LoginState::LoggingIn => LoginStateView::LoggingIn,
            LoginState::Finished => LoginStateView::Finished,
        }
    }
}

/// How a login begins: the account with the given name is read.
pub open spec fn login_begin(username: Seq<char>, password: Seq<char>) -> (
    LoginStateView,
    CommandView,
) {
    (LoginStateView::Finding { password }, CommandView::LoadUser { username })
}

/// How a login moves on when `e` comes back. An unknown name and a wrong
/// password get the same answer. A stored hash that is not a PHC string ends
/// the login with a fault; `LoginState::step` does not take such an event and
/// `LoginState::try_step` gives nothing back for it.
pub open spec fn login_next(s: LoginStateView, e: EventView) -> (LoginStateView, CommandView) {
    match s {
        LoginStateView::Finding { password } => match e {
            EventView::User(UserLookupView::Found(u)) => match password_check(
                password,
                u.password_hash,
            ) {
                PasswordCheck::Accepted => (
                    LoginStateView::LoggingIn,
                    CommandView::StartSession { user: u },
                ),
                PasswordCheck::Refused => (LoginStateView::Finished, respond(invalid_credentials())),
                PasswordCheck::Unreadable => (
                    LoginStateView::Finished,
                    respond(ReplyView::Fault { reason: "invalid stored hash"@ }),
                ),
            },
            EventView::User(UserLookupView::Missing) => (
                LoginStateView::Finished,
                respond(invalid_credentials()),
            ),
            _ => (LoginStateView::Finished, respond(database_failure())),
        },
        LoginStateView::LoggingIn => if e == EventView::Done(true) {
            (LoginStateView::Finished, respond(to_bookmarks()))
        } else {
            (LoginStateView::Finished, respond(database_failure()))
        },
        LoginStateView::Finished => (LoginStateView::Finished, respond(database_failure())),
    }
}

/// The login is checking a password and `e` brings an account whose stored
/// hash is not a PHC string: the login cannot go on.
pub open spec fn stored_hash_unreadable(s: LoginStateView, e: EventView) -> bool {
    match (s, e) {
        (
            LoginStateView::Finding { password },
            EventView::User(UserLookupView::Found(u)),
        ) => !phc_well_formed(u.password_hash),
        _ => false,
    }
}

/// The commands a login issues from `s` as `events` come back.
pub open spec fn login_trace(s: LoginStateView, events: Seq<EventView>) -> Seq<CommandView>
    decreases events.len(),
{
    if events.len() == 0 {
        Seq::empty()
    } else {
        let (t, c) = login_next(s, events[0]);
        seq![c] + login_trace(t, events.drop_first())
    }
}

impl LoginState {
    /// Begins logging in with the credentials of `form`.
    pub fn begin(form: LoginForm) -> (r: (LoginState, Command))
        ensures
            (r.0@, r.1@) == login_begin(form.username@, form.password@),
    {
        (LoginState::Finding { password: form.password }, Command::LoadUser { username: form.username })
    }

    /// Moves on with what the last command came to. The account found, if
    /// any, must hold a PHC string: a login cannot go on past any other.
    pub fn step(self, event: Event) -> (r: (LoginState, Command))
        requires
            !stored_hash_unreadable(self@, event@),
        ensures
            (r.0@, r.1@) == login_next(self@, event@),
    {
        match self.try_step(event) {
            Some(next) => next,
            None => {
                proof {
                    assert(false);
                }
                (LoginState::Finished, answer(database_error()))
            },
        }
    }

    /// Moves on with what the last command came to, where it can: nothing comes
    /// back when the account found holds a stored hash that is not a PHC string.
    pub fn try_step(self, event: Event) -> (r: Option<(LoginState, Command)>)
        ensures
            r is None <==> stored_hash_unreadable(self@, event@),
            r matches Some(next) ==> (next.0@, next.1@) == login_next(self@, event@),
    {
        match self {
            LoginState::Finding { password } => match event {
                Event::User(UserLookup::Found(user)) => {
                    match check_password(password.as_str(), user.password_hash.as_str()) {
                        PasswordCheck::Accepted => Some(
                            (LoginState::LoggingIn, Command::StartSession { user }),
                        ),
                        PasswordCheck::Refused => Some(
                            (LoginState::Finished, answer(form_with_error(true, "Invalid credentials"))),
                        ),
                        PasswordCheck::Unreadable => None,
                    }
                },
                Event::User(UserLookup::Missing) => Some(
                    (LoginState::Finished, answer(form_with_error(true, "Invalid credentials"))),
                ),
                _ => Some((LoginState::Finished, answer(database_error()))),
            },
            LoginState::LoggingIn => match event {
                Event::Done(true) => Some((LoginState::Finished, answer(redirect("/bookmarks")))),
                _ => Some((LoginState::Finished, answer(database_error()))),
            },
            LoginState::Finished => Some((LoginState::Finished, answer(database_error()))),
        }
    }
}


/// The command logs the session in.
pub open spec fn is_session_start(c: CommandView) -> bool {
    c is StartSession
}

proof fn lemma_login_after_check_starts_nothing(s: LoginStateView, events: Seq<EventView>)
    requires
        !(s is Finding),
    ensures
        forall|k: int|
            0 <= k < login_trace(s, events).len() ==> !is_session_start(
                #[trigger] login_trace(s, events)[k],
            ),
    decreases events.len(),
{
    if events.len() > 0 {
        let (t, c) = login_next(s, events[0]);
        lemma_login_after_check_starts_nothing(t, events.drop_first());
        let trace = login_trace(s, events);
        assert(trace == seq![c] + login_trace(t, events.drop_first()));
        assert forall|k: int| 0 <= k < trace.len() implies !is_session_start(#[trigger] trace[k]) by {
            if k > 0 {
                assert(trace[k] == login_trace(t, events.drop_first())[k - 1]);
            }
        }
    }
}

/// A login starts a session only as the account that was found under the
/// name given, and only when its stored hash accepts the password given.
pub proof fn lemma_login_needs_the_password(password: Seq<char>, events: Seq<EventView>)
    ensures
        forall|k: int|
            0 <= k < login_trace(LoginStateView::Finding { password }, events).len()
                && #[trigger] login_trace(LoginStateView::Finding { password }, events)[k]
                is StartSession ==> k == 0 && events[0] is User && events[0]->User_0 is Found
                && login_trace(LoginStateView::Finding { password }, events)[k]->user
                == events[0]->User_0->Found_0 && password_check(
                password,
                events[0]->User_0->Found_0.password_hash,
            ) == PasswordCheck::Accepted,
{
    if events.len() > 0 {
        let s = LoginStateView::Finding { password };
        let (t, c) = login_next(s, events[0]);
        let trace = login_trace(s, events);
        assert(trace == seq![c] + login_trace(t, events.drop_first()));
        lemma_login_after_check_starts_nothing(t, events.drop_first());
        assert forall|k: int| 0 < k < trace.len() implies !(#[trigger] trace[k] is StartSession) by {
            assert(trace[k] == login_trace(t, events.drop_first())[k - 1]);
            assert(!is_session_start(login_trace(t, events.drop_first())[k - 1]));
        }
    }
}

/// An unknown name and a wrong password for a known one get the same answer,
/// so that the answer does not tell which names are in use.
pub proof fn lemma_login_keeps_names_private(password: Seq<char>, user: crate::model::UserView)
    requires
        password_check(password, user.password_hash) == PasswordCheck::Refused,
    ensures
        login_next(
            LoginStateView::Finding { password },
            EventView::User(UserLookupView::Found(user)),
        ) == login_next(LoginStateView::Finding { password }, EventView::User(UserLookupView::Missing)),
{
}

proof fn lemma_register_after_login_starts_nothing(s: RegisterStateView, events: Seq<EventView>)
    requires
        s is LoggingIn || s is Finished,
    ensures
        forall|k: int|
            0 <= k < register_trace(s, events).len() ==> !is_session_start(
                #[trigger] register_trace(s, events)[k],
            ),
    decreases events.len(),
{
    if events.len() > 0 {
        let (t, c) = register_next(s, events[0]);
        lemma_register_after_login_starts_nothing(t, events.drop_first());
        let trace = register_trace(s, events);
        assert(trace == seq![c] + register_trace(t, events.drop_first()));
        assert forall|k: int| 0 <= k < trace.len() implies !is_session_start(#[trigger] trace[k]) by {
            if k > 0 {
                assert(trace[k] == register_trace(t, events.drop_first())[k - 1]);
            }
        }
    }
}

/// A registration logs the session in only after its account was added, and
/// only as the account read back under its name.
pub proof fn lemma_register_logs_in_the_new_account(username: Seq<char>, events: Seq<EventView>)
    ensures
        forall|k: int|
            0 <= k < register_trace(RegisterStateView::Inserting { username }, events).len()
                && #[trigger] register_trace(RegisterStateView::Inserting { username }, events)[k]
                is StartSession ==> k == 1 && events[0] == EventView::Done(true) && events[1] is User
                && events[1]->User_0 is Found && register_trace(
                RegisterStateView::Inserting { username },
                events,
            )[k]->user == events[1]->User_0->Found_0,
{
    if events.len() > 0 {
        let s = RegisterStateView::Inserting { username };
        let (t, c) = register_next(s, events[0]);
        let trace = register_trace(s, events);
        let rest = events.drop_first();
        assert(trace == seq![c] + register_trace(t, rest));
        if t is Finding {
            if rest.len() > 0 {
                let (t2, c2) = register_next(t, rest[0]);
                assert(register_trace(t, rest) == seq![c2] + register_trace(t2, rest.drop_first()));
                lemma_register_after_login_starts_nothing(t2, rest.drop_first());
                assert forall|k: int| 1 < k < trace.len() implies !(
                #[trigger] trace[k] is StartSession) by {
                    assert(trace[k] == register_trace(t2, rest.drop_first())[k - 2]);
                    assert(!is_session_start(register_trace(t2, rest.drop_first())[k - 2]));
                }
            }
        } else {
            lemma_register_after_login_starts_nothing(t, rest);
            assert forall|k: int| 0 < k < trace.len() implies !(#[trigger] trace[k] is StartSession) by {
                assert(trace[k] == register_trace(t, rest)[k - 1]);
                assert(!is_session_start(register_trace(t, rest)[k - 1]));
            }
        }
    }
}

/// A registration whose account is added goes on to read it back under the
/// name given, logs the session in as the account read, and shows the list of
/// bookmarks; one whose insert fails is told that the name is taken.
pub proof fn lemma_registration_logs_in_and_shows_bookmarks(
    username: Seq<char>,
    account: crate::model::UserView,
)
    ensures
        register_trace(
            RegisterStateView::Inserting { username },
            seq![
                EventView::Done(true),
                EventView::User(UserLookupView::Found(account)),
                EventView::Done(true),
            ],
        ) == seq![
            CommandView::LoadUser { username },
            CommandView::StartSession { user: account },
            CommandView::Respond { reply: ReplyView::Redirect { to: "/bookmarks"@ } },
        ],
        register_next(RegisterStateView::Inserting { username }, EventView::Done(false)).1
            == (CommandView::Respond {
            reply: ReplyView::Render {
                status: Status::Success,
                page: PageView::Register { error: Some("Username already taken"@) },
            },
        }),
{
    let s = RegisterStateView::Inserting { username };
    let ev = seq![
        EventView::Done(true),
        EventView::User(UserLookupView::Found(account)),
        EventView::Done(true),
    ];
    let s1 = register_next(s, ev[0]).0;
    let s2 = register_next(s1, ev[1]).0;
    let s3 = register_next(s2, ev[2]).0;
    let q1 = ev.drop_first();
    let q2 = q1.drop_first();
    let q3 = q2.drop_first();
    assert(q1 =~= seq![EventView::User(UserLookupView::Found(account)), EventView::Done(true)]);
    assert(q2 =~= seq![EventView::Done(true)]);
    assert(q3 =~= Seq::<EventView>::empty());
    assert(register_trace(s2, q2) =~= seq![register_next(s2, ev[2]).1] + register_trace(s3, q3));
    assert(register_trace(s1, q1) =~= seq![register_next(s1, ev[1]).1] + register_trace(s2, q2));
    assert(register_trace(s, ev) =~= seq![register_next(s, ev[0]).1] + register_trace(s1, q1));
}

/// A login reads the account under the name given; when its stored hash
/// accepts the password, the session is logged in as that account and the
/// list of bookmarks is shown; a wrong password or an unknown name is answered
/// "Invalid credentials" on the login form.
pub proof fn lemma_login_outcomes(
    username: Seq<char>,
    password: Seq<char>,
    account: crate::model::UserView,
)
    ensures
        login_begin(username, password).1 == (CommandView::LoadUser { username }),
        password_check(password, account.password_hash) == PasswordCheck::Accepted ==> login_trace(
            login_begin(username, password).0,
            seq![EventView::User(UserLookupView::Found(account)), EventView::Done(true)],
        ) == seq![
            CommandView::StartSession { user: account },
            CommandView::Respond { reply: ReplyView::Redirect { to: "/bookmarks"@ } },
        ],
        password_check(password, account.password_hash) == PasswordCheck::Refused ==> login_next(
            login_begin(username, password).0,
            EventView::User(UserLookupView::Found(account)),
        ).1 == (CommandView::Respond {
            reply: ReplyView::Render {
                status: Status::Success,
                page: PageView::Login { error: Some("Invalid credentials"@) },
            },
        }),
        login_next(
            login_begin(username, password).0,
            EventView::User(UserLookupView::Missing),
        ).1 == (CommandView::Respond {
            reply: ReplyView::Render {
                status: Status::Success,
                page: PageView::Login { error: Some("Invalid credentials"@) },
            },
        }),
{
    let s = login_begin(username, password).0;
    let ev = seq![EventView::User(UserLookupView::Found(account)), EventView::Done(true)];
    let s1 = login_next(s, ev[0]).0;
    let s2 = login_next(s1, ev[1]).0;
    let q1 = ev.drop_first();
    let q2 = q1.drop_first();
    assert(q1 =~= seq![EventView::Done(true)]);
    assert(q2 =~= Seq::<EventView>::empty());
    assert(login_trace(s1, q1) =~= seq![login_next(s1, ev[1]).1] + login_trace(s2, q2));
    assert(login_trace(s, ev) =~= seq![login_next(s, ev[0]).1] + login_trace(s1, q1));
}

} // verus!
