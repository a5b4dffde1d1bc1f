use web_server::accounts::{LoginState, RegisterState};
use web_server::model::{LoginForm, RegisterForm, User};
use web_server::password::hash_password;
use web_server::web::{Command, Event, Page, Reply, UserLookup};

fn register_form(username: &str, password: &str, confirm: &str) -> RegisterForm {
    RegisterForm {
        username: username.to_string(),
        password: password.to_string(),
        confirm_password: confirm.to_string(),
    }
}

fn form_error(c: &Command) -> Option<(bool, String)> {
    match c {
        Command::Respond { reply: Reply::Render { page: Page::Login { error: Some(e) }, .. } } => {
            Some((true, e.clone()))
        }
        Command::Respond { reply: Reply::Render { page: Page::Register { error: Some(e) }, .. } } => {
            Some((false, e.clone()))
        }
        _ => None,
    }
}

fn redirect_of(c: &Command) -> Option<String> {
    match c {
        Command::Respond { reply: Reply::Redirect { to } } => Some(to.clone()),
        _ => None,
    }
}

fn account(name: &str, password: &str) -> User {
    User { id: 1, username: name.to_string(), password_hash: hash_password(password).unwrap() }
}

#[test]
fn passwords_must_match() {
    let (_, c) = RegisterState::begin(register_form("eve", "abc", "xyz"));
    assert_eq!(form_error(&c), Some((false, "Passwords do not match".to_string())));
}

#[test]
fn registration_adds_logs_in_and_redirects() {
    let (s, c) = RegisterState::begin(register_form("alice", "password123", "password123"));
    let stored = match &c {
        Command::InsertUser { username, password_hash } => {
            assert_eq!(username, "alice");
            password_hash.clone()
        }
        _ => panic!("expected the account to be added"),
    };
    let (s, c) = s.step(Event::Done(true));
    assert!(matches!(&c, Command::LoadUser { username } if username == "alice"));
    let user = User { id: 1, username: "alice".to_string(), password_hash: stored };
    let (s, c) = s.step(Event::User(UserLookup::Found(user)));
    assert!(matches!(&c, Command::StartSession { user } if user.id == 1));
    let (_, c) = s.step(Event::Done(true));
    assert_eq!(redirect_of(&c).as_deref(), Some("/bookmarks"));
}

#[test]
fn duplicate_username_is_refused() {
    let (s, _) = RegisterState::begin(register_form("dave", "password2", "password2"));
    let (_, c) = s.step(Event::Done(false));
    assert_eq!(form_error(&c), Some((false, "Username already taken".to_string())));
}

#[test]
fn login_with_the_right_password() {
    let (s, c) = LoginState::begin(LoginForm { username: "bob".to_string(), password: "secret".to_string() });
    assert!(matches!(&c, Command::LoadUser { username } if username == "bob"));
    let (s, c) = s.step(Event::User(UserLookup::Found(account("bob", "secret"))));
    assert!(matches!(&c, Command::StartSession { .. }));
    let (_, c) = s.step(Event::Done(true));
    assert_eq!(redirect_of(&c).as_deref(), Some("/bookmarks"));
}

#[test]
fn login_with_a_wrong_password_or_unknown_name() {
    let (s, _) = LoginState::begin(LoginForm { username: "charlie".to_string(), password: "wrong".to_string() });
    let (_, c) = s.step(Event::User(UserLookup::Found(account("charlie", "correct"))));
    assert_eq!(form_error(&c), Some((true, "Invalid credentials".to_string())));
    let (s, _) = LoginState::begin(LoginForm { username: "nobody".to_string(), password: "password".to_string() });
    let (_, c) = s.step(Event::User(UserLookup::Missing));
    assert_eq!(form_error(&c), Some((true, "Invalid credentials".to_string())));
}

#[test]
fn login_against_a_broken_stored_hash_cannot_go_on() {
    let (s, _) = LoginState::begin(LoginForm { username: "x".to_string(), password: "p".to_string() });
    let user = User { id: 1, username: "x".to_string(), password_hash: "garbage".to_string() };
    assert!(s.try_step(Event::User(UserLookup::Found(user))).is_none());
}

#[test]
fn registration_with_matching_ordinary_passwords_adds_the_account() {
    let (_, c) = RegisterState::begin(register_form("zoe", "pw", "pw"));
    assert!(matches!(&c, Command::InsertUser { username, .. } if username == "zoe"));
}

#[test]
fn login_store_failure_is_a_database_error() {
    let (s, _) = LoginState::begin(LoginForm { username: "x".to_string(), password: "p".to_string() });
    let (_, c) = s.step(Event::User(UserLookup::Failed));
    assert!(matches!(&c, Command::Respond { reply: Reply::Text { body, .. } } if body == "database error"));
}

#[test]
fn session_hash_is_the_stored_hash_bytes() {
    let user = User { id: 9, username: "u".to_string(), password_hash: "abc".to_string() };
    assert_eq!(user.id(), 9);
    assert_eq!(user.session_auth_hash(), b"abc");
}
