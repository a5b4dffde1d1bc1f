//! The records that the application keeps and the forms that it reads.
use vstd::prelude::*;
use vstd::utf8::*;

use crate::tags::string_views;

verus! {

/// A saved link, owned by the user that created it.
pub struct Bookmark {
    pub id: i64,
    pub user_id: i64,
    pub url: String,
    pub title: String,
    pub tags: Vec<String>,
}

/// A bookmark as plain values.
pub struct BookmarkView {
    pub id: i64,
    pub user_id: i64,
    pub url: Seq<char>,
    pub title: Seq<char>,
    pub tags: Seq<Seq<char>>,
}

impl View for Bookmark {
    type V = BookmarkView;

    open spec fn view(&self) -> BookmarkView {
        BookmarkView {
            id: self.id,
            user_id: self.user_id,
            url: self.url@,
            title: self.title@,
            tags: string_views(self.tags@),
        }
    }
}

/// An account: its name and the PHC string of its password's hash.
pub struct User {
    pub id: i64,
    pub username: String,
    pub password_hash: String,
}

/// An account as plain values.
pub struct UserView {
    pub id: i64,
    pub username: Seq<char>,
    pub password_hash: Seq<char>,
}

impl View for User {
    type V = UserView;

    open spec fn view(&self) -> UserView {
        UserView { id: self.id, username: self.username@, password_hash: self.password_hash@ }
    }
}

impl User {
    /// The account's identifier, which sessions remember.
    pub fn id(&self) -> (r: i64)
        ensures
            r == self.id,
    {
        self.id
    }

    /// The bytes that tie a session to the account's current password: the
    /// UTF-8 encoding of the stored hash.
    pub fn session_auth_hash(&self) -> (r: &[u8])
        ensures
            r@ == encode_utf8(self.password_hash@),
    {
        self.password_hash.as_str().as_bytes()
    }
}

/// The fields of the form that creates a bookmark.
pub struct CreateBookmarkForm {
    pub url: String,
    pub title: String,
    pub tags: Option<String>,
}

/// The fields of the login form.
pub struct LoginForm {
    pub username: String,
    pub password: String,
}

/// The fields of the registration form.
pub struct RegisterForm {
    pub username: String,
    pub password: String,
    pub confirm_password: String,
}

/// The fields of the form that changes a bookmark.
pub struct UpdateBookmarkForm {
    pub url: String,
    pub title: String,
    pub tags: Option<String>,
}

/// What an authorization check can ask of a user.
#[derive(Clone, Copy, Debug, PartialEq, Eq, Hash, Structural)]
pub enum Permission {
    DeleteBookmark,
    UpdateBookmark,
}

} // verus!
