//! What a request is answered, what the application asks of its store and
//! session along the way, and what it hears back.
use vstd::prelude::*;

use crate::model::{Bookmark, BookmarkView, User, UserView};
use crate::tags::string_views;

verus! {

/// The status of a response that is not a redirect.
#[derive(Clone, Copy, Debug, PartialEq, Eq, Structural)]
pub enum Status {
    Success,
    NotFound,
    Forbidden,
    InternalServerError,
}

/// A page to render, with what it shows.
pub enum Page {
    /// Every bookmark.
    List { bookmarks: Vec<Bookmark> },
    /// One bookmark, and whether the viewer owns it.
    Detail { bookmark: Bookmark, is_owner: bool },
    /// The form that changes a bookmark.
    Edit { bookmark: Bookmark },
    /// The login form, with the reason the last attempt failed.
    Login { error: Option<String> },
    /// The registration form, with the reason the last attempt failed.
    Register { error: Option<String> },
    /// The page for an address that names no bookmark.
    Missing,
}

/// The answer to a request.
pub enum Reply {
    /// See the page at `to`.
    Redirect { to: String },
    /// A rendered page.
    Render { status: Status, page: Page },
    /// A short message.
    Text { status: Status, body: String },
    /// A state the application does not serve: the request is abandoned.
    Fault { reason: String },
}

/// What a step asks of the store or the session, or the answer it gives.
pub enum Command {
    /// Read the bookmark `id` with its tags.
    LoadBookmark { id: i64 },
    /// Remove every tag link of a bookmark.
    ClearTagLinks { bookmark_id: i64 },
    /// Remove the bookmark row `id`.
    DeleteBookmark { id: i64 },
    /// Change the address and title of the bookmark `id`.
    UpdateBookmark { id: i64, url: String, title: String },
    /// Add a bookmark row and report its identifier.
    InsertBookmark { user_id: i64, url: String, title: String },
    /// Run `sql`, binding each tag in order.
    InsertTags { sql: String, tags: Vec<String> },
    /// Run `sql`, binding the bookmark and then each tag in order.
    LinkTags { sql: String, bookmark_id: i64, tags: Vec<String> },
    /// Add an account.
    InsertUser { username: String, password_hash: String },
    /// Read the account with this name.
    LoadUser { username: String },
    /// Log the session in as `user`.
    StartSession { user: User },
    /// Answer the request; nothing more is asked.
    Respond { reply: Reply },
}

/// What reading a bookmark found.
pub enum BookmarkLookup {
    Failed,
    Missing,
    Found(Bookmark),
}

/// What reading an account found.
pub enum UserLookup {
    Failed,
    Missing,
    Found(User),
}

/// The outcome of a command.
pub enum Event {
    /// The answer to `LoadBookmark`.
    Bookmark(BookmarkLookup),
    /// The answer to `LoadUser`.
    User(UserLookup),
    /// The answer to `InsertBookmark`: the new identifier, or none on failure.
    Created(Option<i64>),
    /// Whether any other command succeeded.
    Done(bool),
}

/// A page as plain values.
pub enum PageView {
    List { bookmarks: Seq<BookmarkView> },
    Detail { bookmark: BookmarkView, is_owner: bool },
    Edit { bookmark: BookmarkView },
    Login { error: Option<Seq<char>> },
    Register { error: Option<Seq<char>> },
    Missing,
}

/// An answer as plain values.
pub enum ReplyView {
    Redirect { to: Seq<char> },
    Render { status: Status, page: PageView },
    Text { status: Status, body: Seq<char> },
    Fault { reason: Seq<char> },
}

/// A command as plain values.
pub enum CommandView {
    LoadBookmark { id: i64 },
    ClearTagLinks { bookmark_id: i64 },
    DeleteBookmark { id: i64 },
    UpdateBookmark { id: i64, url: Seq<char>, title: Seq<char> },
    InsertBookmark { user_id: i64, url: Seq<char>, title: Seq<char> },
    InsertTags { sql: Seq<char>, tags: Seq<Seq<char>> },
    LinkTags { sql: Seq<char>, bookmark_id: i64, tags: Seq<Seq<char>> },
    InsertUser { username: Seq<char>, password_hash: Seq<char> },
    LoadUser { username: Seq<char> },
    StartSession { user: UserView },
    Respond { reply: ReplyView },
}

/// A bookmark lookup as plain values.
pub enum BookmarkLookupView {
    Failed,
    Missing,
    Found(BookmarkView),
}

/// An account lookup as plain values.
pub enum UserLookupView {
    Failed,
    Missing,
    Found(UserView),
}

/// An outcome as plain values.
pub enum EventView {
    Bookmark(BookmarkLookupView),
    User(UserLookupView),
    Created(Option<i64>),
    Done(bool),
}

/// The view of an optional string.
pub open spec fn opt_view(s: Option<String>) -> Option<Seq<char>> {
    match s {
        Some(t) => Some(t@),
        None => None,
    }
}

/// The views of a list of bookmarks.
pub open spec fn bookmark_views(v: Seq<Bookmark>) -> Seq<BookmarkView> {
    v.map_values(|b: Bookmark| b@)
}

impl View for Page {
    type V = PageView;

    open spec fn view(&self) -> PageView {
        match self {
            Page::List { bookmarks } => PageView::List { bookmarks: bookmark_views(bookmarks@) },
            Page::Detail { bookmark, is_owner } => PageView::Detail {
                bookmark: bookmark@,
                is_owner: *is_owner,
            },
            Page::Edit { bookmark } => PageView::Edit { bookmark: bookmark@ },
            Page::Login { error } => PageView::Login { error: opt_view(*error) },
            Page::Register { error } => PageView::Register { error: opt_view(*error) },
            Page::Missing => PageView::Missing,
        }
    }
}

impl View for Reply {
    type V = ReplyView;

    open spec fn view(&self) -> ReplyView {
        match self {
            Reply::Redirect { to } => ReplyView::Redirect { to: to@ },
            Reply::Render { status, page } => ReplyView::Render { status: *status, page: page@ },
            Reply::Text { status, body } => ReplyView::Text { status: *status, body: body@ },
            Reply::Fault { reason } => ReplyView::Fault { reason: reason@ },
        }
    }
}

impl View for Command {
    type V = CommandView;

    open spec fn view(&self) -> CommandView {
        match self {
            Command::LoadBookmark { id } => CommandView::LoadBookmark { id: *id },
            Command::ClearTagLinks { bookmark_id } => CommandView::ClearTagLinks {
                bookmark_id: *bookmark_id,
            },
            Command::DeleteBookmark { id } => CommandView::DeleteBookmark { id: *id },
            Command::UpdateBookmark { id, url, title } => CommandView::UpdateBookmark {
                id: *id,
                url: url@,
                title: title@,
            },
            Command::InsertBookmark { user_id, url, title } => CommandView::InsertBookmark {
                user_id: *user_id,
                url: url@,
                title: title@,
            },
            Command::InsertTags { sql, tags } => CommandView::InsertTags {
                sql: sql@,
                tags: string_views(tags@),
            },
            Command::LinkTags { sql, bookmark_id, tags } => CommandView::LinkTags {
                sql: sql@,
                bookmark_id: *bookmark_id,
                tags: string_views(tags@),
            },
            Command::InsertUser { username, password_hash } => CommandView::InsertUser {
                username: username@,
                password_hash: password_hash@,
            },
            Command::LoadUser { username } => CommandView::LoadUser { username: username@ },
            Command::StartSession { user } => CommandView::StartSession { user: user@ },
            Command::Respond { reply } => CommandView::Respond { reply: reply@ },
        }
    }
}

impl View for BookmarkLookup {
    type V = BookmarkLookupView;

    open spec fn view(&self) -> BookmarkLookupView {
        match self {
            BookmarkLookup::Failed => BookmarkLookupView::Failed,
            BookmarkLookup::Missing => BookmarkLookupView::Missing,
            BookmarkLookup::Found(b) => BookmarkLookupView::Found(b@),
        }
    }
}

impl View for UserLookup {
    type V = UserLookupView;

    open spec fn view(&self) -> UserLookupView {
        match self {
            UserLookup::Failed => UserLookupView::Failed,
            UserLookup::Missing => UserLookupView::Missing,
            UserLookup::Found(u) => UserLookupView::Found(u@),
        }
    }
}

impl View for Event {
    type V = EventView;

    open spec fn view(&self) -> EventView {
        match self {
            Event::Bookmark(l) => EventView::Bookmark(l@),
            Event::User(l) => EventView::User(l@),
            Event::Created(id) => EventView::Created(*id),
            Event::Done(ok) => EventView::Done(*ok),
        }
    }
}

/// The command changes what the store or the session holds.
pub open spec fn is_write(c: CommandView) -> bool {
    match c {
        CommandView::ClearTagLinks { .. } => true,
        CommandView::DeleteBookmark { .. } => true,
        CommandView::UpdateBookmark { .. } => true,
        CommandView::InsertBookmark { .. } => true,
        CommandView::InsertTags { .. } => true,
        CommandView::LinkTags { .. } => true,
        CommandView::InsertUser { .. } => true,
        CommandView::StartSession { .. } => true,
        _ => false,
    }
}

/// The answer `respond` gives: `reply`, and nothing more asked.
pub open spec fn respond(reply: ReplyView) -> CommandView {
    CommandView::Respond { reply }
}

/// The answer when the store fails: status 500 with the text "database error".
pub open spec fn database_failure() -> ReplyView {
    ReplyView::Text { status: Status::InternalServerError, body: "database error"@ }
}

/// A redirect to the login page.
pub open spec fn to_login() -> ReplyView {
    ReplyView::Redirect { to: "/login"@ }
}

/// A redirect to the list of bookmarks.
pub open spec fn to_bookmarks() -> ReplyView {
    ReplyView::Redirect { to: "/bookmarks"@ }
}

/// The store failed.
pub fn database_error() -> (r: Reply)
    ensures
        r@ == database_failure(),
{
    Reply::Text { status: Status::InternalServerError, body: String::from_str("database error") }
}

/// A redirect to `to`.
pub fn redirect(to: &str) -> (r: Reply)
    ensures
        r@ == (ReplyView::Redirect { to: to@ }),
{
    Reply::Redirect { to: String::from_str(to) }
}

/// A short message with a status.
pub fn text(status: Status, body: &str) -> (r: Reply)
    ensures
        r@ == (ReplyView::Text { status, body: body@ }),
{
    Reply::Text { status, body: String::from_str(body) }
}

/// An answer, with nothing more asked.
pub fn answer(reply: Reply) -> (c: Command)
    ensures
        c@ == respond(reply@),
{
    Command::Respond { reply }
}

/// The answer to a request for every bookmark: the list, or a database
/// error where reading them failed.
pub fn list_reply(loaded: Option<Vec<Bookmark>>) -> (r: Reply)
    ensures
        r@ == match loaded {
            Some(v) => ReplyView::Render {
                status: Status::Success,
                page: PageView::List { bookmarks: bookmark_views(v@) },
            },
            None => database_failure(),
        },
{
    match loaded {
        Some(bookmarks) => Reply::Render { status: Status::Success, page: Page::List { bookmarks } },
        None => database_error(),
    }
}

/// The answer to a request for one bookmark: its page, which says whether
/// `viewer` owns it; the missing page with status 404; or a database error.
pub fn detail_reply(viewer: Option<i64>, lookup: BookmarkLookup) -> (r: Reply)
    ensures
        r@ == match lookup@ {
            BookmarkLookupView::Failed => database_failure(),
            BookmarkLookupView::Missing => ReplyView::Render {
                status: Status::NotFound,
                page: PageView::Missing,
            },
            BookmarkLookupView::Found(b) => ReplyView::Render {
                status: Status::Success,
                page: PageView::Detail { bookmark: b, is_owner: viewer == Some(b.user_id) },
            },
        },
{
    match lookup {
        BookmarkLookup::Failed => database_error(),
        BookmarkLookup::Missing => Reply::Render { status: Status::NotFound, page: Page::Missing },
        BookmarkLookup::Found(bookmark) => {
            let is_owner = match viewer {
                Some(u) => u == bookmark.user_id,
                None => false,
            };
            Reply::Render { status: Status::Success, page: Page::Detail { bookmark, is_owner } }
        },
    }
}

} // verus!
