//! The requests that read or change bookmarks, each a machine that the web
//! layer drives: it carries out each command and hands back what came of it.
use vstd::prelude::*;

use crate::model::{CreateBookmarkForm, UpdateBookmarkForm};
use crate::paths::{bookmark_location, bookmark_path};
use crate::sql::{tag_insert_sql, tag_insert_statement, tag_link_sql, tag_link_statement};
use crate::tags::{copy_strings, parse_tags, string_views, tag_list};
use crate::web::{
    answer, database_error, database_failure, redirect, respond, text, to_bookmarks, to_login,
    BookmarkLookup, BookmarkLookupView, Command, CommandView, Event, EventView, Page, PageView,
    Reply, ReplyView, Status, is_write, opt_view,
};

verus! {

/// The answer when the bookmark asked for is not there.
pub open spec fn bookmark_missing() -> ReplyView {
    ReplyView::Text { status: Status::NotFound, body: "Bookmark not found"@ }
}

/// The answer when a user asks to change someone else's bookmark.
pub open spec fn not_yours(message: Seq<char>) -> ReplyView {
    ReplyView::Text { status: Status::Forbidden, body: message }
}

/// Reading the bookmark found it, owned by `user`.
pub open spec fn found_owned_by(e: EventView, user: i64) -> bool {
    match e {
        EventView::Bookmark(BookmarkLookupView::Found(b)) => b.user_id == user,
        _ => false,
    }
}

/// The tags of an optional tag field.
pub open spec fn field_tags(field: Option<Seq<char>>) -> Seq<Seq<char>> {
    tag_list(
        match field {
            Some(t) => t,
            None => Seq::<char>::empty(),
        },
    )
}

// ─── Deleting a bookmark ───────────────────────────────────────────────────
/// Where a deletion stands.
#[derive(Clone, Copy, Debug, PartialEq, Eq, Structural)]
pub enum DeleteState {
    /// The bookmark is being read, to see whether `user` owns it.
    Checking { user: i64, id: i64 },
    /// Its tag links are being removed.
    ClearingLinks { id: i64 },
    /// Its row is being removed.
    Deleting { id: i64 },
    /// The request has been answered.
    Finished,
}

/// How a deletion begins: an anonymous request is sent to log in; otherwise
/// the bookmark is read.
pub open spec fn delete_begin(user: Option<i64>, id: i64) -> (DeleteState, CommandView) {
    match user {
        None => (DeleteState::Finished, respond(to_login())),
        Some(u) => (DeleteState::Checking { user: u, id }, CommandView::LoadBookmark { id }),
    }
}

/// How a deletion moves on when `e` comes back.
pub open spec fn delete_next(s: DeleteState, e: EventView) -> (DeleteState, CommandView) {
    match s {
        DeleteState::Checking { user, id } => match e {
            EventView::Bookmark(BookmarkLookupView::Found(b)) => if b.user_id == user {
                (DeleteState::ClearingLinks { id }, CommandView::ClearTagLinks { bookmark_id: id })
            } else {
                (
                    DeleteState::Finished,
                    respond(not_yours("You can only delete your own bookmarks"@)),
                )
            },
            EventView::Bookmark(_) => (DeleteState::Finished, respond(bookmark_missing())),
            _ => (DeleteState::Finished, respond(database_failure())),
        },
        DeleteState::ClearingLinks { id } => if e == EventView::Done(true) {
            (DeleteState::Deleting { id }, CommandView::DeleteBookmark { id })
        } else {
            (DeleteState::Finished, respond(database_failure()))
        },
        DeleteState::Deleting { id } => if e == EventView::Done(true) {
            (DeleteState::Finished, respond(to_bookmarks()))
        } else {
            (DeleteState::Finished, respond(database_failure()))
        },
        DeleteState::Finished => (DeleteState::Finished, respond(database_failure())),
    }
}

/// The commands a deletion issues from `s` as `events` come back, one per event.
pub open spec fn delete_trace(s: DeleteState, events: Seq<EventView>) -> Seq<CommandView>
    decreases events.len(),
{
    if events.len() == 0 {
        Seq::empty()
    } else {
        let (t, c) = delete_next(s, events[0]);
        seq![c] + delete_trace(t, events.drop_first())
    }
}

impl DeleteState {
    /// Begins the deletion of bookmark `id` for the session's user, if any.
    pub fn begin(user: Option<i64>, id: i64) -> (r: (DeleteState, Command))
        ensures
            (r.0, r.1@) == delete_begin(user, id),
    {
        match user {
            None => (DeleteState::Finished, answer(redirect("/login"))),
            Some(u) => (DeleteState::Checking { user: u, id }, Command::LoadBookmark { id }),
        }
    }

    /// Moves on with what the last command came to.
    pub fn step(self, event: Event) -> (r: (DeleteState, Command))
        ensures
            (r.0, r.1@) == delete_next(self, event@),
    {
        match self {
            DeleteState::Checking { user, id } => match event {
                Event::Bookmark(BookmarkLookup::Found(b)) => {
                    if b.user_id == user {
                        (DeleteState::ClearingLinks { id }, Command::ClearTagLinks { bookmark_id: id })
                    } else {
                        (
                            DeleteState::Finished,
                            answer(text(Status::Forbidden, "You can only delete your own bookmarks")),
                        )
                    }
                },
                Event::Bookmark(_) => (
                    DeleteState::Finished,
                    answer(text(Status::NotFound, "Bookmark not found")),
                ),
                _ => (DeleteState::Finished, answer(database_error())),
            },
            DeleteState::ClearingLinks { id } => match event {
                Event::Done(true) => (DeleteState::Deleting { id }, Command::DeleteBookmark { id }),
                _ => (DeleteState::Finished, answer(database_error())),
            },
            DeleteState::Deleting { id } => match event {
                Event::Done(true) => (DeleteState::Finished, answer(redirect("/bookmarks"))),
                _ => (DeleteState::Finished, answer(database_error())),
            },
            DeleteState::Finished => (DeleteState::Finished, answer(database_error())),
        }
    }
}

proof fn lemma_finished_delete_writes_nothing(events: Seq<EventView>)
    ensures
        forall|k: int|
            0 <= k < delete_trace(DeleteState::Finished, events).len() ==> !is_write(
                #[trigger] delete_trace(DeleteState::Finished, events)[k],
            ),
    decreases events.len(),
{
    if events.len() > 0 {
        lemma_finished_delete_writes_nothing(events.drop_first());
        let rest = delete_trace(DeleteState::Finished, events.drop_first());
        assert(delete_trace(DeleteState::Finished, events) == seq![respond(database_failure())] + rest);
    }
}

/// Only the owner deletes: whatever comes back, a deletion changes the store
/// only when reading the bookmark found it owned by the session's user.
pub proof fn lemma_only_owner_deletes(user: i64, id: i64, events: Seq<EventView>)
    ensures
        forall|k: int|
            0 <= k < delete_trace(DeleteState::Checking { user, id }, events).len() && is_write(
                #[trigger] delete_trace(DeleteState::Checking { user, id }, events)[k],
            ) ==> found_owned_by(events[0], user),
{
    if events.len() > 0 {
        let s = DeleteState::Checking { user, id };
        let (t, c) = delete_next(s, events[0]);
        let trace = delete_trace(s, events);
        assert(trace == seq![c] + delete_trace(t, events.drop_first()));
        if !found_owned_by(events[0], user) {
            assert(t == DeleteState::Finished);
            lemma_finished_delete_writes_nothing(events.drop_first());
            assert forall|k: int| 0 <= k < trace.len() implies !is_write(#[trigger] trace[k]) by {
                if k > 0 {
                    assert(trace[k] == delete_trace(t, events.drop_first())[k - 1]);
                }
            }
        }
    }
}


// ─── Changing a bookmark ───────────────────────────────────────────────────
/// Where a change to a bookmark stands.
pub enum UpdateState {
    /// The bookmark is being read, to see whether `user` owns it.
    Checking { user: i64, id: i64, url: String, title: String, tag_field: Option<String> },
    /// Its tag links are being removed.
    ClearingLinks { id: i64, url: String, title: String, tags: Vec<String> },
    /// Its address and title are being written.
    Updating { id: i64, tags: Vec<String> },
    /// The new tag names are being stored.
    AddingTags { id: i64, tags: Vec<String> },
    /// The bookmark is being linked to its tags.
    LinkingTags { id: i64 },
    /// The request has been answered.
    Finished,
}

/// Where a change stands, as plain values.
pub enum UpdateStateView {
    Checking { user: i64, id: i64, url: Seq<char>, title: Seq<char>, tag_field: Option<Seq<char>> },
    ClearingLinks { id: i64, url: Seq<char>, title: Seq<char>, tags: Seq<Seq<char>> },
    Updating { id: i64, tags: Seq<Seq<char>> },
    AddingTags { id: i64, tags: Seq<Seq<char>> },
    LinkingTags { id: i64 },
    Finished,
}

impl View for UpdateState {
    type V = UpdateStateView;

    open spec fn view(&self) -> UpdateStateView {
        match self {
            UpdateState::Checking { user, id, url, title, tag_field } => UpdateStateView::Checking {
                user: *user,
                id: *id,
                url: url@,
                title: title@,
                tag_field: opt_view(*tag_field),
            },
            UpdateState::ClearingLinks { id, url, title, tags } => UpdateStateView::ClearingLinks {
                id: *id,
                url: url@,
                title: title@,
                tags: string_views(tags@),
            },
            UpdateState::Updating { id, tags } => UpdateStateView::Updating {
                id: *id,
                tags: string_views(tags@),
            },
            UpdateState::AddingTags { id, tags } => UpdateStateView::AddingTags {
                id: *id,
                tags: string_views(tags@),
            },
            UpdateState::LinkingTags { id } => UpdateStateView::LinkingTags { id: *id },
            UpdateState::Finished => UpdateStateView::Finished,
        }
    }
}

/// How a change begins: an anonymous request is sent to log in; otherwise
/// the bookmark is read.
pub open spec fn update_begin(
    user: Option<i64>,
    id: i64,
    url: Seq<char>,
    title: Seq<char>,
    tags: Option<Seq<char>>,
) -> (UpdateStateView, CommandView) {
    match user {
        None => (UpdateStateView::Finished, respond(to_login())),
        Some(u) => (
            UpdateStateView::Checking { user: u, id, url, title, tag_field: tags },
            CommandView::LoadBookmark { id },
        ),
    }
}

/// How a change moves on when `e` comes back. What storing and linking the
/// tags come to is not looked at: the bookmark's page is shown either way.
pub open spec fn update_next(s: UpdateStateView, e: EventView) -> (UpdateStateView, CommandView) {
    match s {
        UpdateStateView::Checking { user, id, url, title, tag_field } => match e {
            EventView::Bookmark(BookmarkLookupView::Found(b)) => if b.user_id == user {
                (
                    UpdateStateView::ClearingLinks { id, url, title, tags: field_tags(tag_field) },
                    CommandView::ClearTagLinks { bookmark_id: id },
                )
            } else {
                (
                    UpdateStateView::Finished,
                    respond(not_yours("You can only update your own bookmarks"@)),
                )
            },
            EventView::Bookmark(_) => (UpdateStateView::Finished, respond(bookmark_missing())),
            _ => (UpdateStateView::Finished, respond(database_failure())),
        },
        UpdateStateView::ClearingLinks { id, url, title, tags } => if e == EventView::Done(true) {
            (UpdateStateView::Updating { id, tags }, CommandView::UpdateBookmark { id, url, title })
        } else {
            (UpdateStateView::Finished, respond(database_failure()))
        },
        UpdateStateView::Updating { id, tags } => if e == EventView::Done(true) {
            if tags.len() == 0 {
                (
                    UpdateStateView::Finished,
                    respond(ReplyView::Redirect { to: bookmark_path(id) }),
                )
            } else {
                (
                    UpdateStateView::AddingTags { id, tags },
                    CommandView::InsertTags { sql: tag_insert_sql(tags.len()), tags },
                )
            }
        } else {
            (UpdateStateView::Finished, respond(database_failure()))
        },
        UpdateStateView::AddingTags { id, tags } => if e is Done {
            (
                UpdateStateView::LinkingTags { id },
                CommandView::LinkTags { sql: tag_link_sql(tags.len()), bookmark_id: id, tags },
            )
        } else {
            (UpdateStateView::Finished, respond(database_failure()))
        },
        UpdateStateView::LinkingTags { id } => if e is Done {
            (UpdateStateView::Finished, respond(ReplyView::Redirect { to: bookmark_path(id) }))
        } else {
            (UpdateStateView::Finished, respond(database_failure()))
        },
        UpdateStateView::Finished => (UpdateStateView::Finished, respond(database_failure())),
    }
}

/// The commands a change issues from `s` as `events` come back.
pub open spec fn update_trace(s: UpdateStateView, events: Seq<EventView>) -> Seq<CommandView>
    decreases events.len(),
{
    if events.len() == 0 {
        Seq::empty()
    } else {
        let (t, c) = update_next(s, events[0]);
        seq![c] + update_trace(t, events.drop_first())
    }
}

impl UpdateState {
    /// Begins changing bookmark `id` as `form` asks, for the session's user, if any.
    pub fn begin(user: Option<i64>, id: i64, form: UpdateBookmarkForm) -> (r: (
        UpdateState,
        Command,
    ))
        ensures
            (r.0@, r.1@) == update_begin(user, id, form.url@, form.title@, opt_view(form.tags)),
    {
        match user {
            None => (UpdateState::Finished, answer(redirect("/login"))),
            Some(u) => (
                UpdateState::Checking {
                    user: u,
                    id,
                    url: form.url,
                    title: form.title,
                    tag_field: form.tags,
                },
                Command::LoadBookmark { id },
            ),
        }
    }

    /// Moves on with what the last command came to.
    pub fn step(self, event: Event) -> (r: (UpdateState, Command))
        ensures
            (r.0@, r.1@) == update_next(self@, event@),
    {
        match self {
            UpdateState::Checking { user, id, url, title, tag_field } => match event {
                Event::Bookmark(BookmarkLookup::Found(b)) => {
                    if b.user_id == user {
                        let tags = parse_tags(&tag_field);
                        (
                            UpdateState::ClearingLinks { id, url, title, tags },
                            Command::ClearTagLinks { bookmark_id: id },
                        )
                    } else {
                        (
                            UpdateState::Finished,
                            answer(text(Status::Forbidden, "You can only update your own bookmarks")),
                        )
                    }
                },
                Event::Bookmark(_) => (
                    UpdateState::Finished,
                    answer(text(Status::NotFound, "Bookmark not found")),
                ),
                _ => (UpdateState::Finished, answer(database_error())),
            },
            UpdateState::ClearingLinks { id, url, title, tags } => match event {
                Event::Done(true) => (
                    UpdateState::Updating { id, tags },
                    Command::UpdateBookmark { id, url, title },
                ),
                _ => (UpdateState::Finished, answer(database_error())),
            },
            UpdateState::Updating { id, tags } => match event {
                Event::Done(true) => {
                    if tags.len() == 0 {
                        (
                            UpdateState::Finished,
                            answer(Reply::Redirect { to: bookmark_location(id) }),
                        )
                    } else {
                        let sql = tag_insert_statement(tags.len());
                        let kept = copy_strings(&tags);
                        (UpdateState::AddingTags { id, tags: kept }, Command::InsertTags { sql, tags })
                    }
                },
                _ => (UpdateState::Finished, answer(database_error())),
            },
            UpdateState::AddingTags { id, tags } => match event {
                Event::Done(_) => {
                    let sql = tag_link_statement(tags.len());
                    (UpdateState::LinkingTags { id }, Command::LinkTags { sql, bookmark_id: id, tags })
                },
                _ => (UpdateState::Finished, answer(database_error())),
            },
            UpdateState::LinkingTags { id } => match event {
                Event::Done(_) => (
                    UpdateState::Finished,
                    answer(Reply::Redirect { to: bookmark_location(id) }),
                ),
                _ => (UpdateState::Finished, answer(database_error())),
            },
            UpdateState::Finished => (UpdateState::Finished, answer(database_error())),
        }
    }
}

proof fn lemma_finished_update_writes_nothing(events: Seq<EventView>)
    ensures
        forall|k: int|
            0 <= k < update_trace(UpdateStateView::Finished, events).len() ==> !is_write(
                #[trigger] update_trace(UpdateStateView::Finished, events)[k],
            ),
    decreases events.len(),
{
    if events.len() > 0 {
        lemma_finished_update_writes_nothing(events.drop_first());
        let rest = update_trace(UpdateStateView::Finished, events.drop_first());
        assert(update_trace(UpdateStateView::Finished, events) == seq![respond(database_failure())]
            + rest);
    }
}

/// Only the owner changes a bookmark: whatever comes back, a change writes to
/// the store only when reading the bookmark found it owned by the session's user.
pub proof fn lemma_only_owner_updates(
    user: i64,
    id: i64,
    url: Seq<char>,
    title: Seq<char>,
    tags: Option<Seq<char>>,
    events: Seq<EventView>,
)
    ensures
        forall|k: int|
            0 <= k < update_trace(UpdateStateView::Checking { user, id, url, title, tag_field: tags }, events).len()
                && is_write(
                #[trigger] update_trace(
                    UpdateStateView::Checking { user, id, url, title, tag_field: tags },
                    events,
                )[k],
            ) ==> found_owned_by(events[0], user),
{
    if events.len() > 0 {
        let s = UpdateStateView::Checking { user, id, url, title, tag_field: tags };
        let (t, c) = update_next(s, events[0]);
        let trace = update_trace(s, events);
        assert(trace == seq![c] + update_trace(t, events.drop_first()));
        if !found_owned_by(events[0], user) {
            assert(t == UpdateStateView::Finished);
            lemma_finished_update_writes_nothing(events.drop_first());
            assert forall|k: int| 0 <= k < trace.len() implies !is_write(#[trigger] trace[k]) by {
                if k > 0 {
                    assert(trace[k] == update_trace(t, events.drop_first())[k - 1]);
                }
            }
        }
    }
}


// ─── Creating a bookmark ───────────────────────────────────────────────────
/// Where the creation of a bookmark stands.
pub enum CreateState {
    /// The bookmark row is being added; `tags` follow it.
    Inserting { tags: Vec<String> },
    /// The tag names of bookmark `id` are being stored.
    AddingTags { id: i64, tags: Vec<String> },
    /// Bookmark `id` is being linked to its tags.
    LinkingTags { id: i64 },
    /// The request has been answered.
    Finished,
}

/// Where a creation stands, as plain values.
pub enum CreateStateView {
    Inserting { tags: Seq<Seq<char>> },
    AddingTags { id: i64, tags: Seq<Seq<char>> },
    LinkingTags { id: i64 },
    Finished,
}

impl View for CreateState {
    type V = CreateStateView;

    open spec fn view(&self) -> CreateStateView {
        match self {
            CreateState::Inserting { tags } => CreateStateView::Inserting { tags: string_views(tags@) },
            CreateState::AddingTags { id, tags } => CreateStateView::AddingTags {
                id: *id,
                tags: string_views(tags@),
            },
            CreateState::LinkingTags { id } => CreateStateView::LinkingTags { id: *id },
            CreateState::Finished => CreateStateView::Finished,
        }
    }
}

/// How a creation begins: an anonymous request is sent to log in; otherwise
/// the bookmark row is added, owned by the session's user.
pub open spec fn create_begin(
    user: Option<i64>,
    url: Seq<char>,
    title: Seq<char>,
    tags: Option<Seq<char>>,
) -> (CreateStateView, CommandView) {
    match user {
        None => (CreateStateView::Finished, respond(to_login())),
        Some(u) => (
            CreateStateView::Inserting { tags: field_tags(tags) },
            CommandView::InsertBookmark { user_id: u, url, title },
        ),
    }
}

/// How a creation moves on when `e` comes back; every failure is a database error.
pub open spec fn create_next(s: CreateStateView, e: EventView) -> (CreateStateView, CommandView) {
    match s {
        CreateStateView::Inserting { tags } => match e {
            EventView::Created(Some(id)) => if tags.len() == 0 {
                (CreateStateView::Finished, respond(ReplyView::Redirect { to: bookmark_path(id) }))
            } else {
                (
                    CreateStateView::AddingTags { id, tags },
                    CommandView::InsertTags { sql: tag_insert_sql(tags.len()), tags },
                )
            },
            _ => (CreateStateView::Finished, respond(database_failure())),
        },
        CreateStateView::AddingTags { id, tags } => if e == EventView::Done(true) {
            (
                CreateStateView::LinkingTags { id },
                CommandView::LinkTags { sql: tag_link_sql(tags.len()), bookmark_id: id, tags },
            )
        } else {
            (CreateStateView::Finished, respond(database_failure()))
        },
        CreateStateView::LinkingTags { id } => if e == EventView::Done(true) {
            (CreateStateView::Finished, respond(ReplyView::Redirect { to: bookmark_path(id) }))
        } else {
            (CreateStateView::Finished, respond(database_failure()))
        },
        CreateStateView::Finished => (CreateStateView::Finished, respond(database_failure())),
    }
}

impl CreateState {
    /// Begins creating the bookmark that `form` describes, for the session's user, if any.
    pub fn begin(user: Option<i64>, form: CreateBookmarkForm) -> (r: (CreateState, Command))
        ensures
            (r.0@, r.1@) == create_begin(user, form.url@, form.title@, opt_view(form.tags)),
    {
        match user {
            None => (CreateState::Finished, answer(redirect("/login"))),
            Some(u) => {
                let tags = parse_tags(&form.tags);
                (
                    CreateState::Inserting { tags },
                    Command::InsertBookmark { user_id: u, url: form.url, title: form.title },
                )
            },
        }
    }

    /// Moves on with what the last command came to.
    pub fn step(self, event: Event) -> (r: (CreateState, Command))
        ensures
            (r.0@, r.1@) == create_next(self@, event@),
    {
        match self {
            CreateState::Inserting { tags } => match event {
                Event::Created(Some(id)) => {
                    if tags.len() == 0 {
                        (CreateState::Finished, answer(Reply::Redirect { to: bookmark_location(id) }))
                    } else {
                        let sql = tag_insert_statement(tags.len());
                        let kept = copy_strings(&tags);
                        (CreateState::AddingTags { id, tags: kept }, Command::InsertTags { sql, tags })
                    }
                },
                _ => (CreateState::Finished, answer(database_error())),
            },
            CreateState::AddingTags { id, tags } => match event {
                Event::Done(true) => {
                    let sql = tag_link_statement(tags.len());
                    (CreateState::LinkingTags { id }, Command::LinkTags { sql, bookmark_id: id, tags })
                },
                _ => (CreateState::Finished, answer(database_error())),
            },
            CreateState::LinkingTags { id } => match event {
                Event::Done(true) => (
                    CreateState::Finished,
                    answer(Reply::Redirect { to: bookmark_location(id) }),
                ),
                _ => (CreateState::Finished, answer(database_error())),
            },
            CreateState::Finished => (CreateState::Finished, answer(database_error())),
        }
    }
}

// ─── The form that changes a bookmark ──────────────────────────────────────
/// Where a request for the edit form stands.
#[derive(Clone, Copy, Debug, PartialEq, Eq, Structural)]
pub enum EditState {
    /// The bookmark is being read, to see whether `user` owns it.
    Checking { user: i64 },
    /// The request has been answered.
    Finished,
}

/// How a request for the edit form begins: an anonymous request is sent to
/// log in; otherwise bookmark `id` is read.
pub open spec fn edit_begin(user: Option<i64>, id: i64) -> (EditState, CommandView) {
    match user {
        None => (EditState::Finished, respond(to_login())),
        Some(u) => (EditState::Checking { user: u }, CommandView::LoadBookmark { id }),
    }
}

/// How a request for the edit form ends when `e` comes back.
pub open spec fn edit_next(s: EditState, e: EventView) -> (EditState, CommandView) {
    match s {
        EditState::Checking { user } => match e {
            EventView::Bookmark(BookmarkLookupView::Found(b)) => if b.user_id == user {
                (
                    EditState::Finished,
                    respond(
                        ReplyView::Render { status: Status::Success, page: PageView::Edit { bookmark: b } },
                    ),
                )
            } else {
                (EditState::Finished, respond(not_yours("You can only edit your own bookmarks"@)))
            },
            EventView::Bookmark(_) => (EditState::Finished, respond(bookmark_missing())),
            _ => (EditState::Finished, respond(database_failure())),
        },
        EditState::Finished => (EditState::Finished, respond(database_failure())),
    }
}

impl EditState {
    /// Begins a request for the form that changes bookmark `id`.
    pub fn begin(user: Option<i64>, id: i64) -> (r: (EditState, Command))
        ensures
            (r.0, r.1@) == edit_begin(user, id),
    {
        match user {
            None => (EditState::Finished, answer(redirect("/login"))),
            Some(u) => (EditState::Checking { user: u }, Command::LoadBookmark { id }),
        }
    }

    /// Moves on with what the last command came to.
    pub fn step(self, event: Event) -> (r: (EditState, Command))
        ensures
            (r.0, r.1@) == edit_next(self, event@),
    {
        match self {
            EditState::Checking { user } => match event {
                Event::Bookmark(BookmarkLookup::Found(bookmark)) => {
                    if bookmark.user_id == user {
                        (
                            EditState::Finished,
                            answer(Reply::Render { status: Status::Success, page: Page::Edit { bookmark } }),
                        )
                    } else {
                        (
                            EditState::Finished,
                            answer(text(Status::Forbidden, "You can only edit your own bookmarks")),
                        )
                    }
                },
                Event::Bookmark(_) => (
                    EditState::Finished,
                    answer(text(Status::NotFound, "Bookmark not found")),
                ),
                _ => (EditState::Finished, answer(database_error())),
            },
            EditState::Finished => (EditState::Finished, answer(database_error())),
        }
    }
}

/// The answer shows the form that changes a bookmark.
pub open spec fn shows_edit_form(c: CommandView) -> bool {
    match c {
        CommandView::Respond { reply: ReplyView::Render { page: PageView::Edit { .. }, .. } } => true,
        _ => false,
    }
}

/// Only the owner is shown the form that changes a bookmark.
pub proof fn lemma_only_owner_sees_edit_form(s: EditState, e: EventView)
    ensures
        shows_edit_form(edit_next(s, e).1) ==> (s matches EditState::Checking { user }
            && found_owned_by(e, user)),
{
}

/// An anonymous request to create, change, delete or edit a bookmark is sent to
/// the login page, and changes nothing.
pub proof fn lemma_anonymous_goes_to_login(
    id: i64,
    url: Seq<char>,
    title: Seq<char>,
    tags: Option<Seq<char>>,
)
    ensures
        create_begin(None, url, title, tags).1 == (CommandView::Respond {
            reply: ReplyView::Redirect { to: "/login"@ },
        }),
        update_begin(None, id, url, title, tags).1 == (CommandView::Respond {
            reply: ReplyView::Redirect { to: "/login"@ },
        }),
        delete_begin(None, id).1 == (CommandView::Respond {
            reply: ReplyView::Redirect { to: "/login"@ },
        }),
        edit_begin(None, id).1 == (CommandView::Respond {
            reply: ReplyView::Redirect { to: "/login"@ },
        }),
{
}

// ─── What each request does when the store goes along ──────────────────────
/// The text of an optional form field, empty when it is absent.
pub open spec fn field_text(field: Option<Seq<char>>) -> Seq<char> {
    match field {
        Some(t) => t,
        None => Seq::<char>::empty(),
    }
}

/// The commands a creation issues from `s` as `events` come back.
pub open spec fn create_trace(s: CreateStateView, events: Seq<EventView>) -> Seq<CommandView>
    decreases events.len(),
{
    if events.len() == 0 {
        Seq::empty()
    } else {
        let (t, c) = create_next(s, events[0]);
        seq![c] + create_trace(t, events.drop_first())
    }
}

/// Creating a bookmark adds a row owned by the session's user with the address
/// and title typed, then, once the row has its identifier, stores and links
/// every tag typed, and only then shows the new bookmark. No tag is dropped:
/// with at least one tag, the answer to the new identifier is to store exactly
/// those tags.
pub proof fn lemma_create_keeps_every_tag(
    user: i64,
    url: Seq<char>,
    title: Seq<char>,
    field: Option<Seq<char>>,
    id: i64,
)
    ensures
        create_begin(Some(user), url, title, field).1 == (CommandView::InsertBookmark {
            user_id: user,
            url,
            title,
        }),
        create_begin(Some(user), url, title, field).0 == (CreateStateView::Inserting {
            tags: tag_list(field_text(field)),
        }),
        ({
            let typed = tag_list(field_text(field));
            let s = CreateStateView::Inserting { tags: typed };
            &&& typed.len() == 0 ==> create_trace(s, seq![EventView::Created(Some(id))]) == seq![
                respond(ReplyView::Redirect { to: bookmark_path(id) }),
            ]
            &&& typed.len() > 0 ==> create_trace(
                s,
                seq![EventView::Created(Some(id)), EventView::Done(true), EventView::Done(true)],
            ) == seq![
                CommandView::InsertTags { sql: tag_insert_sql(typed.len()), tags: typed },
                CommandView::LinkTags { sql: tag_link_sql(typed.len()), bookmark_id: id, tags: typed },
                respond(ReplyView::Redirect { to: bookmark_path(id) }),
            ]
        }),
{
    lemma_tags_are_never_dropped(tag_list(field_text(field)), id);
}

/// From any creation waiting for its row, a non-empty tag list is stored and
/// linked to the new identifier before the bookmark is shown.
pub proof fn lemma_tags_are_never_dropped(tags: Seq<Seq<char>>, id: i64)
    ensures
        tags.len() > 0 ==> create_next(
            CreateStateView::Inserting { tags },
            EventView::Created(Some(id)),
        ).1 == (CommandView::InsertTags { sql: tag_insert_sql(tags.len()), tags }),
        tags.len() == 0 ==> create_trace(
            CreateStateView::Inserting { tags },
            seq![EventView::Created(Some(id))],
        ) == seq![respond(ReplyView::Redirect { to: bookmark_path(id) })],
        tags.len() > 0 ==> create_trace(
            CreateStateView::Inserting { tags },
            seq![EventView::Created(Some(id)), EventView::Done(true), EventView::Done(true)],
        ) == seq![
            CommandView::InsertTags { sql: tag_insert_sql(tags.len()), tags },
            CommandView::LinkTags { sql: tag_link_sql(tags.len()), bookmark_id: id, tags },
            respond(ReplyView::Redirect { to: bookmark_path(id) }),
        ],
{
    let s = CreateStateView::Inserting { tags };
    let one = seq![EventView::Created(Some(id))];
    assert(one.drop_first() =~= Seq::<EventView>::empty());
    assert(create_trace(s, one) =~= seq![create_next(s, one[0]).1] + create_trace(
        create_next(s, one[0]).0,
        Seq::<EventView>::empty(),
    ));
    let three = seq![EventView::Created(Some(id)), EventView::Done(true), EventView::Done(true)];
    let s1 = create_next(s, three[0]).0;
    let s2 = create_next(s1, three[1]).0;
    let s3 = create_next(s2, three[2]).0;
    assert(three.drop_first() =~= seq![EventView::Done(true), EventView::Done(true)]);
    assert(three.drop_first().drop_first() =~= seq![EventView::Done(true)]);
    assert(three.drop_first().drop_first().drop_first() =~= Seq::<EventView>::empty());
    assert(create_trace(s2, three.drop_first().drop_first()) =~= seq![create_next(s2, three[2]).1]
        + create_trace(s3, Seq::<EventView>::empty()));
    assert(create_trace(s1, three.drop_first()) =~= seq![create_next(s1, three[1]).1] + create_trace(
        s2,
        three.drop_first().drop_first(),
    ));
    assert(create_trace(s, three) =~= seq![create_next(s, three[0]).1] + create_trace(
        s1,
        three.drop_first(),
    ));
}

/// The owner's change, with the store going along, clears the bookmark's tag
/// links, writes the address and title typed, stores and links exactly the
/// tags typed (whatever tags the bookmark had), and shows the bookmark. What
/// storing and linking the tags come to does not change the answer.
pub proof fn lemma_owner_update_sets_the_typed_tags(
    user: i64,
    id: i64,
    url: Seq<char>,
    title: Seq<char>,
    field: Option<Seq<char>>,
    found: crate::model::BookmarkView,
    stored: bool,
    linked: bool,
)
    requires
        found.user_id == user,
    ensures
        update_begin(Some(user), id, url, title, field).1 == (CommandView::LoadBookmark { id }),
        ({
            let s = update_begin(Some(user), id, url, title, field).0;
            let typed = tag_list(field_text(field));
            let e = EventView::Bookmark(BookmarkLookupView::Found(found));
            &&& typed.len() == 0 ==> update_trace(
                s,
                seq![e, EventView::Done(true), EventView::Done(true)],
            ) == seq![
                CommandView::ClearTagLinks { bookmark_id: id },
                CommandView::UpdateBookmark { id, url, title },
                respond(ReplyView::Redirect { to: bookmark_path(id) }),
            ]
            &&& typed.len() > 0 ==> update_trace(
                s,
                seq![
                    e,
                    EventView::Done(true),
                    EventView::Done(true),
                    EventView::Done(stored),
                    EventView::Done(linked),
                ],
            ) == seq![
                CommandView::ClearTagLinks { bookmark_id: id },
                CommandView::UpdateBookmark { id, url, title },
                CommandView::InsertTags { sql: tag_insert_sql(typed.len()), tags: typed },
                CommandView::LinkTags { sql: tag_link_sql(typed.len()), bookmark_id: id, tags: typed },
                respond(ReplyView::Redirect { to: bookmark_path(id) }),
            ]
        }),
{
    let s = update_begin(Some(user), id, url, title, field).0;
    let e = EventView::Bookmark(BookmarkLookupView::Found(found));
    let ev = seq![
        e,
        EventView::Done(true),
        EventView::Done(true),
        EventView::Done(stored),
        EventView::Done(linked),
    ];
    let s1 = update_next(s, ev[0]).0;
    let s2 = update_next(s1, ev[1]).0;
    let s3 = update_next(s2, ev[2]).0;
    let s4 = update_next(s3, ev[3]).0;
    let s5 = update_next(s4, ev[4]).0;
    let r1 = ev.drop_first();
    let r2 = r1.drop_first();
    let r3 = r2.drop_first();
    let r4 = r3.drop_first();
    let r5 = r4.drop_first();
    assert(r1 =~= ev.subrange(1, 5));
    assert(r2 =~= ev.subrange(2, 5));
    assert(r3 =~= ev.subrange(3, 5));
    assert(r4 =~= ev.subrange(4, 5));
    assert(r5 =~= Seq::<EventView>::empty());
    assert(update_trace(s4, r4) =~= seq![update_next(s4, ev[4]).1] + update_trace(s5, r5));
    assert(update_trace(s3, r3) =~= seq![update_next(s3, ev[3]).1] + update_trace(s4, r4));
    assert(update_trace(s2, r2) =~= seq![update_next(s2, ev[2]).1] + update_trace(s3, r3));
    assert(update_trace(s1, r1) =~= seq![update_next(s1, ev[1]).1] + update_trace(s2, r2));
    assert(update_trace(s, ev) =~= seq![update_next(s, ev[0]).1] + update_trace(s1, r1));
    let short = seq![e, EventView::Done(true), EventView::Done(true)];
    let q1 = short.drop_first();
    let q2 = q1.drop_first();
    let q3 = q2.drop_first();
    assert(q1 =~= seq![EventView::Done(true), EventView::Done(true)]);
    assert(q2 =~= seq![EventView::Done(true)]);
    assert(q3 =~= Seq::<EventView>::empty());
    assert(update_trace(s2, q2) =~= seq![update_next(s2, short[2]).1] + update_trace(s3, q3));
    assert(update_trace(s1, q1) =~= seq![update_next(s1, short[1]).1] + update_trace(s2, q2));
    assert(update_trace(s, short) =~= seq![update_next(s, short[0]).1] + update_trace(s1, q1));
}

/// The owner's deletion, with the store going along, clears the bookmark's tag
/// links, removes its row and shows the list: the owner is never refused,
/// whatever the bookmark holds.
pub proof fn lemma_owner_deletes(user: i64, id: i64, found: crate::model::BookmarkView)
    requires
        found.user_id == user,
    ensures
        delete_begin(Some(user), id) == (
            DeleteState::Checking { user, id },
            CommandView::LoadBookmark { id },
        ),
        delete_trace(
            DeleteState::Checking { user, id },
            seq![
                EventView::Bookmark(BookmarkLookupView::Found(found)),
                EventView::Done(true),
                EventView::Done(true),
            ],
        ) == seq![
            CommandView::ClearTagLinks { bookmark_id: id },
            CommandView::DeleteBookmark { id },
            respond(ReplyView::Redirect { to: "/bookmarks"@ }),
        ],
{
    let s = DeleteState::Checking { user, id };
    let ev = seq![
        EventView::Bookmark(BookmarkLookupView::Found(found)),
        EventView::Done(true),
        EventView::Done(true),
    ];
    let s1 = delete_next(s, ev[0]).0;
    let s2 = delete_next(s1, ev[1]).0;
    let s3 = delete_next(s2, ev[2]).0;
    let q1 = ev.drop_first();
    let q2 = q1.drop_first();
    let q3 = q2.drop_first();
    assert(q1 =~= seq![EventView::Done(true), EventView::Done(true)]);
    assert(q2 =~= seq![EventView::Done(true)]);
    assert(q3 =~= Seq::<EventView>::empty());
    assert(delete_trace(s2, q2) =~= seq![delete_next(s2, ev[2]).1] + delete_trace(s3, q3));
    assert(delete_trace(s1, q1) =~= seq![delete_next(s1, ev[1]).1] + delete_trace(s2, q2));
    assert(delete_trace(s, ev) =~= seq![delete_next(s, ev[0]).1] + delete_trace(s1, q1));
}

/// Whoever asks to change or delete a bookmark that someone else owns is told
/// so with status 403, and one that is not there (or cannot be read) is
/// answered 404 "Bookmark not found".
pub proof fn lemma_others_and_missing_are_refused(
    user: i64,
    id: i64,
    url: Seq<char>,
    title: Seq<char>,
    field: Option<Seq<char>>,
    found: crate::model::BookmarkView,
    lookup: BookmarkLookupView,
)
    requires
        found.user_id != user,
        !(lookup is Found),
    ensures
        delete_next(
            DeleteState::Checking { user, id },
            EventView::Bookmark(BookmarkLookupView::Found(found)),
        ).1 == respond(
            ReplyView::Text {
                status: Status::Forbidden,
                body: "You can only delete your own bookmarks"@,
            },
        ),
        update_next(
            UpdateStateView::Checking { user, id, url, title, tag_field: field },
            EventView::Bookmark(BookmarkLookupView::Found(found)),
        ).1 == respond(
            ReplyView::Text {
                status: Status::Forbidden,
                body: "You can only update your own bookmarks"@,
            },
        ),
        edit_next(
            EditState::Checking { user },
            EventView::Bookmark(BookmarkLookupView::Found(found)),
        ).1 == respond(
            ReplyView::Text { status: Status::Forbidden, body: "You can only edit your own bookmarks"@ },
        ),
        delete_next(DeleteState::Checking { user, id }, EventView::Bookmark(lookup)).1 == respond(
            ReplyView::Text { status: Status::NotFound, body: "Bookmark not found"@ },
        ),
        update_next(
            UpdateStateView::Checking { user, id, url, title, tag_field: field },
            EventView::Bookmark(lookup),
        ).1 == respond(ReplyView::Text { status: Status::NotFound, body: "Bookmark not found"@ }),
        edit_next(EditState::Checking { user }, EventView::Bookmark(lookup)).1 == respond(
            ReplyView::Text { status: Status::NotFound, body: "Bookmark not found"@ },
        ),
{
}

/// The owner is shown the edit form holding the bookmark exactly as it was
/// read, tags included.
pub proof fn lemma_owner_edits_the_bookmark_as_read(
    user: i64,
    id: i64,
    found: crate::model::BookmarkView,
)
    requires
        found.user_id == user,
    ensures
        edit_begin(Some(user), id) == (EditState::Checking { user }, CommandView::LoadBookmark { id }),
        edit_next(
            EditState::Checking { user },
            EventView::Bookmark(BookmarkLookupView::Found(found)),
        ).1 == respond(
            ReplyView::Render { status: Status::Success, page: PageView::Edit { bookmark: found } },
        ),
{
}

/// When the store fails a step that the request depends on, the request is
/// answered with status 500 and the text "database error".
pub proof fn lemma_store_failures_are_database_errors(
    id: i64,
    url: Seq<char>,
    title: Seq<char>,
    tags: Seq<Seq<char>>,
)
    ensures
        ({
            let failed = CommandView::Respond {
                reply: ReplyView::Text {
                    status: Status::InternalServerError,
                    body: "database error"@,
                },
            };
            &&& delete_next(DeleteState::ClearingLinks { id }, EventView::Done(false)).1 == failed
            &&& delete_next(DeleteState::Deleting { id }, EventView::Done(false)).1 == failed
            &&& update_next(
                UpdateStateView::ClearingLinks { id, url, title, tags },
                EventView::Done(false),
            ).1 == failed
            &&& update_next(UpdateStateView::Updating { id, tags }, EventView::Done(false)).1
                == failed
            &&& create_next(CreateStateView::Inserting { tags }, EventView::Created(None)).1
                == failed
            &&& create_next(CreateStateView::AddingTags { id, tags }, EventView::Done(false)).1
                == failed
            &&& create_next(CreateStateView::LinkingTags { id }, EventView::Done(false)).1
                == failed
        }),
{
}

} // verus!
