use web_server::flows::{CreateState, DeleteState, EditState, UpdateState};
use web_server::model::{Bookmark, CreateBookmarkForm, UpdateBookmarkForm};
use web_server::web::{
    detail_reply, list_reply, BookmarkLookup, Command, Event, Page, Reply, Status,
};

fn bookmark(id: i64, owner: i64) -> Bookmark {
    Bookmark {
        id,
        user_id: owner,
        url: "https://example.com".to_string(),
        title: "Example".to_string(),
        tags: vec![],
    }
}

fn redirect_of(c: &Command) -> Option<String> {
    match c {
        Command::Respond { reply: Reply::Redirect { to } } => Some(to.clone()),
        _ => None,
    }
}

fn text_of(c: &Command) -> Option<(Status, String)> {
    match c {
        Command::Respond { reply: Reply::Text { status, body } } => Some((*status, body.clone())),
        _ => None,
    }
}

fn create_form(tags: Option<&str>) -> CreateBookmarkForm {
    CreateBookmarkForm {
        url: "https://example.com".to_string(),
        title: "Example".to_string(),
        tags: tags.map(|t| t.to_string()),
    }
}

fn update_form(tags: Option<&str>) -> UpdateBookmarkForm {
    UpdateBookmarkForm {
        url: "https://new-example.com".to_string(),
        title: "Updated".to_string(),
        tags: tags.map(|t| t.to_string()),
    }
}

#[test]
fn anonymous_create_goes_to_login() {
    let (_, c) = CreateState::begin(None, create_form(None));
    assert_eq!(redirect_of(&c).as_deref(), Some("/login"));
}

#[test]
fn create_without_tags_redirects_to_the_new_bookmark() {
    let (s, c) = CreateState::begin(Some(4), create_form(None));
    match &c {
        Command::InsertBookmark { user_id, url, title } => {
            assert_eq!(*user_id, 4);
            assert_eq!(url, "https://example.com");
            assert_eq!(title, "Example");
        }
        _ => panic!("expected the bookmark row to be added"),
    }
    let (_, c) = s.step(Event::Created(Some(1)));
    assert_eq!(redirect_of(&c).as_deref(), Some("/bookmarks/1"));
}

#[test]
fn create_with_tags_stores_and_links_them() {
    let (s, _) = CreateState::begin(Some(4), create_form(Some("rust,async")));
    let (s, c) = s.step(Event::Created(Some(12)));
    match &c {
        Command::InsertTags { sql, tags } => {
            assert_eq!(sql, "insert or ignore into tag (name) values (?), (?)");
            assert_eq!(tags, &vec!["rust".to_string(), "async".to_string()]);
        }
        _ => panic!("expected the tag names to be stored"),
    }
    let (s, c) = s.step(Event::Done(true));
    match &c {
        Command::LinkTags { sql, bookmark_id, tags } => {
            assert_eq!(
                sql,
                "INSERT INTO bookmark_tag (bookmark_id, tag_id) SELECT ?, id FROM tag WHERE name IN (?, ?)"
            );
            assert_eq!(*bookmark_id, 12);
            assert_eq!(tags, &vec!["rust".to_string(), "async".to_string()]);
        }
        _ => panic!("expected the tags to be linked"),
    }
    let (_, c) = s.step(Event::Done(true));
    assert_eq!(redirect_of(&c).as_deref(), Some("/bookmarks/12"));
}

#[test]
fn create_fails_with_the_database() {
    let (s, _) = CreateState::begin(Some(4), create_form(Some("a")));
    let (_, c) = s.step(Event::Created(None));
    assert_eq!(text_of(&c), Some((Status::InternalServerError, "database error".to_string())));
    let (s, _) = CreateState::begin(Some(4), create_form(Some("a")));
    let (s, _) = s.step(Event::Created(Some(2)));
    let (_, c) = s.step(Event::Done(false));
    assert_eq!(text_of(&c), Some((Status::InternalServerError, "database error".to_string())));
}

#[test]
fn anonymous_delete_and_edit_go_to_login() {
    let (_, c) = DeleteState::begin(None, 1);
    assert_eq!(redirect_of(&c).as_deref(), Some("/login"));
    let (_, c) = EditState::begin(None, 1);
    assert_eq!(redirect_of(&c).as_deref(), Some("/login"));
    let (_, c) = UpdateState::begin(None, 1, update_form(None));
    assert_eq!(redirect_of(&c).as_deref(), Some("/login"));
}

#[test]
fn owner_deletes_then_goes_to_the_list() {
    let (s, c) = DeleteState::begin(Some(3), 1);
    assert!(matches!(c, Command::LoadBookmark { id: 1 }));
    let (s, c) = s.step(Event::Bookmark(BookmarkLookup::Found(bookmark(1, 3))));
    assert!(matches!(c, Command::ClearTagLinks { bookmark_id: 1 }));
    let (s, c) = s.step(Event::Done(true));
    assert!(matches!(c, Command::DeleteBookmark { id: 1 }));
    let (_, c) = s.step(Event::Done(true));
    assert_eq!(redirect_of(&c).as_deref(), Some("/bookmarks"));
}

#[test]
fn non_owner_cannot_delete_edit_or_update() {
    let (s, _) = DeleteState::begin(Some(2), 1);
    let (_, c) = s.step(Event::Bookmark(BookmarkLookup::Found(bookmark(1, 3))));
    assert_eq!(
        text_of(&c),
        Some((Status::Forbidden, "You can only delete your own bookmarks".to_string()))
    );
    let (s, _) = EditState::begin(Some(2), 1);
    let (_, c) = s.step(Event::Bookmark(BookmarkLookup::Found(bookmark(1, 3))));
    assert_eq!(
        text_of(&c),
        Some((Status::Forbidden, "You can only edit your own bookmarks".to_string()))
    );
    let (s, _) = UpdateState::begin(Some(2), 1, update_form(None));
    let (_, c) = s.step(Event::Bookmark(BookmarkLookup::Found(bookmark(1, 3))));
    assert_eq!(
        text_of(&c),
        Some((Status::Forbidden, "You can only update your own bookmarks".to_string()))
    );
}

#[test]
fn missing_bookmark_cannot_be_deleted() {
    let (s, _) = DeleteState::begin(Some(2), 9);
    let (_, c) = s.step(Event::Bookmark(BookmarkLookup::Missing));
    assert_eq!(text_of(&c), Some((Status::NotFound, "Bookmark not found".to_string())));
    let (s, _) = DeleteState::begin(Some(2), 9);
    let (_, c) = s.step(Event::Bookmark(BookmarkLookup::Failed));
    assert_eq!(text_of(&c), Some((Status::NotFound, "Bookmark not found".to_string())));
}

#[test]
fn failed_delete_is_a_database_error() {
    let (s, _) = DeleteState::begin(Some(3), 1);
    let (s, _) = s.step(Event::Bookmark(BookmarkLookup::Found(bookmark(1, 3))));
    let (_, c) = s.step(Event::Done(false));
    assert_eq!(text_of(&c), Some((Status::InternalServerError, "database error".to_string())));
}

#[test]
fn owner_sees_the_edit_form() {
    let (s, _) = EditState::begin(Some(3), 1);
    let (_, c) = s.step(Event::Bookmark(BookmarkLookup::Found(bookmark(1, 3))));
    match c {
        Command::Respond { reply: Reply::Render { status: Status::Success, page: Page::Edit { bookmark } } } => {
            assert_eq!(bookmark.id, 1)
        }
        _ => panic!("expected the edit form"),
    }
}

#[test]
fn owner_updates_with_tags() {
    let (s, _) = UpdateState::begin(Some(3), 1, update_form(Some(" a, b ")));
    let (s, c) = s.step(Event::Bookmark(BookmarkLookup::Found(bookmark(1, 3))));
    assert!(matches!(c, Command::ClearTagLinks { bookmark_id: 1 }));
    let (s, c) = s.step(Event::Done(true));
    match &c {
        Command::UpdateBookmark { id, url, title } => {
            assert_eq!(*id, 1);
            assert_eq!(url, "https://new-example.com");
            assert_eq!(title, "Updated");
        }
        _ => panic!("expected the row to be changed"),
    }
    let (s, c) = s.step(Event::Done(true));
    match &c {
        Command::InsertTags { tags, .. } => assert_eq!(tags, &vec!["a".to_string(), "b".to_string()]),
        _ => panic!("expected the tag names to be stored"),
    }
    let (s, c) = s.step(Event::Done(false));
    assert!(matches!(c, Command::LinkTags { bookmark_id: 1, .. }));
    let (_, c) = s.step(Event::Done(false));
    assert_eq!(redirect_of(&c).as_deref(), Some("/bookmarks/1"));
}

#[test]
fn owner_updates_without_tags() {
    let (s, _) = UpdateState::begin(Some(3), 1, update_form(None));
    let (s, _) = s.step(Event::Bookmark(BookmarkLookup::Found(bookmark(1, 3))));
    let (s, _) = s.step(Event::Done(true));
    let (_, c) = s.step(Event::Done(true));
    assert_eq!(redirect_of(&c).as_deref(), Some("/bookmarks/1"));
}

#[test]
fn detail_page_tells_the_owner() {
    match detail_reply(Some(3), BookmarkLookup::Found(bookmark(1, 3))) {
        Reply::Render { status: Status::Success, page: Page::Detail { is_owner, .. } } => assert!(is_owner),
        _ => panic!("expected the detail page"),
    }
    match detail_reply(None, BookmarkLookup::Found(bookmark(1, 3))) {
        Reply::Render { page: Page::Detail { is_owner, .. }, .. } => assert!(!is_owner),
        _ => panic!("expected the detail page"),
    }
    assert!(matches!(
        detail_reply(Some(3), BookmarkLookup::Missing),
        Reply::Render { status: Status::NotFound, page: Page::Missing }
    ));
    assert!(matches!(
        detail_reply(Some(3), BookmarkLookup::Failed),
        Reply::Text { status: Status::InternalServerError, .. }
    ));
}

#[test]
fn list_page_or_database_error() {
    match list_reply(Some(vec![bookmark(1, 1), bookmark(2, 1)])) {
        Reply::Render { status: Status::Success, page: Page::List { bookmarks } } => assert_eq!(bookmarks.len(), 2),
        _ => panic!("expected the list"),
    }
    assert!(matches!(list_reply(None), Reply::Text { status: Status::InternalServerError, .. }));
}
