use web_server::catalog::{assemble_bookmarks, BookmarkRow, TagLink, TagRow};

fn row(id: i64, user_id: i64, title: &str) -> BookmarkRow {
    BookmarkRow { id, user_id, url: format!("https://{title}.example"), title: title.to_string() }
}

fn link(bookmark_id: i64, tag_id: i64) -> TagLink {
    TagLink { bookmark_id, tag_id }
}

fn tag(id: i64, name: &str) -> TagRow {
    TagRow { id, name: name.to_string() }
}

#[test]
fn bookmarks_get_their_tags_in_link_order() {
    let rows = vec![row(1, 10, "one"), row(2, 20, "two"), row(3, 10, "three")];
    let links = vec![link(1, 100), link(2, 101), link(1, 102), link(1, 101)];
    let tags = vec![tag(100, "rust"), tag(101, "web"), tag(102, "async")];
    let result = assemble_bookmarks(&rows, &links, &tags);
    assert_eq!(result.len(), 3);
    assert_eq!(result[0].id, 1);
    assert_eq!(result[0].user_id, 10);
    assert_eq!(result[0].title, "one");
    assert_eq!(result[0].url, "https://one.example");
    assert_eq!(result[0].tags, vec!["rust", "async", "web"]);
    assert_eq!(result[1].tags, vec!["web"]);
    assert!(result[2].tags.is_empty());
    assert_eq!(result[2].user_id, 10);
}

#[test]
fn links_to_unknown_tags_are_skipped() {
    let rows = vec![row(5, 1, "five")];
    let links = vec![link(5, 7), link(5, 8)];
    let tags = vec![tag(8, "kept")];
    let result = assemble_bookmarks(&rows, &links, &tags);
    assert_eq!(result[0].tags, vec!["kept"]);
}

#[test]
fn a_later_tag_row_renames_the_tag() {
    let rows = vec![row(1, 1, "a")];
    let links = vec![link(1, 3)];
    let tags = vec![tag(3, "old"), tag(3, "new")];
    let result = assemble_bookmarks(&rows, &links, &tags);
    assert_eq!(result[0].tags, vec!["new"]);
}

#[test]
fn a_repeated_bookmark_row_gets_no_tags() {
    let rows = vec![row(1, 1, "a"), row(1, 1, "a")];
    let links = vec![link(1, 3)];
    let tags = vec![tag(3, "t")];
    let result = assemble_bookmarks(&rows, &links, &tags);
    assert_eq!(result[0].tags, vec!["t"]);
    assert!(result[1].tags.is_empty());
}

#[test]
fn no_rows_no_bookmarks() {
    assert!(assemble_bookmarks(&vec![], &vec![link(1, 1)], &vec![tag(1, "x")]).is_empty());
}
