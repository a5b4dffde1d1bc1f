use web_server::sql::{tag_insert_statement, tag_link_statement};

#[test]
fn insert_statement_has_one_placeholder_per_tag() {
    assert_eq!(tag_insert_statement(1), "insert or ignore into tag (name) values (?)");
    assert_eq!(tag_insert_statement(3), "insert or ignore into tag (name) values (?), (?), (?)");
    assert_eq!(tag_insert_statement(3).matches('?').count(), 3);
}

#[test]
fn link_statement_has_bookmark_and_tag_placeholders() {
    assert_eq!(
        tag_link_statement(2),
        "INSERT INTO bookmark_tag (bookmark_id, tag_id) SELECT ?, id FROM tag WHERE name IN (?, ?)"
    );
    assert_eq!(tag_link_statement(5).matches('?').count(), 6);
}
