//! Building the list of bookmarks, with their tags, from the rows of the
//! bookmark, link and tag tables.
use std::collections::HashMap;
use vstd::prelude::*;
use vstd::std_specs::hash::*;

use crate::model::{Bookmark, BookmarkView};
use crate::tags::string_views;

verus! {

broadcast use {
    axiom_i64_obeys_hash_table_key_model,
    axiom_random_state_builds_valid_hashers,
    axiom_contains_deref_key,
    axiom_maps_deref_key_to_value,
    axiom_deref_key_removed,
};

/// A row of the bookmark table.
pub struct BookmarkRow {
    pub id: i64,
    pub user_id: i64,
    pub url: String,
    pub title: String,
}

/// A row of the table that links bookmarks to tags.
pub struct TagLink {
    pub bookmark_id: i64,
    pub tag_id: i64,
}

/// A row of the tag table.
pub struct TagRow {
    pub id: i64,
    pub name: String,
}

/// The name that the tag rows give `tag_id`: that of the last row with this
/// identifier, if there is one.
pub open spec fn tag_name(tags: Seq<TagRow>, tag_id: i64) -> Option<Seq<char>>
    decreases tags.len(),
{
    if tags.len() == 0 {
        None
    } else if tags.last().id == tag_id {
        Some(tags.last().name@)
    } else {
        tag_name(tags.drop_last(), tag_id)
    }
}

/// The names of the tags linked to `bookmark_id`, in the order of the links;
/// a link to a tag without a row is skipped.
pub open spec fn tags_of(links: Seq<TagLink>, tags: Seq<TagRow>, bookmark_id: i64) -> Seq<
    Seq<char>,
>
    decreases links.len(),
{
    if links.len() == 0 {
        Seq::empty()
    } else {
        let earlier = tags_of(links.drop_last(), tags, bookmark_id);
        let link = links.last();
        if link.bookmark_id == bookmark_id && tag_name(tags, link.tag_id) is Some {
            earlier.push(tag_name(tags, link.tag_id)->0)
        } else {
            earlier
        }
    }
}

/// No row before row `i` has its identifier.
pub open spec fn first_of_its_id(rows: Seq<BookmarkRow>, i: int) -> bool {
    forall|j: int| 0 <= j < i ==> rows[j].id != rows[i].id
}

/// The bookmark that row `i` becomes: its fields, and the tags linked to its
/// identifier; a later row with an identifier seen before gets no tags.
pub open spec fn assembled(
    rows: Seq<BookmarkRow>,
    links: Seq<TagLink>,
    tags: Seq<TagRow>,
    i: int,
) -> BookmarkView {
    BookmarkView {
        id: rows[i].id,
        user_id: rows[i].user_id,
        url: rows[i].url@,
        title: rows[i].title@,
        tags: if first_of_its_id(rows, i) {
            tags_of(links, tags, rows[i].id)
        } else {
            Seq::empty()
        },
    }
}

/// The bookmarks of `rows`, in the same order, each with the names of the tags
/// that `links` give it.
pub fn assemble_bookmarks(rows: &Vec<BookmarkRow>, links: &Vec<TagLink>, tags: &Vec<TagRow>) -> (r:
    Vec<Bookmark>)
    ensures
        r.len() == rows.len(),
        forall|i: int| 0 <= i < rows.len() ==> #[trigger] r[i]@ == assembled(rows@, links@, tags@, i),
        forall|i: int|
            0 <= i < rows.len() ==> {
                &&& (#[trigger] r[i]).id == rows[i].id
                &&& r[i].user_id == rows[i].user_id
                &&& r[i].url@ == rows[i].url@
                &&& r[i].title@ == rows[i].title@
            },
{
    // The names of the tags by identifier; a later row replaces an earlier one.
    let mut names: HashMap<i64, String> = HashMap::new();
    let mut k: usize = 0;
    while k < tags.len()
        invariant
            k <= tags.len(),
            forall|t: i64| #[trigger]
                names@.contains_key(t) == (tag_name(tags@.take(k as int), t) is Some),
            forall|t: i64| #[trigger]
                names@.contains_key(t) ==> Some(names@[t]@) == tag_name(tags@.take(k as int), t),
        decreases tags.len() - k,
    {
        assert(tags@.take(k + 1).drop_last() =~= tags@.take(k as int));
        names.insert(tags[k].id, tags[k].name.clone());
        k = k + 1;
    }
    assert(tags@.take(tags.len() as int) =~= tags@);
    // The names linked to each bookmark, in the order of the links.
    let mut grouped: HashMap<i64, Vec<String>> = HashMap::new();
    let mut l: usize = 0;
    while l < links.len()
        invariant
            l <= links.len(),
            forall|t: i64| #[trigger]
                names@.contains_key(t) == (tag_name(tags@, t) is Some),
            forall|t: i64| #[trigger]
                names@.contains_key(t) ==> Some(names@[t]@) == tag_name(tags@, t),
            forall|b: i64| #[trigger]
                grouped@.contains_key(b) ==> string_views(grouped@[b]@) == tags_of(
                    links@.take(l as int),
                    tags@,
                    b,
                ),
            forall|b: i64| #[trigger]
                grouped@.contains_key(b) || tags_of(links@.take(l as int), tags@, b)
                    == Seq::<Seq<char>>::empty(),
        decreases links.len() - l,
    {
        let link = &links[l];
        let ghost before = links@.take(l as int);
        assert(links@.take(l + 1).drop_last() =~= before);
        assert(links@.take(l + 1).last() == links@[l as int]);
        match names.get(&link.tag_id) {
            Some(name) => {
                let name = name.clone();
                let ghost old_grouped = grouped@;
                let mut list: Vec<String> = match grouped.remove(&link.bookmark_id) {
                    Some(v) => v,
                    None => Vec::new(),
                };
                assert(string_views(list@) == tags_of(before, tags@, link.bookmark_id));
                list.push(name);
                assert(string_views(list@) =~= string_views(list@.drop_last()).push(name@));
                grouped.insert(link.bookmark_id, list);
                assert forall|b: i64| #[trigger]
                    grouped@.contains_key(b) implies string_views(grouped@[b]@) == tags_of(
                    links@.take(l + 1),
                    tags@,
                    b,
                ) by {
                    if b != link.bookmark_id {
                        assert(old_grouped.contains_key(b));
                    }
                }
                assert forall|b: i64|
                    #[trigger] grouped@.contains_key(b) || tags_of(links@.take(l + 1), tags@, b)
                        == Seq::<Seq<char>>::empty() by {
                    if b != link.bookmark_id {
                        assert(old_grouped.contains_key(b) || tags_of(before, tags@, b)
                            == Seq::<Seq<char>>::empty());
                    }
                }
            },
            None => {
                assert forall|b: i64| #[trigger]
                    grouped@.contains_key(b) implies string_views(grouped@[b]@) == tags_of(
                    links@.take(l + 1),
                    tags@,
                    b,
                ) by {}
                assert forall|b: i64|
                    #[trigger] grouped@.contains_key(b) || tags_of(links@.take(l + 1), tags@, b)
                        == Seq::<Seq<char>>::empty() by {}
            },
        }
        l = l + 1;
    }
    assert(links@.take(links.len() as int) =~= links@);
    // Each bookmark takes the list of its identifier; a repeated identifier
    // finds it taken.
    let mut result: Vec<Bookmark> = Vec::new();
    let mut i: usize = 0;
    while i < rows.len()
        invariant
            i <= rows.len(),
            result.len() == i,
            forall|j: int| 0 <= j < i ==> #[trigger] result[j]@ == assembled(rows@, links@, tags@, j),
            forall|b: i64| #[trigger]
                grouped@.contains_key(b) ==> string_views(grouped@[b]@) == tags_of(
                    links@,
                    tags@,
                    b,
                ),
            forall|b: i64| #[trigger]
                grouped@.contains_key(b) || tags_of(links@, tags@, b) == Seq::<
                    Seq<char>,
                >::empty() || exists|j: int| 0 <= j < i && rows@[j].id == b,
            forall|j: int| 0 <= j < i ==> !(#[trigger] grouped@.contains_key(rows@[j].id)),
        decreases rows.len() - i,
    {
        let row = &rows[i];
        let ghost old_grouped = grouped@;
        let listed: Vec<String> = match grouped.remove(&row.id) {
            Some(v) => v,
            None => Vec::new(),
        };
        proof {
            if first_of_its_id(rows@, i as int) {
                if !old_grouped.contains_key(row.id) {
                    if exists|j: int| 0 <= j < i && rows@[j].id == row.id {
                        let j = choose|j: int| 0 <= j < i && rows@[j].id == row.id;
                        assert(rows@[j].id != rows@[i as int].id);
                    }
                }
            } else {
                let j = choose|j: int| 0 <= j < i && !(rows@[j].id != rows@[i as int].id);
                assert(!old_grouped.contains_key(rows@[j].id));
            }
            assert(string_views(listed@) == assembled(rows@, links@, tags@, i as int).tags);
        }
        let bookmark = Bookmark {
            id: row.id,
            user_id: row.user_id,
            url: row.url.clone(),
            title: row.title.clone(),
            tags: listed,
        };
        result.push(bookmark);
        assert forall|b: i64|
            #[trigger] grouped@.contains_key(b) || tags_of(links@, tags@, b) == Seq::<
                Seq<char>,
            >::empty() || exists|j: int| 0 <= j < i + 1 && rows@[j].id == b by {
            if b == row.id {
                assert(rows@[i as int].id == b);
            } else {
                assert(old_grouped.contains_key(b) || tags_of(links@, tags@, b) == Seq::<
                    Seq<char>,
                >::empty() || exists|j: int| 0 <= j < i && rows@[j].id == b);
            }
        }
        i = i + 1;
    }
    proof {
        lemma_rows_keep_their_fields(rows@, links@, tags@);
        assert forall|i: int| 0 <= i < rows.len() implies {
            &&& (#[trigger] result[i]).id == rows[i].id
            &&& result[i].user_id == rows[i].user_id
            &&& result[i].url@ == rows[i].url@
            &&& result[i].title@ == rows[i].title@
        } by {
            assert(result[i]@ == assembled(rows@, links@, tags@, i));
        }
    }
    result
}

/// Every listed bookmark keeps the identifier, owner, address and title of its
/// own row.
pub proof fn lemma_rows_keep_their_fields(rows: Seq<BookmarkRow>, links: Seq<TagLink>, tags: Seq<TagRow>)
    ensures
        forall|i: int|
            0 <= i < rows.len() ==> {
                &&& (#[trigger] assembled(rows, links, tags, i)).id == rows[i].id
                &&& assembled(rows, links, tags, i).user_id == rows[i].user_id
                &&& assembled(rows, links, tags, i).url == rows[i].url@
                &&& assembled(rows, links, tags, i).title == rows[i].title@
            },
{
}

/// The link at `k` attaches to `bookmark_id` a tag that has a row.
pub open spec fn attaches(links: Seq<TagLink>, tags: Seq<TagRow>, bookmark_id: i64, k: int) -> bool {
    links[k].bookmark_id == bookmark_id && tag_name(tags, links[k].tag_id) is Some
}

/// How many of the first `n` links attach a tag with a row to `bookmark_id`.
pub open spec fn attached_before(links: Seq<TagLink>, tags: Seq<TagRow>, bookmark_id: i64, n: int) -> nat
    decreases n,
{
    if n <= 0 {
        0
    } else {
        attached_before(links, tags, bookmark_id, n - 1) + if attaches(links, tags, bookmark_id, n - 1) {
            1nat
        } else {
            0nat
        }
    }
}

/// A tag row's name is what `tag_name` gives for its identifier, unless a later
/// row has the same identifier; an identifier without a row has no name.
pub proof fn lemma_tag_name_is_last_row(tags: Seq<TagRow>, t: i64)
    ensures
        tag_name(tags, t) is None <==> forall|j: int| 0 <= j < tags.len() ==> tags[j].id != t,
        forall|j: int|
            0 <= j < tags.len() && tags[j].id == t && (forall|j2: int|
                j < j2 < tags.len() ==> tags[j2].id != t) ==> tag_name(tags, t) == Some(
                #[trigger] tags[j].name@,
            ),
    decreases tags.len(),
{
    if tags.len() > 0 {
        let init = tags.drop_last();
        lemma_tag_name_is_last_row(init, t);
        assert forall|j: int| 0 <= j < init.len() implies init[j] == tags[j] by {}
        if tags.last().id != t {
            assert forall|j: int|
                0 <= j < tags.len() && tags[j].id == t && (forall|j2: int|
                    j < j2 < tags.len() ==> tags[j2].id != t) implies tag_name(tags, t) == Some(
                #[trigger] tags[j].name@,
            ) by {
                assert(j < tags.len() - 1);
                assert(init[j] == tags[j]);
                assert forall|j2: int| j < j2 < init.len() implies init[j2].id != t by {
                    assert(init[j2] == tags[j2]);
                }
            }
        } else {
            assert forall|j: int|
                0 <= j < tags.len() && tags[j].id == t && (forall|j2: int|
                    j < j2 < tags.len() ==> tags[j2].id != t) implies tag_name(tags, t) == Some(
                #[trigger] tags[j].name@,
            ) by {
                if j < tags.len() - 1 {
                    assert(tags[tags.len() - 1].id == t);
                }
            }
            assert(tags[tags.len() - 1].id == t);
        }
    }
}

/// The tags a bookmark gets are the names of the links that attach a tag to it,
/// one for each such link and in the order of the links: the link at `k` puts
/// its tag's name at the place given by the attaching links before it.
pub proof fn lemma_tags_follow_links(links: Seq<TagLink>, tags: Seq<TagRow>, bookmark_id: i64)
    ensures
        tags_of(links, tags, bookmark_id).len() == attached_before(
            links,
            tags,
            bookmark_id,
            links.len() as int,
        ),
        forall|k: int|
            0 <= k < links.len() && #[trigger] attaches(links, tags, bookmark_id, k) ==> tags_of(
                links,
                tags,
                bookmark_id,
            )[attached_before(links, tags, bookmark_id, k) as int] == tag_name(
                tags,
                links[k].tag_id,
            )->0,
    decreases links.len(),
{
    if links.len() > 0 {
        let init = links.drop_last();
        lemma_tags_follow_links(init, tags, bookmark_id);
        assert forall|n: int| 0 <= n <= init.len() implies attached_before(init, tags, bookmark_id, n)
            == attached_before(links, tags, bookmark_id, n) by {
            lemma_attached_before_prefix(init, links, tags, bookmark_id, n);
        }
        let n = links.len() as int;
        assert(links.last() == links[n - 1]);
        assert forall|k: int|
            0 <= k < links.len() && #[trigger] attaches(links, tags, bookmark_id, k) implies tags_of(
                links,
                tags,
                bookmark_id,
            )[attached_before(links, tags, bookmark_id, k) as int] == tag_name(
                tags,
                links[k].tag_id,
            )->0 by {
            if k < init.len() {
                assert(init[k] == links[k]);
                assert(attaches(init, tags, bookmark_id, k));
                lemma_attached_before_grows(init, tags, bookmark_id, k, init.len() as int);
            }
        }
    }
}

/// A listed bookmark's tags are the names of the links that attach a tag to its
/// identifier, one for each such link, in the order of the links; a row that
/// repeats an earlier row's identifier is listed without tags.
pub proof fn lemma_listed_tags_follow_links(
    rows: Seq<BookmarkRow>,
    links: Seq<TagLink>,
    tags: Seq<TagRow>,
    i: int,
)
    requires
        0 <= i < rows.len(),
    ensures
        first_of_its_id(rows, i) ==> assembled(rows, links, tags, i).tags.len() == attached_before(
            links,
            tags,
            rows[i].id,
            links.len() as int,
        ),
        first_of_its_id(rows, i) ==> forall|k: int|
            0 <= k < links.len() && #[trigger] attaches(links, tags, rows[i].id, k) ==> assembled(
                rows,
                links,
                tags,
                i,
            ).tags[attached_before(links, tags, rows[i].id, k) as int] == tag_name(
                tags,
                links[k].tag_id,
            )->0,
        !first_of_its_id(rows, i) ==> assembled(rows, links, tags, i).tags.len() == 0,
{
    lemma_tags_follow_links(links, tags, rows[i].id);
}

proof fn lemma_attached_before_grows(
    links: Seq<TagLink>,
    tags: Seq<TagRow>,
    bookmark_id: i64,
    k: int,
    n: int,
)
    requires
        0 <= k < n,
        attaches(links, tags, bookmark_id, k),
    ensures
        attached_before(links, tags, bookmark_id, k) + 1 <= attached_before(links, tags, bookmark_id, n),
    decreases n,
{
    if n > k + 1 {
        lemma_attached_before_grows(links, tags, bookmark_id, k, n - 1);
    }
}

proof fn lemma_attached_before_prefix(
    init: Seq<TagLink>,
    links: Seq<TagLink>,
    tags: Seq<TagRow>,
    bookmark_id: i64,
    n: int,
)
    requires
        init.len() <= links.len(),
        forall|k: int| 0 <= k < init.len() ==> init[k] == links[k],
        n <= init.len(),
    ensures
        attached_before(init, tags, bookmark_id, n) == attached_before(links, tags, bookmark_id, n),
    decreases n,
{
    if n > 0 {
        lemma_attached_before_prefix(init, links, tags, bookmark_id, n - 1);
        assert(init[n - 1] == links[n - 1]);
    }
}

} // verus!
