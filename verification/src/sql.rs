//! The statements that store a bookmark's tags, with one placeholder per tag.
use vstd::prelude::*;
use vstd::string::*;

verus! {

/// `n` copies of `unit` separated by `", "`.
pub open spec fn repeat_joined(unit: Seq<char>, n: nat) -> Seq<char>
    decreases n,
{
    if n == 0 {
        Seq::empty()
    } else if n == 1 {
        unit
    } else {
        repeat_joined(unit, (n - 1) as nat) + ", "@ + unit
    }
}

/// The statement that adds the `n` tag names that are not stored yet.
pub open spec fn tag_insert_sql(n: nat) -> Seq<char> {
    "insert or ignore into tag (name) values "@ + repeat_joined("(?)"@, n)
}

/// The statement that links a bookmark to the `n` tags named in it.
pub open spec fn tag_link_sql(n: nat) -> Seq<char> {
    "INSERT INTO bookmark_tag (bookmark_id, tag_id) SELECT ?, id FROM tag WHERE name IN ("@
        + repeat_joined("?"@, n) + ")"@
}

/// How often `c` occurs in `s`.
pub open spec fn occurrences(s: Seq<char>, c: char) -> nat
    decreases s.len(),
{
    if s.len() == 0 {
        0
    } else {
        occurrences(s.drop_last(), c) + if s.last() == c {
            1nat
        } else {
            0nat
        }
    }
}

/// Appends `n` copies of `unit`, separated by `", "`, to `out`.
fn push_repeated(out: &mut String, unit: &str, n: usize)
    ensures
        final(out)@ == old(out)@ + repeat_joined(unit@, n as nat),
{
    let mut k: usize = 0;
    while k < n
        invariant
            k <= n,
            out@ == old(out)@ + repeat_joined(unit@, k as nat),
        decreases n - k,
    {
        let ghost before = out@;
        if k > 0 {
            out.append(", ");
        }
        out.append(unit);
        proof {
            if k == 0 {
                assert(out@ =~= old(out)@ + repeat_joined(unit@, 1));
            } else {
                assert(out@ =~= old(out)@ + repeat_joined(unit@, (k + 1) as nat));
            }
        }
        k = k + 1;
    }
}

/// The statement that stores the names of `n` tags, ignoring those already stored.
pub fn tag_insert_statement(n: usize) -> (r: String)
    ensures
        r@ == tag_insert_sql(n as nat),
{
    let mut out = String::from_str("insert or ignore into tag (name) values ");
    push_repeated(&mut out, "(?)", n);
    out
}

/// The statement that links a bookmark, its first parameter, to the `n` tags
/// whose names follow.
pub fn tag_link_statement(n: usize) -> (r: String)
    ensures
        r@ == tag_link_sql(n as nat),
{
    let mut out = String::from_str(
        "INSERT INTO bookmark_tag (bookmark_id, tag_id) SELECT ?, id FROM tag WHERE name IN (",
    );
    push_repeated(&mut out, "?", n);
    out.append(")");
    out
}


proof fn lemma_occurrences_concat(a: Seq<char>, b: Seq<char>, c: char)
    ensures
        occurrences(a + b, c) == occurrences(a, c) + occurrences(b, c),
    decreases b.len(),
{
    if b.len() == 0 {
        assert(a + b =~= a);
    } else {
        lemma_occurrences_concat(a, b.drop_last(), c);
        assert((a + b).drop_last() =~= a + b.drop_last());
    }
}

proof fn lemma_absent(s: Seq<char>, c: char)
    requires
        forall|i: int| 0 <= i < s.len() ==> s[i] != c,
    ensures
        occurrences(s, c) == 0,
    decreases s.len(),
{
    if s.len() > 0 {
        lemma_absent(s.drop_last(), c);
    }
}

proof fn lemma_repeat_occurrences(unit: Seq<char>, n: nat)
    requires
        occurrences(unit, '?') == 1,
    ensures
        occurrences(repeat_joined(unit, n), '?') == n,
    decreases n,
{
    if n == 0 {
    } else if n > 1 {
        lemma_repeat_occurrences(unit, (n - 1) as nat);
        reveal_strlit(", ");
        lemma_absent(", "@, '?');
        lemma_occurrences_concat(repeat_joined(unit, (n - 1) as nat), ", "@, '?');
        lemma_occurrences_concat(repeat_joined(unit, (n - 1) as nat) + ", "@, unit, '?');
    }
}

proof fn lemma_one_mark(s: Seq<char>, k: int)
    requires
        0 <= k < s.len(),
        s[k] == '?',
        forall|i: int| 0 <= i < s.len() && i != k ==> s[i] != '?',
    ensures
        occurrences(s, '?') == 1,
{
    let pre = s.subrange(0, k);
    let post = s.subrange(k + 1, s.len() as int);
    assert(pre + seq!['?'] + post =~= s);
    lemma_absent(pre, '?');
    lemma_absent(post, '?');
    assert(seq!['?'].drop_last() =~= Seq::<char>::empty());
    assert(occurrences(seq!['?'], '?') == 1) by {
        assert(occurrences(Seq::<char>::empty(), '?') == 0);
        assert(seq!['?'].last() == '?');
    }
    assert forall|i: int| 0 <= i < post.len() implies post[i] != '?' by {
        assert(post[i] == s[k + 1 + i]);
    }
    lemma_occurrences_concat(pre, seq!['?'], '?');
    lemma_occurrences_concat(pre + seq!['?'], post, '?');
}

/// The statement that stores `n` tag names has exactly `n` placeholders, one
/// for each name bound to it.
pub proof fn lemma_tag_insert_placeholders(n: nat)
    ensures
        occurrences(tag_insert_sql(n), '?') == n,
{
    reveal_strlit("insert or ignore into tag (name) values ");
    reveal_strlit("(?)");
    lemma_absent("insert or ignore into tag (name) values "@, '?');
    lemma_one_mark("(?)"@, 1);
    lemma_repeat_occurrences("(?)"@, n);
    lemma_occurrences_concat(
        "insert or ignore into tag (name) values "@,
        repeat_joined("(?)"@, n),
        '?',
    );
}

/// The statement that links a bookmark to `n` tags has exactly `n + 1`
/// placeholders: the bookmark's identifier, then one for each tag name.
pub proof fn lemma_tag_link_placeholders(n: nat)
    ensures
        occurrences(tag_link_sql(n), '?') == n + 1,
{
    let head = "INSERT INTO bookmark_tag (bookmark_id, tag_id) SELECT ?, id FROM tag WHERE name IN ("@;
    reveal_strlit("INSERT INTO bookmark_tag (bookmark_id, tag_id) SELECT ?, id FROM tag WHERE name IN (");
    reveal_strlit("?");
    reveal_strlit(")");
    lemma_one_mark(head, 54);
    lemma_one_mark("?"@, 0);
    lemma_repeat_occurrences("?"@, n);
    lemma_absent(")"@, '?');
    lemma_occurrences_concat(head, repeat_joined("?"@, n), '?');
    lemma_occurrences_concat(head + repeat_joined("?"@, n), ")"@, '?');
}

} // verus!
