//! Tag lists as users type them: comma-separated, with stray spaces.
use vstd::prelude::*;
use vstd::string::*;

verus! {

/// Whether `c` has the Unicode `White_Space` property, which is what
/// `char::is_whitespace` and `str::trim` go by: tab, line feed, vertical tab,
/// form feed, carriage return, space, next line, no-break space, ogham space
/// mark, the spaces from en quad to hair space, line and paragraph separator,
/// narrow no-break space, medium mathematical space and ideographic space.
pub open spec fn unicode_white_space(c: char) -> bool {
    let n = c as u32;
    ||| 0x09 <= n <= 0x0D
    ||| n == 0x20
    ||| n == 0x85
    ||| n == 0xA0
    ||| n == 0x1680
    ||| 0x2000 <= n <= 0x200A
    ||| n == 0x2028
    ||| n == 0x2029
    ||| n == 0x202F
    ||| n == 0x205F
    ||| n == 0x3000
}

/// Whether `c` is white space.
pub fn is_white_space(c: char) -> (r: bool)
    ensures
        r == unicode_white_space(c),
{
    let n = c as u32;
    (0x09 <= n && n <= 0x0D) || n == 0x20 || n == 0x85 || n == 0xA0 || n == 0x1680 || (0x2000
        <= n && n <= 0x200A) || n == 0x2028 || n == 0x2029 || n == 0x202F || n == 0x205F || n
        == 0x3000
}

/// The pieces of `s` between commas, as `str::split(',')` yields them: an empty
/// text is one empty piece, and a trailing comma ends with an empty piece.
pub open spec fn split_on_commas(s: Seq<char>) -> Seq<Seq<char>>
    decreases s.len(),
{
    if s.len() == 0 {
        seq![Seq::<char>::empty()]
    } else {
        let init = split_on_commas(s.drop_last());
        if s.last() == ',' {
            init.push(Seq::<char>::empty())
        } else {
            init.update(init.len() - 1, init.last().push(s.last()))
        }
    }
}

/// `s` without its leading white space.
pub open spec fn trim_start(s: Seq<char>) -> Seq<char>
    decreases s.len(),
{
    if s.len() > 0 && unicode_white_space(s[0]) {
        trim_start(s.drop_first())
    } else {
        s
    }
}

/// `s` without its trailing white space.
pub open spec fn trim_end(s: Seq<char>) -> Seq<char>
    decreases s.len(),
{
    if s.len() > 0 && unicode_white_space(s.last()) {
        trim_end(s.drop_last())
    } else {
        s
    }
}

/// `s` without leading and trailing white space, as `str::trim` gives it.
pub open spec fn trim(s: Seq<char>) -> Seq<char> {
    trim_end(trim_start(s))
}

/// The trimmed pieces that are not empty, in order.
pub open spec fn kept_tags(pieces: Seq<Seq<char>>) -> Seq<Seq<char>>
    decreases pieces.len(),
{
    if pieces.len() == 0 {
        Seq::empty()
    } else {
        let kept = kept_tags(pieces.drop_last());
        let t = trim(pieces.last());
        if t.len() == 0 {
            kept
        } else {
            kept.push(t)
        }
    }
}

/// The tags that a tag field holds: its comma-separated pieces, trimmed, the
/// empty ones left out.
pub open spec fn tag_list(text: Seq<char>) -> Seq<Seq<char>> {
    kept_tags(split_on_commas(text))
}

/// The views of a list of strings.
pub open spec fn string_views(v: Seq<String>) -> Seq<Seq<char>> {
    v.map_values(|t: String| t@)
}

proof fn lemma_split_nonempty(s: Seq<char>)
    ensures
        split_on_commas(s).len() >= 1,
    decreases s.len(),
{
    if s.len() > 0 {
        lemma_split_nonempty(s.drop_last());
    }
}

/// The trimmed text of `s[a..b]`, as a new string.
fn trimmed_piece(s: &str, a: usize, b: usize) -> (r: String)
    requires
        a <= b <= s@.len(),
    ensures
        r@ == trim(s@.subrange(a as int, b as int)),
{
    let mut lo: usize = a;
    while lo < b && is_white_space(s.get_char(lo))
        invariant
            a <= lo <= b <= s@.len(),
            trim_start(s@.subrange(a as int, b as int)) == trim_start(
                s@.subrange(lo as int, b as int),
            ),
        decreases b - lo,
    {
        assert(s@.subrange(lo as int, b as int).drop_first() =~= s@.subrange(
            lo + 1,
            b as int,
        ));
        lo = lo + 1;
    }
    assert(trim_start(s@.subrange(a as int, b as int)) == s@.subrange(lo as int, b as int));
    let mut hi: usize = b;
    while hi > lo && is_white_space(s.get_char(hi - 1))
        invariant
            a <= lo <= hi <= b <= s@.len(),
            trim_end(s@.subrange(lo as int, b as int)) == trim_end(
                s@.subrange(lo as int, hi as int),
            ),
        decreases hi - lo,
    {
        assert(s@.subrange(lo as int, hi as int).drop_last() =~= s@.subrange(
            lo as int,
            hi - 1,
        ));
        hi = hi - 1;
    }
    let piece = s.substring_char(lo, hi);
    piece.to_owned()
}

/// The tags of a tag field: the text split at each comma, each piece trimmed,
/// and the empty pieces dropped. No field reads as no tags.
pub fn parse_tags(field: &Option<String>) -> (tags: Vec<String>)
    ensures
        string_views(tags@) == tag_list(
            match field {
                Some(t) => t@,
                None => Seq::<char>::empty(),
            },
        ),
{
    let text: &str = match field {
        Some(t) => t.as_str(),
        None => "",
    };
    proof {
        reveal_strlit("");
    }
    let n: usize = text.unicode_len();
    let mut tags: Vec<String> = Vec::new();
    let mut start: usize = 0;
    let mut i: usize = 0;
    while i < n
        invariant
            n == text@.len(),
            0 <= start <= i <= n,
            split_on_commas(text@.take(i as int)).len() >= 1,
            split_on_commas(text@.take(i as int)).last() == text@.subrange(start as int, i as int),
            string_views(tags@) == kept_tags(split_on_commas(text@.take(i as int)).drop_last()),
        decreases n - i,
    {
        let c = text.get_char(i);
        let ghost before = split_on_commas(text@.take(i as int));
        assert(text@.take(i + 1).drop_last() =~= text@.take(i as int));
        assert(text@.take(i + 1).last() == c);
        if c == ',' {
            let t = trimmed_piece(text, start, i);
            let ghost after = split_on_commas(text@.take(i + 1));
            assert(after == before.push(Seq::<char>::empty()));
            assert(after.drop_last() =~= before);
            assert(before.drop_last().push(before.last()) =~= before);
            if t.unicode_len() > 0 {
                tags.push(t);
                assert(string_views(tags@) =~= string_views(tags@.drop_last()).push(t@));
            }
            start = i + 1;
            assert(text@.subrange(start as int, start as int) =~= Seq::<char>::empty());
        } else {
            let ghost after = split_on_commas(text@.take(i + 1));
            assert(after == before.update(before.len() - 1, before.last().push(c)));
            assert(after.drop_last() =~= before.drop_last());
            assert(text@.subrange(start as int, i + 1) =~= text@.subrange(
                start as int,
                i as int,
            ).push(c));
        }
        i = i + 1;
    }
    assert(text@.take(n as int) =~= text@);
    let t = trimmed_piece(text, start, n);
    let ghost pieces = split_on_commas(text@);
    assert(pieces.drop_last().push(pieces.last()) =~= pieces);
    if t.unicode_len() > 0 {
        tags.push(t);
        assert(string_views(tags@) =~= string_views(tags@.drop_last()).push(t@));
    }
    tags
}


/// A copy of a list of strings.
pub fn copy_strings(v: &Vec<String>) -> (r: Vec<String>)
    ensures
        string_views(r@) == string_views(v@),
{
    let mut r: Vec<String> = Vec::new();
    let mut i: usize = 0;
    while i < v.len()
        invariant
            i <= v.len(),
            string_views(r@) == string_views(v@.take(i as int)),
        decreases v.len() - i,
    {
        let s = v[i].clone();
        let ghost before = r@;
        r.push(s);
        assert(string_views(r@) =~= string_views(before).push(s@));
        assert(string_views(v@.take(i + 1)) =~= string_views(v@.take(i as int)).push(v@[i as int]@));
        i = i + 1;
    }
    assert(v@.take(v.len() as int) =~= v@);
    r
}


/// A tag as parsing leaves it: not empty, without commas, and without white
/// space at either end.
pub open spec fn is_clean_tag(t: Seq<char>) -> bool {
    &&& t.len() > 0
    &&& !t.contains(',')
    &&& trim(t) == t
}

/// The tags joined into one text, separated by single commas.
pub open spec fn join_with_commas(tags: Seq<Seq<char>>) -> Seq<char>
    decreases tags.len(),
{
    if tags.len() == 0 {
        Seq::empty()
    } else if tags.len() == 1 {
        tags[0]
    } else {
        join_with_commas(tags.drop_last()) + seq![','] + tags.last()
    }
}

proof fn lemma_split_pieces_have_no_comma(s: Seq<char>)
    ensures
        forall|i: int|
            0 <= i < split_on_commas(s).len() ==> !(#[trigger] split_on_commas(s)[i]).contains(
                ',',
            ),
    decreases s.len(),
{
    lemma_split_nonempty(s);
    if s.len() > 0 {
        let init = split_on_commas(s.drop_last());
        lemma_split_pieces_have_no_comma(s.drop_last());
        lemma_split_nonempty(s.drop_last());
        if s.last() != ',' {
            let last = init.last().push(s.last());
            assert(!init[init.len() - 1].contains(','));
            assert forall|i: int| 0 <= i < last.len() implies last[i] != ',' by {
                if i < last.len() - 1 {
                    assert(last[i] == init.last()[i]);
                }
            }
        }
        assert forall|i: int| 0 <= i < split_on_commas(s).len() implies !(
        #[trigger] split_on_commas(s)[i]).contains(',') by {
            if i < init.len() - 1 || (s.last() == ',' && i < init.len()) {
                assert(split_on_commas(s)[i] == init[i]);
            }
        }
    }
}

proof fn lemma_trim_start_shape(s: Seq<char>)
    ensures
        exists|k: int| 0 <= k <= s.len() && trim_start(s) == s.subrange(k, s.len() as int),
        trim_start(s).len() == 0 || !unicode_white_space(trim_start(s)[0]),
    decreases s.len(),
{
    if s.len() > 0 && unicode_white_space(s[0]) {
        lemma_trim_start_shape(s.drop_first());
        let k = choose|k: int|
            0 <= k <= s.drop_first().len() && trim_start(s.drop_first()) == s.drop_first().subrange(
                k,
                s.drop_first().len() as int,
            );
        assert(s.drop_first().subrange(k, s.drop_first().len() as int) =~= s.subrange(
            k + 1,
            s.len() as int,
        ));
    } else {
        assert(s.subrange(0, s.len() as int) =~= s);
    }
}

proof fn lemma_trim_end_shape(s: Seq<char>)
    ensures
        exists|k: int| 0 <= k <= s.len() && trim_end(s) == s.subrange(0, k),
        trim_end(s).len() == 0 || !unicode_white_space(trim_end(s).last()),
    decreases s.len(),
{
    if s.len() > 0 && unicode_white_space(s.last()) {
        lemma_trim_end_shape(s.drop_last());
        let k = choose|k: int|
            0 <= k <= s.drop_last().len() && trim_end(s.drop_last()) == s.drop_last().subrange(0, k);
        assert(s.drop_last().subrange(0, k) =~= s.subrange(0, k));
    } else {
        assert(s.subrange(0, s.len() as int) =~= s);
    }
}

proof fn lemma_trim_is_clean(p: Seq<char>)
    requires
        !p.contains(','),
    ensures
        !trim(p).contains(','),
        trim(trim(p)) == trim(p),
{
    let a = trim_start(p);
    lemma_trim_start_shape(p);
    lemma_trim_end_shape(a);
    let q = trim_end(a);
    let k1 = choose|k: int| 0 <= k <= p.len() && a == p.subrange(k, p.len() as int);
    let k2 = choose|k: int| 0 <= k <= a.len() && q == a.subrange(0, k);
    assert forall|i: int| 0 <= i < q.len() implies q[i] != ',' by {
        assert(q[i] == p[k1 + i]);
    }
    if q.len() > 0 {
        assert(q[0] == a[0]);
    }
    assert(trim_start(q) == q);
    assert(trim_end(q) == q);
}

proof fn lemma_kept_tags_are_clean(pieces: Seq<Seq<char>>)
    requires
        forall|i: int| 0 <= i < pieces.len() ==> !(#[trigger] pieces[i]).contains(','),
    ensures
        forall|i: int| 0 <= i < kept_tags(pieces).len() ==> is_clean_tag(#[trigger] kept_tags(pieces)[i]),
    decreases pieces.len(),
{
    if pieces.len() > 0 {
        let init = pieces.drop_last();
        assert forall|i: int| 0 <= i < init.len() implies !(#[trigger] init[i]).contains(',') by {
            assert(init[i] == pieces[i]);
        }
        lemma_kept_tags_are_clean(init);
        assert(pieces.last() == pieces[pieces.len() - 1]);
        lemma_trim_is_clean(pieces.last());
        let kept = kept_tags(pieces);
        let earlier = kept_tags(init);
        assert forall|i: int| 0 <= i < kept.len() implies is_clean_tag(#[trigger] kept[i]) by {
            if i < earlier.len() {
                assert(kept[i] == earlier[i]);
            } else {
                assert(kept[i] == trim(pieces.last()));
            }
        }
    }
}

/// Every tag that parsing yields is clean: not empty, without commas, and
/// without white space at either end.
pub proof fn lemma_parsed_tags_are_clean(text: Seq<char>)
    ensures
        forall|i: int| 0 <= i < tag_list(text).len() ==> is_clean_tag(#[trigger] tag_list(text)[i]),
{
    lemma_split_pieces_have_no_comma(text);
    lemma_kept_tags_are_clean(split_on_commas(text));
}

proof fn lemma_split_append_plain(x: Seq<char>, y: Seq<char>)
    requires
        !y.contains(','),
    ensures
        split_on_commas(x + y) == split_on_commas(x).update(
            split_on_commas(x).len() - 1,
            split_on_commas(x).last() + y,
        ),
        split_on_commas(x + y).len() == split_on_commas(x).len(),
    decreases y.len(),
{
    lemma_split_nonempty(x);
    if y.len() == 0 {
        assert(x + y =~= x);
        assert(split_on_commas(x).last() + y =~= split_on_commas(x).last());
        assert(split_on_commas(x).update(split_on_commas(x).len() - 1, split_on_commas(x).last())
            =~= split_on_commas(x));
    } else {
        let y0 = y.drop_last();
        assert(!y0.contains(',')) by {
            assert forall|i: int| 0 <= i < y0.len() implies y0[i] != ',' by {
                assert(y0[i] == y[i]);
            }
        }
        lemma_split_append_plain(x, y0);
        assert((x + y).drop_last() =~= x + y0);
        assert((x + y).last() == y.last());
        assert(y.last() != ',') by {
            assert(y[y.len() - 1] == y.last());
        }
        let s = split_on_commas(x);
        let s0 = split_on_commas(x + y0);
        assert(s0.last() == s.last() + y0);
        assert(s.last() + y0 + seq![y.last()] =~= s.last() + y);
        assert(s0.last().push(y.last()) =~= s.last() + y);
        assert(split_on_commas(x + y) == s0.update(s0.len() - 1, s0.last().push(y.last())));
        assert(split_on_commas(x + y) =~= split_on_commas(x).update(
            split_on_commas(x).len() - 1,
            split_on_commas(x).last() + y,
        ));
    }
}

proof fn lemma_split_after_comma(x: Seq<char>, y: Seq<char>)
    requires
        !y.contains(','),
    ensures
        split_on_commas(x + seq![','] + y) == split_on_commas(x).push(y),
{
    let xc = x + seq![','];
    assert(xc.drop_last() =~= x);
    assert(xc.last() == ',');
    assert(split_on_commas(xc) == split_on_commas(x).push(Seq::<char>::empty()));
    lemma_split_append_plain(xc, y);
    assert(Seq::<char>::empty() + y =~= y);
    assert(split_on_commas(x).push(Seq::<char>::empty()).update(
        split_on_commas(x).len() as int,
        y,
    ) =~= split_on_commas(x).push(y));
}

/// Clean tags come back unchanged from parsing their comma-joined text.
pub proof fn lemma_clean_tags_round_trip(tags: Seq<Seq<char>>)
    requires
        forall|i: int| 0 <= i < tags.len() ==> is_clean_tag(#[trigger] tags[i]),
    ensures
        tag_list(join_with_commas(tags)) == tags,
    decreases tags.len(),
{
    if tags.len() == 0 {
        let e = Seq::<char>::empty();
        assert(trim_start(e) == e);
        assert(trim_end(e) == e);
        let p = seq![e];
        assert(split_on_commas(e) == p);
        assert(p.drop_last() =~= Seq::<Seq<char>>::empty());
        assert(p.last() == e);
        assert(kept_tags(p) == kept_tags(p.drop_last()));
        assert(tag_list(e) =~= tags);
    } else if tags.len() == 1 {
        let t = tags[0];
        assert(is_clean_tag(t));
        lemma_split_append_plain(Seq::<char>::empty(), t);
        assert(Seq::<char>::empty() + t =~= t);
        assert(split_on_commas(Seq::<char>::empty()) == seq![Seq::<char>::empty()]);
        assert(split_on_commas(t) =~= seq![t]);
        assert(seq![t].drop_last() =~= Seq::<Seq<char>>::empty());
        assert(kept_tags(Seq::<Seq<char>>::empty()) == Seq::<Seq<char>>::empty());
        assert(tag_list(t) =~= tags);
    } else {
        let init = tags.drop_last();
        let t = tags.last();
        assert(is_clean_tag(tags[tags.len() - 1]));
        assert forall|i: int| 0 <= i < init.len() implies is_clean_tag(#[trigger] init[i]) by {
            assert(init[i] == tags[i]);
        }
        lemma_clean_tags_round_trip(init);
        lemma_split_after_comma(join_with_commas(init), t);
        let pieces = split_on_commas(join_with_commas(init)).push(t);
        assert(pieces.drop_last() =~= split_on_commas(join_with_commas(init)));
        assert(tag_list(join_with_commas(tags)) =~= init.push(t));
        assert(init.push(t) =~= tags);
    }
}

/// Parsing the comma-joined text of a field's tags gives the same tags back:
/// a tag list shown in a form and sent again is unchanged.
pub proof fn lemma_tags_survive_resubmission(text: Seq<char>)
    ensures
        tag_list(join_with_commas(tag_list(text))) == tag_list(text),
{
    lemma_parsed_tags_are_clean(text);
    lemma_clean_tags_round_trip(tag_list(text));
}

} // verus!
