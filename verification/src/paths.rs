//! The addresses that responses redirect to.
use vstd::prelude::*;
use vstd::string::*;

verus! {

/// The decimal digit for `d`, for `0 <= d < 10`.
pub open spec fn digit_char(d: int) -> char {
    "0123456789"@[d]
}

/// The decimal digits of `n`, most significant first, without leading zeros.
pub open spec fn decimal_digits(n: nat) -> Seq<char>
    decreases n,
{
    if n < 10 {
        seq![digit_char(n as int)]
    } else {
        decimal_digits(n / 10).push(digit_char((n % 10) as int))
    }
}

/// `n` written in decimal, with a minus sign when it is negative, as `{}`
/// formats an integer.
pub open spec fn decimal(n: int) -> Seq<char> {
    if n < 0 {
        seq!['-'] + decimal_digits((-n) as nat)
    } else {
        decimal_digits(n as nat)
    }
}

/// The address of the bookmark `id`.
pub open spec fn bookmark_path(id: i64) -> Seq<char> {
    "/bookmarks/"@ + decimal(id as int)
}

/// Appends the decimal digits of `m` to `out`.
fn push_digits(out: &mut String, m: u64)
    ensures
        final(out)@ == old(out)@ + decimal_digits(m as nat),
    decreases m,
{
    let digits: &str = "0123456789";
    proof {
        reveal_strlit("0123456789");
    }
    if m >= 10 {
        push_digits(out, m / 10);
    }
    let d: usize = (m % 10) as usize;
    let one = digits.substring_char(d, d + 1);
    assert(one@ =~= seq![digit_char(d as int)]);
    out.append(one);
    proof {
        if m >= 10 {
            assert(decimal_digits(m as nat) == decimal_digits((m / 10) as nat).push(
                digit_char((m % 10) as int),
            ));
        }
    }
    assert(out@ =~= old(out)@ + decimal_digits(m as nat));
}

/// `id` written in decimal.
pub fn decimal_string(id: i64) -> (r: String)
    ensures
        r@ == decimal(id as int),
{
    let mut out = String::new();
    if id < 0 {
        let magnitude: u64 = (0i128 - (id as i128)) as u64;
        out.append("-");
        proof {
            reveal_strlit("-");
        }
        push_digits(&mut out, magnitude);
        assert(out@ =~= decimal(id as int));
    } else {
        push_digits(&mut out, id as u64);
        assert(out@ =~= decimal(id as int));
    }
    out
}

/// The address of the bookmark `id`, where its page is shown.
pub fn bookmark_location(id: i64) -> (r: String)
    ensures
        r@ == bookmark_path(id),
{
    let mut out = String::from_str("/bookmarks/");
    let digits = decimal_string(id);
    out.append(digits.as_str());
    out
}

proof fn lemma_digit_values()
    ensures
        forall|d: int| 0 <= d < 10 ==> (#[trigger] digit_char(d)) as u32 == 48 + d,
{
    reveal_strlit("0123456789");
    assert("0123456789"@ =~= seq!['0', '1', '2', '3', '4', '5', '6', '7', '8', '9']);
    assert forall|d: int| 0 <= d < 10 implies (#[trigger] digit_char(d)) as u32 == 48 + d by {
        if d == 0 {
        } else if d == 1 {
        } else if d == 2 {
        } else if d == 3 {
        } else if d == 4 {
        } else if d == 5 {
        } else if d == 6 {
        } else if d == 7 {
        } else if d == 8 {
        } else {
        }
    }
}

proof fn lemma_decimal_digits_shape(n: nat)
    ensures
        decimal_digits(n).len() >= 1,
        n >= 10 ==> decimal_digits(n).len() >= 2,
        forall|i: int|
            0 <= i < decimal_digits(n).len() ==> (#[trigger] decimal_digits(n)[i]) as u32 >= 48
                && (decimal_digits(n)[i] as u32) < 58,
    decreases n,
{
    lemma_digit_values();
    if n >= 10 {
        lemma_decimal_digits_shape(n / 10);
        let init = decimal_digits(n / 10);
        assert forall|i: int|
            0 <= i < decimal_digits(n).len() implies (#[trigger] decimal_digits(n)[i]) as u32 >= 48
            && (decimal_digits(n)[i] as u32) < 58 by {
            if i < init.len() {
                assert(decimal_digits(n)[i] == init[i]);
            }
        }
    }
}

proof fn lemma_decimal_digits_injective(n: nat, m: nat)
    requires
        decimal_digits(n) == decimal_digits(m),
    ensures
        n == m,
    decreases n,
{
    lemma_digit_values();
    lemma_decimal_digits_shape(n);
    lemma_decimal_digits_shape(m);
    if n < 10 && m < 10 {
        assert(decimal_digits(n)[0] == digit_char(n as int));
        assert(decimal_digits(m)[0] == digit_char(m as int));
        assert(digit_char(n as int) as u32 == 48 + n);
        assert(digit_char(m as int) as u32 == 48 + m);
    } else if n < 10 {
        assert(decimal_digits(n).len() == 1);
    } else if m < 10 {
        assert(decimal_digits(m).len() == 1);
    } else if n >= 10 && m >= 10 {
        let a = decimal_digits(n);
        let b = decimal_digits(m);
        assert(a.last() == b.last());
        assert(a.drop_last() == b.drop_last());
        assert(a.drop_last() =~= decimal_digits(n / 10));
        assert(b.drop_last() =~= decimal_digits(m / 10));
        lemma_decimal_digits_injective(n / 10, m / 10);
    }
}

/// Different bookmarks have different addresses.
pub proof fn lemma_bookmark_paths_differ(a: i64, b: i64)
    requires
        a != b,
    ensures
        bookmark_path(a) != bookmark_path(b),
{
    let p = "/bookmarks/"@;
    if bookmark_path(a) == bookmark_path(b) {
        assert(decimal(a as int) =~= bookmark_path(a).subrange(p.len() as int, bookmark_path(a).len() as int));
        assert(decimal(b as int) =~= bookmark_path(b).subrange(p.len() as int, bookmark_path(b).len() as int));
        let da = decimal(a as int);
        let db = decimal(b as int);
        assert(da == db);
        if a < 0 && b < 0 {
            assert(da.drop_first() =~= decimal_digits((-a) as nat));
            assert(db.drop_first() =~= decimal_digits((-b) as nat));
            lemma_decimal_digits_injective((-a) as nat, (-b) as nat);
        } else if a >= 0 && b >= 0 {
            lemma_decimal_digits_injective(a as nat, b as nat);
        } else if a < 0 {
            lemma_decimal_digits_shape(b as nat);
            assert(da[0] == '-');
            assert(db[0] as u32 >= 48);
        } else {
            lemma_decimal_digits_shape(a as nat);
            assert(db[0] == '-');
            assert(da[0] as u32 >= 48);
        }
    }
}

/// The number that a string of decimal digits stands for.
pub open spec fn digits_value(s: Seq<char>) -> int
    decreases s.len(),
{
    if s.len() == 0 {
        0
    } else {
        digits_value(s.drop_last()) * 10 + (s.last() as u32 - 48)
    }
}

/// The decimal digits of `n` read back as a number give `n`, and they start
/// with a zero only when `n` is zero.
pub proof fn lemma_decimal_reads_back(n: nat)
    ensures
        digits_value(decimal_digits(n)) == n,
        decimal_digits(n)[0] == '0' ==> n == 0,
    decreases n,
{
    lemma_digit_values();
    lemma_decimal_digits_shape(n);
    if n < 10 {
        assert(decimal_digits(n) =~= seq![digit_char(n as int)]);
        assert(seq![digit_char(n as int)].drop_last() =~= Seq::<char>::empty());
        assert(digit_char(n as int) as u32 == 48 + n);
        assert(digits_value(decimal_digits(n)) == digits_value(Seq::<char>::empty()) * 10 + (
        digit_char(n as int) as u32 - 48));
    } else {
        lemma_decimal_reads_back(n / 10);
        let d = decimal_digits(n);
        lemma_decimal_digits_shape(n / 10);
        assert(d.drop_last() =~= decimal_digits(n / 10));
        assert(d.last() == digit_char((n % 10) as int));
        assert(digit_char((n % 10) as int) as u32 == 48 + n % 10);
        assert(d[0] == decimal_digits(n / 10)[0]);
        assert(digits_value(d) == digits_value(d.drop_last()) * 10 + (d.last() as u32 - 48));
        assert(n == (n / 10) * 10 + n % 10);
    }
}

/// The address of bookmark `id` is "/bookmarks/" followed by `id` in decimal:
/// its digits read back as `id`'s magnitude, after a minus sign exactly when
/// `id` is negative.
pub proof fn lemma_bookmark_path_names_the_id(id: i64)
    ensures
        bookmark_path(id).subrange(0, 11) == "/bookmarks/"@,
        id >= 0 ==> digits_value(bookmark_path(id).subrange(11, bookmark_path(id).len() as int))
            == id,
        id < 0 ==> bookmark_path(id)[11] == '-' && digits_value(
            bookmark_path(id).subrange(12, bookmark_path(id).len() as int),
        ) == -id,
{
    reveal_strlit("/bookmarks/");
    let p = "/bookmarks/"@;
    assert(p.len() == 11);
    let full = bookmark_path(id);
    assert(full.subrange(0, 11) =~= p);
    if id >= 0 {
        lemma_decimal_reads_back(id as nat);
        assert(full.subrange(11, full.len() as int) =~= decimal_digits(id as nat));
    } else {
        lemma_decimal_reads_back((-id) as nat);
        assert(full.subrange(12, full.len() as int) =~= decimal_digits((-id) as nat));
    }
}

} // verus!
