use vstd::prelude::*;

verus! {

/// The Unicode `White_Space` property, which is what `char::is_whitespace`
/// and `str::trim` test.
pub open spec fn is_white_space(c: char) -> bool {
    let u = c as u32;
    ||| 0x9 <= u <= 0xd
    ||| u == 0x20
    ||| u == 0x85
    ||| u == 0xa0
    ||| u == 0x1680
    ||| 0x2000 <= u <= 0x200a
    ||| u == 0x2028
    ||| u == 0x2029
    ||| u == 0x202f
    ||| u == 0x205f
    ||| u == 0x3000
}

/// Whether `c` has the Unicode `White_Space` property.
pub fn is_whitespace(c: char) -> (r: bool)
    ensures
        r == is_white_space(c),
{
    let u = c as u32;
    (0x9 <= u && u <= 0xd) || u == 0x20 || u == 0x85 || u == 0xa0 || u == 0x1680 || (0x2000 <= u
        && u <= 0x200a) || u == 0x2028 || u == 0x2029 || u == 0x202f || u == 0x205f || u == 0x3000
}

} // verus!

verus! {

/// `s` without its leading white space.
pub open spec fn trim_start_spec(s: Seq<char>) -> Seq<char>
    decreases s.len(),
{
    if s.len() > 0 && is_white_space(s[0]) {
        trim_start_spec(s.drop_first())
    } else {
        s
    }
}

/// `s` without its trailing white space.
pub open spec fn trim_end_spec(s: Seq<char>) -> Seq<char>
    decreases s.len(),
{
    if s.len() > 0 && is_white_space(s.last()) {
        trim_end_spec(s.drop_last())
    } else {
        s
    }
}

/// `s` without leading and trailing white space, as `str::trim` gives it.
pub open spec fn trim_spec(s: Seq<char>) -> Seq<char> {
    trim_end_spec(trim_start_spec(s))
}

/// Removes leading and trailing white space.
pub fn trim(s: &str) -> (r: &str)
    ensures
        r@ == trim_spec(s@),
{
    let n = s.unicode_len();
    let mut start: usize = 0;
    assert(s@.subrange(0, n as int) =~= s@);
    while start < n && is_whitespace(s.get_char(start))
        invariant
            n == s@.len(),
            start <= n,
            trim_start_spec(s@) == trim_start_spec(s@.subrange(start as int, n as int)),
        decreases n - start,
    {
        assert(s@.subrange(start as int, n as int).drop_first() =~= s@.subrange(
            start as int + 1,
            n as int,
        ));
        start = start + 1;
    }
    assert(trim_start_spec(s@) == s@.subrange(start as int, n as int));
    let mut end: usize = n;
    while end > start && is_whitespace(s.get_char(end - 1))
        invariant
            n == s@.len(),
            start <= end <= n,
            trim_spec(s@) == trim_end_spec(s@.subrange(start as int, end as int)),
        decreases end - start,
    {
        assert(s@.subrange(start as int, end as int).drop_last() =~= s@.subrange(
            start as int,
            end as int - 1,
        ));
        end = end - 1;
    }
    s.substring_char(start, end)
}

/// `s` without any trailing copies of `c`.
pub open spec fn trim_end_char_spec(s: Seq<char>, c: char) -> Seq<char>
    decreases s.len(),
{
    if s.len() > 0 && s.last() == c {
        trim_end_char_spec(s.drop_last(), c)
    } else {
        s
    }
}

/// Removes every trailing copy of `c`, as `str::trim_end_matches` with a
/// `char` pattern does.
pub fn trim_end_char(s: &str, c: char) -> (r: &str)
    ensures
        r@ == trim_end_char_spec(s@, c),
{
    let n = s.unicode_len();
    let mut end: usize = n;
    assert(s@.subrange(0, n as int) =~= s@);
    while end > 0 && s.get_char(end - 1) == c
        invariant
            n == s@.len(),
            end <= n,
            trim_end_char_spec(s@, c) == trim_end_char_spec(s@.subrange(0, end as int), c),
        decreases end,
    {
        assert(s@.subrange(0, end as int).drop_last() =~= s@.subrange(0, end as int - 1));
        end = end - 1;
    }
    s.substring_char(0, end)
}

/// Whether `s` begins with `prefix`.
pub open spec fn starts_with_spec(s: Seq<char>, prefix: Seq<char>) -> bool {
    prefix.len() <= s.len() && s.subrange(0, prefix.len() as int) == prefix
}

/// Whether `s` begins with `prefix`.
pub fn starts_with(s: &str, prefix: &str) -> (r: bool)
    ensures
        r == starts_with_spec(s@, prefix@),
{
    let n = s.unicode_len();
    let m = prefix.unicode_len();
    if m > n {
        return false;
    }
    let mut i: usize = 0;
    while i < m
        invariant
            n == s@.len(),
            m == prefix@.len(),
            m <= n,
            i <= m,
            forall|j: int| 0 <= j < i ==> s@[j] == prefix@[j],
        decreases m - i,
    {
        if s.get_char(i) != prefix.get_char(i) {
            assert(s@.subrange(0, m as int)[i as int] != prefix@[i as int]);
            return false;
        }
        i = i + 1;
    }
    assert(s@.subrange(0, m as int) =~= prefix@);
    true
}

} // verus!

verus! {

/// `s` cut to its first `limit` characters followed by `...`, when it has more
/// than `limit` characters; `s` itself otherwise.
pub open spec fn shorten_spec(s: Seq<char>, limit: nat) -> Seq<char> {
    if s.len() > limit {
        s.subrange(0, limit as int) + "..."@
    } else {
        s
    }
}

/// Cuts `s` to `limit` characters and marks the cut with `...`.
pub fn shorten(s: &str, limit: usize) -> (r: String)
    ensures
        r@ == shorten_spec(s@, limit as nat),
{
    let n = s.unicode_len();
    if n > limit {
        let head = s.substring_char(0, limit).to_owned();
        head.concat("...")
    } else {
        s.to_owned()
    }
}

/// Whether `c` is an ASCII decimal digit.
pub open spec fn is_digit(c: char) -> bool {
    '0' <= c && c <= '9'
}

/// The value of the decimal digit `c`.
pub open spec fn digit_value(c: char) -> int {
    (c as int) - ('0' as int)
}

/// Whether every character of `d` is a decimal digit.
pub open spec fn all_digits(d: Seq<char>) -> bool {
    forall|i: int| 0 <= i < d.len() ==> is_digit(#[trigger] d[i])
}

/// The number that the decimal digits `d` write, most significant first.
pub open spec fn decimal_value(d: Seq<char>) -> int
    decreases d.len(),
{
    if d.len() == 0 {
        0
    } else {
        decimal_value(d.drop_last()) * 10 + digit_value(d.last())
    }
}

/// The digits of `s` after an optional leading sign.
pub open spec fn unsigned_part(s: Seq<char>) -> Seq<char> {
    if s.len() > 0 && (s[0] == '-' || s[0] == '+') {
        s.drop_first()
    } else {
        s
    }
}

/// The value `s` writes as a decimal integer with an optional sign.
pub open spec fn signed_decimal_value(s: Seq<char>) -> int {
    if s.len() > 0 && s[0] == '-' {
        -decimal_value(unsigned_part(s))
    } else {
        decimal_value(unsigned_part(s))
    }
}

/// What `str::parse::<i64>` gives: an optional `+` or `-`, then one or more
/// decimal digits, and a value that fits in an `i64`.
pub open spec fn i64_from_text(s: Seq<char>) -> Option<i64> {
    let digits = unsigned_part(s);
    let v = signed_decimal_value(s);
    if digits.len() > 0 && all_digits(digits) && i64::MIN <= v <= i64::MAX {
        Some(v as i64)
    } else {
        None
    }
}

proof fn lemma_decimal_nonneg(d: Seq<char>)
    requires
        all_digits(d),
    ensures
        decimal_value(d) >= 0,
    decreases d.len(),
{
    if d.len() > 0 {
        assert(is_digit(d[d.len() - 1]));
        lemma_decimal_nonneg(d.drop_last());
    }
}

proof fn lemma_decimal_prefix_le(d: Seq<char>, k: int)
    requires
        all_digits(d),
        0 <= k <= d.len(),
    ensures
        decimal_value(d.subrange(0, k)) <= decimal_value(d),
    decreases d.len(),
{
    if k == d.len() {
        assert(d.subrange(0, k) =~= d);
    } else {
        let p = d.drop_last();
        assert(is_digit(d[d.len() - 1]));
        lemma_decimal_prefix_le(p, k);
        assert(p.subrange(0, k) =~= d.subrange(0, k));
        lemma_decimal_nonneg(p);
    }
}

/// Parses a decimal `i64` the way `str::parse::<i64>` does.
pub fn parse_i64(s: &str) -> (r: Option<i64>)
    ensures
        r == i64_from_text(s@),
{
    let n = s.unicode_len();
    let mut negative = false;
    let mut start: usize = 0;
    if n > 0 {
        let c = s.get_char(0);
        if c == '-' {
            negative = true;
            start = 1;
        } else if c == '+' {
            start = 1;
        }
    }
    let ghost digits = unsigned_part(s@);
    assert(digits =~= s@.subrange(start as int, n as int));
    if start >= n {
        return None;
    }
    let bound: i128 = 9223372036854775808;
    let mut acc: i128 = 0;
    let mut big = false;
    let mut i: usize = start;
    while i < n
        invariant
            n == s@.len(),
            start <= i <= n,
            digits == s@.subrange(start as int, n as int),
            digits == unsigned_part(s@),
            all_digits(s@.subrange(start as int, i as int)),
            !big ==> acc == decimal_value(s@.subrange(start as int, i as int)),
            !big ==> 0 <= acc <= bound,
            big ==> decimal_value(s@.subrange(start as int, i as int)) > bound,
            bound == 9223372036854775808,
        decreases n - i,
    {
        let c = s.get_char(i);
        let ghost prefix = s@.subrange(start as int, i as int);
        let ghost next = s@.subrange(start as int, i as int + 1);
        assert(next.drop_last() =~= prefix);
        assert(next.last() == c);
        if !('0' <= c && c <= '9') {
            assert(!all_digits(digits)) by {
                assert(digits[i - start] == c);
            }
            return None;
        }
        assert(all_digits(next)) by {
            assert forall|j: int| 0 <= j < next.len() implies is_digit(#[trigger] next[j]) by {
                if j < prefix.len() {
                    assert(next[j] == prefix[j]);
                }
            }
        }
        let dv = (c as u32 - '0' as u32) as i128;
        if big {
            proof {
                lemma_decimal_prefix_le(next, prefix.len() as int);
                assert(next.subrange(0, prefix.len() as int) =~= prefix);
            }
        } else {
            let nacc = acc * 10 + dv;
            if nacc > bound {
                big = true;
            } else {
                acc = nacc;
            }
        }
        i = i + 1;
    }
    assert(s@.subrange(start as int, n as int) =~= digits);
    if big {
        None
    } else if negative {
        Some((0 - acc) as i64)
    } else if acc == bound {
        None
    } else {
        Some(acc as i64)
    }
}

} // verus!

verus! {

proof fn lemma_trim_start_shape(s: Seq<char>)
    ensures
        trim_start_spec(s).len() == 0 || !is_white_space(trim_start_spec(s)[0]),
        exists|k: int| 0 <= k <= s.len() && trim_start_spec(s) == s.subrange(k, s.len() as int),
    decreases s.len(),
{
    if s.len() > 0 && is_white_space(s[0]) {
        lemma_trim_start_shape(s.drop_first());
        let k = choose|k: int|
            0 <= k <= s.drop_first().len() && trim_start_spec(s.drop_first())
                == s.drop_first().subrange(k, s.drop_first().len() as int);
        assert(s.drop_first().subrange(k, s.drop_first().len() as int) =~= s.subrange(
            k + 1,
            s.len() as int,
        ));
    } else {
        assert(s.subrange(0, s.len() as int) =~= s);
    }
}

proof fn lemma_trim_end_shape(s: Seq<char>)
    ensures
        trim_end_spec(s).len() == 0 || !is_white_space(trim_end_spec(s).last()),
        exists|k: int| 0 <= k <= s.len() && trim_end_spec(s) == s.subrange(0, k),
    decreases s.len(),
{
    if s.len() > 0 && is_white_space(s.last()) {
        lemma_trim_end_shape(s.drop_last());
        let k = choose|k: int|
            0 <= k <= s.drop_last().len() && trim_end_spec(s.drop_last()) == s.drop_last().subrange(
                0,
                k,
            );
        assert(s.drop_last().subrange(0, k) =~= s.subrange(0, k));
    } else {
        assert(s.subrange(0, s.len() as int) =~= s);
    }
}

/// A trimmed text neither begins nor ends with white space.
pub proof fn law_trim_leaves_no_white_space_at_ends(s: Seq<char>)
    ensures
        trim_spec(s).len() > 0 ==> !is_white_space(trim_spec(s)[0]),
        trim_spec(s).len() > 0 ==> !is_white_space(trim_spec(s).last()),
{
    let u = trim_start_spec(s);
    lemma_trim_start_shape(s);
    lemma_trim_end_shape(u);
    let k = choose|k: int| 0 <= k <= u.len() && trim_end_spec(u) == u.subrange(0, k);
    if trim_spec(s).len() > 0 {
        assert(trim_spec(s)[0] == u[0]);
    }
}

/// Trimming twice is trimming once.
pub proof fn law_trim_idempotent(s: Seq<char>)
    ensures
        trim_spec(trim_spec(s)) == trim_spec(s),
{
    let w = trim_spec(s);
    law_trim_leaves_no_white_space_at_ends(s);
    assert(trim_start_spec(w) == w);
    assert(trim_end_spec(w) == w);
}

/// Removing trailing copies of a character twice is removing them once, and
/// what is left does not end with that character.
pub proof fn law_trim_end_char(s: Seq<char>, c: char)
    ensures
        trim_end_char_spec(trim_end_char_spec(s, c), c) == trim_end_char_spec(s, c),
        trim_end_char_spec(s, c).len() == 0 || trim_end_char_spec(s, c).last() != c,
    decreases s.len(),
{
    if s.len() > 0 && s.last() == c {
        law_trim_end_char(s.drop_last(), c);
    }
}

/// A shortened text has at most `limit` characters of the original and the
/// three-dot mark; a text within the limit is kept whole.
pub proof fn law_shorten_bounds(s: Seq<char>, limit: nat)
    ensures
        shorten_spec(s, limit).len() <= limit + 3,
        s.len() <= limit ==> shorten_spec(s, limit) == s,
        s.len() > limit ==> shorten_spec(s, limit).subrange(0, limit as int) == s.subrange(
            0,
            limit as int,
        ),
{
    if s.len() > limit {
        reveal_strlit("...");
        assert(shorten_spec(s, limit).subrange(0, limit as int) =~= s.subrange(0, limit as int));
    }
}

} // verus!
