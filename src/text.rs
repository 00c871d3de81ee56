//! Character-level models shared by the parsers: Unicode whitespace,
//! trimming, ASCII case folding and digit runs.
use vstd::prelude::*;
use vstd::string::*;

verus! {

/// The Unicode `White_Space` property, as `char::is_whitespace` uses it.
pub open spec fn is_ws(c: char) -> bool {
    let u = c as u32;
    (0x09 <= u <= 0x0d) || u == 0x20 || u == 0x85 || u == 0xa0 || u == 0x1680 || (0x2000 <= u
        <= 0x200a) || u == 0x2028 || u == 0x2029 || u == 0x202f || u == 0x205f || u == 0x3000
}

/// `s` without its leading whitespace.
pub open spec fn trim_start(s: Seq<char>) -> Seq<char>
    decreases s.len(),
{
    if s.len() > 0 && is_ws(s[0]) {
        trim_start(s.drop_first())
    } else {
        s
    }
}

/// `s` without its trailing whitespace.
pub open spec fn trim_end(s: Seq<char>) -> Seq<char>
    decreases s.len(),
{
    if s.len() > 0 && is_ws(s.last()) {
        trim_end(s.drop_last())
    } else {
        s
    }
}

/// `s` without leading and trailing whitespace, as `str::trim` gives it.
pub open spec fn trimmed(s: Seq<char>) -> Seq<char> {
    trim_end(trim_start(s))
}

/// Whether `c` is Unicode whitespace.
pub fn is_whitespace(c: char) -> (r: bool)
    ensures
        r == is_ws(c),
{
    let u = c as u32;
    (0x09 <= u && u <= 0x0d) || u == 0x20 || u == 0x85 || u == 0xa0 || u == 0x1680 || (0x2000
        <= u && u <= 0x200a) || u == 0x2028 || u == 0x2029 || u == 0x202f || u == 0x205f || u
        == 0x3000
}

/// Relies on `str::trim`: it removes leading and trailing characters with the
/// Unicode `White_Space` property and nothing else.
#[verifier::external_body]
pub(crate) fn trim_str(s: &str) -> (r: &str)
    ensures
        r@ == trimmed(s@),
{
    s.trim()
}

/// Whether `p` is a prefix of `s`.
pub open spec fn starts_with(s: Seq<char>, p: Seq<char>) -> bool {
    p.len() <= s.len() && s.subrange(0, p.len() as int) == p
}

/// Whether `c` is an ASCII upper-case letter.
pub open spec fn is_ascii_upper(c: char) -> bool {
    65 <= c as u32 <= 90
}

/// Whether `c` and `d` are equal once ASCII letters are folded to one case.
pub open spec fn eq_ignore_case(c: char, d: char) -> bool {
    c == d || (is_ascii_upper(c) && c as u32 + 32 == d as u32) || (is_ascii_upper(d) && d as u32
        + 32 == c as u32)
}

/// Whether `p` occurs in `s` at position `k`, ignoring ASCII case.
pub open spec fn matches_ci_at(s: Seq<char>, k: int, p: Seq<char>) -> bool {
    0 <= k && k + p.len() <= s.len() && forall|i: int|
        0 <= i < p.len() ==> eq_ignore_case(#[trigger] s[k + i], p[i])
}

/// Whether `p` occurs somewhere in `s`, ignoring ASCII case.
pub open spec fn contains_ci(s: Seq<char>, p: Seq<char>) -> bool {
    exists|k: int| matches_ci_at(s, k, p)
}

/// Whether `p` occurs somewhere in `s`.
pub open spec fn contains(s: Seq<char>, p: Seq<char>) -> bool {
    exists|k: int| 0 <= k && k + p.len() <= s.len() && #[trigger] s.subrange(k, k + p.len()) == p
}

/// The position of the first line break at or after `i`, or the length of `s`.
pub open spec fn line_end(s: Seq<char>, i: int) -> int
    decreases s.len() - i,
{
    if i >= s.len() || s[i] == '\n' {
        i
    } else {
        line_end(s, i + 1)
    }
}

/// Whether a line of `s` begins at `j`, as `str::lines` splits it: at the
/// start of a non-empty text and after each line break that is not the last
/// character.
pub open spec fn is_line_start(s: Seq<char>, j: int) -> bool {
    0 <= j < s.len() && (j == 0 || s[j - 1] == '\n')
}

/// The line that begins at `j`, without its line break. A carriage return
/// before the break stays in it; trimming removes it.
pub open spec fn line_at(s: Seq<char>, j: int) -> Seq<char> {
    s.subrange(j, line_end(s, j))
}

/// Whether some line of `s`, once trimmed, starts with `p`.
pub open spec fn has_line_starting(s: Seq<char>, p: Seq<char>) -> bool {
    exists|j: int| is_line_start(s, j) && starts_with(trimmed(#[trigger] line_at(s, j)), p)
}

/// Whether some line of `s`, once trimmed, is `p`.
pub open spec fn has_line_equal(s: Seq<char>, p: Seq<char>) -> bool {
    exists|j: int| is_line_start(s, j) && trimmed(#[trigger] line_at(s, j)) == p
}

/// A line runs up to the next line break, or to the end of the text.
pub proof fn lemma_line_end(s: Seq<char>, i: int)
    requires
        0 <= i <= s.len(),
    ensures
        i <= line_end(s, i) <= s.len(),
        line_end(s, i) < s.len() ==> s[line_end(s, i)] == '\n',
        forall|k: int| i <= k < line_end(s, i) ==> s[k] != '\n',
    decreases s.len() - i,
{
    if i < s.len() && s[i] != '\n' {
        lemma_line_end(s, i + 1);
    }
}

/// The decimal digit `d`, for `d < 10`.
pub open spec fn digit_char(d: nat) -> char {
    if d == 0 { '0' } else if d == 1 { '1' } else if d == 2 { '2' } else if d == 3 { '3' }
    else if d == 4 { '4' } else if d == 5 { '5' } else if d == 6 { '6' } else if d == 7 { '7' }
    else if d == 8 { '8' } else { '9' }
}

/// `n` written in decimal, without sign or leading zeros.
pub open spec fn decimal_text(n: nat) -> Seq<char>
    decreases n,
{
    if n < 10 {
        seq![digit_char(n)]
    } else {
        decimal_text(n / 10).push(digit_char(n % 10))
    }
}

/// Relies on `u64`'s `Display` through `to_string`: plain decimal digits.
#[verifier::external_body]
pub(crate) fn u64_text(n: u64) -> (r: String)
    ensures
        r@ == decimal_text(n as nat),
{
    n.to_string()
}

/// Relies on `str::chars`: the characters of `s` in order.
#[verifier::external_body]
pub(crate) fn chars_of(s: &str) -> (r: Vec<char>)
    ensures
        r@ == s@,
{
    s.chars().collect()
}

/// The end of the line of `s` that contains position `i`.
fn find_line_end(s: &Vec<char>, i: usize) -> (r: usize)
    requires
        i <= s.len(),
    ensures
        r == line_end(s@, i as int),
{
    let mut k = i;
    while k < s.len() && s[k] != '\n'
        invariant
            i <= k <= s.len(),
            line_end(s@, i as int) == line_end(s@, k as int),
        decreases s.len() - k,
    {
        k += 1;
    }
    k
}

/// The start of `s[lo..hi]` once its leading whitespace is removed.
pub fn skip_whitespace(s: &Vec<char>, lo: usize, hi: usize) -> (a: usize)
    requires
        lo <= hi <= s.len(),
    ensures
        lo <= a <= hi,
        s@.subrange(a as int, hi as int) == trim_start(s@.subrange(lo as int, hi as int)),
{
    let mut a = lo;
    while a < hi && is_whitespace(s[a])
        invariant
            lo <= a <= hi <= s.len(),
            trim_start(s@.subrange(lo as int, hi as int)) == trim_start(
                s@.subrange(a as int, hi as int),
            ),
        decreases hi - a,
    {
        assert(s@.subrange(a as int, hi as int).drop_first() =~= s@.subrange(a + 1, hi as int));
        a += 1;
    }
    a
}

/// The bounds of `s[lo..hi]` once trimmed.
pub fn trim_bounds(s: &Vec<char>, lo: usize, hi: usize) -> (r: (usize, usize))
    requires
        lo <= hi <= s.len(),
    ensures
        lo <= r.0 <= r.1 <= hi,
        s@.subrange(r.0 as int, r.1 as int) == trimmed(s@.subrange(lo as int, hi as int)),
{
    let a = skip_whitespace(s, lo, hi);
    let mut b = hi;
    while b > a && is_whitespace(s[b - 1])
        invariant
            a <= b <= hi <= s.len(),
            trim_end(s@.subrange(a as int, hi as int)) == trim_end(s@.subrange(a as int, b as int)),
        decreases b - a,
    {
        assert(s@.subrange(a as int, b as int).drop_last() =~= s@.subrange(a as int, b - 1));
        b -= 1;
    }
    (a, b)
}

/// Whether `s[a..b]` starts with `p`.
pub fn range_starts_with(s: &Vec<char>, a: usize, b: usize, p: &str) -> (r: bool)
    requires
        a <= b <= s.len(),
    ensures
        r == starts_with(s@.subrange(a as int, b as int), p@),
{
    let n = p.unicode_len();
    if n > b - a {
        return false;
    }
    let mut i: usize = 0;
    while i < n
        invariant
            n == p@.len(),
            n <= b - a,
            a <= b <= s.len(),
            i <= n,
            forall|t: int| 0 <= t < i ==> s@[a + t] == p@[t],
        decreases n - i,
    {
        if s[a + i] != p.get_char(i) {
            assert(s@.subrange(a as int, b as int).subrange(0, n as int)[i as int] != p@[i as int]);
            return false;
        }
        i += 1;
    }
    assert(s@.subrange(a as int, b as int).subrange(0, n as int) =~= p@);
    true
}

/// Whether `s[a..b]` is `p`.
pub fn range_equals(s: &Vec<char>, a: usize, b: usize, p: &str) -> (r: bool)
    requires
        a <= b <= s.len(),
    ensures
        r == (s@.subrange(a as int, b as int) == p@),
{
    let n = p.unicode_len();
    if n != b - a {
        return false;
    }
    let r = range_starts_with(s, a, b, p);
    assert(s@.subrange(a as int, b as int).subrange(0, n as int) =~= s@.subrange(
        a as int,
        b as int,
    ));
    r
}

/// Whether some line of `s`, once trimmed, starts with `p` (or, with `whole`
/// set, is exactly `p`).
fn scan_lines(s: &Vec<char>, p: &str, whole: bool) -> (r: bool)
    ensures
        whole ==> r == has_line_equal(s@, p@),
        !whole ==> r == has_line_starting(s@, p@),
{
    let mut j: usize = 0;
    while j < s.len()
        invariant
            j <= s.len(),
            j == 0 || j == s.len() || s@[j - 1] == '\n',
            forall|t: int|
                0 <= t < j && #[trigger] is_line_start(s@, t) ==> if whole {
                    trimmed(line_at(s@, t)) != p@
                } else {
                    !starts_with(trimmed(line_at(s@, t)), p@)
                },
        decreases s.len() - j,
    {
        let e = find_line_end(s, j);
        proof {
            lemma_line_end(s@, j as int);
        }
        let (a, b) = trim_bounds(s, j, e);
        let hit = if whole {
            range_equals(s, a, b, p)
        } else {
            range_starts_with(s, a, b, p)
        };
        if hit {
            assert(is_line_start(s@, j as int));
            assert(line_at(s@, j as int) == s@.subrange(j as int, e as int));
            return true;
        }
        assert forall|t: int| j < t <= e && t < s.len() implies !is_line_start(s@, t) by {
            if t < e {
                assert(s@[t - 1] != '\n');
            }
        }
        assert(line_at(s@, j as int) == s@.subrange(j as int, e as int));
        if e == s.len() {
            j = e;
        } else {
            j = e + 1;
        }
    }
    false
}

/// Whether some line of `s`, once trimmed, starts with `p`.
pub fn any_line_starts_with(s: &Vec<char>, p: &str) -> (r: bool)
    ensures
        r == has_line_starting(s@, p@),
{
    scan_lines(s, p, false)
}

/// Whether some line of `s`, once trimmed, is `p`.
pub fn any_line_equals(s: &Vec<char>, p: &str) -> (r: bool)
    ensures
        r == has_line_equal(s@, p@),
{
    scan_lines(s, p, true)
}

/// Whether `a` and `b` are the same text once ASCII letters are folded to one case.
pub open spec fn same_ignoring_case(a: Seq<char>, b: Seq<char>) -> bool {
    a.len() == b.len() && matches_ci_at(a, 0, b)
}

/// Whether `c` and `d` are equal once ASCII letters are folded to one case.
pub fn chars_eq_ignore_case(c: char, d: char) -> (r: bool)
    ensures
        r == eq_ignore_case(c, d),
{
    let x = c as u32;
    let y = d as u32;
    x == y || (65 <= x && x <= 90 && x + 32 == y) || (65 <= y && y <= 90 && y + 32 == x)
}

/// Whether `s` is `lit` once ASCII letters are folded to one case.
pub fn str_eq_ignore_case(s: &str, lit: &str) -> (r: bool)
    ensures
        r == same_ignoring_case(s@, lit@),
{
    let n = s.unicode_len();
    if n != lit.unicode_len() {
        return false;
    }
    let mut i: usize = 0;
    while i < n
        invariant
            n == s@.len(),
            n == lit@.len(),
            i <= n,
            forall|t: int| 0 <= t < i ==> eq_ignore_case(#[trigger] s@[0 + t], lit@[t]),
        decreases n - i,
    {
        if !chars_eq_ignore_case(s.get_char(i), lit.get_char(i)) {
            assert(!eq_ignore_case(s@[0 + i as int], lit@[i as int]));
            return false;
        }
        i += 1;
    }
    true
}

/// Text that matches two names, ignoring case, can only match them where
/// they agree: names that differ at a lower-case position cannot both match.
pub proof fn lemma_same_ignoring_case_distinct(e: Seq<char>, a: Seq<char>, b: Seq<char>, i: int)
    requires
        same_ignoring_case(e, a),
        0 <= i < a.len(),
        i < b.len(),
        a[i] as u32 != b[i] as u32,
        !is_ascii_upper(a[i]),
        !is_ascii_upper(b[i]),
    ensures
        !same_ignoring_case(e, b),
{
    if same_ignoring_case(e, b) {
        assert(eq_ignore_case(e[0 + i], a[i]));
        assert(eq_ignore_case(e[0 + i], b[i]));
    }
}

/// `b` as Rust writes it: `true` or `false`.
pub open spec fn bool_text(b: bool) -> Seq<char> {
    if b {
        "true"@
    } else {
        "false"@
    }
}

/// `b` as Rust writes it.
pub fn bool_string(b: bool) -> (r: String)
    ensures
        r@ == bool_text(b),
{
    if b {
        String::from_str("true")
    } else {
        String::from_str("false")
    }
}

/// Whether `pat` occurs in `s`, ignoring ASCII case.
pub fn contains_ignore_case(s: &Vec<char>, pat: &str) -> (r: bool)
    ensures
        r == contains_ci(s@, pat@),
{
    let n = pat.unicode_len();
    if n > s.len() {
        return false;
    }
    let mut k: usize = 0;
    while k <= s.len() - n
        invariant
            n == pat@.len(),
            n <= s.len(),
            forall|j: int| 0 <= j < k ==> !matches_ci_at(s@, j, pat@),
        decreases s.len() - n + 1 - k,
    {
        let mut i: usize = 0;
        let mut ok = true;
        while i < n
            invariant
                n == pat@.len(),
                k + n <= s.len(),
                i <= n,
                ok == forall|t: int| 0 <= t < i ==> eq_ignore_case(#[trigger] s@[k + t], pat@[t]),
            decreases n - i,
        {
            if !chars_eq_ignore_case(s[k + i], pat.get_char(i)) {
                ok = false;
            }
            i += 1;
        }
        if ok {
            assert(matches_ci_at(s@, k as int, pat@));
            return true;
        }
        k += 1;
    }
    assert forall|j: int| !matches_ci_at(s@, j, pat@) by {
        if 0 <= j < k {
        }
    }
    false
}

/// Whether `p` occurs in `s`.
pub fn contains_text(s: &Vec<char>, p: &Vec<char>) -> (r: bool)
    ensures
        r == contains(s@, p@),
{
    let n = p.len();
    if n > s.len() {
        return false;
    }
    let mut k: usize = 0;
    while k <= s.len() - n
        invariant
            n == p.len(),
            n <= s.len(),
            forall|j: int|
                0 <= j < k ==> #[trigger] s@.subrange(j, j + n) != p@,
        decreases s.len() - n + 1 - k,
    {
        let mut i: usize = 0;
        while i < n && s[k + i] == p[i]
            invariant
                n == p.len(),
                k + n <= s.len(),
                i <= n,
                forall|t: int| 0 <= t < i ==> #[trigger] s@[k + t] == p@[t],
            decreases n - i,
        {
            i += 1;
        }
        if i == n {
            assert forall|t: int| 0 <= t < n implies s@.subrange(k as int, k + n)[t] == p@[t] by {
                assert(s@[k + t] == p@[t]);
            }
            assert(s@.subrange(k as int, k + n) =~= p@);
            return true;
        }
        assert(s@.subrange(k as int, k + n)[i as int] != p@[i as int]);
        k += 1;
    }
    false
}

} // verus!
