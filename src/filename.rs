//! Turning untrusted upload names into names that are safe to store.
use vstd::prelude::*;
use vstd::string::*;
use crate::error::OrcaError;
use crate::text::{is_ws, trim_end, trim_start, trim_str, trimmed};

verus! {

/// Characters that no stored name may hold: path separators and the
/// characters that filesystems reserve.
pub open spec fn is_illegal(c: char) -> bool {
    c == '/' || c == '?' || c == '<' || c == '>' || c == '\\' || c == ':' || c == '*' || c == '|'
        || c == '"'
}

/// Control characters, the null character among them.
pub open spec fn is_control(c: char) -> bool {
    c as u32 <= 0x1f || (0x80 <= c as u32 <= 0x9f)
}

/// Characters that sanitizing removes.
pub open spec fn is_unsafe(c: char) -> bool {
    is_illegal(c) || is_control(c)
}

/// `s` without its unsafe characters.
pub open spec fn strip_unsafe(s: Seq<char>) -> Seq<char>
    decreases s.len(),
{
    if s.len() == 0 {
        s
    } else if is_unsafe(s.last()) {
        strip_unsafe(s.drop_last())
    } else {
        strip_unsafe(s.drop_last()).push(s.last())
    }
}

/// Whether `s` is made of dots alone, such as `.` or `..`.
pub open spec fn all_dots(s: Seq<char>) -> bool {
    s.len() > 0 && forall|i: int| 0 <= i < s.len() ==> (#[trigger] s[i] == '.')
}

/// The number of bytes that `c` takes in UTF-8.
pub open spec fn utf8_len(c: char) -> nat {
    if (c as u32) < 0x80 {
        1
    } else if (c as u32) < 0x800 {
        2
    } else if (c as u32) < 0x10000 {
        3
    } else {
        4
    }
}

/// The number of bytes that `s` takes in UTF-8.
pub open spec fn utf8_size(s: Seq<char>) -> nat
    decreases s.len(),
{
    if s.len() == 0 {
        0
    } else {
        utf8_len(s[0]) + utf8_size(s.drop_first())
    }
}

/// The longest prefix of `s` that fits in `budget` bytes of UTF-8.
pub open spec fn fit_prefix(s: Seq<char>, budget: nat) -> Seq<char>
    decreases s.len(),
{
    if s.len() == 0 {
        s
    } else if utf8_len(s[0]) <= budget {
        seq![s[0]] + fit_prefix(s.drop_first(), (budget - utf8_len(s[0])) as nat)
    } else {
        seq![]
    }
}

/// What `sanitize_filename` makes of `s` with Unix rules: unsafe characters
/// removed, a name of dots alone cleared, and the rest cut to 255 bytes.
pub open spec fn sanitized(s: Seq<char>) -> Seq<char> {
    let t = strip_unsafe(s);
    fit_prefix(if all_dots(t) { seq![] } else { t }, 255)
}

/// Relies on `sanitize_filename::sanitize_with_options`, with the options that
/// its `sanitize` takes on Unix: no Windows rules, truncation to 255 bytes, and
/// an empty replacement. It removes the illegal and the control characters,
/// clears a name of dots alone, and cuts the rest at the last character
/// boundary within 255 bytes.
#[verifier::external_body]
fn sanitize_name(name: &str) -> (r: String)
    ensures
        r@ == sanitized(name@),
{
    sanitize_filename::sanitize_with_options(
        name,
        sanitize_filename::Options { windows: false, truncate: true, replacement: "" },
    )
}

/// The name under which an upload called `s` is stored: sanitized, trimmed,
/// and sanitized once more, since trimming can leave a name of dots alone.
/// Empty when nothing of `s` survives.
pub open spec fn secure_name(s: Seq<char>) -> Seq<char> {
    sanitized(trimmed(sanitized(s)))
}

/// The error for a name of which nothing survives.
pub open spec fn is_empty_name_error(e: OrcaError) -> bool {
    e is InvalidFile && e->InvalidFile_msg@ == "Filename becomes empty after sanitization"@
}

/// The safe form of an upload's name; fails when nothing of it survives.
pub fn validate_filename(filename: &str) -> (r: Result<String, OrcaError>)
    ensures
        r is Ok <==> secure_name(filename@).len() > 0,
        r is Ok ==> r->Ok_0@ == secure_name(filename@),
        r is Err ==> is_empty_name_error(r->Err_0),
{
    let once = sanitize_name(filename);
    let name = sanitize_name(trim_str(once.as_str()));
    if name.as_str().is_empty() {
        Err(
            OrcaError::InvalidFile {
                msg: String::from_str("Filename becomes empty after sanitization"),
            },
        )
    } else {
        Ok(name)
    }
}

/// Whether `s` holds no unsafe character.
pub open spec fn all_safe(s: Seq<char>) -> bool {
    forall|i: int| 0 <= i < s.len() ==> !is_unsafe(#[trigger] s[i])
}

proof fn lemma_strip_unsafe(s: Seq<char>)
    ensures
        all_safe(strip_unsafe(s)),
        all_safe(s) ==> strip_unsafe(s) == s,
        (forall|i: int| 0 <= i < s.len() ==> is_unsafe(#[trigger] s[i])) ==> strip_unsafe(s).len()
            == 0,
    decreases s.len(),
{
    if s.len() > 0 {
        lemma_strip_unsafe(s.drop_last());
        if all_safe(s) {
            assert(all_safe(s.drop_last()));
            assert(s.drop_last().push(s.last()) =~= s);
        }
        if forall|i: int| 0 <= i < s.len() ==> is_unsafe(#[trigger] s[i]) {
            assert(is_unsafe(s[s.len() - 1]));
        }
    }
}

proof fn lemma_utf8_size_concat(a: Seq<char>, b: Seq<char>)
    ensures
        utf8_size(a + b) == utf8_size(a) + utf8_size(b),
    decreases a.len(),
{
    if a.len() == 0 {
        assert(a + b =~= b);
    } else {
        assert((a + b).drop_first() =~= a.drop_first() + b);
        lemma_utf8_size_concat(a.drop_first(), b);
    }
}

proof fn lemma_utf8_size_subrange(s: Seq<char>, i: int, j: int)
    requires
        0 <= i <= j <= s.len(),
    ensures
        utf8_size(s.subrange(i, j)) <= utf8_size(s),
{
    assert(s =~= s.subrange(0, i) + s.subrange(i, j) + s.subrange(j, s.len() as int));
    lemma_utf8_size_concat(s.subrange(0, i) + s.subrange(i, j), s.subrange(j, s.len() as int));
    lemma_utf8_size_concat(s.subrange(0, i), s.subrange(i, j));
}

proof fn lemma_fit_prefix(s: Seq<char>, budget: nat)
    ensures
        fit_prefix(s, budget).len() <= s.len(),
        fit_prefix(s, budget) == s.subrange(0, fit_prefix(s, budget).len() as int),
        utf8_size(fit_prefix(s, budget)) <= budget,
        utf8_size(s) <= budget ==> fit_prefix(s, budget) == s,
    decreases s.len(),
{
    if s.len() > 0 && utf8_len(s[0]) <= budget {
        let rest = (budget - utf8_len(s[0])) as nat;
        lemma_fit_prefix(s.drop_first(), rest);
        let f = fit_prefix(s.drop_first(), rest);
        assert(seq![s[0]] + f =~= s.subrange(0, f.len() as int + 1));
        assert((seq![s[0]] + f).drop_first() =~= f);
        if utf8_size(s) <= budget {
            assert(seq![s[0]] + s.drop_first() =~= s);
        }
    }
}

proof fn lemma_trim_start(s: Seq<char>)
    ensures
        exists|k: int| 0 <= k <= s.len() && trim_start(s) == #[trigger] s.subrange(k, s.len() as int),
        trim_start(s).len() > 0 ==> !is_ws(trim_start(s)[0]),
    decreases s.len(),
{
    if s.len() > 0 && is_ws(s[0]) {
        lemma_trim_start(s.drop_first());
        let k = choose|k: int|
            0 <= k <= s.drop_first().len() && trim_start(s.drop_first()) == #[trigger] s.drop_first().subrange(
                k,
                s.drop_first().len() as int,
            );
        assert(s.drop_first().subrange(k, s.drop_first().len() as int) =~= s.subrange(
            k + 1,
            s.len() as int,
        ));
    } else {
        assert(s.subrange(0, s.len() as int) =~= s);
    }
}

proof fn lemma_trim_end(s: Seq<char>)
    ensures
        exists|k: int| 0 <= k <= s.len() && trim_end(s) == #[trigger] s.subrange(0, k),
        trim_end(s).len() > 0 ==> !is_ws(trim_end(s).last()),
    decreases s.len(),
{
    if s.len() > 0 && is_ws(s.last()) {
        lemma_trim_end(s.drop_last());
        let k = choose|k: int|
            0 <= k <= s.drop_last().len() && trim_end(s.drop_last()) == #[trigger] s.drop_last().subrange(
                0,
                k,
            );
        assert(s.drop_last().subrange(0, k) =~= s.subrange(0, k));
    } else {
        assert(s.subrange(0, s.len() as int) =~= s);
    }
}

/// Trimming keeps a contiguous part of `s`.
proof fn lemma_trimmed_part(s: Seq<char>)
    ensures
        exists|i: int, j: int|
            0 <= i <= j <= s.len() && trimmed(s) == #[trigger] s.subrange(i, j),
        trimmed(trimmed(s)) == trimmed(s),
{
    lemma_trim_start(s);
    let u = trim_start(s);
    let i = choose|k: int| 0 <= k <= s.len() && u == #[trigger] s.subrange(k, s.len() as int);
    lemma_trim_end(u);
    let v = trim_end(u);
    let j = choose|k: int| 0 <= k <= u.len() && v == #[trigger] u.subrange(0, k);
    assert(u.subrange(0, j) =~= s.subrange(i, i + j));
    assert(v == s.subrange(i, i + j));
    if v.len() > 0 {
        assert(v[0] == u[0]);
        assert(trim_start(v) == v);
        assert(trim_end(v) == v);
    } else {
        assert(trim_start(v) == v);
        assert(trim_end(v) == v);
    }
}

/// Storing a secure name again changes nothing: the secure form of a secure
/// name is that name.
pub proof fn lemma_secure_name_idempotent(s: Seq<char>)
    ensures
        secure_name(secure_name(s)) == secure_name(s),
{
    let a = strip_unsafe(s);
    lemma_strip_unsafe(s);
    let a2 = if all_dots(a) { seq![] } else { a };
    let first = sanitized(s);
    lemma_fit_prefix(a2, 255);
    assert(all_safe(first));
    let t = trimmed(first);
    lemma_trimmed_part(first);
    let (i, j) = choose|i: int, j: int|
        0 <= i <= j <= first.len() && t == #[trigger] first.subrange(i, j);
    lemma_utf8_size_subrange(first, i, j);
    assert(all_safe(t));
    lemma_strip_unsafe(t);
    let t2 = if all_dots(t) { seq![] } else { t };
    lemma_fit_prefix(t2, 255);
    let y = secure_name(s);
    assert(y == t2);
    // y is safe, fits, is no name of dots alone, and is trimmed.
    lemma_strip_unsafe(y);
    lemma_fit_prefix(y, 255);
    assert(sanitized(y) == y);
    lemma_trimmed_part(t);
    if y.len() == 0 {
        assert(trim_start(y) == y);
        assert(trim_end(y) == y);
    }
    assert(trimmed(y) == y);
}

/// A name made of path separators alone has no secure form, so validating it
/// fails.
pub proof fn lemma_separators_only_rejected(s: Seq<char>)
    requires
        forall|i: int| 0 <= i < s.len() ==> (#[trigger] s[i] == '/' || s[i] == '\\'),
    ensures
        secure_name(s).len() == 0,
{
    assert forall|i: int| 0 <= i < s.len() implies is_unsafe(#[trigger] s[i]) by {
        assert(s[i] == '/' || s[i] == '\\');
    }
    lemma_strip_unsafe(s);
    let e = strip_unsafe(s);
    assert(!all_dots(e));
    assert(fit_prefix(e, 255) == e);
    assert(trim_start(e) == e);
    assert(trim_end(e) == e);
    lemma_strip_unsafe(e);
}

} // verus!
