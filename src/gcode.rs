//! Extraction of print metadata from the comment lines of generated G-code.
//!
//! Digits here are the ASCII digits. Markers are matched ignoring ASCII case,
//! which for these markers finds the same lines as searching the lower-cased
//! line would.
use vstd::prelude::*;
use vstd::string::*;
use crate::text::{
    chars_eq_ignore_case, chars_of, contains_ci, contains_ignore_case, eq_ignore_case,
    is_whitespace, is_ws, trim_bounds, trimmed,
};
use crate::validate::opt_text;

verus! {

/// Whether `c` is an ASCII digit.
pub open spec fn is_digit(c: char) -> bool {
    48 <= c as u32 <= 57
}

/// The end of the run of digits that starts at `i`.
pub open spec fn digit_run_end(s: Seq<char>, i: int) -> int
    decreases s.len() - i,
{
    if 0 <= i < s.len() && is_digit(s[i]) {
        digit_run_end(s, i + 1)
    } else {
        i
    }
}

/// The end of the run of whitespace that starts at `i`.
pub open spec fn ws_run_end(s: Seq<char>, i: int) -> int
    decreases s.len() - i,
{
    if 0 <= i < s.len() && is_ws(s[i]) {
        ws_run_end(s, i + 1)
    } else {
        i
    }
}

/// The number that the digits `d` write.
pub open spec fn digits_value(d: Seq<char>) -> nat
    decreases d.len(),
{
    if d.len() == 0 {
        0
    } else {
        digits_value(d.drop_last()) * 10 + (d.last() as u32 - 48) as nat
    }
}

/// The number that the digits `d` write, where it fits in a `u32`.
pub open spec fn digits_u32(d: Seq<char>) -> Option<u32> {
    if digits_value(d) <= u32::MAX {
        Some(digits_value(d) as u32)
    } else {
        None
    }
}

/// Whether a run of digits begins at `p`.
pub open spec fn is_run_start(s: Seq<char>, p: int) -> bool {
    0 <= p < s.len() && is_digit(s[p]) && (p == 0 || !is_digit(s[p - 1]))
}

/// The run of digits that begins at `p`.
pub open spec fn run_at(s: Seq<char>, p: int) -> Seq<char> {
    s.subrange(p, digit_run_end(s, p))
}

/// Whether the run of digits at `p` is followed by the unit letter `u`.
pub open spec fn unit_run_at(s: Seq<char>, p: int, u: char) -> bool {
    is_run_start(s, p) && digit_run_end(s, p) < s.len() && eq_ignore_case(
        s[digit_run_end(s, p)],
        u,
    )
}

/// The first run of digits at or after `i` that the unit letter `u` follows.
pub open spec fn find_unit_run(s: Seq<char>, u: char, i: int) -> Option<int>
    decreases s.len() - i,
{
    if i < 0 || i >= s.len() {
        None
    } else if unit_run_at(s, i, u) {
        Some(i)
    } else {
        find_unit_run(s, u, i + 1)
    }
}

/// The minutes that a `<digits><u>` token of `t` contributes: its number
/// times `scale`, or nothing when there is no such token or its number does
/// not fit in a `u32`.
pub open spec fn unit_minutes(t: Seq<char>, u: char, scale: nat) -> nat {
    match find_unit_run(t, u, 0) {
        Some(p) => match digits_u32(run_at(t, p)) {
            Some(v) => v as nat * scale,
            None => 0,
        },
        None => 0,
    }
}

/// Whether `t` is a non-empty run of digits.
pub open spec fn all_digits(t: Seq<char>) -> bool {
    t.len() > 0 && forall|i: int| 0 <= i < t.len() ==> is_digit(#[trigger] t[i])
}

/// The minutes that the duration text `t` stands for: `<digits>h` counts
/// hours and `<digits>m` minutes, in either case; failing both, the whole
/// text may be a bare number of minutes. A sum beyond `u32::MAX` stops there;
/// zero, or nothing recognised, means the 60-minute default.
pub open spec fn duration_minutes(t: Seq<char>) -> u32 {
    let sum = unit_minutes(t, 'h', 60) + unit_minutes(t, 'm', 1);
    let total = if sum == 0 && all_digits(t) {
        match digits_u32(t) {
            Some(v) => v as nat,
            None => 0,
        }
    } else if sum > u32::MAX {
        u32::MAX as nat
    } else {
        sum
    };
    if total == 0 {
        60
    } else {
        total as u32
    }
}

/// The end of the number (digits, an optional point, more digits) that
/// begins at `p`.
pub open spec fn number_end(s: Seq<char>, p: int) -> int {
    let q = digit_run_end(s, p);
    if q < s.len() && s[q] == '.' {
        digit_run_end(s, q + 1)
    } else {
        q
    }
}

/// Whether a number of grams begins at `p`: a number, optional whitespace,
/// and the letter `g`.
pub open spec fn weight_at(s: Seq<char>, p: int) -> bool {
    is_run_start(s, p) && ws_run_end(s, number_end(s, p)) < s.len() && s[ws_run_end(
        s,
        number_end(s, p),
    )] == 'g'
}

/// The first position at or after `i` where a number of grams begins.
pub open spec fn find_weight(s: Seq<char>, i: int) -> Option<int>
    decreases s.len() - i,
{
    if i < 0 || i >= s.len() {
        None
    } else if weight_at(s, i) {
        Some(i)
    } else {
        find_weight(s, i + 1)
    }
}

/// The numeral of the first number of grams in `s`.
pub open spec fn weight_numeral(s: Seq<char>) -> Option<Seq<char>> {
    match find_weight(s, 0) {
        Some(p) => Some(s.subrange(p, number_end(s, p))),
        None => None,
    }
}

/// The first run of digits at or after `i`.
pub open spec fn find_digits(s: Seq<char>, i: int) -> Option<int>
    decreases s.len() - i,
{
    if i < 0 || i >= s.len() {
        None
    } else if is_digit(s[i]) {
        Some(i)
    } else {
        find_digits(s, i + 1)
    }
}

/// The text after the last `:` of `s`, or all of `s` where it has none.
pub open spec fn after_last_colon(s: Seq<char>) -> Seq<char>
    decreases s.len(),
{
    if s.len() == 0 {
        s
    } else if s.last() == ':' {
        seq![]
    } else {
        after_last_colon(s.drop_last()).push(s.last())
    }
}

/// What a scan has found so far: minutes of print time (0 for none yet), the
/// numeral of the filament weight, and the layer count.
pub type ScanState = (u32, Option<Seq<char>>, Option<u32>);

/// The scan after one more line. A time line sets the minutes from the text
/// after its last colon; a filament line sets the weight where it holds a
/// number of grams; a layer line sets the count from its first digits, and
/// clears it when they do not fit in a `u32`.
pub open spec fn scan_line(st: ScanState, line: Seq<char>) -> ScanState {
    if contains_ci(line, "; estimated printing time"@) || contains_ci(line, "; print time"@) {
        (duration_minutes(trimmed(after_last_colon(line))), st.1, st.2)
    } else if contains_ci(line, "; filament used"@) || contains_ci(line, "; material volume"@) {
        match weight_numeral(line) {
            Some(w) => (st.0, Some(w), st.2),
            None => st,
        }
    } else if contains_ci(line, "; layer_count"@) || contains_ci(line, "; total layers"@) {
        match find_digits(line, 0) {
            Some(p) => (st.0, st.1, digits_u32(run_at(line, p))),
            None => st,
        }
    } else {
        st
    }
}

/// The scan over `lines`, in order.
pub open spec fn scan_all(lines: Seq<Seq<char>>) -> ScanState
    decreases lines.len(),
{
    if lines.len() == 0 {
        (0, None, None)
    } else {
        scan_line(scan_all(lines.drop_last()), lines.last())
    }
}

/// Metadata lines sit near the top: only this many lines are read.
pub const SCAN_LIMIT: usize = 200;

/// The texts of `lines`.
pub open spec fn line_texts(lines: Seq<String>) -> Seq<Seq<char>> {
    lines.map_values(|l: String| l@)
}

/// The lines that a scan reads: the first [`SCAN_LIMIT`] of them.
pub open spec fn scanned_lines(lines: Seq<String>) -> Seq<Seq<char>> {
    let n = if lines.len() < SCAN_LIMIT { lines.len() } else { SCAN_LIMIT as nat };
    line_texts(lines.subrange(0, n as int))
}

/// Whether a numeral stands for zero.
pub open spec fn numeral_is_zero(w: Seq<char>) -> bool {
    forall|i: int| 0 <= i < w.len() ==> (#[trigger] w[i] == '0' || w[i] == '.')
}

/// Print metadata of one G-code file.
#[derive(Debug, Clone)]
pub struct SlicingMetadata {
    pub print_time_minutes: u32,
    /// The decimal numeral of the filament weight in grams, as the slicer
    /// wrote it.
    pub filament_weight_grams: String,
    pub layer_count: Option<u32>,
    pub gcode_path: String,
}

/// The metadata that a finished scan gives: 60 minutes where no time was
/// found, 20 grams where no weight (or a zero weight) was found.
pub open spec fn metadata_of(st: ScanState) -> (u32, Seq<char>, Option<u32>) {
    (
        if st.0 == 0 { 60 } else { st.0 },
        match st.1 {
            Some(w) => if numeral_is_zero(w) { "20"@ } else { w },
            None => "20"@,
        },
        st.2,
    )
}

proof fn lemma_digits_all(s: Seq<char>, i: int)
    requires
        0 <= i <= s.len(),
    ensures
        i <= digit_run_end(s, i) <= s.len(),
        forall|k: int| i <= k < digit_run_end(s, i) ==> is_digit(#[trigger] s[k]),
        digit_run_end(s, i) < s.len() ==> !is_digit(s[digit_run_end(s, i)]),
    decreases s.len() - i,
{
    if i < s.len() && is_digit(s[i]) {
        lemma_digits_all(s, i + 1);
    }
}

proof fn lemma_digits_value_prefix(d: Seq<char>, k: int)
    requires
        0 <= k <= d.len(),
    ensures
        digits_value(d.subrange(0, k)) <= digits_value(d),
    decreases d.len(),
{
    if k < d.len() {
        assert(d.drop_last() =~= d.subrange(0, d.len() - 1));
        assert(d.drop_last().subrange(0, k) =~= d.subrange(0, k));
        lemma_digits_value_prefix(d.drop_last(), k);
    } else {
        assert(d.subrange(0, k) =~= d);
    }
}

/// The end of the run of digits that starts at `i`.
fn run_end(s: &Vec<char>, i: usize) -> (r: usize)
    requires
        i <= s.len(),
    ensures
        r == digit_run_end(s@, i as int),
        i <= r <= s.len(),
{
    let mut k = i;
    while k < s.len() && 48 <= s[k] as u32 && s[k] as u32 <= 57
        invariant
            i <= k <= s.len(),
            digit_run_end(s@, i as int) == digit_run_end(s@, k as int),
        decreases s.len() - k,
    {
        k += 1;
    }
    k
}

/// The end of the run of whitespace that starts at `i`.
fn ws_end(s: &Vec<char>, i: usize) -> (r: usize)
    requires
        i <= s.len(),
    ensures
        r == ws_run_end(s@, i as int),
        i <= r <= s.len(),
{
    let mut k = i;
    while k < s.len() && is_whitespace(s[k])
        invariant
            i <= k <= s.len(),
            ws_run_end(s@, i as int) == ws_run_end(s@, k as int),
        decreases s.len() - k,
    {
        k += 1;
    }
    k
}

/// The number that the digits `s[a..b]` write, where it fits in a `u32`.
fn value_u32(s: &Vec<char>, a: usize, b: usize) -> (r: Option<u32>)
    requires
        a <= b <= s.len(),
        forall|k: int| a <= k < b ==> is_digit(#[trigger] s@[k]),
    ensures
        r == digits_u32(s@.subrange(a as int, b as int)),
{
    let mut acc: u64 = 0;
    let mut i = a;
    while i < b
        invariant
            a <= i <= b <= s.len(),
            forall|k: int| a <= k < b ==> is_digit(#[trigger] s@[k]),
            acc == digits_value(s@.subrange(a as int, i as int)),
            acc <= u32::MAX,
        decreases b - i,
    {
        let d = (s[i] as u32 - 48) as u64;
        assert(s@.subrange(a as int, i + 1).drop_last() =~= s@.subrange(a as int, i as int));
        let next = acc * 10 + d;
        if next > u32::MAX as u64 {
            proof {
                let whole = s@.subrange(a as int, b as int);
                lemma_digits_value_prefix(whole, i + 1 - a);
                assert(whole.subrange(0, i + 1 - a) =~= s@.subrange(a as int, i + 1));
            }
            return None;
        }
        acc = next;
        i += 1;
    }
    Some(acc as u32)
}

/// The first run of digits at or after `i` that the unit letter `u` follows.
fn first_unit_run(s: &Vec<char>, u: char) -> (r: Option<usize>)
    ensures
        match r {
            Some(p) => find_unit_run(s@, u, 0) == Some(p as int) && p < s.len(),
            None => find_unit_run(s@, u, 0) is None,
        },
{
    let mut i: usize = 0;
    while i < s.len()
        invariant
            i <= s.len(),
            find_unit_run(s@, u, 0) == find_unit_run(s@, u, i as int),
        decreases s.len() - i,
    {
        let c = s[i] as u32;
        if 48 <= c && c <= 57 && (i == 0 || !(48 <= s[i - 1] as u32 && s[i - 1] as u32 <= 57)) {
            let e = run_end(s, i);
            if e < s.len() && chars_eq_ignore_case(s[e], u) {
                return Some(i);
            }
        }
        i += 1;
    }
    None
}

/// The minutes of a `<digits><u>` token of `t`, times `scale`.
fn unit_part(t: &Vec<char>, u: char, scale: u64) -> (r: u64)
    requires
        scale <= 60,
    ensures
        r == unit_minutes(t@, u, scale as nat),
{
    match first_unit_run(t, u) {
        Some(p) => {
            let e = run_end(t, p);
            proof {
                lemma_digits_all(t@, p as int);
            }
            match value_u32(t, p, e) {
                Some(v) => {
                    assert(v as u64 * scale <= u32::MAX as u64 * 60) by (nonlinear_arith)
                        requires
                            scale <= 60,
                            v <= u32::MAX,
                    ;
                    v as u64 * scale
                },
                None => 0,
            }
        },
        None => 0,
    }
}

/// The minutes that the duration text `t` stands for.
pub fn duration_of(t: &Vec<char>) -> (r: u32)
    ensures
        r == duration_minutes(t@),
{
    let sum = unit_part(t, 'h', 60) + unit_part(t, 'm', 1);
    let mut total: u64 = 0;
    if sum == 0 {
        let mut bare = t.len() > 0;
        let mut i: usize = 0;
        while i < t.len()
            invariant
                i <= t.len(),
                bare == (t@.len() > 0 && forall|k: int| 0 <= k < i ==> is_digit(#[trigger] t@[k])),
            decreases t.len() - i,
        {
            let c = t[i] as u32;
            if !(48 <= c && c <= 57) {
                bare = false;
            }
            i += 1;
        }
        if bare {
            match value_u32(t, 0, t.len()) {
                Some(v) => {
                    total = v as u64;
                },
                None => {},
            }
            assert(t@.subrange(0, t@.len() as int) =~= t@);
        }
    } else if sum > u32::MAX as u64 {
        total = u32::MAX as u64;
    } else {
        total = sum;
    }
    if total == 0 {
        60
    } else {
        total as u32
    }
}

/// The minutes of a duration such as `1h 30m`, `45m` or `90`; see
/// [`duration_minutes`].
pub fn parse_time_string_to_minutes(time_str: &str) -> (r: u32)
    ensures
        r == duration_minutes(trimmed(time_str@)),
{
    let t = chars_of(time_str);
    let (a, b) = trim_bounds(&t, 0, t.len());
    assert(t@.subrange(0, t@.len() as int) =~= t@);
    let part = copy_range(&t, a, b);
    duration_of(&part)
}

/// The characters `s[a..b]`.
fn copy_range(s: &Vec<char>, a: usize, b: usize) -> (r: Vec<char>)
    requires
        a <= b <= s.len(),
    ensures
        r@ == s@.subrange(a as int, b as int),
{
    let mut r: Vec<char> = Vec::new();
    let mut i = a;
    while i < b
        invariant
            a <= i <= b <= s.len(),
            r@ == s@.subrange(a as int, i as int),
        decreases b - i,
    {
        r.push(s[i]);
        assert(r@ =~= s@.subrange(a as int, i + 1));
        i += 1;
    }
    r
}

/// The first position where a number of grams begins.
fn first_weight(s: &Vec<char>) -> (r: Option<usize>)
    ensures
        match r {
            Some(p) => find_weight(s@, 0) == Some(p as int) && p < s.len(),
            None => find_weight(s@, 0) is None,
        },
{
    let mut i: usize = 0;
    while i < s.len()
        invariant
            i <= s.len(),
            find_weight(s@, 0) == find_weight(s@, i as int),
        decreases s.len() - i,
    {
        let c = s[i] as u32;
        if 48 <= c && c <= 57 && (i == 0 || !(48 <= s[i - 1] as u32 && s[i - 1] as u32 <= 57)) {
            let q = run_end(s, i);
            let n = if q < s.len() && s[q] == '.' {
                run_end(s, q + 1)
            } else {
                q
            };
            let w = ws_end(s, n);
            if w < s.len() && s[w] == 'g' {
                return Some(i);
            }
        }
        i += 1;
    }
    None
}

/// The numeral of the filament weight in grams that a G-code comment names.
pub fn parse_filament_weight(line: &str) -> (r: Option<String>)
    ensures
        opt_text(r) == weight_numeral(line@),
{
    let s = chars_of(line);
    match first_weight(&s) {
        Some(p) => {
            let q = run_end(&s, p);
            let n = if q < s.len() && s[q] == '.' {
                run_end(&s, q + 1)
            } else {
                q
            };
            Some(String::from_str(line.substring_char(p, n)))
        },
        None => None,
    }
}

/// The first run of digits.
fn first_digits(s: &Vec<char>) -> (r: Option<usize>)
    ensures
        match r {
            Some(p) => find_digits(s@, 0) == Some(p as int) && p < s.len(),
            None => find_digits(s@, 0) is None,
        },
{
    let mut i: usize = 0;
    while i < s.len()
        invariant
            i <= s.len(),
            find_digits(s@, 0) == find_digits(s@, i as int),
        decreases s.len() - i,
    {
        let c = s[i] as u32;
        if 48 <= c && c <= 57 {
            return Some(i);
        }
        i += 1;
    }
    None
}

/// The text after the last `:` of `s`, as bounds `s[r..]`.
fn after_colon_start(s: &Vec<char>) -> (r: usize)
    ensures
        r <= s.len(),
        s@.subrange(r as int, s@.len() as int) == after_last_colon(s@),
{
    let mut k = s.len();
    assert(s@.subrange(0, k as int) =~= s@);
    assert(s@.subrange(k as int, k as int) =~= Seq::<char>::empty());
    while k > 0 && s[k - 1] != ':'
        invariant
            k <= s.len(),
            after_last_colon(s@) == after_last_colon(s@.subrange(0, k as int)) + s@.subrange(
                k as int,
                s@.len() as int,
            ),
        decreases k,
    {
        let ghost pre = s@.subrange(0, k as int);
        assert(pre.drop_last() =~= s@.subrange(0, k - 1));
        assert(s@.subrange(k - 1, s@.len() as int) =~= seq![s@[k - 1]] + s@.subrange(
            k as int,
            s@.len() as int,
        ));
        assert(after_last_colon(pre) == after_last_colon(pre.drop_last()).push(pre.last()));
        assert(after_last_colon(pre.drop_last()).push(pre.last()) + s@.subrange(
            k as int,
            s@.len() as int,
        ) =~= after_last_colon(pre.drop_last()) + s@.subrange(k - 1, s@.len() as int));
        k -= 1;
    }
    assert(after_last_colon(s@.subrange(0, k as int)) =~= Seq::<char>::empty());
    assert(Seq::<char>::empty() + s@.subrange(k as int, s@.len() as int) =~= s@.subrange(
        k as int,
        s@.len() as int,
    ));
    k
}

/// Whether the numeral `w` stands for zero.
fn is_zero_numeral(w: &str) -> (r: bool)
    ensures
        r == numeral_is_zero(w@),
{
    let n = w.unicode_len();
    let mut i: usize = 0;
    while i < n
        invariant
            n == w@.len(),
            i <= n,
            forall|t: int| 0 <= t < i ==> (#[trigger] w@[t] == '0' || w@[t] == '.'),
        decreases n - i,
    {
        let c = w.get_char(i);
        if c != '0' && c != '.' {
            return false;
        }
        i += 1;
    }
    true
}

/// Reads the print time, filament weight and layer count from the first
/// [`SCAN_LIMIT`] lines of a G-code file; see [`scan_line`] and
/// [`metadata_of`].
pub fn parse_gcode_lines(lines: &Vec<String>, gcode_path: String) -> (r: SlicingMetadata)
    ensures
        (r.print_time_minutes, r.filament_weight_grams@, r.layer_count) == metadata_of(
            scan_all(scanned_lines(lines@)),
        ),
        r.gcode_path == gcode_path,
{
    let n = if lines.len() < SCAN_LIMIT {
        lines.len()
    } else {
        SCAN_LIMIT
    };
    let mut minutes: u32 = 0;
    let mut weight: Option<String> = None;
    let mut layers: Option<u32> = None;
    let mut i: usize = 0;
    while i < n
        invariant
            n <= lines.len(),
            i <= n,
            (minutes, opt_text(weight), layers) == scan_all(
                line_texts(lines@.subrange(0, i as int)),
            ),
        decreases n - i,
    {
        let line = lines[i].as_str();
        let s = chars_of(line);
        if contains_ignore_case(&s, "; estimated printing time") || contains_ignore_case(
            &s,
            "; print time",
        ) {
            let k = after_colon_start(&s);
            let (a, b) = trim_bounds(&s, k, s.len());
            let part = copy_range(&s, a, b);
            minutes = duration_of(&part);
        } else if contains_ignore_case(&s, "; filament used") || contains_ignore_case(
            &s,
            "; material volume",
        ) {
            match parse_filament_weight(line) {
                Some(w) => {
                    weight = Some(w);
                },
                None => {},
            }
        } else if contains_ignore_case(&s, "; layer_count") || contains_ignore_case(
            &s,
            "; total layers",
        ) {
            match first_digits(&s) {
                Some(p) => {
                    let e = run_end(&s, p);
                    proof {
                        lemma_digits_all(s@, p as int);
                    }
                    layers = value_u32(&s, p, e);
                },
                None => {},
            }
        }
        assert(line_texts(lines@.subrange(0, i + 1)).drop_last() =~= line_texts(
            lines@.subrange(0, i as int),
        ));
        assert(line_texts(lines@.subrange(0, i + 1)).last() == lines@[i as int]@);
        i += 1;
    }
    let print_time_minutes = if minutes == 0 {
        60
    } else {
        minutes
    };
    let filament_weight_grams = match weight {
        Some(w) => {
            if is_zero_numeral(w.as_str()) {
                String::from_str("20")
            } else {
                w
            }
        },
        None => String::from_str("20"),
    };
    SlicingMetadata { print_time_minutes, filament_weight_grams, layer_count: layers, gcode_path }
}

} // verus!
