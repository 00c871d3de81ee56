//! Structural checks of uploaded STL, OBJ and STEP models.
use vstd::prelude::*;
use vstd::string::*;
use crate::text::{
    bool_string, bool_text,
    any_line_equals, any_line_starts_with, decimal_text, has_line_equal, has_line_starting,
    range_starts_with, same_ignoring_case, skip_whitespace, starts_with, str_eq_ignore_case, trim_end, trim_start,
    u64_text, contains, lemma_same_ignoring_case_distinct, trimmed, line_at, line_end, is_line_start, lemma_line_end,
};

verus! {

/// What the checks found out about one uploaded file.
#[derive(Debug, Clone)]
pub struct FileInfo {
    pub file_type: String,
    pub file_size: u64,
    pub is_valid: bool,
    pub error_message: Option<String>,
    pub secure_filename: String,
}

/// A file check without the stored name.
#[derive(Debug, Clone)]
pub struct ModelInfo {
    pub file_type: String,
    pub file_size: u64,
    pub is_valid: bool,
    pub error_message: Option<String>,
}

/// The characters of an optional string.
pub open spec fn opt_text(o: Option<String>) -> Option<Seq<char>> {
    match o {
        Some(s) => Some(s@),
        None => None,
    }
}

/// The text that `String::from_utf8_lossy` makes of `b`.
pub uninterp spec fn lossy_text(b: Seq<u8>) -> Seq<char>;

/// Relies on `String::from_utf8_lossy`, whose result depends on the bytes
/// alone; its characters are collected in order.
#[verifier::external_body]
fn decode_lossy(b: &[u8]) -> (r: Vec<char>)
    ensures
        r@ == lossy_text(b@),
{
    String::from_utf8_lossy(b).chars().collect()
}

/// `r` describes a file of type `kind` with `size` bytes whose problem, if
/// any, is `problem`.
pub open spec fn describes(r: FileInfo, kind: Seq<char>, size: nat, problem: Option<Seq<char>>) -> bool {
    &&& r.file_type@ == kind
    &&& r.file_size == size
    &&& r.is_valid == (problem is None)
    &&& opt_text(r.error_message) == problem
}

/// `r` describes such a file and names no stored file yet.
pub open spec fn reports(r: FileInfo, kind: Seq<char>, size: nat, problem: Option<Seq<char>>) -> bool {
    describes(r, kind, size, problem) && r.secure_filename@.len() == 0
}

/// `r` is the check of the contents `b` by the extension `ext`, whose case
/// does not matter: `stl`, `obj`, and `step` or `stp`; any other type is
/// unsupported.
pub open spec fn check_of(r: FileInfo, b: Seq<u8>, ext: Seq<char>) -> bool {
    if same_ignoring_case(ext, "stl"@) {
        describes(r, "stl"@, b.len(), stl_problem(b))
    } else if same_ignoring_case(ext, "obj"@) {
        describes(r, "obj"@, b.len(), obj_problem(lossy_text(b)))
    } else if same_ignoring_case(ext, "step"@) || same_ignoring_case(ext, "stp"@) {
        describes(r, "step"@, b.len(), step_problem(lossy_text(b)))
    } else {
        describes(r, "unknown"@, b.len(), Some("Unsupported file type"@))
    }
}

fn report(kind: &str, size: u64, problem: Option<String>) -> (r: FileInfo)
    ensures
        reports(r, kind@, size as nat, opt_text(problem)),
{
    let is_valid = problem.is_none();
    FileInfo {
        file_type: String::from_str(kind),
        file_size: size,
        is_valid,
        error_message: problem,
        secure_filename: String::new(),
    }
}

/// Whether the bytes begin with the ASCII word `solid`.
pub open spec fn starts_with_solid(b: Seq<u8>) -> bool {
    b.len() >= 5 && b[0] == 115 && b[1] == 111 && b[2] == 108 && b[3] == 105 && b[4] == 100
}

/// The little-endian 32-bit number at offset 80: a binary STL's triangle count.
pub open spec fn triangle_count(b: Seq<u8>) -> nat {
    b[80] as nat + 256 * (b[81] as nat) + 65536 * (b[82] as nat) + 16777216 * (b[83] as nat)
}

/// The size of a binary STL with the triangle count that `b` declares:
/// an 80-byte header, the 4-byte count, and 50 bytes per triangle.
pub open spec fn stl_expected_size(b: Seq<u8>) -> nat {
    84 + 50 * triangle_count(b)
}

/// The message for a binary STL whose size is not the one its count implies.
pub open spec fn size_mismatch_message(expected: nat, actual: nat) -> Seq<char> {
    "Binary STL size mismatch. Expected "@ + decimal_text(expected) + ", got "@ + decimal_text(
        actual,
    )
}

/// Whether a text STL is complete: some line, trimmed, starts with `endsolid`.
pub open spec fn stl_text_complete(text: Seq<char>) -> bool {
    has_line_starting(text, "endsolid"@)
}

/// What is wrong with an STL file, if anything.
pub open spec fn stl_problem(b: Seq<u8>) -> Option<Seq<char>> {
    if b.len() < 5 {
        Some("File too small to be valid STL"@)
    } else if starts_with_solid(b) {
        if stl_text_complete(lossy_text(b)) {
            None
        } else {
            Some("Invalid ASCII STL - missing endsolid"@)
        }
    } else if b.len() < 84 {
        Some("Binary STL too small"@)
    } else if b.len() == stl_expected_size(b) {
        None
    } else {
        Some(size_mismatch_message(stl_expected_size(b), b.len()))
    }
}

/// What is wrong with an OBJ text, if anything: it needs a vertex line and a
/// face line.
pub open spec fn obj_problem(text: Seq<char>) -> Option<Seq<char>> {
    if has_line_starting(text, "v "@) && has_line_starting(text, "f "@) {
        None
    } else {
        Some("Invalid OBJ format - missing vertices or faces"@)
    }
}

/// Whether the first line with content starts with `ISO-10303`: that is,
/// whether the text does once its leading whitespace, line breaks included,
/// is removed.
pub open spec fn step_has_iso_header(text: Seq<char>) -> bool {
    starts_with(trim_start(text), "ISO-10303"@)
}

/// The parts of a STEP file that are missing, in the order they are reported.
pub open spec fn step_missing(text: Seq<char>) -> Seq<Seq<char>> {
    let a = if step_has_iso_header(text) { seq![] } else { seq!["ISO header"@] };
    let b = if has_line_equal(text, "HEADER;"@) { a } else { a.push("HEADER section"@) };
    let c = if has_line_equal(text, "DATA;"@) { b } else { b.push("DATA section"@) };
    if has_line_starting(text, "END-ISO-10303"@) { c } else { c.push("END-ISO section"@) }
}

/// `parts` joined by `sep`.
pub open spec fn joined(parts: Seq<Seq<char>>, sep: Seq<char>) -> Seq<char>
    decreases parts.len(),
{
    if parts.len() == 0 {
        seq![]
    } else if parts.len() == 1 {
        parts[0]
    } else {
        joined(parts.drop_last(), sep) + sep + parts.last()
    }
}

/// What is wrong with a STEP text, if anything.
pub open spec fn step_problem(text: Seq<char>) -> Option<Seq<char>> {
    if step_missing(text).len() == 0 {
        None
    } else {
        Some("Invalid STEP format - missing: "@ + joined(step_missing(text), ", "@))
    }
}

/// Whether a text STL holds its closing `endsolid` line.
pub fn has_endsolid(text: &Vec<char>) -> (r: bool)
    ensures
        r == stl_text_complete(text@),
{
    any_line_starts_with(text, "endsolid")
}

/// Checks an STL file: a text STL must close with `endsolid`; a binary one
/// must be exactly as long as its triangle count says.
pub fn validate_stl_contents(contents: &[u8]) -> (r: FileInfo)
    ensures
        reports(r, "stl"@, contents@.len(), stl_problem(contents@)),
{
    let size = contents.len() as u64;
    if contents.len() < 5 {
        return report("stl", size, Some(String::from_str("File too small to be valid STL")));
    }
    if contents[0] == 115 && contents[1] == 111 && contents[2] == 108 && contents[3] == 105
        && contents[4] == 100 {
        let text = decode_lossy(contents);
        if has_endsolid(&text) {
            report("stl", size, None)
        } else {
            report("stl", size, Some(String::from_str("Invalid ASCII STL - missing endsolid")))
        }
    } else if contents.len() < 84 {
        report("stl", size, Some(String::from_str("Binary STL too small")))
    } else {
        let count: u64 = contents[80] as u64 + 256 * (contents[81] as u64) + 65536 * (
        contents[82] as u64) + 16777216 * (contents[83] as u64);
        let expected: u64 = 84 + 50 * count;
        if size == expected {
            report("stl", size, None)
        } else {
            let msg = String::from_str("Binary STL size mismatch. Expected ");
            let msg = msg.concat(u64_text(expected).as_str());
            let msg = msg.concat(", got ");
            let msg = msg.concat(u64_text(size).as_str());
            report("stl", size, Some(msg))
        }
    }
}

/// The problem of an OBJ text, if any.
pub fn obj_text_problem(text: &Vec<char>) -> (r: Option<String>)
    ensures
        opt_text(r) == obj_problem(text@),
{
    if any_line_starts_with(text, "v ") && any_line_starts_with(text, "f ") {
        None
    } else {
        Some(String::from_str("Invalid OBJ format - missing vertices or faces"))
    }
}

/// Checks an OBJ file: it needs at least one vertex and one face.
pub fn validate_obj_contents(contents: &[u8]) -> (r: FileInfo)
    ensures
        reports(r, "obj"@, contents@.len(), obj_problem(lossy_text(contents@))),
{
    let text = decode_lossy(contents);
    report("obj", contents.len() as u64, obj_text_problem(&text))
}

/// Appends `part` to a list being joined with `", "`.
fn push_part(
    msg: &mut String,
    first: bool,
    prefix: Ghost<Seq<char>>,
    parts: Ghost<Seq<Seq<char>>>,
    part: &str,
)
    requires
        old(msg)@ == prefix@ + joined(parts@, ", "@),
        first == (parts@.len() == 0),
    ensures
        final(msg)@ == prefix@ + joined(parts@.push(part@), ", "@),
{
    assert(parts@.push(part@).drop_last() =~= parts@);
    if !first {
        msg.append(", ");
    }
    msg.append(part);
    proof {
        if parts@.len() == 0 {
            assert(joined(parts@.push(part@), ", "@) == part@);
        }
    }
    assert(final(msg)@ =~= prefix@ + joined(parts@.push(part@), ", "@));
}

/// The problem of a STEP text, if any: the missing parts, named in order.
pub fn step_text_problem(text: &Vec<char>) -> (r: Option<String>)
    ensures
        opt_text(r) == step_problem(text@),
{
    let start = skip_whitespace(text, 0, text.len());
    assert(text@.subrange(0, text@.len() as int) =~= text@);
    let iso = range_starts_with(text, start, text.len(), "ISO-10303");
    let header = any_line_equals(text, "HEADER;");
    let data = any_line_equals(text, "DATA;");
    let end = any_line_starts_with(text, "END-ISO-10303");
    if iso && header && data && end {
        return None;
    }
    let ghost prefix = "Invalid STEP format - missing: "@;
    let mut msg = String::from_str("Invalid STEP format - missing: ");
    let ghost mut parts: Seq<Seq<char>> = seq![];
    let mut first = true;
    assert(msg@ =~= prefix + joined(parts, ", "@));
    if !iso {
        push_part(&mut msg, first, Ghost(prefix), Ghost(parts), "ISO header");
        first = false;
        proof {
            parts = parts.push("ISO header"@);
        }
    }
    if !header {
        push_part(&mut msg, first, Ghost(prefix), Ghost(parts), "HEADER section");
        first = false;
        proof {
            parts = parts.push("HEADER section"@);
        }
    }
    if !data {
        push_part(&mut msg, first, Ghost(prefix), Ghost(parts), "DATA section");
        first = false;
        proof {
            parts = parts.push("DATA section"@);
        }
    }
    if !end {
        push_part(&mut msg, first, Ghost(prefix), Ghost(parts), "END-ISO section");
        first = false;
        proof {
            parts = parts.push("END-ISO section"@);
        }
    }
    assert(parts =~= step_missing(text@));
    Some(msg)
}

/// Checks a STEP file: ISO header first, `HEADER;` and `DATA;` sections, and
/// an `END-ISO-10303` line.
pub fn validate_step_contents(contents: &[u8]) -> (r: FileInfo)
    ensures
        reports(r, "step"@, contents@.len(), step_problem(lossy_text(contents@))),
{
    let text = decode_lossy(contents);
    report("step", contents.len() as u64, step_text_problem(&text))
}

/// Checks a model file by its extension, whose case does not matter: `stl`,
/// `obj`, and `step` or `stp`. Any other type is reported unsupported.
pub fn validate_3d_file(contents: &[u8], extension: &str) -> (r: FileInfo)
    ensures
        check_of(r, contents@, extension@),
        r.secure_filename@.len() == 0,
{
    proof {
        reveal_strlit("stl");
        reveal_strlit("obj");
        reveal_strlit("step");
        reveal_strlit("stp");
        let e = extension@;
        if same_ignoring_case(e, "stl"@) {
            lemma_same_ignoring_case_distinct(e, "stl"@, "obj"@, 0);
            lemma_same_ignoring_case_distinct(e, "stl"@, "stp"@, 2);
        }
        if same_ignoring_case(e, "obj"@) {
            lemma_same_ignoring_case_distinct(e, "obj"@, "stp"@, 0);
        }
    }
    if str_eq_ignore_case(extension, "stl") {
        validate_stl_contents(contents)
    } else if str_eq_ignore_case(extension, "obj") {
        validate_obj_contents(contents)
    } else if str_eq_ignore_case(extension, "step") || str_eq_ignore_case(extension, "stp") {
        validate_step_contents(contents)
    } else {
        report(
            "unknown",
            contents.len() as u64,
            Some(String::from_str("Unsupported file type")),
        )
    }
}

impl FileInfo {
    /// A one-line summary: type, size, validity and stored name.
    pub fn describe(&self) -> (r: String)
        ensures
            r@ == "FileInfo(type="@ + self.file_type@ + ", size="@ + decimal_text(
                self.file_size as nat,
            ) + ", valid="@ + bool_text(self.is_valid) + ", filename="@ + self.secure_filename@
                + ")"@,
    {
        String::from_str("FileInfo(type=").concat(self.file_type.as_str()).concat(", size=").concat(
            u64_text(self.file_size).as_str(),
        ).concat(", valid=").concat(bool_string(self.is_valid).as_str()).concat(
            ", filename=",
        ).concat(self.secure_filename.as_str()).concat(")")
    }

    /// The same check without the stored name.
    pub fn to_model_info(self) -> (r: ModelInfo)
        ensures
            r.file_type == self.file_type,
            r.file_size == self.file_size,
            r.is_valid == self.is_valid,
            r.error_message == self.error_message,
    {
        ModelInfo {
            file_type: self.file_type,
            file_size: self.file_size,
            is_valid: self.is_valid,
            error_message: self.error_message,
        }
    }
}

/// Every file of fewer than 84 bytes that does not open as a text STL is an
/// invalid STL, reported as too small.
pub proof fn lemma_short_stl_is_too_small(b: Seq<u8>)
    requires
        b.len() < 84,
        !starts_with_solid(b),
    ensures
        stl_problem(b) is Some,
        contains(stl_problem(b)->Some_0, "too small"@),
{
    reveal_strlit("too small");
    reveal_strlit("File too small to be valid STL");
    reveal_strlit("Binary STL too small");
    if b.len() < 5 {
        let m = "File too small to be valid STL"@;
        assert(m.subrange(5, 5 + "too small"@.len() as int) =~= "too small"@);
    } else {
        let m = "Binary STL too small"@;
        assert(m.subrange(11, 11 + "too small"@.len() as int) =~= "too small"@);
    }
}

/// A binary STL of `84 + 50 * n` bytes that declares `n` triangles is valid.
/// One byte more, one byte less (while it still holds a triangle), or any other
/// declared count, makes it invalid with a message that names the expected
/// and the actual size.
pub proof fn lemma_binary_stl_size(b: Seq<u8>, n: nat)
    requires
        b.len() == 84 + 50 * n,
        triangle_count(b) == n,
        !starts_with_solid(b),
    ensures
        stl_problem(b) is None,
        forall|x: u8|
            #![trigger b.push(x)]
            stl_problem(b.push(x)) == Some(size_mismatch_message(84 + 50 * n, b.len() + 1)),
        n > 0 ==> stl_problem(b.drop_last()) == Some(
            size_mismatch_message(84 + 50 * n, (b.len() - 1) as nat),
        ),
        forall|c: Seq<u8>|
            #![trigger stl_problem(c)]
            c.len() == b.len() && !starts_with_solid(c) && triangle_count(c) != n ==> stl_problem(c)
                == Some(size_mismatch_message(stl_expected_size(c), b.len())),
{
    assert forall|x: u8| #![trigger b.push(x)]
        stl_problem(b.push(x)) == Some(size_mismatch_message(84 + 50 * n, b.len() + 1)) by {
        let c = b.push(x);
        assert(c[0] == b[0] && c[1] == b[1] && c[2] == b[2] && c[3] == b[3] && c[4] == b[4]);
        assert(c[80] == b[80] && c[81] == b[81] && c[82] == b[82] && c[83] == b[83]);
    }
    if n > 0 {
        let c = b.drop_last();
        assert(c[0] == b[0] && c[1] == b[1] && c[2] == b[2] && c[3] == b[3] && c[4] == b[4]);
        assert(c[80] == b[80] && c[81] == b[81] && c[82] == b[82] && c[83] == b[83]);
    }
    assert forall|c: Seq<u8>| #![trigger stl_problem(c)]
        c.len() == b.len() && !starts_with_solid(c) && triangle_count(c) != n implies stl_problem(c)
            == Some(size_mismatch_message(stl_expected_size(c), b.len())) by {
        let m = triangle_count(c);
        assert(84 + 50 * m != 84 + 50 * n) by (nonlinear_arith)
            requires
                m != n,
        ;
    }
}

proof fn lemma_line_end_in_head(head: Seq<char>, last: Seq<char>, i: int)
    requires
        0 <= i <= head.len(),
    ensures
        line_end(head + seq!['\n'] + last, i) == line_end(head, i),
    decreases head.len() - i,
{
    let s = head + seq!['\n'] + last;
    if i < head.len() && head[i] != '\n' {
        assert(s[i] == head[i]);
        lemma_line_end_in_head(head, last, i + 1);
    } else if i == head.len() {
        assert(s[i] == '\n');
    } else {
        assert(s[i] == head[i]);
    }
}

/// A text STL that ends with a line which, trimmed, starts with `endsolid`
/// is complete, whatever lines come before it; without such a line after
/// lines that hold none, it is not.
pub proof fn lemma_text_stl_closing_line(head: Seq<char>, last: Seq<char>)
    requires
        !last.contains('\n'),
    ensures
        starts_with(trimmed(last), "endsolid"@) ==> stl_text_complete(head + seq!['\n'] + last),
        !stl_text_complete(head) ==> (stl_text_complete(head + seq!['\n'] + last) <==> starts_with(
            trimmed(last),
            "endsolid"@,
        )),
{
    reveal_strlit("endsolid");
    let s = head + seq!['\n'] + last;
    let n = head.len() as int;
    lemma_line_end(s, n + 1);
    if line_end(s, n + 1) < s.len() {
        assert(last[line_end(s, n + 1) - n - 1] == s[line_end(s, n + 1)]);
    }
    assert(line_at(s, n + 1) =~= last);
    assert(s[n] == '\n');
    if starts_with(trimmed(last), "endsolid"@) {
        if last.len() == 0 {
            assert(trim_start(last) == last);
            assert(trim_end(last) == last);
        }
        assert(is_line_start(s, n + 1));
    }
    if !stl_text_complete(head) && stl_text_complete(s) {
        let j = choose|j: int|
            is_line_start(s, j) && starts_with(trimmed(#[trigger] line_at(s, j)), "endsolid"@);
        if j < n {
            lemma_line_end_in_head(head, last, j);
            lemma_line_end(head, j);
            assert(line_at(s, j) =~= line_at(head, j));
            if j > 0 {
                assert(head[j - 1] == s[j - 1]);
            }
            assert(is_line_start(head, j));
        } else if j == n {
            assert(line_end(s, n) == n);
            assert(line_at(s, j) =~= Seq::<char>::empty());
            assert(trim_start(line_at(s, j)) == line_at(s, j));
            assert(trim_end(line_at(s, j)) == line_at(s, j));
        } else if j > n + 1 {
            assert(s[j - 1] == last[j - 1 - n - 1]);
            assert(last.contains(s[j - 1]));
        }
    }
}

} // verus!
