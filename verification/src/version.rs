//! Version generation: merges the `Cargo.toml` version with Git metadata
//! and renders the version constants, fingerprints, build-log rows and
//! environment exports.
use vstd::prelude::*;

use crate::compiler::BuildModel;
use crate::compiler::CompilerEnv;
use crate::error::VersionError;
use crate::text::chars_of;
use crate::text::decimal;
use crate::text::opt_str;
use crate::text::opt_text;
use crate::text::push_decimal;
use crate::text::push_str;
use crate::text::string_of;
use crate::ts::human_text;
use crate::ts::HUMAN_DESCRIPTION;
use crate::ts::rfc3339_text;
use crate::ts::Format;
use crate::text::debug_quoted;
use crate::text::quoted_text;
use crate::ts::DateTime;
use crate::text::find_char;
use crate::text::find_char_in;
use crate::text::lemma_decimal_reads_back;
use crate::text::lemma_find_char_is;
use crate::text::lemma_parse_decimal;
use crate::text::lemma_trim_padded;
use crate::text::is_ws;
use crate::text::lead_ws;
use crate::text::trim_start;
use crate::text::lemma_find_char;
use crate::text::lines;
use crate::text::next_line;
use crate::text::starts_with;
use crate::text::text_starts_with;
use crate::text::push_char;
use crate::text::parse_u32;
use crate::text::parse_u32_spec;
use crate::text::trim;
use crate::text::trim_str;

verus! {

broadcast use vstd::string::group_string_axioms;

// ---------------------------------------------------------------------------
// The `version = "X.Y.Z"` line of Cargo.toml
// ---------------------------------------------------------------------------
/// The key that starts a version line.
pub open spec fn version_key() -> Seq<char> {
    seq!['v', 'e', 'r', 's', 'i', 'o', 'n']
}

/// `v` without one leading `'"'`.
pub open spec fn strip_leading_quote(v: Seq<char>) -> Seq<char> {
    if v.len() > 0 && v[0] == '"' {
        v.skip(1)
    } else {
        v
    }
}

/// `v` without one trailing `'"'`.
pub open spec fn strip_trailing_quote(v: Seq<char>) -> Seq<char> {
    if v.len() > 0 && v.last() == '"' {
        v.drop_last()
    } else {
        v
    }
}

/// The three numbers of a dotted `major.minor.patch` text, where the patch
/// is everything after the second dot.
pub open spec fn dotted_triple(v: Seq<char>) -> Option<(u32, u32, u32)> {
    let d1 = find_char(v, '.');
    if d1 >= v.len() {
        None
    } else {
        let r1 = v.skip(d1 + 1);
        let d2 = find_char(r1, '.');
        if d2 >= r1.len() {
            None
        } else {
            match (
                parse_u32_spec(v.take(d1)),
                parse_u32_spec(r1.take(d2)),
                parse_u32_spec(r1.skip(d2 + 1)),
            ) {
                (Some(a), Some(b), Some(c)) => Some((a as u32, b as u32, c as u32)),
                _ => None,
            }
        }
    }
}

/// The numbers of a Cargo.toml line `version = "X.Y.Z"`: after trimming,
/// the line starts with `version`; the value after the first `'='` is
/// trimmed, loses one leading and one trailing quote, and splits at dots
/// into three `u32`s.
pub open spec fn version_line_numbers(line: Seq<char>) -> Option<(u32, u32, u32)> {
    let t = trim(line);
    if !(t.len() >= 7 && t.take(7) == version_key()) {
        None
    } else {
        let eq = find_char(t, '=');
        if eq >= t.len() {
            None
        } else {
            dotted_triple(strip_trailing_quote(strip_leading_quote(trim(t.skip(eq + 1)))))
        }
    }
}

/// Parses a `version = "X.Y.Z"` line from `Cargo.toml`.
///
/// Returns `Some((major, minor, patch))` on success, `None` if the line
/// doesn't match or has invalid format.
pub fn parse_version_line(line: &str) -> (r: Option<(u32, u32, u32)>)
    ensures
        r == version_line_numbers(line@),
{
    let trimmed = trim_str(line);
    let t = chars_of(trimmed);
    let n = t.len();
    if !(n >= 7 && t[0] == 'v' && t[1] == 'e' && t[2] == 'r' && t[3] == 's' && t[4] == 'i' && t[5]
        == 'o' && t[6] == 'n') {
        proof {
            if n >= 7 && t@.take(7) == version_key() {
                assert(t@.take(7)[0] == 'v' && t@.take(7)[1] == 'e' && t@.take(7)[2] == 'r'
                    && t@.take(7)[3] == 's' && t@.take(7)[4] == 'i' && t@.take(7)[5] == 'o'
                    && t@.take(7)[6] == 'n');
            }
        }
        return None;
    }
    assert(t@.take(7) =~= version_key());
    let eq = find_char_in(&t, '=', 0, n);
    assert(t@.subrange(0, n as int) =~= t@);
    if eq == n {
        return None;
    }
    let value = trim_str(trimmed.substring_char(eq + 1, n));
    assert(t@.skip(eq + 1) =~= t@.subrange(eq + 1, n as int));
    let vv = chars_of(value);
    let mut a: usize = 0;
    let mut b: usize = vv.len();
    if b > 0 && vv[0] == '"' {
        a = 1;
    }
    if b > a && vv[b - 1] == '"' {
        b = b - 1;
    }
    let ghost v2 = strip_trailing_quote(strip_leading_quote(vv@));
    assert(vv@.subrange(a as int, b as int) =~= v2);
    dotted_triple_in(value, &vv, a, b)
}

/// The dotted triple held by `vv[a..b]`, where `vv` holds the characters of
/// `text`.
fn dotted_triple_in(text: &str, vv: &Vec<char>, a: usize, b: usize) -> (r: Option<(u32, u32, u32)>)
    requires
        vv@ == text@,
        a <= b <= vv.len(),
    ensures
        r == dotted_triple(vv@.subrange(a as int, b as int)),
{
    let ghost v2 = vv@.subrange(a as int, b as int);
    let d1 = find_char_in(vv, '.', a, b);
    if d1 == b {
        return None;
    }
    let d2 = find_char_in(vv, '.', d1 + 1, b);
    proof {
        let r1 = v2.skip(d1 - a + 1);
        assert(r1 =~= vv@.subrange(d1 + 1, b as int));
        assert(v2.take(d1 - a) =~= vv@.subrange(a as int, d1 as int));
        if d2 < b {
            assert(r1.take(d2 - d1 - 1) =~= vv@.subrange(d1 + 1, d2 as int));
            assert(r1.skip(d2 - d1) =~= vv@.subrange(d2 + 1, b as int));
        }
    }
    if d2 == b {
        return None;
    }
    let major = match parse_u32(text.substring_char(a, d1)) {
        Ok(x) => x,
        Err(_) => {
            return None;
        },
    };
    let minor = match parse_u32(text.substring_char(d1 + 1, d2)) {
        Ok(x) => x,
        Err(_) => {
            return None;
        },
    };
    let patch = match parse_u32(text.substring_char(d2 + 1, b)) {
        Ok(x) => x,
        Err(_) => {
            return None;
        },
    };
    Some((major, minor, patch))
}

/// The first dot of `a + "." + rest` is right after `a` when `a` holds
/// no dot.
proof fn lemma_first_dot(a: Seq<char>, rest: Seq<char>)
    requires
        forall|i: int| 0 <= i < a.len() ==> #[trigger] a[i] != '.',
    ensures
        find_char(a + "."@ + rest, '.') == a.len(),
        (a + "."@ + rest).take(a.len() as int) == a,
        (a + "."@ + rest).skip(a.len() as int + 1) == rest,
{
    reveal_strlit(".");
    let s = a + "."@ + rest;
    assert forall|j: int| 0 <= j < a.len() implies #[trigger] s[j] != '.' by {
        assert(s[j] == a[j]);
    }
    assert(s[a.len() as int] == '.');
    lemma_find_char_is(s, '.', a.len() as int);
    assert(s.take(a.len() as int) =~= a);
    assert(s.skip(a.len() as int + 1) =~= rest);
}

/// Whether `w` holds only ASCII spaces and tabs.
pub open spec fn blanks(w: Seq<char>) -> bool {
    forall|i: int| 0 <= i < w.len() ==> (#[trigger] w[i] == ' ' || w[i] == '\t')
}

proof fn lemma_blanks_are_ws(w: Seq<char>)
    requires
        blanks(w),
    ensures
        forall|i: int| 0 <= i < w.len() ==> is_ws(#[trigger] w[i]),
        forall|i: int| 0 <= i < w.len() ==> #[trigger] w[i] != '=',
{
    assert forall|i: int| 0 <= i < w.len() implies is_ws(#[trigger] w[i]) by {
        assert(w[i] == ' ' || w[i] == '\t');
    }
}

/// Law: a Cargo.toml line `version = "A.B.C"`, with each number written in
/// decimal as the version constants write it, reads back as `(A, B, C)`,
/// whatever spaces and tabs stand before the key (`w1`), around the `'='`
/// (`s1`, `s2`) and after the closing quote (`w2`).
pub proof fn law_version_line_reads_back(
    major: u32,
    minor: u32,
    patch: u32,
    w1: Seq<char>,
    s1: Seq<char>,
    s2: Seq<char>,
    w2: Seq<char>,
)
    requires
        blanks(w1),
        blanks(s1),
        blanks(s2),
        blanks(w2),
    ensures
        version_line_numbers(
            w1 + version_key() + s1 + "="@ + s2 + "\""@ + decimal(major as nat) + "."@ + decimal(
                minor as nat,
            ) + "."@ + decimal(patch as nat) + "\""@ + w2,
        ) == Some((major, minor, patch)),
{
    reveal_strlit("\"");
    reveal_strlit(".");
    reveal_strlit("=");
    lemma_blanks_are_ws(w1);
    lemma_blanks_are_ws(s1);
    lemma_blanks_are_ws(s2);
    lemma_blanks_are_ws(w2);
    let da = decimal(major as nat);
    let db = decimal(minor as nat);
    let dc = decimal(patch as nat);
    lemma_decimal_reads_back(major as nat);
    lemma_decimal_reads_back(minor as nat);
    lemma_decimal_reads_back(patch as nat);
    let dotted = da + "."@ + db + "."@ + dc;
    let quoted = seq!['"'] + dotted + seq!['"'];
    let core = version_key() + s1 + seq!['='] + s2 + quoted;
    let line = w1 + core + w2;
    assert(line =~= w1 + version_key() + s1 + "="@ + s2 + "\""@ + decimal(major as nat) + "."@
        + decimal(minor as nat) + "."@ + decimal(patch as nat) + "\""@ + w2);
    // The trimmed line is the core between the blanks.
    assert(core[0] == 'v');
    assert(core.last() == '"');
    lemma_trim_padded(w1, core, w2);
    let t = trim(line);
    assert(t == core);
    assert(t.take(7) =~= version_key());
    // The first '=' follows the key and the blanks after it.
    let k: int = 7 + s1.len() as int;
    assert forall|j: int| 0 <= j < k implies #[trigger] t[j] != '=' by {
        if j < 7 {
            assert(t[j] == version_key()[j]);
        } else {
            assert(t[j] == s1[j - 7]);
        }
    }
    assert(t[k] == '=');
    lemma_find_char_is(t, '=', k);
    // The value after it trims to the quoted dotted text.
    let after = t.skip(k + 1);
    assert(after =~= s2 + quoted + Seq::<char>::empty());
    assert(quoted[0] == '"');
    assert(quoted.last() == '"');
    lemma_trim_padded(s2, quoted, Seq::<char>::empty());
    assert(trim(after) == quoted);
    assert(strip_leading_quote(quoted) =~= dotted + seq!['"']);
    assert(strip_trailing_quote(dotted + seq!['"']) =~= dotted);
    // The dotted text splits into the three numbers.
    lemma_first_dot(da, db + "."@ + dc);
    assert(dotted =~= da + "."@ + (db + "."@ + dc));
    lemma_first_dot(db, dc);
    lemma_parse_decimal(major as nat, false, 0, u32::MAX as int);
    lemma_parse_decimal(minor as nat, false, 0, u32::MAX as int);
    lemma_parse_decimal(patch as nat, false, 0, u32::MAX as int);
}

// ---------------------------------------------------------------------------
// Finding the version line in the Cargo.toml blob
// ---------------------------------------------------------------------------
/// Index of the first `b` in `s`, or `s.len()`.
pub open spec fn find_byte(s: Seq<u8>, b: u8) -> int
    decreases s.len(),
{
    if s.len() == 0 {
        0
    } else if s[0] == b {
        0
    } else {
        1 + find_byte(s.skip(1), b)
    }
}

proof fn lemma_find_byte_is(s: Seq<u8>, b: u8, k: int)
    requires
        0 <= k <= s.len(),
        forall|j: int| 0 <= j < k ==> #[trigger] s[j] != b,
        k < s.len() ==> s[k] == b,
    ensures
        find_byte(s, b) == k,
    decreases s.len(),
{
    if s.len() > 0 && s[0] != b {
        assert forall|j: int| 0 <= j < k - 1 implies #[trigger] s.skip(1)[j] != b by {
            assert(s.skip(1)[j] == s[j + 1]);
        }
        if k - 1 < s.len() - 1 {
            assert(s.skip(1)[k - 1] == s[k]);
        }
        lemma_find_byte_is(s.skip(1), b, k - 1);
    }
}

/// `l` without one trailing carriage-return byte.
pub open spec fn strip_cr_byte(l: Seq<u8>) -> Seq<u8> {
    if l.len() > 0 && l.last() == 13u8 {
        l.drop_last()
    } else {
        l
    }
}

/// The lines of a byte buffer as `BufRead::lines` reads them: split after
/// each `'\n'`, which is removed together with a `'\r'` before it; no
/// empty line after a final line ending.
pub open spec fn byte_lines(s: Seq<u8>) -> Seq<Seq<u8>>
    decreases s.len(),
{
    if s.len() == 0 {
        seq![]
    } else {
        let k = find_byte(s, 10u8);
        if k >= s.len() {
            seq![s]
        } else if k < 0 {
            seq![]
        } else {
            seq![strip_cr_byte(s.take(k))] + byte_lines(s.skip(k + 1))
        }
    }
}

/// How the search for the version line ends.
pub enum VersionSearch {
    /// The version line, numbered from one, and its numbers.
    Found(int, (u32, u32, u32)),
    /// A line before any version line is not UTF-8.
    InvalidUtf8,
    /// No line is a version line.
    NotFound,
}

/// The first line, from line `i` on, that reads as a version line; an
/// earlier line that is not UTF-8 ends the search.
pub open spec fn search_version(ls: Seq<Seq<u8>>, i: int) -> VersionSearch
    decreases ls.len() - i,
{
    if i < 0 || i >= ls.len() {
        VersionSearch::NotFound
    } else if !vstd::utf8::valid_utf8(ls[i]) {
        VersionSearch::InvalidUtf8
    } else {
        match version_line_numbers(vstd::utf8::decode_utf8(ls[i])) {
            Some(t) => VersionSearch::Found(i + 1, t),
            None => search_version(ls, i + 1),
        }
    }
}

/// `std::str::from_utf8`: the text of `bytes` when they are well-formed
/// UTF-8.
#[verifier::external_body]
fn utf8_text(bytes: &[u8]) -> (r: Option<&str>)
    ensures
        r is Some <==> vstd::utf8::valid_utf8(bytes@),
        r matches Some(t) ==> t@ == vstd::utf8::decode_utf8(bytes@),
{
    match std::str::from_utf8(bytes) {
        Ok(t) => Some(t),
        Err(_) => None,
    }
}

/// The error `BufRead::lines` gives for a line that is not UTF-8:
/// `io::Error::new(ErrorKind::InvalidData, "stream did not contain valid UTF-8")`.
#[verifier::external_body]
fn invalid_utf8_line_error() -> std::io::Error {
    std::io::Error::new(std::io::ErrorKind::InvalidData, "stream did not contain valid UTF-8")
}

/// The next line of `blob` starting at `from`: the end of its text and the
/// start of the line after it.
fn next_byte_line(blob: &[u8], from: usize) -> (r: (usize, usize))
    requires
        from < blob@.len(),
    ensures
        from <= r.0 <= r.1 <= blob@.len(),
        r.1 > from,
        byte_lines(blob@.skip(from as int)) == seq![blob@.subrange(from as int, r.0 as int)]
            + byte_lines(blob@.skip(r.1 as int)),
{
    let mut nl = from;
    while nl < blob.len() && blob[nl] != 10u8
        invariant
            from <= nl <= blob@.len(),
            forall|j: int| from <= j < nl ==> blob@[j] != 10u8,
        decreases blob@.len() - nl,
    {
        nl = nl + 1;
    }
    let ghost s = blob@.skip(from as int);
    proof {
        assert forall|j: int| 0 <= j < nl - from implies #[trigger] s[j] != 10u8 by {
            assert(s[j] == blob@[j + from]);
        }
        if nl < blob@.len() {
            assert(s[nl - from] == blob@[nl as int]);
        }
        lemma_find_byte_is(s, 10u8, nl - from);
    }
    if nl == blob.len() {
        proof {
            assert(blob@.subrange(from as int, nl as int) =~= s);
            assert(blob@.skip(nl as int) =~= Seq::<u8>::empty());
            assert(byte_lines(blob@.skip(nl as int)) =~= Seq::<Seq<u8>>::empty());
            assert(byte_lines(s) =~= seq![s]);
        }
        (nl, nl)
    } else {
        let mut end = nl;
        if end > from && blob[end - 1] == 13u8 {
            end = end - 1;
        }
        proof {
            let k = nl - from;
            assert(s.skip(k + 1) =~= blob@.skip(nl + 1));
            assert(strip_cr_byte(s.take(k)) =~= blob@.subrange(from as int, end as int));
        }
        (end, nl + 1)
    }
}

/// Finds the version line in the bytes of a Cargo.toml: its number
/// (counted from one) and its numbers.  A line before it that is not
/// UTF-8 is an I/O error, as reading lines reports it; no version line is
/// the error `"Not found"`.
pub fn locate_version(blob: &[u8]) -> (r: Result<(usize, (u32, u32, u32)), VersionError>)
    ensures
        match search_version(byte_lines(blob@), 0) {
            VersionSearch::Found(n, t) => r matches Ok((m, u)) && m == n && u == t,
            VersionSearch::InvalidUtf8 => r matches Err(e) && e is Io,
            VersionSearch::NotFound => r matches Err(VersionError::Message(m)) && m@
                == "Not found"@,
        },
{
    let mut pos: usize = 0;
    let mut index: usize = 0;
    let ghost all = byte_lines(blob@);
    assert(blob@.skip(0) =~= blob@);
    while pos < blob.len()
        invariant
            pos <= blob@.len(),
            index <= pos,
            index <= all.len(),
            all == byte_lines(blob@),
            search_version(all, 0) == search_version(all, index as int),
            all.skip(index as int) == byte_lines(blob@.skip(pos as int)),
        decreases blob@.len() - pos,
    {
        let (end, next) = next_byte_line(blob, pos);
        let ghost rest = byte_lines(blob@.skip(next as int));
        proof {
            assert(all.skip(index as int).len() >= 1);
            assert(all.skip(index as int)[0] == all[index as int]);
            assert(all.skip(index as int).skip(1) =~= all.skip(index + 1));
        }
        let line = vstd::slice::slice_subrange(blob, pos, end);
        match utf8_text(line) {
            None => {
                return Err(VersionError::Io(invalid_utf8_line_error()));
            },
            Some(text) => {
                match parse_version_line(text) {
                    Some(t) => {
                        return Ok((index + 1, t));
                    },
                    None => {},
                }
            },
        }
        index = index + 1;
        pos = next;
    }
    proof {
        assert(blob@.skip(pos as int).len() == 0);
        assert(byte_lines(blob@.skip(pos as int)).len() == 0);
        assert(all.skip(index as int).len() == 0);
    }
    Err(VersionError::Message(string_of("Not found")))
}

/// Number of line-feed bytes in `s`.
pub open spec fn newline_count(s: Seq<u8>) -> nat
    decreases s.len(),
{
    if s.len() == 0 {
        0
    } else {
        (if s[0] == 10u8 {
            1nat
        } else {
            0nat
        }) + newline_count(s.skip(1))
    }
}

proof fn lemma_find_byte(s: Seq<u8>, b: u8)
    ensures
        0 <= find_byte(s, b) <= s.len(),
        forall|j: int| 0 <= j < find_byte(s, b) ==> #[trigger] s[j] != b,
        find_byte(s, b) < s.len() ==> s[find_byte(s, b)] == b,
    decreases s.len(),
{
    if s.len() > 0 && s[0] != b {
        lemma_find_byte(s.skip(1), b);
        assert forall|j: int| 0 <= j < find_byte(s, b) implies #[trigger] s[j] != b by {
            if j > 0 {
                assert(s[j] == s.skip(1)[j - 1]);
            }
        }
    }
}

/// Bytes without a line feed add no line feed to what follows them.
proof fn lemma_newline_count_prefix(a: Seq<u8>, b: Seq<u8>)
    requires
        forall|i: int| 0 <= i < a.len() ==> #[trigger] a[i] != 10u8,
    ensures
        newline_count(a + b) == newline_count(b),
    decreases a.len(),
{
    if a.len() == 0 {
        assert(a + b =~= b);
    } else {
        assert((a + b)[0] == a[0]);
        assert((a + b).skip(1) =~= a.skip(1) + b);
        assert forall|i: int| 0 <= i < a.skip(1).len() implies #[trigger] a.skip(1)[i] != 10u8 by {
            assert(a.skip(1)[i] == a[i + 1]);
        }
        lemma_newline_count_prefix(a.skip(1), b);
    }
}

/// Law: a line feed ends exactly one line.  Bytes `a` without a line feed,
/// then a line feed, then `b`, read as the line `a` (less a carriage
/// return at its end) followed by the lines of `b`; an empty `a` is an
/// empty line, counted like any other.  Bytes without a line feed are a
/// single line.
pub proof fn law_byte_lines_split(a: Seq<u8>, b: Seq<u8>)
    requires
        forall|i: int| 0 <= i < a.len() ==> #[trigger] a[i] != 10u8,
    ensures
        byte_lines(a + seq![10u8] + b) == seq![strip_cr_byte(a)] + byte_lines(b),
        a.len() > 0 ==> byte_lines(a) == seq![a],
{
    let s = a + seq![10u8] + b;
    assert forall|j: int| 0 <= j < a.len() implies #[trigger] s[j] != 10u8 by {
        assert(s[j] == a[j]);
    }
    assert(s[a.len() as int] == 10u8);
    lemma_find_byte_is(s, 10u8, a.len() as int);
    assert(s.take(a.len() as int) =~= a);
    assert(s.skip(a.len() as int + 1) =~= b);
    if a.len() > 0 {
        lemma_find_byte_is(a, 10u8, a.len() as int);
    }
}

/// Law: the number of lines is the number of line feeds, plus one for
/// bytes after the last line feed; so the `n`-th line (from one) starts
/// after `n - 1` line feeds, empty lines included.
pub proof fn law_byte_lines_count(s: Seq<u8>)
    ensures
        byte_lines(s).len() == newline_count(s) + (if s.len() > 0 && s.last() != 10u8 {
            1int
        } else {
            0int
        }),
    decreases s.len(),
{
    if s.len() > 0 {
        lemma_find_byte(s, 10u8);
        let k = find_byte(s, 10u8);
        let a = s.take(k);
        assert forall|i: int| 0 <= i < a.len() implies #[trigger] a[i] != 10u8 by {
            assert(a[i] == s[i]);
        }
        if k >= s.len() {
            assert(a =~= s);
            lemma_newline_count_prefix(s, Seq::<u8>::empty());
            assert(s + Seq::<u8>::empty() =~= s);
            assert(s.last() == s[s.len() - 1]);
        } else {
            let b = s.skip(k + 1);
            assert(s =~= a + (seq![10u8] + b));
            lemma_newline_count_prefix(a, seq![10u8] + b);
            assert((seq![10u8] + b).skip(1) =~= b);
            assert((seq![10u8] + b)[0] == 10u8);
            law_byte_lines_count(b);
            if b.len() > 0 {
                assert(s.last() == b.last());
            } else {
                assert(s.last() == 10u8);
            }
        }
    }
}

/// Law: the search over the lines from line `i` on gives the first line
/// that reads as a version line, numbered from one over all lines, with
/// its numbers; every line before it is UTF-8 and not a version line.
pub proof fn law_search_version_first(ls: Seq<Seq<u8>>, i: int)
    requires
        0 <= i,
    ensures
        search_version(ls, i) matches VersionSearch::Found(n, t) ==> {
            &&& i + 1 <= n <= ls.len()
            &&& vstd::utf8::valid_utf8(ls[n - 1])
            &&& version_line_numbers(vstd::utf8::decode_utf8(ls[n - 1])) == Some(t)
            &&& forall|j: int|
                i <= j < n - 1 ==> vstd::utf8::valid_utf8(#[trigger] ls[j])
                    && version_line_numbers(vstd::utf8::decode_utf8(ls[j])) is None
        },
    decreases ls.len() - i,
{
    if i < ls.len() && vstd::utf8::valid_utf8(ls[i]) && version_line_numbers(
        vstd::utf8::decode_utf8(ls[i]),
    ) is None {
        law_search_version_first(ls, i + 1);
    }
}

/// Refuses a bare repository, whose status cannot be reported.
pub fn refuse_bare(is_bare: bool) -> (r: Result<(), VersionError>)
    ensures
        !is_bare <==> r is Ok,
        r matches Err(VersionError::Message(m)) ==> m@ == "cannot report status on bare repository"@,
        r matches Err(e) ==> e is Message,
{
    if is_bare {
        Err(VersionError::Message(string_of("cannot report status on bare repository")))
    } else {
        Ok(())
    }
}

/// The error when no directory from the given path up to the repository
/// root holds a Cargo.toml with a version line: `"Not Found"`.
pub fn version_not_found() -> (r: VersionError)
    ensures
        r matches VersionError::Message(m) && m@ == "Not Found"@,
{
    VersionError::Message(string_of("Not Found"))
}

/// What to do next while searching for the version line, from the
/// directory of the given path up to the repository root.
#[derive(Debug)]
pub enum SearchStep {
    /// Try the directory made of the first that many components of the
    /// path relative to the repository root.
    Try(usize),
    /// The version numbers were found.
    Found((u32, u32, u32)),
    /// No directory up to the root held them.
    NotFound,
}

/// The step after trying the directory made of the first `depth`
/// components of the relative path, which gave `attempt`: stop with the
/// numbers when it found them, else go one directory up, or give up after
/// the repository root (`depth == 0`).  Starting from the full depth, the
/// directories are tried from the deepest up to the root, each once.
pub fn next_search_step(depth: usize, attempt: Option<(u32, u32, u32)>) -> (r: SearchStep)
    ensures
        attempt matches Some(t) ==> r == SearchStep::Found(t),
        attempt is None && depth == 0 ==> r is NotFound,
        attempt is None && depth > 0 ==> r == SearchStep::Try((depth - 1) as usize),
{
    match attempt {
        Some(t) => SearchStep::Found(t),
        None => if depth == 0 {
            SearchStep::NotFound
        } else {
            SearchStep::Try(depth - 1)
        },
    }
}

/// The patch number: the one in Cargo.toml, or, where that is `0`, the
/// number of commits since the version line last changed (at most
/// `u32::MAX`).
pub open spec fn resolved_patch(patch: u32, commit_count: int) -> u32 {
    if patch == 0 {
        if commit_count > u32::MAX {
            u32::MAX
        } else {
            commit_count as u32
        }
    } else {
        patch
    }
}

/// The patch number: `patch`, or `commit_count` (saturated to `u32::MAX`)
/// when `patch` is `0`.
pub fn resolve_patch(patch: u32, commit_count: usize) -> (r: u32)
    ensures
        r == resolved_patch(patch, commit_count as int),
{
    if patch != 0 {
        patch
    } else if commit_count > u32::MAX as usize {
        u32::MAX
    } else {
        commit_count as u32
    }
}

// ---------------------------------------------------------------------------
// The version and what is rendered of it
// ---------------------------------------------------------------------------
/// What a [`Version`] holds.
pub struct VersionModel {
    pub major: u32,
    pub minor: u32,
    pub patch: u32,
    pub build_id: Option<Seq<char>>,
    pub branch: Seq<char>,
    pub commit: Seq<char>,
    pub commit_ts: DateTime,
    pub modified: usize,
    pub build_ts: DateTime,
}

/// Version metadata collected from `Cargo.toml` and Git.
#[derive(Debug)]
pub struct Version {
    major: u32,
    minor: u32,
    patch: u32,
    build_id: Option<String>,
    branch: String,
    commit: String,
    commit_ts: DateTime,
    modified: usize,
    build_ts: DateTime,
}

impl View for Version {
    type V = VersionModel;

    closed spec fn view(&self) -> VersionModel {
        VersionModel {
            major: self.major,
            minor: self.minor,
            patch: self.patch,
            build_id: opt_text(self.build_id),
            branch: self.branch@,
            commit: self.commit@,
            commit_ts: self.commit_ts,
            modified: self.modified,
            build_ts: self.build_ts,
        }
    }
}

/// The RFC 3339 text of a date-time.
pub open spec fn rfc3339_of(d: DateTime) -> Seq<char> {
    rfc3339_text(d.unix(), d.nanos(), d.offset())
}

/// The human-readable text of a date-time (`Format::human_format`).
pub open spec fn human_of(d: DateTime) -> Seq<char> {
    human_text(d.unix(), d.nanos(), d.offset(), HUMAN_DESCRIPTION@)
}

/// The text of `{:?}` on a version: its fields by name, the two times in
/// human-readable form, and the build identifier last, only when there is
/// one.
pub open spec fn version_debug_text(v: VersionModel) -> Seq<char> {
    "Version { major: "@ + decimal(v.major as nat) + ", minor: "@ + decimal(v.minor as nat)
        + ", patch: "@ + decimal(v.patch as nat) + ", branch: "@ + quoted_text(v.branch)
        + ", commit: "@ + quoted_text(v.commit) + ", commit_ts: "@ + quoted_text(
        human_of(v.commit_ts),
    ) + ", modified: "@ + decimal(v.modified as nat) + ", build_ts: "@ + quoted_text(
        human_of(v.build_ts),
    ) + match v.build_id {
        Some(i) => ", build_id: "@ + quoted_text(i),
        None => Seq::empty(),
    } + " }"@
}

/// `".<id>"` for a build identifier, empty without one.
pub open spec fn build_id_suffix(id: Option<Seq<char>>) -> Seq<char> {
    match id {
        Some(i) => "."@ + i,
        None => Seq::empty(),
    }
}

/// The modification suffix: in a debug build `-D`, or `-D/M<N>` with `N`
/// modified lines; in a release build nothing, or `-M<N>`.
pub open spec fn modified_suffix(modified: nat, debug_build: bool) -> Seq<char> {
    if debug_build {
        if modified > 0 {
            "-D/M"@ + decimal(modified)
        } else {
            "-D"@
        }
    } else {
        if modified > 0 {
            "-M"@ + decimal(modified)
        } else {
            Seq::empty()
        }
    }
}

/// The full version text, e.g. `0.5.3.beta1-D/M12`.
pub open spec fn version_text(v: VersionModel, debug_build: bool) -> Seq<char> {
    decimal(v.major as nat) + "."@ + decimal(v.minor as nat) + "."@ + decimal(v.patch as nat)
        + build_id_suffix(v.build_id) + modified_suffix(v.modified as nat, debug_build)
}

/// `v<version> <branch>-<commit> <commit time>`.
pub open spec fn sources_text(v: VersionModel, debug_build: bool) -> Seq<char> {
    "v"@ + version_text(v, debug_build) + " "@ + v.branch + "-"@ + v.commit + " "@ + rfc3339_of(
        v.commit_ts,
    )
}

/// `<build time> <build type> [<toolchain>, <rustc version>, <cargo version>]`.
pub open spec fn build_text(v: VersionModel, c: CompilerEnv) -> Seq<char> {
    rfc3339_of(v.build_ts) + " "@ + c.build_type.name() + " ["@ + c.rust_toolchain@ + ", "@
        + c.rust_version@ + ", "@ + c.cargo_version@ + "]"@
}

/// The `BUILD_ID` constant line, present only with a build identifier.
pub open spec fn build_id_const(id: Option<Seq<char>>) -> Seq<char> {
    match id {
        Some(i) => "pub const BUILD_ID: &str = \""@ + i + "\";\n"@,
        None => Seq::empty(),
    }
}

/// The Rust source with the version constants.
pub open spec fn version_file_text(v: VersionModel, debug_build: bool, c: CompilerEnv) -> Seq<char> {
    "#[allow(dead_code)]\n\n"@ + "pub const VERSION: &str = \""@ + version_text(v, debug_build)
        + "\";\n"@ + "pub const VERSION_MAJOR: u32 = "@ + decimal(v.major as nat) + ";\n"@
        + "pub const VERSION_MINOR: u32 = "@ + decimal(v.minor as nat) + ";\n"@
        + "pub const VERSION_PATCH: u32 = "@ + decimal(v.patch as nat) + ";\n"@
        + build_id_const(v.build_id) + "pub const SOURCES_FINGERPRINT: &str = \""@
        + sources_text(v, debug_build) + "\";\n"@ + "pub const BUILD_FINGERPRINT: &str = \""@
        + build_text(v, c) + "\";\n"@
}

/// One Markdown table row of the build log.
pub open spec fn buildlog_text(v: VersionModel, debug_build: bool, c: CompilerEnv) -> Seq<char> {
    "| "@ + rfc3339_of(v.build_ts) + " | "@ + c.build_type.name() + " | v"@ + version_text(
        v,
        debug_build,
    ) + " | "@ + v.branch + "-"@ + v.commit + " | "@ + rfc3339_of(v.commit_ts) + " | "@
        + c.rust_toolchain@ + " | "@ + c.rust_version@ + " | "@ + c.cargo_version@ + "|\n"@
}

/// `major.minor.patch` with the build identifier suffix: the version text
/// before its modification suffix.
pub open spec fn numbered_text(v: VersionModel) -> Seq<char> {
    decimal(v.major as nat) + "."@ + decimal(v.minor as nat) + "."@ + decimal(v.patch as nat)
        + build_id_suffix(v.build_id)
}

/// Law: the version text reports every modified line count.  With `m > 0`
/// modified lines it ends in `-M<m>` (release) or `-D/M<m>` (debug); with
/// none, a release text is the bare numbered text and a debug text ends in
/// `-D`.  So a release text carries a count exactly when a release build
/// is refused (`release_blocked`).
pub proof fn law_version_text_reports_modified(v: VersionModel)
    ensures
        v.modified > 0 ==> version_text(v, false) == numbered_text(v) + "-M"@ + decimal(
            v.modified as nat,
        ),
        v.modified > 0 ==> version_text(v, true) == numbered_text(v) + "-D/M"@ + decimal(
            v.modified as nat,
        ),
        v.modified == 0 ==> version_text(v, false) == numbered_text(v),
        v.modified == 0 ==> version_text(v, true) == numbered_text(v) + "-D"@,
        (version_text(v, false) != numbered_text(v)) <==> v.modified > 0,
{
    let b = numbered_text(v);
    let m = v.modified as nat;
    if v.modified > 0 {
        assert(version_text(v, false) =~= b + "-M"@ + decimal(m));
        assert(version_text(v, true) =~= b + "-D/M"@ + decimal(m));
        reveal_strlit("-M");
        assert(version_text(v, false).len() > b.len());
    } else {
        assert(version_text(v, false) =~= b);
        assert(version_text(v, true) =~= b + "-D"@);
    }
}

/// Law: a patch number written in Cargo.toml is kept, whatever the commit
/// count (zero included); only a patch of `0` is replaced, by the commit
/// count, saturated at `u32::MAX`.
pub proof fn law_resolved_patch(patch: u32, commit_count: int)
    requires
        commit_count >= 0,
    ensures
        patch != 0 ==> resolved_patch(patch, commit_count) == patch,
        patch == 0 && commit_count <= u32::MAX ==> resolved_patch(patch, commit_count)
            == commit_count,
        patch == 0 && commit_count > u32::MAX ==> resolved_patch(patch, commit_count) == u32::MAX,
{
}

/// Law: the version file agrees with itself and with the build flag it
/// was written for: its `SOURCES_FINGERPRINT` is `v`, the value of its own
/// `VERSION` constant, then branch, commit and commit time.  The result
/// gives the text before `VERSION`, between the two constants, and after
/// the fingerprint.
pub proof fn law_version_file_fingerprint(
    v: VersionModel,
    debug_build: bool,
    c: CompilerEnv,
) -> (pieces: (Seq<char>, Seq<char>, Seq<char>))
    ensures
        version_file_text(v, debug_build, c) == pieces.0 + "pub const VERSION: &str = \""@
            + version_text(v, debug_build) + "\";\n"@ + pieces.1
            + "pub const SOURCES_FINGERPRINT: &str = \""@ + "v"@ + version_text(v, debug_build)
            + " "@ + v.branch + "-"@ + v.commit + " "@ + rfc3339_of(v.commit_ts) + "\";\n"@
            + pieces.2,
{
    let p = "#[allow(dead_code)]\n\n"@;
    let q = "pub const VERSION_MAJOR: u32 = "@ + decimal(v.major as nat) + ";\n"@
        + "pub const VERSION_MINOR: u32 = "@ + decimal(v.minor as nat) + ";\n"@
        + "pub const VERSION_PATCH: u32 = "@ + decimal(v.patch as nat) + ";\n"@ + build_id_const(
        v.build_id,
    );
    let r = "pub const BUILD_FINGERPRINT: &str = \""@ + build_text(v, c) + "\";\n"@;
    assert(version_file_text(v, debug_build, c) =~= p + "pub const VERSION: &str = \""@
        + version_text(v, debug_build) + "\";\n"@ + q + "pub const SOURCES_FINGERPRINT: &str = \""@
        + "v"@ + version_text(v, debug_build) + " "@ + v.branch + "-"@ + v.commit + " "@
        + rfc3339_of(v.commit_ts) + "\";\n"@ + r);
    (p, q, r)
}

/// Law: the build-log row records the version text of the build flag it
/// was written for (a debug row ends its version in `-D` or `-D/M<N>`),
/// after the build time and type and before `<branch>-<commit>`.  The
/// result is the rest of the row.
pub proof fn law_buildlog_version_field(
    v: VersionModel,
    debug_build: bool,
    c: CompilerEnv,
) -> (rest: Seq<char>)
    ensures
        buildlog_text(v, debug_build, c) == "| "@ + rfc3339_of(v.build_ts) + " | "@
            + c.build_type.name() + " | v"@ + version_text(v, debug_build) + " | "@ + v.branch
            + "-"@ + v.commit + rest,
{
    let rest = " | "@ + rfc3339_of(v.commit_ts) + " | "@ + c.rust_toolchain@ + " | "@
        + c.rust_version@ + " | "@ + c.cargo_version@ + "|\n"@;
    assert(buildlog_text(v, debug_build, c) =~= "| "@ + rfc3339_of(v.build_ts) + " | "@
        + c.build_type.name() + " | v"@ + version_text(v, debug_build) + " | "@ + v.branch
        + "-"@ + v.commit + rest);
    rest
}

impl Version {
    /// The version built from what was read: the numbers of the version
    /// line (with the patch resolved), the build identifier, the branch
    /// (empty for a detached HEAD), the short commit hash, the commit time,
    /// the modified line count and the build time.
    pub fn assemble(
        numbers: (u32, u32, u32),
        build_id: Option<String>,
        branch: Option<String>,
        commit: String,
        commit_ts: DateTime,
        modified: usize,
        build_ts: DateTime,
    ) -> (r: Version)
        ensures
            r@.major == numbers.0,
            r@.minor == numbers.1,
            r@.patch == numbers.2,
            r@.build_id == opt_text(build_id),
            r@.branch == (match branch {
                Some(b) => b@,
                None => Seq::<char>::empty(),
            }),
            r@.commit == commit@,
            r@.commit_ts == commit_ts,
            r@.modified == modified,
            r@.build_ts == build_ts,
    {
        let branch = match branch {
            Some(b) => b,
            None => String::new(),
        };
        Version {
            major: numbers.0,
            minor: numbers.1,
            patch: numbers.2,
            build_id,
            branch,
            commit,
            commit_ts,
            modified,
            build_ts,
        }
    }

    /// Major version from `Cargo.toml`.
    pub fn major(&self) -> (r: u32)
        ensures
            r == self@.major,
    {
        self.major
    }

    /// Minor version from `Cargo.toml`.
    pub fn minor(&self) -> (r: u32)
        ensures
            r == self@.minor,
    {
        self.minor
    }

    /// Patch version. If `0` in `Cargo.toml`, auto-calculated from commit count.
    pub fn patch(&self) -> (r: u32)
        ensures
            r == self@.patch,
    {
        self.patch
    }

    /// Optional build identifier, e.g. `"beta1"`.
    pub fn build_id(&self) -> (r: Option<&str>)
        ensures
            match r {
                Some(s) => self@.build_id == Some(s@),
                None => self@.build_id is None,
            },
    {
        match &self.build_id {
            Some(s) => Some(s.as_str()),
            None => None,
        }
    }

    /// Current git branch name (empty string if detached HEAD).
    pub fn branch(&self) -> (r: &str)
        ensures
            r@ == self@.branch,
    {
        self.branch.as_str()
    }

    /// Short git commit hash.
    pub fn commit(&self) -> (r: &str)
        ensures
            r@ == self@.commit,
    {
        self.commit.as_str()
    }

    /// The commit's author timestamp (converted to local timezone).
    pub fn commit_ts(&self) -> (r: &DateTime)
        ensures
            *r == self@.commit_ts,
    {
        &self.commit_ts
    }

    /// Total staged + unstaged modified lines.
    pub fn modified(&self) -> (r: usize)
        ensures
            r == self@.modified,
    {
        self.modified
    }

    /// Timestamp when this `Version` was constructed.
    pub fn build_ts(&self) -> (r: &DateTime)
        ensures
            *r == self@.build_ts,
    {
        &self.build_ts
    }

    /// Whether a build must be refused: a release build (without
    /// `debug_assertions`) from sources with modified lines.
    pub fn release_blocked(&self, debug_build: bool) -> (r: bool)
        ensures
            r == (!debug_build && self@.modified > 0),
    {
        !debug_build && self.modified > 0
    }

    /// Appends the build identifier suffix (`".beta1"`), if any.
    fn push_build_id_suffix(&self, out: &mut String)
        ensures
            final(out)@ == old(out)@ + build_id_suffix(self@.build_id),
    {
        match &self.build_id {
            Some(id) => {
                push_str(out, ".");
                push_str(out, id.as_str());
            },
            None => {
                assert(old(out)@ + Seq::<char>::empty() =~= old(out)@);
            },
        }
    }

    /// Appends the modification suffix: `-D` or `-D/M<N>` in a debug
    /// build, nothing or `-M<N>` in a release build.
    fn push_modified_suffix(&self, out: &mut String, debug_build: bool)
        ensures
            final(out)@ == old(out)@ + modified_suffix(self@.modified as nat, debug_build),
    {
        if debug_build {
            if self.modified > 0 {
                push_str(out, "-D/M");
                push_decimal(out, self.modified as u64);
            } else {
                push_str(out, "-D");
            }
        } else {
            if self.modified > 0 {
                push_str(out, "-M");
                push_decimal(out, self.modified as u64);
            } else {
                assert(old(out)@ + Seq::<char>::empty() =~= old(out)@);
            }
        }
        proof {
            if debug_build && self.modified > 0 {
                assert(final(out)@ =~= old(out)@ + modified_suffix(self@.modified as nat, debug_build));
            }
            if !debug_build && self.modified > 0 {
                assert(final(out)@ =~= old(out)@ + modified_suffix(self@.modified as nat, debug_build));
            }
        }
    }

    /// Appends the full version text.
    fn push_version(&self, out: &mut String, debug_build: bool)
        ensures
            final(out)@ == old(out)@ + version_text(self@, debug_build),
    {
        push_decimal(out, self.major as u64);
        push_str(out, ".");
        push_decimal(out, self.minor as u64);
        push_str(out, ".");
        push_decimal(out, self.patch as u64);
        self.push_build_id_suffix(out);
        self.push_modified_suffix(out, debug_build);
        assert(final(out)@ =~= old(out)@ + version_text(self@, debug_build));
    }

    /// Full version string (e.g., `"0.5.3.beta1-D/M12"`) of a debug build
    /// (`debug_build`) or a release build.
    pub fn version_string(&self, debug_build: bool) -> (r: String)
        ensures
            r@ == version_text(self@, debug_build),
    {
        let mut r = String::new();
        self.push_version(&mut r, debug_build);
        assert(r@ =~= version_text(self@, debug_build));
        r
    }

    /// Appends the source fingerprint.
    fn push_sources(&self, out: &mut String, debug_build: bool)
        requires
            self@.commit_ts.rfc3339_ok(),
        ensures
            final(out)@ == old(out)@ + sources_text(self@, debug_build),
    {
        push_str(out, "v");
        self.push_version(out, debug_build);
        push_str(out, " ");
        push_str(out, self.branch.as_str());
        push_str(out, "-");
        push_str(out, self.commit.as_str());
        push_str(out, " ");
        let t = self.commit_ts.to_rfc3339();
        push_str(out, t.as_str());
        assert(final(out)@ =~= old(out)@ + sources_text(self@, debug_build));
    }

    /// `SOURCES_FINGERPRINT`: `v<version> <branch>-<commit> <commit time>`.
    pub fn sources_fingerprint(&self, debug_build: bool) -> (r: String)
        requires
            self@.commit_ts.rfc3339_ok(),
        ensures
            r@ == sources_text(self@, debug_build),
    {
        let mut r = String::new();
        self.push_sources(&mut r, debug_build);
        assert(r@ =~= sources_text(self@, debug_build));
        r
    }

    /// Appends the build fingerprint.
    fn push_build(&self, out: &mut String, compiler: &CompilerEnv)
        requires
            self@.build_ts.rfc3339_ok(),
        ensures
            final(out)@ == old(out)@ + build_text(self@, *compiler),
    {
        let t = self.build_ts.to_rfc3339();
        push_str(out, t.as_str());
        push_str(out, " ");
        let b = compiler.build_type.to_string();
        push_str(out, b.as_str());
        push_str(out, " [");
        push_str(out, compiler.rust_toolchain.as_str());
        push_str(out, ", ");
        push_str(out, compiler.rust_version.as_str());
        push_str(out, ", ");
        push_str(out, compiler.cargo_version.as_str());
        push_str(out, "]");
        assert(final(out)@ =~= old(out)@ + build_text(self@, *compiler));
    }

    /// `BUILD_FINGERPRINT`: `<build time> <build type> [<toolchain>, <rustc>, <cargo>]`.
    pub fn build_fingerprint(&self, compiler: &CompilerEnv) -> (r: String)
        requires
            self@.build_ts.rfc3339_ok(),
        ensures
            r@ == build_text(self@, *compiler),
    {
        let mut r = String::new();
        self.push_build(&mut r, compiler);
        assert(r@ =~= build_text(self@, *compiler));
        r
    }

    /// The text of `{:?}` on this version (`version_debug_text`).
    pub fn debug_text(&self) -> (r: String)
        ensures
            r@ == version_debug_text(self@),
    {
        let mut r = string_of("Version { major: ");
        push_decimal(&mut r, self.major as u64);
        push_str(&mut r, ", minor: ");
        push_decimal(&mut r, self.minor as u64);
        push_str(&mut r, ", patch: ");
        push_decimal(&mut r, self.patch as u64);
        push_str(&mut r, ", branch: ");
        let q = debug_quoted(self.branch.as_str());
        push_str(&mut r, q.as_str());
        push_str(&mut r, ", commit: ");
        let q = debug_quoted(self.commit.as_str());
        push_str(&mut r, q.as_str());
        push_str(&mut r, ", commit_ts: ");
        let h = self.commit_ts.human_format();
        let q = debug_quoted(h.as_str());
        push_str(&mut r, q.as_str());
        push_str(&mut r, ", modified: ");
        push_decimal(&mut r, self.modified as u64);
        push_str(&mut r, ", build_ts: ");
        let h = self.build_ts.human_format();
        let q = debug_quoted(h.as_str());
        push_str(&mut r, q.as_str());
        match &self.build_id {
            Some(id) => {
                push_str(&mut r, ", build_id: ");
                let q = debug_quoted(id.as_str());
                push_str(&mut r, q.as_str());
            },
            None => {},
        }
        push_str(&mut r, " }");
        assert(r@ =~= version_debug_text(self@));
        r
    }

    /// The Rust source that `write_version` writes: the constants
    /// `VERSION`, `VERSION_MAJOR/MINOR/PATCH`, `BUILD_ID` (with a build
    /// identifier), `SOURCES_FINGERPRINT` and `BUILD_FINGERPRINT`.
    pub fn version_file(&self, debug_build: bool, compiler: &CompilerEnv) -> (r: String)
        requires
            self@.commit_ts.rfc3339_ok(),
            self@.build_ts.rfc3339_ok(),
        ensures
            r@ == version_file_text(self@, debug_build, *compiler),
    {
        let mut r = string_of("#[allow(dead_code)]\n\n");
        push_str(&mut r, "pub const VERSION: &str = \"");
        self.push_version(&mut r, debug_build);
        push_str(&mut r, "\";\n");
        push_str(&mut r, "pub const VERSION_MAJOR: u32 = ");
        push_decimal(&mut r, self.major as u64);
        push_str(&mut r, ";\n");
        push_str(&mut r, "pub const VERSION_MINOR: u32 = ");
        push_decimal(&mut r, self.minor as u64);
        push_str(&mut r, ";\n");
        push_str(&mut r, "pub const VERSION_PATCH: u32 = ");
        push_decimal(&mut r, self.patch as u64);
        push_str(&mut r, ";\n");
        let ghost before_id = r@;
        match &self.build_id {
            Some(id) => {
                push_str(&mut r, "pub const BUILD_ID: &str = \"");
                push_str(&mut r, id.as_str());
                push_str(&mut r, "\";\n");
            },
            None => {},
        }
        assert(r@ =~= before_id + build_id_const(self@.build_id));
        push_str(&mut r, "pub const SOURCES_FINGERPRINT: &str = \"");
        self.push_sources(&mut r, debug_build);
        push_str(&mut r, "\";\n");
        push_str(&mut r, "pub const BUILD_FINGERPRINT: &str = \"");
        self.push_build(&mut r, compiler);
        push_str(&mut r, "\";\n");
        assert(r@ =~= version_file_text(self@, debug_build, *compiler));
        r
    }

    /// The build-log row that `write_buildlog` appends: build time, build
    /// type, version, branch and commit, commit time and compiler info.
    pub fn buildlog_row(&self, debug_build: bool, compiler: &CompilerEnv) -> (r: String)
        requires
            self@.commit_ts.rfc3339_ok(),
            self@.build_ts.rfc3339_ok(),
        ensures
            r@ == buildlog_text(self@, debug_build, *compiler),
    {
        let mut r = string_of("| ");
        let t = self.build_ts.to_rfc3339();
        push_str(&mut r, t.as_str());
        push_str(&mut r, " | ");
        let b = compiler.build_type.to_string();
        push_str(&mut r, b.as_str());
        push_str(&mut r, " | v");
        self.push_version(&mut r, debug_build);
        push_str(&mut r, " | ");
        push_str(&mut r, self.branch.as_str());
        push_str(&mut r, "-");
        push_str(&mut r, self.commit.as_str());
        push_str(&mut r, " | ");
        let c = self.commit_ts.to_rfc3339();
        push_str(&mut r, c.as_str());
        push_str(&mut r, " | ");
        push_str(&mut r, compiler.rust_toolchain.as_str());
        push_str(&mut r, " | ");
        push_str(&mut r, compiler.rust_version.as_str());
        push_str(&mut r, " | ");
        push_str(&mut r, compiler.cargo_version.as_str());
        push_str(&mut r, "|\n");
        assert(r@ =~= buildlog_text(self@, debug_build, *compiler));
        r
    }
}

// ---------------------------------------------------------------------------
// Exporting the version to a shell environment file
// ---------------------------------------------------------------------------
/// `export <name>=`
pub open spec fn export_prefix(name: Seq<char>) -> Seq<char> {
    "export "@ + name + "="@
}

/// `export <name>=<value>`
pub open spec fn export_line(name: Seq<char>, value: Seq<char>) -> Seq<char> {
    export_prefix(name) + value
}

/// The lines joined with a newline between them.
pub open spec fn join_lines(ls: Seq<Seq<char>>) -> Seq<char>
    decreases ls.len(),
{
    if ls.len() == 0 {
        Seq::empty()
    } else if ls.len() == 1 {
        ls[0]
    } else {
        join_lines(ls.drop_last()) + "\n"@ + ls.last()
    }
}

/// Every line that starts with `prefix` replaced by `line`.
pub open spec fn replace_exports(ls: Seq<Seq<char>>, prefix: Seq<char>, line: Seq<char>) -> Seq<Seq<char>> {
    Seq::new(ls.len(), |i: int| if starts_with(ls[i], prefix) { line } else { ls[i] })
}

/// Whether some line starts with `prefix`.
pub open spec fn has_export(ls: Seq<Seq<char>>, prefix: Seq<char>) -> bool {
    exists|i: int| 0 <= i < ls.len() && #[trigger] starts_with(ls[i], prefix)
}

/// The environment file after exporting `name` as `value`: with no
/// previous file, the export line alone; otherwise the previous lines,
/// each line starting with `export <name>=` replaced by the export line,
/// joined with newlines, and the export line appended (after a newline
/// unless the text is empty) when no line was replaced.
pub open spec fn env_file_text(previous: Option<Seq<char>>, name: Seq<char>, value: Seq<char>) -> Seq<char> {
    let line = export_line(name, value);
    match previous {
        None => line,
        Some(p) => {
            let ls = lines(p);
            let out = join_lines(replace_exports(ls, export_prefix(name), line));
            if has_export(ls, export_prefix(name)) {
                out
            } else if out.len() == 0 {
                line
            } else {
                out + "\n"@ + line
            }
        },
    }
}

/// The name of the environment file for `name`: `.<name>.env`.
pub fn env_file_name(name: &str) -> (r: String)
    ensures
        r@ == "."@ + name@ + ".env"@,
{
    let mut r = string_of(".");
    push_str(&mut r, name);
    push_str(&mut r, ".env");
    r
}

/// The contents of the environment file after exporting `name` as
/// `value`, given the previous contents (`None` when there is no file).
pub fn env_file_contents(previous: Option<&str>, name: &str, value: &str) -> (r: String)
    ensures
        r@ == env_file_text(opt_str(previous), name@, value@),
{
    let mut prefix = string_of("export ");
    push_str(&mut prefix, name);
    push_str(&mut prefix, "=");
    let mut env_line = string_of(prefix.as_str());
    push_str(&mut env_line, value);
    let ghost line = export_line(name@, value@);
    let ghost pre = export_prefix(name@);
    assert(prefix@ =~= pre);
    assert(env_line@ =~= line);
    let p = match previous {
        None => {
            return env_line;
        },
        Some(p) => p,
    };
    let v = chars_of(p);
    let ghost ls = lines(p@);
    let ghost rs = replace_exports(ls, pre, line);
    let mut out = String::new();
    let mut pos: usize = 0;
    let mut k: usize = 0;
    let mut replaced = false;
    assert(v@.skip(0) =~= v@);
    assert(ls.take(0) =~= Seq::<Seq<char>>::empty());
    assert(rs.take(0) =~= Seq::<Seq<char>>::empty());
    while pos < v.len()
        invariant
            pos <= v.len(),
            k <= ls.len(),
            k <= pos,
            v@ == p@,
            ls == lines(p@),
            rs == replace_exports(ls, pre, line),
            prefix@ == pre,
            env_line@ == line,
            ls.skip(k as int) == lines(v@.skip(pos as int)),
            out@ == join_lines(rs.take(k as int)),
            replaced == has_export(ls.take(k as int), pre),
        decreases v.len() - pos,
    {
        let (end, next) = next_line(&v, pos);
        proof {
            assert(ls.skip(k as int).len() >= 1);
            assert(ls.skip(k as int)[0] == ls[k as int]);
            assert(ls.skip(k as int).skip(1) =~= ls.skip(k + 1));
        }
        let text = p.substring_char(pos, end);
        let ghost x = ls[k as int];
        assert(text@ == x);
        let is_export = text_starts_with(text, prefix.as_str());
        if k > 0 {
            push_char(&mut out, '\n');
        }
        if is_export {
            push_str(&mut out, env_line.as_str());
            replaced = true;
        } else {
            push_str(&mut out, text);
        }
        proof {
            let t1 = rs.take(k + 1);
            assert(t1.last() == rs[k as int]);
            if k > 0 {
                assert(t1.drop_last() =~= rs.take(k as int));
                reveal_strlit("\n");
                assert(out@ =~= join_lines(t1));
            } else {
                assert(out@ =~= join_lines(t1));
            }
            let l1 = ls.take(k + 1);
            if is_export {
                assert(l1[k as int] == x);
                assert(has_export(l1, pre));
            } else {
                if has_export(l1, pre) {
                    let i = choose|i: int| 0 <= i < l1.len() && #[trigger] starts_with(l1[i], pre);
                    if i < k {
                        assert(ls.take(k as int)[i] == l1[i]);
                        assert(has_export(ls.take(k as int), pre));
                    }
                }
                if has_export(ls.take(k as int), pre) {
                    let i = choose|i: int|
                        0 <= i < k && #[trigger] starts_with(ls.take(k as int)[i], pre);
                    assert(l1[i] == ls.take(k as int)[i]);
                }
            }
        }
        k = k + 1;
        pos = next;
    }
    proof {
        assert(v@.skip(pos as int).len() == 0);
        assert(lines(v@.skip(pos as int)).len() == 0);
        assert(ls.take(k as int) =~= ls);
        assert(rs.take(k as int) =~= rs);
    }
    if replaced {
        out
    } else if out.as_str().is_empty() {
        env_line
    } else {
        push_char(&mut out, '\n');
        push_str(&mut out, env_line.as_str());
        proof {
            reveal_strlit("\n");
            assert(out@ =~= join_lines(rs) + "\n"@ + line);
        }
        out
    }
}

/// The pieces of `s` between newlines, empty pieces included: how a shell
/// reads the lines of a file.
pub open spec fn split_newlines(s: Seq<char>) -> Seq<Seq<char>>
    decreases s.len(),
{
    let k = find_char(s, '\n');
    if k < 0 || k >= s.len() {
        seq![s]
    } else {
        seq![s.take(k)] + split_newlines(s.skip(k + 1))
    }
}

/// Whether `s` holds no newline.
pub open spec fn no_newline(s: Seq<char>) -> bool {
    forall|i: int| 0 <= i < s.len() ==> #[trigger] s[i] != '\n'
}

proof fn lemma_join_front(ls: Seq<Seq<char>>)
    requires
        ls.len() >= 2,
    ensures
        join_lines(ls) == ls[0] + "\n"@ + join_lines(ls.skip(1)),
    decreases ls.len(),
{
    if ls.len() == 2 {
        assert(ls.drop_last().len() == 1);
        assert(ls.skip(1).len() == 1);
        assert(join_lines(ls.skip(1)) == ls[1]);
        assert(ls.drop_last()[0] == ls[0]);
        assert(join_lines(ls.drop_last()) == ls[0]);
        assert(join_lines(ls) =~= ls[0] + "\n"@ + join_lines(ls.skip(1)));
    } else {
        let dl = ls.drop_last();
        lemma_join_front(dl);
        assert(dl.skip(1) =~= ls.skip(1).drop_last());
        assert(ls.skip(1).last() == ls.last());
        assert(dl[0] == ls[0]);
        assert(join_lines(ls.skip(1)) == join_lines(dl.skip(1)) + "\n"@ + ls.last());
        assert(join_lines(ls) =~= ls[0] + "\n"@ + join_lines(ls.skip(1)));
    }
}

proof fn lemma_split_join(ls: Seq<Seq<char>>)
    requires
        ls.len() >= 1,
        forall|i: int| 0 <= i < ls.len() ==> no_newline(#[trigger] ls[i]),
    ensures
        split_newlines(join_lines(ls)) == ls,
    decreases ls.len(),
{
    reveal_strlit("\n");
    if ls.len() == 1 {
        let l = ls[0];
        assert(no_newline(l));
        lemma_find_char_is(l, '\n', l.len() as int);
        assert(split_newlines(l) =~= ls);
    } else {
        lemma_join_front(ls);
        let l = ls[0];
        assert(no_newline(l));
        let rest = ls.skip(1);
        assert forall|i: int| 0 <= i < rest.len() implies no_newline(#[trigger] rest[i]) by {
            assert(rest[i] == ls[i + 1]);
        }
        lemma_split_join(rest);
        crate::text::lemma_find_after(l, '\n', join_lines(rest));
        assert(join_lines(ls) =~= l + seq!['\n'] + join_lines(rest));
        assert(split_newlines(join_lines(ls)) =~= seq![l] + rest);
        assert(seq![l] + rest =~= ls);
    }
}

proof fn lemma_lines_no_newline(s: Seq<char>)
    ensures
        forall|i: int| 0 <= i < lines(s).len() ==> no_newline(#[trigger] lines(s)[i]),
    decreases s.len(),
{
    if s.len() > 0 {
        let k = find_char(s, '\n');
        lemma_find_char(s, '\n');
        if k < s.len() {
            lemma_lines_no_newline(s.skip(k + 1));
            let first = crate::text::strip_cr(s.take(k));
            assert(no_newline(first)) by {
                assert forall|j: int| 0 <= j < first.len() implies #[trigger] first[j] != '\n' by {
                    assert(first[j] == s[j]);
                }
            }
            assert forall|i: int| 0 <= i < lines(s).len() implies no_newline(#[trigger] lines(s)[i]) by {
                if i > 0 {
                    assert(lines(s)[i] == lines(s.skip(k + 1))[i - 1]);
                }
            }
        } else {
            assert(lines(s) =~= seq![s]);
            assert(no_newline(s));
        }
    }
}

/// Law: after exporting `name` as `value`, the environment file, read line
/// by line, holds the line `export <name>=<value>`, and every line that
/// assigns `name` assigns `value`, whatever the file held before.
pub proof fn law_env_export_assigns_value(
    previous: Option<Seq<char>>,
    name: Seq<char>,
    value: Seq<char>,
)
    requires
        no_newline(name),
        no_newline(value),
    ensures
        split_newlines(env_file_text(previous, name, value)).contains(export_line(name, value)),
        forall|i: int|
            0 <= i < split_newlines(env_file_text(previous, name, value)).len() && starts_with(
                #[trigger] split_newlines(env_file_text(previous, name, value))[i],
                export_prefix(name),
            ) ==> split_newlines(env_file_text(previous, name, value))[i] == export_line(
                name,
                value,
            ),
{
    reveal_strlit("\n");
    reveal_strlit("export ");
    reveal_strlit("=");
    let line = export_line(name, value);
    let pre = export_prefix(name);
    assert(no_newline(line)) by {
        assert forall|j: int| 0 <= j < line.len() implies #[trigger] line[j] != '\n' by {
            if j >= 7 && j < 7 + name.len() {
                assert(line[j] == name[j - 7]);
            } else if j >= 8 + name.len() {
                assert(line[j] == value[j - 8 - name.len()]);
            }
        }
    }
    assert(starts_with(line, pre)) by {
        assert(line.take(pre.len() as int) =~= pre);
    }
    let single = seq![line];
    assert(split_newlines(line) == single) by {
        lemma_split_join(single);
        assert(join_lines(single) == line);
    }
    assert(single[0] == line);
    match previous {
        None => {},
        Some(p) => {
            let ls = lines(p);
            let rs = replace_exports(ls, pre, line);
            lemma_lines_no_newline(p);
            assert forall|i: int| 0 <= i < rs.len() implies no_newline(#[trigger] rs[i]) by {
                assert(no_newline(ls[i]));
            }
            let out = join_lines(rs);
            if has_export(ls, pre) {
                let w = choose|i: int| 0 <= i < ls.len() && #[trigger] starts_with(ls[i], pre);
                lemma_split_join(rs);
                assert(rs[w] == line);
                assert forall|i: int| 0 <= i < rs.len() && starts_with(#[trigger] rs[i], pre) implies rs[i] == line by {
                    if !starts_with(ls[i], pre) {
                        assert(rs[i] == ls[i]);
                    }
                }
            } else if out.len() == 0 {
            } else {
                let all = rs.push(line);
                assert(rs.len() >= 1);
                assert(all.drop_last() =~= rs);
                assert(join_lines(all) == out + "\n"@ + line);
                assert forall|i: int| 0 <= i < all.len() implies no_newline(#[trigger] all[i]) by {
                    if i < rs.len() {
                        assert(all[i] == rs[i]);
                    }
                }
                lemma_split_join(all);
                assert(all[rs.len() as int] == line);
                assert forall|i: int| 0 <= i < all.len() && starts_with(#[trigger] all[i], pre) implies all[i] == line by {
                    if i < rs.len() {
                        assert(all[i] == rs[i]);
                        if starts_with(ls[i], pre) {
                            assert(has_export(ls, pre));
                        }
                        assert(rs[i] == ls[i]);
                    }
                }
            }
        },
    }
}

} // verus!
