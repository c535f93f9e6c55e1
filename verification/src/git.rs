//! Interpretation of what the `git` command line prints for a local
//! repository: the commit time zone, `--numstat` line counts, the branch,
//! blame and rev-list output.
//!
//! Running `git` is left to the caller; every function here takes the text
//! that `git` printed and computes from it.
use vstd::prelude::*;

use crate::text::chars_of;
use crate::text::find_char;
use crate::text::is_digit;
use crate::text::find_char_in;
use crate::text::lemma_find_char;
use crate::text::lines;
use crate::text::strip_cr;
use crate::text::lemma_find_char_is;
use crate::text::lemma_find_after;
use crate::text::next_line;
use crate::text::opt_text;
use crate::text::parse_usize;
use crate::text::parse_usize_spec;
use crate::error::VersionError;
use crate::text::first_word;
use crate::text::find_ws_in;
use crate::text::parse_i64;
use crate::text::parse_i64_spec;
use crate::text::push_decimal;
use crate::text::push_str;
use crate::text::skip_ws_forward;
use crate::text::starts_with;
use crate::text::string_from_utf8;
use crate::text::string_of;
use crate::text::text_equals;
use crate::text::text_starts_with;
use crate::text::decimal;
use crate::text::trim;
use crate::text::trim_end;
use crate::text::trim_end_str;
use crate::text::trim_str;

verus! {

broadcast use vstd::string::group_string_axioms;

// ---------------------------------------------------------------------------
// Commit time zone
// ---------------------------------------------------------------------------
/// The value of an ASCII digit.
pub open spec fn digit_value(c: char) -> int {
    (c as u32) - 48
}

/// Whether `t` begins with an offset in git's `[+-]HHMM` form: a sign
/// followed by four ASCII digits.
pub open spec fn is_offset_form(t: Seq<char>) -> bool {
    &&& t.len() >= 5
    &&& (t[0] == '+' || t[0] == '-')
    &&& is_digit(t[1])
    &&& is_digit(t[2])
    &&& is_digit(t[3])
    &&& is_digit(t[4])
}

/// The offset in minutes that a `git log --format=%z` text such as
/// `"+0800"` stands for, read from the trimmed text: the sign, two digits
/// of hours and two of minutes.  Zero for an empty text and for any text
/// that does not begin in that form.
pub open spec fn tz_offset_minutes(input: Seq<char>) -> int {
    let t = trim(input);
    if is_offset_form(t) {
        let sign: int = if t[0] == '+' {
            1
        } else {
            -1
        };
        let hours = digit_value(t[1]) * 10 + digit_value(t[2]);
        let minutes = digit_value(t[3]) * 10 + digit_value(t[4]);
        sign * (hours * 60 + minutes)
    } else {
        0
    }
}

/// The value of `c` when it is an ASCII digit.
fn ascii_digit(c: char) -> (r: Option<i32>)
    ensures
        r is Some <==> is_digit(c),
        r matches Some(v) ==> v == digit_value(c) && 0 <= v <= 9,
{
    let u = c as u32;
    if 48 <= u && u <= 57 {
        Some((u - 48) as i32)
    } else {
        None
    }
}

/// Parses a git timezone offset string (e.g., `"+0800"`, `"-0500"`) into minutes.
///
/// Returns `0` for empty strings or invalid formats.
pub fn parse_tz_offset(input: &str) -> (r: i32)
    ensures
        r == tz_offset_minutes(input@),
        -6039 <= r <= 6039,
{
    let trimmed = trim_str(input);
    let t = chars_of(trimmed);
    if t.len() < 5 {
        return 0;
    }
    let sign: i32 = if t[0] == '+' {
        1
    } else if t[0] == '-' {
        -1
    } else {
        return 0;
    };
    let digits = (ascii_digit(t[1]), ascii_digit(t[2]), ascii_digit(t[3]), ascii_digit(t[4]));
    match digits {
        (Some(h1), Some(h2), Some(m1), Some(m2)) => sign * ((h1 * 10 + h2) * 60 + m1 * 10 + m2),
        _ => 0,
    }
}

/// Two ASCII digits for a number below one hundred, as git writes them.
pub open spec fn two_digits(x: nat) -> Seq<char> {
    seq![crate::text::digit_char(x / 10), crate::text::digit_char(x % 10)]
}

proof fn lemma_two_digits(x: nat)
    requires
        x < 100,
    ensures
        is_digit(two_digits(x)[0]),
        is_digit(two_digits(x)[1]),
        digit_value(two_digits(x)[0]) * 10 + digit_value(two_digits(x)[1]) == x,
        !crate::text::is_ws(two_digits(x).last()),
{
    let a = crate::text::digit_char(x / 10);
    let b = crate::text::digit_char(x % 10);
    assert((a as u32) == x / 10 + 48);
    assert((b as u32) == x % 10 + 48);
}

/// Law: a time zone offset as `git log --format=%z` prints it, a sign then
/// two digits of hours and two of minutes (`+0800`, `-0500`), reads as that
/// many minutes east (`+`) or west (`-`) of UTC.
pub proof fn law_git_offset_reads_back(west: bool, hours: nat, minutes: nat)
    requires
        hours < 100,
        minutes < 100,
    ensures
        tz_offset_minutes(
            seq![if west {
                '-'
            } else {
                '+'
            }] + two_digits(hours) + two_digits(minutes),
        ) == (if west {
            -1int
        } else {
            1int
        }) * (hours * 60 + minutes),
{
    let sign = if west {
        '-'
    } else {
        '+'
    };
    let hh = two_digits(hours);
    let mm = two_digits(minutes);
    let text = seq![sign] + hh + mm;
    lemma_two_digits(hours);
    lemma_two_digits(minutes);
    assert(text[0] == sign);
    assert(text.last() == mm.last());
    crate::text::lemma_trim_unchanged(text);
    assert(text[1] == hh[0] && text[2] == hh[1] && text[3] == mm[0] && text[4] == mm[1]);
}

// ---------------------------------------------------------------------------
// `git diff --numstat`
// ---------------------------------------------------------------------------
/// `v`, or `0` when there is none.
pub open spec fn or_zero(v: Option<int>) -> int {
    match v {
        Some(x) => x,
        None => 0,
    }
}

/// What one `--numstat` line contributes: added plus deleted lines, or
/// `None` for a binary file (`-` counts), a line without a tab, or counts
/// that do not read as `usize`.
pub open spec fn numstat_line(l: Seq<char>) -> Option<int> {
    let t1 = find_char(l, '\t');
    if t1 >= l.len() {
        None
    } else {
        let added = l.take(t1);
        let rest = l.skip(t1 + 1);
        let deleted = rest.take(find_char(rest, '\t'));
        if added == seq!['-'] || deleted == seq!['-'] {
            None
        } else {
            match (parse_usize_spec(added), parse_usize_spec(deleted)) {
                (Some(a), Some(b)) => Some(a + b),
                _ => None,
            }
        }
    }
}

/// Sum of what the lines contribute.
pub open spec fn numstat_sum(ls: Seq<Seq<char>>) -> int
    decreases ls.len(),
{
    if ls.len() == 0 {
        0
    } else {
        or_zero(numstat_line(ls[0])) + numstat_sum(ls.skip(1))
    }
}

/// Total of added and deleted lines over the lines of a `--numstat` text.
pub open spec fn numstat_total(s: Seq<char>) -> int {
    numstat_sum(lines(s))
}

proof fn lemma_numstat_sum_nonneg(ls: Seq<Seq<char>>)
    ensures
        numstat_sum(ls) >= 0,
    decreases ls.len(),
{
    if ls.len() > 0 {
        lemma_numstat_sum_nonneg(ls.skip(1));
    }
}

/// Law: the count is additive over outputs joined by a line ending: the
/// `--numstat` total of `a`, a newline, then `b` is the total of `a` plus
/// the total of `b`, unless `a` ends with a carriage return (which the
/// newline would turn into a `"\r\n"` line ending).
pub proof fn law_numstat_total_additive(a: Seq<char>, b: Seq<char>)
    requires
        !(a.len() > 0 && a.last() == '\r'),
    ensures
        numstat_total(a + seq!['\n'] + b) == numstat_total(a) + numstat_total(b),
    decreases a.len(),
{
    let s = a + seq!['\n'] + b;
    lemma_find_char(a, '\n');
    let k = find_char(a, '\n');
    if k >= a.len() {
        lemma_find_after(a, '\n', b);
        assert(s.len() > 0);
        assert(lines(s) == seq![strip_cr(a)] + lines(b));
        assert(strip_cr(a) == a);
        if a.len() == 0 {
            assert(numstat_line(a) is None);
            assert(lines(a) =~= Seq::<Seq<char>>::empty());
        } else {
            assert(lines(a) == seq![a]);
            assert(numstat_sum(seq![a]) == or_zero(numstat_line(a)) + numstat_sum(
                seq![a].skip(1),
            ));
            assert(seq![a].skip(1) =~= Seq::<Seq<char>>::empty());
        }
        assert((seq![strip_cr(a)] + lines(b)).skip(1) =~= lines(b));
    } else {
        let rest = a.skip(k + 1);
        assert forall|j: int| 0 <= j < k implies #[trigger] s[j] != '\n' by {
            assert(s[j] == a[j]);
        }
        assert(s[k] == a[k]);
        lemma_find_char_is(s, '\n', k);
        assert(s.take(k) =~= a.take(k));
        assert(s.skip(k + 1) =~= rest + seq!['\n'] + b);
        if rest.len() > 0 {
            assert(rest.last() == a.last());
        }
        law_numstat_total_additive(rest, b);
        let head = strip_cr(a.take(k));
        assert(lines(s) == seq![head] + lines(rest + seq!['\n'] + b));
        assert(lines(a) == seq![head] + lines(rest));
        assert((seq![head] + lines(rest + seq!['\n'] + b)).skip(1) =~= lines(
            rest + seq!['\n'] + b,
        ));
        assert((seq![head] + lines(rest)).skip(1) =~= lines(rest));
    }
}

/// Law: a `--numstat` line `A<tab>D<tab><path>` counts `A + D` changed
/// lines, and the line git writes for a binary file, `-<tab>-<tab><path>`,
/// counts none.
pub proof fn law_numstat_line_counts(added: usize, deleted: usize, path: Seq<char>)
    ensures
        numstat_line(decimal(added as nat) + seq!['\t'] + decimal(deleted as nat) + seq!['\t'] + path)
            == Some(added + deleted),
        numstat_line(seq!['-', '\t', '-', '\t'] + path) is None,
{
    let da = decimal(added as nat);
    let dd = decimal(deleted as nat);
    crate::text::lemma_decimal_reads_back(added as nat);
    crate::text::lemma_decimal_reads_back(deleted as nat);
    assert forall|i: int| 0 <= i < da.len() implies #[trigger] da[i] != '\t' by {
        assert(is_digit(da[i]));
    }
    assert forall|i: int| 0 <= i < dd.len() implies #[trigger] dd[i] != '\t' by {
        assert(is_digit(dd[i]));
    }
    let line = da + seq!['\t'] + dd + seq!['\t'] + path;
    assert(line =~= da + seq!['\t'] + (dd + seq!['\t'] + path));
    crate::text::lemma_find_after(da, '\t', dd + seq!['\t'] + path);
    crate::text::lemma_find_after(dd, '\t', path);
    assert(da != seq!['-']) by {
        if da == seq!['-'] {
            assert(is_digit(da[0]));
        }
    }
    assert(dd != seq!['-']) by {
        if dd == seq!['-'] {
            assert(is_digit(dd[0]));
        }
    }
    crate::text::lemma_parse_decimal(added as nat, false, 0, usize::MAX as int);
    crate::text::lemma_parse_decimal(deleted as nat, false, 0, usize::MAX as int);
    let bin = seq!['-', '\t', '-', '\t'] + path;
    assert(bin =~= seq!['-'] + seq!['\t'] + (seq!['-', '\t'] + path));
    crate::text::lemma_find_after(seq!['-'], '\t', seq!['-', '\t'] + path);
}

/// What the line `v[start..end]` of `text` contributes.
fn numstat_line_value(text: &str, v: &Vec<char>, start: usize, end: usize) -> (r: Option<u128>)
    requires
        v@ == text@,
        start <= end <= v.len(),
    ensures
        match r {
            Some(x) => numstat_line(v@.subrange(start as int, end as int)) == Some(x as int),
            None => numstat_line(v@.subrange(start as int, end as int)) is None,
        },
{
    let ghost l = v@.subrange(start as int, end as int);
    let t1 = find_char_in(v, '\t', start, end);
    if t1 == end {
        return None;
    }
    let t2 = find_char_in(v, '\t', t1 + 1, end);
    proof {
        lemma_find_char(l, '\t');
        let rest = l.skip(t1 - start + 1);
        assert(rest =~= v@.subrange(t1 + 1, end as int));
        assert(l.take(t1 - start) =~= v@.subrange(start as int, t1 as int));
        assert(rest.take(find_char(rest, '\t')) =~= v@.subrange(t1 + 1, t2 as int));
    }
    if (t1 - start == 1 && v[start] == '-') || (t2 - (t1 + 1) == 1 && v[t1 + 1] == '-') {
        proof {
            if t1 - start == 1 && v[start as int] == '-' {
                assert(v@.subrange(start as int, t1 as int) =~= seq!['-']);
            } else {
                assert(v@.subrange(t1 + 1, t2 as int) =~= seq!['-']);
            }
        }
        return None;
    }
    proof {
        if v@.subrange(start as int, t1 as int) == seq!['-'] {
            assert(v@.subrange(start as int, t1 as int)[0] == '-');
        }
        if v@.subrange(t1 + 1, t2 as int) == seq!['-'] {
            assert(v@.subrange(t1 + 1, t2 as int)[0] == '-');
        }
    }
    let added = match parse_usize(text.substring_char(start, t1)) {
        Ok(a) => a,
        Err(_) => {
            return None;
        },
    };
    let deleted = match parse_usize(text.substring_char(t1 + 1, t2)) {
        Ok(b) => b,
        Err(_) => {
            return None;
        },
    };
    Some(added as u128 + deleted as u128)
}

/// Parses `git diff --numstat` output into a total line count.
///
/// Binary files (shown as `-\t-\t<file>`) are skipped.
pub fn parse_numstat(output: &str) -> (r: usize)
    requires
        numstat_total(output@) <= usize::MAX,
    ensures
        r == numstat_total(output@),
{
    let v = chars_of(output);
    let mut pos: usize = 0;
    let mut total: usize = 0;
    assert(v@.skip(0) =~= v@);
    while pos < v.len()
        invariant
            pos <= v.len(),
            v@ == output@,
            numstat_total(output@) <= usize::MAX,
            numstat_total(output@) == total + numstat_sum(lines(v@.skip(pos as int))),
        decreases v.len() - pos,
    {
        let (end, next) = next_line(&v, pos);
        let ghost rest = lines(v@.skip(next as int));
        let ghost ls = lines(v@.skip(pos as int));
        proof {
            assert(ls.skip(1) =~= rest);
            lemma_numstat_sum_nonneg(rest);
        }
        match numstat_line_value(output, &v, pos, end) {
            Some(x) => {
                total = total + x as usize;
            },
            None => {},
        }
        pos = next;
    }
    proof {
        assert(v@.skip(pos as int).len() == 0);
    }
    total
}

/// The total of a `--numstat` text, or `None` when it exceeds `usize::MAX`
/// (where `parse_numstat` would overflow).
pub fn numstat_checked_total(output: &str) -> (r: Option<usize>)
    ensures
        match r {
            Some(n) => n == numstat_total(output@),
            None => numstat_total(output@) > usize::MAX,
        },
{
    let v = chars_of(output);
    let mut pos: usize = 0;
    let mut total: usize = 0;
    assert(v@.skip(0) =~= v@);
    while pos < v.len()
        invariant
            pos <= v.len(),
            v@ == output@,
            numstat_total(output@) == total + numstat_sum(lines(v@.skip(pos as int))),
        decreases v.len() - pos,
    {
        let (end, next) = next_line(&v, pos);
        let ghost rest = lines(v@.skip(next as int));
        let ghost ls = lines(v@.skip(pos as int));
        proof {
            assert(ls.skip(1) =~= rest);
            lemma_numstat_sum_nonneg(rest);
        }
        match numstat_line_value(output, &v, pos, end) {
            Some(x) => {
                if x > (usize::MAX - total) as u128 {
                    return None;
                }
                total = total + x as usize;
            },
            None => {},
        }
        pos = next;
    }
    proof {
        assert(v@.skip(pos as int).len() == 0);
    }
    Some(total)
}

// ---------------------------------------------------------------------------
// The repository and what its commands print
// ---------------------------------------------------------------------------
/// A local Git repository, known by its working directory (the toplevel
/// that `git rev-parse --show-toplevel` prints).
pub struct GitRepo {
    work_dir: String,
}

impl GitRepo {
    /// The working directory of the repository.
    pub closed spec fn dir(&self) -> Seq<char> {
        self.work_dir@
    }

    /// The repository whose toplevel is `toplevel`, the output of
    /// `git -C <path> rev-parse --show-toplevel`.
    pub fn from_toplevel(toplevel: String) -> (r: GitRepo)
        ensures
            r.dir() == toplevel@,
    {
        GitRepo { work_dir: toplevel }
    }

    /// Returns the repository working directory (toplevel).
    pub fn work_dir(&self) -> (r: &str)
        ensures
            r@ == self.dir(),
    {
        self.work_dir.as_str()
    }
}

/// Whether `git rev-parse --is-bare-repository` printed `true`.
pub fn is_bare_output(output: &str) -> (r: bool)
    ensures
        r == (output@ == "true"@),
{
    text_equals(output, "true")
}

/// The branch that `git rev-parse --abbrev-ref HEAD` names: none when the
/// command failed, or printed `HEAD` or a text starting with
/// `HEAD detached` (a detached or unborn HEAD).
pub open spec fn branch_of(output: Option<Seq<char>>) -> Option<Seq<char>> {
    match output {
        None => None,
        Some(o) => if o == "HEAD"@ || starts_with(o, "HEAD detached"@) {
            None
        } else {
            Some(o)
        },
    }
}

/// The current branch from the output of `git rev-parse --abbrev-ref HEAD`
/// (`None` when that command failed).
pub fn branch_from_output(output: Option<String>) -> (r: Option<String>)
    ensures
        match r {
            Some(b) => branch_of(opt_text(output)) == Some(b@),
            None => branch_of(opt_text(output)) is None,
        },
{
    match output {
        None => None,
        Some(o) => {
            if text_equals(o.as_str(), "HEAD") || text_starts_with(o.as_str(), "HEAD detached") {
                None
            } else {
                Some(o)
            }
        },
    }
}

/// The commit's Unix timestamp from `git log -1 --format=%ct`.
pub fn commit_timestamp_from_output(output: &str) -> (r: Result<i64, VersionError>)
    ensures
        r is Ok <==> parse_i64_spec(output@) is Some,
        r matches Ok(t) ==> t == parse_i64_spec(output@)->0,
        r matches Err(e) ==> e is ParseInt,
{
    match parse_i64(output) {
        Ok(t) => Ok(t),
        Err(e) => Err(VersionError::ParseInt(e)),
    }
}

/// Total modified lines (insertions plus deletions) from the `--numstat`
/// outputs of unstaged and staged changes.
pub fn modified_lines_from_output(unstaged: &str, staged: &str) -> (r: usize)
    requires
        numstat_total(unstaged@) + numstat_total(staged@) <= usize::MAX,
    ensures
        r == numstat_total(unstaged@) + numstat_total(staged@),
{
    proof {
        lemma_numstat_sum_nonneg(lines(unstaged@));
        lemma_numstat_sum_nonneg(lines(staged@));
    }
    let a = parse_numstat(unstaged);
    let b = parse_numstat(staged);
    a + b
}

/// The commit that `git blame --porcelain` names: the first word of its
/// first line.
pub open spec fn blame_commit(output: Seq<char>) -> Option<Seq<char>> {
    let ls = lines(output);
    if ls.len() == 0 {
        None
    } else {
        first_word(ls[0])
    }
}

/// Total modified lines from the two `--numstat` outputs, or `None` when
/// the total exceeds `usize::MAX` (where the sum would overflow).
pub fn modified_lines_checked(unstaged: &str, staged: &str) -> (r: Option<usize>)
    ensures
        match r {
            Some(n) => n == numstat_total(unstaged@) + numstat_total(staged@),
            None => numstat_total(unstaged@) + numstat_total(staged@) > usize::MAX,
        },
{
    proof {
        lemma_numstat_sum_nonneg(lines(unstaged@));
        lemma_numstat_sum_nonneg(lines(staged@));
    }
    let a = match numstat_checked_total(unstaged) {
        Some(a) => a,
        None => {
            return None;
        },
    };
    let b = match numstat_checked_total(staged) {
        Some(b) => b,
        None => {
            return None;
        },
    };
    if a > usize::MAX - b {
        None
    } else {
        Some(modified_lines_from_output(unstaged, staged))
    }
}

/// Law: the header line of `git blame --porcelain`, a commit hash followed
/// by a space and the line numbers, gives back that hash, whatever lines
/// follow.
pub proof fn law_blame_reads_commit(hash: Seq<char>, rest: Seq<char>)
    requires
        hash.len() > 0,
        forall|i: int| 0 <= i < hash.len() ==> !crate::text::is_ws(#[trigger] hash[i]),
    ensures
        blame_commit(hash + seq![' '] + rest) == Some(hash),
{
    let s = hash + seq![' '] + rest;
    assert forall|j: int| 0 <= j < hash.len() implies #[trigger] s[j] != '\n' by {
        assert(s[j] == hash[j]);
        assert(!crate::text::is_ws(hash[j]));
    }
    assert(s[hash.len() as int] == ' ');
    lemma_find_char(s, '\n');
    let k = find_char(s, '\n');
    if k < hash.len() {
        assert(s[k] == '\n');
        assert(false);
    }
    assert(k >= hash.len() + 1);
    let first = if k >= s.len() {
        s
    } else {
        crate::text::strip_cr(s.take(k))
    };
    assert(lines(s)[0] == first);
    assert(first[0] == s[0]);
    assert(first.len() > hash.len());
    assert forall|j: int| 0 <= j <= hash.len() implies #[trigger] first[j] == s[j] by {}
    assert(!crate::text::is_ws(first[0]));
    assert(crate::text::lead_ws(first) == 0);
    assert(crate::text::trim_start(first) =~= first);
    crate::text::lemma_find_ws_is(first, hash.len() as int);
    assert(first.take(hash.len() as int) =~= hash);
}

/// The full commit hash from `git blame --porcelain` output, whose first
/// line is `"<hash> <metadata>"`.
pub fn blame_commit_from_output(output: &str) -> (r: Result<String, VersionError>)
    ensures
        r is Ok <==> blame_commit(output@) is Some,
        r matches Ok(h) ==> h@ == blame_commit(output@)->0,
        r matches Err(e) ==> e matches VersionError::GitCommand(m) && m@ == "blame output empty"@,
{
    let v = chars_of(output);
    if v.len() == 0 {
        assert(output@.len() == 0);
        assert(lines(output@) =~= Seq::<Seq<char>>::empty());
        return Err(VersionError::GitCommand(string_of("blame output empty")));
    }
    let (end, _next) = next_line(&v, 0);
    assert(v@.skip(0) =~= output@);
    let ghost l = v@.subrange(0, end as int);
    let start = skip_ws_forward(&v, 0, end);
    proof {
        crate::text::lemma_lead_ws_bounds(l);
        assert(v@.subrange(start as int, end as int) =~= crate::text::trim_start(l));
    }
    if start == end {
        return Err(VersionError::GitCommand(string_of("blame output empty")));
    }
    let stop = find_ws_in(&v, start, end);
    proof {
        let t = crate::text::trim_start(l);
        assert(t.take(stop - start) =~= v@.subrange(start as int, stop as int));
    }
    Ok(string_of(output.substring_char(start, stop)))
}

/// The line range argument `"N,N"` for `git blame -L`.
pub fn blame_line_range(line_num: usize) -> (r: String)
    ensures
        r@ == decimal(line_num as nat) + ","@ + decimal(line_num as nat),
{
    let mut r = String::new();
    push_decimal(&mut r, line_num as u64);
    push_str(&mut r, ",");
    push_decimal(&mut r, line_num as u64);
    proof {
        assert(r@ =~= decimal(line_num as nat) + ","@ + decimal(line_num as nat));
    }
    r
}

/// The revision range `"<commit>..HEAD"` for `git rev-list --count`.
pub fn revision_range(exclude_commit: &str) -> (r: String)
    ensures
        r@ == exclude_commit@ + "..HEAD"@,
{
    let mut r = string_of(exclude_commit);
    push_str(&mut r, "..HEAD");
    r
}

/// The number of commits that `git rev-list --count` printed.
pub fn commit_count_from_output(output: &str) -> (r: Result<usize, VersionError>)
    ensures
        r is Ok <==> parse_usize_spec(output@) is Some,
        r matches Ok(n) ==> n == parse_usize_spec(output@)->0,
        r matches Err(e) ==> e is ParseInt,
{
    match parse_usize(output) {
        Ok(n) => Ok(n),
        Err(e) => Err(VersionError::ParseInt(e)),
    }
}

/// The error for a failed `git show <spec>`, with the text of its stderr.
pub fn show_failure(spec: &str, stderr: &str) -> (r: VersionError)
    ensures
        r matches VersionError::GitCommand(m) && m@ == "git show "@ + spec@ + ": "@ + stderr@,
{
    let mut m = string_of("git show ");
    push_str(&mut m, spec);
    push_str(&mut m, ": ");
    push_str(&mut m, stderr);
    VersionError::GitCommand(m)
}

/// The result of a finished `git` command: on failure the error carries
/// its trimmed stderr (`stderr` is that text, lossily decoded); on success
/// stdout is decoded as UTF-8 and loses its trailing whitespace.
pub fn git_output(success: bool, stdout: Vec<u8>, stderr: &str) -> (r: Result<String, VersionError>)
    ensures
        !success ==> (r matches Err(VersionError::GitCommand(m)) && m@ == trim(stderr@)),
        success && vstd::utf8::valid_utf8(stdout@) ==> (r matches Ok(o) && o@ == trim_end(
            vstd::utf8::decode_utf8(stdout@),
        )),
        success && !vstd::utf8::valid_utf8(stdout@) ==> (r matches Err(e) && e is Utf8),
{
    if !success {
        return Err(VersionError::GitCommand(string_of(trim_str(stderr))));
    }
    match string_from_utf8(stdout) {
        Ok(text) => Ok(string_of(trim_end_str(text.as_str()))),
        Err(e) => Err(VersionError::Utf8(e)),
    }
}

/// The error for a `git` process that could not be started: when the
/// program was not found (`not_found`, the error's kind being `NotFound`)
/// a message that names the missing `git`; any other I/O error is kept.
pub fn spawn_failure(e: std::io::Error, not_found: bool) -> (r: VersionError)
    ensures
        not_found ==> (r matches VersionError::GitCommand(m) && m@
            == "git command not found: ensure git is installed and on PATH"@),
        !not_found ==> (r matches VersionError::Io(kept) && kept == e),
{
    if not_found {
        VersionError::GitCommand(
            string_of("git command not found: ensure git is installed and on PATH"),
        )
    } else {
        VersionError::Io(e)
    }
}

} // verus!
