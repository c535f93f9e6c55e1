//! Character-level text operations shared by the parsers and renderers:
//! Unicode whitespace trimming, line splitting, searching, decimal rendering
//! and the integer reading of `str::parse`.
use vstd::prelude::*;

verus! {

broadcast use vstd::string::group_string_axioms;

// ---------------------------------------------------------------------------
// Whitespace and trimming
// ---------------------------------------------------------------------------
/// The Unicode `White_Space` property, which `char::is_whitespace`,
/// `str::trim` and `str::split_whitespace` use.
pub open spec fn is_ws(c: char) -> bool {
    let u = c as u32;
    ||| 0x09 <= u <= 0x0D
    ||| u == 0x20
    ||| u == 0x85
    ||| u == 0xA0
    ||| u == 0x1680
    ||| 0x2000 <= u <= 0x200A
    ||| u == 0x2028
    ||| u == 0x2029
    ||| u == 0x202F
    ||| u == 0x205F
    ||| u == 0x3000
}

/// Whether `c` is a Unicode whitespace character.
pub fn is_whitespace(c: char) -> (r: bool)
    ensures
        r == is_ws(c),
{
    let u = c as u32;
    (0x09 <= u && u <= 0x0D) || u == 0x20 || u == 0x85 || u == 0xA0 || u == 0x1680 || (0x2000
        <= u && u <= 0x200A) || u == 0x2028 || u == 0x2029 || u == 0x202F || u == 0x205F || u
        == 0x3000
}

/// Number of whitespace characters at the start of `s`.
pub open spec fn lead_ws(s: Seq<char>) -> int
    decreases s.len(),
{
    if s.len() > 0 && is_ws(s[0]) {
        1 + lead_ws(s.skip(1))
    } else {
        0
    }
}

/// Number of whitespace characters at the end of `s`.
pub open spec fn trail_ws(s: Seq<char>) -> int
    decreases s.len(),
{
    if s.len() > 0 && is_ws(s.last()) {
        1 + trail_ws(s.drop_last())
    } else {
        0
    }
}

/// `s` without its leading whitespace.
pub open spec fn trim_start(s: Seq<char>) -> Seq<char> {
    s.skip(lead_ws(s))
}

/// `s` without its trailing whitespace.
pub open spec fn trim_end(s: Seq<char>) -> Seq<char> {
    s.take(s.len() - trail_ws(s))
}

/// `s` without leading and trailing whitespace (`str::trim`).
pub open spec fn trim(s: Seq<char>) -> Seq<char> {
    trim_end(trim_start(s))
}

pub proof fn lemma_lead_ws_bounds(s: Seq<char>)
    ensures
        0 <= lead_ws(s) <= s.len(),
        forall|j: int| 0 <= j < lead_ws(s) ==> is_ws(#[trigger] s[j]),
        lead_ws(s) < s.len() ==> !is_ws(s[lead_ws(s)]),
    decreases s.len(),
{
    if s.len() > 0 && is_ws(s[0]) {
        lemma_lead_ws_bounds(s.skip(1));
        assert forall|j: int| 0 <= j < lead_ws(s) implies is_ws(#[trigger] s[j]) by {
            if j > 0 {
                assert(s[j] == s.skip(1)[j - 1]);
            }
        }
    }
}

/// Scans `v[from..to]` forward; returns the index of the first character
/// that is not whitespace (or `to`).
pub fn skip_ws_forward(v: &Vec<char>, from: usize, to: usize) -> (i: usize)
    requires
        from <= to <= v.len(),
    ensures
        i == from + lead_ws(v@.subrange(from as int, to as int)),
{
    let mut i = from;
    while i < to && is_whitespace(v[i])
        invariant
            from <= i <= to <= v.len(),
            lead_ws(v@.subrange(from as int, to as int)) == (i - from) + lead_ws(
                v@.subrange(i as int, to as int),
            ),
        decreases to - i,
    {
        assert(v@.subrange(i as int, to as int).skip(1) =~= v@.subrange(i + 1, to as int));
        i = i + 1;
    }
    i
}

/// Scans `v[from..to]` backward; returns the end index of `v[from..to]`
/// without its trailing whitespace.
pub fn skip_ws_backward(v: &Vec<char>, from: usize, to: usize) -> (j: usize)
    requires
        from <= to <= v.len(),
    ensures
        j == to - trail_ws(v@.subrange(from as int, to as int)),
        from <= j <= to,
{
    let mut j = to;
    while j > from && is_whitespace(v[j - 1])
        invariant
            from <= j <= to <= v.len(),
            trail_ws(v@.subrange(from as int, to as int)) == (to - j) + trail_ws(
                v@.subrange(from as int, j as int),
            ),
        decreases j - from,
    {
        assert(v@.subrange(from as int, j as int).drop_last() =~= v@.subrange(
            from as int,
            j - 1,
        ));
        j = j - 1;
    }
    j
}

/// `str::trim`: `s` without leading and trailing Unicode whitespace.
pub fn trim_str(s: &str) -> (r: &str)
    ensures
        r@ == trim(s@),
{
    let v = chars_of(s);
    let n = v.len();
    let start = skip_ws_forward(&v, 0, n);
    proof {
        lemma_lead_ws_bounds(v@.subrange(0, n as int));
    }
    let end = skip_ws_backward(&v, start, n);
    proof {
        assert(v@.subrange(0, n as int) =~= s@);
        assert(v@.subrange(start as int, n as int) =~= trim_start(s@));
        lemma_lead_ws_bounds(s@);
        assert(v@.subrange(start as int, end as int) =~= trim(s@));
    }
    s.substring_char(start, end)
}

/// `str::trim_end`: `s` without trailing Unicode whitespace.
pub fn trim_end_str(s: &str) -> (r: &str)
    ensures
        r@ == trim_end(s@),
{
    let v = chars_of(s);
    let n = v.len();
    let end = skip_ws_backward(&v, 0, n);
    proof {
        assert(v@.subrange(0, n as int) =~= s@);
        assert(v@.subrange(0, end as int) =~= trim_end(s@));
    }
    s.substring_char(0, end)
}

/// The characters of `s`, in order.
pub fn chars_of(s: &str) -> (v: Vec<char>)
    ensures
        v@ == s@,
{
    let mut v: Vec<char> = Vec::new();
    for c in it: s.chars()
        invariant
            it.seq() == s@,
            v@ == it.seq().take(it.index()),
    {
        v.push(c);
    }
    v
}

// ---------------------------------------------------------------------------
// Searching and lines
// ---------------------------------------------------------------------------
/// Index of the first `c` in `s`, or `s.len()` when `s` holds none.
pub open spec fn find_char(s: Seq<char>, c: char) -> int
    decreases s.len(),
{
    if s.len() == 0 {
        0
    } else if s[0] == c {
        0
    } else {
        1 + find_char(s.skip(1), c)
    }
}

pub proof fn lemma_find_char(s: Seq<char>, c: char)
    ensures
        0 <= find_char(s, c) <= s.len(),
        forall|j: int| 0 <= j < find_char(s, c) ==> #[trigger] s[j] != c,
        find_char(s, c) < s.len() ==> s[find_char(s, c)] == c,
    decreases s.len(),
{
    if s.len() > 0 && s[0] != c {
        lemma_find_char(s.skip(1), c);
        assert forall|j: int| 0 <= j < find_char(s, c) implies #[trigger] s[j] != c by {
            if j > 0 {
                assert(s[j] == s.skip(1)[j - 1]);
            }
        }
    }
}

/// `find_char` is pinned down by the characters before the index and at it.
pub proof fn lemma_find_char_is(s: Seq<char>, c: char, k: int)
    requires
        0 <= k <= s.len(),
        forall|j: int| 0 <= j < k ==> #[trigger] s[j] != c,
        k < s.len() ==> s[k] == c,
    ensures
        find_char(s, c) == k,
{
    lemma_find_char(s, c);
    let f = find_char(s, c);
    if f < k {
        assert(s[f] != c);
    }
    if k < f {
        assert(s[k] != c);
    }
}

/// Scans `v[from..]` for `c`; returns the first index at or after `from`
/// holding `c`, or `v.len()`.
pub fn find_char_from(v: &Vec<char>, c: char, from: usize) -> (i: usize)
    requires
        from <= v.len(),
    ensures
        i == from + find_char(v@.skip(from as int), c),
        from <= i <= v.len(),
{
    let mut i = from;
    while i < v.len() && v[i] != c
        invariant
            from <= i <= v.len(),
            forall|j: int| from <= j < i ==> v@[j] != c,
        decreases v.len() - i,
    {
        i = i + 1;
    }
    proof {
        let t = v@.skip(from as int);
        assert forall|j: int| 0 <= j < i - from implies #[trigger] t[j] != c by {
            assert(t[j] == v@[j + from]);
        }
        if i < v.len() {
            assert(t[i - from] == v@[i as int]);
        }
        lemma_find_char_is(t, c, i - from);
    }
    i
}

/// Scans `v[from..to]` for `c`; returns the first index in that range
/// holding `c`, or `to`.
pub fn find_char_in(v: &Vec<char>, c: char, from: usize, to: usize) -> (i: usize)
    requires
        from <= to <= v.len(),
    ensures
        i == from + find_char(v@.subrange(from as int, to as int), c),
        from <= i <= to,
{
    let mut i = from;
    while i < to && v[i] != c
        invariant
            from <= i <= to <= v.len(),
            forall|j: int| from <= j < i ==> v@[j] != c,
        decreases to - i,
    {
        i = i + 1;
    }
    proof {
        let t = v@.subrange(from as int, to as int);
        assert forall|j: int| 0 <= j < i - from implies #[trigger] t[j] != c by {
            assert(t[j] == v@[j + from]);
        }
        if i < to {
            assert(t[i - from] == v@[i as int]);
        }
        lemma_find_char_is(t, c, i - from);
    }
    i
}

/// Index of the first whitespace character in `s`, or `s.len()`.
pub open spec fn find_ws(s: Seq<char>) -> int
    decreases s.len(),
{
    if s.len() == 0 {
        0
    } else if is_ws(s[0]) {
        0
    } else {
        1 + find_ws(s.skip(1))
    }
}

/// `find_ws` is pinned down by the characters before the index and at it.
pub proof fn lemma_find_ws_is(s: Seq<char>, k: int)
    requires
        0 <= k <= s.len(),
        forall|j: int| 0 <= j < k ==> !is_ws(#[trigger] s[j]),
        k < s.len() ==> is_ws(s[k]),
    ensures
        find_ws(s) == k,
    decreases s.len(),
{
    if s.len() > 0 && !is_ws(s[0]) {
        assert forall|j: int| 0 <= j < k - 1 implies !is_ws(#[trigger] s.skip(1)[j]) by {
            assert(s.skip(1)[j] == s[j + 1]);
        }
        if k - 1 < s.len() - 1 {
            assert(s.skip(1)[k - 1] == s[k]);
        }
        lemma_find_ws_is(s.skip(1), k - 1);
    }
}

/// Scans `v[from..to]` for whitespace; returns the first index in that
/// range holding a whitespace character, or `to`.
pub fn find_ws_in(v: &Vec<char>, from: usize, to: usize) -> (i: usize)
    requires
        from <= to <= v.len(),
    ensures
        i == from + find_ws(v@.subrange(from as int, to as int)),
        from <= i <= to,
{
    let mut i = from;
    while i < to && !is_whitespace(v[i])
        invariant
            from <= i <= to <= v.len(),
            find_ws(v@.subrange(from as int, to as int)) == (i - from) + find_ws(
                v@.subrange(i as int, to as int),
            ),
        decreases to - i,
    {
        assert(v@.subrange(i as int, to as int).skip(1) =~= v@.subrange(i + 1, to as int));
        i = i + 1;
    }
    i
}

/// The first whitespace-separated word of `l` (`split_whitespace().next()`).
pub open spec fn first_word(l: Seq<char>) -> Option<Seq<char>> {
    let t = trim_start(l);
    if t.len() == 0 {
        None
    } else {
        Some(t.take(find_ws(t)))
    }
}

/// The characters of an optional `String`.
pub open spec fn opt_text(o: Option<String>) -> Option<Seq<char>> {
    match o {
        Some(s) => Some(s@),
        None => None,
    }
}

/// The characters of an optional `&str`.
pub open spec fn opt_str(o: Option<&str>) -> Option<Seq<char>> {
    match o {
        Some(s) => Some(s@),
        None => None,
    }
}

/// Whether `a` and `b` hold the same characters.
pub fn text_equals(a: &str, b: &str) -> (r: bool)
    ensures
        r == (a@ == b@),
{
    let va = chars_of(a);
    let vb = chars_of(b);
    if va.len() != vb.len() {
        return false;
    }
    let mut i: usize = 0;
    while i < va.len()
        invariant
            i <= va.len() == vb.len(),
            va@ == a@,
            vb@ == b@,
            forall|j: int| 0 <= j < i ==> va@[j] == vb@[j],
        decreases va.len() - i,
    {
        if va[i] != vb[i] {
            return false;
        }
        i = i + 1;
    }
    assert(va@ =~= vb@);
    true
}

/// Whether `a` starts with the characters of `p`.
pub open spec fn starts_with(a: Seq<char>, p: Seq<char>) -> bool {
    p.len() <= a.len() && a.take(p.len() as int) == p
}

/// Whether `a` starts with `p` (`str::starts_with`).
pub fn text_starts_with(a: &str, p: &str) -> (r: bool)
    ensures
        r == starts_with(a@, p@),
{
    let va = chars_of(a);
    let vp = chars_of(p);
    if vp.len() > va.len() {
        return false;
    }
    let mut i: usize = 0;
    while i < vp.len()
        invariant
            i <= vp.len() <= va.len(),
            va@ == a@,
            vp@ == p@,
            forall|j: int| 0 <= j < i ==> va@[j] == vp@[j],
        decreases vp.len() - i,
    {
        if va[i] != vp[i] {
            assert(va@.take(vp.len() as int)[i as int] != vp@[i as int]);
            return false;
        }
        i = i + 1;
    }
    assert(va@.take(vp.len() as int) =~= vp@);
    true
}

/// The decimal text of a number reads back as that number.
pub proof fn lemma_decimal_reads_back(n: nat)
    ensures
        decimal(n).len() >= 1,
        all_digits(decimal(n)),
        digits_value(decimal(n)) == n,
        !is_ws(decimal(n)[0]) && decimal(n)[0] != '+' && decimal(n)[0] != '-',
        !is_ws(decimal(n).last()),
        forall|i: int| 0 <= i < decimal(n).len() ==> #[trigger] decimal(n)[i] != '.',
    decreases n,
{
    if n < 10 {
        assert(decimal(n) == seq![digit_char(n)]);
        assert(decimal(n).drop_last().len() == 0);
        assert((digit_char(n) as u32) == n + 48);
        assert(decimal(n).last() == digit_char(n));
        assert(digits_value(decimal(n).drop_last()) == 0);
        assert(digits_value(decimal(n)) == n);
    } else {
        lemma_decimal_reads_back(n / 10);
        let p = decimal(n / 10);
        let d = digit_char(n % 10);
        assert(decimal(n) == p.push(d));
        assert(decimal(n).drop_last() =~= p);
        assert(decimal(n).last() == d);
        assert((d as u32) == n % 10 + 48);
        assert(decimal(n)[0] == p[0]);
        assert forall|i: int| 0 <= i < decimal(n).len() implies is_digit(#[trigger] decimal(n)[i])
            && decimal(n)[i] != '.' by {
            if i < p.len() {
                assert(decimal(n)[i] == p[i]);
                assert(is_digit(p[i]));
            }
        }
        assert((n / 10) * 10 + n % 10 == n) by (nonlinear_arith);
        assert(digits_value(decimal(n)) == digits_value(p) * 10 + (n % 10));
    }
}

/// `str::parse` reads the decimal text of a number in range as that number.
pub proof fn lemma_parse_decimal(n: nat, signed: bool, lo: int, hi: int)
    requires
        lo <= n <= hi,
    ensures
        parse_integer(decimal(n), signed, lo, hi) == Some(n as int),
{
    lemma_decimal_reads_back(n);
}

/// The first `c` of `a + [c] + rest` is right after `a` when `a` holds
/// no `c`.
pub proof fn lemma_find_after(a: Seq<char>, c: char, rest: Seq<char>)
    requires
        forall|i: int| 0 <= i < a.len() ==> #[trigger] a[i] != c,
    ensures
        find_char(a + seq![c] + rest, c) == a.len(),
        (a + seq![c] + rest).take(a.len() as int) == a,
        (a + seq![c] + rest).skip(a.len() as int + 1) == rest,
{
    let s = a + seq![c] + rest;
    assert forall|j: int| 0 <= j < a.len() implies #[trigger] s[j] != c by {
        assert(s[j] == a[j]);
    }
    assert(s[a.len() as int] == c);
    lemma_find_char_is(s, c, a.len() as int);
    assert(s.take(a.len() as int) =~= a);
    assert(s.skip(a.len() as int + 1) =~= rest);
}

/// Whitespace before a text that starts with something else is exactly
/// what `lead_ws` counts.
pub proof fn lemma_lead_ws_prefix(w: Seq<char>, c: Seq<char>)
    requires
        forall|i: int| 0 <= i < w.len() ==> is_ws(#[trigger] w[i]),
        c.len() > 0,
        !is_ws(c[0]),
    ensures
        lead_ws(w + c) == w.len(),
    decreases w.len(),
{
    if w.len() == 0 {
        assert(w + c =~= c);
    } else {
        assert((w + c)[0] == w[0]);
        assert((w + c).skip(1) =~= w.skip(1) + c);
        assert forall|i: int| 0 <= i < w.skip(1).len() implies is_ws(#[trigger] w.skip(1)[i]) by {
            assert(w.skip(1)[i] == w[i + 1]);
        }
        lemma_lead_ws_prefix(w.skip(1), c);
    }
}

/// Whitespace after a text that ends with something else is exactly what
/// `trail_ws` counts.
pub proof fn lemma_trail_ws_suffix(c: Seq<char>, w: Seq<char>)
    requires
        forall|i: int| 0 <= i < w.len() ==> is_ws(#[trigger] w[i]),
        c.len() > 0,
        !is_ws(c.last()),
    ensures
        trail_ws(c + w) == w.len(),
    decreases w.len(),
{
    if w.len() == 0 {
        assert(c + w =~= c);
    } else {
        assert((c + w).last() == w.last());
        assert((c + w).drop_last() =~= c + w.drop_last());
        assert forall|i: int| 0 <= i < w.drop_last().len() implies is_ws(
            #[trigger] w.drop_last()[i],
        ) by {
            assert(w.drop_last()[i] == w[i]);
        }
        lemma_trail_ws_suffix(c, w.drop_last());
    }
}

/// Trimming a text padded with whitespace on both sides gives the text,
/// when it neither starts nor ends with whitespace.
pub proof fn lemma_trim_padded(w1: Seq<char>, c: Seq<char>, w2: Seq<char>)
    requires
        forall|i: int| 0 <= i < w1.len() ==> is_ws(#[trigger] w1[i]),
        forall|i: int| 0 <= i < w2.len() ==> is_ws(#[trigger] w2[i]),
        c.len() > 0,
        !is_ws(c[0]),
        !is_ws(c.last()),
    ensures
        trim(w1 + c + w2) == c,
{
    let s = w1 + c + w2;
    assert(s =~= w1 + (c + w2));
    assert((c + w2)[0] == c[0]);
    lemma_lead_ws_prefix(w1, c + w2);
    assert(trim_start(s) =~= c + w2);
    lemma_trail_ws_suffix(c, w2);
    assert(trim_end(c + w2) =~= c);
}

/// A text that neither starts nor ends with whitespace is its own trim.
pub proof fn lemma_trim_unchanged(s: Seq<char>)
    requires
        s.len() > 0,
        !is_ws(s[0]),
        !is_ws(s.last()),
    ensures
        trim(s) == s,
{
    assert(lead_ws(s) == 0);
    assert(trim_start(s) =~= s);
    assert(trail_ws(s) == 0);
    assert(trim_end(s) =~= s);
}

/// `String::from_utf8`: `Ok` exactly for well-formed UTF-8, with the
/// decoded characters.
#[verifier::external_body]
pub(crate) fn string_from_utf8(bytes: Vec<u8>) -> (r: Result<String, std::string::FromUtf8Error>)
    ensures
        r is Ok <==> vstd::utf8::valid_utf8(bytes@),
        r matches Ok(s) ==> s@ == vstd::utf8::decode_utf8(bytes@),
{
    String::from_utf8(bytes)
}

/// `l` without one trailing carriage return.
pub open spec fn strip_cr(l: Seq<char>) -> Seq<char> {
    if l.len() > 0 && l.last() == '\r' {
        l.drop_last()
    } else {
        l
    }
}

/// The lines of `s` as `str::lines` yields them: split at `'\n'`, with a
/// `"\r\n"` ending removed, and no empty line after a final line ending.
pub open spec fn lines(s: Seq<char>) -> Seq<Seq<char>>
    decreases s.len(),
{
    if s.len() == 0 {
        seq![]
    } else {
        let k = find_char(s, '\n');
        if k >= s.len() {
            seq![s]
        } else if k < 0 {
            seq![]
        } else {
            seq![strip_cr(s.take(k))] + lines(s.skip(k + 1))
        }
    }
}

/// The next line of `v` starting at `from`: returns the end of its text
/// (before any `"\r\n"`/`"\n"`) and the start of the line after it.
pub fn next_line(v: &Vec<char>, from: usize) -> (r: (usize, usize))
    requires
        from < v.len(),
    ensures
        from <= r.0 <= r.1 <= v.len(),
        r.1 > from,
        lines(v@.skip(from as int)) == seq![v@.subrange(from as int, r.0 as int)] + lines(
            v@.skip(r.1 as int),
        ),
{
    let nl = find_char_from(v, '\n', from);
    let ghost s = v@.skip(from as int);
    proof {
        lemma_find_char(s, '\n');
    }
    if nl == v.len() {
        proof {
            assert(s.len() > 0);
            assert(v@.subrange(from as int, nl as int) =~= s);
            assert(v@.skip(nl as int) =~= Seq::<char>::empty());
            assert(lines(v@.skip(nl as int)) =~= Seq::<Seq<char>>::empty());
            assert(lines(s) =~= seq![s]);
        }
        (nl, nl)
    } else {
        let mut end = nl;
        if end > from && v[end - 1] == '\r' {
            end = end - 1;
        }
        proof {
            let k = nl - from;
            assert(s.skip(k + 1) =~= v@.skip(nl + 1));
            assert(strip_cr(s.take(k)) =~= v@.subrange(from as int, end as int));
        }
        (end, nl + 1)
    }
}

// ---------------------------------------------------------------------------
// Decimal numbers
// ---------------------------------------------------------------------------
/// The ASCII digit of `d` (below ten).
pub open spec fn digit_char(d: nat) -> char {
    ((d + 48) as u32) as char
}

/// The decimal text of `n`, without sign or leading zeros.
pub open spec fn decimal(n: nat) -> Seq<char>
    decreases n,
{
    if n < 10 {
        seq![digit_char(n)]
    } else {
        decimal(n / 10).push(digit_char(n % 10))
    }
}

fn digit_of(d: u64) -> (c: char)
    requires
        d < 10,
    ensures
        c == digit_char(d as nat),
{
    if d == 0 {
        '0'
    } else if d == 1 {
        '1'
    } else if d == 2 {
        '2'
    } else if d == 3 {
        '3'
    } else if d == 4 {
        '4'
    } else if d == 5 {
        '5'
    } else if d == 6 {
        '6'
    } else if d == 7 {
        '7'
    } else if d == 8 {
        '8'
    } else {
        '9'
    }
}

/// The decimal digits of `n`, most significant first.
pub fn decimal_chars(n: u64) -> (v: Vec<char>)
    ensures
        v@ == decimal(n as nat),
{
    let mut m = n;
    let mut digits: Vec<char> = Vec::new();
    loop
        invariant
            decimal(n as nat) == decimal(m as nat) + digits@,
        decreases m,
    {
        if m < 10 {
            let c = digit_of(m);
            digits.insert(0, c);
            assert(decimal(n as nat) =~= digits@);
            return digits;
        }
        let c = digit_of(m % 10);
        digits.insert(0, c);
        assert(decimal(m as nat) == decimal((m / 10) as nat).push(c));
        assert(decimal(n as nat) =~= decimal((m / 10) as nat) + digits@);
        m = m / 10;
    }
}

/// Appends `c` to `s` (`String::push`).
#[verifier::external_body]
pub(crate) fn push_char(s: &mut String, c: char)
    ensures
        final(s)@ == old(s)@.push(c),
{
    s.push(c);
}

/// Appends the characters of `v` to `s`.
pub fn push_chars(s: &mut String, v: &Vec<char>)
    ensures
        final(s)@ == old(s)@ + v@,
{
    let ghost start = s@;
    let mut i: usize = 0;
    while i < v.len()
        invariant
            i <= v.len(),
            s@ == start + v@.take(i as int),
        decreases v.len() - i,
    {
        push_char(s, v[i]);
        assert(v@.take(i + 1) =~= v@.take(i as int).push(v@[i as int]));
        i = i + 1;
    }
    assert(v@.take(v.len() as int) =~= v@);
}

/// Appends the decimal text of `n` to `s`.
pub fn push_decimal(s: &mut String, n: u64)
    ensures
        final(s)@ == old(s)@ + decimal(n as nat),
{
    let v = decimal_chars(n);
    push_chars(s, &v);
}

/// Appends `t` to `s`.
pub fn push_str(s: &mut String, t: &str)
    ensures
        final(s)@ == old(s)@ + t@,
{
    s.append(t);
}

/// The text that `Debug` on `str` gives for `s`: `s` between double
/// quotes, each character as `char::escape_debug` writes it.
pub uninterp spec fn quoted_text(s: Seq<char>) -> Seq<char>;

/// `format!("{:?}", s)`.  Claims that the text depends on the characters
/// of `s` alone.
#[verifier::external_body]
pub(crate) fn debug_quoted(s: &str) -> (r: String)
    ensures
        r@ == quoted_text(s@),
{
    format!("{s:?}")
}

/// A new `String` holding the characters of `t`.
pub fn string_of(t: &str) -> (r: String)
    ensures
        r@ == t@,
{
    let mut r = String::new();
    r.append(t);
    proof {
        assert(r@ =~= t@);
    }
    r
}

// ---------------------------------------------------------------------------
// Reading integers the way `str::parse` does
// ---------------------------------------------------------------------------
pub open spec fn is_digit(c: char) -> bool {
    '0' <= c <= '9'
}

/// Whether every character of `s` is an ASCII digit.
pub open spec fn all_digits(s: Seq<char>) -> bool {
    forall|i: int| 0 <= i < s.len() ==> is_digit(#[trigger] s[i])
}

/// The value of a run of ASCII digits, read in base ten.
pub open spec fn digits_value(s: Seq<char>) -> nat
    decreases s.len(),
{
    if s.len() == 0 {
        0
    } else {
        digits_value(s.drop_last()) * 10 + ((s.last() as u32) - 48) as nat
    }
}

/// The integer that `str::parse` reads from `s` for an integer type whose
/// range is ignored: one or more ASCII digits after an optional `'+'`, or
/// (for a signed type) an optional `'-'`.  `None` for any other text.
pub open spec fn integer_text_value(s: Seq<char>, signed: bool) -> Option<int> {
    if s.len() > 0 && s[0] == '+' {
        if s.len() > 1 && all_digits(s.skip(1)) {
            Some(digits_value(s.skip(1)) as int)
        } else {
            None
        }
    } else if signed && s.len() > 0 && s[0] == '-' {
        if s.len() > 1 && all_digits(s.skip(1)) {
            Some(-(digits_value(s.skip(1)) as int))
        } else {
            None
        }
    } else if s.len() > 0 && all_digits(s) {
        Some(digits_value(s) as int)
    } else {
        None
    }
}

/// What `s.parse::<T>()` gives for an integer type `T` with range
/// `lo..=hi`: the value when the text is well formed and in range.
pub open spec fn parse_integer(s: Seq<char>, signed: bool, lo: int, hi: int) -> Option<int> {
    match integer_text_value(s, signed) {
        Some(v) => if lo <= v <= hi {
            Some(v)
        } else {
            None
        },
        None => None,
    }
}

pub open spec fn parse_u32_spec(s: Seq<char>) -> Option<int> {
    parse_integer(s, false, 0, u32::MAX as int)
}

pub open spec fn parse_usize_spec(s: Seq<char>) -> Option<int> {
    parse_integer(s, false, 0, usize::MAX as int)
}

pub open spec fn parse_i64_spec(s: Seq<char>) -> Option<int> {
    parse_integer(s, true, i64::MIN as int, i64::MAX as int)
}

/// `s.parse::<u32>()`.  As std documents for `from_str_radix`: an optional
/// `'+'` followed by one or more ASCII digits, whose value fits; any other
/// text is an error.
#[verifier::external_body]
pub(crate) fn parse_u32(s: &str) -> (r: Result<u32, std::num::ParseIntError>)
    ensures
        r is Ok <==> parse_u32_spec(s@) is Some,
        r matches Ok(v) ==> v == parse_u32_spec(s@)->0,
{
    s.parse::<u32>()
}

/// `s.parse::<usize>()`.  As std documents for `from_str_radix`: an
/// optional `'+'` followed by one or more ASCII digits, whose value fits.
#[verifier::external_body]
pub(crate) fn parse_usize(s: &str) -> (r: Result<usize, std::num::ParseIntError>)
    ensures
        r is Ok <==> parse_usize_spec(s@) is Some,
        r matches Ok(v) ==> v == parse_usize_spec(s@)->0,
{
    s.parse::<usize>()
}

/// `s.parse::<i64>()`.  As std documents for `from_str_radix`: an optional
/// `'+'` or `'-'` followed by one or more ASCII digits, whose value fits.
#[verifier::external_body]
pub(crate) fn parse_i64(s: &str) -> (r: Result<i64, std::num::ParseIntError>)
    ensures
        r is Ok <==> parse_i64_spec(s@) is Some,
        r matches Ok(v) ==> v == parse_i64_spec(s@)->0,
{
    s.parse::<i64>()
}

} // verus!
