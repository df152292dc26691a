use vstd::prelude::*;
use vstd::string::{StrSliceExecFns, StringExecFns};

verus! {

/// `String::push`: appends one character to the end of the string.
#[verifier::external_body]
pub(crate) fn push_char(s: &mut String, c: char)
    ensures
        final(s)@ == old(s)@.push(c),
{
    s.push(c);
}

/// The characters of a string slice, in order.
pub fn chars_of(s: &str) -> (v: Vec<char>)
    ensures
        v@ == s@,
{
    let mut v: Vec<char> = Vec::new();
    for c in it: s.chars()
        invariant
            v@ == it.seq().take(it.index() as int),
            it.seq() == s@,
    {
        v.push(c);
    }
    v
}

/// Builds a string from a sequence of characters.
pub fn string_of(v: &Vec<char>) -> (s: String)
    ensures
        s@ == v@,
{
    let mut s = String::new();
    let mut i: usize = 0;
    while i < v.len()
        invariant
            i <= v.len(),
            s@ == v@.take(i as int),
        decreases v.len() - i,
    {
        push_char(&mut s, v[i]);
        i = i + 1;
        assert(s@ =~= v@.take(i as int));
    }
    assert(v@.take(v.len() as int) =~= v@);
    s
}

/// Whether two character sequences are equal.
pub fn chars_eq(a: &Vec<char>, b: &Vec<char>) -> (r: bool)
    ensures
        r == (a@ == b@),
{
    if a.len() != b.len() {
        return false;
    }
    let mut i: usize = 0;
    while i < a.len()
        invariant
            a.len() == b.len(),
            i <= a.len(),
            forall|j: int| 0 <= j < i ==> a@[j] == b@[j],
        decreases a.len() - i,
    {
        if a[i] != b[i] {
            return false;
        }
        i = i + 1;
    }
    assert(a@ =~= b@);
    true
}

/// Whether two strings are equal.
pub fn str_eq(a: &str, b: &str) -> (r: bool)
    ensures
        r == (a@ == b@),
{
    let x = chars_of(a);
    let y = chars_of(b);
    chars_eq(&x, &y)
}

/// A copy of a string slice as an owned string.
pub fn owned(a: &str) -> (s: String)
    ensures
        s@ == a@,
{
    let mut s = String::new();
    s.append(a);
    s
}

/// The concatenation of two strings.
pub fn concat(a: &str, b: &str) -> (s: String)
    ensures
        s@ == a@ + b@,
{
    let mut s = String::new();
    s.append(a);
    s.append(b);
    s
}

/// The lower-case form of an ASCII upper-case letter; other characters are
/// unchanged.
pub open spec fn lower_char(c: char) -> char {
    if 'A' <= c && c <= 'Z' {
        ((c as u32) + 32) as char
    } else {
        c
    }
}

/// A string with its ASCII upper-case letters made lower-case.
pub open spec fn ascii_lower(s: Seq<char>) -> Seq<char> {
    s.map_values(|c: char| lower_char(c))
}

/// The upper-case form of an ASCII lower-case letter; other characters are
/// unchanged.
pub open spec fn upper_char(c: char) -> char {
    if 'a' <= c && c <= 'z' {
        ((c as u32) - 32) as char
    } else {
        c
    }
}

/// A string with its ASCII lower-case letters made upper-case.
pub open spec fn ascii_upper(s: Seq<char>) -> Seq<char> {
    s.map_values(|c: char| upper_char(c))
}

/// A character of the ASCII range.
pub open spec fn is_ascii_char(c: char) -> bool {
    (c as u32) < 128
}

/// Every character of a text is in the ASCII range.
pub open spec fn ascii_text(s: Seq<char>) -> bool {
    forall|i: int| 0 <= i < s.len() ==> #[trigger] is_ascii_char(s[i])
}

/// An ASCII letter or digit.
pub open spec fn ascii_alnum(c: char) -> bool {
    ('a' <= c && c <= 'z') || ('A' <= c && c <= 'Z') || ('0' <= c && c <= '9')
}

pub fn to_lower_char(c: char) -> (r: char)
    ensures
        r == lower_char(c),
{
    if 'A' <= c && c <= 'Z' {
        let u = (c as u32 + 32) as u8;
        u as char
    } else {
        c
    }
}

/// The string with its ASCII upper-case letters made lower-case.
pub fn lowercase_ascii(s: &str) -> (r: String)
    ensures
        r@ == ascii_lower(s@),
{
    let v = chars_of(s);
    let mut out = String::new();
    let mut i: usize = 0;
    while i < v.len()
        invariant
            i <= v.len(),
            v@ == s@,
            out@ == ascii_lower(s@).take(i as int),
        decreases v.len() - i,
    {
        push_char(&mut out, to_lower_char(v[i]));
        i = i + 1;
        assert(out@ =~= ascii_lower(s@).take(i as int));
    }
    assert(ascii_lower(s@).take(i as int) =~= ascii_lower(s@));
    out
}

/// The Unicode `White_Space` characters, which `char::is_whitespace`
/// recognises.
pub open spec fn is_white(c: char) -> bool {
    let u = c as u32;
    (0x09 <= u <= 0x0d) || u == 0x20 || u == 0x85 || u == 0xa0 || u == 0x1680 || (0x2000 <= u
        <= 0x200a) || u == 0x2028 || u == 0x2029 || u == 0x202f || u == 0x205f || u == 0x3000
}

pub fn is_whitespace(c: char) -> (r: bool)
    ensures
        r == is_white(c),
{
    let u = c as u32;
    (0x09 <= u && u <= 0x0d) || u == 0x20 || u == 0x85 || u == 0xa0 || u == 0x1680 || (0x2000 <= u
        && u <= 0x200a) || u == 0x2028 || u == 0x2029 || u == 0x202f || u == 0x205f || u == 0x3000
}

/// The string without its leading white space.
pub open spec fn trim_start(s: Seq<char>) -> Seq<char>
    decreases s.len(),
{
    if s.len() > 0 && is_white(s[0]) {
        trim_start(s.drop_first())
    } else {
        s
    }
}

/// The string without its trailing white space.
pub open spec fn trim_end(s: Seq<char>) -> Seq<char>
    decreases s.len(),
{
    if s.len() > 0 && is_white(s.last()) {
        trim_end(s.drop_last())
    } else {
        s
    }
}

/// `str::trim`: the string without leading and trailing white space.
pub open spec fn trim(s: Seq<char>) -> Seq<char> {
    trim_end(trim_start(s))
}

proof fn lemma_trim_start_first(s: Seq<char>)
    ensures
        trim_start(s).len() > 0 ==> !is_white(trim_start(s)[0]),
    decreases s.len(),
{
    if s.len() > 0 && is_white(s[0]) {
        lemma_trim_start_first(s.drop_first());
    }
}

proof fn lemma_trim_end_prefix(s: Seq<char>)
    ensures
        trim_end(s).len() <= s.len(),
        trim_end(s) == s.take(trim_end(s).len() as int),
        trim_end(s).len() > 0 ==> !is_white(trim_end(s).last()),
    decreases s.len(),
{
    if s.len() > 0 && is_white(s.last()) {
        lemma_trim_end_prefix(s.drop_last());
        assert(s.drop_last().take(trim_end(s).len() as int) =~= s.take(trim_end(s).len() as int));
    } else {
        assert(s.take(s.len() as int) =~= s);
    }
}

/// A trimmed text neither starts nor ends with white space, and trimming it
/// again leaves it as it is.
pub proof fn lemma_trim_edges(s: Seq<char>)
    ensures
        trim(s).len() > 0 ==> !is_white(trim(s)[0]) && !is_white(trim(s).last()),
        trim(trim(s)) == trim(s),
{
    let y = trim_start(s);
    lemma_trim_start_first(s);
    lemma_trim_end_prefix(y);
    let t = trim(s);
    if t.len() > 0 {
        assert(t[0] == y[0]);
        assert(trim_start(t) == t);
        assert(trim_end(t) == t);
    } else {
        assert(trim_start(t) == t);
        assert(trim_end(t) == t);
    }
}

proof fn lemma_trim_start(s: Seq<char>, i: int)
    requires
        0 <= i <= s.len(),
        forall|j: int| 0 <= j < i ==> is_white(#[trigger] s[j]),
        i == s.len() || !is_white(s[i]),
    ensures
        trim_start(s) == s.subrange(i, s.len() as int),
    decreases i,
{
    if i > 0 {
        let r = s.drop_first();
        assert forall|j: int| 0 <= j < i - 1 implies is_white(#[trigger] r[j]) by {
            assert(r[j] == s[j + 1]);
        }
        lemma_trim_start(r, i - 1);
        assert(r.subrange(i - 1, r.len() as int) =~= s.subrange(i, s.len() as int));
    } else {
        assert(s.subrange(0, s.len() as int) =~= s);
    }
}

proof fn lemma_trim_end(s: Seq<char>, k: int)
    requires
        0 <= k <= s.len(),
        forall|j: int| k <= j < s.len() ==> is_white(#[trigger] s[j]),
        k == 0 || !is_white(s[k - 1]),
    ensures
        trim_end(s) == s.subrange(0, k),
    decreases s.len() - k,
{
    if k < s.len() {
        let r = s.drop_last();
        assert forall|j: int| k <= j < r.len() implies is_white(#[trigger] r[j]) by {
            assert(r[j] == s[j]);
        }
        lemma_trim_end(r, k);
        assert(r.subrange(0, k) =~= s.subrange(0, k));
    } else {
        assert(s.subrange(0, k) =~= s);
    }
}

/// The characters of `v` from `start` up to `end`, as a string.
pub fn substring(v: &Vec<char>, start: usize, end: usize) -> (r: String)
    requires
        start <= end <= v.len(),
    ensures
        r@ == v@.subrange(start as int, end as int),
{
    let mut out = String::new();
    let mut i = start;
    while i < end
        invariant
            start <= i <= end,
            end <= v.len(),
            out@ == v@.subrange(start as int, i as int),
        decreases end - i,
    {
        push_char(&mut out, v[i]);
        i = i + 1;
        assert(out@ =~= v@.subrange(start as int, i as int));
    }
    out
}

/// The characters of `v` from `start` up to `end`.
pub fn slice_vec(v: &Vec<char>, start: usize, end: usize) -> (r: Vec<char>)
    requires
        start <= end <= v.len(),
    ensures
        r@ == v@.subrange(start as int, end as int),
{
    let mut out: Vec<char> = Vec::new();
    let mut i = start;
    while i < end
        invariant
            start <= i <= end,
            end <= v.len(),
            out@ == v@.subrange(start as int, i as int),
        decreases end - i,
    {
        out.push(v[i]);
        i = i + 1;
        assert(out@ =~= v@.subrange(start as int, i as int));
    }
    out
}

/// `str::trim` on a sequence of characters.
pub fn trim_vec(v: &Vec<char>) -> (r: Vec<char>)
    ensures
        r@ == trim(v@),
{
    let mut i: usize = 0;
    while i < v.len() && is_whitespace(v[i])
        invariant
            i <= v.len(),
            forall|j: int| 0 <= j < i ==> is_white(#[trigger] v@[j]),
        decreases v.len() - i,
    {
        i = i + 1;
    }
    proof {
        lemma_trim_start(v@, i as int);
    }
    let ghost t = v@.subrange(i as int, v@.len() as int);
    let mut k: usize = v.len();
    while k > i && is_whitespace(v[k - 1])
        invariant
            i <= k <= v.len(),
            t == v@.subrange(i as int, v@.len() as int),
            forall|j: int| k <= j < v.len() ==> is_white(#[trigger] v@[j]),
        decreases k,
    {
        k = k - 1;
    }
    proof {
        assert forall|j: int| (k - i) <= j < t.len() implies is_white(#[trigger] t[j]) by {
            assert(t[j] == v@[j + i]);
        }
        if k > i {
            assert(t[k - i - 1] == v@[k - 1]);
        }
        lemma_trim_end(t, k - i);
        assert(t.subrange(0, k - i) =~= v@.subrange(i as int, k as int));
    }
    slice_vec(v, i, k)
}

/// `str::trim`
pub fn trim_str(s: &str) -> (r: String)
    ensures
        r@ == trim(s@),
{
    let v = chars_of(s);
    let t = trim_vec(&v);
    string_of(&t)
}

/// `s` starts with `prefix`.
pub open spec fn starts_with(s: Seq<char>, prefix: Seq<char>) -> bool {
    prefix.len() <= s.len() && s.subrange(0, prefix.len() as int) == prefix
}

/// `s` holds `needle` at position `i`.
pub open spec fn occurs_at(s: Seq<char>, needle: Seq<char>, i: int) -> bool {
    0 <= i && i + needle.len() <= s.len() && s.subrange(i, i + needle.len()) == needle
}

/// `s` holds `needle` somewhere.
pub open spec fn contains(s: Seq<char>, needle: Seq<char>) -> bool {
    exists|i: int| occurs_at(s, needle, i)
}

/// Whether `needle` occurs in `v` at position `i`.
pub fn occurs_at_exec(v: &Vec<char>, needle: &Vec<char>, i: usize) -> (r: bool)
    ensures
        r == occurs_at(v@, needle@, i as int),
{
    if needle.len() > v.len() || i > v.len() - needle.len() {
        return false;
    }
    let mut j: usize = 0;
    while j < needle.len()
        invariant
            j <= needle.len(),
            i + needle.len() <= v.len(),
            forall|m: int| 0 <= m < j ==> v@[i + m] == needle@[m],
        decreases needle.len() - j,
    {
        if v[i + j] != needle[j] {
            assert(v@.subrange(i as int, i + needle@.len())[j as int] != needle@[j as int]);
            return false;
        }
        j = j + 1;
    }
    assert(v@.subrange(i as int, i + needle@.len()) =~= needle@);
    true
}

/// `str::starts_with`
pub fn starts_with_str(s: &str, prefix: &str) -> (r: bool)
    ensures
        r == starts_with(s@, prefix@),
{
    let v = chars_of(s);
    let p = chars_of(prefix);
    occurs_at_exec(&v, &p, 0)
}

/// The first position at which `needle` occurs in `v`, if any.
pub fn find_exec(v: &Vec<char>, needle: &Vec<char>) -> (r: Option<usize>)
    ensures
        r matches Some(i) ==> occurs_at(v@, needle@, i as int) && forall|j: int|
            0 <= j < i ==> !#[trigger] occurs_at(v@, needle@, j),
        r is None ==> !contains(v@, needle@),
{
    let mut i: usize = 0;
    while i < v.len()
        invariant
            i <= v.len(),
            forall|j: int| 0 <= j < i ==> !#[trigger] occurs_at(v@, needle@, j),
        decreases v.len() - i,
    {
        if occurs_at_exec(v, needle, i) {
            return Some(i);
        }
        i = i + 1;
    }
    if occurs_at_exec(v, needle, i) {
        return Some(i);
    }
    assert forall|j: int| !occurs_at(v@, needle@, j) by {
        if 0 <= j < i {
        }
    }
    None
}

/// `str::contains`
pub fn contains_str(s: &str, needle: &str) -> (r: bool)
    ensures
        r == contains(s@, needle@),
{
    let v = chars_of(s);
    let n = chars_of(needle);
    match find_exec(&v, &n) {
        Some(_) => true,
        None => false,
    }
}

/// The character of a decimal digit.
pub open spec fn digit_char(d: nat) -> char {
    ((48 + d) as u8) as char
}

/// The decimal numeral of `n`, as `Display` prints an unsigned integer.
pub open spec fn decimal(n: nat) -> Seq<char>
    decreases n,
{
    if n < 10 {
        seq![digit_char(n)]
    } else {
        decimal(n / 10).push(digit_char(n % 10))
    }
}

/// Appends the decimal numeral of `n`.
pub fn push_decimal(s: &mut String, n: u64)
    ensures
        final(s)@ == old(s)@ + decimal(n as nat),
    decreases n,
{
    if n >= 10 {
        push_decimal(s, n / 10);
    }
    let d = (n % 10) as u8;
    push_char(s, (48u8 + d) as char);
    proof {
        if n >= 10 {
            assert(old(s)@ + decimal(n as nat) =~= old(s)@ + decimal((n / 10) as nat) + seq![
                digit_char((n % 10) as nat),
            ]);
        } else {
            assert(old(s)@ + decimal(n as nat) =~= old(s)@.push(digit_char(n as nat)));
        }
    }
}

/// The decimal numeral of `n`.
pub fn u64_to_string(n: u64) -> (r: String)
    ensures
        r@ == decimal(n as nat),
{
    let mut s = String::new();
    push_decimal(&mut s, n);
    assert(s@ =~= decimal(n as nat));
    s
}


/// The complete lines of a text, and the unfinished rest after the last
/// line feed.
pub open spec fn frames(b: Seq<char>) -> (Seq<Seq<char>>, Seq<char>)
    decreases b.len(),
{
    if b.len() == 0 {
        (Seq::empty(), Seq::empty())
    } else {
        let (ls, cur) = frames(b.drop_last());
        if b.last() == '\n' {
            (ls.push(cur), Seq::empty())
        } else {
            (ls, cur.push(b.last()))
        }
    }
}

/// A line without the carriage return that ended it, if any.
pub open spec fn strip_cr(l: Seq<char>) -> Seq<char> {
    if l.len() > 0 && l.last() == '\r' {
        l.drop_last()
    } else {
        l
    }
}

/// `str::lines`: the lines of a text, each without its `\n` or `\r\n`;
/// the last line needs no line feed, and a text ending in one has no empty
/// last line.
pub open spec fn str_lines(s: Seq<char>) -> Seq<Seq<char>> {
    let (ls, rest) = frames(s);
    let complete = ls.map_values(|l: Seq<char>| strip_cr(l));
    if rest.len() == 0 {
        complete
    } else {
        complete.push(rest)
    }
}

/// The pieces joined, with `sep` between each two.
pub open spec fn join_with(pieces: Seq<Seq<char>>, sep: Seq<char>) -> Seq<char>
    decreases pieces.len(),
{
    if pieces.len() == 0 {
        Seq::empty()
    } else if pieces.len() == 1 {
        pieces[0]
    } else {
        join_with(pieces.drop_last(), sep) + sep + pieces.last()
    }
}

/// The characters of `v` up to `end`, without a final carriage return.
fn line_before(v: &Vec<char>, start: usize, end: usize) -> (r: String)
    requires
        start <= end <= v.len(),
    ensures
        r@ == strip_cr(v@.subrange(start as int, end as int)),
{
    if end > start && v[end - 1] == '\r' {
        let r = substring(v, start, end - 1);
        assert(v@.subrange(start as int, end as int).drop_last() =~= v@.subrange(
            start as int,
            end - 1,
        ));
        r
    } else {
        substring(v, start, end)
    }
}

/// `str::lines`, collected.
pub fn lines_of(s: &str) -> (r: Vec<String>)
    ensures
        r@.map_values(|l: String| l@) == str_lines(s@),
{
    let v = chars_of(s);
    let mut out: Vec<String> = Vec::new();
    let mut start: usize = 0;
    let mut i: usize = 0;
    while i < v.len()
        invariant
            start <= i <= v.len(),
            v@ == s@,
            out@.map_values(|l: String| l@) == frames(v@.take(i as int)).0.map_values(
                |l: Seq<char>| strip_cr(l),
            ),
            frames(v@.take(i as int)).1 == v@.subrange(start as int, i as int),
        decreases v.len() - i,
    {
        let ghost pre = v@.take(i as int);
        assert(v@.take(i + 1).drop_last() =~= pre);
        assert(v@.take(i + 1).last() == v@[i as int]);
        if v[i] == '\n' {
            let l = line_before(&v, start, i);
            let ghost before = out@;
            out.push(l);
            proof {
                let fl = frames(pre).0;
                assert(out@.map_values(|l: String| l@) =~= before.map_values(|l: String| l@).push(
                    strip_cr(v@.subrange(start as int, i as int)),
                ));
                assert(fl.push(v@.subrange(start as int, i as int)).map_values(
                    |l: Seq<char>| strip_cr(l),
                ) =~= fl.map_values(|l: Seq<char>| strip_cr(l)).push(
                    strip_cr(v@.subrange(start as int, i as int)),
                ));
            }
            start = i + 1;
            i = i + 1;
            assert(v@.subrange(start as int, i as int) =~= Seq::<char>::empty());
        } else {
            i = i + 1;
            assert(v@.subrange(start as int, i as int) =~= v@.subrange(start as int, i - 1).push(
                v@[i - 1],
            ));
        }
    }
    assert(v@.take(i as int) =~= v@);
    if start < v.len() {
        let rest = substring(&v, start, v.len());
        let ghost before = out@;
        out.push(rest);
        assert(out@.map_values(|l: String| l@) =~= before.map_values(|l: String| l@).push(
            v@.subrange(start as int, v@.len() as int),
        ));
    }
    out
}

/// The strings joined, with `sep` between each two.
pub fn join_strings(pieces: &Vec<String>, sep: &str) -> (r: String)
    ensures
        r@ == join_with(pieces@.map_values(|l: String| l@), sep@),
{
    let ghost ps = pieces@.map_values(|l: String| l@);
    let mut out = String::new();
    let mut i: usize = 0;
    while i < pieces.len()
        invariant
            i <= pieces@.len(),
            ps == pieces@.map_values(|l: String| l@),
            out@ == join_with(ps.take(i as int), sep@),
        decreases pieces.len() - i,
    {
        if i > 0 {
            out.append(sep);
        }
        out.append(pieces[i].as_str());
        proof {
            let t = ps.take(i + 1);
            assert(t.drop_last() =~= ps.take(i as int));
            assert(t.last() == pieces@[i as int]@);
            if i == 0 {
                assert(t.len() == 1);
            }
        }
        i = i + 1;
    }
    assert(ps.take(i as int) =~= ps);
    out
}


/// The number of bytes of a character in UTF-8.
pub open spec fn char_utf8_len(c: char) -> nat {
    let u = c as u32;
    if u < 0x80 {
        1
    } else if u < 0x800 {
        2
    } else if u < 0x10000 {
        3
    } else {
        4
    }
}

/// The number of bytes of a text in UTF-8, which `str::len` gives.
pub open spec fn utf8_len(s: Seq<char>) -> nat
    decreases s.len(),
{
    if s.len() == 0 {
        0
    } else {
        utf8_len(s.drop_last()) + char_utf8_len(s.last())
    }
}

/// Byte `b` of the UTF-8 form of `s` starts a character (or is its end).
pub open spec fn is_char_boundary(s: Seq<char>, b: nat) -> bool {
    exists|k: int| 0 <= k <= s.len() && #[trigger] utf8_len(s.take(k)) == b
}

pub fn char_len_utf8(c: char) -> (r: usize)
    ensures
        r == char_utf8_len(c),
{
    let u = c as u32;
    if u < 0x80 {
        1
    } else if u < 0x800 {
        2
    } else if u < 0x10000 {
        3
    } else {
        4
    }
}

/// The UTF-8 length grows with the prefix taken.
pub proof fn lemma_utf8_len_prefix(s: Seq<char>, i: int, j: int)
    requires
        0 <= i <= j <= s.len(),
    ensures
        utf8_len(s.take(i)) + (j - i) <= utf8_len(s.take(j)),
    decreases j - i,
{
    if i < j {
        lemma_utf8_len_prefix(s, i, j - 1);
        assert(s.take(j).drop_last() =~= s.take(j - 1));
    }
}

/// The number of characters of `v` whose UTF-8 form takes up the first `b`
/// bytes.
pub fn chars_before_byte(v: &Vec<char>, b: usize) -> (k: usize)
    requires
        is_char_boundary(v@, b as nat),
    ensures
        k <= v@.len(),
        utf8_len(v@.take(k as int)) == b,
{
    let ghost target = choose|k: int| 0 <= k <= v@.len() && #[trigger] utf8_len(v@.take(k)) == b;
    let n = v.len();
    let mut k: usize = 0;
    let mut acc: usize = 0;
    while acc < b
        invariant
            n == v@.len(),
            k <= v@.len(),
            0 <= target <= v@.len(),
            utf8_len(v@.take(target)) == b,
            acc == utf8_len(v@.take(k as int)),
            acc <= b,
            k <= target,
        decreases b - acc,
    {
        proof {
            if k == target {
                assert(false);
            }
            lemma_utf8_len_prefix(v@, k as int + 1, target);
            assert(v@.take(k + 1).drop_last() =~= v@.take(k as int));
        }
        acc = acc + char_len_utf8(v[k]);
        k = k + 1;
        proof {
            if k > target {
                lemma_utf8_len_prefix(v@, target, k as int);
            }
        }
    }
    proof {
        if k < target {
            lemma_utf8_len_prefix(v@, k as int, target);
        }
    }
    k
}

/// The number of UTF-8 bytes of a text.
pub fn utf8_len_of(v: &Vec<char>) -> (r: usize)
    requires
        utf8_len(v@) <= usize::MAX,
    ensures
        r == utf8_len(v@),
{
    let mut acc: usize = 0;
    let mut i: usize = 0;
    while i < v.len()
        invariant
            i <= v@.len(),
            acc == utf8_len(v@.take(i as int)),
            utf8_len(v@) <= usize::MAX,
        decreases v.len() - i,
    {
        proof {
            lemma_utf8_len_prefix(v@, i as int + 1, v@.len() as int);
            assert(v@.take(v@.len() as int) =~= v@);
            assert(v@.take(i + 1).drop_last() =~= v@.take(i as int));
        }
        acc = acc + char_len_utf8(v[i]);
        i = i + 1;
    }
    assert(v@.take(i as int) =~= v@);
    acc
}

/// The text padded with spaces up to `width` characters, as `{:width}`
/// formats a string.
pub open spec fn pad_to(s: Seq<char>, width: nat) -> Seq<char> {
    if s.len() < width {
        s + Seq::new((width - s.len()) as nat, |i: int| ' ')
    } else {
        s
    }
}

pub fn pad_string(s: &str, width: usize) -> (r: String)
    ensures
        r@ == pad_to(s@, width as nat),
{
    let mut out = owned(s);
    let n = s.unicode_len();
    let mut i = n;
    while i < width
        invariant
            n == s@.len(),
            n <= i <= width || (i == n && n >= width),
            out@ == s@ + Seq::new((i - n) as nat, |j: int| ' '),
        decreases width - i,
    {
        push_char(&mut out, ' ');
        i = i + 1;
        assert(out@ =~= s@ + Seq::new((i - n) as nat, |j: int| ' '));
    }
    proof {
        if n >= width {
            assert(out@ =~= s@);
        }
    }
    out
}


/// Whether byte `b` lies inside the UTF-8 form of `v`.
pub fn byte_within(v: &Vec<char>, b: usize) -> (r: bool)
    ensures
        r == (b < utf8_len(v@)),
{
    let mut acc: usize = 0;
    let mut i: usize = 0;
    while i < v.len()
        invariant
            i <= v@.len(),
            acc == utf8_len(v@.take(i as int)),
            acc <= b,
        decreases v.len() - i,
    {
        let l = char_len_utf8(v[i]);
        proof {
            assert(v@.take(i + 1).drop_last() =~= v@.take(i as int));
            lemma_utf8_len_prefix(v@, i as int + 1, v@.len() as int);
            assert(v@.take(v@.len() as int) =~= v@);
        }
        if l > b - acc {
            return true;
        }
        acc = acc + l;
        i = i + 1;
    }
    assert(v@.take(i as int) =~= v@);
    false
}


/// What `str::to_uppercase` gives for a text: each character replaced by
/// its Unicode upper-case mapping.
pub uninterp spec fn upper_text(s: Seq<char>) -> Seq<char>;

/// What `str::to_lowercase` gives for a text: each character replaced by
/// its Unicode lower-case mapping (with the final-sigma rule).
pub uninterp spec fn lower_text(s: Seq<char>) -> Seq<char>;

/// `str::to_uppercase`. The result is named by [`upper_text`]; of an ASCII
/// text it is stated that only the letters `a`-`z` change, to `A`-`Z`
/// (the Unicode mapping of the ASCII range). Nothing more is stated.
#[verifier::external_body]
pub(crate) fn to_uppercase(s: &str) -> (r: String)
    ensures
        r@ == upper_text(s@),
        ascii_text(s@) ==> r@ == ascii_upper(s@),
{
    s.to_uppercase()
}

/// `str::to_lowercase`. The result is named by [`lower_text`]; of an ASCII
/// text it is stated that only the letters `A`-`Z` change, to `a`-`z`
/// (the Unicode mapping of the ASCII range). Nothing more is stated.
#[verifier::external_body]
pub(crate) fn to_lowercase(s: &str) -> (r: String)
    ensures
        r@ == lower_text(s@),
        ascii_text(s@) ==> r@ == ascii_lower(s@),
{
    s.to_lowercase()
}


/// The first position at which `needle` occurs in `s` (where it occurs).
pub open spec fn first_index(s: Seq<char>, needle: Seq<char>) -> int {
    choose|i: int| occurs_at(s, needle, i) && forall|j: int| 0 <= j < i ==> !#[trigger] occurs_at(s, needle, j)
}

/// The position `find_exec` reports is the first one.
pub proof fn lemma_first_index(s: Seq<char>, needle: Seq<char>, i: int)
    requires
        occurs_at(s, needle, i),
        forall|j: int| 0 <= j < i ==> !#[trigger] occurs_at(s, needle, j),
    ensures
        first_index(s, needle) == i,
{
    let f = first_index(s, needle);
    assert(occurs_at(s, needle, f) && forall|j: int| 0 <= j < f ==> !#[trigger] occurs_at(s, needle, j));
    if f < i {
        assert(!occurs_at(s, needle, f));
    }
    if f > i {
        assert(!occurs_at(s, needle, i));
    }
}

/// The number of non-overlapping occurrences of `pat` in `s`, found from
/// the left: what `str::matches(..).count()` gives. The empty pattern
/// matches at each of the `s.len() + 1` character boundaries.
pub open spec fn count_matches(s: Seq<char>, pat: Seq<char>) -> nat
    decreases s.len(),
{
    if pat.len() == 0 {
        s.len() + 1
    } else if s.len() == 0 {
        0
    } else if starts_with(s, pat) {
        1 + count_matches(s.skip(pat.len() as int), pat)
    } else {
        count_matches(s.drop_first(), pat)
    }
}

/// `str::matches(pat).count()` for a non-empty pattern.
pub fn count_matches_exec(v: &Vec<char>, pat: &Vec<char>) -> (r: usize)
    requires
        pat@.len() > 0,
    ensures
        r == count_matches(v@, pat@),
{
    let mut count: usize = 0;
    let mut i: usize = 0;
    assert(v@.skip(0) =~= v@);
    while i < v.len()
        invariant
            i <= v@.len(),
            pat@.len() > 0,
            count <= i,
            count + count_matches(v@.skip(i as int), pat@) == count_matches(v@, pat@),
        decreases v.len() - i,
    {
        let ghost rest = v@.skip(i as int);
        assert(rest.len() > 0);
        if occurs_at_exec(v, pat, i) {
            proof {
                assert(rest.subrange(0, pat@.len() as int) =~= v@.subrange(
                    i as int,
                    i + pat@.len(),
                ));
                assert(rest.skip(pat@.len() as int) =~= v@.skip(i + pat@.len()));
            }
            count = count + 1;
            i = i + pat.len();
        } else {
            proof {
                if pat@.len() <= rest.len() {
                    assert(rest.subrange(0, pat@.len() as int) =~= v@.subrange(
                        i as int,
                        i + pat@.len(),
                    ));
                }
                assert(rest.drop_first() =~= v@.skip(i + 1));
            }
            i = i + 1;
        }
    }
    assert(v@.skip(i as int).len() == 0);
    count
}

/// The text without the `c` characters at its end.
pub open spec fn trim_end_char(s: Seq<char>, c: char) -> Seq<char>
    decreases s.len(),
{
    if s.len() > 0 && s.last() == c {
        trim_end_char(s.drop_last(), c)
    } else {
        s
    }
}

/// `str::trim_end_matches` with a character.
pub fn trim_end_char_exec(v: &Vec<char>, c: char) -> (r: Vec<char>)
    ensures
        r@ == trim_end_char(v@, c),
{
    let mut k: usize = v.len();
    assert(v@.take(k as int) =~= v@);
    while k > 0 && v[k - 1] == c
        invariant
            k <= v@.len(),
            trim_end_char(v@.take(k as int), c) == trim_end_char(v@, c),
        decreases k,
    {
        let ghost t = v@.take(k as int);
        assert(t.drop_last() =~= v@.take(k - 1));
        assert(t.last() == c);
        k = k - 1;
    }
    let r = slice_vec(v, 0, k);
    assert(r@ =~= v@.take(k as int));
    r
}

/// The pieces of a path that name something: those between `/` that are
/// neither empty nor `.` (a path's repeated, leading and trailing
/// separators, and its `.` components, name nothing).
pub open spec fn kept_components(pieces: Seq<Seq<char>>) -> Seq<Seq<char>>
    decreases pieces.len(),
{
    if pieces.len() == 0 {
        Seq::empty()
    } else {
        let rest = kept_components(pieces.drop_last());
        let p = pieces.last();
        if p.len() == 0 || p == "."@ {
            rest
        } else {
            rest.push(p)
        }
    }
}

/// The file name of a path, as `Path::file_name` gives it on Unix: its last
/// component, unless there is none or it is `..`.
pub open spec fn file_name_of(path: Seq<char>) -> Option<Seq<char>> {
    let k = kept_components(split_at_char(path, '/'));
    if k.len() == 0 || k.last() == ".."@ {
        None
    } else {
        Some(k.last())
    }
}

/// The file name of a path given as text: `Path::file_name`.
pub(crate) fn path_file_name(path: &str) -> (r: Option<String>)
    ensures
        match file_name_of(path@) {
            Some(n) => r matches Some(s) && s@ == n,
            None => r is None,
        },
{
    proof {
        reveal_strlit(".");
        reveal_strlit("..");
    }
    let pieces = split_char(path, '/');
    let ghost pv = pieces@.map_values(|w: Vec<char>| w@);
    let mut last: Option<usize> = None;
    let mut i: usize = 0;
    while i < pieces.len()
        invariant
            i <= pieces@.len(),
            pv == pieces@.map_values(|w: Vec<char>| w@),
            pv == split_at_char(path@, '/'),
            "."@ == seq!['.'],
            match last {
                None => kept_components(pv.take(i as int)).len() == 0,
                Some(j) => j < i && kept_components(pv.take(i as int)).len() > 0
                    && kept_components(pv.take(i as int)).last() == pieces@[j as int]@,
            },
        decreases pieces.len() - i,
    {
        assert(pv.take(i + 1).drop_last() =~= pv.take(i as int));
        assert(pv.take(i + 1).last() == pieces@[i as int]@);
        let p = &pieces[i];
        let dot = p.len() == 1 && p[0] == '.';
        proof {
            if p@ == "."@ {
                assert(p@.len() == 1 && p@[0] == '.');
            }
            if dot {
                assert(p@ =~= "."@);
            }
        }
        if p.len() > 0 && !dot {
            last = Some(i);
        }
        i = i + 1;
    }
    assert(pv.take(i as int) =~= pv);
    match last {
        None => None,
        Some(j) => {
            let w = &pieces[j];
            let dots = w.len() == 2 && w[0] == '.' && w[1] == '.';
            proof {
                if w@ == ".."@ {
                    assert(w@.len() == 2 && w@[0] == '.' && w@[1] == '.');
                }
                if dots {
                    assert(w@ =~= ".."@);
                }
            }
            if dots {
                None
            } else {
                Some(string_of(w))
            }
        },
    }
}


/// A pattern that matches somewhere occurs somewhere.
pub proof fn lemma_count_implies_contains(s: Seq<char>, pat: Seq<char>)
    requires
        count_matches(s, pat) > 0,
    ensures
        contains(s, pat),
    decreases s.len(),
{
    if pat.len() == 0 {
        assert(s.subrange(0, 0) =~= pat);
        assert(occurs_at(s, pat, 0));
    } else if starts_with(s, pat) {
        assert(occurs_at(s, pat, 0));
    } else {
        lemma_count_implies_contains(s.drop_first(), pat);
        let i = choose|i: int| occurs_at(s.drop_first(), pat, i);
        assert(s.subrange(i + 1, i + 1 + pat.len()) =~= s.drop_first().subrange(i, i + pat.len()));
        assert(occurs_at(s, pat, i + 1));
    }
}


/// `s` with each non-overlapping occurrence of a non-empty `pat`, found from
/// the left, replaced by `rep`: what `str::replace` gives.
pub open spec fn replace_all(s: Seq<char>, pat: Seq<char>, rep: Seq<char>) -> Seq<char>
    decreases s.len(),
{
    if pat.len() == 0 || s.len() == 0 {
        s
    } else if starts_with(s, pat) {
        rep + replace_all(s.skip(pat.len() as int), pat, rep)
    } else {
        seq![s[0]] + replace_all(s.drop_first(), pat, rep)
    }
}

/// `str::replace` with a non-empty pattern.
pub fn replace_str(s: &str, pat: &str, rep: &str) -> (r: String)
    requires
        pat@.len() > 0,
    ensures
        r@ == replace_all(s@, pat@, rep@),
{
    let v = chars_of(s);
    let p = chars_of(pat);
    let mut out = String::new();
    let mut i: usize = 0;
    assert(v@.skip(0) =~= v@);
    while i < v.len()
        invariant
            i <= v@.len(),
            v@ == s@,
            p@ == pat@,
            p@.len() > 0,
            out@ + replace_all(v@.skip(i as int), p@, rep@) == replace_all(s@, pat@, rep@),
        decreases v.len() - i,
    {
        let ghost rest = v@.skip(i as int);
        if occurs_at_exec(&v, &p, i) {
            proof {
                assert(rest.subrange(0, p@.len() as int) =~= v@.subrange(i as int, i + p@.len()));
                assert(rest.skip(p@.len() as int) =~= v@.skip(i + p@.len()));
            }
            out.append(rep);
            i = i + p.len();
        } else {
            proof {
                if p@.len() <= rest.len() {
                    assert(rest.subrange(0, p@.len() as int) =~= v@.subrange(
                        i as int,
                        i + p@.len(),
                    ));
                }
                assert(rest.drop_first() =~= v@.skip(i + 1));
                assert(rest[0] == v@[i as int]);
            }
            let ghost before = out@;
            push_char(&mut out, v[i]);
            assert(out@ + replace_all(v@.skip(i + 1), p@, rep@) =~= before + (seq![v@[i as int]]
                + replace_all(rest.drop_first(), p@, rep@)));
            i = i + 1;
        }
    }
    assert(v@.skip(i as int).len() == 0);
    assert(out@ + replace_all(v@.skip(i as int), p@, rep@) =~= out@);
    out
}

/// The words of a text and the unfinished word at its end.
pub open spec fn word_state(s: Seq<char>) -> (Seq<Seq<char>>, Seq<char>)
    decreases s.len(),
{
    if s.len() == 0 {
        (Seq::empty(), Seq::empty())
    } else {
        let (ws, cur) = word_state(s.drop_last());
        if is_white(s.last()) {
            if cur.len() > 0 {
                (ws.push(cur), Seq::empty())
            } else {
                (ws, Seq::empty())
            }
        } else {
            (ws, cur.push(s.last()))
        }
    }
}

/// `str::split_whitespace`: the maximal runs of characters other than
/// white space.
pub open spec fn words(s: Seq<char>) -> Seq<Seq<char>> {
    let (ws, cur) = word_state(s);
    if cur.len() > 0 {
        ws.push(cur)
    } else {
        ws
    }
}

proof fn lemma_word_state_ascii(s: Seq<char>)
    requires
        ascii_text(s),
    ensures
        ascii_text(word_state(s).1),
        forall|i: int|
            0 <= i < word_state(s).0.len() ==> ascii_text(#[trigger] word_state(s).0[i]),
    decreases s.len(),
{
    if s.len() > 0 {
        let d = s.drop_last();
        assert forall|i: int| 0 <= i < d.len() implies #[trigger] is_ascii_char(d[i]) by {
            assert(d[i] == s[i]);
        }
        lemma_word_state_ascii(d);
        let (ws, cur) = word_state(d);
        assert(is_ascii_char(s[s.len() - 1]));
        if !is_white(s.last()) {
            let c2 = cur.push(s.last());
            assert forall|i: int| 0 <= i < c2.len() implies #[trigger] is_ascii_char(c2[i]) by {
                if i < cur.len() {
                    assert(c2[i] == cur[i]);
                }
            }
        } else if cur.len() > 0 {
            let w2 = ws.push(cur);
            assert forall|i: int| 0 <= i < w2.len() implies ascii_text(#[trigger] w2[i]) by {
                if i < ws.len() {
                    assert(w2[i] == ws[i]);
                }
            }
        }
    }
}

/// The words of an ASCII text are ASCII.
pub proof fn lemma_words_ascii(s: Seq<char>)
    requires
        ascii_text(s),
    ensures
        forall|i: int| 0 <= i < words(s).len() ==> ascii_text(#[trigger] words(s)[i]),
{
    lemma_word_state_ascii(s);
    let (ws, cur) = word_state(s);
    if cur.len() > 0 {
        assert forall|i: int| 0 <= i < words(s).len() implies ascii_text(#[trigger] words(s)[i]) by {
            if i < ws.len() {
                assert(words(s)[i] == ws[i]);
            }
        }
    }
}

/// Lowering the case of an ASCII text keeps it ASCII.
pub proof fn lemma_ascii_lower_ascii(s: Seq<char>)
    requires
        ascii_text(s),
    ensures
        ascii_text(ascii_lower(s)),
{
    assert forall|i: int| 0 <= i < ascii_lower(s).len() implies #[trigger] is_ascii_char(
        ascii_lower(s)[i],
    ) by {
        assert(is_ascii_char(s[i]));
    }
}

/// `str::split_whitespace`, collected.
pub fn split_words(s: &str) -> (r: Vec<Vec<char>>)
    ensures
        r@.map_values(|w: Vec<char>| w@) == words(s@),
{
    let v = chars_of(s);
    let mut out: Vec<Vec<char>> = Vec::new();
    let mut cur: Vec<char> = Vec::new();
    let mut i: usize = 0;
    while i < v.len()
        invariant
            i <= v@.len(),
            v@ == s@,
            (out@.map_values(|w: Vec<char>| w@), cur@) == word_state(v@.take(i as int)),
        decreases v.len() - i,
    {
        assert(v@.take(i + 1).drop_last() =~= v@.take(i as int));
        assert(v@.take(i + 1).last() == v@[i as int]);
        let ghost before = out@.map_values(|w: Vec<char>| w@);
        if is_whitespace(v[i]) {
            if cur.len() > 0 {
                let ghost cv = cur@;
                out.push(cur);
                cur = Vec::new();
                assert(out@.map_values(|w: Vec<char>| w@) =~= before.push(cv));
            }
            assert(cur@ =~= Seq::<char>::empty());
        } else {
            cur.push(v[i]);
        }
        i = i + 1;
    }
    assert(v@.take(i as int) =~= v@);
    if cur.len() > 0 {
        let ghost before = out@.map_values(|w: Vec<char>| w@);
        let ghost cv = cur@;
        out.push(cur);
        assert(out@.map_values(|w: Vec<char>| w@) =~= before.push(cv));
    }
    out
}

/// What `char::is_alphanumeric` gives: the character is alphabetic or
/// numeric in Unicode.
pub uninterp spec fn is_alnum(c: char) -> bool;

/// `char::is_alphanumeric`. The result is named by [`is_alnum`]; of an
/// ASCII character it is stated that exactly the letters and the digits
/// are alphanumeric. Nothing more is stated.
#[verifier::external_body]
pub(crate) fn char_is_alphanumeric(c: char) -> (r: bool)
    ensures
        r == is_alnum(c),
        is_ascii_char(c) ==> r == ascii_alnum(c),
{
    c.is_alphanumeric()
}

/// The text without the characters that are not alphanumeric at either
/// end: `str::trim_matches(|c| !c.is_alphanumeric())`.
pub open spec fn trim_non_alnum(s: Seq<char>) -> Seq<char>
    decreases s.len(),
{
    if s.len() > 0 && !is_alnum(s[0]) {
        trim_non_alnum(s.drop_first())
    } else if s.len() > 0 && !is_alnum(s.last()) {
        trim_non_alnum(s.drop_last())
    } else {
        s
    }
}

/// The text without the characters that are not ASCII letters or digits at
/// either end: what [`trim_non_alnum`] gives for an ASCII text.
pub open spec fn trim_ascii_alnum(s: Seq<char>) -> Seq<char>
    decreases s.len(),
{
    if s.len() > 0 && !ascii_alnum(s[0]) {
        trim_ascii_alnum(s.drop_first())
    } else if s.len() > 0 && !ascii_alnum(s.last()) {
        trim_ascii_alnum(s.drop_last())
    } else {
        s
    }
}

pub fn trim_non_alnum_exec(v: &Vec<char>) -> (r: Vec<char>)
    ensures
        r@ == trim_non_alnum(v@),
        ascii_text(v@) ==> r@ == trim_ascii_alnum(v@),
{
    let mut i: usize = 0;
    let mut k: usize = v.len();
    assert(v@.subrange(0, k as int) =~= v@);
    while i < k && (!char_is_alphanumeric(v[i]) || !char_is_alphanumeric(v[k - 1]))
        invariant
            i <= k <= v@.len(),
            trim_non_alnum(v@.subrange(i as int, k as int)) == trim_non_alnum(v@),
            ascii_text(v@) ==> trim_ascii_alnum(v@.subrange(i as int, k as int))
                == trim_ascii_alnum(v@),
        decreases k - i,
    {
        let ghost t = v@.subrange(i as int, k as int);
        proof {
            if ascii_text(v@) {
                assert(is_ascii_char(v@[i as int]) && is_ascii_char(v@[k - 1]));
            }
        }
        if !char_is_alphanumeric(v[i]) {
            assert(t[0] == v@[i as int]);
            assert(t.drop_first() =~= v@.subrange(i + 1, k as int));
            i = i + 1;
        } else {
            assert(t[0] == v@[i as int]);
            assert(t.last() == v@[k - 1]);
            assert(t.drop_last() =~= v@.subrange(i as int, k - 1));
            k = k - 1;
        }
    }
    proof {
        let t = v@.subrange(i as int, k as int);
        if i < k {
            assert(t[0] == v@[i as int]);
            assert(t.last() == v@[k - 1]);
        }
        if ascii_text(v@) && i < k {
            assert(is_ascii_char(v@[i as int]) && is_ascii_char(v@[k - 1]));
        }
    }
    slice_vec(v, i, k)
}

/// What `char::to_uppercase` gives for a character: its upper-case
/// mapping, one or more characters.
pub uninterp spec fn char_upper(c: char) -> Seq<char>;

/// `char::to_uppercase`, collected. The result is named by [`char_upper`];
/// of an ASCII character it is stated that it is the character itself, or
/// for `a`-`z` the letter in upper case. Nothing more is stated.
#[verifier::external_body]
pub(crate) fn char_to_uppercase(c: char) -> (r: String)
    ensures
        r@ == char_upper(c),
        is_ascii_char(c) ==> r@ == seq![upper_char(c)],
{
    c.to_uppercase().collect()
}


/// Whether byte `b` of the UTF-8 form of `v` starts a character (or is its
/// end): `str::is_char_boundary`.
pub fn is_char_boundary_exec(v: &Vec<char>, b: usize) -> (r: bool)
    ensures
        r == is_char_boundary(v@, b as nat),
{
    let mut acc: usize = 0;
    let mut i: usize = 0;
    while i < v.len() && acc < b
        invariant
            i <= v@.len(),
            acc == utf8_len(v@.take(i as int)),
            acc <= b || (i > 0 && utf8_len(v@.take(i - 1)) < b),
            forall|k: int| 0 <= k < i ==> utf8_len(#[trigger] v@.take(k)) < b,
        decreases v.len() - i,
    {
        let l = char_len_utf8(v[i]);
        assert(v@.take(i + 1).drop_last() =~= v@.take(i as int));
        if l > b - acc {
            proof {
                assert forall|k: int| 0 <= k <= v@.len() implies #[trigger] utf8_len(v@.take(k))
                    != b by {
                    if k > i {
                        lemma_utf8_len_prefix(v@, i as int + 1, k);
                    }
                }
            }
            return false;
        }
        acc = acc + l;
        i = i + 1;
    }
    if acc == b {
        return true;
    }
    proof {
        assert forall|k: int| 0 <= k <= v@.len() implies #[trigger] utf8_len(v@.take(k)) != b by {
            if k > i {
                lemma_utf8_len_prefix(v@, i as int, k);
            }
        }
    }
    false
}

/// The pieces of a text between the occurrences of `c`, the unfinished
/// piece last.
pub open spec fn split_state(s: Seq<char>, c: char) -> (Seq<Seq<char>>, Seq<char>)
    decreases s.len(),
{
    if s.len() == 0 {
        (Seq::empty(), Seq::empty())
    } else {
        let (ps, cur) = split_state(s.drop_last(), c);
        if s.last() == c {
            (ps.push(cur), Seq::empty())
        } else {
            (ps, cur.push(s.last()))
        }
    }
}

/// `str::split` at a character: the pieces between its occurrences, the
/// last one included even where empty.
pub open spec fn split_at_char(s: Seq<char>, c: char) -> Seq<Seq<char>> {
    let (ps, cur) = split_state(s, c);
    ps.push(cur)
}

/// `str::split` at a character, collected.
pub fn split_char(s: &str, c: char) -> (r: Vec<Vec<char>>)
    ensures
        r@.map_values(|w: Vec<char>| w@) == split_at_char(s@, c),
{
    let v = chars_of(s);
    let mut out: Vec<Vec<char>> = Vec::new();
    let mut cur: Vec<char> = Vec::new();
    let mut i: usize = 0;
    while i < v.len()
        invariant
            i <= v@.len(),
            v@ == s@,
            (out@.map_values(|w: Vec<char>| w@), cur@) == split_state(v@.take(i as int), c),
        decreases v.len() - i,
    {
        assert(v@.take(i + 1).drop_last() =~= v@.take(i as int));
        assert(v@.take(i + 1).last() == v@[i as int]);
        if v[i] == c {
            let ghost before = out@.map_values(|w: Vec<char>| w@);
            let ghost cv = cur@;
            out.push(cur);
            cur = Vec::new();
            assert(out@.map_values(|w: Vec<char>| w@) =~= before.push(cv));
            assert(cur@ =~= Seq::<char>::empty());
        } else {
            cur.push(v[i]);
        }
        i = i + 1;
    }
    assert(v@.take(i as int) =~= v@);
    let ghost before = out@.map_values(|w: Vec<char>| w@);
    let ghost cv = cur@;
    out.push(cur);
    assert(out@.map_values(|w: Vec<char>| w@) =~= before.push(cv));
    out
}


/// A text holds at most one match more than it has characters.
pub proof fn lemma_count_matches_bound(s: Seq<char>, pat: Seq<char>)
    ensures
        count_matches(s, pat) <= s.len() + 1,
        pat.len() > 0 ==> count_matches(s, pat) <= s.len(),
    decreases s.len(),
{
    if pat.len() > 0 && s.len() > 0 {
        if starts_with(s, pat) {
            lemma_count_matches_bound(s.skip(pat.len() as int), pat);
        } else {
            lemma_count_matches_bound(s.drop_first(), pat);
        }
    }
}


/// The value of a decimal numeral.
pub open spec fn numeral_value(s: Seq<char>) -> nat
    decreases s.len(),
{
    if s.len() == 0 {
        0
    } else {
        numeral_value(s.drop_last()) * 10 + ((s.last() as u32) - 48) as nat
    }
}

/// All characters are decimal digits.
pub open spec fn all_digits(s: Seq<char>) -> bool {
    forall|i: int| 0 <= i < s.len() ==> '0' <= #[trigger] s[i] && s[i] <= '9'
}

/// What `str::parse::<u64>` gives: the value of a non-empty run of decimal
/// digits, optionally behind a `+`, where it fits in 64 bits.
pub open spec fn u64_parse(s: Seq<char>) -> Option<u64> {
    let digits = if s.len() > 0 && s[0] == '+' {
        s.drop_first()
    } else {
        s
    };
    if digits.len() > 0 && all_digits(digits) && numeral_value(digits) <= u64::MAX {
        Some(numeral_value(digits) as u64)
    } else {
        None
    }
}

/// `str::parse::<u64>`.
pub fn parse_u64(s: &str) -> (r: Option<u64>)
    ensures
        r == u64_parse(s@),
{
    let v = chars_of(s);
    let start: usize = if v.len() > 0 && v[0] == '+' {
        1
    } else {
        0
    };
    let ghost digits = if s@.len() > 0 && s@[0] == '+' {
        s@.drop_first()
    } else {
        s@
    };
    assert(digits =~= v@.skip(start as int));
    if start >= v.len() {
        return None;
    }
    let mut value: u64 = 0;
    let mut i = start;
    while i < v.len()
        invariant
            start <= i <= v@.len(),
            start < v@.len(),
            v@ == s@,
            digits == (if s@.len() > 0 && s@[0] == '+' {
                s@.drop_first()
            } else {
                s@
            }),
            digits == v@.skip(start as int),
            all_digits(v@.subrange(start as int, i as int)),
            value == numeral_value(v@.subrange(start as int, i as int)),
        decreases v.len() - i,
    {
        let c = v[i];
        assert(v@.subrange(start as int, i + 1).drop_last() =~= v@.subrange(start as int, i as int));
        if c < '0' || c > '9' {
            assert(digits[i - start] == c);
            assert(!all_digits(digits));
            assert(u64_parse(s@) is None);
            return None;
        }
        let d = (c as u32 - 48) as u64;
        if value > (u64::MAX - d) / 10 {
            proof {
                let x = v@.subrange(start as int, i + 1);
                assert(x.last() == c);
                assert(x.drop_last() =~= v@.subrange(start as int, i as int));
                assert(numeral_value(x) == value * 10 + d);
                assert(value * 10 + d > u64::MAX) by (nonlinear_arith)
                    requires
                        value > (u64::MAX - d) / 10,
                        d <= 9,
                ;
                if all_digits(digits) {
                    lemma_numeral_prefix(digits, i + 1 - start);
                    assert(digits.take(i + 1 - start) =~= v@.subrange(start as int, i + 1));
                    assert(numeral_value(digits) > u64::MAX);
                }
                assert(u64_parse(s@) is None);
            }
            return None;
        }
        assert(value * 10 + d <= u64::MAX) by (nonlinear_arith)
            requires
                value <= (u64::MAX - d) / 10,
                d <= 9,
        ;
        value = value * 10 + d;
        i = i + 1;
        assert(all_digits(v@.subrange(start as int, i as int))) by {
            assert forall|j: int| 0 <= j < i - start implies '0' <= #[trigger] v@.subrange(
                start as int,
                i as int,
            )[j] && v@.subrange(start as int, i as int)[j] <= '9' by {
                if j < i - 1 - start {
                    assert(v@.subrange(start as int, i as int)[j] == v@.subrange(
                        start as int,
                        i - 1,
                    )[j]);
                }
            }
        }
    }
    assert(v@.subrange(start as int, i as int) =~= digits);
    Some(value)
}

/// A longer numeral has at least the value of its prefix.
proof fn lemma_numeral_prefix(s: Seq<char>, k: int)
    requires
        0 <= k <= s.len(),
        all_digits(s),
    ensures
        numeral_value(s.take(k)) <= numeral_value(s),
    decreases s.len() - k,
{
    if k < s.len() {
        lemma_numeral_prefix(s, k + 1);
        assert(s.take(k + 1).drop_last() =~= s.take(k));
        assert(s.take(k + 1).last() == s[k]);
        assert(numeral_value(s.take(k)) * 10 + ((s[k] as u32) - 48) as nat >= numeral_value(s.take(k))) by (nonlinear_arith);
    } else {
        assert(s.take(k) =~= s);
    }
}


proof fn lemma_decimal_digits(n: nat)
    ensures
        decimal(n).len() > 0,
        all_digits(decimal(n)),
        numeral_value(decimal(n)) == n,
        decimal(n)[0] != '+',
    decreases n,
{
    if n >= 10 {
        lemma_decimal_digits(n / 10);
        let d = decimal(n / 10);
        let s = d.push(digit_char(n % 10));
        assert(s.drop_last() =~= d);
        assert forall|i: int| 0 <= i < s.len() implies '0' <= #[trigger] s[i] && s[i] <= '9' by {
            if i < d.len() {
                assert(s[i] == d[i]);
            }
        }
        assert(((digit_char(n % 10) as u32) - 48) as nat == n % 10);
        assert(s.last() == digit_char(n % 10));
        assert(numeral_value(s) == numeral_value(d) * 10 + n % 10);
        assert(n == (n / 10) * 10 + n % 10);
        assert(decimal(n) == s);
    } else {
        assert(((digit_char(n) as u32) - 48) as nat == n);
        let s = seq![digit_char(n)];
        assert(s.drop_last() =~= Seq::<char>::empty());
        assert(numeral_value(s.drop_last()) == 0);
        assert(numeral_value(s) == n);
        assert(decimal(n) == s);
    }
}

/// Reading back the decimal numeral of a number gives the number.
pub proof fn lemma_parse_decimal(n: u64)
    ensures
        u64_parse(decimal(n as nat)) == Some(n),
{
    lemma_decimal_digits(n as nat);
}

} // verus!
