//! Text helpers shared by the validators, the runner and the settings.
//!
//! Contracts speak of strings through their views, sequences of `char`.

use vstd::prelude::*;
use vstd::string::*;

verus! {

/// `needle` stands in `hay` as a contiguous run that begins at `at`.
pub open spec fn occurs_at(hay: Seq<char>, needle: Seq<char>, at: int) -> bool {
    &&& 0 <= at
    &&& at + needle.len() <= hay.len()
    &&& hay.subrange(at, at + needle.len()) == needle
}

/// `needle` stands somewhere in `hay`.
pub open spec fn contains_text(hay: Seq<char>, needle: Seq<char>) -> bool {
    exists|at: int| occurs_at(hay, needle, at)
}

/// Number of bytes that the text takes in UTF-8.
pub open spec fn byte_len(s: Seq<char>) -> nat {
    vstd::utf8::encode_utf8(s).len()
}

/// Whether `char::is_whitespace` holds of `c` (the Unicode property White_Space).
pub uninterp spec fn unicode_whitespace(c: char) -> bool;

/// Whether `char::is_alphanumeric` holds of `c` (the Unicode categories for
/// letters and numbers).
pub uninterp spec fn unicode_alphanumeric(c: char) -> bool;

/// What `str::to_lowercase` returns for the text `s`.
pub uninterp spec fn unicode_lowercase(s: Seq<char>) -> Seq<char>;

/// The text without its leading whitespace.
pub open spec fn trim_start(s: Seq<char>) -> Seq<char>
    decreases s.len(),
{
    if s.len() > 0 && unicode_whitespace(s[0]) {
        trim_start(s.drop_first())
    } else {
        s
    }
}

/// The text without its trailing whitespace.
pub open spec fn trim_end(s: Seq<char>) -> Seq<char>
    decreases s.len(),
{
    if s.len() > 0 && unicode_whitespace(s.last()) {
        trim_end(s.drop_last())
    } else {
        s
    }
}

/// The text without leading and trailing whitespace.
pub open spec fn trimmed(s: Seq<char>) -> Seq<char> {
    trim_end(trim_start(s))
}

/// A line is blank when nothing is left of it after trimming.
pub open spec fn is_blank(s: Seq<char>) -> bool {
    trimmed(s).len() == 0
}

/// Trusted: `char::is_whitespace`. The contract only names the result.
#[verifier::external_body]
pub(crate) fn char_is_whitespace(c: char) -> (yes: bool)
    ensures
        yes == unicode_whitespace(c),
{
    c.is_whitespace()
}

/// Trusted: `str::to_lowercase`. The contract only names the result.
#[verifier::external_body]
pub(crate) fn str_to_lowercase(s: &str) -> (lower: String)
    ensures
        lower@ == unicode_lowercase(s@),
{
    s.to_lowercase()
}

/// Trusted: `char::is_alphanumeric`. The contract only names the result.
#[verifier::external_body]
pub(crate) fn char_is_alphanumeric(c: char) -> (yes: bool)
    ensures
        yes == unicode_alphanumeric(c),
{
    c.is_alphanumeric()
}

/// The characters of a string, in order.
pub fn chars_of(s: &str) -> (chars: Vec<char>)
    ensures
        chars@ == s@,
{
    broadcast use vstd::string::group_string_axioms;

    let mut chars: Vec<char> = Vec::new();
    for c in it: s.chars()
        invariant
            it.seq() == s@,
            chars@ == it.seq().take(it.index() as int),
    {
        chars.push(c);
        assert(chars@ =~= it.seq().take(it.index() + 1));
    }
    assert(chars@ =~= s@);
    chars
}

/// Whether `needle` stands in `hay` at position `at`.
fn matches_at(hay: &Vec<char>, needle: &Vec<char>, at: usize) -> (same: bool)
    requires
        at + needle@.len() <= hay@.len(),
    ensures
        same == occurs_at(hay@, needle@, at as int),
{
    let total = hay.len();
    let mut j: usize = 0;
    while j < needle.len()
        invariant
            total == hay@.len(),
            at + needle@.len() <= total,
            j <= needle@.len(),
            forall|k: int| 0 <= k < j ==> hay@[at + k] == needle@[k],
        decreases needle@.len() - j,
    {
        if hay[at + j] != needle[j] {
            assert(hay@.subrange(at as int, at + needle@.len())[j as int] != needle@[j as int]);
            return false;
        }
        j += 1;
    }
    assert(hay@.subrange(at as int, at + needle@.len()) =~= needle@);
    true
}

/// Whether `needle` stands somewhere in the characters `hay`.
pub fn chars_contain(hay: &Vec<char>, needle: &str) -> (found: bool)
    ensures
        found == contains_text(hay@, needle@),
{
    let pattern = chars_of(needle);
    if pattern.len() > hay.len() {
        return false;
    }
    let last = hay.len() - pattern.len();
    let mut at: usize = 0;
    while at < last
        invariant
            pattern@ == needle@,
            pattern@.len() <= hay@.len(),
            last == hay@.len() - pattern@.len(),
            at <= last,
            forall|k: int| 0 <= k < at ==> !occurs_at(hay@, needle@, k),
        decreases last - at,
    {
        if matches_at(hay, &pattern, at) {
            return true;
        }
        at += 1;
    }
    matches_at(hay, &pattern, last)
}

/// Trimming at the front drops exactly the leading run of whitespace.
proof fn trim_start_skips(s: Seq<char>, k: int)
    requires
        0 <= k <= s.len(),
        forall|j: int| 0 <= j < k ==> unicode_whitespace(#[trigger] s[j]),
        k == s.len() || !unicode_whitespace(s[k]),
    ensures
        trim_start(s) == s.skip(k),
    decreases k,
{
    if k == 0 {
        assert(s.skip(0) =~= s);
    } else {
        let rest = s.drop_first();
        assert forall|j: int| 0 <= j < k - 1 implies unicode_whitespace(#[trigger] rest[j]) by {
            assert(rest[j] == s[j + 1]);
        }
        trim_start_skips(rest, k - 1);
        assert(rest.skip(k - 1) =~= s.skip(k));
    }
}

/// Trimming at the end drops exactly the trailing run of whitespace.
proof fn trim_end_takes(s: Seq<char>, m: int)
    requires
        0 <= m <= s.len(),
        forall|j: int| m <= j < s.len() ==> unicode_whitespace(#[trigger] s[j]),
        m == 0 || !unicode_whitespace(s[m - 1]),
    ensures
        trim_end(s) == s.take(m),
    decreases s.len() - m,
{
    if m == s.len() {
        assert(s.take(m) =~= s);
    } else {
        let front = s.drop_last();
        assert(unicode_whitespace(s[s.len() - 1]));
        assert forall|j: int| m <= j < front.len() implies unicode_whitespace(
            #[trigger] front[j],
        ) by {
            assert(front[j] == s[j]);
        }
        trim_end_takes(front, m);
        assert(front.take(m) =~= s.take(m));
    }
}

/// A character that is no whitespace survives trimming at the front: what is
/// left begins at or before it.
proof fn trim_start_keeps(s: Seq<char>, at: int) -> (k: int)
    requires
        0 <= at < s.len(),
        !unicode_whitespace(s[at]),
    ensures
        0 <= k <= at,
        trim_start(s) == s.skip(k),
    decreases s.len(),
{
    if unicode_whitespace(s[0]) {
        let rest = s.drop_first();
        assert(rest[at - 1] == s[at]);
        let k = trim_start_keeps(rest, at - 1);
        assert(rest.skip(k) =~= s.skip(k + 1));
        k + 1
    } else {
        assert(s.skip(0) =~= s);
        0
    }
}

/// A character that is no whitespace survives trimming at the end.
proof fn trim_end_keeps(s: Seq<char>, at: int)
    requires
        0 <= at < s.len(),
        !unicode_whitespace(s[at]),
    ensures
        trim_end(s).len() > at,
    decreases s.len(),
{
    if unicode_whitespace(s.last()) {
        let front = s.drop_last();
        assert(front[at] == s[at]);
        trim_end_keeps(front, at);
    }
}

/// A text is blank exactly when each of its characters is whitespace.
pub proof fn blank_iff_all_whitespace(s: Seq<char>)
    ensures
        is_blank(s) <==> forall|i: int| 0 <= i < s.len() ==> unicode_whitespace(#[trigger] s[i]),
{
    if forall|i: int| 0 <= i < s.len() ==> unicode_whitespace(#[trigger] s[i]) {
        trim_start_skips(s, s.len() as int);
        assert(s.skip(s.len() as int) =~= Seq::<char>::empty());
    } else {
        let at = choose|i: int| 0 <= i < s.len() && !unicode_whitespace(#[trigger] s[i]);
        let k = trim_start_keeps(s, at);
        assert(s.skip(k)[at - k] == s[at]);
        trim_end_keeps(s.skip(k), at - k);
    }
}

/// The string without its leading and trailing whitespace.
pub fn str_trim(s: &str) -> (t: &str)
    ensures
        t@ == trimmed(s@),
{
    let chars = chars_of(s);
    let total = chars.len();
    let mut start: usize = 0;
    while start < total && char_is_whitespace(chars[start])
        invariant
            total == chars@.len(),
            start <= total,
            forall|j: int| 0 <= j < start ==> unicode_whitespace(#[trigger] chars@[j]),
        decreases total - start,
    {
        start += 1;
    }
    let mut end: usize = total;
    while end > start && char_is_whitespace(chars[end - 1])
        invariant
            total == chars@.len(),
            start <= end <= total,
            forall|j: int| end <= j < total ==> unicode_whitespace(#[trigger] chars@[j]),
        decreases end - start,
    {
        end -= 1;
    }
    proof {
        trim_start_skips(s@, start as int);
        let rest = s@.skip(start as int);
        assert forall|j: int| end - start <= j < rest.len() implies unicode_whitespace(
            #[trigger] rest[j],
        ) by {
            assert(rest[j] == chars@[start + j]);
        }
        if end > start {
            assert(rest[end - start - 1] == chars@[end - 1]);
        }
        trim_end_takes(rest, end - start);
        assert(rest.take(end - start) =~= s@.subrange(start as int, end as int));
    }
    s.substring_char(start, end)
}

/// Whether two strings hold the same text.
pub fn str_eq(a: &str, b: &str) -> (same: bool)
    ensures
        same == (a@ == b@),
{
    let x = a.as_bytes();
    let y = b.as_bytes();
    proof {
        vstd::utf8::encode_utf8_decode_utf8(a@);
        vstd::utf8::encode_utf8_decode_utf8(b@);
    }
    if x.len() != y.len() {
        return false;
    }
    let mut i: usize = 0;
    while i < x.len()
        invariant
            x@ == vstd::utf8::encode_utf8(a@),
            y@ == vstd::utf8::encode_utf8(b@),
            x@.len() == y@.len(),
            i <= x@.len(),
            forall|j: int| 0 <= j < i ==> x@[j] == y@[j],
        decreases x@.len() - i,
    {
        if x[i] != y[i] {
            return false;
        }
        i += 1;
    }
    assert(x@ =~= y@);
    true
}

/// The views of a sequence of strings.
pub open spec fn texts(v: Seq<String>) -> Seq<Seq<char>> {
    Seq::new(v.len(), |i: int| v[i]@)
}

/// The views of a sequence of string slices.
pub open spec fn slice_texts(v: Seq<&str>) -> Seq<Seq<char>> {
    Seq::new(v.len(), |i: int| v[i]@)
}

/// The tokens written one after another with `sep` between neighbours.
pub open spec fn joined(tokens: Seq<Seq<char>>, sep: Seq<char>) -> Seq<char>
    decreases tokens.len(),
{
    if tokens.len() == 0 {
        Seq::empty()
    } else if tokens.len() == 1 {
        tokens[0]
    } else {
        joined(tokens.drop_last(), sep) + sep + tokens.last()
    }
}

/// Joins the tokens with `sep` between neighbours.
pub fn join_tokens(tokens: &[String], sep: &str) -> (line: String)
    ensures
        line@ == joined(texts(tokens@), sep@),
{
    let mut line = String::new();
    let mut i: usize = 0;
    while i < tokens.len()
        invariant
            i <= tokens@.len(),
            line@ == joined(texts(tokens@).take(i as int), sep@),
        decreases tokens@.len() - i,
    {
        if i > 0 {
            line.append(sep);
        }
        line.append(tokens[i].as_str());
        proof {
            let all = texts(tokens@);
            assert(all.take(i + 1).drop_last() =~= all.take(i as int));
            assert(all.take(i + 1).last() == tokens@[i as int]@);
            if i == 0 {
                assert(line@ =~= all.take(1)[0]);
            }
        }
        i += 1;
    }
    proof {
        assert(texts(tokens@).take(i as int) =~= texts(tokens@));
    }
    line
}

/// The decimal digit for a value below ten.
pub open spec fn digit_char(d: nat) -> char {
    if d == 0 {
        '0'
    } else if d == 1 {
        '1'
    } else if d == 2 {
        '2'
    } else if d == 3 {
        '3'
    } else if d == 4 {
        '4'
    } else if d == 5 {
        '5'
    } else if d == 6 {
        '6'
    } else if d == 7 {
        '7'
    } else if d == 8 {
        '8'
    } else {
        '9'
    }
}

/// The number written in decimal, without leading zeros.
pub open spec fn decimal(n: nat) -> Seq<char>
    decreases n,
{
    if n < 10 {
        seq![digit_char(n)]
    } else {
        decimal(n / 10).push(digit_char(n % 10))
    }
}

fn digit_str(d: usize) -> (s: &'static str)
    requires
        d < 10,
    ensures
        s@ == seq![digit_char(d as nat)],
{
    proof {
        reveal_strlit("0");
        reveal_strlit("1");
        reveal_strlit("2");
        reveal_strlit("3");
        reveal_strlit("4");
        reveal_strlit("5");
        reveal_strlit("6");
        reveal_strlit("7");
        reveal_strlit("8");
        reveal_strlit("9");
    }
    let s = if d == 0 {
        "0"
    } else if d == 1 {
        "1"
    } else if d == 2 {
        "2"
    } else if d == 3 {
        "3"
    } else if d == 4 {
        "4"
    } else if d == 5 {
        "5"
    } else if d == 6 {
        "6"
    } else if d == 7 {
        "7"
    } else if d == 8 {
        "8"
    } else {
        "9"
    };
    assert(s@ =~= seq![digit_char(d as nat)]);
    s
}

/// Writes the number in decimal.
pub fn decimal_string(n: usize) -> (s: String)
    ensures
        s@ == decimal(n as nat),
    decreases n,
{
    if n < 10 {
        let mut s = String::new();
        s.append(digit_str(n));
        assert(s@ =~= decimal(n as nat));
        s
    } else {
        let mut s = decimal_string(n / 10);
        s.append(digit_str(n % 10));
        assert(s@ =~= decimal(n as nat));
        s
    }
}

} // verus!
