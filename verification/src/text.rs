//! Character-level string operations with specifications over `Seq<char>`.

use vstd::prelude::*;

verus! {

/// The characters of `s`, in order.
pub fn chars_of(s: &str) -> (r: Vec<char>)
    ensures
        r@ == s@,
{
    let mut r: Vec<char> = Vec::new();
    for c in it: s.chars()
        invariant
            r@ == it.seq().take(it.index() as int),
            it.seq() == s@,
    {
        r.push(c);
    }
    r
}

/// Appends one character to a string (`String::push`).
#[verifier::external_body]
pub(crate) fn push_char(s: &mut String, c: char)
    ensures
        final(s)@ == old(s)@.push(c),
{
    s.push(c);
}

/// Appends the characters of `suffix` to `s`.
pub fn push_chars(s: &mut String, suffix: &str)
    ensures
        final(s)@ == old(s)@ + suffix@,
{
    let ghost start = s@;
    for c in it: suffix.chars()
        invariant
            it.seq() == suffix@,
            s@ == start + it.seq().take(it.index() as int),
    {
        push_char(s, c);
        assert(it.seq().take(it.index() + 1) == it.seq().take(it.index() as int).push(c));
    }
    assert(suffix@.take(suffix@.len() as int) == suffix@);
}

/// The string made of the given characters.
pub fn string_of(cs: &[char]) -> (r: String)
    ensures
        r@ == cs@,
{
    let mut r = String::new();
    let n = cs.len();
    for i in 0..n
        invariant
            n == cs@.len(),
            r@ == cs@.take(i as int),
    {
        push_char(&mut r, cs[i]);
        assert(cs@.take(i + 1) == cs@.take(i as int).push(cs@[i as int]));
    }
    assert(cs@.take(n as int) == cs@);
    r
}

/// A copy of `s` as an owned string.
pub fn owned(s: &str) -> (r: String)
    ensures
        r@ == s@,
{
    let mut r = String::new();
    push_chars(&mut r, s);
    r
}

/// `a` followed by `b`, as a new string.
pub fn concatenated(a: &str, b: &str) -> (r: String)
    ensures
        r@ == a@ + b@,
{
    let mut r = owned(a);
    push_chars(&mut r, b);
    r
}

/// What `str::to_lowercase` returns for a string with the given characters.
pub uninterp spec fn lowercase(s: Seq<char>) -> Seq<char>;

/// The lowercase form of an ASCII character.
pub open spec fn ascii_lower(c: char) -> char {
    if 'A' <= c && c <= 'Z' {
        ((c as u32) + 32) as char
    } else {
        c
    }
}

/// Each character of `s` in ASCII lowercase.
pub open spec fn ascii_lowered(s: Seq<char>) -> Seq<char> {
    s.map_values(|c: char| ascii_lower(c))
}

/// What `str::to_lowercase` gives for `s` is its ASCII lowercase when `s` is ASCII (as
/// every call of `to_lowercase` establishes for its argument).
pub open spec fn lowers_as_ascii(s: Seq<char>) -> bool {
    vstd::utf8::is_ascii_chars(s) ==> lowercase(s) == ascii_lowered(s)
}

/// Lower-casing ASCII text gives ASCII text that lower-casing leaves as it is.
pub proof fn lemma_ascii_lowered_idempotent(s: Seq<char>)
    requires
        vstd::utf8::is_ascii_chars(s),
    ensures
        vstd::utf8::is_ascii_chars(ascii_lowered(s)),
        ascii_lowered(ascii_lowered(s)) == ascii_lowered(s),
{
    assert forall|i: int| 0 <= i < s.len() implies '\0' <= #[trigger] ascii_lowered(s)[i] <= '\u{7f}'
        && ascii_lower(ascii_lowered(s)[i]) == ascii_lowered(s)[i] by {
        let c = s[i];
        if 'A' <= c && c <= 'Z' {
            assert(((c as u32) + 32) as char as u32 == (c as u32) + 32);
        }
    }
    assert(ascii_lowered(ascii_lowered(s)) =~= ascii_lowered(s));
}

/// Calls `str::to_lowercase`. Its result is named by `lowercase`; of a string made only of
/// ASCII characters the standard library's documentation (lowercase by the Unicode
/// `Lowercase` property) fixes the result to the per-character ASCII lowercase, and this
/// is stated. What it returns for other characters is left unsaid here.
#[verifier::external_body]
pub(crate) fn to_lowercase(s: &str) -> (r: String)
    ensures
        r@ == lowercase(s@),
        vstd::utf8::is_ascii_chars(s@) ==> r@ == ascii_lowered(s@),
{
    s.to_lowercase()
}

/// `needle` occurs in `hay` as a contiguous run of characters.
pub open spec fn is_substring(needle: Seq<char>, hay: Seq<char>) -> bool {
    exists|i: int|
        0 <= i && i + needle.len() <= hay.len() && #[trigger] hay.subrange(i, i + needle.len())
            == needle
}

/// The empty text occurs in every text.
pub proof fn lemma_empty_is_substring(hay: Seq<char>)
    ensures
        is_substring(seq![], hay),
{
    let e: Seq<char> = seq![];
    assert(hay.subrange(0, 0int + e.len()) =~= e);
}

/// Whether `needle` occurs in `hay` starting at character `at`.
fn occurs_at(hay: &Vec<char>, needle: &Vec<char>, at: usize) -> (r: bool)
    requires
        at + needle@.len() <= hay@.len(),
    ensures
        r == (hay@.subrange(at as int, at + needle@.len()) == needle@),
{
    let n = needle.len();
    let limit = hay.len();
    for j in 0..n
        invariant
            n == needle@.len(),
            limit == hay@.len(),
            at + n <= limit,
            forall|k: int| 0 <= k < j ==> hay@[at + k] == needle@[k],
    {
        if hay[at + j] != needle[j] {
            assert(hay@.subrange(at as int, at + n)[j as int] != needle@[j as int]);
            return false;
        }
    }
    assert(hay@.subrange(at as int, at + n) =~= needle@);
    true
}

/// Whether `needle` occurs in `hay` (`str::contains` with a string pattern).
pub fn contains(hay: &str, needle: &str) -> (r: bool)
    ensures
        r == is_substring(needle@, hay@),
{
    let h = chars_of(hay);
    let n = chars_of(needle);
    if n.len() > h.len() {
        return false;
    }
    let last = h.len() - n.len();
    let mut i: usize = 0;
    loop
        invariant
            h@ == hay@,
            n@ == needle@,
            last + n@.len() == h@.len(),
            i <= last,
            forall|k: int| 0 <= k < i ==> #[trigger] hay@.subrange(k, k + needle@.len()) != needle@,
        decreases last - i,
    {
        if occurs_at(&h, &n, i) {
            return true;
        }
        if i == last {
            return false;
        }
        i = i + 1;
    }
}


/// The characters `cs[from..to]` as a string.
pub fn string_of_range(cs: &Vec<char>, from: usize, to: usize) -> (r: String)
    requires
        from <= to <= cs@.len(),
    ensures
        r@ == cs@.subrange(from as int, to as int),
{
    let mut r = String::new();
    let mut i = from;
    while i < to
        invariant
            from <= i <= to,
            to <= cs@.len(),
            r@ == cs@.subrange(from as int, i as int),
        decreases to - i,
    {
        push_char(&mut r, cs[i]);
        assert(cs@.subrange(from as int, i + 1) == cs@.subrange(from as int, i as int).push(
            cs@[i as int],
        ));
        i = i + 1;
    }
    r
}

// ---------------------------------------------------------------------------
// Decimal numerals
// ---------------------------------------------------------------------------

/// The ASCII digit for `d < 10`.
pub open spec fn digit_char(d: nat) -> char {
    if d == 0 {
        '0'
    } else if d == 1 {
        '1'
    } else if d == 2 {
        '2'
    } else if d == 3 {
        '3'
    } else if d == 4 {
        '4'
    } else if d == 5 {
        '5'
    } else if d == 6 {
        '6'
    } else if d == 7 {
        '7'
    } else if d == 8 {
        '8'
    } else {
        '9'
    }
}

/// `c` is one of the ASCII digits `0` to `9`.
pub open spec fn is_digit(c: char) -> bool {
    '0' <= c && c <= '9'
}

/// The decimal numeral of `n`: its digits, most significant first, no leading zeros.
pub open spec fn decimal(n: nat) -> Seq<char>
    decreases n,
{
    if n < 10 {
        seq![digit_char(n)]
    } else {
        decimal(n / 10).push(digit_char(n % 10))
    }
}

/// The value of a run of ASCII digits read in base 10.
pub open spec fn digits_value(s: Seq<char>) -> nat
    decreases s.len(),
{
    if s.len() == 0 {
        0
    } else {
        digits_value(s.drop_last()) * 10 + ((s.last() as u32) - 48) as nat
    }
}

/// Every character of `s` is an ASCII digit.
pub open spec fn all_digits(s: Seq<char>) -> bool {
    forall|i: int| 0 <= i < s.len() ==> is_digit(#[trigger] s[i])
}

/// The digits that `u32::from_str` reads: the text without one leading `+`.
pub open spec fn unsigned_digits(s: Seq<char>) -> Seq<char> {
    if s.len() > 0 && s[0] == '+' {
        s.drop_first()
    } else {
        s
    }
}

/// What `u32::from_str` gives: the value of a non-empty run of ASCII digits, optionally
/// after one `+`, when it fits in 32 bits; nothing otherwise.
pub open spec fn parsed_u32(s: Seq<char>) -> Option<u32> {
    let d = unsigned_digits(s);
    if d.len() > 0 && all_digits(d) && digits_value(d) <= u32::MAX {
        Some(digits_value(d) as u32)
    } else {
        None
    }
}

/// The character of digit `d`.
fn digit_to_char(d: u64) -> (c: char)
    requires
        d < 10,
    ensures
        c == digit_char(d as nat),
        is_digit(c),
{
    if d == 0 {
        '0'
    } else if d == 1 {
        '1'
    } else if d == 2 {
        '2'
    } else if d == 3 {
        '3'
    } else if d == 4 {
        '4'
    } else if d == 5 {
        '5'
    } else if d == 6 {
        '6'
    } else if d == 7 {
        '7'
    } else if d == 8 {
        '8'
    } else {
        '9'
    }
}

/// Appends the decimal numeral of `n` to `s`.
pub fn push_decimal(s: &mut String, n: u64)
    ensures
        final(s)@ == old(s)@ + decimal(n as nat),
    decreases n,
{
    let ghost start = s@;
    if n >= 10 {
        push_decimal(s, n / 10);
    }
    push_char(s, digit_to_char(n % 10));
    if n >= 10 {
        assert(s@ == start + decimal(n as nat));
    } else {
        assert(s@ == start + decimal(n as nat));
    }
}

/// The decimal numeral of `n` (`n.to_string()`).
pub fn decimal_string(n: u64) -> (r: String)
    ensures
        r@ == decimal(n as nat),
{
    let mut r = String::new();
    push_decimal(&mut r, n);
    r
}

/// The character of a digit reads back as that digit.
proof fn lemma_digit_char(d: nat)
    requires
        d < 10,
    ensures
        digit_char(d) as u32 == d + 48,
        is_digit(digit_char(d)),
{
    assert('0' as u32 == 48);
    assert('1' as u32 == 49);
    assert('2' as u32 == 50);
    assert('3' as u32 == 51);
    assert('4' as u32 == 52);
    assert('5' as u32 == 53);
    assert('6' as u32 == 54);
    assert('7' as u32 == 55);
    assert('8' as u32 == 56);
    assert('9' as u32 == 57);
}

/// The numeral of a number is made of ASCII digits, does not start with `+`, and reads
/// back as that number.
pub proof fn lemma_decimal_digits(n: nat)
    ensures
        decimal(n).len() > 0,
        all_digits(decimal(n)),
        digits_value(decimal(n)) == n,
    decreases n,
{
    lemma_digit_char(n % 10);
    assert(decimal(n).last() == digit_char(n % 10));
    if n < 10 {
        assert(decimal(n).drop_last() =~= Seq::<char>::empty());
        assert(digits_value(decimal(n).drop_last()) == 0);
    }
    if n >= 10 {
        lemma_decimal_digits(n / 10);
        assert(decimal(n).drop_last() == decimal(n / 10));
        assert((n / 10) * 10 + n % 10 == n);
        assert forall|i: int| 0 <= i < decimal(n).len() implies is_digit(#[trigger] decimal(n)[i]) by {
            if i < decimal(n).len() - 1 {
                assert(decimal(n)[i] == decimal(n / 10)[i]);
            }
        }
    }
}

/// Reading back the decimal numeral of a 32-bit number gives that number: the text that
/// `decimal_string` writes is what `parse_u32` accepts.
pub proof fn law_decimal_parse_roundtrip(n: u32)
    ensures
        parsed_u32(decimal(n as nat)) == Some(n),
{
    lemma_decimal_digits(n as nat);
    assert(is_digit(decimal(n as nat)[0]));
}

/// A prefix of a run of digits reads as at most the whole run.
proof fn lemma_digits_value_prefix(s: Seq<char>, j: int)
    requires
        0 <= j <= s.len(),
    ensures
        digits_value(s.take(j)) <= digits_value(s),
    decreases s.len(),
{
    if j < s.len() {
        lemma_digits_value_prefix(s.drop_last(), j);
        assert(s.drop_last().take(j) == s.take(j));
    } else {
        assert(s.take(j) == s);
    }
}

/// Whether `c` is an ASCII digit.
fn char_is_digit(c: char) -> (r: bool)
    ensures
        r == is_digit(c),
{
    '0' <= c && c <= '9'
}

/// Parses a 32-bit unsigned decimal number as `u32::from_str` does.
pub fn parse_u32(s: &str) -> (r: Option<u32>)
    ensures
        r == parsed_u32(s@),
{
    let cs = chars_of(s);
    let n = cs.len();
    let start: usize = if n > 0 && cs[0] == '+' {
        1
    } else {
        0
    };
    let ghost d = unsigned_digits(s@);
    assert(d == cs@.skip(start as int));
    if start == n {
        return None;
    }
    let mut acc: u64 = 0;
    let mut i = start;
    while i < n
        invariant
            cs@ == s@,
            n == cs@.len(),
            start <= i <= n,
            d == cs@.skip(start as int),
            d == unsigned_digits(s@),
            acc <= u32::MAX,
            acc == digits_value(d.take(i - start)),
            all_digits(d.take(i - start)),
        decreases n - i,
    {
        let c = cs[i];
        if !char_is_digit(c) {
            assert(d[i - start] == c);
            assert(!all_digits(d));
            return None;
        }
        let v: u64 = (c as u32 - 48) as u64;
        let ghost prefix = d.take(i + 1 - start);
        assert(prefix.drop_last() == d.take(i - start));
        assert(prefix.last() == c);
        acc = acc * 10 + v;
        assert(acc == digits_value(prefix));
        assert(all_digits(prefix)) by {
            assert forall|k: int| 0 <= k < prefix.len() implies is_digit(#[trigger] prefix[k]) by {
                if k < prefix.len() - 1 {
                    assert(prefix[k] == d.take(i - start)[k]);
                }
            }
        }
        if acc > 0xffff_ffff {
            proof {
                if all_digits(d) {
                    lemma_digits_value_prefix(d, i + 1 - start);
                }
            }
            return None;
        }
        i = i + 1;
    }
    assert(d.take(n - start) == d);
    Some(acc as u32)
}

// ---------------------------------------------------------------------------
// Whitespace and trimming
// ---------------------------------------------------------------------------

/// `c` has the Unicode `White_Space` property (`char::is_whitespace`).
pub open spec fn is_whitespace(c: char) -> bool {
    ||| '\t' <= c && c <= '\r'
    ||| c == ' '
    ||| c == '\u{85}'
    ||| c == '\u{a0}'
    ||| c == '\u{1680}'
    ||| '\u{2000}' <= c && c <= '\u{200a}'
    ||| c == '\u{2028}'
    ||| c == '\u{2029}'
    ||| c == '\u{202f}'
    ||| c == '\u{205f}'
    ||| c == '\u{3000}'
}

/// Whether `c` is whitespace.
pub fn char_is_whitespace(c: char) -> (r: bool)
    ensures
        r == is_whitespace(c),
{
    ('\t' <= c && c <= '\r') || c == ' ' || c == '\u{85}' || c == '\u{a0}' || c == '\u{1680}'
        || ('\u{2000}' <= c && c <= '\u{200a}') || c == '\u{2028}' || c == '\u{2029}' || c
        == '\u{202f}' || c == '\u{205f}' || c == '\u{3000}'
}

/// `s` without its trailing whitespace.
pub open spec fn trimmed_end(s: Seq<char>) -> Seq<char>
    decreases s.len(),
{
    if s.len() > 0 && is_whitespace(s.last()) {
        trimmed_end(s.drop_last())
    } else {
        s
    }
}

/// Removing trailing whitespace from ASCII text leaves ASCII text.
pub proof fn lemma_trimmed_end_ascii(s: Seq<char>)
    requires
        vstd::utf8::is_ascii_chars(s),
    ensures
        vstd::utf8::is_ascii_chars(trimmed_end(s)),
    decreases s.len(),
{
    if s.len() > 0 && is_whitespace(s.last()) {
        assert(vstd::utf8::is_ascii_chars(s.drop_last())) by {
            assert forall|i: int| 0 <= i < s.drop_last().len() implies '\0' <= #[trigger] s.drop_last()[i]
                <= '\u{7f}' by {
                assert(s.drop_last()[i] == s[i]);
            }
        }
        lemma_trimmed_end_ascii(s.drop_last());
    }
}

/// `s` without its leading whitespace.
pub open spec fn trimmed_start(s: Seq<char>) -> Seq<char>
    decreases s.len(),
{
    if s.len() > 0 && is_whitespace(s[0]) {
        trimmed_start(s.drop_first())
    } else {
        s
    }
}

/// `s` without leading and trailing whitespace.
pub open spec fn trimmed(s: Seq<char>) -> Seq<char> {
    trimmed_start(trimmed_end(s))
}

/// The length of `cs` without its trailing whitespace.
fn trimmed_end_len(cs: &Vec<char>) -> (e: usize)
    ensures
        e <= cs@.len(),
        trimmed_end(cs@) == cs@.take(e as int),
{
    let mut e = cs.len();
    assert(cs@.take(e as int) == cs@);
    while e > 0 && char_is_whitespace(cs[e - 1])
        invariant
            e <= cs@.len(),
            trimmed_end(cs@) == trimmed_end(cs@.take(e as int)),
        decreases e,
    {
        assert(cs@.take(e as int).drop_last() == cs@.take(e - 1));
        e = e - 1;
    }
    e
}

/// `s` without trailing whitespace (`str::trim_end`).
pub fn trim_end(s: &str) -> (r: String)
    ensures
        r@ == trimmed_end(s@),
{
    let cs = chars_of(s);
    let e = trimmed_end_len(&cs);
    string_of_range(&cs, 0, e)
}

/// `s` without leading and trailing whitespace (`str::trim`).
pub fn trim(s: &str) -> (r: String)
    ensures
        r@ == trimmed(s@),
{
    let cs = chars_of(s);
    let e = trimmed_end_len(&cs);
    let ghost t = cs@.take(e as int);
    let mut b: usize = 0;
    assert(t.skip(0) == t);
    while b < e && char_is_whitespace(cs[b])
        invariant
            e <= cs@.len(),
            t == cs@.take(e as int),
            b <= e,
            trimmed_start(t) == trimmed_start(t.skip(b as int)),
        decreases e - b,
    {
        assert(t.skip(b as int).drop_first() == t.skip(b + 1));
        b = b + 1;
    }
    assert(t.skip(b as int) == cs@.subrange(b as int, e as int));
    string_of_range(&cs, b, e)
}

// ---------------------------------------------------------------------------
// Replacing
// ---------------------------------------------------------------------------

/// `s` with every non-overlapping occurrence of `pat`, found from left to right, replaced
/// by `rep` (`str::replace` with a non-empty pattern).
pub open spec fn replaced(s: Seq<char>, pat: Seq<char>, rep: Seq<char>) -> Seq<char>
    decreases s.len(),
{
    if pat.len() == 0 || s.len() < pat.len() {
        s
    } else if s.take(pat.len() as int) == pat {
        rep + replaced(s.skip(pat.len() as int), pat, rep)
    } else {
        seq![s[0]] + replaced(s.drop_first(), pat, rep)
    }
}

/// Replaces every occurrence of the non-empty `pat` in `s` by `rep`.
pub fn replace_all(s: &str, pat: &str, rep: &str) -> (r: String)
    requires
        pat@.len() > 0,
    ensures
        r@ == replaced(s@, pat@, rep@),
{
    let cs = chars_of(s);
    let ps = chars_of(pat);
    let n = cs.len();
    let p = ps.len();
    let mut out = String::new();
    let mut i: usize = 0;
    assert(cs@.skip(0) == cs@);
    while i < n
        invariant
            cs@ == s@,
            ps@ == pat@,
            n == cs@.len(),
            p == ps@.len(),
            p > 0,
            i <= n,
            out@ + replaced(cs@.skip(i as int), pat@, rep@) == replaced(s@, pat@, rep@),
        decreases n - i,
    {
        let ghost rest = cs@.skip(i as int);
        if p <= n - i && occurs_at(&cs, &ps, i) {
            assert(rest.take(p as int) == cs@.subrange(i as int, i + p));
            assert(rest.skip(p as int) == cs@.skip(i + p));
            let ghost before = out@;
            push_chars(&mut out, rep);
            assert(out@ + replaced(cs@.skip(i + p), pat@, rep@) == before + (rep@ + replaced(
                cs@.skip(i + p),
                pat@,
                rep@,
            )));
            i = i + p;
        } else {
            if p <= n - i {
                assert(rest.take(p as int) == cs@.subrange(i as int, i + p));
            }
            assert(rest.drop_first() == cs@.skip(i + 1));
            let ghost before = out@;
            push_char(&mut out, cs[i]);
            proof {
                if rest.len() < p {
                    assert(replaced(rest, pat@, rep@) == rest);
                    assert(replaced(rest.drop_first(), pat@, rep@) == rest.drop_first());
                    assert(rest == seq![rest[0]] + rest.drop_first());
                }
            }
            assert(out@ + replaced(cs@.skip(i + 1), pat@, rep@) == before + (seq![cs@[i as int]]
                + replaced(cs@.skip(i + 1), pat@, rep@)));
            i = i + 1;
        }
    }
    assert(cs@.skip(n as int).len() == 0);
    out
}


// ---------------------------------------------------------------------------
// Lines
// ---------------------------------------------------------------------------

/// A line without the carriage return that ends it, if any.
pub open spec fn without_cr(line: Seq<char>) -> Seq<char> {
    if line.len() > 0 && line.last() == '\r' {
        line.drop_last()
    } else {
        line
    }
}

/// The lines of `pending + s`, where `pending` is the start of a line already read.
pub open spec fn lines_from(s: Seq<char>, pending: Seq<char>) -> Seq<Seq<char>>
    decreases s.len(),
{
    if s.len() == 0 {
        if pending.len() == 0 {
            seq![]
        } else {
            seq![pending]
        }
    } else if s[0] == '\n' {
        seq![without_cr(pending)] + lines_from(s.drop_first(), seq![])
    } else {
        lines_from(s.drop_first(), pending.push(s[0]))
    }
}

/// The lines of `s` as `str::lines` splits them: at each `\n`, dropping a `\r` just before
/// it; a final line without `\n` is kept as it is, and nothing follows a final `\n`.
pub open spec fn lines_of(s: Seq<char>) -> Seq<Seq<char>> {
    lines_from(s, seq![])
}

/// The lines of `s` (`str::lines`).
pub fn lines(s: &str) -> (r: Vec<String>)
    ensures
        r.deep_view() == lines_of(s@),
{
    let cs = chars_of(s);
    let n = cs.len();
    let mut out: Vec<String> = Vec::new();
    let mut cur: Vec<char> = Vec::new();
    let mut i: usize = 0;
    assert(cs@.skip(0) == cs@);
    while i < n
        invariant
            cs@ == s@,
            n == cs@.len(),
            i <= n,
            out.deep_view() + lines_from(cs@.skip(i as int), cur@) == lines_of(s@),
        decreases n - i,
    {
        let c = cs[i];
        assert(cs@.skip(i as int).drop_first() == cs@.skip(i + 1));
        assert(cs@.skip(i as int)[0] == c);
        if c == '\n' {
            let k = cur.len();
            let line = if k > 0 && cur[k - 1] == '\r' {
                string_of_range(&cur, 0, k - 1)
            } else {
                string_of(cur.as_slice())
            };
            assert(line@ == without_cr(cur@));
            let ghost before = out.deep_view();
            out.push(line);
            assert(out.deep_view() == before.push(without_cr(cur@)));
            cur = Vec::new();
        } else {
            cur.push(c);
        }
        i = i + 1;
    }
    if cur.len() > 0 {
        let line = string_of(cur.as_slice());
        let ghost before = out.deep_view();
        out.push(line);
        assert(out.deep_view() == before.push(cur@));
    }
    out
}

// ---------------------------------------------------------------------------
// Splitting at a separator
// ---------------------------------------------------------------------------

/// The text of `s` before its first `sep`, or all of it.
pub open spec fn before_sep(s: Seq<char>, sep: char) -> Seq<char>
    decreases s.len(),
{
    if s.len() == 0 {
        s
    } else if s[0] == sep {
        seq![]
    } else {
        seq![s[0]] + before_sep(s.drop_first(), sep)
    }
}

/// The text of `s` after its first `sep`, if it has one.
pub open spec fn after_sep(s: Seq<char>, sep: char) -> Option<Seq<char>>
    decreases s.len(),
{
    if s.len() == 0 {
        None
    } else if s[0] == sep {
        Some(s.drop_first())
    } else {
        after_sep(s.drop_first(), sep)
    }
}

/// `s` split at its first `sep`: the text before it, and the text after it if there is
/// such a separator.
pub fn split_first(s: &str, sep: char) -> (r: (String, Option<String>))
    ensures
        r.0@ == before_sep(s@, sep),
        r.1 matches Some(rest) ==> after_sep(s@, sep) == Some(rest@),
        r.1 is None ==> after_sep(s@, sep) is None,
{
    let cs = chars_of(s);
    let n = cs.len();
    let mut j: usize = 0;
    assert(cs@.skip(0) == cs@);
    assert(cs@.subrange(0, 0) == Seq::<char>::empty());
    while j < n && cs[j] != sep
        invariant
            cs@ == s@,
            n == cs@.len(),
            j <= n,
            after_sep(s@, sep) == after_sep(cs@.skip(j as int), sep),
            before_sep(s@, sep) == cs@.subrange(0, j as int) + before_sep(cs@.skip(j as int), sep),
        decreases n - j,
    {
        assert(cs@.skip(j as int).drop_first() == cs@.skip(j + 1));
        assert(cs@.subrange(0, j + 1) == cs@.subrange(0, j as int) + seq![cs@[j as int]]);
        j = j + 1;
    }
    let before = string_of_range(&cs, 0, j);
    if j == n {
        assert(cs@.subrange(0, j as int) == s@);
        (before, None)
    } else {
        assert(cs@.skip(j as int).drop_first() == cs@.skip(j + 1));
        assert(cs@.skip(j + 1) == cs@.subrange(j + 1, n as int));
        (before, Some(string_of_range(&cs, j + 1, n)))
    }
}

// ---------------------------------------------------------------------------
// Filtering
// ---------------------------------------------------------------------------

/// Filtering then mapping a non-empty sequence: the result for all but the last element,
/// followed by the last element's image when it is kept.
pub proof fn lemma_filter_map_last<A, B>(s: Seq<A>, keep: spec_fn(A) -> bool, f: spec_fn(A) -> B)
    requires
        s.len() > 0,
    ensures
        s.filter(keep).map_values(f) == if keep(s.last()) {
            s.drop_last().filter(keep).map_values(f).push(f(s.last()))
        } else {
            s.drop_last().filter(keep).map_values(f)
        },
{
    reveal(Seq::filter);
    if keep(s.last()) {
        assert(s.filter(keep) == s.drop_last().filter(keep).push(s.last()));
        assert(s.filter(keep).map_values(f) =~= s.drop_last().filter(keep).map_values(f).push(
            f(s.last()),
        ));
    } else {
        assert(s.filter(keep) == s.drop_last().filter(keep));
    }
}

/// Filtering then mapping the empty sequence gives the empty sequence.
pub proof fn lemma_filter_map_empty<A, B>(s: Seq<A>, keep: spec_fn(A) -> bool, f: spec_fn(A) -> B)
    requires
        s.len() == 0,
    ensures
        s.filter(keep).map_values(f) == Seq::<B>::empty(),
{
    reveal(Seq::filter);
    assert(s.filter(keep).map_values(f) =~= Seq::<B>::empty());
}

/// An element that the filter keeps has its image among the results.
pub proof fn lemma_filter_map_keeps<A, B>(
    s: Seq<A>,
    keep: spec_fn(A) -> bool,
    f: spec_fn(A) -> B,
    i: int,
)
    requires
        0 <= i < s.len(),
        keep(s[i]),
    ensures
        s.filter(keep).map_values(f).contains(f(s[i])),
{
    broadcast use vstd::seq_lib::group_filter_ensures;

    assert(s.filter(keep).contains(s[i]));
    let k = choose|k: int| 0 <= k < s.filter(keep).len() && s.filter(keep)[k] == s[i];
    assert(s.filter(keep).map_values(f)[k] == f(s[i]));
}

} // verus!
