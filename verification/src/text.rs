//! Plain-text helpers: lines, trimming, `key=value` files, decimal numbers.
//!
//! Text is modelled as its sequence of characters.

use vstd::prelude::*;
use vstd::string::*;

verus! {

/// `String::push` appends one character.
pub assume_specification[ String::push ](s: &mut String, c: char)
    ensures
        final(s)@ == old(s)@.push(c),
;

/// How `{:?}` writes a string: quoted, with escapes.
pub uninterp spec fn quoted(s: Seq<char>) -> Seq<char>;

/// The `Debug` form of `str`, a function of the string.
#[verifier::external_body]
pub(crate) fn quote(s: &str) -> (r: String)
    ensures
        r@ == quoted(s@),
{
    format!("{s:?}")
}

/// How `{:?}` writes a character: quoted, with escapes.
pub uninterp spec fn quoted_char(c: char) -> Seq<char>;

/// The `Debug` form of `char`, a function of the character.
#[verifier::external_body]
pub(crate) fn quote_char(c: char) -> (r: String)
    ensures
        r@ == quoted_char(c),
{
    format!("{c:?}")
}

/// Characters with the Unicode `White_Space` property.
pub open spec fn white(c: char) -> bool {
    ||| '\u{9}' <= c <= '\u{d}'
    ||| c == ' '
    ||| c == '\u{85}'
    ||| c == '\u{a0}'
    ||| c == '\u{1680}'
    ||| '\u{2000}' <= c <= '\u{200a}'
    ||| c == '\u{2028}'
    ||| c == '\u{2029}'
    ||| c == '\u{202f}'
    ||| c == '\u{205f}'
    ||| c == '\u{3000}'
}

pub fn is_white(c: char) -> (r: bool)
    ensures
        r == white(c),
{
    ('\u{9}' <= c && c <= '\u{d}') || c == ' ' || c == '\u{85}' || c == '\u{a0}' || c == '\u{1680}'
        || ('\u{2000}' <= c && c <= '\u{200a}') || c == '\u{2028}' || c == '\u{2029}' || c
        == '\u{202f}' || c == '\u{205f}' || c == '\u{3000}'
}

/// Text without its trailing white space.
pub open spec fn trim_end(s: Seq<char>) -> Seq<char>
    decreases s.len(),
{
    if s.len() > 0 && white(s.last()) {
        trim_end(s.drop_last())
    } else {
        s
    }
}

/// Text without its leading white space.
pub open spec fn trim_start(s: Seq<char>) -> Seq<char>
    decreases s.len(),
{
    if s.len() > 0 && white(s[0]) {
        trim_start(s.drop_first())
    } else {
        s
    }
}

/// Text without white space at either end.
pub open spec fn trim(s: Seq<char>) -> Seq<char> {
    trim_start(trim_end(s))
}

/// Where `c` first stands in `s`, or the length of `s`.
pub open spec fn first_of(s: Seq<char>, c: char) -> int
    decreases s.len(),
{
    if s.len() == 0 || s[0] == c {
        0
    } else {
        1 + first_of(s.drop_first(), c)
    }
}

pub proof fn lemma_first_of(s: Seq<char>, c: char)
    ensures
        0 <= first_of(s, c) <= s.len(),
        first_of(s, c) < s.len() ==> s[first_of(s, c)] == c,
        forall|i: int| 0 <= i < first_of(s, c) ==> s[i] != c,
    decreases s.len(),
{
    if s.len() > 0 && s[0] != c {
        lemma_first_of(s.drop_first(), c);
        assert forall|i: int| 0 <= i < first_of(s, c) implies s[i] != c by {
            if i > 0 {
                assert(s.drop_first()[i - 1] == s[i]);
            }
        }
    }
}

pub proof fn lemma_first_of_is(s: Seq<char>, c: char, at: int)
    requires
        0 <= at <= s.len(),
        at < s.len() ==> s[at] == c,
        forall|i: int| 0 <= i < at ==> s[i] != c,
    ensures
        first_of(s, c) == at,
{
    lemma_first_of(s, c);
}

/// A line without the carriage return that its line feed followed.
pub open spec fn strip_cr(line: Seq<char>) -> Seq<char> {
    if line.len() > 0 && line.last() == '\r' {
        line.drop_last()
    } else {
        line
    }
}

/// The lines of a text. A line ends with a line feed, or a carriage return and a
/// line feed; the last line's ending is optional.
pub open spec fn lines(text: Seq<char>) -> Seq<Seq<char>>
    decreases text.len(),
    via lines_decreases
{
    if text.len() == 0 {
        Seq::empty()
    } else {
        let n = first_of(text, '\n');
        if n == text.len() {
            seq![text]
        } else {
            seq![strip_cr(text.take(n))] + lines(text.skip(n + 1))
        }
    }
}

#[via_fn]
proof fn lines_decreases(text: Seq<char>) {
    lemma_first_of(text, '\n');
}

/// The lines of a text, each with its line feed; the last may lack one.
pub open spec fn raw_lines(text: Seq<char>) -> Seq<Seq<char>>
    decreases text.len(),
    via raw_lines_decreases
{
    if text.len() == 0 {
        Seq::empty()
    } else {
        let n = first_of(text, '\n');
        if n == text.len() {
            seq![text]
        } else {
            seq![text.take(n + 1)] + raw_lines(text.skip(n + 1))
        }
    }
}

#[via_fn]
proof fn raw_lines_decreases(text: Seq<char>) {
    lemma_first_of(text, '\n');
}

/// The characters of a string.
pub fn to_chars(s: &str) -> (r: Vec<char>)
    ensures
        r@ == s@,
{
    let mut r: Vec<char> = Vec::new();
    for c in it: s.chars()
        invariant
            r@ == it.seq().take(it.index() as int),
            it.seq() == s@,
    {
        r.push(c);
        assert(r@ =~= it.seq().take(it.index() + 1));
    }
    assert(r@ =~= s@);
    r
}

/// The string with these characters.
pub fn from_chars(chars: &[char]) -> (r: String)
    ensures
        r@ == chars@,
{
    let mut r = String::new();
    push_chars(&mut r, chars);
    assert(r@ =~= chars@);
    r
}

/// Append characters to a string.
pub fn push_chars(out: &mut String, chars: &[char])
    ensures
        final(out)@ == old(out)@ + chars@,
{
    let mut i: usize = 0;
    assert(out@ =~= old(out)@ + chars@.take(0));
    while i < chars.len()
        invariant
            i <= chars@.len(),
            out@ == old(out)@ + chars@.take(i as int),
        decreases chars@.len() - i,
    {
        out.push(chars[i]);
        assert(out@ =~= old(out)@ + chars@.take(i + 1));
        i += 1;
    }
    assert(chars@.take(i as int) =~= chars@);
}

/// Whether two texts are the same.
pub fn same_chars(a: &[char], b: &[char]) -> (r: bool)
    ensures
        r == (a@ == b@),
{
    if a.len() != b.len() {
        return false;
    }
    let mut i: usize = 0;
    while i < a.len()
        invariant
            i <= a@.len(),
            a@.len() == b@.len(),
            forall|j: int| 0 <= j < i ==> a@[j] == b@[j],
        decreases a@.len() - i,
    {
        if a[i] != b[i] {
            return false;
        }
        i += 1;
    }
    assert(a@ =~= b@);
    true
}

/// Whether two strings are the same.
pub fn same_str(a: &str, b: &str) -> (r: bool)
    ensures
        r == (a@ == b@),
{
    let x = to_chars(a);
    let y = to_chars(b);
    same_chars(x.as_slice(), y.as_slice())
}

/// The text without its trailing white space.
pub fn trimmed_end<'a>(s: &'a [char]) -> (r: &'a [char])
    ensures
        r@ == trim_end(s@),
{
    let mut end: usize = s.len();
    assert(s@.take(end as int) =~= s@);
    while end > 0 && is_white(s[end - 1])
        invariant
            end <= s@.len(),
            trim_end(s@.take(end as int)) == trim_end(s@),
        decreases end,
    {
        assert(s@.take(end as int).drop_last() =~= s@.take(end - 1));
        end -= 1;
    }
    let r = vstd::slice::slice_subrange(s, 0, end);
    assert(r@ =~= s@.take(end as int));
    r
}

/// The text without its leading white space.
pub fn trimmed_start<'a>(s: &'a [char]) -> (r: &'a [char])
    ensures
        r@ == trim_start(s@),
{
    let mut start: usize = 0;
    assert(s@.skip(0) =~= s@);
    while start < s.len() && is_white(s[start])
        invariant
            start <= s@.len(),
            trim_start(s@.skip(start as int)) == trim_start(s@),
        decreases s@.len() - start,
    {
        assert(s@.skip(start as int).drop_first() =~= s@.skip(start + 1));
        start += 1;
    }
    let r = vstd::slice::slice_subrange(s, start, s.len());
    assert(r@ =~= s@.skip(start as int));
    r
}

/// The text without white space at either end.
pub fn trimmed<'a>(s: &'a [char]) -> (r: &'a [char])
    ensures
        r@ == trim(s@),
{
    trimmed_start(trimmed_end(s))
}

/// Where `c` first stands, or the length of the text.
pub fn find(s: &[char], c: char) -> (at: usize)
    ensures
        at == first_of(s@, c),
{
    let mut i: usize = 0;
    while i < s.len() && s[i] != c
        invariant
            i <= s@.len(),
            forall|j: int| 0 <= j < i ==> s@[j] != c,
        decreases s@.len() - i,
    {
        i += 1;
    }
    proof {
        lemma_first_of_is(s@, c, i as int);
    }
    i
}

/// What a list of texts holds.
pub open spec fn views(v: Seq<Vec<char>>) -> Seq<Seq<char>> {
    v.map_values(|x: Vec<char>| x@)
}

/// Copy of a stretch of text.
pub fn copy_chars(s: &[char]) -> (r: Vec<char>)
    ensures
        r@ == s@,
{
    let mut r: Vec<char> = Vec::new();
    r.extend_from_slice(s);
    assert(r@ =~= s@);
    r
}

/// The lines of a text.
pub fn split_lines(text: &[char]) -> (r: Vec<Vec<char>>)
    ensures
        views(r@) == lines(text@),
{
    let mut r: Vec<Vec<char>> = Vec::new();
    let mut rest: &[char] = text;
    assert(views(r@) + lines(rest@) =~= lines(text@));
    while rest.len() > 0
        invariant
            views(r@) + lines(rest@) == lines(text@),
        decreases rest@.len(),
    {
        let n: usize = find(rest, '\n');
        proof {
            lemma_first_of(rest@, '\n');
        }
        let ghost before = rest@;
        let ghost done = r@;
        if n == rest.len() {
            r.push(copy_chars(rest));
            rest = vstd::slice::slice_subrange(rest, n, n);
            proof {
                assert(views(r@) =~= views(done).push(before));
                assert(views(r@) + lines(rest@) =~= views(done) + lines(before));
            }
        } else {
            let end: usize = if n > 0 && rest[n - 1] == '\r' {
                n - 1
            } else {
                n
            };
            let line = copy_chars(vstd::slice::slice_subrange(rest, 0, end));
            proof {
                assert(line@ =~= strip_cr(before.take(n as int)));
            }
            r.push(line);
            rest = vstd::slice::slice_subrange(rest, n + 1, rest.len());
            proof {
                assert(rest@ =~= before.skip(n + 1));
                assert(views(r@) =~= views(done).push(line@));
                assert(views(r@) + lines(rest@) =~= views(done) + lines(before));
            }
        }
    }
    assert(views(r@) + lines(rest@) =~= views(r@));
    r
}

/// The decimal digit for a number below ten.
pub open spec fn digit_char(d: nat) -> char {
    (48 + d) as char
}

/// A number in decimal.
pub open spec fn decimal(n: nat) -> Seq<char>
    decreases n,
{
    if n < 10 {
        seq![digit_char(n)]
    } else {
        decimal(n / 10).push(digit_char(n % 10))
    }
}

/// Append a number in decimal.
pub fn push_decimal(out: &mut String, n: u64)
    ensures
        final(out)@ == old(out)@ + decimal(n as nat),
    decreases n,
{
    if n >= 10 {
        push_decimal(out, n / 10);
    }
    let d: u8 = 48 + (n % 10) as u8;
    out.push(d as char);
    assert(out@ =~= old(out)@ + decimal(n as nat));
}

/// A decimal digit.
pub open spec fn is_digit(c: char) -> bool {
    '0' <= c <= '9'
}

/// The number that decimal digits spell.
pub open spec fn digits_value(s: Seq<char>) -> nat
    decreases s.len(),
{
    if s.len() == 0 {
        0
    } else {
        digits_value(s.drop_last()) * 10 + (s.last() as int - 48) as nat
    }
}

/// The text behind a leading plus sign, if there is one.
pub open spec fn unsigned(s: Seq<char>) -> Seq<char> {
    if s.len() > 0 && s[0] == '+' {
        s.drop_first()
    } else {
        s
    }
}

/// Decimal digits, at least one.
pub open spec fn all_digits(s: Seq<char>) -> bool {
    s.len() > 0 && forall|i: int| 0 <= i < s.len() ==> is_digit(#[trigger] s[i])
}

/// The number below 65536 that a text spells in decimal, perhaps behind a plus
/// sign.
pub open spec fn parsed_u16(s: Seq<char>) -> Option<u16> {
    let digits = unsigned(s);
    if all_digits(digits) && digits_value(digits) <= 0xffff {
        Some(digits_value(digits) as u16)
    } else {
        None
    }
}

proof fn lemma_digits_value_grows(s: Seq<char>, n: int)
    requires
        0 <= n <= s.len(),
        forall|i: int| 0 <= i < s.len() ==> is_digit(#[trigger] s[i]),
    ensures
        digits_value(s.take(n)) <= digits_value(s),
    decreases s.len() - n,
{
    if n < s.len() {
        lemma_digits_value_grows(s, n + 1);
        assert(s.take(n + 1).drop_last() =~= s.take(n));
    } else {
        assert(s.take(n) =~= s);
    }
}

/// Parse a port number.
pub fn parse_u16(s: &[char]) -> (r: Option<u16>)
    ensures
        r == parsed_u16(s@),
{
    let start: usize = if s.len() > 0 && s[0] == '+' {
        1
    } else {
        0
    };
    let digits = vstd::slice::slice_subrange(s, start, s.len());
    assert(digits@ =~= unsigned(s@));
    if digits.len() == 0 {
        return None;
    }
    let mut value: u32 = 0;
    let mut i: usize = 0;
    while i < digits.len()
        invariant
            i <= digits@.len(),
            0 < digits@.len(),
            digits@ == unsigned(s@),
            value <= 0xffff,
            value == digits_value(digits@.take(i as int)),
            forall|j: int| 0 <= j < i ==> is_digit(#[trigger] digits@[j]),
        decreases digits@.len() - i,
    {
        let c = digits[i];
        if !('0' <= c && c <= '9') {
            assert(!is_digit(digits@[i as int]));
            return None;
        }
        value = value * 10 + (c as u32 - 48);
        assert(digits@.take(i + 1).drop_last() =~= digits@.take(i as int));
        i += 1;
        if value > 0xffff {
            proof {
                if all_digits(digits@) {
                    lemma_digits_value_grows(digits@, i as int);
                }
            }
            return None;
        }
    }
    assert(digits@.take(i as int) =~= digits@);
    Some(value as u16)
}

/// One `key=value` entry.
pub struct Entry {
    pub key: Vec<char>,
    pub value: Vec<char>,
}

/// The entry on a line: what stands before and after its first `=`, trimmed.
pub open spec fn entry_of(line: Seq<char>) -> Option<(Seq<char>, Seq<char>)> {
    let at = first_of(line, '=');
    if at == line.len() {
        None
    } else {
        Some((trim(line.take(at)), trim(line.skip(at + 1))))
    }
}

/// The value for `key` on these lines: that of its last entry.
pub open spec fn value_on(lines: Seq<Seq<char>>, key: Seq<char>) -> Option<Seq<char>>
    decreases lines.len(),
{
    if lines.len() == 0 {
        None
    } else {
        match entry_of(lines.last()) {
            Some((k, v)) if k == key => Some(v),
            _ => value_on(lines.drop_last(), key),
        }
    }
}

/// The value for `key` in a `key=value` text.
pub open spec fn value_in(text: Seq<char>, key: Seq<char>) -> Option<Seq<char>> {
    value_on(lines(text), key)
}

/// The value for `entries`' last occurrence of `key`.
pub open spec fn value_among(entries: Seq<Entry>, key: Seq<char>) -> Option<Seq<char>>
    decreases entries.len(),
{
    if entries.len() == 0 {
        None
    } else if entries.last().key@ == key {
        Some(entries.last().value@)
    } else {
        value_among(entries.drop_last(), key)
    }
}

/// Read a `key=value` text. Lines without `=` are skipped.
pub fn read_kv(text: &str) -> (r: Vec<Entry>)
    ensures
        forall|key: Seq<char>| #[trigger] value_among(r@, key) == value_in(text@, key),
{
    let chars = to_chars(text);
    let all = split_lines(chars.as_slice());
    let mut r: Vec<Entry> = Vec::new();
    let mut i: usize = 0;
    while i < all.len()
        invariant
            i <= all@.len(),
            views(all@) == lines(text@),
            forall|key: Seq<char>| #[trigger]
                value_among(r@, key) == value_on(lines(text@).take(i as int), key),
        decreases all@.len() - i,
    {
        let line = all[i].as_slice();
        assert(line@ == lines(text@)[i as int]) by {
            assert(views(all@)[i as int] == all@[i as int]@);
        }
        let at: usize = find(line, '=');
        proof {
            lemma_first_of(line@, '=');
            assert(lines(text@).take(i + 1).drop_last() =~= lines(text@).take(i as int));
            assert(lines(text@).take(i + 1).last() == line@);
        }
        let ghost before = r@;
        if at < line.len() {
            let key = copy_chars(trimmed(vstd::slice::slice_subrange(line, 0, at)));
            let value = copy_chars(
                trimmed(vstd::slice::slice_subrange(line, at + 1, line.len())),
            );
            proof {
                assert(line@.subrange(0, at as int) =~= line@.take(at as int));
                assert(line@.subrange(at + 1, line@.len() as int) =~= line@.skip(at + 1));
            }
            r.push(Entry { key, value });
            proof {
                assert(r@.drop_last() =~= before);
            }
        }
        proof {
            assert forall|wanted: Seq<char>| #[trigger]
                value_among(r@, wanted) == value_on(lines(text@).take(i + 1), wanted) by {
                assert(value_among(before, wanted) == value_on(
                    lines(text@).take(i as int),
                    wanted,
                ));
            }
        }
        i += 1;
    }
    assert(lines(text@).take(i as int) =~= lines(text@)) by {
        assert(views(all@).len() == all@.len());
    }
    r
}

/// The value for `key`, if there is one.
pub fn get_value<'a>(entries: &'a [Entry], key: &str) -> (r: Option<&'a [char]>)
    ensures
        match r {
            Some(v) => value_among(entries@, key@) == Some(v@),
            None => value_among(entries@, key@) is None,
        },
{
    let wanted = to_chars(key);
    let mut n: usize = entries.len();
    assert(entries@.take(n as int) =~= entries@);
    while n > 0
        invariant
            n <= entries@.len(),
            wanted@ == key@,
            value_among(entries@.take(n as int), key@) == value_among(entries@, key@),
        decreases n,
    {
        let entry = &entries[n - 1];
        proof {
            assert(entries@.take(n as int).drop_last() =~= entries@.take(n - 1));
            assert(entries@.take(n as int).last() == entries@[n - 1]);
        }
        if same_chars(entry.key.as_slice(), wanted.as_slice()) {
            return Some(entry.value.as_slice());
        }
        n -= 1;
    }
    None
}

/// Text that holds no line feed.
pub open spec fn one_line(s: Seq<char>) -> bool {
    forall|i: int| 0 <= i < s.len() ==> s[i] != '\n'
}

/// The first line of a text, and the lines after it.
pub proof fn lemma_lines_first(a: Seq<char>, b: Seq<char>)
    requires
        one_line(a),
    ensures
        lines(a + seq!['\n'] + b) == seq![strip_cr(a)] + lines(b),
{
    let t = a + seq!['\n'] + b;
    lemma_first_of_is(t, '\n', a.len() as int);
    assert(t.take(a.len() as int) =~= a);
    assert(t.skip(a.len() as int + 1) =~= b);
}

/// The first line of a text with its line feed, and the lines after it.
pub proof fn lemma_raw_first(a: Seq<char>, b: Seq<char>)
    requires
        one_line(a),
    ensures
        raw_lines(a + seq!['\n'] + b) == seq![a + seq!['\n']] + raw_lines(b),
{
    let t = a + seq!['\n'] + b;
    lemma_first_of_is(t, '\n', a.len() as int);
    assert(t.take(a.len() as int + 1) =~= a + seq!['\n']);
    assert(t.skip(a.len() as int + 1) =~= b);
}

/// The lines of two texts in a row, the first of which ends with its line.
pub proof fn lemma_raw_concat(a: Seq<char>, b: Seq<char>)
    requires
        a.len() == 0 || a.last() == '\n',
    ensures
        raw_lines(a + b) == raw_lines(a) + raw_lines(b),
    decreases a.len(),
{
    if a.len() == 0 {
        assert(a + b =~= b);
        assert(raw_lines(a) + raw_lines(b) =~= raw_lines(b));
    } else {
        let n = first_of(a, '\n');
        lemma_first_of(a, '\n');
        assert(n < a.len()) by {
            assert(a[a.len() - 1] == '\n');
        }
        let head = a.take(n);
        let tail = a.skip(n + 1);
        assert(a =~= head + seq!['\n'] + tail);
        assert(a + b =~= head + seq!['\n'] + (tail + b));
        lemma_raw_first(head, tail);
        lemma_raw_first(head, tail + b);
        assert(tail.len() > 0 ==> tail.last() == a.last());
        lemma_raw_concat(tail, b);
        assert(raw_lines(a + b) =~= raw_lines(a) + raw_lines(b));
    }
}

/// A line feed at the end makes no difference to trimmed text.
pub proof fn lemma_trim_line(s: Seq<char>)
    ensures
        trim(s.push('\n')) == trim(s),
{
    assert(s.push('\n').drop_last() =~= s);
    assert(white('\n'));
}

/// Text with no white space at either end.
pub open spec fn bare(s: Seq<char>) -> bool {
    s.len() > 0 ==> !white(s[0]) && !white(s.last())
}

/// What a `key=value` line reads as.
pub proof fn lemma_entry_of_line(key: Seq<char>, value: Seq<char>)
    requires
        bare(key),
        bare(value),
        forall|i: int| 0 <= i < key.len() ==> key[i] != '=',
    ensures
        entry_of(key + seq!['='] + value) == Some((key, value)),
{
    let line = key + seq!['='] + value;
    lemma_first_of_is(line, '=', key.len() as int);
    assert(line.take(key.len() as int) =~= key);
    assert(line.skip(key.len() as int + 1) =~= value);
}

/// A number in decimal is made of digits, and they spell it.
pub proof fn lemma_decimal(n: nat)
    ensures
        all_digits(decimal(n)),
        digits_value(decimal(n)) == n,
    decreases n,
{
    if n >= 10 {
        let front = decimal(n / 10);
        lemma_decimal(n / 10);
        assert(decimal(n).drop_last() =~= front);
        assert forall|i: int| 0 <= i < decimal(n).len() implies is_digit(
            #[trigger] decimal(n)[i],
        ) by {
            if i < front.len() {
                assert(decimal(n)[i] == front[i]);
            }
        }
    } else {
        assert(decimal(n).drop_last() =~= Seq::empty());
        assert(digits_value(Seq::empty()) == 0);
    }
}

/// Parsing a number that was written in decimal gives the number back.
pub proof fn law_parse_inverts_decimal(n: u16)
    ensures
        parsed_u16(decimal(n as nat)) == Some(n),
{
    lemma_decimal(n as nat);
    assert(is_digit(decimal(n as nat)[0]));
}

} // verus!
