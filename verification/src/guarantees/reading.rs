//! Reading and writing text.

use vstd::prelude::*;
use vstd::string::*;

use crate::hexcode;
use crate::hexcode::HexError;
use crate::provision::{read_key, write_key};
use crate::text::{
    copy_chars, find, from_chars, get_value, is_white, parse_u16, push_chars, push_decimal, read_kv, same_chars,
    same_str, split_lines, to_chars, trimmed, trimmed_end, trimmed_start, Entry,
};

verus! {

/// White space, by number.
pub open spec fn blank(c: char) -> bool {
    let n = c as int;
    9 <= n <= 13 || n == 0x20 || n == 0x85 || n == 0xa0 || n == 0x1680 || 0x2000 <= n <= 0x200a || n
        == 0x2028 || n == 0x2029 || n == 0x202f || n == 0x205f || n == 0x3000
}

/// From `a` up to `b` there is nothing but white space.
pub open spec fn blank_between(s: Seq<char>, a: int, b: int) -> bool {
    forall|i: int| a <= i < b ==> blank(#[trigger] s[i])
}

/// What stands from `a` up to `b` is all of `s` but the white space at its ends.
pub open spec fn core_between(s: Seq<char>, a: int, b: int) -> bool {
    &&& 0 <= a <= b <= s.len()
    &&& blank_between(s, 0, a)
    &&& blank_between(s, b, s.len() as int)
    &&& a < b ==> !blank(s[a]) && !blank(s[b - 1])
}

/// `t` is `s` without the white space at its ends.
pub open spec fn trims(s: Seq<char>, t: Seq<char>) -> bool {
    exists|a: int, b: int| #[trigger] core_between(s, a, b) && t == s.subrange(a, b)
}

/// White space is what counts as such.
pub proof fn law_is_white(c: char, r: bool)
    requires
        call_ensures(is_white, (c,), r),
    ensures
        r == blank(c),
{
}

proof fn lemma_trim_end(s: Seq<char>) -> (b: int)
    ensures
        0 <= b <= s.len(),
        crate::text::trim_end(s) == s.take(b),
        blank_between(s, b, s.len() as int),
        b > 0 ==> !blank(s[b - 1]),
    decreases s.len(),
{
    if s.len() > 0 && crate::text::white(s.last()) {
        let less = s.drop_last();
        let b = lemma_trim_end(less);
        assert(less.take(b) =~= s.take(b));
        assert forall|i: int| b <= i < s.len() implies blank(#[trigger] s[i]) by {
            if i < less.len() {
                assert(less[i] == s[i]);
            }
        }
        b
    } else {
        assert(s.take(s.len() as int) =~= s);
        s.len() as int
    }
}

proof fn lemma_trim_start(s: Seq<char>) -> (a: int)
    ensures
        0 <= a <= s.len(),
        crate::text::trim_start(s) == s.skip(a),
        blank_between(s, 0, a),
        a < s.len() ==> !blank(s[a]),
    decreases s.len(),
{
    if s.len() > 0 && crate::text::white(s[0]) {
        let less = s.drop_first();
        let a = lemma_trim_start(less);
        assert(less.skip(a) =~= s.skip(a + 1));
        assert forall|i: int| 0 <= i < a + 1 implies blank(#[trigger] s[i]) by {
            if i > 0 {
                assert(less[i - 1] == s[i]);
            }
        }
        assert(a < less.len() ==> less[a] == s[a + 1]);
        a + 1
    } else {
        assert(s.skip(0) =~= s);
        0
    }
}

/// Trimmed text is the text without the white space at its ends.
pub(crate) proof fn lemma_trims(s: Seq<char>)
    ensures
        trims(s, crate::text::trim(s)),
{
    let b = lemma_trim_end(s);
    let front = s.take(b);
    let a = lemma_trim_start(front);
    assert(front.skip(a) =~= s.subrange(a, b));
    assert forall|i: int| 0 <= i < a implies blank(#[trigger] s[i]) by {
        assert(front[i] == s[i]);
    }
    assert(a < b ==> front[a] == s[a]);
    assert(core_between(s, a, b));
}

/// There is one way to trim a text.
pub(crate) proof fn lemma_trims_once(s: Seq<char>, t: Seq<char>)
    requires
        trims(s, t),
    ensures
        t == crate::text::trim(s),
{
    lemma_trims(s);
    let u = crate::text::trim(s);
    let (a, b) = choose|a: int, b: int| #[trigger] core_between(s, a, b) && t == s.subrange(a, b);
    let (c, d) = choose|c: int, d: int| #[trigger] core_between(s, c, d) && u == s.subrange(c, d);
    if a < b {
        assert(!blank(s[a]) && !blank(s[b - 1]));
        assert(c <= a && b <= d);
        assert(!blank(s[c]) && !blank(s[d - 1]));
        assert(a <= c && d <= b);
    } else {
        assert(c == d) by {
            if c < d {
                assert(!blank(s[c]));
                assert(c < a ==> blank(s[c]));
                assert(c >= b ==> blank(s[c]));
            }
        }
        assert(t =~= u);
    }
}

/// Trimming takes the white space at the ends, and nothing else.
pub proof fn law_trimmed(s: &[char], both: &[char], end: &[char], start: &[char])
    requires
        call_ensures(trimmed, (s,), both),
        call_ensures(trimmed_end, (s,), end),
        call_ensures(trimmed_start, (s,), start),
    ensures
        trims(s@, both@),
        exists|b: int|
            0 <= b <= s@.len() && end@ == #[trigger] s@.take(b) && blank_between(
                s@,
                b,
                s@.len() as int,
            ) && (b > 0 ==> !blank(s@[b - 1])),
        exists|a: int|
            0 <= a <= s@.len() && start@ == #[trigger] s@.skip(a) && blank_between(s@, 0, a) && (a
                < s@.len() ==> !blank(s@[a])),
{
    lemma_trims(s@);
    let b = lemma_trim_end(s@);
    let a = lemma_trim_start(s@);
    assert(end@ == s@.take(b));
    assert(start@ == s@.skip(a));
}

/// A character is found where it first stands.
pub proof fn law_find(s: &[char], c: char, at: usize)
    requires
        call_ensures(find, (s, c), at),
    ensures
        at <= s@.len(),
        forall|i: int| 0 <= i < at ==> #[trigger] s@[i] != c,
        at < s@.len() ==> s@[at as int] == c,
{
    crate::text::lemma_first_of(s@, c);
}

/// Characters and strings are taken apart and put together as they are.
pub proof fn law_characters(
    text: &str,
    chars: Vec<char>,
    back: &[char],
    again: String,
    copy: Vec<char>,
)
    requires
        call_ensures(to_chars, (text,), chars),
        call_ensures(from_chars, (back,), again),
        call_ensures(copy_chars, (back,), copy),
    ensures
        chars@ == text@,
        again@ == back@,
        copy@ == back@,
{
}

/// Characters are put behind what is there.
pub proof fn law_push_chars(out: &mut String, chars: &[char])
    requires
        call_ensures(push_chars, (out, chars), ()),
    ensures
        final(out)@ == old(out)@ + chars@,
{
}

/// Texts are the same if they hold the same characters.
pub proof fn law_same(a: &[char], b: &[char], r: bool, x: &str, y: &str, q: bool)
    requires
        call_ensures(same_chars, (a, b), r),
        call_ensures(same_str, (x, y), q),
    ensures
        r == (a@ == b@),
        q == (x@ == y@),
{
}

/// `ps` is `text`, cut behind each line feed.
pub open spec fn pieces(text: Seq<char>, ps: Seq<Seq<char>>) -> bool {
    &&& ps.flatten() == text
    &&& forall|i: int| 0 <= i < ps.len() ==> piece(#[trigger] ps[i])
    &&& forall|i: int| 0 <= i < ps.len() - 1 ==> (#[trigger] ps[i]).last() == '\n'
}

/// Something that holds a line feed at its end or nowhere.
pub open spec fn piece(p: Seq<char>) -> bool {
    p.len() > 0 && forall|j: int| 0 <= j < p.len() - 1 ==> #[trigger] p[j] != '\n'
}

/// A line without its ending: a line feed, or a carriage return and a line feed.
pub open spec fn unended(p: Seq<char>) -> Seq<char> {
    if p.last() != '\n' {
        p
    } else if p.len() >= 2 && p[p.len() - 2] == '\r' {
        p.take(p.len() - 2)
    } else {
        p.take(p.len() - 1)
    }
}

/// A text's lines, with and without their endings.
pub(crate) proof fn lemma_pieces(text: Seq<char>)
    ensures
        pieces(text, crate::text::raw_lines(text)),
        crate::text::lines(text).len() == crate::text::raw_lines(text).len(),
        forall|i: int|
            0 <= i < crate::text::lines(text).len() ==> #[trigger] crate::text::lines(text)[i]
                == unended(crate::text::raw_lines(text)[i]),
    decreases text.len(),
{
    let ps = crate::text::raw_lines(text);
    let ls = crate::text::lines(text);
    if text.len() > 0 {
        let n = crate::text::first_of(text, '\n');
        crate::text::lemma_first_of(text, '\n');
        if n == text.len() {
            assert(ps =~= seq![text]);
            ps.lemma_flatten_one_element();
            assert(ps.flatten() =~= text);
        } else {
            let tail = text.skip(n + 1);
            let rest = crate::text::raw_lines(tail);
            lemma_pieces(tail);
            let first = text.take(n + 1);
            assert(ps =~= seq![first] + rest);
            assert(ps.drop_first() =~= rest);
            assert(ps.flatten() =~= text);
            assert(piece(first));
            assert forall|i: int| 0 <= i < ps.len() implies piece(#[trigger] ps[i]) by {
                if i > 0 {
                    assert(ps[i] == rest[i - 1]);
                }
            }
            assert forall|i: int| 0 <= i < ps.len() - 1 implies (#[trigger] ps[i]).last()
                == '\n' by {
                if i > 0 {
                    assert(ps[i] == rest[i - 1]);
                }
            }
            let less = crate::text::lines(tail);
            assert(ls =~= seq![crate::text::strip_cr(text.take(n))] + less);
            assert forall|i: int| 0 <= i < ls.len() implies #[trigger] ls[i] == unended(ps[i]) by {
                if i > 0 {
                    assert(ls[i] == less[i - 1]);
                    assert(ps[i] == rest[i - 1]);
                } else {
                    assert(crate::text::strip_cr(text.take(n)) =~= unended(first));
                }
            }
        }
    } else {
        assert(ps.flatten() =~= text);
    }
}

/// A text's lines are what stands between its line endings.
pub proof fn law_split_lines(text: &[char], r: Vec<Vec<char>>)
    requires
        call_ensures(split_lines, (text,), r),
    ensures
        exists|ps: Seq<Seq<char>>| #[trigger]
            pieces(text@, ps) && ps.len() == r@.len() && forall|i: int|
                0 <= i < ps.len() ==> (#[trigger] r@[i])@ == unended(ps[i]),
{
    lemma_pieces(text@);
    let ps = crate::text::raw_lines(text@);
    assert forall|i: int| 0 <= i < ps.len() implies (#[trigger] r@[i])@ == unended(ps[i]) by {
        assert(crate::text::views(r@)[i] == r@[i]@);
    }
}

/// The number that digits spell.
pub open spec fn value(d: Seq<char>) -> int {
    d.fold_left(0, |n: int, c: char| 10 * n + (c as int - 48))
}

/// `d` is nothing but digits, at least one.
pub open spec fn digits(d: Seq<char>) -> bool {
    d.len() > 0 && forall|i: int| 0 <= i < d.len() ==> 48 <= (#[trigger] d[i]) as int <= 57
}

/// `d` is how a number is written: its digits, with no needless zero in front.
pub open spec fn writes(d: Seq<char>, n: int) -> bool {
    digits(d) && value(d) == n && (d.len() > 1 ==> d[0] as int != 48)
}

proof fn lemma_value(d: Seq<char>)
    requires
        forall|i: int| 0 <= i < d.len() ==> 48 <= (#[trigger] d[i]) as int <= 57,
    ensures
        value(d) == crate::text::digits_value(d),
    decreases d.len(),
{
    if d.len() > 0 {
        let less = d.drop_last();
        assert forall|i: int| 0 <= i < less.len() implies 48 <= (#[trigger] less[i]) as int
            <= 57 by {
            assert(less[i] == d[i]);
        }
        assert(48 <= d[d.len() - 1] as int <= 57);
        lemma_value(less);
    }
}

/// A number in decimal is how it is written.
pub(crate) proof fn lemma_writes(n: nat)
    ensures
        writes(crate::text::decimal(n), n as int),
        n > 0 ==> crate::text::decimal(n)[0] as int != 48,
    decreases n,
{
    let d = crate::text::decimal(n);
    crate::text::lemma_decimal(n);
    assert forall|i: int| 0 <= i < d.len() implies 48 <= (#[trigger] d[i]) as int <= 57 by {
        assert(crate::text::is_digit(d[i]));
    }
    lemma_value(d);
    if n >= 10 {
        lemma_writes(n / 10);
        assert(d[0] == crate::text::decimal(n / 10)[0]);
    }
}

/// A number is put behind what is there, as it is written.
pub proof fn law_push_decimal(out: &mut String, n: u64)
    requires
        call_ensures(push_decimal, (out, n), ()),
    ensures
        exists|d: Seq<char>| #[trigger] writes(d, n as int) && final(out)@ == old(out)@ + d,
{
    lemma_writes(n as nat);
}

/// A port number is read exactly if it is digits, perhaps behind a plus sign, that
/// spell a number below 65536; and then as that number.
pub proof fn law_parse_u16(s: &[char], r: Option<u16>)
    requires
        call_ensures(parse_u16, (s,), r),
    ensures
        ({
            let d = if s@.len() > 0 && s@[0] == '+' {
                s@.skip(1)
            } else {
                s@
            };
            if digits(d) && value(d) < 65536 {
                r is Some && r->0 == value(d)
            } else {
                r is None
            }
        }),
{
    let d = if s@.len() > 0 && s@[0] == '+' {
        s@.skip(1)
    } else {
        s@
    };
    assert(crate::text::unsigned(s@) =~= d);
    if digits(d) {
        lemma_value(d);
        assert forall|i: int| 0 <= i < d.len() implies crate::text::is_digit(#[trigger] d[i]) by {
            assert(48 <= d[i] as int <= 57);
        }
    } else if crate::text::all_digits(d) {
        assert forall|i: int| 0 <= i < d.len() implies 48 <= (#[trigger] d[i]) as int <= 57 by {
            assert(crate::text::is_digit(d[i]));
        }
    }
}

/// The value of a hexadecimal digit, of either case.
pub open spec fn nibble(b: u8) -> Option<int> {
    if 48 <= b <= 57 {
        Some(b - 48)
    } else if 65 <= b <= 70 {
        Some(b - 55)
    } else if 97 <= b <= 102 {
        Some(b - 87)
    } else {
        None
    }
}

/// What a text is read as in hexadecimal: two digits a byte. Text of an odd length is
/// refused, and so is the first byte of it that is no digit.
pub open spec fn spelled(text: Seq<char>, r: Result<Seq<u8>, HexError>) -> bool {
    let b = vstd::utf8::encode_utf8(text);
    match r {
        Ok(bytes) => b.len() == 2 * bytes.len() && forall|i: int|
            0 <= i < bytes.len() ==> nibble(b[2 * i]) is Some && nibble(b[2 * i + 1]) is Some
                && #[trigger] bytes[i] == 16 * nibble(b[2 * i])->0 + nibble(b[2 * i + 1])->0,
        Err(HexError::OddLength) => b.len() % 2 == 1,
        Err(HexError::InvalidCharacter { c, index }) => b.len() % 2 == 0 && exists|k: int|
            0 <= k < b.len() && nibble(#[trigger] b[k]) is None && (forall|j: int|
                0 <= j < k ==> nibble(#[trigger] b[j]) is Some) && index == k as usize && c as int
                == b[k],
        Err(HexError::InvalidLength) => false,
    }
}

/// Hexadecimal text is read as what it spells.
pub(crate) proof fn lemma_spelled(text: Seq<char>)
    ensures
        spelled(text, hexcode::unhexed(text)),
{
    let b = vstd::utf8::encode_utf8(text);
    hexcode::lemma_first_bad(b);
    assert forall|j: int| 0 <= j < b.len() implies nibble(#[trigger] b[j]) is Some
        == hexcode::digit(b[j]) is Some && (nibble(b[j]) is Some ==> nibble(b[j])->0
        == hexcode::digit(b[j])->0) by {}
    match hexcode::unhexed(text) {
        Ok(bytes) => {
            assert forall|i: int| 0 <= i < bytes.len() implies nibble(b[2 * i]) is Some && nibble(
                b[2 * i + 1],
            ) is Some && #[trigger] bytes[i] == 16 * nibble(b[2 * i])->0 + nibble(
                b[2 * i + 1],
            )->0 by {
                assert(hexcode::digit(b[2 * i]) is Some);
                assert(hexcode::digit(b[2 * i + 1]) is Some);
            }
        },
        Err(HexError::InvalidCharacter { c, index }) => {
            let k = hexcode::first_bad(b);
            assert(nibble(b[k]) is None);
            assert forall|j: int| 0 <= j < k implies nibble(#[trigger] b[j]) is Some by {
                assert(hexcode::digit(b[j]) is Some);
            }
        },
        _ => {},
    }
}

/// The lower-case hexadecimal digit for a number below sixteen, by number.
pub open spec fn hex_char(n: int) -> int {
    if n < 10 {
        48 + n
    } else {
        87 + n
    }
}

/// A key is written as two lower-case digits for each byte, and what is read is what
/// the text without the white space at its ends spells.
pub proof fn law_keys_in_hexadecimal(
    key: &[u8],
    text: String,
    file: &str,
    r: Result<Vec<u8>, HexError>,
)
    requires
        call_ensures(write_key, (key,), text),
        call_ensures(read_key, (file,), r),
    ensures
        text@.len() == 2 * key@.len(),
        forall|i: int|
            0 <= i < key@.len() ==> text@[2 * i] as int == hex_char(#[trigger] key@[i] as int / 16)
                && text@[2 * i + 1] as int == hex_char(key@[i] as int % 16),
        exists|core: Seq<char>| #[trigger]
            trims(file@, core) && spelled(
                core,
                match r {
                    Ok(bytes) => Ok(bytes@),
                    Err(e) => Err(e),
                },
            ),
{
    lemma_trims(file@);
    lemma_spelled(crate::text::trim(file@));
    assert forall|i: int| 0 <= i < key@.len() implies text@[2 * i] as int == hex_char(
        #[trigger] key@[i] as int / 16,
    ) && text@[2 * i + 1] as int == hex_char(key@[i] as int % 16) by {
        assert(text@[2 * i] == hexcode::hexed(key@)[2 * i]);
        assert(text@[2 * i + 1] == hexcode::hexed(key@)[2 * i + 1]);
    }
}

/// A line sets `key` to `value`: they stand before and behind its first `=`, with
/// white space at their ends or not.
pub open spec fn sets(line: Seq<char>, key: Seq<char>, value: Seq<char>) -> bool {
    exists|at: int|
        0 <= at < line.len() && #[trigger] line[at] == '=' && (forall|j: int|
            0 <= j < at ==> line[j] != '=') && trims(line.take(at), key) && trims(
            line.skip(at + 1),
            value,
        )
}

/// What a text's lines set a key to: what the last of them that sets it does.
pub open spec fn told(lines: Seq<Vec<char>>, key: Seq<char>, value: Option<Seq<char>>) -> bool {
    match value {
        Some(value) => exists|i: int|
            0 <= i < lines.len() && sets((#[trigger] lines[i])@, key, value) && forall|
                j: int,
                other: Seq<char>,
            |
                i < j < lines.len() ==> !(#[trigger] sets(lines[j]@, key, other)),
        None => forall|j: int, other: Seq<char>|
            0 <= j < lines.len() ==> !(#[trigger] sets(lines[j]@, key, other)),
    }
}

proof fn lemma_entry_sets(line: Seq<char>)
    ensures
        crate::text::entry_of(line) matches Some((k, v)) ==> sets(line, k, v),
        forall|k: Seq<char>, v: Seq<char>| #[trigger]
            sets(line, k, v) ==> crate::text::entry_of(line) == Some((k, v)),
{
    let at = crate::text::first_of(line, '=');
    crate::text::lemma_first_of(line, '=');
    if at < line.len() {
        lemma_trims(line.take(at));
        lemma_trims(line.skip(at + 1));
        assert(line[at] == '=');
    }
    assert forall|k: Seq<char>, v: Seq<char>| #[trigger]
        sets(line, k, v) implies crate::text::entry_of(line) == Some((k, v)) by {
        let n = choose|n: int|
            0 <= n < line.len() && #[trigger] line[n] == '=' && (forall|j: int|
                0 <= j < n ==> line[j] != '=') && trims(line.take(n), k) && trims(
                line.skip(n + 1),
                v,
            );
        crate::text::lemma_first_of_is(line, '=', n);
        lemma_trims_once(line.take(n), k);
        lemma_trims_once(line.skip(n + 1), v);
    }
}

proof fn lemma_told(lines: Seq<Vec<char>>, key: Seq<char>)
    ensures
        told(lines, key, crate::text::value_on(crate::text::views(lines), key)),
    decreases lines.len(),
{
    let vs = crate::text::views(lines);
    if lines.len() > 0 {
        let n = lines.len() - 1;
        let less = lines.drop_last();
        lemma_told(less, key);
        assert(crate::text::views(less) =~= vs.drop_last());
        assert(vs[n] == lines[n]@);
        lemma_entry_sets(lines[n]@);
        match crate::text::entry_of(lines[n]@) {
            Some((k, v)) if k == key => {
                assert(sets(lines[n]@, key, v));
            },
            _ => {
                assert(forall|v: Seq<char>| !(#[trigger] sets(lines[n]@, key, v)));
                let found = crate::text::value_on(vs.drop_last(), key);
                if let Some(v) = found {
                    let i = choose|i: int|
                        0 <= i < less.len() && sets((#[trigger] less[i])@, key, v) && forall|
                            j: int,
                            other: Seq<char>,
                        |
                            i < j < less.len() ==> !(#[trigger] sets(less[j]@, key, other));
                    assert(lines[i] == less[i]);
                    assert forall|j: int, other: Seq<char>| i < j < lines.len() implies !(
                    #[trigger] sets(lines[j]@, key, other)) by {
                        if j < n {
                            assert(less[j] == lines[j]);
                        }
                    }
                } else {
                    assert forall|j: int, other: Seq<char>| 0 <= j < lines.len() implies !(
                    #[trigger] sets(lines[j]@, key, other)) by {
                        if j < n {
                            assert(less[j] == lines[j]);
                        }
                    }
                }
            },
        }
    }
}

/// A key has the value that the last line which sets it gives it, and none if no
/// line sets it.
pub proof fn law_key_has_its_last_value(
    text: &str,
    chars: &[char],
    lines: Vec<Vec<char>>,
    entries: Vec<Entry>,
    read: &[Entry],
    key: &str,
    r: Option<&[char]>,
)
    requires
        call_ensures(read_kv, (text,), entries),
        read@ == entries@,
        call_ensures(get_value, (read, key), r),
        chars@ == text@,
        call_ensures(split_lines, (chars,), lines),
    ensures
        told(
            lines@,
            key@,
            match r {
                Some(value) => Some(value@),
                None => None,
            },
        ),
{
    lemma_told(lines@, key@);
    assert(crate::text::value_among(read@, key@) == crate::text::value_in(text@, key@));
}

} // verus!
