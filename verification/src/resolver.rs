//! Name resolution for mesh services: a managed block in the hosts file. The
//! block stands between two marker lines and is rewritten whole; everything
//! outside it is left untouched.

use vstd::prelude::*;
use vstd::string::*;

use crate::text::{find, push_chars, same_chars, to_chars, trimmed};

verus! {

/// The line that opens the managed block.
pub const BEGIN: &'static str = "# >>> spa-agent (managed) >>>";

/// The line that closes the managed block.
pub const END: &'static str = "# <<< spa-agent (managed) <<<";

/// A line that opens or closes a managed block.
pub open spec fn marker(line: Seq<char>) -> bool {
    crate::text::trim(line) == BEGIN@ || crate::text::trim(line) == END@
}

/// The lines that stand outside managed blocks, reading on from inside one or
/// not.
pub open spec fn outside(lines: Seq<Seq<char>>, in_block: bool) -> Seq<Seq<char>>
    decreases lines.len(),
{
    if lines.len() == 0 {
        Seq::empty()
    } else {
        let rest = lines.drop_first();
        if crate::text::trim(lines[0]) == BEGIN@ {
            outside(rest, true)
        } else if crate::text::trim(lines[0]) == END@ {
            outside(rest, false)
        } else if in_block {
            outside(rest, true)
        } else {
            seq![lines[0]] + outside(rest, false)
        }
    }
}

/// Lines in a row.
pub open spec fn join(lines: Seq<Seq<char>>) -> Seq<char>
    decreases lines.len(),
{
    if lines.len() == 0 {
        Seq::empty()
    } else {
        lines[0] + join(lines.drop_first())
    }
}

/// A hosts-file text without its managed blocks.
pub open spec fn unmanaged(existing: Seq<char>) -> Seq<char> {
    join(outside(crate::text::raw_lines(existing), false))
}

/// The lines of the managed block, one for each name and its address.
pub open spec fn body(entries: Seq<(String, String)>) -> Seq<char>
    decreases entries.len(),
{
    if entries.len() == 0 {
        Seq::empty()
    } else {
        body(entries.drop_last()) + entries.last().1@ + seq!['\t'] + entries.last().0@ + seq![
            '\n',
        ]
    }
}

/// The managed block.
pub open spec fn block(entries: Seq<(String, String)>) -> Seq<char> {
    BEGIN@ + seq!['\n'] + body(entries) + END@ + seq!['\n']
}

/// Text whose last line, if there is one, ends with a line feed.
pub open spec fn finished(text: Seq<char>) -> bool {
    text.len() == 0 || text.last() == '\n'
}

/// Text with its last line finished.
pub open spec fn finish(text: Seq<char>) -> Seq<char> {
    if finished(text) {
        text
    } else {
        text.push('\n')
    }
}

/// The hosts-file text for `entries`: what stands outside managed blocks, as it
/// is, and the block behind it. Without entries there is no block.
pub open spec fn rendered(existing: Seq<char>, entries: Seq<(String, String)>) -> Seq<char> {
    if entries.len() == 0 {
        unmanaged(existing)
    } else {
        finish(unmanaged(existing)) + block(entries)
    }
}

/// Rewrite hosts-file text so that its managed block reflects `entries`. Without
/// entries the block is removed. The rest is kept verbatim; only where a block
/// follows an unfinished line is that line finished.
pub fn render(existing: &str, entries: &[(String, String)]) -> (out: String)
    ensures
        out@ == rendered(existing@, entries@),
{
    let text = to_chars(existing);
    let begin = to_chars(BEGIN);
    let end = to_chars(END);
    let mut kept: Vec<char> = Vec::new();
    let mut in_block: bool = false;
    let mut rest: &[char] = text.as_slice();
    assert(kept@ + join(outside(crate::text::raw_lines(rest@), false)) =~= unmanaged(existing@));
    while rest.len() > 0
        invariant
            begin@ == BEGIN@,
            end@ == END@,
            kept@ + join(outside(crate::text::raw_lines(rest@), in_block)) == unmanaged(existing@),
        decreases rest@.len(),
    {
        let n: usize = find(rest, '\n');
        proof {
            crate::text::lemma_first_of(rest@, '\n');
        }
        let stop: usize = if n < rest.len() {
            n + 1
        } else {
            n
        };
        let line = vstd::slice::slice_subrange(rest, 0, stop);
        let ghost lines = crate::text::raw_lines(rest@);
        let ghost before = kept@;
        rest = vstd::slice::slice_subrange(rest, stop, rest.len());
        proof {
            assert(lines.drop_first() =~= crate::text::raw_lines(rest@));
            assert(lines[0] =~= line@);
        }
        let core = trimmed(line);
        if same_chars(core, begin.as_slice()) {
            in_block = true;
        } else if same_chars(core, end.as_slice()) {
            in_block = false;
        } else if !in_block {
            kept.extend_from_slice(line);
            proof {
                let tail = outside(lines.drop_first(), false);
                assert((seq![line@] + tail).drop_first() =~= tail);
                assert(kept@ + join(tail) =~= before + join(seq![line@] + tail));
            }
        }
    }
    assert(kept@ =~= unmanaged(existing@));
    let mut out = String::new();
    push_chars(&mut out, kept.as_slice());
    assert(out@ =~= unmanaged(existing@));
    if entries.len() == 0 {
        return out;
    }
    if kept.len() > 0 && kept[kept.len() - 1] != '\n' {
        out.push('\n');
    }
    let ghost top = out@;
    assert(top =~= finish(unmanaged(existing@)));
    out.append(BEGIN);
    out.push('\n');
    let ghost head = out@;
    let mut k: usize = 0;
    assert(out@ =~= head + body(entries@.take(0)));
    while k < entries.len()
        invariant
            k <= entries@.len(),
            out@ == head + body(entries@.take(k as int)),
        decreases entries@.len() - k,
    {
        out.append(entries[k].1.as_str());
        out.push('\t');
        out.append(entries[k].0.as_str());
        out.push('\n');
        proof {
            assert(entries@.take(k + 1).drop_last() =~= entries@.take(k as int));
            assert(out@ =~= head + body(entries@.take(k + 1)));
        }
        k += 1;
    }
    assert(entries@.take(k as int) =~= entries@);
    out.append(END);
    out.push('\n');
    assert(out@ =~= top + block(entries@));
    out
}

proof fn lemma_join_concat(a: Seq<Seq<char>>, b: Seq<Seq<char>>)
    ensures
        join(a + b) == join(a) + join(b),
    decreases a.len(),
{
    if a.len() == 0 {
        assert(a + b =~= b);
        assert(join(a) + join(b) =~= join(b));
    } else {
        lemma_join_concat(a.drop_first(), b);
        assert((a + b).drop_first() =~= a.drop_first() + b);
        assert(join(a + b) =~= join(a) + join(b));
    }
}

proof fn lemma_join_one(l: Seq<char>)
    ensures
        join(seq![l]) == l,
{
    assert(seq![l].drop_first() =~= Seq::<Seq<char>>::empty());
    assert(join(Seq::<Seq<char>>::empty()) =~= Seq::empty());
    assert(join(seq![l]) =~= l);
}

/// A list of lines as a text splits into them: each holds something, ends with
/// its only line feed, and none but the last may lack it.
spec fn proper(ls: Seq<Seq<char>>) -> bool {
    forall|i: int|
        0 <= i < ls.len() ==> (#[trigger] ls[i]).len() > 0 && crate::text::one_line(
            ls[i].drop_last(),
        ) && (i < ls.len() - 1 ==> ls[i].last() == '\n')
}

proof fn lemma_proper_rest(ls: Seq<Seq<char>>)
    requires
        proper(ls),
        ls.len() > 0,
    ensures
        proper(ls.drop_first()),
{
    let rest = ls.drop_first();
    assert forall|i: int| 0 <= i < rest.len() implies (#[trigger] rest[i]).len() > 0
        && crate::text::one_line(rest[i].drop_last()) && (i < rest.len() - 1 ==> rest[i].last()
        == '\n') by {
        assert(rest[i] == ls[i + 1]);
    }
}

/// A text splits into proper lines, and they make up the text.
proof fn lemma_raw_lines_proper(text: Seq<char>)
    ensures
        proper(crate::text::raw_lines(text)),
        join(crate::text::raw_lines(text)) == text,
    decreases text.len(),
{
    if text.len() > 0 {
        let n = crate::text::first_of(text, '\n');
        crate::text::lemma_first_of(text, '\n');
        let ls = crate::text::raw_lines(text);
        if n == text.len() {
            lemma_join_one(text);
        } else {
            let tail = text.skip(n + 1);
            let rest = crate::text::raw_lines(tail);
            lemma_raw_lines_proper(tail);
            assert(ls.drop_first() =~= rest);
            assert forall|i: int| 0 <= i < ls.len() implies (#[trigger] ls[i]).len() > 0
                && crate::text::one_line(ls[i].drop_last()) && (i < ls.len() - 1 ==> ls[i].last()
                == '\n') by {
                if i > 0 {
                    assert(ls[i] == rest[i - 1]);
                } else {
                    assert(ls[0].drop_last() =~= text.take(n));
                }
            }
            assert(join(ls) =~= text.take(n + 1) + tail);
        }
    }
}

/// A proper line that does not end with a line feed holds none.
proof fn lemma_unfinished_line(l: Seq<char>)
    requires
        l.len() > 0,
        crate::text::one_line(l.drop_last()),
        l.last() != '\n',
    ensures
        crate::text::one_line(l),
{
    assert forall|j: int| 0 <= j < l.len() implies l[j] != '\n' by {
        if j < l.len() - 1 {
            assert(l.drop_last()[j] == l[j]);
        }
    }
}

/// Proper lines in a row split into the same lines again.
proof fn lemma_raw_lines_of_join(ls: Seq<Seq<char>>)
    requires
        proper(ls),
    ensures
        crate::text::raw_lines(join(ls)) == ls,
    decreases ls.len(),
{
    if ls.len() > 0 {
        let rest = ls.drop_first();
        lemma_proper_rest(ls);
        lemma_raw_lines_of_join(rest);
        let line = ls[0];
        let head = line.drop_last();
        if line.last() == '\n' {
            assert(line =~= head + seq!['\n']);
            crate::text::lemma_raw_first(head, join(rest));
            assert(crate::text::raw_lines(join(ls)) =~= ls);
        } else {
            assert(rest =~= Seq::<Seq<char>>::empty());
            assert(join(ls) =~= line);
            lemma_unfinished_line(line);
            crate::text::lemma_first_of_is(line, '\n', line.len() as int);
            assert(crate::text::raw_lines(line) =~= ls);
        }
    }
}

/// What stands outside managed blocks is made of proper lines, none a marker.
proof fn lemma_outside_kept(ls: Seq<Seq<char>>, in_block: bool)
    requires
        proper(ls),
    ensures
        proper(outside(ls, in_block)),
        forall|i: int|
            0 <= i < outside(ls, in_block).len() ==> !marker(#[trigger] outside(ls, in_block)[i]),
        outside(ls, in_block).len() <= ls.len(),
    decreases ls.len(),
{
    if ls.len() > 0 {
        let rest = ls.drop_first();
        lemma_proper_rest(ls);
        lemma_outside_kept(rest, true);
        lemma_outside_kept(rest, false);
        if !marker(ls[0]) && !in_block {
            let tail = outside(rest, false);
            let kept = outside(ls, in_block);
            assert(kept == seq![ls[0]] + tail);
            assert forall|i: int| 0 <= i < kept.len() implies (#[trigger] kept[i]).len() > 0
                && crate::text::one_line(kept[i].drop_last()) && (i < kept.len() - 1
                ==> kept[i].last() == '\n') && !marker(kept[i]) by {
                if i > 0 {
                    assert(kept[i] == tail[i - 1]);
                } else {
                    assert(kept[0] == ls[0]);
                }
            }
        }
    }
}

proof fn lemma_outside_no_markers(a: Seq<Seq<char>>, b: Seq<Seq<char>>)
    requires
        forall|i: int| 0 <= i < a.len() ==> !marker(#[trigger] a[i]),
    ensures
        outside(a + b, false) == a + outside(b, false),
    decreases a.len(),
{
    if a.len() == 0 {
        assert(a + b =~= b);
        assert(a + outside(b, false) =~= outside(b, false));
    } else {
        let rest = a.drop_first();
        assert forall|i: int| 0 <= i < rest.len() implies !marker(#[trigger] rest[i]) by {
            assert(rest[i] == a[i + 1]);
        }
        lemma_outside_no_markers(rest, b);
        assert((a + b).drop_first() =~= rest + b);
        assert(!marker(a[0]));
        assert(outside(a + b, false) =~= a + outside(b, false));
    }
}

/// A closing marker behind other lines adds nothing outside.
proof fn lemma_outside_then_end(a: Seq<Seq<char>>, last: Seq<char>, in_block: bool)
    requires
        crate::text::trim(last) == END@,
        BEGIN@ != END@,
    ensures
        outside(a + seq![last], in_block) == outside(a, in_block),
    decreases a.len(),
{
    if a.len() == 0 {
        assert(a + seq![last] =~= seq![last]);
        assert(seq![last].drop_first() =~= Seq::<Seq<char>>::empty());
        assert(outside(seq![last], in_block) == outside(Seq::empty(), false));
    } else {
        let rest = a.drop_first();
        lemma_outside_then_end(rest, last, true);
        lemma_outside_then_end(rest, last, false);
        assert((a + seq![last]).drop_first() =~= rest + seq![last]);
        assert((a + seq![last])[0] == a[0]);
    }
}

proof fn lemma_markers()
    ensures
        crate::text::trim(BEGIN@ + seq!['\n']) == BEGIN@,
        crate::text::trim(END@ + seq!['\n']) == END@,
        BEGIN@ != END@,
        crate::text::one_line(BEGIN@),
        crate::text::one_line(END@),
{
    reveal_strlit("# >>> spa-agent (managed) >>>");
    reveal_strlit("# <<< spa-agent (managed) <<<");
    assert(BEGIN@[2] == '>');
    assert(END@[2] == '<');
    crate::text::lemma_trim_line(BEGIN@);
    crate::text::lemma_trim_line(END@);
    assert(BEGIN@ + seq!['\n'] =~= BEGIN@.push('\n'));
    assert(END@ + seq!['\n'] =~= END@.push('\n'));
}

/// Entries whose lines do not close their own block early: read inside the
/// block, they leave nothing behind.
pub open spec fn contained(entries: Seq<(String, String)>) -> bool {
    join(outside(crate::text::raw_lines(body(entries)), true)).len() == 0
}

proof fn lemma_body_finished(entries: Seq<(String, String)>)
    ensures
        finished(body(entries)),
{
}

/// The lines of a managed block leave nothing outside it.
proof fn lemma_block_outside(entries: Seq<(String, String)>)
    requires
        contained(entries),
    ensures
        join(outside(crate::text::raw_lines(block(entries)), false)).len() == 0,
{
    lemma_markers();
    lemma_body_finished(entries);
    let inner = body(entries);
    let first = BEGIN@ + seq!['\n'];
    let last = END@ + seq!['\n'];
    assert(block(entries) =~= BEGIN@ + seq!['\n'] + (inner + last));
    crate::text::lemma_raw_first(BEGIN@, inner + last);
    crate::text::lemma_raw_concat(inner, last);
    assert(last =~= END@ + seq!['\n'] + Seq::empty());
    crate::text::lemma_raw_first(END@, Seq::empty());
    assert(crate::text::raw_lines(last) =~= seq![last]);
    let ls = crate::text::raw_lines(inner);
    let all = seq![first] + (ls + seq![last]);
    assert(crate::text::raw_lines(block(entries)) =~= all);
    assert(all.drop_first() =~= ls + seq![last]);
    assert(outside(all, false) == outside(ls + seq![last], true));
    lemma_outside_then_end(ls, last, true);
}

/// Finished text splits into lines that hold no marker, if it held none before
/// it was finished.
proof fn lemma_finish_lines(ls: Seq<Seq<char>>)
    requires
        proper(ls),
        forall|i: int| 0 <= i < ls.len() ==> !marker(#[trigger] ls[i]),
    ensures
        finished(finish(join(ls))),
        forall|i: int|
            0 <= i < crate::text::raw_lines(finish(join(ls))).len() ==> !marker(
                #[trigger] crate::text::raw_lines(finish(join(ls)))[i],
            ),
{
    lemma_raw_lines_of_join(ls);
    let t = join(ls);
    if !finished(t) {
        let n = ls.len() - 1;
        assert(ls.len() > 0);
        let front = ls.take(n);
        let l = ls[n];
        let more = front.push(l.push('\n'));
        assert(ls =~= front + seq![l]);
        lemma_join_concat(front, seq![l]);
        lemma_join_one(l);
        assert(more =~= front + seq![l.push('\n')]);
        lemma_join_concat(front, seq![l.push('\n')]);
        lemma_join_one(l.push('\n'));
        assert(finish(t) =~= join(more));
        assert(t.last() == l.last());
        crate::text::lemma_trim_line(l);
        assert(l.push('\n').drop_last() =~= l);
        lemma_unfinished_line(l);
        assert forall|i: int| 0 <= i < more.len() implies (#[trigger] more[i]).len() > 0
            && crate::text::one_line(more[i].drop_last()) && (i < more.len() - 1
            ==> more[i].last() == '\n') && !marker(more[i]) by {
            if i < n {
                assert(more[i] == ls[i]);
            } else {
                assert(!marker(ls[n]));
            }
        }
        lemma_raw_lines_of_join(more);
    }
}

/// A text without marker lines is left untouched: without entries it comes out
/// as it went in, and else the block is put behind it.
pub proof fn law_unmarked_text_is_untouched(existing: Seq<char>, entries: Seq<(String, String)>)
    requires
        forall|i: int|
            0 <= i < crate::text::raw_lines(existing).len() ==> !marker(
                #[trigger] crate::text::raw_lines(existing)[i],
            ),
    ensures
        unmanaged(existing) == existing,
        rendered(existing, Seq::empty()) == existing,
        entries.len() > 0 ==> rendered(existing, entries) == finish(existing) + block(entries),
{
    let ls = crate::text::raw_lines(existing);
    lemma_raw_lines_proper(existing);
    lemma_outside_no_markers(ls, Seq::empty());
    assert(ls + Seq::empty() =~= ls);
    assert(ls + outside(Seq::empty(), false) =~= ls);
}

/// The block can be rewritten any number of times: what stands outside it after
/// a rewrite is what stood outside it before, with its last line finished where
/// a block was put behind it.
pub proof fn law_rest_is_kept(existing: Seq<char>, entries: Seq<(String, String)>)
    requires
        contained(entries),
    ensures
        unmanaged(rendered(existing, entries)) == if entries.len() == 0 {
            unmanaged(existing)
        } else {
            finish(unmanaged(existing))
        },
{
    let kept = outside(crate::text::raw_lines(existing), false);
    let t = unmanaged(existing);
    lemma_raw_lines_proper(existing);
    lemma_outside_kept(crate::text::raw_lines(existing), false);
    lemma_raw_lines_of_join(kept);
    if entries.len() == 0 {
        law_unmarked_text_is_untouched(t, entries);
    } else {
        lemma_finish_lines(kept);
        let top = finish(t);
        let ls = crate::text::raw_lines(top);
        let inner = crate::text::raw_lines(block(entries));
        crate::text::lemma_raw_concat(top, block(entries));
        lemma_outside_no_markers(ls, inner);
        lemma_join_concat(ls, outside(inner, false));
        lemma_raw_lines_proper(top);
        lemma_block_outside(entries);
        assert(unmanaged(rendered(existing, entries)) =~= top);
    }
}

/// Rendering is settled by the last call: rendering again, with any entries,
/// gives what rendering those entries at once would have given. So rendering
/// the same entries twice changes nothing, and rendering none removes the block.
/// Only the line feed that finished a line in front of a block stays behind when
/// that block is removed.
pub proof fn law_last_render_wins(
    existing: Seq<char>,
    first: Seq<(String, String)>,
    second: Seq<(String, String)>,
)
    requires
        contained(first),
        first.len() == 0 || second.len() > 0 || finished(unmanaged(existing)),
    ensures
        rendered(rendered(existing, first), second) == rendered(existing, second),
{
    law_rest_is_kept(existing, first);
}

/// Rendering the same entries again changes nothing.
pub proof fn law_render_is_idempotent(existing: Seq<char>, entries: Seq<(String, String)>)
    requires
        contained(entries),
    ensures
        rendered(rendered(existing, entries), entries) == rendered(existing, entries),
{
    law_last_render_wins(existing, entries, entries);
}

/// One line of the managed block: an entry without line feeds that is not the
/// closing marker itself.
pub open spec fn plain_entry(entry: (String, String)) -> bool {
    &&& crate::text::one_line(entry.0@)
    &&& crate::text::one_line(entry.1@)
    &&& crate::text::trim(entry.1@ + seq!['\t'] + entry.0@) != END@
}

/// Plain entries are contained.
pub proof fn law_plain_entries_are_contained(entries: Seq<(String, String)>)
    requires
        forall|i: int| 0 <= i < entries.len() ==> plain_entry(#[trigger] entries[i]),
    ensures
        contained(entries),
{
    lemma_plain_body(entries);
    lemma_outside_never_closed(crate::text::raw_lines(body(entries)));
}

/// No line of a body of plain entries closes the block.
proof fn lemma_plain_body(entries: Seq<(String, String)>)
    requires
        forall|i: int| 0 <= i < entries.len() ==> plain_entry(#[trigger] entries[i]),
    ensures
        forall|i: int|
            0 <= i < crate::text::raw_lines(body(entries)).len() ==> crate::text::trim(
                #[trigger] crate::text::raw_lines(body(entries))[i],
            ) != END@,
    decreases entries.len(),
{
    if entries.len() > 0 {
        let less = entries.drop_last();
        let last = entries.last();
        assert forall|i: int| 0 <= i < less.len() implies plain_entry(#[trigger] less[i]) by {
            assert(less[i] == entries[i]);
        }
        lemma_plain_body(less);
        assert(plain_entry(entries[entries.len() - 1]));
        let line = last.1@ + seq!['\t'] + last.0@;
        let whole = line + seq!['\n'];
        lemma_body_finished(less);
        assert(body(entries) =~= body(less) + whole);
        crate::text::lemma_raw_concat(body(less), whole);
        assert(whole =~= line + seq!['\n'] + Seq::empty());
        crate::text::lemma_raw_first(line, Seq::empty());
        assert(crate::text::raw_lines(whole) =~= seq![whole]);
        crate::text::lemma_trim_line(line);
        assert(whole =~= line.push('\n'));
        let ls = crate::text::raw_lines(body(less));
        assert(crate::text::raw_lines(body(entries)) =~= ls.push(whole));
    } else {
        assert(body(entries).len() == 0);
    }
}

/// Inside a block that is never closed, nothing stands outside.
proof fn lemma_outside_never_closed(ls: Seq<Seq<char>>)
    requires
        forall|i: int| 0 <= i < ls.len() ==> crate::text::trim(#[trigger] ls[i]) != END@,
    ensures
        outside(ls, true).len() == 0,
    decreases ls.len(),
{
    if ls.len() > 0 {
        let rest = ls.drop_first();
        assert(crate::text::trim(ls[0]) != END@);
        assert forall|i: int| 0 <= i < rest.len() implies crate::text::trim(#[trigger] rest[i])
            != END@ by {
            assert(rest[i] == ls[i + 1]);
        }
        lemma_outside_never_closed(rest);
    }
}

} // verus!
