//! The managed block in the hosts file.

use vstd::prelude::*;
use vstd::string::*;

use crate::resolver::render;

verus! {

/// A line that opens a managed block.
pub open spec fn opens(line: Seq<char>) -> bool {
    crate::guarantees::reading::trims(line, "# >>> spa-agent (managed) >>>"@)
}

/// A line that closes a managed block.
pub open spec fn closes(line: Seq<char>) -> bool {
    crate::guarantees::reading::trims(line, "# <<< spa-agent (managed) <<<"@)
}

/// Line `i` stands behind a line that opens a block which no line has closed since.
pub open spec fn inside(ps: Seq<Seq<char>>, i: int) -> bool {
    exists|j: int|
        0 <= j < i && opens(#[trigger] ps[j]) && forall|k: int|
            j < k < i ==> !closes(#[trigger] ps[k])
}

/// Line `i` is no part of a managed block.
pub open spec fn kept(ps: Seq<Seq<char>>, i: int) -> bool {
    !opens(ps[i]) && !closes(ps[i]) && !inside(ps, i)
}

/// `ix` are the places, from `from` on, of the lines that are no part of a managed
/// block, in order.
pub open spec fn keeps(ps: Seq<Seq<char>>, ix: Seq<int>, from: int) -> bool {
    &&& forall|k: int|
        0 <= k < ix.len() ==> from <= #[trigger] ix[k] < ps.len() && kept(ps, ix[k])
    &&& forall|k: int, l: int| 0 <= k < l < ix.len() ==> #[trigger] ix[k] < #[trigger] ix[l]
    &&& forall|i: int| from <= i < ps.len() && #[trigger] kept(ps, i) ==> ix.contains(i)
}

/// The lines at these places.
pub open spec fn lines_at(ps: Seq<Seq<char>>, ix: Seq<int>) -> Seq<Seq<char>> {
    Seq::new(ix.len(), |k: int| ps[ix[k]])
}

proof fn lemma_markers(line: Seq<char>)
    ensures
        opens(line) == (crate::text::trim(line) == crate::resolver::BEGIN@),
        closes(line) == (crate::text::trim(line) == crate::resolver::END@),
        !(opens(line) && closes(line)),
{
    crate::guarantees::reading::lemma_trims(line);
    if opens(line) {
        crate::guarantees::reading::lemma_trims_once(line, "# >>> spa-agent (managed) >>>"@);
    }
    if closes(line) {
        crate::guarantees::reading::lemma_trims_once(line, "# <<< spa-agent (managed) <<<"@);
    }
    reveal_strlit("# >>> spa-agent (managed) >>>");
    reveal_strlit("# <<< spa-agent (managed) <<<");
    assert("# >>> spa-agent (managed) >>>"@[2] != "# <<< spa-agent (managed) <<<"@[2]);
}

/// Whether the next line stands inside a block.
proof fn lemma_inside_next(ps: Seq<Seq<char>>, p: int)
    requires
        0 <= p < ps.len(),
    ensures
        inside(ps, p + 1) == (opens(ps[p]) || !closes(ps[p]) && inside(ps, p)),
{
    lemma_markers(ps[p]);
    if opens(ps[p]) {
        assert(inside(ps, p + 1));
    } else if inside(ps, p + 1) {
        let j = choose|j: int|
            0 <= j < p + 1 && opens(#[trigger] ps[j]) && forall|k: int|
                j < k < p + 1 ==> !closes(#[trigger] ps[k]);
        assert(j < p);
        assert(!closes(ps[p]));
        assert(inside(ps, p));
    } else if inside(ps, p) && !closes(ps[p]) {
        let j = choose|j: int|
            0 <= j < p && opens(#[trigger] ps[j]) && forall|k: int|
                j < k < p ==> !closes(#[trigger] ps[k]);
        assert(opens(ps[j]));
        assert forall|k: int| j < k < p + 1 implies !closes(#[trigger] ps[k]) by {}
        assert(inside(ps, p + 1));
    }
}

proof fn lemma_kept_from(ps: Seq<Seq<char>>, p: int) -> (ix: Seq<int>)
    requires
        0 <= p <= ps.len(),
    ensures
        keeps(ps, ix, p),
        crate::resolver::outside(ps.skip(p), inside(ps, p)) == lines_at(ps, ix),
    decreases ps.len() - p,
{
    if p == ps.len() {
        let ix = Seq::<int>::empty();
        assert(crate::resolver::outside(ps.skip(p), inside(ps, p)) =~= lines_at(ps, ix));
        ix
    } else {
        let rest = lemma_kept_from(ps, p + 1);
        lemma_markers(ps[p]);
        lemma_inside_next(ps, p);
        let now = ps.skip(p);
        assert(now[0] == ps[p]);
        assert(now.drop_first() =~= ps.skip(p + 1));
        if kept(ps, p) {
            let ix = seq![p] + rest;
            assert forall|k: int| 0 <= k < ix.len() implies p <= #[trigger] ix[k] < ps.len()
                && kept(ps, ix[k]) by {
                if k > 0 {
                    assert(ix[k] == rest[k - 1]);
                }
            }
            assert forall|k: int, l: int| 0 <= k < l < ix.len() implies #[trigger] ix[k]
                < #[trigger] ix[l] by {
                assert(ix[l] == rest[l - 1]);
                if k > 0 {
                    assert(ix[k] == rest[k - 1]);
                }
            }
            assert forall|i: int| p <= i < ps.len() && #[trigger] kept(ps, i) implies ix.contains(
                i,
            ) by {
                if i > p {
                    assert(rest.contains(i));
                    let k = choose|k: int| 0 <= k < rest.len() && rest[k] == i;
                    assert(ix[k + 1] == i);
                } else {
                    assert(ix[0] == i);
                }
            }
            assert(lines_at(ps, ix) =~= seq![ps[p]] + lines_at(ps, rest));
            ix
        } else {
            assert forall|i: int| p <= i < ps.len() && #[trigger] kept(
                ps,
                i,
            ) implies rest.contains(i) by {
                assert(i > p);
            }
            rest
        }
    }
}

proof fn lemma_join(lines: Seq<Seq<char>>)
    ensures
        crate::resolver::join(lines) == lines.flatten(),
    decreases lines.len(),
{
    if lines.len() > 0 {
        lemma_join(lines.drop_first());
    }
    assert(crate::resolver::join(lines) =~= lines.flatten());
}

/// An address and its name, as a line.
pub open spec fn entry_line(entry: (String, String)) -> Seq<char> {
    entry.1@ + "\t"@ + entry.0@ + "\n"@
}

proof fn lemma_body(entries: Seq<(String, String)>)
    ensures
        crate::resolver::body(entries) == entries.map_values(
            |entry: (String, String)| entry_line(entry),
        ).flatten(),
    decreases entries.len(),
{
    let all = entries.map_values(|entry: (String, String)| entry_line(entry));
    if entries.len() > 0 {
        let less = entries.drop_last();
        lemma_body(less);
        let front = less.map_values(|entry: (String, String)| entry_line(entry));
        let last = entry_line(entries.last());
        reveal_strlit("\t");
        reveal_strlit("\n");
        assert("\t"@ =~= seq!['\t']);
        assert("\n"@ =~= seq!['\n']);
        assert(all =~= front.push(last));
        front.lemma_flatten_push(last);
        assert(crate::resolver::body(entries) =~= all.flatten());
    } else {
        assert(crate::resolver::body(entries) =~= all.flatten());
    }
}

/// Every line outside managed blocks is kept as it is, in order, and no line of a
/// managed block is. Behind them stands a block with one line for each entry, in
/// order, if there are any; an unfinished line in front of it is finished.
pub proof fn law_render(existing: &str, entries: &[(String, String)], out: String)
    requires
        call_ensures(render, (existing, entries), out),
    ensures
        exists|ps: Seq<Seq<char>>, ix: Seq<int>|
            #![trigger crate::guarantees::reading::pieces(existing@, ps), keeps(ps, ix, 0)]
            crate::guarantees::reading::pieces(existing@, ps) && keeps(ps, ix, 0) && out@ == ({
                let rest = lines_at(ps, ix).flatten();
                if entries@.len() == 0 {
                    rest
                } else {
                    rest + (if rest.len() > 0 && rest.last() != '\n' {
                        "\n"@
                    } else {
                        ""@
                    }) + "# >>> spa-agent (managed) >>>"@ + "\n"@ + entries@.map_values(
                        |entry: (String, String)| entry_line(entry),
                    ).flatten() + "# <<< spa-agent (managed) <<<"@ + "\n"@
                }
            }),
{
    let ps = crate::text::raw_lines(existing@);
    crate::guarantees::reading::lemma_pieces(existing@);
    let ix = lemma_kept_from(ps, 0);
    assert(ps.skip(0) =~= ps);
    assert(!inside(ps, 0));
    let rest = lines_at(ps, ix).flatten();
    lemma_join(lines_at(ps, ix));
    lemma_body(entries@);
    reveal_strlit("\n");
    reveal_strlit("");
    assert("\n"@ =~= seq!['\n']);
    assert(rest == crate::resolver::unmanaged(existing@));
    if entries@.len() > 0 {
        let lines = entries@.map_values(
            |entry: (String, String)| entry_line(entry),
        ).flatten();
        let gap = if rest.len() > 0 && rest.last() != '\n' {
            "\n"@
        } else {
            ""@
        };
        assert(crate::resolver::finish(rest) =~= rest + gap);
        assert(out@ =~= rest + gap + "# >>> spa-agent (managed) >>>"@ + "\n"@ + lines
            + "# <<< spa-agent (managed) <<<"@ + "\n"@);
    }
}

} // verus!
