//! The backing-file format: plain text, one project name per line,
//! newline-terminated. `render_lines` produces the full file text from a
//! list of names; `parse_lines` splits file text back into lines, the way
//! a line-by-line reader does (a line ends at `'\n'` or at the end of the
//! text, and a `'\r'` just before the `'\n'` is dropped).

use vstd::prelude::*;
use vstd::string::StrSliceExecFns;
use vstd::string::StringExecFns;

verus! {

/// The index of the first `'\n'` in `s`, or `s.len()` if there is none.
pub open spec fn find_newline(s: Seq<char>) -> int
    decreases s.len(),
{
    if s.len() == 0 {
        0
    } else if s[0] == '\n' {
        0
    } else {
        1 + find_newline(s.drop_first())
    }
}

pub proof fn lemma_find_newline(s: Seq<char>)
    ensures
        0 <= find_newline(s) <= s.len(),
        forall|k: int| 0 <= k < find_newline(s) ==> s[k] != '\n',
        find_newline(s) < s.len() ==> s[find_newline(s)] == '\n',
    decreases s.len(),
{
    if s.len() > 0 && s[0] != '\n' {
        let t = s.drop_first();
        lemma_find_newline(t);
        assert forall|k: int| 0 <= k < find_newline(s) implies s[k] != '\n' by {
            if k > 0 {
                assert(t[k - 1] == s[k]);
                assert(t[k - 1] != '\n');
            }
        }
    }
}

/// A line as a reader hands it out: the terminating `'\r'` of a `"\r\n"`
/// ending is not part of the line.
pub open spec fn strip_cr(line: Seq<char>) -> Seq<char> {
    if line.len() > 0 && line[line.len() - 1] == '\r' {
        line.drop_last()
    } else {
        line
    }
}

/// The lines of a text, in order: what loading a backing file with these
/// contents yields. A final line without a terminating newline still
/// counts (and keeps a trailing `'\r'`, since no `"\r\n"` ended it).
pub open spec fn parse_spec(s: Seq<char>) -> Seq<Seq<char>>
    decreases s.len(),
    via parse_spec_decreases
{
    if s.len() == 0 {
        Seq::empty()
    } else {
        let i = find_newline(s);
        if i == s.len() {
            seq![s]
        } else {
            seq![strip_cr(s.subrange(0, i))] + parse_spec(s.subrange(i + 1, s.len() as int))
        }
    }
}

#[via_fn]
proof fn parse_spec_decreases(s: Seq<char>) {
    lemma_find_newline(s);
}

/// The file text for a list of names: each name followed by one `'\n'`.
pub open spec fn render_spec(names: Seq<Seq<char>>) -> Seq<char>
    decreases names.len(),
{
    if names.len() == 0 {
        Seq::empty()
    } else {
        names[0] + seq!['\n'] + render_spec(names.drop_first())
    }
}

/// A name the file format can carry on one line: it holds no newline and
/// does not end with a carriage return, so rendering it and reading the
/// line back returns it unchanged.
pub open spec fn valid_name(n: Seq<char>) -> bool {
    (forall|k: int| 0 <= k < n.len() ==> n[k] != '\n') && (n.len() == 0 || n[n.len() - 1] != '\r')
}

proof fn lemma_find_newline_prefix(s: Seq<char>, m: int)
    requires
        0 <= m <= s.len(),
        forall|k: int| 0 <= k < m ==> s[k] != '\n',
        m == s.len() || s[m] == '\n',
    ensures
        find_newline(s) == m,
    decreases m,
{
    if m == 0 {
    } else {
        let t = s.drop_first();
        assert(t =~= s.subrange(1, s.len() as int));
        lemma_find_newline_prefix(t, m - 1);
    }
}

/// Round-trip: rendering any sequence of line-clean names and parsing the
/// rendered text yields the same names, in the same order. Saving a store
/// and loading the saved file therefore restores its project list.
pub proof fn lemma_round_trip(names: Seq<Seq<char>>)
    requires
        forall|i: int| 0 <= i < names.len() ==> valid_name(#[trigger] names[i]),
    ensures
        parse_spec(render_spec(names)) == names,
    decreases names.len(),
{
    if names.len() == 0 {
    } else {
        let h = names[0];
        let rest = names.drop_first();
        let r = render_spec(names);
        let tail = render_spec(rest);
        assert(r == h + seq!['\n'] + tail);
        assert(valid_name(h));
        assert(forall|k: int| 0 <= k < h.len() ==> r[k] == h[k] && r[k] != '\n');
        assert(r[h.len() as int] == '\n');
        lemma_find_newline_prefix(r, h.len() as int);
        assert(r.subrange(0, h.len() as int) =~= h);
        assert(strip_cr(h) == h);
        assert(r.subrange(h.len() as int + 1, r.len() as int) =~= tail);
        assert(forall|i: int| 0 <= i < rest.len() ==> valid_name(#[trigger] rest[i]));
        lemma_round_trip(rest);
        assert(parse_spec(r) == seq![h] + rest);
        assert(seq![h] + rest =~= names);
    }
}

/// Splits file text into its lines: the list of names a load sees.
pub fn parse_lines(s: &str) -> (lines: Vec<String>)
    ensures
        lines.deep_view() == parse_spec(s@),
{
    let len = s.unicode_len();
    let mut lines: Vec<String> = Vec::new();
    let mut start: usize = 0;
    proof {
        assert(s@.subrange(0, len as int) =~= s@);
        assert(lines.deep_view() =~= Seq::<Seq<char>>::empty());
    }
    while start < len
        invariant
            0 <= start <= len,
            len == s@.len(),
            lines.deep_view() + parse_spec(s@.subrange(start as int, len as int)) == parse_spec(
                s@,
            ),
        decreases len - start,
    {
        let ghost t = s@.subrange(start as int, len as int);
        let mut i: usize = start;
        while i < len && !(s.get_char(i) == '\n')
            invariant
                start <= i <= len,
                len == s@.len(),
                forall|k: int| start <= k < i ==> s@[k] != '\n',
            decreases len - i,
        {
            i = i + 1;
        }
        proof {
            assert(forall|k: int| 0 <= k < (i - start) ==> t[k] != '\n');
            lemma_find_newline_prefix(t, i - start);
        }
        let ghost lines0 = lines.deep_view();
        if i == len {
            let line = s.substring_char(start, len).to_owned();
            lines.push(line);
            proof {
                assert(t =~= s@.subrange(start as int, len as int));
                assert(parse_spec(t) == seq![t]);
                assert(lines.deep_view() =~= lines0 + seq![t]);
                assert(s@.subrange(len as int, len as int) =~= Seq::<char>::empty());
                assert(lines.deep_view() + parse_spec(s@.subrange(len as int, len as int))
                    =~= lines0 + parse_spec(t));
            }
            start = len;
        } else {
            let mut end = i;
            if end > start && s.get_char(end - 1) == '\r' {
                end = end - 1;
            }
            let line = s.substring_char(start, end).to_owned();
            lines.push(line);
            proof {
                let raw = t.subrange(0, i - start);
                assert(raw =~= s@.subrange(start as int, i as int));
                assert(strip_cr(raw) =~= s@.subrange(start as int, end as int));
                assert(parse_spec(t) == seq![strip_cr(raw)] + parse_spec(
                    t.subrange(i - start + 1, t.len() as int),
                ));
                assert(t.subrange(i - start + 1, t.len() as int) =~= s@.subrange(
                    i + 1,
                    len as int,
                ));
                assert(lines.deep_view() =~= lines0 + seq![strip_cr(raw)]);
                assert(lines.deep_view() + parse_spec(s@.subrange(i + 1, len as int)) =~= lines0
                    + parse_spec(t));
            }
            start = i + 1;
        }
    }
    proof {
        assert(s@.subrange(start as int, len as int) =~= Seq::<char>::empty());
        assert(lines.deep_view() =~= lines.deep_view() + parse_spec(Seq::<char>::empty()));
    }
    lines
}

proof fn lemma_render_push(names: Seq<Seq<char>>, x: Seq<char>)
    ensures
        render_spec(names.push(x)) == render_spec(names) + x + seq!['\n'],
    decreases names.len(),
{
    if names.len() == 0 {
        assert(names.push(x)[0] == x);
        assert(names.push(x).drop_first() =~= Seq::<Seq<char>>::empty());
        assert(render_spec(Seq::<Seq<char>>::empty()) == Seq::<char>::empty());
        assert(render_spec(names.push(x)) == x + seq!['\n'] + render_spec(
            names.push(x).drop_first(),
        ));
        assert(render_spec(names.push(x)) =~= render_spec(names) + x + seq!['\n']);
    } else {
        assert(names.push(x).drop_first() =~= names.drop_first().push(x));
        lemma_render_push(names.drop_first(), x);
        assert(names.push(x)[0] == names[0]);
        assert(render_spec(names.push(x)) == names[0] + seq!['\n'] + render_spec(
            names.drop_first().push(x),
        ));
        assert(render_spec(names) == names[0] + seq!['\n'] + render_spec(names.drop_first()));
        assert(render_spec(names.drop_first().push(x)) == render_spec(names.drop_first()) + x
            + seq!['\n']);
        let p = names[0] + seq!['\n'];
        let b = render_spec(names.drop_first());
        vstd::seq_lib::lemma_concat_associative(p, b + x, seq!['\n']);
        vstd::seq_lib::lemma_concat_associative(p, b, x);
        assert(render_spec(names.push(x)) == render_spec(names) + x + seq!['\n']);
    }
}

/// Builds the full file text for a list of names, one per line: what a
/// save writes to the backing file.
pub fn render_lines(names: &Vec<String>) -> (out: String)
    ensures
        out@ == render_spec(names.deep_view()),
{
    let mut out = String::new();
    let mut k: usize = 0;
    proof {
        reveal_strlit("\n");
        assert(out@ =~= render_spec(names.deep_view().take(0)));
    }
    while k < names.len()
        invariant
            0 <= k <= names.len(),
            out@ == render_spec(names.deep_view().take(k as int)),
        decreases names.len() - k,
    {
        let ghost before = names.deep_view().take(k as int);
        out.append(names[k].as_str());
        out.append("\n");
        proof {
            reveal_strlit("\n");
            assert("\n"@ =~= seq!['\n']);
            lemma_render_push(before, names.deep_view()[k as int]);
            assert(names.deep_view().take(k + 1) =~= before.push(names.deep_view()[k as int]));
        }
        k = k + 1;
    }
    proof {
        assert(names.deep_view().take(names.deep_view().len() as int) =~= names.deep_view());
    }
    out
}

} // verus!
