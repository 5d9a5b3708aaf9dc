//! Line-level filtering of utility output: splitting into lines as
//! `str::lines` does, trimming white space, dropping blank and header lines,
//! and joining the survivors with commas.

use vstd::prelude::*;

use vstd::string::StrSliceExecFns;

use crate::text::push_char;

verus! {

/// A character with the Unicode White_Space property, the set `str::trim`
/// strips from both ends.
pub open spec fn is_space(c: char) -> bool {
    ||| c == '\t'
    ||| c == '\n'
    ||| c == '\u{b}'
    ||| c == '\u{c}'
    ||| c == '\r'
    ||| c == ' '
    ||| c == '\u{85}'
    ||| c == '\u{a0}'
    ||| c == '\u{1680}'
    ||| ('\u{2000}' <= c && c <= '\u{200a}')
    ||| c == '\u{2028}'
    ||| c == '\u{2029}'
    ||| c == '\u{202f}'
    ||| c == '\u{205f}'
    ||| c == '\u{3000}'
}

/// The sequence with leading white space removed.
pub open spec fn trim_start_of(s: Seq<char>) -> Seq<char>
    decreases s.len(),
{
    if s.len() > 0 && is_space(s[0]) {
        trim_start_of(s.drop_first())
    } else {
        s
    }
}

/// The sequence with trailing white space removed.
pub open spec fn trim_end_of(s: Seq<char>) -> Seq<char>
    decreases s.len(),
{
    if s.len() > 0 && is_space(s.last()) {
        trim_end_of(s.drop_last())
    } else {
        s
    }
}

/// The sequence with white space removed from both ends, as `str::trim`
/// removes it.
pub open spec fn trim_of(s: Seq<char>) -> Seq<char> {
    trim_end_of(trim_start_of(s))
}

/// Index of the first line feed, or the length of the text when it has none.
pub open spec fn first_line_feed(s: Seq<char>) -> nat
    decreases s.len(),
{
    if s.len() == 0 {
        0
    } else if s[0] == '\n' {
        0
    } else {
        1 + first_line_feed(s.drop_first())
    }
}

proof fn lemma_first_line_feed_concat(s: Seq<char>, t: Seq<char>)
    requires
        forall|j: int| 0 <= j < s.len() ==> s[j] != '\n',
    ensures
        first_line_feed(s + t) == s.len() + first_line_feed(t),
    decreases s.len(),
{
    if s.len() == 0 {
        assert(s + t =~= t);
    } else {
        assert((s + t)[0] == s[0]);
        assert((s + t).drop_first() =~= s.drop_first() + t);
        lemma_first_line_feed_concat(s.drop_first(), t);
    }
}

/// A line terminated by a line feed loses one carriage return just before
/// it, as `str::lines` strips it.
pub open spec fn strip_final_cr(line: Seq<char>) -> Seq<char> {
    if line.len() > 0 && line.last() == '\r' {
        line.drop_last()
    } else {
        line
    }
}

/// The lines of the text as `str::lines` yields them: terminators are a
/// line feed or a carriage return followed by a line feed, and the final
/// terminator is optional. A carriage return not followed by a line feed
/// stays in its line.
pub open spec fn lines_of(s: Seq<char>) -> Seq<Seq<char>>
    decreases s.len(),
{
    if s.len() == 0 {
        Seq::<Seq<char>>::empty()
    } else {
        let n = first_line_feed(s) as int;
        if n >= s.len() {
            seq![s]
        } else {
            seq![strip_final_cr(s.take(n))] + lines_of(s.skip(n + 1))
        }
    }
}

/// A line survives the filter when its trimmed text is neither empty nor
/// the header token.
pub open spec fn keep_line(line: Seq<char>, header: Seq<char>) -> bool {
    trim_of(line).len() != 0 && trim_of(line) != header
}

/// The lines that survive the filter, in order.
pub open spec fn kept_lines(ls: Seq<Seq<char>>, header: Seq<char>) -> Seq<Seq<char>>
    decreases ls.len(),
{
    if ls.len() == 0 {
        Seq::<Seq<char>>::empty()
    } else if keep_line(ls.last(), header) {
        kept_lines(ls.drop_last(), header).push(ls.last())
    } else {
        kept_lines(ls.drop_last(), header)
    }
}

/// The sequences joined with a single comma between neighbours.
pub open spec fn join_commas(parts: Seq<Seq<char>>) -> Seq<char>
    decreases parts.len(),
{
    if parts.len() == 0 {
        Seq::<char>::empty()
    } else if parts.len() == 1 {
        parts[0]
    } else {
        join_commas(parts.drop_last()) + seq![','] + parts.last()
    }
}

/// What filtering raw utility output means: keep the lines whose trimmed
/// text is neither empty nor the header token, untrimmed, and join them
/// with commas.
pub open spec fn filtered_of(raw: Seq<char>, header: Seq<char>) -> Seq<char> {
    join_commas(kept_lines(lines_of(raw), header))
}

/// The views of a vector of lines.
pub open spec fn views_of(ls: Seq<Vec<char>>) -> Seq<Seq<char>> {
    ls.map_values(|l: Vec<char>| l@)
}

/// Whether the character is Unicode white space.
fn char_is_space(c: char) -> (b: bool)
    ensures
        b == is_space(c),
{
    c == '\t' || c == '\n' || c == '\u{b}' || c == '\u{c}' || c == '\r' || c == ' '
        || c == '\u{85}' || c == '\u{a0}' || c == '\u{1680}' || ('\u{2000}' <= c && c
        <= '\u{200a}') || c == '\u{2028}' || c == '\u{2029}' || c == '\u{202f}' || c == '\u{205f}'
        || c == '\u{3000}'
}

/// The characters of a string, in order.
fn str_chars(s: &str) -> (v: Vec<char>)
    ensures
        v@ == s@,
{
    let n = s.unicode_len();
    let mut v: Vec<char> = Vec::new();
    let mut i: usize = 0;
    while i < n
        invariant
            n == s@.len(),
            i <= n,
            v@ == s@.take(i as int),
        decreases n - i,
    {
        let c = s.get_char(i);
        v.push(c);
        proof {
            assert(s@.take(i as int + 1) =~= s@.take(i as int).push(s@[i as int]));
        }
        i = i + 1;
    }
    proof {
        assert(s@.take(n as int) =~= s@);
    }
    v
}

/// The line with white space trimmed from both ends.
fn trim_chars(line: &Vec<char>) -> (t: Vec<char>)
    ensures
        t@ == trim_of(line@),
{
    let mut lo: usize = 0;
    proof {
        assert(line@.skip(0) =~= line@);
    }
    while lo < line.len() && char_is_space(line[lo])
        invariant
            lo <= line@.len(),
            trim_start_of(line@) == trim_start_of(line@.skip(lo as int)),
        decreases line@.len() - lo,
    {
        proof {
            assert(line@.skip(lo as int).drop_first() =~= line@.skip(lo as int + 1));
        }
        lo = lo + 1;
    }
    proof {
        assert(trim_start_of(line@) =~= line@.skip(lo as int));
    }
    let mut hi: usize = line.len();
    while hi > lo && char_is_space(line[hi - 1])
        invariant
            lo <= hi <= line@.len(),
            trim_end_of(line@.skip(lo as int)) == trim_end_of(line@.subrange(lo as int, hi as int)),
        decreases hi,
    {
        proof {
            assert(line@.subrange(lo as int, hi as int).drop_last() =~= line@.subrange(
                lo as int,
                hi as int - 1,
            ));
        }
        hi = hi - 1;
    }
    proof {
        assert(line@.skip(lo as int) =~= line@.subrange(lo as int, line@.len() as int));
        assert(trim_of(line@) =~= line@.subrange(lo as int, hi as int));
    }
    let mut t: Vec<char> = Vec::new();
    let mut j: usize = lo;
    while j < hi
        invariant
            lo <= j <= hi <= line@.len(),
            t@ == line@.subrange(lo as int, j as int),
        decreases hi - j,
    {
        t.push(line[j]);
        proof {
            assert(line@.subrange(lo as int, j as int + 1) =~= line@.subrange(
                lo as int,
                j as int,
            ).push(line@[j as int]));
        }
        j = j + 1;
    }
    t
}

/// Whether two character sequences are equal.
fn chars_eq(a: &Vec<char>, b: &Vec<char>) -> (r: bool)
    ensures
        r == (a@ == b@),
{
    if a.len() != b.len() {
        return false;
    }
    let mut i: usize = 0;
    while i < a.len()
        invariant
            a@.len() == b@.len(),
            i <= a@.len(),
            forall|j: int| 0 <= j < i ==> a@[j] == b@[j],
        decreases a@.len() - i,
    {
        if a[i] != b[i] {
            return false;
        }
        i = i + 1;
    }
    proof {
        assert(a@ =~= b@);
    }
    true
}

/// Whether the line survives the filter for the given header token.
fn line_is_kept(line: &Vec<char>, header: &Vec<char>) -> (r: bool)
    ensures
        r == keep_line(line@, header@),
{
    let trimmed = trim_chars(line);
    trimmed.len() != 0 && !chars_eq(&trimmed, header)
}

/// The lines of the character sequence, split as `str::lines` splits.
fn split_lines(v: &Vec<char>) -> (lines: Vec<Vec<char>>)
    ensures
        views_of(lines@) == lines_of(v@),
{
    let mut lines: Vec<Vec<char>> = Vec::new();
    let mut cur: Vec<char> = Vec::new();
    let mut i: usize = 0;
    proof {
        assert(views_of(lines@) =~= Seq::<Seq<char>>::empty());
        assert(cur@ + v@.skip(0) =~= v@);
    }
    while i < v.len()
        invariant
            i <= v@.len(),
            forall|j: int| 0 <= j < cur@.len() ==> cur@[j] != '\n',
            lines_of(v@) == views_of(lines@) + lines_of(cur@ + v@.skip(i as int)),
        decreases v@.len() - i,
    {
        let ghost prev_cur = cur@;
        let ghost prev_lines = lines@;
        let c = v[i];
        if c == '\n' {
            proof {
                let rest = prev_cur + v@.skip(i as int);
                lemma_first_line_feed_concat(prev_cur, v@.skip(i as int));
                assert(v@.skip(i as int)[0] == '\n');
                assert(first_line_feed(v@.skip(i as int)) == 0);
                assert(first_line_feed(rest) == prev_cur.len());
                assert(rest.take(prev_cur.len() as int) =~= prev_cur);
                assert(rest.skip(prev_cur.len() as int + 1) =~= v@.skip(i as int + 1));
                assert(lines_of(rest) == seq![strip_final_cr(prev_cur)] + lines_of(
                    v@.skip(i as int + 1),
                ));
            }
            if cur.len() > 0 && cur[cur.len() - 1] == '\r' {
                cur.pop();
                proof {
                    assert(cur@ =~= strip_final_cr(prev_cur));
                }
            }
            lines.push(cur);
            cur = Vec::new();
            proof {
                assert(views_of(lines@) =~= views_of(prev_lines).push(strip_final_cr(prev_cur)));
                assert(cur@ + v@.skip(i as int + 1) =~= v@.skip(i as int + 1));
                assert(views_of(prev_lines) + (seq![strip_final_cr(prev_cur)] + lines_of(
                    v@.skip(i as int + 1),
                )) =~= views_of(lines@) + lines_of(v@.skip(i as int + 1)));
            }
        } else {
            cur.push(c);
            proof {
                assert(cur@ + v@.skip(i as int + 1) =~= prev_cur + v@.skip(i as int));
            }
        }
        i = i + 1;
    }
    proof {
        assert(cur@ + v@.skip(v@.len() as int) =~= cur@);
    }
    if cur.len() > 0 {
        let ghost prev_cur = cur@;
        let ghost prev_lines = lines@;
        proof {
            lemma_first_line_feed_concat(prev_cur, Seq::<char>::empty());
            assert(prev_cur + Seq::<char>::empty() =~= prev_cur);
            assert(first_line_feed(prev_cur) == prev_cur.len());
            assert(lines_of(prev_cur) == seq![prev_cur]);
        }
        lines.push(cur);
        proof {
            assert(views_of(lines@) =~= views_of(prev_lines) + seq![prev_cur]);
        }
        lines
    } else {
        proof {
            assert(views_of(lines@) + lines_of(cur@) =~= views_of(lines@));
        }
        lines
    }
}

/// Appends every character of the line to the string.
fn push_line(s: &mut String, line: &Vec<char>)
    ensures
        final(s)@ == old(s)@ + line@,
{
    let mut j: usize = 0;
    while j < line.len()
        invariant
            j <= line@.len(),
            s@ == old(s)@ + line@.take(j as int),
        decreases line@.len() - j,
    {
        push_char(s, line[j]);
        proof {
            assert(old(s)@ + line@.take(j as int + 1) =~= (old(s)@ + line@.take(j as int)).push(
                line@[j as int],
            ));
        }
        j = j + 1;
    }
    proof {
        assert(line@.take(line@.len() as int) =~= line@);
    }
}

/// Filters raw utility output as the identifier collectors do: drops every
/// line whose trimmed text is empty or equals the header token, and joins
/// the surviving lines, untrimmed, with commas.
pub fn filter_identifier_lines(raw: &str, header: &str) -> (r: String)
    ensures
        r@ == filtered_of(raw@, header@),
{
    let chars = str_chars(raw);
    let head = str_chars(header);
    let lines = split_lines(&chars);
    let ghost all = lines_of(raw@);
    let mut r = String::new();
    let mut any: bool = false;
    let mut i: usize = 0;
    proof {
        assert(all.take(0) =~= Seq::<Seq<char>>::empty());
    }
    while i < lines.len()
        invariant
            i <= lines@.len(),
            head@ == header@,
            views_of(lines@) == all,
            all == lines_of(raw@),
            r@ == join_commas(kept_lines(all.take(i as int), header@)),
            any == (kept_lines(all.take(i as int), header@).len() != 0),
        decreases lines@.len() - i,
    {
        proof {
            assert(all.take(i as int + 1).drop_last() =~= all.take(i as int));
            assert(all.take(i as int + 1).last() == views_of(lines@)[i as int]);
            assert(views_of(lines@)[i as int] == lines@[i as int]@);
        }
        let ghost kept_before = kept_lines(all.take(i as int), header@);
        let ghost kept_after = kept_lines(all.take(i as int + 1), header@);
        if line_is_kept(&lines[i], &head) {
            proof {
                assert(kept_after == kept_before.push(lines@[i as int]@));
            }
            if any {
                push_char(&mut r, ',');
                proof {
                    assert(kept_after.drop_last() =~= kept_before);
                    assert(kept_after.last() == lines@[i as int]@);
                    assert(r@ =~= join_commas(kept_before) + seq![',']);
                }
            }
            push_line(&mut r, &lines[i]);
            proof {
                if kept_before.len() == 0 {
                    assert(kept_after =~= seq![lines@[i as int]@]);
                    assert(join_commas(kept_after) == kept_after[0]);
                    assert(r@ =~= join_commas(kept_after));
                } else {
                    assert(kept_after.drop_last() =~= kept_before);
                    assert(r@ =~= join_commas(kept_before) + seq![','] + lines@[i as int]@);
                    assert(r@ =~= join_commas(kept_after));
                }
            }
            any = true;
        } else {
            proof {
                assert(kept_after == kept_before);
            }
        }
        i = i + 1;
    }
    proof {
        assert(all.take(lines@.len() as int) =~= all);
    }
    r
}

} // verus!
