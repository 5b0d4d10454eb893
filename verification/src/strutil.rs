//! Small verified utilities over strings: equality, prefix stripping and
//! newline splitting, each tied to a specification-level counterpart.

use vstd::prelude::*;
use vstd::string::*;

verus! {

/// Whether two string slices hold the same characters.
pub fn str_eq(a: &str, b: &str) -> (res: bool)
    ensures
        res == (a@ == b@),
{
    let a_len = a.unicode_len();
    let b_len = b.unicode_len();
    if a_len != b_len {
        return false;
    }
    let mut i: usize = 0;
    while i < a_len
        invariant
            i <= a_len,
            a_len == a@.len(),
            b_len == b@.len(),
            a_len == b_len,
            forall|j: int| 0 <= j < i ==> a@[j] == b@[j],
        decreases a_len - i,
    {
        if a.get_char(i) != b.get_char(i) {
            return false;
        }
        i += 1;
    }
    proof {
        assert(a@ =~= b@);
    }
    true
}

/// What is left of `line` after `prefix`, if `line` starts with `prefix`.
pub open spec fn spec_strip_prefix(line: Seq<char>, prefix: Seq<char>) -> Option<Seq<char>> {
    if prefix.len() <= line.len() && line.take(prefix.len() as int) == prefix {
        Some(line.skip(prefix.len() as int))
    } else {
        None
    }
}

/// Stripping a prefix undoes prepending it.
pub proof fn lemma_strip_prefix_of_concat(prefix: Seq<char>, rest: Seq<char>)
    ensures
        spec_strip_prefix(prefix + rest, prefix) == Some(rest),
{
    assert((prefix + rest).take(prefix.len() as int) =~= prefix);
    assert((prefix + rest).skip(prefix.len() as int) =~= rest);
}

/// A line whose first character differs from the prefix's does not strip.
pub proof fn lemma_strip_prefix_mismatch(line: Seq<char>, prefix: Seq<char>)
    requires
        prefix.len() > 0,
        line.len() == 0 || line[0] != prefix[0],
    ensures
        spec_strip_prefix(line, prefix) is None,
{
    if prefix.len() <= line.len() && line.take(prefix.len() as int) == prefix {
        assert(line.take(prefix.len() as int)[0] == line[0]);
    }
}

/// Executable form of [`spec_strip_prefix`].
pub fn strip_prefix<'a>(line: &'a str, prefix: &str) -> (res: Option<&'a str>)
    ensures
        match res {
            Some(rest) => spec_strip_prefix(line@, prefix@) == Some(rest@),
            None => spec_strip_prefix(line@, prefix@) is None,
        },
{
    let p_len = prefix.unicode_len();
    let l_len = line.unicode_len();
    if p_len > l_len {
        return None;
    }
    let mut i: usize = 0;
    while i < p_len
        invariant
            i <= p_len,
            p_len == prefix@.len(),
            l_len == line@.len(),
            p_len <= l_len,
            forall|j: int| 0 <= j < i ==> line@[j] == prefix@[j],
        decreases p_len - i,
    {
        if line.get_char(i) != prefix.get_char(i) {
            proof {
                if line@.take(p_len as int) == prefix@ {
                    assert(line@.take(p_len as int)[i as int] == line@[i as int]);
                }
            }
            return None;
        }
        i += 1;
    }
    let rest = line.substring_char(p_len, l_len);
    proof {
        assert(line@.take(p_len as int) =~= prefix@);
        assert(rest@ =~= line@.skip(p_len as int));
    }
    Some(rest)
}

/// Index of the first newline in `s`, or `s.len()` if there is none.
pub open spec fn first_newline(s: Seq<char>) -> int
    decreases s.len(),
{
    if s.len() == 0 {
        0
    } else if s[0] == '\n' {
        0
    } else {
        1 + first_newline(s.drop_first())
    }
}

/// The first newline lies in `[0, s.len()]`, everything before it is not a
/// newline, and it points at one when it is in range.
pub proof fn lemma_first_newline_bounds(s: Seq<char>)
    ensures
        0 <= first_newline(s) <= s.len(),
        forall|j: int| 0 <= j < first_newline(s) ==> s[j] != '\n',
        first_newline(s) < s.len() ==> s[first_newline(s)] == '\n',
    decreases s.len(),
{
    if s.len() == 0 {
    } else if s[0] == '\n' {
    } else {
        lemma_first_newline_bounds(s.drop_first());
        assert forall|j: int| 0 <= j < first_newline(s) implies s[j] != '\n' by {
            if j > 0 {
                assert(s.drop_first()[j - 1] == s[j]);
            }
        }
        if first_newline(s) < s.len() {
            assert(s.drop_first()[first_newline(s) - 1] == s[first_newline(s)]);
        }
    }
}

/// A position with no newline before it, holding one (or the end), is the
/// first newline.
pub proof fn lemma_first_newline_at(s: Seq<char>, k: int)
    requires
        0 <= k <= s.len(),
        forall|j: int| 0 <= j < k ==> s[j] != '\n',
        k < s.len() ==> s[k] == '\n',
    ensures
        first_newline(s) == k,
    decreases s.len(),
{
    if k == 0 {
    } else {
        assert(s[0] != '\n');
        assert forall|j: int| 0 <= j < k - 1 implies s.drop_first()[j] != '\n' by {
            assert(s.drop_first()[j] == s[j + 1]);
        }
        if k - 1 < s.drop_first().len() {
            assert(s.drop_first()[k - 1] == s[k]);
        }
        lemma_first_newline_at(s.drop_first(), k - 1);
    }
}

/// The lines of `s`: maximal newline-free stretches; a final unterminated
/// stretch counts as a line, a trailing newline adds none.
pub open spec fn spec_split_lines(s: Seq<char>) -> Seq<Seq<char>>
    decreases s.len(),
    via spec_split_lines_decreases
{
    if s.len() == 0 {
        Seq::empty()
    } else {
        let i = first_newline(s);
        if i == s.len() {
            seq![s]
        } else {
            seq![s.take(i)] + spec_split_lines(s.skip(i + 1))
        }
    }
}

#[via_fn]
proof fn spec_split_lines_decreases(s: Seq<char>) {
    lemma_first_newline_bounds(s);
}

/// `lines`, each terminated with a newline, in one string.
pub open spec fn spec_join_lines(lines: Seq<Seq<char>>) -> Seq<char>
    decreases lines.len(),
{
    if lines.len() == 0 {
        Seq::empty()
    } else {
        lines.first() + seq!['\n'] + spec_join_lines(lines.drop_first())
    }
}

/// A stretch of characters with no newline in it.
pub open spec fn line_ok(line: Seq<char>) -> bool {
    forall|j: int| 0 <= j < line.len() ==> line[j] != '\n'
}

/// Two newline-free stretches concatenate to a newline-free stretch.
pub proof fn lemma_line_ok_concat(a: Seq<char>, b: Seq<char>)
    requires
        line_ok(a),
        line_ok(b),
    ensures
        line_ok(a + b),
{
    assert forall|j: int| 0 <= j < (a + b).len() implies (a + b)[j] != '\n' by {
        if j < a.len() {
            assert((a + b)[j] == a[j]);
        } else {
            assert((a + b)[j] == b[j - a.len()]);
        }
    }
}

/// Joining distributes over concatenation of line sequences.
pub proof fn lemma_join_lines_concat(a: Seq<Seq<char>>, b: Seq<Seq<char>>)
    ensures
        spec_join_lines(a + b) == spec_join_lines(a) + spec_join_lines(b),
    decreases a.len(),
{
    if a.len() == 0 {
        assert(a + b =~= b);
        assert(spec_join_lines(a) + spec_join_lines(b) =~= spec_join_lines(b));
    } else {
        assert((a + b).first() == a.first());
        assert((a + b).drop_first() =~= a.drop_first() + b);
        lemma_join_lines_concat(a.drop_first(), b);
        assert(a.first() + seq!['\n'] + (spec_join_lines(a.drop_first()) + spec_join_lines(b))
            =~= (a.first() + seq!['\n'] + spec_join_lines(a.drop_first())) + spec_join_lines(b));
    }
}

/// Splitting undoes joining, as long as no line holds a newline itself.
pub proof fn lemma_split_join(lines: Seq<Seq<char>>)
    requires
        forall|k: int| 0 <= k < lines.len() ==> line_ok(#[trigger] lines[k]),
    ensures
        spec_split_lines(spec_join_lines(lines)) == lines,
    decreases lines.len(),
{
    if lines.len() == 0 {
        assert(spec_split_lines(spec_join_lines(lines)) =~= lines);
    } else {
        let line = lines.first();
        let rest_join = spec_join_lines(lines.drop_first());
        let s = spec_join_lines(lines);
        assert(s == line + seq!['\n'] + rest_join);
        assert(line_ok(lines[0]));
        assert forall|j: int| 0 <= j < line.len() implies s[j] != '\n' by {
            assert(s[j] == line[j]);
        }
        assert(s[line.len() as int] == '\n');
        lemma_first_newline_at(s, line.len() as int);
        assert(s.take(line.len() as int) =~= line);
        assert(s.skip(line.len() as int + 1) =~= rest_join);
        assert forall|k: int| 0 <= k < lines.drop_first().len() implies line_ok(
            #[trigger] lines.drop_first()[k],
        ) by {
            assert(lines.drop_first()[k] == lines[k + 1]);
        }
        lemma_split_join(lines.drop_first());
        assert(seq![line] + lines.drop_first() =~= lines);
    }
}

/// Index of the first newline at or after `from`, or the length if there is
/// none, tied to [`first_newline`] of the remaining characters.
fn find_newline(s: &str, from: usize) -> (res: usize)
    requires
        from <= s@.len(),
    ensures
        from <= res <= s@.len(),
        first_newline(s@.skip(from as int)) == res - from,
{
    let len = s.unicode_len();
    let mut j = from;
    while j < len
        invariant
            from <= j <= len,
            len == s@.len(),
            forall|k: int| from <= k < j ==> s@[k] != '\n',
        decreases len - j,
    {
        if s.get_char(j) == '\n' {
            proof {
                assert forall|k: int| 0 <= k < j - from implies s@.skip(from as int)[k]
                    != '\n' by {
                    assert(s@.skip(from as int)[k] == s@[k + from]);
                }
                assert(s@.skip(from as int)[j - from] == s@[j as int]);
                lemma_first_newline_at(s@.skip(from as int), j - from);
            }
            return j;
        }
        j += 1;
    }
    proof {
        assert forall|k: int| 0 <= k < len - from implies s@.skip(from as int)[k] != '\n' by {
            assert(s@.skip(from as int)[k] == s@[k + from]);
        }
        lemma_first_newline_at(s@.skip(from as int), len - from);
    }
    len
}

/// Split `s` into its lines, as [`spec_split_lines`] describes.
pub fn split_lines(s: &str) -> (lines: Vec<String>)
    ensures
        lines.deep_view() == spec_split_lines(s@),
{
    let len = s.unicode_len();
    let mut lines: Vec<String> = Vec::new();
    let mut pos: usize = 0;
    proof {
        assert(lines.deep_view() =~= Seq::<Seq<char>>::empty());
        assert(s@.skip(0) =~= s@);
        assert(lines.deep_view() + spec_split_lines(s@.skip(0)) =~= spec_split_lines(s@));
    }
    while pos < len
        invariant
            pos <= len,
            len == s@.len(),
            spec_split_lines(s@) == lines.deep_view() + spec_split_lines(s@.skip(pos as int)),
        decreases len - pos,
    {
        let j = find_newline(s, pos);
        let ghost tail = s@.skip(pos as int);
        let ghost before = lines.deep_view();
        proof {
            assert(tail.len() == len - pos);
        }
        let line = s.substring_char(pos, j);
        proof {
            assert(tail.take(j - pos) =~= line@);
        }
        lines.push(String::from_str(line));
        proof {
            assert(lines.deep_view() =~= before.push(line@));
        }
        if j < len {
            proof {
                assert(tail.skip(j - pos + 1) =~= s@.skip(j + 1));
                assert(spec_split_lines(tail) == seq![line@] + spec_split_lines(s@.skip(j + 1)));
            }
            pos = j + 1;
        } else {
            proof {
                assert(tail =~= line@);
                assert(spec_split_lines(tail) == seq![line@]);
                assert(spec_split_lines(s@.skip(len as int)) =~= Seq::<Seq<char>>::empty());
            }
            pos = len;
        }
        proof {
            assert(spec_split_lines(s@) =~= lines.deep_view() + spec_split_lines(
                s@.skip(pos as int),
            ));
        }
    }
    proof {
        assert(s@.skip(pos as int) =~= Seq::<char>::empty());
        assert(spec_split_lines(s@) =~= lines.deep_view());
    }
    lines
}

} // verus!
