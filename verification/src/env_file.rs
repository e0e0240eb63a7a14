use vstd::prelude::*;

use crate::text::{
    chars_equal, chars_of, copy_range, lacks, next_char, next_char_bounds, next_char_from,
    next_char_past, next_char_shift, string_from_chars, trim, trim_chars,
};

verus! {

/// A line that a `\n` ended, as `str::lines` gives it: a `\r` just before
/// that `\n` is dropped too.
pub open spec fn strip_cr(line: Seq<char>) -> Seq<char> {
    if line.len() > 0 && line.last() == '\r' {
        line.drop_last()
    } else {
        line
    }
}

/// The lines of `t` from position `i` on, as `str::lines` yields them: a
/// last line without `\n` counts, an empty rest does not.
pub open spec fn lines_from(t: Seq<char>, i: int) -> Seq<Seq<char>>
    decreases t.len() - i,
    via lines_from_decreases
{
    if i < 0 || i >= t.len() {
        Seq::empty()
    } else {
        let k = next_char(t, '\n', i);
        if k < t.len() {
            seq![strip_cr(t.subrange(i, k))] + lines_from(t, k + 1)
        } else {
            seq![t.subrange(i, k)]
        }
    }
}

#[via_fn]
proof fn lines_from_decreases(t: Seq<char>, i: int) {
    if 0 <= i < t.len() {
        next_char_bounds(t, '\n', i);
    }
}

/// `str::lines`.
pub open spec fn text_lines(t: Seq<char>) -> Seq<Seq<char>> {
    lines_from(t, 0)
}

/// What a `key = value` line gives for `name`: the trimmed text after the
/// first `=`, when the trimmed text before it is `name`.
pub open spec fn entry_value(line: Seq<char>, name: Seq<char>) -> Option<Seq<char>> {
    let k = next_char(line, '=', 0);
    if k < line.len() && trim(line.subrange(0, k)) == name {
        Some(trim(line.subrange(k + 1, line.len() as int)))
    } else {
        None
    }
}

/// The value of the first line of `lines` that is an entry for `name`.
pub open spec fn first_entry(lines: Seq<Seq<char>>, name: Seq<char>) -> Option<Seq<char>>
    decreases lines.len(),
{
    if lines.len() == 0 {
        None
    } else {
        match entry_value(lines[0], name) {
            Some(v) => Some(v),
            None => first_entry(lines.drop_first(), name),
        }
    }
}

fn line_entry(line: &Vec<char>, name: &Vec<char>) -> (r: Option<Vec<char>>)
    ensures
        match entry_value(line@, name@) {
            Some(v) => r matches Some(x) && x@ == v,
            None => r is None,
        },
{
    let k = next_char_from(line, '=', 0);
    proof {
        next_char_bounds(line@, '=', 0);
    }
    if k == line.len() {
        return None;
    }
    let key = trim_chars(&copy_range(line, 0, k));
    if !chars_equal(&key, name) {
        return None;
    }
    Some(trim_chars(&copy_range(line, k + 1, line.len())))
}

/// The value that `text`, read as lines of `key=value`, gives `name`: the
/// first line whose key, trimmed, is `name`, with its value trimmed.
pub fn value(text: &str, name: &str) -> (r: Option<String>)
    ensures
        match first_entry(text_lines(text@), name@) {
            Some(v) => r matches Some(x) && x@ == v,
            None => r is None,
        },
{
    let t = chars_of(text);
    let n = chars_of(name);
    let mut i: usize = 0;
    while i < t.len()
        invariant
            i <= t.len(),
            t@ == text@,
            n@ == name@,
            first_entry(text_lines(text@), name@) == first_entry(lines_from(t@, i as int), name@),
        decreases t.len() - i,
    {
        let k = next_char_from(&t, '\n', i);
        proof {
            next_char_bounds(t@, '\n', i as int);
        }
        let mut line = copy_range(&t, i, k);
        if k < t.len() && line.len() > 0 && line[line.len() - 1] == '\r' {
            line.pop();
        }
        let ghost lines = lines_from(t@, i as int);
        assert(lines[0] == line@);
        assert(k < t.len() ==> lines.drop_first() == lines_from(t@, k + 1));
        assert(k == t.len() ==> lines.drop_first() == Seq::<Seq<char>>::empty());
        match line_entry(&line, &n) {
            Some(v) => {
                return Some(string_from_chars(v.as_slice()));
            },
            None => {},
        }
        if k == t.len() {
            assert(first_entry(lines.drop_first(), name@) == None::<Seq<char>>);
            return None;
        }
        i = k + 1;
    }
    assert(lines_from(t@, i as int) == Seq::<Seq<char>>::empty());
    None
}



/// A line is split at its first `=`: a line `key=rest` whose key holds no
/// `=` gives `name` the trimmed `rest` exactly when the trimmed key is
/// `name`, and a line without `=` gives nothing.
pub proof fn entry_split_law(key: Seq<char>, rest: Seq<char>, line: Seq<char>, name: Seq<char>)
    requires
        lacks(key, '='),
    ensures
        entry_value(key + seq!['='] + rest, name) == (if trim(key) == name {
            Some(trim(rest))
        } else {
            None
        }),
        lacks(line, '=') ==> entry_value(line, name) is None,
{
    let l = key + seq!['='] + rest;
    assert(l =~= key + (seq!['='] + rest));
    next_char_past(key, seq!['='] + rest, '=', 0);
    assert((seq!['='] + rest)[0] == '=');
    assert(l.subrange(0, key.len() as int) =~= key);
    assert(l.subrange(key.len() + 1int, l.len() as int) =~= rest);
    next_char_bounds(line, '=', 0);
}

/// The value found for `name` is that of the first line that is an entry
/// for it: no line before it is one, and with no such line there is none.
pub proof fn first_entry_law(lines: Seq<Seq<char>>, name: Seq<char>)
    ensures
        first_entry(lines, name) matches Some(v) ==> exists|k: int|
            0 <= k < lines.len() && entry_value(#[trigger] lines[k], name) == Some(v) && forall|j: int|
                0 <= j < k ==> entry_value(#[trigger] lines[j], name) is None,
        first_entry(lines, name) is None ==> forall|k: int|
            0 <= k < lines.len() ==> entry_value(#[trigger] lines[k], name) is None,
    decreases lines.len(),
{
    if lines.len() > 0 {
        let rest = lines.drop_first();
        first_entry_law(rest, name);
        if entry_value(lines[0], name) is None {
            if let Some(v) = first_entry(rest, name) {
                let k = choose|k: int|
                    0 <= k < rest.len() && entry_value(#[trigger] rest[k], name) == Some(v) && forall|
                        j: int,
                    | 0 <= j < k ==> entry_value(#[trigger] rest[j], name) is None;
                assert(lines[k + 1] == rest[k]);
                assert forall|j: int| 0 <= j < k + 1 implies entry_value(#[trigger] lines[j], name) is None by {
                    if j > 0 {
                        assert(lines[j] == rest[j - 1]);
                    }
                }
            } else {
                assert forall|k: int| 0 <= k < lines.len() implies entry_value(#[trigger] lines[k], name) is None by {
                    if k > 0 {
                        assert(lines[k] == rest[k - 1]);
                    }
                }
            }
        }
    }
}

/// The lines of `text`, as `str::lines` yields them.
pub fn lines_of(text: &str) -> (r: Vec<Vec<char>>)
    ensures
        r@.len() == text_lines(text@).len(),
        forall|k: int| 0 <= k < r@.len() ==> (#[trigger] r@[k])@ == text_lines(text@)[k],
{
    let t = chars_of(text);
    let mut out: Vec<Vec<char>> = Vec::new();
    let mut i: usize = 0;
    while i < t.len()
        invariant
            i <= t.len(),
            t@ == text@,
            text_lines(text@) == Seq::new(out@.len(), |k: int| out@[k]@) + lines_from(t@, i as int),
        decreases t.len() - i,
    {
        let k = next_char_from(&t, '\n', i);
        proof {
            next_char_bounds(t@, '\n', i as int);
        }
        let mut line = copy_range(&t, i, k);
        if k < t.len() && line.len() > 0 && line[line.len() - 1] == '\r' {
            line.pop();
        }
        let ghost before = Seq::new(out@.len(), |j: int| out@[j]@);
        let ghost lines = lines_from(t@, i as int);
        assert(lines[0] == line@);
        out.push(line);
        assert(Seq::new(out@.len(), |j: int| out@[j]@) =~= before.push(lines[0]));
        if k == t.len() {
            assert(lines =~= seq![lines[0]]);
            assert(text_lines(text@) =~= Seq::new(out@.len(), |j: int| out@[j]@));
            return out;
        }
        assert(lines == seq![lines[0]] + lines_from(t@, k + 1));
        assert(before + lines =~= before.push(lines[0]) + lines_from(t@, k + 1));
        i = k + 1;
    }
    assert(lines_from(t@, i as int) == Seq::<Seq<char>>::empty());
    assert(text_lines(text@) =~= Seq::new(out@.len(), |j: int| out@[j]@));
    out
}


/// The lines `ls`, each followed by `\n`.
pub open spec fn lines_text(ls: Seq<Seq<char>>) -> Seq<char>
    decreases ls.len(),
{
    if ls.len() == 0 {
        Seq::empty()
    } else {
        ls[0] + seq!['\n'] + lines_text(ls.drop_first())
    }
}

/// Whether `line` can stand as one line: it holds no line end.
pub open spec fn plain_line(line: Seq<char>) -> bool {
    lacks(line, '\n') && lacks(line, '\r')
}

proof fn lines_from_shift(x: Seq<char>, y: Seq<char>, j: int)
    requires
        0 <= j,
    ensures
        lines_from(x + y, x.len() + j) == lines_from(y, j),
    decreases y.len() - j,
{
    let t = x + y;
    if j < y.len() {
        next_char_shift(x, y, '\n', j);
        next_char_bounds(y, '\n', j);
        let k = next_char(y, '\n', j);
        assert(t.subrange(x.len() + j, x.len() + k) =~= y.subrange(j, k));
        if k < y.len() {
            lines_from_shift(x, y, k + 1);
        }
    }
}

/// Lines written each with a `\n` after them read back as the same lines.
pub proof fn lines_roundtrip(ls: Seq<Seq<char>>)
    requires
        forall|k: int| 0 <= k < ls.len() ==> plain_line(#[trigger] ls[k]),
    ensures
        text_lines(lines_text(ls)) == ls,
    decreases ls.len(),
{
    if ls.len() > 0 {
        let a = ls[0];
        let rest = ls.drop_first();
        assert forall|k: int| 0 <= k < rest.len() implies plain_line(#[trigger] rest[k]) by {
            assert(rest[k] == ls[k + 1]);
        }
        lines_roundtrip(rest);
        let tail = seq!['\n'] + lines_text(rest);
        let t = lines_text(ls);
        assert(t =~= a + tail);
        assert(plain_line(ls[0]));
        next_char_past(a, tail, '\n', 0);
        assert(next_char(tail, '\n', 0) == 0);
        assert(t.subrange(0, a.len() as int) =~= a);
        assert(strip_cr(a) == a) by {
            if a.len() > 0 {
                assert(a.last() != '\r');
            }
        }
        assert(t =~= (a + seq!['\n']) + lines_text(rest));
        lines_from_shift(a + seq!['\n'], lines_text(rest), 0);
        assert(lines_from(t, a.len() + 1int) == lines_from(lines_text(rest), 0));
        assert(seq![a] + rest =~= ls);
    } else {
        assert(lines_text(ls) =~= Seq::<char>::empty());
    }
}

} // verus!
