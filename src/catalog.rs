//! The prize catalog: the manifest's usable lines, resolved against a base
//! directory, and the fixed table of point values by file name.

use crate::text::{chars_of, push_char, string_of, trim, trim_range};
use vstd::prelude::*;

verus! {

/// `s` cut at each newline; the text after the last newline is the last
/// line (possibly empty).
pub open spec fn split_lines(s: Seq<char>) -> Seq<Seq<char>>
    decreases s.len(),
{
    if s.len() == 0 {
        seq![Seq::empty()]
    } else if s.last() == '\n' {
        split_lines(s.drop_last()).push(Seq::empty())
    } else {
        let ls = split_lines(s.drop_last());
        ls.update(ls.len() - 1, ls.last().push(s.last()))
    }
}

/// A manifest line names an asset unless it is blank or a `#` comment.
pub open spec fn usable_line(line: Seq<char>) -> bool {
    trim(line).len() > 0 && trim(line)[0] != '#'
}

/// `rel` resolved against `base`: an absolute `rel` stands as it is,
/// otherwise a separator is put between the two where `base` lacks one.
pub open spec fn join_path(base: Seq<char>, rel: Seq<char>) -> Seq<char> {
    if rel.len() > 0 && rel[0] == '/' {
        rel
    } else if base.len() > 0 && base.last() != '/' {
        base + seq!['/'] + rel
    } else {
        base + rel
    }
}

/// The asset paths that the given manifest lines name, in order.
pub open spec fn line_entries(lines: Seq<Seq<char>>, base: Seq<char>) -> Seq<Seq<char>>
    decreases lines.len(),
{
    if lines.len() == 0 {
        Seq::empty()
    } else {
        let rest = line_entries(lines.drop_last(), base);
        if usable_line(lines.last()) {
            rest.push(join_path(base, trim(lines.last())))
        } else {
            rest
        }
    }
}

/// The asset paths that a manifest text names, resolved against `base`.
pub open spec fn manifest_entries(text: Seq<char>, base: Seq<char>) -> Seq<Seq<char>> {
    line_entries(split_lines(text), base)
}

/// The views of a sequence of strings.
pub open spec fn views(v: Seq<String>) -> Seq<Seq<char>> {
    v.map_values(|s: String| s@)
}

/// The characters after the last `/` of `s`.
pub open spec fn tail_segment(s: Seq<char>) -> Seq<char>
    decreases s.len(),
{
    if s.len() == 0 || s.last() == '/' {
        Seq::empty()
    } else {
        tail_segment(s.drop_last()).push(s.last())
    }
}

/// The last component of a path, as a path's file name is read: trailing
/// separators and `.` components are passed over, and a path ending in `..`
/// or holding no component has none (the empty sequence).
pub open spec fn file_name(s: Seq<char>) -> Seq<char>
    decreases s.len(),
{
    if s.len() == 0 {
        Seq::empty()
    } else if tail_segment(s).len() == 0 || tail_segment(s) == seq!['.'] {
        file_name(s.drop_last())
    } else if tail_segment(s) == seq!['.', '.'] {
        Seq::empty()
    } else {
        tail_segment(s)
    }
}

/// Points for an asset with the given file name: `YurCoin1.png`,
/// `YurCoin10.png` and `YurCoin1000.png` are worth 1, 10 and 1000;
/// `YurCoin0.png` and every other name are worth 0.
pub open spec fn name_value(name: Seq<char>) -> i64 {
    if name == "YurCoin1.png"@ {
        1
    } else if name == "YurCoin10.png"@ {
        10
    } else if name == "YurCoin1000.png"@ {
        1000
    } else {
        0
    }
}

/// Points for the asset at `path`.
pub open spec fn asset_value_of(path: Seq<char>) -> i64 {
    name_value(file_name(path))
}

/// The largest value the table gives.
pub const MAX_ASSET_VALUE: i64 = 1000;

/// `base` and `chars[from..to]` joined as `join_path` says.
fn join_range(base: &Vec<char>, chars: &Vec<char>, from: usize, to: usize) -> (r: String)
    requires
        from <= to <= chars@.len(),
    ensures
        r@ == join_path(base@, chars@.subrange(from as int, to as int)),
{
    let rel = Ghost(chars@.subrange(from as int, to as int));
    if from < to && chars[from] == '/' {
        return string_of(chars, from, to);
    }
    let mut out = string_of(base, 0, base.len());
    assert(base@.subrange(0, base@.len() as int) =~= base@);
    if base.len() > 0 && base[base.len() - 1] != '/' {
        push_char(&mut out, '/');
    }
    let ghost head = out@;
    let mut i: usize = from;
    while i < to
        invariant
            from <= i <= to <= chars@.len(),
            out@ == head + chars@.subrange(from as int, i as int),
        decreases to - i,
    {
        push_char(&mut out, chars[i]);
        i += 1;
        assert(out@ =~= head + chars@.subrange(from as int, i as int));
    }
    proof {
        if base@.len() > 0 && base@.last() != '/' {
            assert(out@ =~= base@ + seq!['/'] + rel@);
        } else {
            assert(out@ =~= base@ + rel@);
        }
    }
    out
}

/// `rel` resolved against `base` (see `join_path`).
pub fn resolve_path(base: &str, rel: &str) -> (r: String)
    ensures
        r@ == join_path(base@, rel@),
{
    let b = chars_of(base);
    let c = chars_of(rel);
    let r = join_range(&b, &c, 0, c.len());
    assert(c@.subrange(0, c@.len() as int) =~= c@);
    r
}

/// The asset paths that the manifest `text` names: one per line that is
/// neither blank nor a `#` comment, trimmed and resolved against `base`.
pub fn parse_manifest(text: &str, base: &str) -> (r: Vec<String>)
    ensures
        views(r@) == manifest_entries(text@, base@),
{
    let chars = chars_of(text);
    let base_chars = chars_of(base);
    let mut out: Vec<String> = Vec::new();
    let ghost mut done: Seq<Seq<char>> = Seq::empty();
    let mut start: usize = 0;
    let mut i: usize = 0;
    assert(chars@.subrange(0, 0) =~= Seq::<char>::empty());
    assert(done.push(chars@.subrange(0, 0)) =~= seq![Seq::<char>::empty()]);
    while i < chars.len()
        invariant
            start <= i <= chars@.len(),
            chars@ == text@,
            base_chars@ == base@,
            split_lines(chars@.subrange(0, i as int)) == done.push(
                chars@.subrange(start as int, i as int),
            ),
            views(out@) == line_entries(done, base@),
        decreases chars@.len() - i,
    {
        let ghost prefix = chars@.subrange(0, i as int + 1);
        assert(prefix.drop_last() =~= chars@.subrange(0, i as int));
        if chars[i] == '\n' {
            let ghost line = chars@.subrange(start as int, i as int);
            let (a, b) = trim_range(&chars, start, i);
            if a < b && chars[a] != '#' {
                let entry = join_range(&base_chars, &chars, a, b);
                out.push(entry);
                assert(views(out@) =~= line_entries(done, base@).push(entry@));
            }
            proof {
                assert(done.push(line).drop_last() =~= done);
                done = done.push(line);
            }
            start = i + 1;
            assert(chars@.subrange(start as int, i as int + 1) =~= Seq::<char>::empty());
        } else {
            assert(chars@.subrange(start as int, i as int + 1) =~= chars@.subrange(
                start as int,
                i as int,
            ).push(chars@[i as int]));
            assert(split_lines(prefix) =~= done.push(chars@.subrange(start as int, i as int + 1)));
        }
        i += 1;
    }
    let ghost line = chars@.subrange(start as int, chars@.len() as int);
    let (a, b) = trim_range(&chars, start, chars.len());
    if a < b && chars[a] != '#' {
        let entry = join_range(&base_chars, &chars, a, b);
        out.push(entry);
        assert(views(out@) =~= line_entries(done, base@).push(entry@));
    }
    assert(done.push(line).drop_last() =~= done);
    assert(chars@.subrange(0, chars@.len() as int) =~= chars@);
    out
}

/// The bounds of the file name of `chars` (see `file_name`).
fn file_name_range(chars: &Vec<char>) -> (r: (usize, usize))
    ensures
        r.0 <= r.1 <= chars@.len(),
        chars@.subrange(r.0 as int, r.1 as int) == file_name(chars@),
{
    let mut end: usize = chars.len();
    assert(chars@.subrange(0, end as int) =~= chars@);
    loop
        invariant
            end <= chars@.len(),
            file_name(chars@) == file_name(chars@.subrange(0, end as int)),
        decreases end,
    {
        let ghost s = chars@.subrange(0, end as int);
        if end == 0 {
            assert(chars@.subrange(0, 0) =~= Seq::<char>::empty());
            return (0, 0);
        }
        let mut start: usize = end;
        assert(chars@.subrange(end as int, end as int) =~= Seq::<char>::empty());
        assert(chars@.subrange(0, end as int) + Seq::<char>::empty() =~= chars@.subrange(
            0,
            end as int,
        ));
        while start > 0 && chars[start - 1] != '/'
            invariant
                start <= end <= chars@.len(),
                tail_segment(chars@.subrange(0, end as int)) == tail_segment(
                    chars@.subrange(0, start as int),
                ) + chars@.subrange(start as int, end as int),
            decreases start,
        {
            let ghost p = chars@.subrange(0, start as int);
            assert(p.drop_last() =~= chars@.subrange(0, start - 1));
            assert(tail_segment(p) == tail_segment(chars@.subrange(0, start - 1)).push(
                chars@[start - 1],
            ));
            assert(tail_segment(chars@.subrange(0, start - 1)).push(chars@[start - 1])
                + chars@.subrange(start as int, end as int) =~= tail_segment(
                chars@.subrange(0, start - 1),
            ) + chars@.subrange(start - 1, end as int));
            start -= 1;
        }
        assert(tail_segment(chars@.subrange(0, start as int)) =~= Seq::<char>::empty());
        assert(tail_segment(s) =~= chars@.subrange(start as int, end as int));
        let n: usize = end - start;
        assert(s.drop_last() =~= chars@.subrange(0, end - 1));
        if n == 0 || (n == 1 && chars[start] == '.') {
            assert(n == 1 ==> chars@.subrange(start as int, end as int) =~= seq!['.']);
            end -= 1;
        } else if n == 2 && chars[start] == '.' && chars[start + 1] == '.' {
            assert(chars@.subrange(start as int, end as int) =~= seq!['.', '.']);
            assert(chars@.subrange(0, 0) =~= Seq::<char>::empty());
            return (0, 0);
        } else {
            assert(chars@.subrange(start as int, end as int) != seq!['.']) by {
                if n == 1 {
                    assert(chars@.subrange(start as int, end as int)[0] == chars@[start as int]);
                }
            }
            assert(chars@.subrange(start as int, end as int) != seq!['.', '.']) by {
                if n == 2 {
                    assert(chars@.subrange(start as int, end as int)[0] == chars@[start as int]);
                    assert(chars@.subrange(start as int, end as int)[1] == chars@[start + 1]);
                }
            }
            return (start, end);
        }
    }
}

/// Points for the asset at `path`, by its file name.
pub fn asset_value(path: &str) -> (r: i64)
    ensures
        r == asset_value_of(path@),
        0 <= r <= MAX_ASSET_VALUE,
{
    let chars = chars_of(path);
    let (a, b) = file_name_range(&chars);
    let name = string_of(&chars, a, b);
    if name == "YurCoin1.png".to_owned() {
        1
    } else if name == "YurCoin10.png".to_owned() {
        10
    } else if name == "YurCoin1000.png".to_owned() {
        1000
    } else {
        0
    }
}

} // verus!
