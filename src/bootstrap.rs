//! A first manifest, made from the image files found in the base directory
//! when the manifest names no asset.

use crate::catalog::{manifest_entries, parse_manifest, views};
use crate::text::{chars_of, push_char};
use vstd::prelude::*;

verus! {

/// ASCII upper-case letters lowered; every other character kept.
pub open spec fn ascii_lower(c: char) -> char {
    if 'A' <= c && c <= 'Z' {
        ((c as u32) + 32) as char
    } else {
        c
    }
}

/// Whether an extension, compared without regard to ASCII case, is one of
/// the four image extensions.
pub open spec fn is_image_extension(ext: Seq<char>) -> bool {
    let e = ext.map_values(|c: char| ascii_lower(c));
    e == "png"@ || e == "jpg"@ || e == "jpeg"@ || e == "gif"@
}

/// Whether a file name has an image extension: the text after its last `.`,
/// where that `.` is not the name's first character.
pub open spec fn has_image_extension(name: Seq<char>) -> bool {
    exists|k: int|
        0 < k < name.len() && name[k] == '.' && (forall|j: int| k < j < name.len() ==> name[j] != '.')
            && is_image_extension(name.subrange(k + 1, name.len() as int))
}

/// The names that have an image extension, in their order.
pub open spec fn image_names(names: Seq<String>) -> Seq<String>
    decreases names.len(),
{
    if names.len() == 0 {
        Seq::empty()
    } else if has_image_extension(names.last()@) {
        image_names(names.drop_last()).push(names.last())
    } else {
        image_names(names.drop_last())
    }
}

/// Lexicographic order of character sequences, by code point (the order of
/// their UTF-8 bytes).
pub open spec fn chars_le(a: Seq<char>, b: Seq<char>) -> bool
    decreases a.len(),
{
    if a.len() == 0 {
        true
    } else if b.len() == 0 {
        false
    } else if a[0] != b[0] {
        (a[0] as u32) < (b[0] as u32)
    } else {
        chars_le(a.drop_first(), b.drop_first())
    }
}

/// Each string is ordered before the ones after it.
pub open spec fn sorted_strings(s: Seq<String>) -> bool {
    forall|i: int, j: int| 0 <= i < j < s.len() ==> chars_le(s[i]@, s[j]@)
}

/// The lines joined with a newline between each two.
pub open spec fn join_lines(lines: Seq<Seq<char>>) -> Seq<char>
    decreases lines.len(),
{
    if lines.len() == 0 {
        Seq::empty()
    } else if lines.len() == 1 {
        lines[0]
    } else {
        join_lines(lines.drop_last()) + seq!['\n'] + lines.last()
    }
}

/// Relies on `slice::sort` on `String`s: a stable sort into ascending order
/// of `String`'s `Ord`, which compares the UTF-8 bytes, that is the code
/// points, one after the other.
#[verifier::external_body]
fn sort_strings(v: &mut Vec<String>)
    ensures
        final(v)@.to_multiset() == old(v)@.to_multiset(),
        sorted_strings(final(v)@),
{
    v.sort()
}

fn lower_char(c: char) -> (r: char)
    ensures
        r == ascii_lower(c),
{
    if 'A' <= c && c <= 'Z' {
        ((c as u8) + 32) as char
    } else {
        c
    }
}

/// Whether `name` has one of the image extensions png, jpg, jpeg or gif, in
/// any ASCII case.
pub fn image_extension(name: &str) -> (r: bool)
    ensures
        r == has_image_extension(name@),
{
    let chars = chars_of(name);
    let n = chars.len();
    let mut i: usize = n;
    while i > 0 && chars[i - 1] != '.'
        invariant
            i <= n == chars@.len(),
            chars@ == name@,
            forall|j: int| i <= j < n ==> chars@[j] != '.',
        decreases i,
    {
        i -= 1;
    }
    if i <= 1 {
        assert(!has_image_extension(name@)) by {
            if has_image_extension(name@) {
                let k = choose|k: int|
                    0 < k < name@.len() && name@[k] == '.' && (forall|j: int|
                        k < j < name@.len() ==> name@[j] != '.') && is_image_extension(
                        name@.subrange(k + 1, name@.len() as int),
                    );
                assert(k >= i);
            }
        }
        return false;
    }
    let k: usize = i - 1;
    let mut ext = String::new();
    let mut m: usize = i;
    while m < n
        invariant
            i <= m <= n == chars@.len(),
            ext@ == chars@.subrange(i as int, m as int).map_values(|c: char| ascii_lower(c)),
        decreases n - m,
    {
        push_char(&mut ext, lower_char(chars[m]));
        m += 1;
        assert(ext@ =~= chars@.subrange(i as int, m as int).map_values(|c: char| ascii_lower(c)));
    }
    let r = ext == "png".to_owned() || ext == "jpg".to_owned() || ext == "jpeg".to_owned() || ext
        == "gif".to_owned();
    proof {
        if r {
            assert(0 < k < name@.len() && name@[k as int] == '.');
        } else if has_image_extension(name@) {
            let k2 = choose|k2: int|
                0 < k2 < name@.len() && name@[k2] == '.' && (forall|j: int|
                    k2 < j < name@.len() ==> name@[j] != '.') && is_image_extension(
                    name@.subrange(k2 + 1, name@.len() as int),
                );
            assert(k2 == k);
        }
    }
    r
}

/// The manifest text to write when the manifest names no asset: the
/// names of `file_names` that have an image extension, sorted, one per
/// line; `None` where no name has one.
pub fn bootstrap_manifest(file_names: &Vec<String>) -> (r: Option<String>)
    ensures
        r is None <==> image_names(file_names@).len() == 0,
        r matches Some(text) ==> exists|sel: Seq<String>|
            sel.to_multiset() == image_names(file_names@).to_multiset() && sorted_strings(sel)
                && text@ == join_lines(views(sel)),
{
    let mut chosen: Vec<String> = Vec::new();
    let mut i: usize = 0;
    while i < file_names.len()
        invariant
            i <= file_names@.len(),
            chosen@ == image_names(file_names@.subrange(0, i as int)),
        decreases file_names@.len() - i,
    {
        let name = &file_names[i];
        assert(file_names@.subrange(0, i as int + 1).drop_last() =~= file_names@.subrange(
            0,
            i as int,
        ));
        if image_extension(name.as_str()) {
            chosen.push(name.clone());
        }
        i += 1;
    }
    assert(file_names@.subrange(0, file_names@.len() as int) =~= file_names@);
    let ghost unsorted = chosen@;
    sort_strings(&mut chosen);
    proof {
        chosen@.to_multiset_ensures();
        unsorted.to_multiset_ensures();
    }
    if chosen.len() == 0 {
        return None;
    }
    let mut text = String::new();
    let mut j: usize = 0;
    while j < chosen.len()
        invariant
            j <= chosen@.len(),
            text@ == join_lines(views(chosen@.subrange(0, j as int))),
        decreases chosen@.len() - j,
    {
        let ghost before = views(chosen@.subrange(0, j as int));
        let ghost after = views(chosen@.subrange(0, j as int + 1));
        assert(after.drop_last() =~= before);
        if j > 0 {
            push_char(&mut text, '\n');
        }
        let ghost mid = text@;
        let line = chosen[j].as_str();
        let cs = chars_of(line);
        let mut m: usize = 0;
        while m < cs.len()
            invariant
                m <= cs@.len(),
                text@ == mid + cs@.subrange(0, m as int),
            decreases cs@.len() - m,
        {
            push_char(&mut text, cs[m]);
            m += 1;
            assert(text@ =~= mid + cs@.subrange(0, m as int));
        }
        assert(cs@.subrange(0, cs@.len() as int) =~= cs@);
        proof {
            if j == 0 {
                assert(after.len() == 1);
                assert(text@ =~= after[0]);
            } else {
                assert(text@ =~= join_lines(before) + seq!['\n'] + after.last());
            }
        }
        j += 1;
    }
    assert(chosen@.subrange(0, chosen@.len() as int) =~= chosen@);
    Some(text)
}

/// Whether the manifest `text` names no asset, so that a first manifest is
/// to be made.
pub fn needs_bootstrap(text: &str, base: &str) -> (r: bool)
    ensures
        r == (manifest_entries(text@, base@).len() == 0),
{
    let entries = parse_manifest(text, base);
    entries.len() == 0
}

} // verus!
