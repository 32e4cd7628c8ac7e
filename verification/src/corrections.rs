//! The correction loop: an anchor a person moves, or a grid a person fixes,
//! written out as ground truth. This is where the file is named and what it
//! holds is laid out; the numbers in it come already written.

use vstd::prelude::*;
use crate::paths::{file_name_of, join, joined_path, path_file_name};
use crate::text::{chars_of, joined, owned, string_of};
use crate::units::ContentHash;

verus! {

/// The position of the last `.` in `name`, or `-1` where it has none.
pub open spec fn last_dot(name: Seq<char>) -> int
    decreases name.len(),
{
    if name.len() == 0 {
        -1
    } else if name.last() == '.' {
        name.len() - 1
    } else {
        last_dot(name.drop_last())
    }
}

proof fn lemma_last_dot(name: Seq<char>)
    ensures
        -1 <= last_dot(name) < name.len(),
        last_dot(name) >= 0 ==> name[last_dot(name)] == '.',
        forall|k: int| last_dot(name) < k < name.len() ==> name[k] != '.',
    decreases name.len(),
{
    if name.len() > 0 && name.last() != '.' {
        lemma_last_dot(name.drop_last());
        assert forall|k: int| last_dot(name) < k < name.len() implies name[k] != '.' by {
            if k < name.len() - 1 {
                assert(name.drop_last()[k] == name[k]);
            }
        }
    }
}

/// The stem of a file name, as `Path::file_stem` takes it: the name up to
/// its last `.`, or the whole name where it has no `.` but at its start.
pub open spec fn stem_of(name: Seq<char>) -> Seq<char> {
    if last_dot(name) <= 0 {
        name
    } else {
        name.subrange(0, last_dot(name))
    }
}

/// What a correction's file is named after: the stem of the audio file's
/// name, or the whole path where the path has no file name.
pub open spec fn correction_stem(path: Seq<char>) -> Seq<char> {
    match file_name_of(path) {
        Some(name) => stem_of(name),
        None => path,
    }
}

/// The character that writes the hexadecimal digit `d`, in lowercase.
pub open spec fn hex_char(d: int) -> char {
    if d < 10 {
        (('0' as int) + d) as char
    } else {
        (('a' as int) + d - 10) as char
    }
}

/// `b` as two lowercase hexadecimal digits.
pub open spec fn byte_hex(b: u8) -> Seq<char> {
    seq![hex_char(b as int / 16), hex_char(b as int % 16)]
}

/// The name of the correction file for a track at `path` whose content hash
/// is `hash`: the stem, a hyphen, the first eight hexadecimal digits of the
/// hash, and `.anchors`.
pub open spec fn correction_name_of(path: Seq<char>, hash: Seq<u8>) -> Seq<char> {
    correction_stem(path) + seq!['-'] + byte_hex(hash[0]) + byte_hex(hash[1]) + byte_hex(hash[2])
        + byte_hex(hash[3]) + ".anchors"@
}

fn hex_digit(d: u8) -> (c: char)
    requires
        d < 16,
    ensures
        c == hex_char(d as int),
{
    if d < 10 {
        let c = (48u8 + d) as char;
        assert(c == hex_char(d as int)) by {
            assert((48u8 + d) as int == ('0' as int) + d as int);
        }
        c
    } else {
        let c = (97u8 + d - 10) as char;
        assert(c == hex_char(d as int)) by {
            assert((97u8 + d - 10) as int == ('a' as int) + d as int - 10);
        }
        c
    }
}

/// The stem of the file name `name`, as [`stem_of`] says.
fn stem(name: &str) -> (r: String)
    ensures
        r@ == stem_of(name@),
{
    let cs = chars_of(name);
    let mut k = cs.len();
    while k > 0 && cs[k - 1] != '.'
        invariant
            k <= cs@.len(),
            cs@ == name@,
            forall|m: int| k <= m < cs@.len() ==> cs@[m] != '.',
        decreases k,
    {
        k = k - 1;
    }
    proof {
        lemma_last_dot(cs@);
        if k > 0 {
            assert(cs@[k - 1] == '.');
            assert(last_dot(cs@) == k - 1);
        } else {
            assert(last_dot(cs@) == -1) by {
                if last_dot(cs@) >= 0 {
                    assert(cs@[last_dot(cs@)] == '.');
                }
            }
        }
    }
    if k <= 1 {
        owned(name)
    } else {
        string_of(&cs, 0, k - 1)
    }
}

/// The name of the correction file for a track at `path` with `hash`, as
/// [`correction_name_of`] says. Two tracks that share a file name in
/// different folders keep separate corrections, since their hashes differ.
pub fn correction_name(path: &str, hash: &ContentHash) -> (r: String)
    ensures
        r@ == correction_name_of(path@, hash@),
{
    let base = match path_file_name(path) {
        Some(name) => stem(name.as_str()),
        None => owned(path),
    };
    let mut r = joined(base.as_str(), "-");
    proof {
        reveal_strlit("-");
    }
    let mut i: usize = 0;
    while i < 4
        invariant
            i <= 4,
            hash@.len() == 32,
            r@ == correction_stem(path@) + seq!['-'] + hex_of_first(hash@, i as int),
        decreases 4 - i,
    {
        let b = hash.0[i];
        let hi = hex_digit(b / 16);
        let lo = hex_digit(b % 16);
        let two = two_chars(hi, lo);
        r = joined(r.as_str(), two.as_str());
        assert(hex_of_first(hash@, i + 1) =~= hex_of_first(hash@, i as int) + byte_hex(hash@[i as int]));
        i = i + 1;
    }
    let out = joined(r.as_str(), ".anchors");
    proof {
        let h = hash@;
        assert(hex_of_first(h, 1) =~= byte_hex(h[0]));
        assert(hex_of_first(h, 2) =~= byte_hex(h[0]) + byte_hex(h[1]));
        assert(hex_of_first(h, 3) =~= byte_hex(h[0]) + byte_hex(h[1]) + byte_hex(h[2]));
        assert(hex_of_first(h, 4) =~= byte_hex(h[0]) + byte_hex(h[1]) + byte_hex(h[2]) + byte_hex(h[3]));
    }
    assert(out@ =~= correction_name_of(path@, hash@));
    out
}

/// The hexadecimal digits of the first `n` bytes of `hash`.
pub open spec fn hex_of_first(hash: Seq<u8>, n: int) -> Seq<char>
    decreases n,
{
    if n <= 0 {
        Seq::empty()
    } else {
        hex_of_first(hash, n - 1) + byte_hex(hash[n - 1])
    }
}

fn two_chars(a: char, b: char) -> (r: String)
    ensures
        r@ == seq![a, b],
{
    let cs = vec![a, b];
    let r = string_of(&cs, 0, 2);
    assert(cs@.subrange(0, 2) =~= seq![a, b]);
    r
}

/// Where the correction for a track at `path` with `hash` is written:
/// the correction's name joined below the folder `dir`.
pub fn correction_path(dir: &str, path: &str, hash: &ContentHash) -> (r: String)
    ensures
        r@ == joined_path(dir@, correction_name_of(path@, hash@)),
{
    let name = correction_name(path, hash);
    join(dir, name.as_str())
}

/// The comment line a correction file begins with.
pub const WRITTEN_BY: &'static str = "# Written by the Dermixen timeline from a correction made by hand.\n";

/// What a correction file holds, one line each and in this order: the
/// comment, the track's path, the grid's tempo, beat zero in seconds, and
/// the intro and outro anchors in seconds with the source `ear`, each
/// number as it comes already written, and one newline after the last line.
pub open spec fn correction_text_of(
    path: Seq<char>,
    bpm: Seq<char>,
    first_beat: Seq<char>,
    intro: Seq<char>,
    outro: Seq<char>,
) -> Seq<char> {
    WRITTEN_BY@ + "file "@ + path + "\n"@ + "bpm "@ + bpm + "\n"@ + "first_beat "@ + first_beat
        + "\n"@ + "intro "@ + intro + " ear\n"@ + "outro "@ + outro + " ear\n"@
}

fn with_line(text: String, start: &str, value: &str, end: &str) -> (r: String)
    ensures
        r@ == text@ + start@ + value@ + end@,
{
    let a = joined(text.as_str(), start);
    let b = joined(a.as_str(), value);
    let r = joined(b.as_str(), end);
    assert(r@ =~= text@ + start@ + value@ + end@);
    r
}

/// What a correction file holds, as [`correction_text_of`] says.
pub fn correction_text(
    path: &str,
    bpm: &str,
    first_beat: &str,
    intro: &str,
    outro: &str,
) -> (r: String)
    ensures
        r@ == correction_text_of(path@, bpm@, first_beat@, intro@, outro@),
{
    let t = owned(WRITTEN_BY);
    let t = with_line(t, "file ", path, "\n");
    let t = with_line(t, "bpm ", bpm, "\n");
    let t = with_line(t, "first_beat ", first_beat, "\n");
    let t = with_line(t, "intro ", intro, " ear\n");
    let t = with_line(t, "outro ", outro, " ear\n");
    assert(t@ =~= correction_text_of(path@, bpm@, first_beat@, intro@, outro@));
    t
}

}
