//! Paths as the window names files: a path's file name, a path with a
//! suffix appended to its whole name, and a name joined below a folder.
//! Paths are held as text, with `/` as the separator, as on macOS and Linux.

use vstd::prelude::*;
use vstd::string::*;
use crate::text::{chars_of, joined, owned, string_of};

verus! {

/// The last run of characters in `p` that holds no separator.
pub open spec fn tail_segment(p: Seq<char>) -> Seq<char>
    decreases p.len(),
{
    if p.len() == 0 || p.last() == '/' {
        Seq::empty()
    } else {
        tail_segment(p.drop_last()).push(p.last())
    }
}

/// The final component of the path `p`, when it is a name, as
/// `Path::file_name` gives it: separators at the end and `.` components
/// after the first are passed over, a path whose final component is `..`
/// has no file name, and neither has a path of no components, such as the
/// empty path, `/`, or `.`.
pub open spec fn file_name_of(p: Seq<char>) -> Option<Seq<char>>
    decreases p.len(),
{
    if p.len() == 0 {
        None
    } else if p.last() == '/' {
        file_name_of(p.drop_last())
    } else {
        let seg = tail_segment(p);
        if seg == seq!['.'] {
            file_name_of(p.drop_last())
        } else if seg == seq!['.', '.'] {
            None
        } else {
            Some(seg)
        }
    }
}

/// The view of a text that may be absent.
pub open spec fn opt_view(s: Option<String>) -> Option<Seq<char>> {
    match s {
        Some(s) => Some(s@),
        None => None,
    }
}

pub proof fn lemma_tail_segment_split(p: Seq<char>, k: int)
    requires
        0 <= k <= p.len(),
        forall|m: int| k <= m < p.len() ==> p[m] != '/',
    ensures
        tail_segment(p) == tail_segment(p.subrange(0, k)) + p.subrange(k, p.len() as int),
    decreases p.len(),
{
    if k == p.len() {
        assert(p.subrange(0, k) =~= p);
        assert(p.subrange(k, p.len() as int) =~= Seq::<char>::empty());
    } else {
        lemma_tail_segment_split(p.drop_last(), k);
        assert(p.drop_last().subrange(0, k) =~= p.subrange(0, k));
        assert(p.subrange(k, p.len() as int) =~= p.drop_last().subrange(
            k,
            p.len() - 1,
        ).push(p.last()));
    }
}

/// The file name of the path `path`, as [`file_name_of`] says.
pub fn path_file_name(path: &str) -> (r: Option<String>)
    ensures
        opt_view(r) == file_name_of(path@),
{
    let cs = chars_of(path);
    let mut end: usize = cs.len();
    assert(cs@.subrange(0, end as int) =~= cs@);
    loop
        invariant
            end <= cs@.len(),
            cs@ == path@,
            file_name_of(cs@) == file_name_of(cs@.subrange(0, end as int)),
        decreases end,
    {
        if end == 0 {
            return None;
        }
        let ghost p = cs@.subrange(0, end as int);
        if cs[end - 1] == '/' {
            assert(p.drop_last() =~= cs@.subrange(0, end - 1));
            end = end - 1;
        } else {
            let mut start: usize = end;
            while start > 0 && cs[start - 1] != '/'
                invariant
                    start <= end <= cs@.len(),
                    forall|m: int| start <= m < end ==> cs@[m] != '/',
                decreases start,
            {
                start = start - 1;
            }
            proof {
                lemma_tail_segment_split(p, start as int);
                assert(p.subrange(0, start as int) =~= cs@.subrange(0, start as int));
                assert(p.subrange(start as int, end as int) =~= cs@.subrange(
                    start as int,
                    end as int,
                ));
                if start > 0 {
                    assert(p.subrange(0, start as int).last() == '/');
                }
                assert(tail_segment(p) =~= cs@.subrange(start as int, end as int));
            }
            if end - start == 1 && cs[start] == '.' {
                assert(tail_segment(p) =~= seq!['.']);
                assert(p.drop_last() =~= cs@.subrange(0, end - 1));
                end = end - 1;
            } else if end - start == 2 && cs[start] == '.' && cs[start + 1] == '.' {
                assert(tail_segment(p) =~= seq!['.', '.']);
                return None;
            } else {
                let ghost seg = cs@.subrange(start as int, end as int);
                assert(tail_segment(p) != seq!['.']) by {
                    if seg == seq!['.'] {
                        assert(seg.len() == 1 && seg[0] == '.');
                    }
                }
                assert(tail_segment(p) != seq!['.', '.']) by {
                    if seg == seq!['.', '.'] {
                        assert(seg.len() == 2 && seg[0] == '.' && seg[1] == '.');
                    }
                }
                return Some(string_of(&cs, start, end));
            }
        }
    }
}

/// The path `path`, or its file name where it has one, which is how the
/// window names a file for a person: a path that ends in no file name is
/// named by the whole path.
pub open spec fn shown_name_of(path: Seq<char>) -> Seq<char> {
    match file_name_of(path) {
        Some(name) => name,
        None => path,
    }
}

/// A file's name for the status line, or its whole path when the path ends
/// in no file name.
pub fn file_name(path: &str) -> (r: String)
    ensures
        r@ == shown_name_of(path@),
{
    match path_file_name(path) {
        Some(name) => name,
        None => owned(path),
    }
}

/// `name` joined below the folder `base`, as `Path::join` joins them: an
/// absolute `name` takes the place of `base`, and otherwise a separator goes
/// between the two unless `base` is empty or already ends in one.
pub open spec fn joined_path(base: Seq<char>, name: Seq<char>) -> Seq<char> {
    if name.len() > 0 && name[0] == '/' {
        name
    } else if base.len() == 0 || base.last() == '/' {
        base + name
    } else {
        base + seq!['/'] + name
    }
}

/// `name` joined below `base`, as [`joined_path`] says.
pub fn join(base: &str, name: &str) -> (r: String)
    ensures
        r@ == joined_path(base@, name@),
{
    let ns = chars_of(name);
    if ns.len() > 0 && ns[0] == '/' {
        return owned(name);
    }
    let cs = chars_of(base);
    let n = cs.len();
    if n == 0 || cs[n - 1] == '/' {
        joined(base, name)
    } else {
        let with_sep = joined(base, "/");
        proof {
            reveal_strlit("/");
        }
        let r = joined(with_sep.as_str(), name);
        r
    }
}

}
