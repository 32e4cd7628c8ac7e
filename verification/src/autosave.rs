//! The autosave file: which file protects the unsaved changes of a mix. A
//! mix that has a project file is protected by a file beside that project
//! file, and an untitled mix by one file in the user's data folder.

use vstd::prelude::*;
use crate::paths::{file_name_of, join, joined_path, tail_segment};
use crate::text::joined;

verus! {

/// The folder below the user's data folder that Dermixen keeps its own files
/// in.
pub const DATA_FOLDER: &'static str = "dermixen";

/// The name of the autosave file for a mix that has no file of its own,
/// below the `dermixen` folder in the user's data folder.
pub const UNTITLED_AUTOSAVE: &'static str = "untitled.autosave";

/// What the autosave file's name adds to the project file's whole name.
pub const AUTOSAVE_SUFFIX: &'static str = ".autosave";

/// What the name of the file a write goes through adds to the whole name of
/// the file written.
pub const PART_SUFFIX: &'static str = ".part";

/// The autosave file beside the project file `project`.
pub open spec fn autosave_path_of(project: Seq<char>) -> Seq<char> {
    project + AUTOSAVE_SUFFIX@
}

/// The autosave file of an untitled mix, below the data folder `data`.
pub open spec fn untitled_autosave_of(data: Seq<char>) -> Seq<char> {
    joined_path(joined_path(data, DATA_FOLDER@), UNTITLED_AUTOSAVE@)
}

/// A path with `suffix` appended to its whole name rather than substituted
/// for its extension, which leaves the new path in the same folder as
/// `path`.
pub fn beside(path: &str, suffix: &str) -> (r: String)
    ensures
        r@ == path@ + suffix@,
{
    joined(path, suffix)
}

/// The autosave file beside `project`: the project's path with `.autosave`
/// appended to its file name, so `set.dmx` is protected by `set.dmx.autosave`
/// in the same folder.
pub fn autosave_path(project: &str) -> (r: String)
    ensures
        r@ == autosave_path_of(project@),
{
    beside(project, AUTOSAVE_SUFFIX)
}

/// The autosave file for a mix that has no file of its own: `untitled.autosave`
/// in the `dermixen` folder below `data_folder`, which is the user's data
/// folder. The folder is not made here.
pub fn untitled_autosave_path(data_folder: &str) -> (r: String)
    ensures
        r@ == untitled_autosave_of(data_folder@),
{
    let folder = join(data_folder, DATA_FOLDER);
    join(folder.as_str(), UNTITLED_AUTOSAVE)
}

/// The temporary file a write of `path` goes through, beside `path`: the
/// whole name with `.part` appended.
pub fn temporary_path(path: &str) -> (r: String)
    ensures
        r@ == path@ + PART_SUFFIX@,
{
    beside(path, PART_SUFFIX)
}

/// What looking at an autosave file found, as plain facts: no file, a file
/// that could not be read (with the reason the operating system gave), text
/// that is no mix document (with the reason the document reader gave), or a
/// mix document, which is either the same document as the one it is set
/// beside or another.
pub enum Found {
    /// There is no file.
    Missing,
    /// The file exists but could not be read.
    Unreadable(String),
    /// The file was read, and its text is not a mix document.
    NotAMix(String),
    /// The file holds a mix document; `same` says whether it is the document
    /// it protects against: the project file's, or the empty mix for an
    /// untitled one.
    Mix { same: bool },
}

/// What becomes of an autosave file, given what was found in it.
#[derive(Debug, PartialEq, Eq)]
pub enum Verdict {
    /// Nothing to offer, and nothing to do.
    Nothing,
    /// Nothing to offer, since the file protects nothing: it is removed.
    Remove,
    /// The document it holds is offered back.
    Restore,
    /// The file is left where it is, and the status line says why it could
    /// not be offered.
    Report(String),
}

/// The sentence for a file that exists but could not be read.
pub open spec fn cannot_read(file: Seq<char>, problem: Seq<char>) -> Seq<char> {
    "cannot read "@ + file + ": "@ + problem
}

/// The sentence for a file whose text is not a mix document.
pub open spec fn not_a_mix(file: Seq<char>, problem: Seq<char>) -> Seq<char> {
    file + " contains unsaved changes that could not be read as a mix document: "@ + problem
}

/// What becomes of the autosave file `file`, given what was found in it: a
/// missing file is nothing to offer; a file that holds the very document it
/// protects protects nothing and is removed; one that holds another
/// document is offered back; and one that cannot be read, or holds no mix
/// document, is left where it is and reported by name, so that its contents
/// are not lost to the next edit unannounced.
pub fn verdict(file: &str, found: Found) -> (r: Verdict)
    ensures
        match found {
            Found::Missing => r == Verdict::Nothing,
            Found::Mix { same: true } => r == Verdict::Remove,
            Found::Mix { same: false } => r == Verdict::Restore,
            Found::Unreadable(problem) => r matches Verdict::Report(m) && m@ == cannot_read(file@, problem@),
            Found::NotAMix(problem) => r matches Verdict::Report(m) && m@ == not_a_mix(file@, problem@),
        },
{
    match found {
        Found::Missing => Verdict::Nothing,
        Found::Mix { same } => if same {
            Verdict::Remove
        } else {
            Verdict::Restore
        },
        Found::Unreadable(problem) => {
            let a = joined("cannot read ", file);
            let b = joined(a.as_str(), ": ");
            let m = joined(b.as_str(), problem.as_str());
            assert(m@ =~= cannot_read(file@, problem@));
            Verdict::Report(m)
        },
        Found::NotAMix(problem) => {
            let a = joined(file, " contains unsaved changes that could not be read as a mix document: ");
            let m = joined(a.as_str(), problem.as_str());
            assert(m@ =~= not_a_mix(file@, problem@));
            Verdict::Report(m)
        },
    }
}

/// The user's data folder.
///
/// Calls `dirs::data_dir`, whose answer comes from the environment and the
/// platform, and hands the folder back as text. Nothing is claimed of the
/// answer.
#[verifier::external_body]
pub(crate) fn data_folder() -> Option<String> {
    dirs::data_dir().map(|folder| folder.to_string_lossy().into_owned())
}

/// The autosave file for a mix that has no file of its own, which is one
/// file in the user's data folder. A user with no data folder has nowhere to
/// keep it, and an untitled mix is then not protected.
pub fn untitled_autosave_file() -> (r: Option<String>)
    ensures
        r matches Some(file) ==> exists|data: Seq<char>| file@ == untitled_autosave_of(data),
{
    match data_folder() {
        Some(data) => Some(untitled_autosave_path(data.as_str())),
        None => None,
    }
}

proof fn lemma_tail_segment_extends(p: Seq<char>, s: Seq<char>)
    requires
        forall|m: int| 0 <= m < s.len() ==> s[m] != '/',
    ensures
        tail_segment(p + s) == tail_segment(p) + s,
    decreases s.len(),
{
    if s.len() == 0 {
        assert(p + s =~= p);
        assert(tail_segment(p) + s =~= tail_segment(p));
    } else {
        lemma_tail_segment_extends(p, s.drop_last());
        assert((p + s).drop_last() =~= p + s.drop_last());
        assert(tail_segment(p) + s =~= (tail_segment(p) + s.drop_last()).push(s.last()));
    }
}

/// A project file that ends in its file name is protected by the file of
/// the same name with `.autosave` appended, in the same folder.
pub proof fn autosave_file_is_named_after_the_project(project: Seq<char>, name: Seq<char>)
    requires
        file_name_of(project) == Some(name),
        tail_segment(project) == name,
    ensures
        file_name_of(autosave_path_of(project)) == Some(name + AUTOSAVE_SUFFIX@),
        autosave_path_of(project).subrange(0, project.len() - name.len())
            == project.subrange(0, project.len() - name.len()),
{
    reveal_strlit(".autosave");
    let suffix = AUTOSAVE_SUFFIX@;
    let whole = project + suffix;
    lemma_tail_segment_extends(project, suffix);
    assert(whole.last() == 'e');
    assert(whole.len() > 0);
    let seg = tail_segment(whole);
    assert(seg == name + suffix);
    assert(seg.len() >= 9);
    assert(seg != seq!['.']);
    assert(seg != seq!['.', '.']);
    assert(whole.subrange(0, project.len() - name.len()) =~= project.subrange(
        0,
        project.len() - name.len(),
    )) by {
        assert(tail_segment(project).len() <= project.len()) by {
            lemma_tail_segment_len(project);
        }
    }
}

proof fn lemma_tail_segment_len(p: Seq<char>)
    ensures
        tail_segment(p).len() <= p.len(),
    decreases p.len(),
{
    if p.len() > 0 && p.last() != '/' {
        lemma_tail_segment_len(p.drop_last());
    }
}

}
