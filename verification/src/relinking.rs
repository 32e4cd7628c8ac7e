//! What the window says after it has pointed the tracks of a mix at their
//! files: which tracks the library found elsewhere, which have no file to
//! play and why, and where the window looked. The reading of the library
//! and of the files happens around this; what is said about it, and which
//! lanes show that their file is missing, is worked out here.

use vstd::prelude::*;
use crate::status::{counted, track_count};
use crate::text::{joined, owned};
use crate::units::ContentHash;

verus! {

/// What a lane says in place of a waveform when the window has no audio for
/// its track.
#[derive(Clone, Copy, Debug, PartialEq, Eq, Structural)]
pub enum NoFile {
    /// There is no file at the path the mix document names for the track.
    Missing,
    /// A file is at the path the mix document names, and its content hash is
    /// not the one the document names for the track.
    Changed,
    /// A file is at the path the mix document names, and the window could
    /// not read it.
    Unreadable,
}

/// What the lane's label says about the file.
pub open spec fn label_of(note: NoFile) -> Seq<char> {
    match note {
        NoFile::Missing => "  \u{b7}  the file is missing"@,
        NoFile::Changed => "  \u{b7}  the file has changed"@,
        NoFile::Unreadable => "  \u{b7}  the file cannot be read"@,
    }
}

impl NoFile {
    /// What the lane's label says about the file, ready to be added to the
    /// end of the label.
    pub fn label(self) -> (r: &'static str)
        ensures
            r@ == label_of(self),
    {
        match self {
            NoFile::Missing => "  \u{b7}  the file is missing",
            NoFile::Changed => "  \u{b7}  the file has changed",
            NoFile::Unreadable => "  \u{b7}  the file cannot be read",
        }
    }
}

/// What became of one track when the window looked for its file.
pub enum Outcome {
    /// The file is where the document says.
    Kept,
    /// The library found the file elsewhere, and the track now points at it.
    Relinked {
        /// The name the status line gives the file.
        name: String,
    },
    /// The track has no file to play.
    Missing {
        /// The track's content hash.
        hash: ContentHash,
        /// The name the status line gives the file.
        name: String,
        /// What is wrong with the file at the track's path.
        note: NoFile,
        /// The reason the operating system gave, where it gave one.
        reason: Option<String>,
    },
}

/// An outcome as the contracts speak of it.
pub enum OutcomeView {
    Kept,
    Relinked(Seq<char>),
    Missing(Seq<u8>, Seq<char>, NoFile, Option<Seq<char>>),
}

impl View for Outcome {
    type V = OutcomeView;

    open spec fn view(&self) -> OutcomeView {
        match self {
            Outcome::Kept => OutcomeView::Kept,
            Outcome::Relinked { name } => OutcomeView::Relinked(name@),
            Outcome::Missing { hash, name, note, reason } => OutcomeView::Missing(
                hash@,
                name@,
                *note,
                match reason {
                    Some(r) => Some(r@),
                    None => None,
                },
            ),
        }
    }
}

/// The four lists the status line names files in.
#[derive(Clone, Copy, PartialEq, Eq, Structural)]
pub enum Listing {
    /// Tracks the library found elsewhere.
    Relinked,
    /// Tracks with no file at their path.
    Gone,
    /// Tracks whose file has other bytes.
    Changed,
    /// Tracks whose file could not be read.
    Unreadable,
}

/// What stands in the place of a reason the operating system did not give.
pub const NO_REASON: &'static str = "no reason given";

/// How `o` is named in the list `which`, if it belongs there.
pub open spec fn entry_of(o: OutcomeView, which: Listing) -> Option<Seq<char>> {
    match o {
        OutcomeView::Kept => None,
        OutcomeView::Relinked(name) => if which == Listing::Relinked {
            Some(name)
        } else {
            None
        },
        OutcomeView::Missing(_, name, note, reason) => match (note, which) {
            (NoFile::Missing, Listing::Gone) => Some(name),
            (NoFile::Changed, Listing::Changed) => Some(name),
            (NoFile::Unreadable, Listing::Unreadable) => Some(
                name + " ("@ + match reason {
                    Some(r) => r,
                    None => NO_REASON@,
                } + ")"@,
            ),
            _ => None,
        },
    }
}

/// The names of the outcomes `outs` in the list `which`, in order.
pub open spec fn entries(outs: Seq<OutcomeView>, which: Listing) -> Seq<Seq<char>>
    decreases outs.len(),
{
    if outs.len() == 0 {
        Seq::empty()
    } else {
        entries(outs.drop_last(), which) + match entry_of(outs.last(), which) {
            Some(e) => seq![e],
            None => Seq::empty(),
        }
    }
}

/// What is wrong with the file of each track of `outs` that has no file to
/// play, by content hash. Where two tracks share a hash, the later track's
/// note stands.
pub open spec fn notes(outs: Seq<OutcomeView>) -> Map<Seq<u8>, NoFile>
    decreases outs.len(),
{
    if outs.len() == 0 {
        Map::empty()
    } else {
        match outs.last() {
            OutcomeView::Missing(hash, _, note, _) => notes(outs.drop_last()).insert(hash, note),
            _ => notes(outs.drop_last()),
        }
    }
}

/// The pairs of a list of notes, each hash taken by its bytes.
pub open spec fn pairs(list: Seq<(ContentHash, NoFile)>) -> Seq<(Seq<u8>, NoFile)> {
    list.map_values(|p: (ContentHash, NoFile)| (p.0@, p.1))
}

/// Whether `list` holds the notes `m` and nothing else: every hash once,
/// each with its note, and every hash of `m` somewhere in it.
pub open spec fn lists_exactly(list: Seq<(Seq<u8>, NoFile)>, m: Map<Seq<u8>, NoFile>) -> bool {
    &&& forall|i: int, j: int| 0 <= i < j < list.len() ==> #[trigger] list[i].0 != #[trigger] list[j].0
    &&& forall|k: int| 0 <= k < list.len() ==> #[trigger] m.contains_key(list[k].0) && m[list[k].0] == list[k].1
    &&& forall|h: Seq<u8>| #[trigger] m.contains_key(h) ==> exists|k: int| 0 <= k < list.len() && #[trigger] list[k].0 == h
}

/// Notes that the file of the track with `hash` has `note` wrong with it,
/// in place of a note the list already holds for that hash.
fn note_file(
    no_file: &mut Vec<(ContentHash, NoFile)>,
    hash: ContentHash,
    note: NoFile,
    Ghost(m): Ghost<Map<Seq<u8>, NoFile>>,
)
    requires
        lists_exactly(pairs(old(no_file)@), m),
    ensures
        lists_exactly(pairs(final(no_file)@), m.insert(hash@, note)),
{
    let ghost before = pairs(no_file@);
    let mut j: usize = 0;
    while j < no_file.len()
        invariant
            j <= no_file@.len(),
            pairs(no_file@) == before,
            lists_exactly(before, m),
            forall|k: int| 0 <= k < j ==> #[trigger] before[k].0 != hash@,
        decreases no_file@.len() - j,
    {
        if no_file[j].0.same(&hash) {
            no_file.set(j, (hash, note));
            proof {
                let after = pairs(no_file@);
                let m2 = m.insert(hash@, note);
                assert(after.len() == before.len());
                assert forall|k: int| 0 <= k < after.len() && k != j implies #[trigger] after[k] == before[k] by {}
                assert(after[j as int] == (hash@, note));
                assert forall|a: int, b: int| 0 <= a < b < after.len() implies #[trigger] after[a].0 != #[trigger] after[b].0 by {
                    assert(before[a].0 != before[b].0);
                }
                assert forall|k: int| 0 <= k < after.len() implies #[trigger] m2.contains_key(after[k].0) && m2[after[k].0] == after[k].1 by {
                    if k != j {
                        assert(before[k].0 != before[j as int].0);
                        assert(m.contains_key(before[k].0));
                    }
                }
                assert forall|h: Seq<u8>| #[trigger] m2.contains_key(h) implies exists|k: int| 0 <= k < after.len() && #[trigger] after[k].0 == h by {
                    if h == hash@ {
                        assert(after[j as int].0 == h);
                    } else {
                        assert(m.contains_key(h));
                        let k = choose|k: int| 0 <= k < before.len() && #[trigger] before[k].0 == h;
                        assert(k != j);
                        assert(after[k].0 == h);
                    }
                }
            }
            return;
        }
        j = j + 1;
    }
    no_file.push((hash, note));
    proof {
        let after = pairs(no_file@);
        let m2 = m.insert(hash@, note);
        assert(after =~= before.push((hash@, note)));
        assert(!m.contains_key(hash@)) by {
            if m.contains_key(hash@) {
                let k = choose|k: int| 0 <= k < before.len() && #[trigger] before[k].0 == hash@;
                assert(before[k].0 != hash@);
            }
        }
        assert forall|a: int, b: int| 0 <= a < b < after.len() implies #[trigger] after[a].0 != #[trigger] after[b].0 by {
            if b < before.len() {
                assert(before[a].0 != before[b].0);
            } else {
                assert(before[a].0 != hash@);
            }
        }
        assert forall|k: int| 0 <= k < after.len() implies #[trigger] m2.contains_key(after[k].0) && m2[after[k].0] == after[k].1 by {
            if k < before.len() {
                assert(m.contains_key(before[k].0));
                assert(before[k].0 != hash@);
            }
        }
        assert forall|h: Seq<u8>| #[trigger] m2.contains_key(h) implies exists|k: int| 0 <= k < after.len() && #[trigger] after[k].0 == h by {
            if h == hash@ {
                assert(after[before.len() as int].0 == h);
            } else {
                assert(m.contains_key(h));
                let k = choose|k: int| 0 <= k < before.len() && #[trigger] before[k].0 == h;
                assert(after[k].0 == h);
            }
        }
    }
}

/// The texts of `list` one after another, with `sep` between each two.
pub open spec fn joined_with(list: Seq<Seq<char>>, sep: Seq<char>) -> Seq<char>
    decreases list.len(),
{
    if list.len() == 0 {
        Seq::empty()
    } else if list.len() == 1 {
        list[0]
    } else {
        joined_with(list.drop_last(), sep) + sep + list.last()
    }
}

/// The texts of `list` one after another, with `sep` between each two, as
/// [`joined_with`] says.
pub fn join_all(list: &Vec<String>, sep: &str) -> (r: String)
    ensures
        r@ == joined_with(list@.map_values(|s: String| s@), sep@),
{
    let ghost views = list@.map_values(|s: String| s@);
    let mut r = String::new();
    let mut i: usize = 0;
    while i < list.len()
        invariant
            i <= list@.len(),
            views == list@.map_values(|s: String| s@),
            r@ == joined_with(views.take(i as int), sep@),
        decreases list@.len() - i,
    {
        assert(views.take(i + 1).drop_last() =~= views.take(i as int));
        if i == 0 {
            r = owned(list[i].as_str());
            assert(views.take(1) =~= seq![views[0]]);
        } else {
            let with_sep = joined(r.as_str(), sep);
            r = joined(with_sep.as_str(), list[i].as_str());
        }
        i = i + 1;
    }
    assert(views.take(list@.len() as int) =~= views);
    r
}

/// One sentence that names the tracks `names` after `start` and their count.
pub open spec fn naming(start: Seq<char>, middle: Seq<char>, names: Seq<Seq<char>>) -> Seq<Seq<char>> {
    if names.len() == 0 {
        Seq::empty()
    } else {
        seq![start + counted(names.len(), "track"@) + middle + joined_with(names, ", "@) + "."@]
    }
}

/// Where the window looked for files with the bytes of the tracks it could
/// not place.
pub open spec fn where_it_looked(opened: bool, index_given: bool) -> Seq<char> {
    if opened {
        "The library contains no other file with the same bytes."@
    } else if index_given {
        "The library file could not be opened, so there was nowhere to look."@
    } else {
        "There is no library to look in."@
    }
}

/// The advice that follows where the window looked.
pub const RELINK_ADVICE: &'static str = " Run `dermixen mix relink` with the folders to search.";

/// The sentences the status line says after looking for the files of
/// `outs`.
pub open spec fn sentences(outs: Seq<OutcomeView>, opened: bool, index_given: bool) -> Seq<
    Seq<char>,
> {
    let gone = entries(outs, Listing::Gone);
    let changed = entries(outs, Listing::Changed);
    naming("The window relinked "@, " from the library: "@, entries(outs, Listing::Relinked))
        + naming("The file of "@, " is missing: "@, gone) + naming(
        "The file of "@,
        " has changed: "@,
        changed,
    ) + naming("The file of "@, " could not be read: "@, entries(outs, Listing::Unreadable))
        + if gone.len() > 0 || changed.len() > 0 {
        seq![where_it_looked(opened, index_given) + RELINK_ADVICE@]
    } else {
        Seq::empty()
    }
}

/// What relinking did to a mix.
pub struct Relinking {
    /// Whether any track was pointed at a new path, which is a change to the
    /// document that a save keeps.
    pub relinked: bool,
    /// What is wrong with the file of every track the window has no audio
    /// for, by content hash, each hash once.
    pub no_file: Vec<(ContentHash, NoFile)>,
    /// What the status line says about the relinking, empty when there is
    /// nothing to say.
    pub message: String,
}

/// The names of the outcomes in the list `which`, as [`entries`] says.
fn listed(outcomes: &Vec<Outcome>, which: Listing) -> (r: Vec<String>)
    ensures
        r@.map_values(|s: String| s@) == entries(outcomes@.map_values(|o: Outcome| o@), which),
{
    let ghost outs = outcomes@.map_values(|o: Outcome| o@);
    let mut r: Vec<String> = Vec::new();
    let mut i: usize = 0;
    while i < outcomes.len()
        invariant
            i <= outcomes@.len(),
            outs == outcomes@.map_values(|o: Outcome| o@),
            r@.map_values(|s: String| s@) == entries(outs.take(i as int), which),
        decreases outcomes@.len() - i,
    {
        assert(outs.take(i + 1).drop_last() =~= outs.take(i as int));
        assert(outs.take(i + 1).last() == outcomes@[i as int]@);
        let ghost before = r@;
        match &outcomes[i] {
            Outcome::Kept => {},
            Outcome::Relinked { name } => {
                if which == Listing::Relinked {
                    r.push(name.clone());
                }
            },
            Outcome::Missing { name, note, reason, .. } => {
                let belongs = match (*note, which) {
                    (NoFile::Missing, Listing::Gone) => true,
                    (NoFile::Changed, Listing::Changed) => true,
                    _ => false,
                };
                if belongs {
                    r.push(name.clone());
                } else if *note == NoFile::Unreadable && which == Listing::Unreadable {
                    let why = match reason {
                        Some(text) => text.clone(),
                        None => owned(NO_REASON),
                    };
                    let a = joined(name.as_str(), " (");
                    let b = joined(a.as_str(), why.as_str());
                    r.push(joined(b.as_str(), ")"));
                }
            },
        }
        assert(r@.map_values(|s: String| s@) =~= entries(outs.take(i + 1), which));
        i = i + 1;
    }
    assert(outs.take(outcomes@.len() as int) =~= outs);
    r
}

fn naming_sentence(start: &str, middle: &str, names: &Vec<String>, said: &mut Vec<String>)
    ensures
        final(said)@.map_values(|s: String| s@) == old(said)@.map_values(|s: String| s@)
            + naming(start@, middle@, names@.map_values(|s: String| s@)),
{
    if names.len() == 0 {
        assert(final(said)@.map_values(|s: String| s@) =~= old(said)@.map_values(
            |s: String| s@,
        ) + naming(start@, middle@, names@.map_values(|s: String| s@)));
        return;
    }
    let count = track_count(names.len());
    let list = join_all(names, ", ");
    let a = joined(start, count.as_str());
    let b = joined(a.as_str(), middle);
    let c = joined(b.as_str(), list.as_str());
    let d = joined(c.as_str(), ".");
    said.push(d);
    assert(said@.map_values(|s: String| s@) =~= old(said)@.map_values(|s: String| s@) + naming(
        start@,
        middle@,
        names@.map_values(|s: String| s@),
    ));
}

/// What relinking did to a mix whose tracks came out as `outcomes`, in
/// playlist order: whether any track now points at a new file, which tracks
/// have no file to play and why, and what the status line says. `opened`
/// says whether the library file could be opened and `index_given` whether
/// there is a library file at all, which decide where the window says it
/// looked for a file it could not place.
pub fn relinking_of(outcomes: &Vec<Outcome>, opened: bool, index_given: bool) -> (r: Relinking)
    ensures
        r.relinked == (entries(outcomes@.map_values(|o: Outcome| o@), Listing::Relinked).len()
            > 0),
        lists_exactly(pairs(r.no_file@), notes(outcomes@.map_values(|o: Outcome| o@))),
        r.message@ == joined_with(
            sentences(outcomes@.map_values(|o: Outcome| o@), opened, index_given),
            " "@,
        ),
{
    let ghost outs = outcomes@.map_values(|o: Outcome| o@);
    let relinked = listed(outcomes, Listing::Relinked);
    let gone = listed(outcomes, Listing::Gone);
    let changed = listed(outcomes, Listing::Changed);
    let unreadable = listed(outcomes, Listing::Unreadable);

    let mut no_file: Vec<(ContentHash, NoFile)> = Vec::new();
    let mut i: usize = 0;
    while i < outcomes.len()
        invariant
            i <= outcomes@.len(),
            outs == outcomes@.map_values(|o: Outcome| o@),
            lists_exactly(pairs(no_file@), notes(outs.take(i as int))),
        decreases outcomes@.len() - i,
    {
        assert(outs.take(i + 1).drop_last() =~= outs.take(i as int));
        assert(outs.take(i + 1).last() == outcomes@[i as int]@);
        if let Outcome::Missing { hash, note, .. } = &outcomes[i] {
            note_file(&mut no_file, *hash, *note, Ghost(notes(outs.take(i as int))));
        }
        i = i + 1;
    }
    assert(outs.take(outcomes@.len() as int) =~= outs);

    let mut said: Vec<String> = Vec::new();
    naming_sentence("The window relinked ", " from the library: ", &relinked, &mut said);
    naming_sentence("The file of ", " is missing: ", &gone, &mut said);
    naming_sentence("The file of ", " has changed: ", &changed, &mut said);
    naming_sentence("The file of ", " could not be read: ", &unreadable, &mut said);
    if gone.len() > 0 || changed.len() > 0 {
        let looked = if opened {
            "The library contains no other file with the same bytes."
        } else if index_given {
            "The library file could not be opened, so there was nowhere to look."
        } else {
            "There is no library to look in."
        };
        let ghost before = said@.map_values(|s: String| s@);
        said.push(joined(looked, RELINK_ADVICE));
        assert(said@.map_values(|s: String| s@) =~= before + seq![
            where_it_looked(opened, index_given) + RELINK_ADVICE@,
        ]);
    }
    assert(said@.map_values(|s: String| s@) =~= sentences(outs, opened, index_given));
    let message = join_all(&said, " ");
    Relinking { relinked: relinked.len() > 0, no_file, message }
}

/// The start of the message when the library could not be read partway
/// through the looking.
pub const NOT_EVERY_TRACK: &'static str = "Not every track was looked for: ";

/// What the status line says when the library file could not be read
/// partway through the looking: which library, and the reason.
pub open spec fn failure_of(index: Option<Seq<char>>, reason: Seq<char>) -> Seq<char> {
    NOT_EVERY_TRACK@ + match index {
        Some(path) => "the library file at "@ + path,
        None => "the library"@,
    } + " could not be read: "@ + reason
}

/// What the status line says when the library file at `index` could not be
/// read partway through the looking, for `reason`. Only an open library
/// file can fail the pass, so `index` names a file in practice; the other
/// case keeps the sentence true rather than naming a file there is none of.
pub fn relink_failure(index: Option<&str>, reason: &str) -> (r: String)
    ensures
        r@ == failure_of(
            match index {
                Some(p) => Some(p@),
                None => None,
            },
            reason@,
        ),
{
    let which = match index {
        Some(path) => joined("the library file at ", path),
        None => owned("the library"),
    };
    let a = joined(NOT_EVERY_TRACK, which.as_str());
    let b = joined(a.as_str(), " could not be read: ");
    joined(b.as_str(), reason)
}

/// Whether any track points at another path after the looking than before
/// it, which is a change to the document a save has to keep even when the
/// looking stopped partway.
pub fn any_path_changed(before: &Vec<String>, after: &Vec<String>) -> (r: bool)
    ensures
        r == exists|k: int|
            0 <= k < before@.len() && k < after@.len() && before@[k]@ != after@[k]@,
{
    let n = if before.len() < after.len() { before.len() } else { after.len() };
    let mut k: usize = 0;
    while k < n
        invariant
            k <= n,
            n <= before@.len(),
            n <= after@.len(),
            n == before@.len() || n == after@.len(),
            forall|m: int| 0 <= m < k ==> before@[m]@ == after@[m]@,
        decreases n - k,
    {
        if before[k] != after[k] {
            return true;
        }
        k = k + 1;
    }
    false
}

}
